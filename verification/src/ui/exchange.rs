//! What the tray and the management service send each other is read back as
//! sent: a request framed by the tray parses into the method, path and body
//! it was built from, and the body of a management response is exactly what
//! follows its first blank line.

use crate::text::{
    ascii_lower, decimal_digits, eq_ignore_ascii_case, first_two_tokens, index_of, is_whitespace, lines,
    lossy_text, segments, strip_cr,
};
use crate::ui::server::{
    blank_line_at, content_length_of, first_content_length, header_end, header_end_from, line_content_length,
    admin_response_head, read_state, request_parse, RequestReadState, MAX_HTTP_REQUEST_SIZE,
};
use crate::ui::tray::admin_request_head;
use vstd::prelude::*;
use vstd::utf8::{encode_scalar, encode_utf8};

verus! {

proof fn lemma_encode_concat(a: Seq<char>, b: Seq<char>)
    ensures
        encode_utf8(a + b) == encode_utf8(a) + encode_utf8(b),
    decreases a.len(),
{
    if a.len() == 0 {
        assert(a + b =~= b);
        assert(encode_utf8(a) =~= Seq::<u8>::empty());
        assert(encode_utf8(a) + encode_utf8(b) =~= encode_utf8(b));
    } else {
        lemma_encode_concat(a.drop_first(), b);
        assert((a + b).drop_first() =~= a.drop_first() + b);
        assert((a + b)[0] == a[0]);
        let head = encode_scalar(a[0] as u32);
        assert(head + (encode_utf8(a.drop_first()) + encode_utf8(b)) =~= (head + encode_utf8(a.drop_first()))
            + encode_utf8(b));
    }
}

/// Every character of `s` is ASCII.
spec fn is_ascii_text(s: Seq<char>) -> bool {
    forall|i: int| 0 <= i < s.len() ==> (#[trigger] s[i] as u32) < 0x80
}

proof fn lemma_encode_ascii(s: Seq<char>)
    requires
        is_ascii_text(s),
    ensures
        encode_utf8(s).len() == s.len(),
        forall|i: int| 0 <= i < s.len() ==> #[trigger] encode_utf8(s)[i] == (s[i] as u32) as u8,
    decreases s.len(),
{
    if s.len() > 0 {
        let rest = s.drop_first();
        assert forall|i: int| 0 <= i < rest.len() implies (#[trigger] rest[i] as u32) < 0x80 by {
            assert(rest[i] == s[i + 1]);
        }
        lemma_encode_ascii(rest);
        let v = s[0] as u32;
        assert(v < 0x80);
        assert(v & 0x7F == v) by (bit_vector)
            requires
                v < 0x80,
        ;
        assert(encode_scalar(v) == seq![v as u8]);
        assert forall|i: int| 0 <= i < s.len() implies #[trigger] encode_utf8(s)[i] == (s[i] as u32) as u8 by {
            if i > 0 {
                assert(rest[i - 1] == s[i]);
            }
        }
    }
}

proof fn lemma_scalar_bytes_not_cr(v: u32)
    requires
        v != 13,
    ensures
        forall|j: int| 0 <= j < encode_scalar(v).len() ==> #[trigger] encode_scalar(v)[j] != 13,
{
    assert(v < 0x80 && v != 13 ==> (v & 0x7F) as u8 != 13) by (bit_vector);
    assert(((0xC0u8 | ((v >> 6) & 0x1F) as u8) as u8) != 13) by (bit_vector);
    assert(((0xE0u8 | ((v >> 12) & 0x0F) as u8) as u8) != 13) by (bit_vector);
    assert(((0xF0u8 | ((v >> 18) & 0x7) as u8) as u8) != 13) by (bit_vector);
    assert(((0x80u8 | (v & 0x3F) as u8) as u8) != 13) by (bit_vector);
    assert(((0x80u8 | ((v >> 6) & 0x3F) as u8) as u8) != 13) by (bit_vector);
    assert(((0x80u8 | ((v >> 12) & 0x3F) as u8) as u8) != 13) by (bit_vector);
}

proof fn lemma_encode_without_cr(s: Seq<char>)
    requires
        !s.contains('\r'),
    ensures
        forall|i: int| 0 <= i < encode_utf8(s).len() ==> #[trigger] encode_utf8(s)[i] != 13,
    decreases s.len(),
{
    if s.len() > 0 {
        let rest = s.drop_first();
        assert(!rest.contains('\r')) by {
            if rest.contains('\r') {
                let k = choose|k: int| 0 <= k < rest.len() && rest[k] == '\r';
                assert(s[k + 1] == '\r');
            }
        }
        lemma_encode_without_cr(rest);
        assert(s[0] != '\r');
        assert(('\r' as u32) == 13);
        assert((s[0] as u32) != 13) by {
            vstd::utf8::char_u32_cast(s[0], s[0] as u32);
        }
        lemma_scalar_bytes_not_cr(s[0] as u32);
        let head = encode_scalar(s[0] as u32);
        assert forall|i: int| 0 <= i < encode_utf8(s).len() implies #[trigger] encode_utf8(s)[i] != 13 by {
            if i < head.len() {
                assert(encode_utf8(s)[i] == head[i]);
            } else {
                assert(encode_utf8(s)[i] == encode_utf8(rest)[i - head.len()]);
            }
        }
    }
}

/// Every carriage return is followed, two bytes later and within `b`, by a
/// byte that is not a carriage return.
spec fn cr_skips_two(b: Seq<u8>) -> bool {
    forall|i: int| 0 <= i < b.len() && #[trigger] b[i] == 13 ==> i + 2 < b.len() && b[i + 2] != 13
}

proof fn lemma_cr_skips_two_concat(x: Seq<u8>, y: Seq<u8>)
    requires
        cr_skips_two(x),
        cr_skips_two(y),
    ensures
        cr_skips_two(x + y),
{
    let z = x + y;
    assert forall|i: int| 0 <= i < z.len() && #[trigger] z[i] == 13 implies i + 2 < z.len() && z[i + 2] != 13 by {
        if i < x.len() {
            assert(x[i] == 13);
            assert(z[i + 2] == x[i + 2]);
        } else {
            assert(y[i - x.len()] == 13);
            assert(z[i + 2] == y[i - x.len() + 2]);
        }
    }
}

proof fn lemma_no_cr_skips(b: Seq<u8>)
    requires
        forall|i: int| 0 <= i < b.len() ==> #[trigger] b[i] != 13,
    ensures
        cr_skips_two(b),
{
}

proof fn lemma_constant_pieces()
    ensures
        cr_skips_two(encode_utf8(" HTTP/1.1\r\nHost: 127.0.0.1:"@)),
        cr_skips_two(encode_utf8("\r\nConnection: close\r\nContent-Length: "@)),
        cr_skips_two(encode_utf8("\r\nContent-Type: application/json"@)),
        cr_skips_two(encode_utf8(" "@)),
        encode_utf8("\r\n\r\n"@) == seq![13u8, 10u8, 13u8, 10u8],
{
    reveal_strlit(" HTTP/1.1\r\nHost: 127.0.0.1:");
    reveal_strlit("\r\nConnection: close\r\nContent-Length: ");
    reveal_strlit("\r\nContent-Type: application/json");
    reveal_strlit(" ");
    reveal_strlit("\r\n\r\n");
    let k1 = " HTTP/1.1\r\nHost: 127.0.0.1:"@;
    let k2 = "\r\nConnection: close\r\nContent-Length: "@;
    let k3 = "\r\nContent-Type: application/json"@;
    let sp = " "@;
    let blank = "\r\n\r\n"@;
    assert(is_ascii_text(k1));
    assert(is_ascii_text(k2));
    assert(is_ascii_text(k3));
    assert(is_ascii_text(sp));
    assert(is_ascii_text(blank));
    lemma_encode_ascii(k1);
    lemma_encode_ascii(k2);
    lemma_encode_ascii(k3);
    lemma_encode_ascii(sp);
    lemma_encode_ascii(blank);
    assert(encode_utf8(blank) =~= seq![13u8, 10u8, 13u8, 10u8]);
}

/// The part of the tray's request head before the blank line.
spec fn head_lines(method: Seq<char>, path: Seq<char>, admin_port: u16, length: nat) -> Seq<char> {
    method + " "@ + path + " HTTP/1.1\r\nHost: 127.0.0.1:"@ + decimal_digits(admin_port as nat)
        + "\r\nConnection: close\r\nContent-Length: "@ + decimal_digits(length)
        + "\r\nContent-Type: application/json"@
}

proof fn lemma_head_split(method: Seq<char>, path: Seq<char>, admin_port: u16, length: nat)
    ensures
        admin_request_head(method, path, admin_port, length) == head_lines(method, path, admin_port, length)
            + "\r\n\r\n"@,
{
    reveal_strlit("\r\nContent-Type: application/json\r\n\r\n");
    reveal_strlit("\r\nContent-Type: application/json");
    reveal_strlit("\r\n\r\n");
    assert("\r\nContent-Type: application/json\r\n\r\n"@ =~= "\r\nContent-Type: application/json"@ + "\r\n\r\n"@);
    assert(admin_request_head(method, path, admin_port, length) =~= head_lines(method, path, admin_port, length)
        + "\r\n\r\n"@);
}

proof fn lemma_digits_without_cr(n: nat)
    ensures
        !decimal_digits(n).contains('\r'),
{
    crate::text::lemma_decimal_digits_are_digits(n);
    if decimal_digits(n).contains('\r') {
        let k = choose|k: int| 0 <= k < decimal_digits(n).len() && decimal_digits(n)[k] == '\r';
        assert('0' <= decimal_digits(n)[k] <= '9');
    }
}

proof fn lemma_token_without_cr(t: Seq<char>)
    requires
        forall|i: int| 0 <= i < t.len() ==> !is_whitespace(#[trigger] t[i]),
    ensures
        !t.contains('\r'),
{
    if t.contains('\r') {
        let k = choose|k: int| 0 <= k < t.len() && t[k] == '\r';
        assert(is_whitespace(t[k]));
    }
}

proof fn lemma_encoded_head_lines(method: Seq<char>, path: Seq<char>, admin_port: u16, length: nat)
    requires
        forall|i: int| 0 <= i < method.len() ==> !is_whitespace(#[trigger] method[i]),
        forall|i: int| 0 <= i < path.len() ==> !is_whitespace(#[trigger] path[i]),
    ensures
        cr_skips_two(encode_utf8(head_lines(method, path, admin_port, length))),
{
    let sp = " "@;
    let k1 = " HTTP/1.1\r\nHost: 127.0.0.1:"@;
    let d1 = decimal_digits(admin_port as nat);
    let k2 = "\r\nConnection: close\r\nContent-Length: "@;
    let d2 = decimal_digits(length);
    let k3 = "\r\nContent-Type: application/json"@;
    lemma_constant_pieces();
    lemma_token_without_cr(method);
    lemma_token_without_cr(path);
    lemma_digits_without_cr(admin_port as nat);
    lemma_digits_without_cr(length);
    lemma_encode_without_cr(method);
    lemma_encode_without_cr(path);
    lemma_encode_without_cr(d1);
    lemma_encode_without_cr(d2);
    lemma_no_cr_skips(encode_utf8(method));
    lemma_no_cr_skips(encode_utf8(path));
    lemma_no_cr_skips(encode_utf8(d1));
    lemma_no_cr_skips(encode_utf8(d2));
    let p1 = method + sp;
    let p2 = p1 + path;
    let p3 = p2 + k1;
    let p4 = p3 + d1;
    let p5 = p4 + k2;
    let p6 = p5 + d2;
    let p7 = p6 + k3;
    lemma_encode_concat(method, sp);
    lemma_cr_skips_two_concat(encode_utf8(method), encode_utf8(sp));
    lemma_encode_concat(p1, path);
    lemma_cr_skips_two_concat(encode_utf8(p1), encode_utf8(path));
    lemma_encode_concat(p2, k1);
    lemma_cr_skips_two_concat(encode_utf8(p2), encode_utf8(k1));
    lemma_encode_concat(p3, d1);
    lemma_cr_skips_two_concat(encode_utf8(p3), encode_utf8(d1));
    lemma_encode_concat(p4, k2);
    lemma_cr_skips_two_concat(encode_utf8(p4), encode_utf8(k2));
    lemma_encode_concat(p5, d2);
    lemma_cr_skips_two_concat(encode_utf8(p5), encode_utf8(d2));
    lemma_encode_concat(p6, k3);
    lemma_cr_skips_two_concat(encode_utf8(p6), encode_utf8(k3));
    assert(p7 == head_lines(method, path, admin_port, length));
}

proof fn lemma_header_end_first(b: Seq<u8>, from: int, n: int)
    requires
        0 <= from <= n,
        blank_line_at(b, n),
        forall|i: int| from <= i < n ==> !blank_line_at(b, i),
    ensures
        header_end_from(b, from) == Some(n),
    decreases n - from,
{
    if from < n {
        lemma_header_end_first(b, from + 1, n);
    }
}

/// The header block of a request the tray sends ends right after its head
/// lines.
proof fn lemma_request_header_end(method: Seq<char>, path: Seq<char>, admin_port: u16, body: Seq<u8>)
    requires
        forall|i: int| 0 <= i < method.len() ==> !is_whitespace(#[trigger] method[i]),
        forall|i: int| 0 <= i < path.len() ==> !is_whitespace(#[trigger] path[i]),
    ensures
        ({
            let lines_bytes = encode_utf8(head_lines(method, path, admin_port, body.len()));
            let request = encode_utf8(admin_request_head(method, path, admin_port, body.len())) + body;
            &&& header_end(request) == Some(lines_bytes.len() as int)
            &&& request.take(lines_bytes.len() as int) == lines_bytes
            &&& request.len() == lines_bytes.len() + 4 + body.len()
            &&& request.subrange(lines_bytes.len() + 4int, lines_bytes.len() + 4int + body.len()) == body
        }),
{
    let h0 = head_lines(method, path, admin_port, body.len());
    let lines_bytes = encode_utf8(h0);
    lemma_head_split(method, path, admin_port, body.len());
    lemma_constant_pieces();
    lemma_encode_concat(h0, "\r\n\r\n"@);
    lemma_encoded_head_lines(method, path, admin_port, body.len());
    let request = encode_utf8(admin_request_head(method, path, admin_port, body.len())) + body;
    let n = lines_bytes.len() as int;
    assert(request =~= lines_bytes + seq![13u8, 10u8, 13u8, 10u8] + body);
    assert(blank_line_at(request, n));
    assert forall|i: int| 0 <= i < n implies !blank_line_at(request, i) by {
        if request[i] == 13 {
            assert(lines_bytes[i] == 13);
            assert(i + 2 < n);
            assert(request[i + 2] == lines_bytes[i + 2]);
        }
    }
    lemma_header_end_first(request, 0, n);
    assert(request.take(n) =~= lines_bytes);
    assert(request.subrange(n + 4, n + 4 + body.len()) =~= body);
}

proof fn lemma_no_newline(t: Seq<char>)
    requires
        forall|i: int| 0 <= i < t.len() ==> !is_whitespace(#[trigger] t[i]),
    ensures
        !t.contains('\n'),
{
    if t.contains('\n') {
        let k = choose|k: int| 0 <= k < t.len() && t[k] == '\n';
        assert(is_whitespace(t[k]));
    }
}

proof fn lemma_digits_plain(n: nat)
    ensures
        !decimal_digits(n).contains('\n'),
        !decimal_digits(n).contains(':'),
        decimal_digits(n).len() > 0,
        forall|i: int| 0 <= i < decimal_digits(n).len() ==> !is_whitespace(#[trigger] decimal_digits(n)[i]),
{
    let d = decimal_digits(n);
    crate::text::lemma_decimal_digits_are_digits(n);
    if d.contains('\n') {
        let k = choose|k: int| 0 <= k < d.len() && d[k] == '\n';
        assert('0' <= d[k] <= '9');
    }
    if d.contains(':') {
        let k = choose|k: int| 0 <= k < d.len() && d[k] == ':';
        assert('0' <= d[k] <= '9');
    }
    assert forall|i: int| 0 <= i < d.len() implies !is_whitespace(#[trigger] d[i]) by {
        assert('0' <= d[i] <= '9');
    }
}

/// The head lines split into the request line and the four headers.
proof fn lemma_head_pieces(method: Seq<char>, path: Seq<char>, admin_port: u16, length: nat)
    requires
        forall|i: int| 0 <= i < method.len() ==> !is_whitespace(#[trigger] method[i]),
        forall|i: int| 0 <= i < path.len() ==> !is_whitespace(#[trigger] path[i]),
    ensures
        lines(head_lines(method, path, admin_port, length)) == seq![
            method + seq![' '] + path + " HTTP/1.1"@,
            "Host: 127.0.0.1:"@ + decimal_digits(admin_port as nat),
            "Connection: close"@,
            "Content-Length: "@ + decimal_digits(length),
            "Content-Type: application/json"@,
        ],
{
    reveal_strlit(" ");
    reveal_strlit(" HTTP/1.1\r\nHost: 127.0.0.1:");
    reveal_strlit("\r\nConnection: close\r\nContent-Length: ");
    reveal_strlit("\r\nContent-Type: application/json");
    reveal_strlit(" HTTP/1.1");
    reveal_strlit(" HTTP/1.1\r");
    reveal_strlit("Host: 127.0.0.1:");
    reveal_strlit("\r");
    reveal_strlit("Connection: close\r");
    reveal_strlit("Connection: close");
    reveal_strlit("Content-Length: ");
    reveal_strlit("Content-Type: application/json");
    let d1 = decimal_digits(admin_port as nat);
    let d2 = decimal_digits(length);
    let p0 = method + seq![' '] + path + " HTTP/1.1\r"@;
    let p1 = "Host: 127.0.0.1:"@ + d1 + "\r"@;
    let p2 = "Connection: close\r"@;
    let p3 = "Content-Length: "@ + d2 + "\r"@;
    let p4 = "Content-Type: application/json"@;
    let nl = '\n';
    let h0 = head_lines(method, path, admin_port, length);
    let rest3 = p3 + seq![nl] + p4;
    let rest2 = p2 + seq![nl] + rest3;
    let rest1 = p1 + seq![nl] + rest2;
    assert(h0 =~= p0 + seq![nl] + rest1);
    lemma_no_newline(method);
    lemma_no_newline(path);
    lemma_digits_plain(admin_port as nat);
    lemma_digits_plain(length);
    assert(!p0.contains(nl)) by {
        if p0.contains(nl) {
            let k = choose|k: int| 0 <= k < p0.len() && p0[k] == nl;
            if k < method.len() {
                assert(method[k] == nl);
            } else if k > method.len() && k < method.len() + 1 + path.len() {
                assert(path[k - method.len() - 1] == nl);
            }
        }
    }
    assert(!p1.contains(nl)) by {
        if p1.contains(nl) {
            let k = choose|k: int| 0 <= k < p1.len() && p1[k] == nl;
            if 16 <= k < 16 + d1.len() {
                assert(d1[k - 16] == nl);
            }
        }
    }
    assert(!p2.contains(nl));
    assert(!p3.contains(nl)) by {
        if p3.contains(nl) {
            let k = choose|k: int| 0 <= k < p3.len() && p3[k] == nl;
            if 16 <= k < 16 + d2.len() {
                assert(d2[k - 16] == nl);
            }
        }
    }
    assert(!p4.contains(nl));
    crate::text::lemma_segments_after_piece(p0, nl, rest1);
    crate::text::lemma_segments_after_piece(p1, nl, rest2);
    crate::text::lemma_segments_after_piece(p2, nl, rest3);
    crate::text::lemma_segments_after_piece(p3, nl, p4);
    crate::text::lemma_segments_single_piece(p4, nl);
    let pieces = segments(h0, nl);
    assert(pieces =~= seq![p0, p1, p2, p3, p4]);
    assert(strip_cr(p0) =~= method + seq![' '] + path + " HTTP/1.1"@);
    assert(strip_cr(p1) =~= "Host: 127.0.0.1:"@ + d1);
    assert(strip_cr(p2) =~= "Connection: close"@);
    assert(strip_cr(p3) =~= "Content-Length: "@ + d2);
    assert(pieces.take(4).map_values(|p: Seq<char>| strip_cr(p)) =~= seq![strip_cr(p0), strip_cr(p1), strip_cr(p2), strip_cr(p3)]);
}

proof fn lemma_request_line_has_no_length(method: Seq<char>, path: Seq<char>)
    ensures
        line_content_length(method + seq![' '] + path + " HTTP/1.1"@) is None,
{
    reveal_strlit(" HTTP/1.1");
    let l = method + seq![' '] + path + " HTTP/1.1"@;
    let n = l.len() as int;
    crate::text::lemma_index_of_from_bounds(l, ':', 0);
    let k = index_of(l, ':');
    if k >= 0 {
        assert(l[k] == ':');
        if k >= n - 9 {
            assert(l[k] == (" HTTP/1.1"@)[k - (n - 9)]);
        }
        let value = l.skip(k + 1);
        let j = n - 8 - (k + 1);
        assert(value[j] == l[n - 8]);
        assert(l[n - 8] == 'H');
        assert(!is_whitespace('H'));
        crate::text::lemma_no_text_value(value, j);
    }
}

proof fn lemma_other_headers_have_no_length(admin_port: u16)
    ensures
        line_content_length("Host: 127.0.0.1:"@ + decimal_digits(admin_port as nat)) is None,
        line_content_length("Connection: close"@) is None,
        line_content_length("Content-Type: application/json"@) is None,
{
    reveal_strlit("Host: 127.0.0.1:");
    reveal_strlit("Connection: close");
    reveal_strlit("Content-Type: application/json");
    reveal_strlit("content-length");
    let host = "Host: 127.0.0.1:"@ + decimal_digits(admin_port as nat);
    crate::text::lemma_index_of_from_first(host, ':', 0, 4);
    assert(host.take(4).len() == 4);
    crate::text::lemma_index_of_from_first("Connection: close"@, ':', 0, 10);
    crate::text::lemma_index_of_from_first("Content-Type: application/json"@, ':', 0, 12);
}

proof fn lemma_length_header(length: nat)
    requires
        length <= usize::MAX,
    ensures
        line_content_length("Content-Length: "@ + decimal_digits(length)) == Some(length as int),
{
    reveal_strlit("Content-Length: ");
    reveal_strlit("content-length");
    let d = decimal_digits(length);
    let l = "Content-Length: "@ + d;
    crate::text::lemma_index_of_from_first(l, ':', 0, 14);
    let name = l.take(14);
    let value = l.skip(15);
    assert(name =~= "Content-Length"@) by {
        reveal_strlit("Content-Length");
    }
    reveal_strlit("Content-Length");
    assert(eq_ignore_ascii_case(name, "content-length"@)) by {
        assert forall|i: int| 0 <= i < 14 implies ascii_lower(#[trigger] name[i]) == ascii_lower(("content-length"@)[i]) by {
            assert(('C' as u8) + 32 == 'c' as u8);
            assert(('L' as u8) + 32 == 'l' as u8);
        }
    }
    lemma_digits_plain(length);
    assert(value =~= seq![' '] + d);
    assert(is_whitespace(' '));
    crate::text::lemma_trim_window(value, 1, value.len() as int);
    assert(value.subrange(1, value.len() as int) =~= d);
    crate::text::lemma_decimal_text_value(length);
}

proof fn lemma_head_length(method: Seq<char>, path: Seq<char>, admin_port: u16, length: nat)
    requires
        forall|i: int| 0 <= i < method.len() ==> !is_whitespace(#[trigger] method[i]),
        forall|i: int| 0 <= i < path.len() ==> !is_whitespace(#[trigger] path[i]),
        length <= usize::MAX,
    ensures
        content_length_of(head_lines(method, path, admin_port, length)) == length,
{
    lemma_head_pieces(method, path, admin_port, length);
    lemma_request_line_has_no_length(method, path);
    lemma_other_headers_have_no_length(admin_port);
    lemma_length_header(length);
    let ls = lines(head_lines(method, path, admin_port, length));
    assert(ls.drop_first().drop_first().drop_first()[0] == ls[3]);
    assert(first_content_length(ls.drop_first().drop_first().drop_first()) == length);
    assert(first_content_length(ls.drop_first().drop_first()) == length);
    assert(first_content_length(ls.drop_first()) == length);
}

/// A request framed by the tray (method, path, the tray's headers with the
/// body's length, then the body) is read back by the management service as
/// exactly that method, path and body, for a method and path that are
/// non-empty and free of whitespace; once all of it has arrived (and it is
/// not oversized) the service stops reading.
pub proof fn lemma_tray_requests_are_read_back(method: Seq<char>, path: Seq<char>, admin_port: u16, body: Seq<u8>)
    requires
        method.len() > 0,
        path.len() > 0,
        forall|i: int| 0 <= i < method.len() ==> !is_whitespace(#[trigger] method[i]),
        forall|i: int| 0 <= i < path.len() ==> !is_whitespace(#[trigger] path[i]),
        body.len() <= usize::MAX,
    ensures
        request_parse(encode_utf8(admin_request_head(method, path, admin_port, body.len())) + body)
            == Ok::<(Seq<char>, Seq<char>, Seq<u8>), Seq<char>>((method, path, body)),
        (encode_utf8(admin_request_head(method, path, admin_port, body.len())) + body).len() <= MAX_HTTP_REQUEST_SIZE
            ==> read_state(encode_utf8(admin_request_head(method, path, admin_port, body.len())) + body)
            == RequestReadState::Complete,
{
    let h0 = head_lines(method, path, admin_port, body.len());
    let lines_bytes = encode_utf8(h0);
    let request = encode_utf8(admin_request_head(method, path, admin_port, body.len())) + body;
    lemma_request_header_end(method, path, admin_port, body);
    vstd::utf8::encode_utf8_valid_utf8(h0);
    vstd::utf8::encode_utf8_decode_utf8(h0);
    assert(lossy_text(request.take(lines_bytes.len() as int)) == h0);
    lemma_head_pieces(method, path, admin_port, body.len());
    reveal_strlit(" HTTP/1.1");
    assert(is_whitespace(' '));
    crate::text::lemma_first_two_tokens_of(method, path, " HTTP/1.1"@);
    lemma_head_length(method, path, admin_port, body.len());
}

proof fn lemma_text_without_cr(t: Seq<char>)
    requires
        !t.contains('\r'),
    ensures
        cr_skips_two(encode_utf8(t)),
{
    lemma_encode_without_cr(t);
    lemma_no_cr_skips(encode_utf8(t));
}

/// The part of a management response head before the blank line.
spec fn response_lines(status: Seq<char>, content_type: Seq<char>, length: nat) -> Seq<char> {
    "HTTP/1.1 "@ + status + "\r\nContent-Type: "@ + content_type + "\r\nContent-Length: "@ + decimal_digits(length)
        + "\r\nCache-Control: no-store\r\nConnection: close\r\nAccess-Control-Allow-Origin: *\r\nAccess-Control-Allow-Methods: GET, POST, DELETE, OPTIONS\r\nAccess-Control-Allow-Headers: Content-Type"@
}

proof fn lemma_response_constants()
    ensures
        cr_skips_two(encode_utf8("HTTP/1.1 "@)),
        cr_skips_two(encode_utf8("\r\nContent-Type: "@)),
        cr_skips_two(encode_utf8("\r\nContent-Length: "@)),
{
    reveal_strlit("HTTP/1.1 ");
    reveal_strlit("\r\nContent-Type: ");
    reveal_strlit("\r\nContent-Length: ");
    assert(is_ascii_text("HTTP/1.1 "@));
    assert(is_ascii_text("\r\nContent-Type: "@));
    assert(is_ascii_text("\r\nContent-Length: "@));
    lemma_encode_ascii("HTTP/1.1 "@);
    lemma_encode_ascii("\r\nContent-Type: "@);
    lemma_encode_ascii("\r\nContent-Length: "@);
}

#[verifier::rlimit(40)]
proof fn lemma_response_trailer()
    ensures
        cr_skips_two(encode_utf8("\r\nCache-Control: no-store\r\nConnection: close\r\nAccess-Control-Allow-Origin: *\r\nAccess-Control-Allow-Methods: GET, POST, DELETE, OPTIONS\r\nAccess-Control-Allow-Headers: Content-Type"@)),
        "\r\nCache-Control: no-store\r\nConnection: close\r\nAccess-Control-Allow-Origin: *\r\nAccess-Control-Allow-Methods: GET, POST, DELETE, OPTIONS\r\nAccess-Control-Allow-Headers: Content-Type\r\n\r\n"@ == "\r\nCache-Control: no-store\r\nConnection: close\r\nAccess-Control-Allow-Origin: *\r\nAccess-Control-Allow-Methods: GET, POST, DELETE, OPTIONS\r\nAccess-Control-Allow-Headers: Content-Type"@ + "\r\n\r\n"@,
{
    reveal_strlit("\r\nCache-Control: no-store\r\nConnection: close\r\nAccess-Control-Allow-Origin: *\r\nAccess-Control-Allow-Methods: GET, POST, DELETE, OPTIONS\r\nAccess-Control-Allow-Headers: Content-Type");
    reveal_strlit("\r\nCache-Control: no-store\r\nConnection: close\r\nAccess-Control-Allow-Origin: *\r\nAccess-Control-Allow-Methods: GET, POST, DELETE, OPTIONS\r\nAccess-Control-Allow-Headers: Content-Type\r\n\r\n");
    reveal_strlit("\r\n\r\n");
    assert("\r\nCache-Control: no-store\r\nConnection: close\r\nAccess-Control-Allow-Origin: *\r\nAccess-Control-Allow-Methods: GET, POST, DELETE, OPTIONS\r\nAccess-Control-Allow-Headers: Content-Type\r\n\r\n"@ =~= "\r\nCache-Control: no-store\r\nConnection: close\r\nAccess-Control-Allow-Origin: *\r\nAccess-Control-Allow-Methods: GET, POST, DELETE, OPTIONS\r\nAccess-Control-Allow-Headers: Content-Type"@ + "\r\n\r\n"@);
    assert(is_ascii_text("\r\nCache-Control: no-store\r\nConnection: close\r\nAccess-Control-Allow-Origin: *\r\nAccess-Control-Allow-Methods: GET, POST, DELETE, OPTIONS\r\nAccess-Control-Allow-Headers: Content-Type"@));
    lemma_encode_ascii("\r\nCache-Control: no-store\r\nConnection: close\r\nAccess-Control-Allow-Origin: *\r\nAccess-Control-Allow-Methods: GET, POST, DELETE, OPTIONS\r\nAccess-Control-Allow-Headers: Content-Type"@);
}

proof fn lemma_encoded_response_lines(status: Seq<char>, content_type: Seq<char>, length: nat)
    requires
        !status.contains('\r'),
        !content_type.contains('\r'),
    ensures
        cr_skips_two(encode_utf8(response_lines(status, content_type, length))),
        admin_response_head(status, content_type, length) == response_lines(status, content_type, length)
            + "\r\n\r\n"@,
{
    let k0 = "HTTP/1.1 "@;
    let k1 = "\r\nContent-Type: "@;
    let k2 = "\r\nContent-Length: "@;
    let k3 = "\r\nCache-Control: no-store\r\nConnection: close\r\nAccess-Control-Allow-Origin: *\r\nAccess-Control-Allow-Methods: GET, POST, DELETE, OPTIONS\r\nAccess-Control-Allow-Headers: Content-Type"@;
    let d = decimal_digits(length);
    lemma_response_constants();
    lemma_response_trailer();
    lemma_digits_without_cr(length);
    lemma_text_without_cr(status);
    lemma_text_without_cr(content_type);
    lemma_text_without_cr(d);
    let p1 = k0 + status;
    let p2 = p1 + k1;
    let p3 = p2 + content_type;
    let p4 = p3 + k2;
    let p5 = p4 + d;
    let p6 = p5 + k3;
    lemma_encode_concat(k0, status);
    lemma_cr_skips_two_concat(encode_utf8(k0), encode_utf8(status));
    lemma_encode_concat(p1, k1);
    lemma_cr_skips_two_concat(encode_utf8(p1), encode_utf8(k1));
    lemma_encode_concat(p2, content_type);
    lemma_cr_skips_two_concat(encode_utf8(p2), encode_utf8(content_type));
    lemma_encode_concat(p3, k2);
    lemma_cr_skips_two_concat(encode_utf8(p3), encode_utf8(k2));
    lemma_encode_concat(p4, d);
    lemma_cr_skips_two_concat(encode_utf8(p4), encode_utf8(d));
    lemma_encode_concat(p5, k3);
    lemma_cr_skips_two_concat(encode_utf8(p5), encode_utf8(k3));
    assert(p6 == response_lines(status, content_type, length));
    assert(admin_response_head(status, content_type, length) =~= response_lines(status, content_type, length)
        + "\r\n\r\n"@);
}

/// A management response (status, content type, the length of its body,
/// then the body) ends its header block right before the body, so a reader
/// that takes what follows the first blank line gets exactly the body, for
/// a status and content type without carriage returns.
pub proof fn lemma_response_body_follows_header(status: Seq<char>, content_type: Seq<char>, body: Seq<u8>)
    requires
        !status.contains('\r'),
        !content_type.contains('\r'),
    ensures
        ({
            let response = encode_utf8(admin_response_head(status, content_type, body.len())) + body;
            &&& header_end(response) matches Some(he)
            &&& response.subrange(he + 4, response.len() as int) == body
        }),
{
    let h0 = response_lines(status, content_type, body.len());
    lemma_encoded_response_lines(status, content_type, body.len());
    lemma_constant_pieces();
    lemma_encode_concat(h0, "\r\n\r\n"@);
    let lines_bytes = encode_utf8(h0);
    let response = encode_utf8(admin_response_head(status, content_type, body.len())) + body;
    let n = lines_bytes.len() as int;
    assert(response =~= lines_bytes + seq![13u8, 10u8, 13u8, 10u8] + body);
    assert(blank_line_at(response, n));
    assert forall|i: int| 0 <= i < n implies !blank_line_at(response, i) by {
        if response[i] == 13 {
            assert(lines_bytes[i] == 13);
            assert(i + 2 < n);
            assert(response[i + 2] == lines_bytes[i + 2]);
        }
    }
    lemma_header_end_first(response, 0, n);
    assert(response.subrange(n + 4, response.len() as int) =~= body);
}

} // verus!
