//! Text helpers shared by the protocol, preset and management modules:
//! decimal rendering of integers, character classes and character-level
//! access to strings.

use vstd::prelude::*;

verus! {

/// The ASCII digit for `d` (`0 <= d < 10`).
pub open spec fn digit_char(d: int) -> char {
    if d == 0 {
        '0'
    } else if d == 1 {
        '1'
    } else if d == 2 {
        '2'
    } else if d == 3 {
        '3'
    } else if d == 4 {
        '4'
    } else if d == 5 {
        '5'
    } else if d == 6 {
        '6'
    } else if d == 7 {
        '7'
    } else if d == 8 {
        '8'
    } else {
        '9'
    }
}

/// Decimal digits of a natural number, most significant first, no leading zeros.
pub open spec fn decimal_digits(n: nat) -> Seq<char>
    decreases n,
{
    if n < 10 {
        seq![digit_char(n as int)]
    } else {
        decimal_digits(n / 10).push(digit_char((n % 10) as int))
    }
}

/// Decimal rendering of an integer, as `Display` prints it.
pub open spec fn decimal(n: int) -> Seq<char> {
    if n < 0 {
        seq!['-'] + decimal_digits((-n) as nat)
    } else {
        decimal_digits(n as nat)
    }
}

/// The decimal digits of a number are a non-empty run of ASCII digits.
pub proof fn lemma_decimal_digits_are_digits(n: nat)
    ensures
        decimal_digits(n).len() >= 1,
        forall|i: int| 0 <= i < decimal_digits(n).len() ==> '0' <= #[trigger] decimal_digits(n)[i] <= '9',
    decreases n,
{
    if n >= 10 {
        lemma_decimal_digits_are_digits(n / 10);
    }
}

/// Distinct numbers have distinct decimal renderings.
pub proof fn lemma_decimal_digits_injective(a: nat, b: nat)
    requires
        decimal_digits(a) == decimal_digits(b),
    ensures
        a == b,
    decreases a,
{
    lemma_decimal_digits_are_digits(a / 10);
    lemma_decimal_digits_are_digits(b / 10);
    if a >= 10 && b >= 10 {
        let da = decimal_digits(a);
        let db = decimal_digits(b);
        assert(da.drop_last() =~= decimal_digits(a / 10));
        assert(db.drop_last() =~= decimal_digits(b / 10));
        assert(da.last() == db.last());
        assert(digit_char((a % 10) as int) == digit_char((b % 10) as int));
        assert(a % 10 == b % 10);
        lemma_decimal_digits_injective(a / 10, b / 10);
        assert(a == 10 * (a / 10) + a % 10);
        assert(b == 10 * (b / 10) + b % 10);
    } else if a >= 10 {
        assert(decimal_digits(a).len() >= 2);
    } else if b >= 10 {
        assert(decimal_digits(b).len() >= 2);
    } else {
        assert(decimal_digits(a)[0] == digit_char(a as int));
        assert(decimal_digits(b)[0] == digit_char(b as int));
    }
}

fn digit_str(d: u64) -> (r: &'static str)
    requires
        d < 10,
    ensures
        r@ == seq![digit_char(d as int)],
{
    proof {
        reveal_strlit("0");
        reveal_strlit("1");
        reveal_strlit("2");
        reveal_strlit("3");
        reveal_strlit("4");
        reveal_strlit("5");
        reveal_strlit("6");
        reveal_strlit("7");
        reveal_strlit("8");
        reveal_strlit("9");
    }
    if d == 0 {
        "0"
    } else if d == 1 {
        "1"
    } else if d == 2 {
        "2"
    } else if d == 3 {
        "3"
    } else if d == 4 {
        "4"
    } else if d == 5 {
        "5"
    } else if d == 6 {
        "6"
    } else if d == 7 {
        "7"
    } else if d == 8 {
        "8"
    } else {
        "9"
    }
}

/// Appends the decimal digits of `n` to `out`.
pub fn push_decimal_u64(out: &mut String, n: u64)
    ensures
        final(out)@ == old(out)@ + decimal_digits(n as nat),
    decreases n,
{
    if n >= 10 {
        push_decimal_u64(out, n / 10);
    }
    let d = digit_str(n % 10);
    out.append(d);
    proof {
        if n >= 10 {
            assert(decimal_digits(n as nat) == decimal_digits((n / 10) as nat).push(digit_char((n % 10) as int)));
        }
    }
}

/// Appends the decimal rendering of `n` to `out`.
pub fn push_decimal_i64(out: &mut String, n: i64)
    ensures
        final(out)@ == old(out)@ + decimal(n as int),
{
    if n < 0 {
        out.append("-");
        proof {
            reveal_strlit("-");
        }
        let magnitude: u64 = if n == i64::MIN { 0x8000_0000_0000_0000u64 } else { (-n) as u64 };
        push_decimal_u64(out, magnitude);
        proof {
            assert(old(out)@ + seq!['-'] + decimal_digits(magnitude as nat) =~= old(out)@ + decimal(n as int));
        }
    } else {
        push_decimal_u64(out, n as u64);
    }
}

/// Decimal rendering of `n`.
pub fn decimal_string(n: i64) -> (r: String)
    ensures
        r@ == decimal(n as int),
{
    let mut out = String::new();
    push_decimal_i64(&mut out, n);
    proof {
        assert(out@ =~= decimal(n as int));
    }
    out
}

/// Whether `c` has the Unicode `White_Space` property (what
/// `char::is_whitespace` tests).
pub open spec fn is_whitespace(c: char) -> bool {
    let v = c as u32;
    ||| (0x09 <= v && v <= 0x0D)
    ||| v == 0x20
    ||| v == 0x85
    ||| v == 0xA0
    ||| v == 0x1680
    ||| (0x2000 <= v && v <= 0x200A)
    ||| v == 0x2028
    ||| v == 0x2029
    ||| v == 0x202F
    ||| v == 0x205F
    ||| v == 0x3000
}

/// Executable test of [`is_whitespace`].
pub fn char_is_whitespace(c: char) -> (r: bool)
    ensures
        r == is_whitespace(c),
{
    let v = c as u32;
    (0x09 <= v && v <= 0x0D) || v == 0x20 || v == 0x85 || v == 0xA0 || v == 0x1680 || (0x2000 <= v
        && v <= 0x200A) || v == 0x2028 || v == 0x2029 || v == 0x202F || v == 0x205F || v == 0x3000
}

/// ASCII lower-case mapping of one character (other characters unchanged).
pub open spec fn ascii_lower(c: char) -> char {
    if 'A' <= c && c <= 'Z' {
        (((c as u8) + 32) as u8) as char
    } else {
        c
    }
}

/// Characters of `s` as a vector.
pub fn chars_of(s: &str) -> (r: Vec<char>)
    ensures
        r@ == s@,
{
    let mut out: Vec<char> = Vec::new();
    for c in it: s.chars()
        invariant
            it.seq() == s@,
            out@ == s@.take(it.index()),
    {
        proof {
            assert(s@.take(it.index() + 1) =~= s@.take(it.index()).push(c));
        }
        out.push(c);
    }
    proof {
        assert(s@.take(s@.len() as int) =~= s@);
    }
    out
}

/// An owned copy of the characters `from..to` of `s`.
pub fn substring(s: &str, from: usize, to: usize) -> (r: String)
    requires
        from <= to <= s@.len(),
    ensures
        r@ == s@.subrange(from as int, to as int),
{
    String::from_str(s.substring_char(from, to))
}

/// Whether the characters of `s` starting at `at` spell out `pattern`.
pub open spec fn matches_at(s: Seq<char>, at: int, pattern: Seq<char>) -> bool {
    &&& 0 <= at
    &&& at + pattern.len() <= s.len()
    &&& s.subrange(at, at + pattern.len()) == pattern
}

/// Executable [`matches_at`] over character vectors.
pub fn chars_match_at(s: &Vec<char>, at: usize, pattern: &Vec<char>) -> (r: bool)
    ensures
        r == matches_at(s@, at as int, pattern@),
{
    if pattern.len() > s.len() || at > s.len() - pattern.len() {
        return false;
    }
    let mut i: usize = 0;
    while i < pattern.len()
        invariant
            i <= pattern@.len(),
            at + pattern@.len() <= s@.len(),
            forall|j: int| 0 <= j < i ==> s@[at + j] == pattern@[j],
        decreases pattern@.len() - i,
    {
        assert(at + i < s@.len());
        assert(s@.len() == s.len());
        if s[at + i] != pattern[i] {
            proof {
                assert(s@.subrange(at as int, at + pattern@.len())[i as int] != pattern@[i as int]);
            }
            return false;
        }
        i = i + 1;
    }
    proof {
        assert(s@.subrange(at as int, at + pattern@.len()) =~= pattern@);
    }
    true
}

/// Bounds of the segments of `s[..n]` separated by `sep`: the completed
/// segments and the start of the segment still open at `n`.
pub open spec fn split_bounds(s: Seq<char>, sep: char, n: int) -> (Seq<(int, int)>, int)
    decreases n,
{
    if n <= 0 {
        (seq![], 0)
    } else {
        let (done, start) = split_bounds(s, sep, n - 1);
        if s[n - 1] == sep {
            (done.push((start, n - 1)), n)
        } else {
            (done, start)
        }
    }
}

/// The pieces of `s` between occurrences of `sep` (what `str::split` yields):
/// there is always at least one piece.
pub open spec fn segments(s: Seq<char>, sep: char) -> Seq<Seq<char>> {
    let (done, start) = split_bounds(s, sep, s.len() as int);
    done.push((start, s.len() as int)).map_values(|b: (int, int)| s.subrange(b.0, b.1))
}

pub open spec fn strings_view(v: Seq<String>) -> Seq<Seq<char>> {
    v.map_values(|x: String| x@)
}

proof fn lemma_split_bounds_valid(s: Seq<char>, sep: char, n: int)
    requires
        0 <= n <= s.len(),
    ensures
        0 <= split_bounds(s, sep, n).1 <= n,
        forall|i: int| 0 <= i < split_bounds(s, sep, n).0.len() ==>
            0 <= (#[trigger] split_bounds(s, sep, n).0[i]).0 <= split_bounds(s, sep, n).0[i].1 <= n,
    decreases n,
{
    if n > 0 {
        lemma_split_bounds_valid(s, sep, n - 1);
    }
}

proof fn lemma_split_bounds_skip_separator(s: Seq<char>, sep: char, n: int)
    requires
        0 <= n <= s.len(),
    ensures
        forall|i: int, j: int| 0 <= i < split_bounds(s, sep, n).0.len()
            && (#[trigger] split_bounds(s, sep, n).0[i]).0 <= j < split_bounds(s, sep, n).0[i].1
            ==> #[trigger] s[j] != sep,
        forall|j: int| split_bounds(s, sep, n).1 <= j < n ==> #[trigger] s[j] != sep,
    decreases n,
{
    if n > 0 {
        lemma_split_bounds_skip_separator(s, sep, n - 1);
        lemma_split_bounds_valid(s, sep, n - 1);
    }
}

proof fn lemma_split_bounds_after_piece(a: Seq<char>, sep: char, b: Seq<char>, n: int)
    requires
        !a.contains(sep),
        0 <= n <= a.len() + 1 + b.len(),
    ensures
        n <= a.len() ==> split_bounds(a + seq![sep] + b, sep, n) == (Seq::<(int, int)>::empty(), 0int),
        n > a.len() ==> split_bounds(a + seq![sep] + b, sep, n) == ({
            let (done, start) = split_bounds(b, sep, n - a.len() - 1);
            (
                seq![(0int, a.len() as int)] + done.map_values(|p: (int, int)| (p.0 + a.len() + 1, p.1 + a.len() + 1)),
                start + a.len() + 1,
            )
        }),
    decreases n,
{
    let s = a + seq![sep] + b;
    let k = a.len() as int;
    let shift = |p: (int, int)| (p.0 + k + 1, p.1 + k + 1);
    if n == 0 {
    } else if n <= k {
        lemma_split_bounds_after_piece(a, sep, b, n - 1);
        assert(s[n - 1] == a[n - 1]);
        assert(a[n - 1] != sep) by {
            if a[n - 1] == sep {
                assert(a.contains(sep));
            }
        }
    } else if n == k + 1 {
        lemma_split_bounds_after_piece(a, sep, b, n - 1);
        assert(s[n - 1] == sep);
        let (done, start) = split_bounds(b, sep, 0);
        assert(done.map_values(shift) =~= Seq::<(int, int)>::empty());
        assert(seq![(0int, k)] + done.map_values(shift) =~= Seq::<(int, int)>::empty().push((0int, k)));
    } else {
        lemma_split_bounds_after_piece(a, sep, b, n - 1);
        let m = n - k - 1;
        assert(s[n - 1] == b[m - 1]);
        let (done0, start0) = split_bounds(b, sep, m - 1);
        if b[m - 1] == sep {
            assert(done0.push((start0, m - 1)).map_values(shift) =~= done0.map_values(shift).push(shift((start0, m - 1))));
            assert(seq![(0int, k)] + done0.push((start0, m - 1)).map_values(shift)
                =~= (seq![(0int, k)] + done0.map_values(shift)).push((start0 + k + 1, n - 1)));
        }
    }
}

/// Splitting after a first piece without separator: the first piece, then
/// the pieces of the rest.
pub proof fn lemma_segments_after_piece(a: Seq<char>, sep: char, b: Seq<char>)
    requires
        !a.contains(sep),
    ensures
        segments(a + seq![sep] + b, sep) == seq![a] + segments(b, sep),
{
    let s = a + seq![sep] + b;
    let k = a.len() as int;
    lemma_split_bounds_after_piece(a, sep, b, s.len() as int);
    lemma_split_bounds_valid(b, sep, b.len() as int);
    let (done_b, start_b) = split_bounds(b, sep, b.len() as int);
    let bounds_b = done_b.push((start_b, b.len() as int));
    let shift = |p: (int, int)| (p.0 + k + 1, p.1 + k + 1);
    let (done_s, start_s) = split_bounds(s, sep, s.len() as int);
    let bounds_s = done_s.push((start_s, s.len() as int));
    assert(bounds_s =~= seq![(0int, k)] + bounds_b.map_values(shift));
    let fs = |p: (int, int)| s.subrange(p.0, p.1);
    let fb = |p: (int, int)| b.subrange(p.0, p.1);
    assert forall|i: int| 0 <= i < bounds_b.len() implies #[trigger] fs(shift(bounds_b[i])) == fb(bounds_b[i]) by {
        let p = bounds_b[i];
        if i < done_b.len() {
            assert(p == done_b[i]);
        }
        assert(0 <= p.0 <= p.1 <= b.len());
        assert(s.subrange(p.0 + k + 1, p.1 + k + 1) =~= b.subrange(p.0, p.1));
    }
    assert(fs((0int, k)) =~= a);
    assert(bounds_s.map_values(fs) =~= seq![a] + bounds_b.map_values(fb));
}

/// A text without the separator is a single piece.
pub proof fn lemma_segments_single_piece(a: Seq<char>, sep: char)
    requires
        !a.contains(sep),
    ensures
        segments(a, sep) == seq![a],
{
    lemma_split_bounds_no_separator(a, sep, a.len() as int);
    let bounds = Seq::<(int, int)>::empty().push((0int, a.len() as int));
    assert(a.subrange(0, a.len() as int) =~= a);
    assert(bounds.map_values(|p: (int, int)| a.subrange(p.0, p.1)) =~= seq![a]);
}

proof fn lemma_split_bounds_no_separator(a: Seq<char>, sep: char, n: int)
    requires
        !a.contains(sep),
        0 <= n <= a.len(),
    ensures
        split_bounds(a, sep, n) == (Seq::<(int, int)>::empty(), 0int),
    decreases n,
{
    if n > 0 {
        lemma_split_bounds_no_separator(a, sep, n - 1);
        assert(a[n - 1] != sep) by {
            if a[n - 1] == sep {
                assert(a.contains(sep));
            }
        }
    }
}

/// No piece of a split holds the separator.
pub proof fn lemma_segments_exclude_separator(s: Seq<char>, sep: char)
    ensures
        forall|i: int| 0 <= i < segments(s, sep).len() ==> !(#[trigger] segments(s, sep)[i]).contains(sep),
{
    let (done, start) = split_bounds(s, sep, s.len() as int);
    let bounds = done.push((start, s.len() as int));
    lemma_split_bounds_skip_separator(s, sep, s.len() as int);
    lemma_split_bounds_valid(s, sep, s.len() as int);
    assert forall|i: int| 0 <= i < segments(s, sep).len() implies !(#[trigger] segments(s, sep)[i]).contains(sep) by {
        let b = bounds[i];
        let piece = s.subrange(b.0, b.1);
        assert(segments(s, sep)[i] == piece);
        if i < done.len() {
            assert(b == done[i]);
        }
        assert forall|k: int| 0 <= k < piece.len() implies piece[k] != sep by {
            assert(piece[k] == s[b.0 + k]);
        }
    }
}

/// Every character of a piece of a split is a character of the text split.
pub proof fn lemma_segments_keep_characters(s: Seq<char>, sep: char)
    ensures
        forall|i: int, c: char| 0 <= i < segments(s, sep).len() && #[trigger] segments(s, sep)[i].contains(c)
            ==> s.contains(c),
{
    let (done, start) = split_bounds(s, sep, s.len() as int);
    let bounds = done.push((start, s.len() as int));
    lemma_split_bounds_valid(s, sep, s.len() as int);
    assert forall|i: int, c: char| 0 <= i < segments(s, sep).len() && #[trigger] segments(s, sep)[i].contains(c)
        implies s.contains(c) by {
        let b = bounds[i];
        let piece = s.subrange(b.0, b.1);
        assert(segments(s, sep)[i] == piece);
        if i < done.len() {
            assert(b == done[i]);
        }
        let k = choose|k: int| 0 <= k < piece.len() && piece[k] == c;
        assert(s[b.0 + k] == c);
    }
}

/// The pieces of `s` separated by `sep`.
pub fn split_segments(s: &str, sep: char) -> (r: Vec<String>)
    ensures
        strings_view(r@) == segments(s@, sep),
{
    let cs = chars_of(s);
    let mut out: Vec<String> = Vec::new();
    let mut start: usize = 0;
    let mut i: usize = 0;
    while i < cs.len()
        invariant
            cs@ == s@,
            i <= cs@.len(),
            start <= i,
            split_bounds(s@, sep, i as int).1 == start,
            strings_view(out@) == split_bounds(s@, sep, i as int).0.map_values(|b: (int, int)| s@.subrange(b.0, b.1)),
        decreases cs@.len() - i,
    {
        proof {
            lemma_split_bounds_valid(s@, sep, i as int);
        }
        if cs[i] == sep {
            let piece = substring(s, start, i);
            let ghost old_out = out@;
            let ghost f = |b: (int, int)| s@.subrange(b.0, b.1);
            out.push(piece);
            proof {
                let done = split_bounds(s@, sep, i as int).0;
                assert(split_bounds(s@, sep, i + 1).0 == done.push((start as int, i as int)));
                assert(strings_view(out@) =~= strings_view(old_out).push(piece@));
                assert(done.push((start as int, i as int)).map_values(f) =~= done.map_values(f).push(f((start as int, i as int))));
                assert(strings_view(out@) =~= split_bounds(s@, sep, i + 1).0.map_values(|b: (int, int)| s@.subrange(b.0, b.1)));
            }
            start = i + 1;
        }
        i = i + 1;
    }
    let last = substring(s, start, cs.len());
    let ghost old_out = out@;
    let ghost f = |b: (int, int)| s@.subrange(b.0, b.1);
    out.push(last);
    proof {
        let done = split_bounds(s@, sep, s@.len() as int).0;
        assert(strings_view(out@) =~= strings_view(old_out).push(last@));
        assert(done.push((start as int, s@.len() as int)).map_values(f) =~= done.map_values(f).push(f((start as int, s@.len() as int))));
        assert(strings_view(out@) =~= segments(s@, sep));
    }
    out
}

/// Lines of `s` as `str::lines` yields them: pieces separated by `\n`, a
/// `\r` right before a `\n` removed, and no final empty piece after a
/// trailing `\n`.
pub open spec fn lines(s: Seq<char>) -> Seq<Seq<char>> {
    let pieces = segments(s, '\n');
    let n = pieces.len();
    let terminated = pieces.take(n - 1).map_values(|p: Seq<char>| strip_cr(p));
    if pieces[n - 1].len() == 0 { terminated } else { terminated.push(pieces[n - 1]) }
}

/// `p` without one trailing `\r`.
pub open spec fn strip_cr(p: Seq<char>) -> Seq<char> {
    if p.len() > 0 && p.last() == '\r' { p.drop_last() } else { p }
}

/// Lines of `s` (see [`lines`]).
pub fn split_lines(s: &str) -> (r: Vec<String>)
    ensures
        strings_view(r@) == lines(s@),
{
    let pieces = split_segments(s, '\n');
    let ghost gp = strings_view(pieces@);
    assert(gp.len() == pieces@.len());
    assert(pieces@.len() >= 1);
    let n = pieces.len();
    let mut out: Vec<String> = Vec::new();
    let mut i: usize = 0;
    while i + 1 < n
        invariant
            gp == strings_view(pieces@),
            gp == segments(s@, '\n'),
            n == pieces@.len(),
            n >= 1,
            i + 1 <= n,
            strings_view(out@) == gp.take(i as int).map_values(|p: Seq<char>| strip_cr(p)),
        decreases n - i,
    {
        let p = &pieces[i];
        let cs = chars_of(p.as_str());
        let line = if cs.len() > 0 && cs[cs.len() - 1] == '\r' {
            substring(p.as_str(), 0, cs.len() - 1)
        } else {
            p.clone()
        };
        proof {
            assert(gp[i as int] == p@);
            if cs@.len() > 0 && cs@[cs@.len() - 1] == '\r' {
                assert(line@ =~= strip_cr(p@));
            }
        }
        let ghost old_out = out@;
        out.push(line);
        proof {
            assert(strings_view(out@) =~= strings_view(old_out).push(line@));
            assert(gp.take(i + 1) =~= gp.take(i as int).push(gp[i as int]));
            assert(gp.take(i as int).push(gp[i as int]).map_values(|p: Seq<char>| strip_cr(p)) =~= gp.take(i as int).map_values(|p: Seq<char>| strip_cr(p)).push(strip_cr(gp[i as int])));
            assert(strings_view(out@) =~= gp.take(i + 1).map_values(|p: Seq<char>| strip_cr(p)));
        }
        i = i + 1;
    }
    let last = &pieces[n - 1];
    proof {
        assert(gp[n - 1] == last@);
    }
    if !last.as_str().is_empty() {
        out.push(last.clone());
        proof {
            assert(strings_view(out@) =~= lines(s@));
        }
    } else {
        proof {
            assert(strings_view(out@) =~= lines(s@));
        }
    }
    out
}

/// Index of the first `c` in `s` at or after `from`, or -1.
pub open spec fn index_of_from(s: Seq<char>, c: char, from: int) -> int
    decreases s.len() - from,
{
    if from < 0 || from >= s.len() {
        -1
    } else if s[from] == c {
        from
    } else {
        index_of_from(s, c, from + 1)
    }
}

/// Index of the first `c` in `s`, or -1.
pub open spec fn index_of(s: Seq<char>, c: char) -> int {
    index_of_from(s, c, 0)
}

pub(crate) proof fn lemma_index_of_from_bounds(s: Seq<char>, c: char, from: int)
    requires
        0 <= from,
    ensures
        index_of_from(s, c, from) == -1 || (from <= index_of_from(s, c, from) < s.len()
            && s[index_of_from(s, c, from)] == c),
    decreases s.len() - from,
{
    if from < s.len() && s[from] != c {
        lemma_index_of_from_bounds(s, c, from + 1);
    }
}

pub(crate) proof fn lemma_index_of_from_first(s: Seq<char>, c: char, from: int, k: int)
    requires
        0 <= from <= k < s.len(),
        s[k] == c,
        forall|j: int| from <= j < k ==> s[j] != c,
    ensures
        index_of_from(s, c, from) == k,
    decreases k - from,
{
    if from < k {
        lemma_index_of_from_first(s, c, from + 1, k);
    }
}

proof fn lemma_index_of_from_absent(s: Seq<char>, c: char, from: int)
    requires
        0 <= from,
        !s.contains(c),
    ensures
        index_of_from(s, c, from) == -1,
    decreases s.len() - from,
{
    if from < s.len() {
        assert(s[from] != c);
        lemma_index_of_from_absent(s, c, from + 1);
    }
}

/// Without `sep`, the part before the first `sep` is the whole text.
pub proof fn lemma_before_first_without_separator(s: Seq<char>, sep: char)
    requires
        !s.contains(sep),
    ensures
        before_first(s, sep) == s,
{
    lemma_index_of_from_absent(s, sep, 0);
}

/// What follows the first `sep` does not change the part before it.
pub proof fn lemma_before_first_ignores_tail(s: Seq<char>, sep: char, tail: Seq<char>)
    requires
        !s.contains(sep),
    ensures
        before_first(s + seq![sep] + tail, sep) == s,
{
    let whole = s + seq![sep] + tail;
    assert(whole[s.len() as int] == sep);
    assert forall|j: int| 0 <= j < s.len() implies whole[j] != sep by {
        assert(whole[j] == s[j]);
    }
    lemma_index_of_from_first(whole, sep, 0, s.len() as int);
    assert(whole.take(s.len() as int) =~= s);
}

/// Index of the first `c` in the characters, or `None`.
pub fn find_char(cs: &Vec<char>, c: char) -> (r: Option<usize>)
    ensures
        match r {
            Some(i) => index_of(cs@, c) == i,
            None => index_of(cs@, c) == -1,
        },
{
    let mut i: usize = 0;
    while i < cs.len()
        invariant
            i <= cs@.len(),
            index_of_from(cs@, c, i as int) == index_of(cs@, c),
        decreases cs@.len() - i,
    {
        if cs[i] == c {
            return Some(i);
        }
        i = i + 1;
    }
    None
}

/// `s` split at its first `sep` (what `str::split_once` returns).
pub open spec fn split_once(s: Seq<char>, sep: char) -> Option<(Seq<char>, Seq<char>)> {
    let k = index_of(s, sep);
    if k < 0 { None } else { Some((s.take(k), s.skip(k + 1))) }
}

/// The part of `s` before its first `sep` (all of `s` without one); the
/// first piece `str::split` yields.
pub open spec fn before_first(s: Seq<char>, sep: char) -> Seq<char> {
    let k = index_of(s, sep);
    if k < 0 { s } else { s.take(k) }
}

/// Executable [`split_once`].
pub fn split_once_at(s: &str, sep: char) -> (r: Option<(String, String)>)
    ensures
        match (r, split_once(s@, sep)) {
            (Some((a, b)), Some((c, d))) => a@ == c && b@ == d,
            (None, None) => true,
            _ => false,
        },
{
    let cs = chars_of(s);
    proof {
        lemma_index_of_from_bounds(cs@, sep, 0);
    }
    match find_char(&cs, sep) {
        None => None,
        Some(k) => {
            assert(index_of_from(cs@, sep, 0) == k);
            assert(k < cs@.len());
            let a = substring(s, 0, k);
            let b = substring(s, k + 1, cs.len());
            proof {
                assert(a@ =~= s@.take(k as int));
                assert(b@ =~= s@.skip(k + 1));
            }
            Some((a, b))
        },
    }
}

/// Executable [`before_first`].
pub fn before_first_char(s: &str, sep: char) -> (r: String)
    ensures
        r@ == before_first(s@, sep),
{
    let cs = chars_of(s);
    proof {
        lemma_index_of_from_bounds(cs@, sep, 0);
    }
    match find_char(&cs, sep) {
        None => {
            let r = substring(s, 0, cs.len());
            proof {
                assert(r@ =~= s@);
            }
            r
        },
        Some(k) => {
            assert(index_of_from(cs@, sep, 0) == k);
            let r = substring(s, 0, k);
            proof {
                assert(r@ =~= s@.take(k as int));
            }
            r
        },
    }
}

/// `s` without leading and trailing whitespace (what `str::trim` returns).
pub open spec fn trim(s: Seq<char>) -> Seq<char>
    decreases s.len(),
{
    if s.len() > 0 && is_whitespace(s[0]) {
        trim(s.drop_first())
    } else if s.len() > 0 && is_whitespace(s.last()) {
        trim(s.drop_last())
    } else {
        s
    }
}

pub(crate) proof fn lemma_trim_window(s: Seq<char>, a: int, b: int)
    requires
        0 <= a <= b <= s.len(),
        forall|i: int| 0 <= i < a ==> is_whitespace(#[trigger] s[i]),
        forall|i: int| b <= i < s.len() ==> is_whitespace(#[trigger] s[i]),
        a == b || (!is_whitespace(s[a]) && !is_whitespace(s[b - 1])),
    ensures
        trim(s) == s.subrange(a, b),
    decreases s.len(),
{
    if s.len() > 0 && is_whitespace(s[0]) {
        if a == 0 {
            assert(b == 0);
            assert(trim(s.drop_first()) == s.drop_first().subrange(0, 0)) by {
                lemma_trim_window(s.drop_first(), 0, 0);
            }
            assert(s.drop_first().subrange(0, 0) =~= s.subrange(0, 0));
        } else {
            lemma_trim_window(s.drop_first(), a - 1, b - 1);
            assert(s.drop_first().subrange(a - 1, b - 1) =~= s.subrange(a, b));
        }
    } else if s.len() > 0 && is_whitespace(s.last()) {
        if b == s.len() {
            assert(a == b);
            lemma_trim_window(s.drop_last(), a - 0, a - 0);
            assert(s.drop_last().subrange(a, a) =~= s.subrange(a, b));
        } else {
            lemma_trim_window(s.drop_last(), a, b);
            assert(s.drop_last().subrange(a, b) =~= s.subrange(a, b));
        }
    } else {
        if s.len() > 0 {
            if a > 0 {
                assert(is_whitespace(s[0]));
            }
            if b < s.len() {
                assert(is_whitespace(s[s.len() - 1]));
            }
        }
        assert(s.subrange(a, b) =~= s);
    }
}

/// A character that is not whitespace survives trimming.
pub proof fn lemma_trim_keeps(s: Seq<char>, j: int)
    requires
        0 <= j < s.len(),
        !is_whitespace(s[j]),
    ensures
        exists|k: int| 0 <= k < trim(s).len() && trim(s)[k] == s[j],
    decreases s.len(),
{
    if s.len() > 0 && is_whitespace(s[0]) {
        assert(s.drop_first()[j - 1] == s[j]);
        lemma_trim_keeps(s.drop_first(), j - 1);
        assert(trim(s) == trim(s.drop_first()));
        let k = choose|k: int| 0 <= k < trim(s.drop_first()).len() && trim(s.drop_first())[k] == s.drop_first()[j - 1];
        assert(trim(s)[k] == s[j]);
    } else if s.len() > 0 && is_whitespace(s.last()) {
        assert(s.drop_last()[j] == s[j]);
        lemma_trim_keeps(s.drop_last(), j);
        assert(trim(s) == trim(s.drop_last()));
        let k = choose|k: int| 0 <= k < trim(s.drop_last()).len() && trim(s.drop_last())[k] == s.drop_last()[j];
        assert(trim(s)[k] == s[j]);
    } else {
        assert(trim(s) == s);
        assert(trim(s)[j] == s[j]);
    }
}

/// Text holding a character other than whitespace, an ASCII digit or `+`
/// does not trim to a number.
pub proof fn lemma_no_text_value(s: Seq<char>, j: int)
    requires
        0 <= j < s.len(),
        !is_whitespace(s[j]),
        !('0' <= s[j] && s[j] <= '9'),
        s[j] != '+',
    ensures
        unsigned_text_value(trim(s)) is None,
{
    lemma_trim_keeps(s, j);
    let t = trim(s);
    let k = choose|k: int| 0 <= k < t.len() && t[k] == s[j];
    let body = if t.len() > 0 && t[0] == '+' { t.drop_first() } else { t };
    let idx = if t.len() > 0 && t[0] == '+' { k - 1 } else { k };
    assert(0 <= idx < body.len());
    assert(body[idx] == s[j]);
    assert(!all_ascii_digits(body));
}

/// Executable [`trim`].
pub fn trim_string(s: &str) -> (r: String)
    ensures
        r@ == trim(s@),
{
    let cs = chars_of(s);
    let mut a: usize = 0;
    while a < cs.len() && char_is_whitespace(cs[a])
        invariant
            a <= cs@.len(),
            forall|i: int| 0 <= i < a ==> is_whitespace(#[trigger] cs@[i]),
        decreases cs@.len() - a,
    {
        a = a + 1;
    }
    let mut b: usize = cs.len();
    while b > a && char_is_whitespace(cs[b - 1])
        invariant
            a <= b <= cs@.len(),
            forall|i: int| b <= i < cs@.len() ==> is_whitespace(#[trigger] cs@[i]),
        decreases b,
    {
        b = b - 1;
    }
    proof {
        if a < b {
            assert(!is_whitespace(cs@[a as int]));
        } else if a == cs@.len() {
        }
        lemma_trim_window(s@, a as int, b as int);
    }
    substring(s, a, b)
}

/// Case-insensitive comparison over ASCII letters (`eq_ignore_ascii_case`).
pub open spec fn eq_ignore_ascii_case(a: Seq<char>, b: Seq<char>) -> bool {
    &&& a.len() == b.len()
    &&& forall|i: int| 0 <= i < a.len() ==> ascii_lower(#[trigger] a[i]) == ascii_lower(b[i])
}

pub fn char_ascii_lower(c: char) -> (r: char)
    ensures
        r == ascii_lower(c),
{
    if 'A' <= c && c <= 'Z' {
        ((c as u8) + 32) as char
    } else {
        c
    }
}

/// Executable [`eq_ignore_ascii_case`].
pub fn equal_ignoring_ascii_case(a: &str, b: &str) -> (r: bool)
    ensures
        r == eq_ignore_ascii_case(a@, b@),
{
    let x = chars_of(a);
    let y = chars_of(b);
    if x.len() != y.len() {
        return false;
    }
    let mut i: usize = 0;
    while i < x.len()
        invariant
            x@ == a@,
            y@ == b@,
            x@.len() == y@.len(),
            i <= x@.len(),
            forall|j: int| 0 <= j < i ==> ascii_lower(#[trigger] x@[j]) == ascii_lower(y@[j]),
        decreases x@.len() - i,
    {
        if char_ascii_lower(x[i]) != char_ascii_lower(y[i]) {
            return false;
        }
        i = i + 1;
    }
    true
}

/// First index at or after `i` that is not whitespace (or the length).
pub open spec fn skip_whitespace(s: Seq<char>, i: int) -> int
    decreases s.len() - i,
{
    if i < 0 || i >= s.len() || !is_whitespace(s[i]) {
        i
    } else {
        skip_whitespace(s, i + 1)
    }
}

/// First index at or after `i` that is whitespace (or the length).
pub open spec fn token_end(s: Seq<char>, i: int) -> int
    decreases s.len() - i,
{
    if i < 0 || i >= s.len() || is_whitespace(s[i]) {
        i
    } else {
        token_end(s, i + 1)
    }
}

/// Bounds of the first whitespace-separated token of `s` at or after `from`.
pub open spec fn token_from(s: Seq<char>, from: int) -> Option<(int, int)> {
    let a = skip_whitespace(s, from);
    if a >= s.len() { None } else { Some((a, token_end(s, a))) }
}

/// The first two whitespace-separated tokens of `s` (the first two items
/// `str::split_whitespace` yields).
pub open spec fn first_two_tokens(s: Seq<char>) -> (Option<Seq<char>>, Option<Seq<char>>) {
    match token_from(s, 0) {
        None => (None, None),
        Some((a, b)) => (
            Some(s.subrange(a, b)),
            match token_from(s, b) {
                None => None,
                Some((c, d)) => Some(s.subrange(c, d)),
            },
        ),
    }
}

proof fn lemma_token_end_over(s: Seq<char>, i: int, j: int)
    requires
        0 <= i <= j <= s.len(),
        forall|k: int| i <= k < j ==> !is_whitespace(#[trigger] s[k]),
        j == s.len() || is_whitespace(s[j]),
    ensures
        token_end(s, i) == j,
    decreases j - i,
{
    if i < j {
        lemma_token_end_over(s, i + 1, j);
    }
}

/// The first two tokens of `a`, a space, `b` and a rest that is empty or
/// starts with whitespace are `a` and `b`, for non-empty `a` and `b` without
/// whitespace.
pub proof fn lemma_first_two_tokens_of(a: Seq<char>, b: Seq<char>, rest: Seq<char>)
    requires
        a.len() > 0,
        b.len() > 0,
        forall|k: int| 0 <= k < a.len() ==> !is_whitespace(#[trigger] a[k]),
        forall|k: int| 0 <= k < b.len() ==> !is_whitespace(#[trigger] b[k]),
        rest.len() > 0 ==> is_whitespace(rest[0]),
    ensures
        first_two_tokens(a + seq![' '] + b + rest) == (Some(a), Some(b)),
{
    let s = a + seq![' '] + b + rest;
    let p = a.len() as int;
    let q = p + 1 + b.len();
    assert(s[0] == a[0]);
    assert(skip_whitespace(s, 0) == 0);
    assert forall|k: int| 0 <= k < p implies !is_whitespace(#[trigger] s[k]) by {
        assert(s[k] == a[k]);
    }
    assert(s[p] == ' ');
    assert(is_whitespace(' '));
    lemma_token_end_over(s, 0, p);
    assert(s[p + 1] == b[0]);
    assert(skip_whitespace(s, p + 1) == p + 1);
    assert(skip_whitespace(s, p) == p + 1);
    assert forall|k: int| p + 1 <= k < q implies !is_whitespace(#[trigger] s[k]) by {
        assert(s[k] == b[k - p - 1]);
    }
    if rest.len() > 0 {
        assert(s[q] == rest[0]);
    }
    lemma_token_end_over(s, p + 1, q);
    assert(s.subrange(0, p) =~= a);
    assert(s.subrange(p + 1, q) =~= b);
}

proof fn lemma_scan_bounds(s: Seq<char>, i: int)
    requires
        0 <= i <= s.len(),
    ensures
        i <= skip_whitespace(s, i) <= s.len(),
        i <= token_end(s, i) <= s.len(),
    decreases s.len() - i,
{
    if i < s.len() {
        lemma_scan_bounds(s, i + 1);
    }
}

fn next_token(cs: &Vec<char>, from: usize) -> (r: Option<(usize, usize)>)
    requires
        from <= cs@.len(),
    ensures
        match (r, token_from(cs@, from as int)) {
            (Some((a, b)), Some((c, d))) => a == c && b == d && from <= a < b <= cs@.len(),
            (None, None) => true,
            _ => false,
        },
{
    let mut a = from;
    while a < cs.len() && char_is_whitespace(cs[a])
        invariant
            from <= a <= cs@.len(),
            skip_whitespace(cs@, a as int) == skip_whitespace(cs@, from as int),
        decreases cs@.len() - a,
    {
        a = a + 1;
    }
    if a >= cs.len() {
        return None;
    }
    let mut b = a;
    while b < cs.len() && !char_is_whitespace(cs[b])
        invariant
            a <= b <= cs@.len(),
            token_end(cs@, b as int) == token_end(cs@, a as int),
        decreases cs@.len() - b,
    {
        b = b + 1;
    }
    Some((a, b))
}

/// The first two whitespace-separated tokens of `s`.
pub fn first_two_words(s: &str) -> (r: (Option<String>, Option<String>))
    ensures
        match (r.0, first_two_tokens(s@).0) {
            (Some(x), Some(y)) => x@ == y,
            (None, None) => true,
            _ => false,
        },
        match (r.1, first_two_tokens(s@).1) {
            (Some(x), Some(y)) => x@ == y,
            (None, None) => true,
            _ => false,
        },
{
    let cs = chars_of(s);
    match next_token(&cs, 0) {
        None => (None, None),
        Some((a, b)) => {
            let first = substring(s, a, b);
            let second = match next_token(&cs, b) {
                None => None,
                Some((c, d)) => Some(substring(s, c, d)),
            };
            (Some(first), second)
        },
    }
}

/// Text that `String::from_utf8_lossy` makes of bytes that are not valid
/// UTF-8 (each invalid sequence replaced by U+FFFD under its own policy).
pub uninterp spec fn lossy_utf8(bytes: Seq<u8>) -> Seq<char>;

/// Text that `String::from_utf8_lossy` makes of bytes: the decoded text for
/// valid UTF-8, the replacement text otherwise.
pub open spec fn lossy_text(bytes: Seq<u8>) -> Seq<char> {
    if vstd::utf8::valid_utf8(bytes) {
        vstd::utf8::decode_utf8(bytes)
    } else {
        lossy_utf8(bytes)
    }
}

/// Decodes bytes with `String::from_utf8_lossy`. Valid UTF-8 decodes to its
/// text, as the documentation states; for invalid input the replacement
/// policy is only named.
#[verifier::external_body]
pub(crate) fn utf8_lossy(bytes: &[u8]) -> (r: String)
    ensures
        vstd::utf8::valid_utf8(bytes@) ==> r@ == vstd::utf8::decode_utf8(bytes@),
        !vstd::utf8::valid_utf8(bytes@) ==> r@ == lossy_utf8(bytes@),
{
    String::from_utf8_lossy(bytes).into_owned()
}

/// Every character of `s` is an ASCII digit.
pub open spec fn all_ascii_digits(s: Seq<char>) -> bool {
    forall|i: int| 0 <= i < s.len() ==> '0' <= #[trigger] s[i] && s[i] <= '9'
}

/// The natural number written in `s`: an optional `+` followed by one or
/// more ASCII digits and nothing else.
pub open spec fn unsigned_text_value(s: Seq<char>) -> Option<int> {
    let body = if s.len() > 0 && s[0] == '+' { s.drop_first() } else { s };
    if body.len() > 0 && all_ascii_digits(body) {
        Some(crate::preset::importer::digits_value(body))
    } else {
        None
    }
}

proof fn lemma_digit_char_value(k: int)
    requires
        0 <= k < 10,
    ensures
        digit_char(k) as int - '0' as int == k,
{
    assert('0' as int == 48 && '1' as int == 49 && '2' as int == 50 && '3' as int == 51 && '4' as int == 52);
    assert('5' as int == 53 && '6' as int == 54 && '7' as int == 55 && '8' as int == 56 && '9' as int == 57);
}

proof fn lemma_digits_value_of_decimal(n: nat)
    ensures
        crate::preset::importer::digits_value(decimal_digits(n)) == n,
    decreases n,
{
    let d = decimal_digits(n);
    lemma_digit_char_value((n % 10) as int);
    if n < 10 {
        assert(d.drop_last() =~= Seq::<char>::empty());
        assert(d.last() == digit_char(n as int));
        assert(crate::preset::importer::digits_value(Seq::<char>::empty()) == 0);
        assert(crate::preset::importer::digits_value(d) == crate::preset::importer::digits_value(d.drop_last()) * 10
            + (d.last() as int - '0' as int));
    } else {
        lemma_digits_value_of_decimal(n / 10);
        assert(d.drop_last() =~= decimal_digits(n / 10));
        assert(d.last() == digit_char((n % 10) as int));
        assert(crate::preset::importer::digits_value(d) == crate::preset::importer::digits_value(d.drop_last()) * 10
            + (d.last() as int - '0' as int));
        assert(n == (n / 10) * 10 + n % 10);
    }
}

/// The decimal rendering of a number reads back as that number.
pub proof fn lemma_decimal_text_value(n: nat)
    ensures
        unsigned_text_value(decimal_digits(n)) == Some(n as int),
{
    lemma_decimal_digits_are_digits(n);
    lemma_digits_value_of_decimal(n);
    assert(decimal_digits(n)[0] != '+');
}

/// Parses `text` as a `usize` with `str::parse`: it succeeds exactly when
/// the text has the documented syntax (optional `+`, then only ASCII digits)
/// and the value fits.
#[verifier::external_body]
pub(crate) fn parse_usize_text(text: &str) -> (r: Option<usize>)
    ensures
        match r {
            Some(v) => unsigned_text_value(text@) == Some(v as int),
            None => !(unsigned_text_value(text@) matches Some(v) && v <= usize::MAX),
        },
{
    text.parse::<usize>().ok()
}

/// Whether two strings have the same characters.
pub fn same_text(a: &str, b: &str) -> (r: bool)
    ensures
        r == (a@ == b@),
{
    let x = chars_of(a);
    let y = chars_of(b);
    if x.len() != y.len() {
        return false;
    }
    let mut i: usize = 0;
    while i < x.len()
        invariant
            x@ == a@,
            y@ == b@,
            x@.len() == y@.len(),
            i <= x@.len(),
            forall|j: int| 0 <= j < i ==> x@[j] == y@[j],
        decreases x@.len() - i,
    {
        if x[i] != y[i] {
            return false;
        }
        i = i + 1;
    }
    proof {
        assert(x@ =~= y@);
    }
    true
}

/// Whether `s` begins with `prefix`.
pub fn text_starts_with(s: &str, prefix: &str) -> (r: bool)
    ensures
        r == matches_at(s@, 0, prefix@),
{
    let x = chars_of(s);
    let y = chars_of(prefix);
    chars_match_at(&x, 0, &y)
}

} // verus!
