//! Management HTTP service: request framing and parsing, routing, static
//! asset paths and response framing.

use crate::error::Error;
use crate::preset::ImportMode;
use crate::text::{
    before_first, decimal_digits, eq_ignore_ascii_case, first_two_tokens, lines, lossy_text,
    matches_at, split_once, trim, unsigned_text_value,
};
use vstd::prelude::*;

verus! {

/// Default port of the management service.
pub const DEFAULT_ADMIN_PORT: u16 = 8888;

/// Largest request the management service reads (64 KiB).
pub const MAX_HTTP_REQUEST_SIZE: usize = 65536;

/// A parsed management request.
#[derive(Debug)]
pub struct HttpRequest {
    pub method: String,
    pub path: String,
    pub body: Vec<u8>,
}

/// The bytes `\r\n\r\n` start at `i`.
pub open spec fn blank_line_at(b: Seq<u8>, i: int) -> bool {
    &&& 0 <= i
    &&& i + 4 <= b.len()
    &&& b[i] == 13 && b[i + 1] == 10 && b[i + 2] == 13 && b[i + 3] == 10
}

/// Offset of the first `\r\n\r\n` at or after `from`.
pub open spec fn header_end_from(b: Seq<u8>, from: int) -> Option<int>
    decreases b.len() - from,
{
    if from < 0 || from + 4 > b.len() {
        None
    } else if blank_line_at(b, from) {
        Some(from)
    } else {
        header_end_from(b, from + 1)
    }
}

/// Offset of the end of the header block (the first `\r\n\r\n`).
pub open spec fn header_end(b: Seq<u8>) -> Option<int> {
    header_end_from(b, 0)
}

proof fn lemma_header_end_from_bounds(b: Seq<u8>, from: int)
    requires
        0 <= from,
    ensures
        header_end_from(b, from) matches Some(i) ==> from <= i && blank_line_at(b, i),
    decreases b.len() - from,
{
    if from + 4 <= b.len() && !blank_line_at(b, from) {
        lemma_header_end_from_bounds(b, from + 1);
    }
}

/// Finds the offset of the first `\r\n\r\n`.
pub fn find_header_end(buffer: &[u8]) -> (r: Option<usize>)
    ensures
        match r {
            Some(i) => header_end(buffer@) == Some(i as int) && blank_line_at(buffer@, i as int),
            None => header_end(buffer@) is None,
        },
{
    proof {
        lemma_header_end_from_bounds(buffer@, 0);
    }
    if buffer.len() < 4 {
        return None;
    }
    let mut i: usize = 0;
    let last = buffer.len() - 4;
    while i <= last
        invariant
            header_end_from(buffer@, i as int) == header_end(buffer@),
            last + 4 == buffer@.len(),
            i <= last + 1,
        decreases buffer@.len() - i,
    {
        if buffer[i] == 13 && buffer[i + 1] == 10 && buffer[i + 2] == 13 && buffer[i + 3] == 10 {
            return Some(i);
        }
        i = i + 1;
    }
    None
}

/// Content length announced by one header line, if the line is a
/// `Content-Length` header (any letter case) with a valid value.
pub open spec fn line_content_length(line: Seq<char>) -> Option<int> {
    match split_once(line, ':') {
        Some((name, value)) => if eq_ignore_ascii_case(name, "content-length"@) {
            match unsigned_text_value(trim(value)) {
                Some(v) => if v <= usize::MAX { Some(v) } else { None },
                None => None,
            }
        } else {
            None
        },
        None => None,
    }
}

/// Content length of the first valid `Content-Length` line, 0 when none.
pub open spec fn first_content_length(ls: Seq<Seq<char>>) -> int
    decreases ls.len(),
{
    if ls.len() == 0 {
        0
    } else {
        match line_content_length(ls[0]) {
            Some(v) => v,
            None => first_content_length(ls.drop_first()),
        }
    }
}

/// Body length a header block announces.
pub open spec fn content_length_of(headers: Seq<char>) -> int {
    first_content_length(lines(headers))
}

fn line_length(line: &String) -> (r: Option<usize>)
    ensures
        match r {
            Some(v) => line_content_length(line@) == Some(v as int),
            None => line_content_length(line@) is None,
        },
{
    match crate::text::split_once_at(line.as_str(), ':') {
        None => None,
        Some((name, value)) => {
            if crate::text::equal_ignoring_ascii_case(name.as_str(), "content-length") {
                let trimmed = crate::text::trim_string(value.as_str());
                crate::text::parse_usize_text(trimmed.as_str())
            } else {
                None
            }
        },
    }
}

/// Parses the `Content-Length` header of a header block (0 when missing or
/// invalid).
pub fn parse_content_length(headers: &str) -> (r: usize)
    ensures
        r == content_length_of(headers@),
{
    let ls = crate::text::split_lines(headers);
    let ghost gl = crate::text::strings_view(ls@);
    let mut i: usize = 0;
    proof {
        assert(gl.skip(0) =~= gl);
    }
    while i < ls.len()
        invariant
            gl == crate::text::strings_view(ls@),
            gl == lines(headers@),
            i <= ls@.len(),
            first_content_length(gl.skip(i as int)) == content_length_of(headers@),
        decreases ls@.len() - i,
    {
        proof {
            assert(gl.skip(i as int)[0] == ls@[i as int]@);
            assert(gl.skip(i as int).drop_first() =~= gl.skip(i + 1));
        }
        match line_length(&ls[i]) {
            Some(v) => {
                return v;
            },
            None => {},
        }
        i = i + 1;
    }
    proof {
        assert(gl.skip(i as int).len() == 0);
    }
    0
}

/// Outcome of parsing a request buffer: method, path and body, or the
/// message of the error the service reports.
pub open spec fn request_parse(b: Seq<u8>) -> Result<(Seq<char>, Seq<char>, Seq<u8>), Seq<char>> {
    match header_end(b) {
        None => Err("invalid admin http request"@),
        Some(he) => {
            let headers = lossy_text(b.take(he));
            let ls = lines(headers);
            if ls.len() == 0 {
                Err("missing admin http request line"@)
            } else {
                match first_two_tokens(ls[0]) {
                    (None, _) => Err("missing admin http method"@),
                    (Some(_), None) => Err("missing admin http path"@),
                    (Some(method), Some(path)) => {
                        let start = he + 4;
                        let len = content_length_of(headers);
                        if b.len() < start + len {
                            Err("incomplete admin http body"@)
                        } else {
                            Ok((method, path, b.subrange(start, start + len)))
                        }
                    },
                }
            }
        },
    }
}

/// Parses a raw management request: the request line's method and path and
/// a body of the announced length. Every failure is a UI error.
pub fn parse_http_request(buffer: &[u8]) -> (r: Result<HttpRequest, Error>)
    ensures
        match (r, request_parse(buffer@)) {
            (Ok(req), Ok((m, p, body))) => req.method@ == m && req.path@ == p && req.body@ == body,
            (Err(Error::UI(msg)), Err(e)) => msg@ == e,
            _ => false,
        },
{
    let header_end = match find_header_end(buffer) {
        None => {
            return Err(Error::UI(String::from_str("invalid admin http request")));
        },
        Some(i) => i,
    };
    let head = &buffer[0..header_end];
    proof {
        assert(head@ =~= buffer@.take(header_end as int));
    }
    let headers = crate::text::utf8_lossy(head);
    let ls = crate::text::split_lines(headers.as_str());
    proof {
        assert(crate::text::strings_view(ls@).len() == ls@.len());
    }
    if ls.len() == 0 {
        return Err(Error::UI(String::from_str("missing admin http request line")));
    }
    proof {
        assert(crate::text::strings_view(ls@)[0] == ls@[0]@);
    }
    let (method, path) = crate::text::first_two_words(ls[0].as_str());
    let method = match method {
        None => {
            return Err(Error::UI(String::from_str("missing admin http method")));
        },
        Some(m) => m,
    };
    let path = match path {
        None => {
            return Err(Error::UI(String::from_str("missing admin http path")));
        },
        Some(p) => p,
    };
    let content_length = parse_content_length(headers.as_str());
    assert(buffer@.len() == buffer.len());
    let body_start = header_end + 4;
    if content_length > buffer.len() - body_start {
        return Err(Error::UI(String::from_str("incomplete admin http body")));
    }
    let body_end = body_start + content_length;
    let body = vstd::slice::slice_to_vec(&buffer[body_start..body_end]);
    Ok(HttpRequest { method, path, body })
}

/// State of a request being read.
#[derive(Debug, Clone, Copy, PartialEq, Eq, Structural)]
pub enum RequestReadState {
    /// More bytes may be read.
    NeedMore,
    /// The header block and the announced body are complete.
    Complete,
    /// The buffer grew beyond [`MAX_HTTP_REQUEST_SIZE`].
    TooLarge,
}

/// What the reader does after appending a chunk: give up on an oversized
/// buffer, stop once the header block and announced body are in, or read on.
pub open spec fn read_state(b: Seq<u8>) -> RequestReadState {
    if b.len() > MAX_HTTP_REQUEST_SIZE {
        RequestReadState::TooLarge
    } else {
        match header_end(b) {
            Some(he) => if b.len() >= he + 4 + content_length_of(lossy_text(b.take(he))) {
                RequestReadState::Complete
            } else {
                RequestReadState::NeedMore
            },
            None => RequestReadState::NeedMore,
        }
    }
}

/// Decides how reading a request continues after a chunk was appended.
pub fn request_read_state(buffer: &[u8]) -> (r: RequestReadState)
    ensures
        r == read_state(buffer@),
{
    if buffer.len() > MAX_HTTP_REQUEST_SIZE {
        return RequestReadState::TooLarge;
    }
    match find_header_end(buffer) {
        None => RequestReadState::NeedMore,
        Some(he) => {
            let head = &buffer[0..he];
            proof {
                assert(head@ =~= buffer@.take(he as int));
            }
            let headers = crate::text::utf8_lossy(head);
            let content_length = parse_content_length(headers.as_str());
            if content_length <= buffer.len() - (he + 4) {
                RequestReadState::Complete
            } else {
                RequestReadState::NeedMore
            }
        },
    }
}

/// Routes of the management service.
#[derive(Debug, Clone, Copy, PartialEq, Eq, Structural)]
pub enum AdminRoute {
    CorsPreflight,
    AdminPage,
    AdminStatic,
    Version,
    GetConfig,
    SaveConfig,
    ReloadConfig,
    Status,
    NetworkInfo,
    Preview,
    Logs,
    ClearLogs,
    PresetList,
    PresetImport,
    StartService,
    StopService,
    NotFound,
}

/// The path without its query string.
pub open spec fn route_path_of(path: Seq<char>) -> Seq<char> {
    before_first(path, '?')
}

/// Route of a request, decided on the method and the path without query.
pub open spec fn route_of(method: Seq<char>, path: Seq<char>) -> AdminRoute {
    let p = route_path_of(path);
    if method == "OPTIONS"@ {
        AdminRoute::CorsPreflight
    } else if method == "GET"@ && (p == "/"@ || p == "/admin"@ || p == "/admin/"@) {
        AdminRoute::AdminPage
    } else if method == "GET"@ && matches_at(p, 0, "/admin/"@) {
        AdminRoute::AdminStatic
    } else if method == "GET"@ && (p == "/version"@ || p == "/api/version"@) {
        AdminRoute::Version
    } else if method == "GET"@ && p == "/api/config"@ {
        AdminRoute::GetConfig
    } else if method == "POST"@ && p == "/api/config"@ {
        AdminRoute::SaveConfig
    } else if method == "POST"@ && p == "/api/config/reload"@ {
        AdminRoute::ReloadConfig
    } else if method == "GET"@ && p == "/api/status"@ {
        AdminRoute::Status
    } else if method == "GET"@ && p == "/api/network/ip"@ {
        AdminRoute::NetworkInfo
    } else if method == "GET"@ && p == "/api/preview"@ {
        AdminRoute::Preview
    } else if method == "GET"@ && p == "/api/logs"@ {
        AdminRoute::Logs
    } else if method == "DELETE"@ && p == "/api/logs"@ {
        AdminRoute::ClearLogs
    } else if method == "GET"@ && p == "/api/preset/list"@ {
        AdminRoute::PresetList
    } else if method == "POST"@ && p == "/api/preset/import"@ {
        AdminRoute::PresetImport
    } else if method == "POST"@ && p == "/api/service/start"@ {
        AdminRoute::StartService
    } else if method == "POST"@ && p == "/api/service/stop"@ {
        AdminRoute::StopService
    } else {
        AdminRoute::NotFound
    }
}

/// The management routes: `OPTIONS` on any path is a CORS preflight; `GET`
/// on `/`, `/admin` or `/admin/` is the page and on any other `/admin/...`
/// path a page asset; the API answers `GET /version` and `GET /api/version`,
/// `GET`/`POST /api/config`, `POST /api/config/reload`, `GET /api/status`,
/// `GET /api/network/ip`, `GET /api/preview`, `GET`/`DELETE /api/logs`,
/// `GET /api/preset/list`, `POST /api/preset/import` and
/// `POST /api/service/start` / `stop`; any other method is not found.
pub proof fn lemma_admin_routes(path: Seq<char>, rest: Seq<char>)
    ensures
        route_of("OPTIONS"@, path) == AdminRoute::CorsPreflight,
        route_of("GET"@, "/"@) == AdminRoute::AdminPage,
        route_of("GET"@, "/admin"@) == AdminRoute::AdminPage,
        route_of("GET"@, "/admin/"@) == AdminRoute::AdminPage,
        rest.len() > 0 && !rest.contains('?') ==> route_of("GET"@, "/admin/"@ + rest) == AdminRoute::AdminStatic,
        route_of("GET"@, "/version"@) == AdminRoute::Version,
        route_of("GET"@, "/api/version"@) == AdminRoute::Version,
        route_of("GET"@, "/api/config"@) == AdminRoute::GetConfig,
        route_of("POST"@, "/api/config"@) == AdminRoute::SaveConfig,
        route_of("POST"@, "/api/config/reload"@) == AdminRoute::ReloadConfig,
        route_of("GET"@, "/api/status"@) == AdminRoute::Status,
        route_of("GET"@, "/api/network/ip"@) == AdminRoute::NetworkInfo,
        route_of("GET"@, "/api/preview"@) == AdminRoute::Preview,
        route_of("GET"@, "/api/logs"@) == AdminRoute::Logs,
        route_of("DELETE"@, "/api/logs"@) == AdminRoute::ClearLogs,
        route_of("GET"@, "/api/preset/list"@) == AdminRoute::PresetList,
        route_of("POST"@, "/api/preset/import"@) == AdminRoute::PresetImport,
        route_of("POST"@, "/api/service/start"@) == AdminRoute::StartService,
        route_of("POST"@, "/api/service/stop"@) == AdminRoute::StopService,
        route_of("PUT"@, path) == AdminRoute::NotFound,
{
    reveal_strlit("/");
    reveal_strlit("/admin");
    reveal_strlit("/admin/");
    reveal_strlit("/version");
    reveal_strlit("/api/version");
    reveal_strlit("/api/config");
    reveal_strlit("/api/config/reload");
    reveal_strlit("/api/status");
    reveal_strlit("/api/network/ip");
    reveal_strlit("/api/preview");
    reveal_strlit("/api/logs");
    reveal_strlit("/api/preset/list");
    reveal_strlit("/api/preset/import");
    reveal_strlit("/api/service/start");
    reveal_strlit("/api/service/stop");
    reveal_strlit("GET");
    reveal_strlit("POST");
    reveal_strlit("DELETE");
    reveal_strlit("OPTIONS");
    reveal_strlit("PUT");
    assert(!"/"@.contains('?')) by { assert forall|i: int| 0 <= i < "/"@.len() implies "/"@[i] != '?' by {} }
    assert(!"/admin"@.contains('?')) by { assert forall|i: int| 0 <= i < "/admin"@.len() implies "/admin"@[i] != '?' by {} }
    assert(!"/admin/"@.contains('?')) by { assert forall|i: int| 0 <= i < "/admin/"@.len() implies "/admin/"@[i] != '?' by {} }
    assert(!"/version"@.contains('?')) by { assert forall|i: int| 0 <= i < "/version"@.len() implies "/version"@[i] != '?' by {} }
    assert(!"/api/version"@.contains('?')) by { assert forall|i: int| 0 <= i < "/api/version"@.len() implies "/api/version"@[i] != '?' by {} }
    assert(!"/api/config"@.contains('?')) by { assert forall|i: int| 0 <= i < "/api/config"@.len() implies "/api/config"@[i] != '?' by {} }
    assert(!"/api/config/reload"@.contains('?')) by { assert forall|i: int| 0 <= i < "/api/config/reload"@.len() implies "/api/config/reload"@[i] != '?' by {} }
    assert(!"/api/status"@.contains('?')) by { assert forall|i: int| 0 <= i < "/api/status"@.len() implies "/api/status"@[i] != '?' by {} }
    assert(!"/api/network/ip"@.contains('?')) by { assert forall|i: int| 0 <= i < "/api/network/ip"@.len() implies "/api/network/ip"@[i] != '?' by {} }
    assert(!"/api/preview"@.contains('?')) by { assert forall|i: int| 0 <= i < "/api/preview"@.len() implies "/api/preview"@[i] != '?' by {} }
    assert(!"/api/logs"@.contains('?')) by { assert forall|i: int| 0 <= i < "/api/logs"@.len() implies "/api/logs"@[i] != '?' by {} }
    assert(!"/api/preset/list"@.contains('?')) by { assert forall|i: int| 0 <= i < "/api/preset/list"@.len() implies "/api/preset/list"@[i] != '?' by {} }
    assert(!"/api/preset/import"@.contains('?')) by { assert forall|i: int| 0 <= i < "/api/preset/import"@.len() implies "/api/preset/import"@[i] != '?' by {} }
    assert(!"/api/service/start"@.contains('?')) by { assert forall|i: int| 0 <= i < "/api/service/start"@.len() implies "/api/service/start"@[i] != '?' by {} }
    assert(!"/api/service/stop"@.contains('?')) by { assert forall|i: int| 0 <= i < "/api/service/stop"@.len() implies "/api/service/stop"@[i] != '?' by {} }
    crate::text::lemma_before_first_without_separator("/"@, '?');
    crate::text::lemma_before_first_without_separator("/admin"@, '?');
    crate::text::lemma_before_first_without_separator("/admin/"@, '?');
    crate::text::lemma_before_first_without_separator("/version"@, '?');
    crate::text::lemma_before_first_without_separator("/api/version"@, '?');
    crate::text::lemma_before_first_without_separator("/api/config"@, '?');
    crate::text::lemma_before_first_without_separator("/api/config/reload"@, '?');
    crate::text::lemma_before_first_without_separator("/api/status"@, '?');
    crate::text::lemma_before_first_without_separator("/api/network/ip"@, '?');
    crate::text::lemma_before_first_without_separator("/api/preview"@, '?');
    crate::text::lemma_before_first_without_separator("/api/logs"@, '?');
    crate::text::lemma_before_first_without_separator("/api/preset/list"@, '?');
    crate::text::lemma_before_first_without_separator("/api/preset/import"@, '?');
    crate::text::lemma_before_first_without_separator("/api/service/start"@, '?');
    crate::text::lemma_before_first_without_separator("/api/service/stop"@, '?');
    assert("GET"@ != "OPTIONS"@ && "POST"@ != "OPTIONS"@ && "DELETE"@ != "OPTIONS"@ && "PUT"@ != "OPTIONS"@) by {
        assert("GET"@[0] != "OPTIONS"@[0] && "POST"@[0] != "OPTIONS"@[0] && "DELETE"@[0] != "OPTIONS"@[0]
            && "PUT"@[0] != "OPTIONS"@[0]);
    }
    assert("/api/status"@ != "/api/config"@) by {
        assert("/api/status"@[5] != "/api/config"@[5]);
    }
    assert("/api/preview"@ != "/api/version"@) by {
        assert("/api/preview"@[5] != "/api/version"@[5]);
    }
    assert("/api/preset/import"@ != "/api/config/reload"@) by {
        assert("/api/preset/import"@[5] != "/api/config/reload"@[5]);
    }
    assert("/api/service/start"@ != "/api/config/reload"@ && "/api/service/start"@ != "/api/preset/import"@) by {
        assert("/api/service/start"@[5] != "/api/config/reload"@[5]);
        assert("/api/service/start"@[5] != "/api/preset/import"@[5]);
    }
    assert("POST"@ != "GET"@ && "DELETE"@ != "GET"@ && "PUT"@ != "GET"@) by {
        assert("POST"@.len() != "GET"@.len() && "DELETE"@.len() != "GET"@.len() && "PUT"@[0] != "GET"@[0]);
    }
    assert("DELETE"@ != "POST"@ && "PUT"@ != "POST"@ && "PUT"@ != "DELETE"@) by {
        assert("DELETE"@[0] != "POST"@[0] && "PUT"@[1] != "POST"@[1] && "PUT"@[0] != "DELETE"@[0]);
    }
    assert(!matches_at("/version"@, 0, "/admin/"@)) by {
        assert("/version"@.subrange(0, 7)[1] != "/admin/"@[1]);
    }
    assert(!matches_at("/api/version"@, 0, "/admin/"@)) by {
        assert("/api/version"@.subrange(0, 7)[2] != "/admin/"@[2]);
    }
    assert(!matches_at("/api/config"@, 0, "/admin/"@)) by {
        assert("/api/config"@.subrange(0, 7)[2] != "/admin/"@[2]);
    }
    assert(!matches_at("/api/config/reload"@, 0, "/admin/"@)) by {
        assert("/api/config/reload"@.subrange(0, 7)[2] != "/admin/"@[2]);
    }
    assert(!matches_at("/api/status"@, 0, "/admin/"@)) by {
        assert("/api/status"@.subrange(0, 7)[2] != "/admin/"@[2]);
    }
    assert(!matches_at("/api/network/ip"@, 0, "/admin/"@)) by {
        assert("/api/network/ip"@.subrange(0, 7)[2] != "/admin/"@[2]);
    }
    assert(!matches_at("/api/preview"@, 0, "/admin/"@)) by {
        assert("/api/preview"@.subrange(0, 7)[2] != "/admin/"@[2]);
    }
    assert(!matches_at("/api/logs"@, 0, "/admin/"@)) by {
        assert("/api/logs"@.subrange(0, 7)[2] != "/admin/"@[2]);
    }
    assert(!matches_at("/api/preset/list"@, 0, "/admin/"@)) by {
        assert("/api/preset/list"@.subrange(0, 7)[2] != "/admin/"@[2]);
    }
    assert(!matches_at("/api/preset/import"@, 0, "/admin/"@)) by {
        assert("/api/preset/import"@.subrange(0, 7)[2] != "/admin/"@[2]);
    }
    assert(!matches_at("/api/service/start"@, 0, "/admin/"@)) by {
        assert("/api/service/start"@.subrange(0, 7)[2] != "/admin/"@[2]);
    }
    assert(!matches_at("/api/service/stop"@, 0, "/admin/"@)) by {
        assert("/api/service/stop"@.subrange(0, 7)[2] != "/admin/"@[2]);
    }
    let a = "/admin/"@ + rest;
    if rest.len() > 0 && !rest.contains('?') {
        assert(!a.contains('?')) by {
            assert forall|i: int| 0 <= i < a.len() implies a[i] != '?' by {
                if i >= 7 {
                    assert(a[i] == rest[i - 7]);
                }
            }
        }
        crate::text::lemma_before_first_without_separator(a, '?');
        assert(a.subrange(0, 7) =~= "/admin/"@);
        assert(a.len() > 7);
    }
}

/// A query string never changes the route: `path?query` is routed as
/// `path` is, for a path without `?`.
pub proof fn lemma_query_does_not_change_route(method: Seq<char>, path: Seq<char>, query: Seq<char>)
    requires
        !path.contains('?'),
    ensures
        route_of(method, path + seq!['?'] + query) == route_of(method, path),
{
    crate::text::lemma_before_first_ignores_tail(path, '?', query);
    crate::text::lemma_before_first_without_separator(path, '?');
}

/// The path without its query string.
pub fn route_path(path: &str) -> (r: String)
    ensures
        r@ == route_path_of(path@),
{
    crate::text::before_first_char(path, '?')
}

/// Routes a management request.
pub fn admin_route(method: &str, path: &str) -> (r: AdminRoute)
    ensures
        r == route_of(method@, path@),
{
    let p = route_path(path);
    let p = p.as_str();
    let get = crate::text::same_text(method, "GET");
    let post = crate::text::same_text(method, "POST");
    if crate::text::same_text(method, "OPTIONS") {
        AdminRoute::CorsPreflight
    } else if get && (crate::text::same_text(p, "/") || crate::text::same_text(p, "/admin")
        || crate::text::same_text(p, "/admin/")) {
        AdminRoute::AdminPage
    } else if get && crate::text::text_starts_with(p, "/admin/") {
        AdminRoute::AdminStatic
    } else if get && (crate::text::same_text(p, "/version") || crate::text::same_text(p, "/api/version")) {
        AdminRoute::Version
    } else if get && crate::text::same_text(p, "/api/config") {
        AdminRoute::GetConfig
    } else if post && crate::text::same_text(p, "/api/config") {
        AdminRoute::SaveConfig
    } else if post && crate::text::same_text(p, "/api/config/reload") {
        AdminRoute::ReloadConfig
    } else if get && crate::text::same_text(p, "/api/status") {
        AdminRoute::Status
    } else if get && crate::text::same_text(p, "/api/network/ip") {
        AdminRoute::NetworkInfo
    } else if get && crate::text::same_text(p, "/api/preview") {
        AdminRoute::Preview
    } else if get && crate::text::same_text(p, "/api/logs") {
        AdminRoute::Logs
    } else if crate::text::same_text(method, "DELETE") && crate::text::same_text(p, "/api/logs") {
        AdminRoute::ClearLogs
    } else if get && crate::text::same_text(p, "/api/preset/list") {
        AdminRoute::PresetList
    } else if post && crate::text::same_text(p, "/api/preset/import") {
        AdminRoute::PresetImport
    } else if post && crate::text::same_text(p, "/api/service/start") {
        AdminRoute::StartService
    } else if post && crate::text::same_text(p, "/api/service/stop") {
        AdminRoute::StopService
    } else {
        AdminRoute::NotFound
    }
}

/// Import mode named in a preset import request (`strict` when absent).
pub open spec fn import_mode_result(mode: Option<Seq<char>>) -> Result<ImportMode, Seq<char>> {
    let text = match mode {
        Some(m) => m,
        None => "strict"@,
    };
    if text == "strict"@ {
        Ok(ImportMode::Strict)
    } else if text == "lenient"@ {
        Ok(ImportMode::Lenient)
    } else {
        Err("unsupported import mode: "@ + text)
    }
}

/// Preset imports are strict unless `lenient` is asked for: no mode and
/// `strict` mean strict, `lenient` means lenient, and any other mode is
/// refused with a message naming it.
pub proof fn lemma_import_modes(mode: Seq<char>)
    ensures
        import_mode_result(None) == Ok::<ImportMode, Seq<char>>(ImportMode::Strict),
        import_mode_result(Some("strict"@)) == Ok::<ImportMode, Seq<char>>(ImportMode::Strict),
        import_mode_result(Some("lenient"@)) == Ok::<ImportMode, Seq<char>>(ImportMode::Lenient),
        mode != "strict"@ && mode != "lenient"@ ==> import_mode_result(Some(mode)) == Err::<ImportMode, Seq<char>>(
            "unsupported import mode: "@ + mode,
        ),
{
    reveal_strlit("strict");
    reveal_strlit("lenient");
    assert("strict"@ != "lenient"@) by {
        assert("strict"@.len() != "lenient"@.len());
    }
}

/// Parses the import mode of a preset import request.
pub fn import_mode_from_text(mode: Option<&str>) -> (r: Result<ImportMode, Error>)
    ensures
        match (r, import_mode_result(match mode { Some(m) => Some(m@), None => None })) {
            (Ok(a), Ok(b)) => a == b,
            (Err(Error::UI(m)), Err(e)) => m@ == e,
            _ => false,
        },
{
    let text = match mode {
        Some(m) => m,
        None => "strict",
    };
    if crate::text::same_text(text, "strict") {
        Ok(ImportMode::Strict)
    } else if crate::text::same_text(text, "lenient") {
        Ok(ImportMode::Lenient)
    } else {
        let mut message = String::from_str("unsupported import mode: ");
        message.append(text);
        Err(Error::UI(message))
    }
}

/// WebSocket address of the stream service on `host`.
pub open spec fn connection_url_text(host: Seq<char>, port: u16) -> Seq<char> {
    "ws://"@ + host + ":"@ + decimal_digits(port as nat) + "/stream"@
}

/// Address of the stream page on `host`.
pub open spec fn stream_url_text(host: Seq<char>, port: u16) -> Seq<char> {
    "http://"@ + host + ":"@ + decimal_digits(port as nat) + "/public/"@
}

/// Address of the management service.
pub open spec fn admin_base_url_text(admin_port: u16) -> Seq<char> {
    "http://127.0.0.1:"@ + decimal_digits(admin_port as nat)
}

/// Builds the WebSocket address of the stream service.
pub fn connection_url(host: &str, port: u16) -> (r: String)
    ensures
        r@ == connection_url_text(host@, port),
{
    let mut url = String::from_str("ws://");
    url.append(host);
    url.append(":");
    crate::text::push_decimal_u64(&mut url, port as u64);
    url.append("/stream");
    proof {
        assert(url@ =~= connection_url_text(host@, port));
    }
    url
}

/// Builds the address of the stream page.
pub fn stream_url(host: &str, port: u16) -> (r: String)
    ensures
        r@ == stream_url_text(host@, port),
{
    let mut url = String::from_str("http://");
    url.append(host);
    url.append(":");
    crate::text::push_decimal_u64(&mut url, port as u64);
    url.append("/public/");
    proof {
        assert(url@ =~= stream_url_text(host@, port));
    }
    url
}

/// Builds the address of the management service.
pub fn admin_base_url(admin_port: u16) -> (r: String)
    ensures
        r@ == admin_base_url_text(admin_port),
{
    let mut url = String::from_str("http://127.0.0.1:");
    crate::text::push_decimal_u64(&mut url, admin_port as u64);
    url
}

/// Header block of a management response.
pub open spec fn admin_response_head(status: Seq<char>, content_type: Seq<char>, length: nat) -> Seq<char> {
    "HTTP/1.1 "@ + status + "\r\nContent-Type: "@ + content_type + "\r\nContent-Length: "@
        + decimal_digits(length)
        + "\r\nCache-Control: no-store\r\nConnection: close\r\nAccess-Control-Allow-Origin: *\r\nAccess-Control-Allow-Methods: GET, POST, DELETE, OPTIONS\r\nAccess-Control-Allow-Headers: Content-Type\r\n\r\n"@
}

/// Builds a complete management response: header block, then the body.
pub fn http_response(status: &str, content_type: &str, body: Vec<u8>) -> (r: Vec<u8>)
    ensures
        r@ == vstd::utf8::encode_utf8(admin_response_head(status@, content_type@, body@.len())) + body@,
{
    let mut head = String::from_str("HTTP/1.1 ");
    head.append(status);
    head.append("\r\nContent-Type: ");
    head.append(content_type);
    head.append("\r\nContent-Length: ");
    crate::text::push_decimal_u64(&mut head, body.len() as u64);
    head.append(
        "\r\nCache-Control: no-store\r\nConnection: close\r\nAccess-Control-Allow-Origin: *\r\nAccess-Control-Allow-Methods: GET, POST, DELETE, OPTIONS\r\nAccess-Control-Allow-Headers: Content-Type\r\n\r\n",
    );
    proof {
        assert(head@ =~= admin_response_head(status@, content_type@, body@.len()));
    }
    let mut out = vstd::slice::slice_to_vec(head.as_str().as_bytes());
    let mut rest = body;
    out.append(&mut rest);
    out
}

/// Response to a CORS preflight request: `204 No Content` with no body.
pub fn cors_preflight_response() -> (r: Vec<u8>)
    ensures
        r@ == vstd::utf8::encode_utf8(admin_response_head("204 No Content"@, "text/plain; charset=utf-8"@, 0)),
{
    let r = http_response("204 No Content", "text/plain; charset=utf-8", Vec::new());
    proof {
        assert(r@ =~= vstd::utf8::encode_utf8(admin_response_head("204 No Content"@, "text/plain; charset=utf-8"@, 0)));
    }
    r
}

/// Components of the asset an `/admin/...` path names (the page itself for
/// `/admin/`), or `None` for other paths and unsafe paths.
pub open spec fn admin_components(request_path: Seq<char>) -> Option<Seq<Seq<char>>> {
    if matches_at(request_path, 0, "/admin/"@) {
        let relative = request_path.skip(("/admin/"@).len() as int);
        if relative.len() == 0 {
            Some(seq!["index.html"@])
        } else {
            crate::websocket_server::safe_components(relative)
        }
    } else {
        None
    }
}

/// An `/admin/...` request is answered only with an asset under the page
/// directory: every component of the asset it names is plain.
pub proof fn lemma_admin_assets_stay_inside(request_path: Seq<char>)
    ensures
        admin_components(request_path) matches Some(c) ==> forall|i: int| 0 <= i < c.len()
            ==> crate::websocket_server::is_plain_component(#[trigger] c[i]),
{
    crate::websocket_server::lemma_index_page_is_plain();
    crate::websocket_server::lemma_safe_components_stay_inside(request_path.skip(("/admin/"@).len() as int));
}

/// Maps an `/admin/...` request path to the components of the asset to serve.
pub fn admin_file_path(request_path: &str) -> (r: Option<Vec<String>>)
    ensures
        match (r, admin_components(request_path@)) {
            (Some(a), Some(b)) => crate::text::strings_view(a@) == b,
            (None, None) => true,
            _ => false,
        },
{
    if !crate::text::text_starts_with(request_path, "/admin/") {
        return None;
    }
    proof {
        reveal_strlit("/admin/");
    }
    let n = crate::text::chars_of(request_path).len();
    let relative = crate::text::substring(request_path, 7, n);
    proof {
        assert(relative@ =~= request_path@.skip(7));
    }
    if relative.as_str().is_empty() {
        let mut v: Vec<String> = Vec::new();
        v.push(String::from_str("index.html"));
        proof {
            assert(crate::text::strings_view(v@) =~= seq!["index.html"@]);
        }
        Some(v)
    } else {
        crate::websocket_server::safe_relative_components(relative.as_str())
    }
}

/// MIME type of a management asset, by the extension of its file name.
pub fn static_content_type(file_name: &str) -> (r: &'static str)
    ensures
        r@ == crate::websocket_server::content_type_of(file_name@),
{
    crate::websocket_server::content_type(file_name)
}

} // verus!
