use vstd::prelude::*;
use vstd::string::{StrSliceExecFns, StringSliceAdditionalSpecFns};
use vstd::utf8::encode_utf8;
use crate::text::{split_char, split_on, string_from_chars};

pub mod http;
pub mod parse;
pub mod json;
pub mod gateway;
pub mod explorer_command;

verus! {

/// An HTTP request as the RPC layer sees it.
#[derive(Clone, Debug, PartialEq, Eq)]
pub struct RpcRequest {
    pub method: String,
    pub path: String,
    pub body: Vec<u8>,
}

/// An RPC answer: an HTTP status and a body.
#[derive(Clone, Debug, PartialEq, Eq)]
pub struct RpcResponse {
    pub status: u16,
    pub body: String,
}

/// What a gateway demands of requests: an optional bearer token, a body
/// limit, and a request budget per client.
#[derive(Clone, Debug, PartialEq, Eq)]
pub struct RpcPolicy {
    pub auth_token: Option<String>,
    pub max_body_bytes: usize,
    pub max_requests_per_client: u64,
}

impl Default for RpcPolicy {
    fn default() -> (out: Self)
        ensures
            out.auth_token is None,
            out.max_body_bytes == 1024 * 1024,
            out.max_requests_per_client == 1_000,
    {
        RpcPolicy { auth_token: None, max_body_bytes: 1024 * 1024, max_requests_per_client: 1_000 }
    }
}

/// The most path segments a dynamic route has.
pub const MAX_DYNAMIC_ROUTE_SEGMENTS: usize = 4;

/// The first position at or after `i` that holds a character other than `c`.
pub open spec fn skip_char(s: Seq<char>, i: int, c: char) -> int
    decreases s.len() - i,
{
    if 0 <= i < s.len() && s[i] == c {
        skip_char(s, i + 1, c)
    } else {
        i
    }
}

/// The last position before `j` (searching down) after which only `c`
/// follows, that is the end of `s[..j]` with trailing `c`s removed.
pub open spec fn trim_end_char(s: Seq<char>, j: int, c: char) -> int
    decreases j,
{
    if 0 < j <= s.len() && s[j - 1] == c {
        trim_end_char(s, j - 1, c)
    } else {
        j
    }
}

proof fn lemma_skip_char_bounds(s: Seq<char>, i: int, c: char)
    requires
        0 <= i <= s.len(),
    ensures
        i <= skip_char(s, i, c) <= s.len(),
    decreases s.len() - i,
{
    if i < s.len() && s[i] == c {
        lemma_skip_char_bounds(s, i + 1, c);
    }
}

proof fn lemma_trim_end_bounds(s: Seq<char>, j: int, c: char)
    requires
        0 <= j <= s.len(),
    ensures
        0 <= trim_end_char(s, j, c) <= j,
    decreases j,
{
    if 0 < j && s[j - 1] == c {
        lemma_trim_end_bounds(s, j - 1, c);
    }
}

/// `s` without leading and trailing `c`s, as `str::trim_matches` gives it.
pub open spec fn trim_matches(s: Seq<char>, c: char) -> Seq<char> {
    let start = skip_char(s, 0, c);
    let end = trim_end_char(s, s.len() as int, c);
    if start >= end { Seq::empty() } else { s.subrange(start, end) }
}

/// The segments of a route path: the path without surrounding slashes, cut
/// at every slash; none where there are more than the limit.
pub open spec fn route_segments(path: Seq<char>) -> Seq<Seq<char>> {
    let parts = split_on(trim_matches(path, '/'), '/');
    if parts.len() > MAX_DYNAMIC_ROUTE_SEGMENTS { Seq::empty() } else { parts }
}

/// A request path cut into the segments a dynamic route matches on.
pub struct DynamicRoutePath<'a> {
    segments: Vec<&'a str>,
}

impl<'a> DynamicRoutePath<'a> {
    pub closed spec fn segment_views(&self) -> Seq<Seq<char>> {
        self.segments@.map_values(|s: &str| s@)
    }

    pub fn parse(path: &'a str) -> (out: Self)
        ensures
            out.segment_views() == route_segments(path@),
    {
        let n = path.unicode_len();
        let mut start: usize = 0;
        while start < n && path.get_char(start) == '/'
            invariant
                n == path@.len(),
                start <= n,
                skip_char(path@, start as int, '/') == skip_char(path@, 0, '/'),
            decreases n - start,
        {
            start += 1;
        }
        let mut end: usize = n;
        while end > 0 && path.get_char(end - 1) == '/'
            invariant
                n == path@.len(),
                end <= n,
                trim_end_char(path@, end as int, '/') == trim_end_char(path@, n as int, '/'),
            decreases end,
        {
            end -= 1;
        }
        let trimmed: &'a str = if start >= end { path.substring_char(0, 0) } else { path.substring_char(start, end) };
        assert(trimmed@ == trim_matches(path@, '/')) by {
            if start >= end {
                assert(trimmed@ =~= Seq::<char>::empty());
            }
        }
        let parts = split_char(trimmed, '/');
        if parts.len() > MAX_DYNAMIC_ROUTE_SEGMENTS {
            let out = DynamicRoutePath { segments: Vec::new() };
            assert(out.segment_views() =~= Seq::<Seq<char>>::empty());
            return out;
        }
        DynamicRoutePath { segments: parts }
    }

    pub fn segments(&self) -> (out: &[&'a str])
        ensures
            out@.map_values(|s: &str| s@) == self.segment_views(),
    {
        self.segments.as_slice()
    }
}

/// The decimal digits of `n`.
pub open spec fn decimal_chars(n: nat) -> Seq<char>
    decreases n,
{
    if n < 10 {
        seq![(n + 48) as char]
    } else {
        decimal_chars(n / 10) + seq![((n % 10) + 48) as char]
    }
}

pub(crate) fn push_decimal(out: &mut Vec<char>, n: u64)
    ensures
        final(out)@ == old(out)@ + decimal_chars(n as nat),
    decreases n,
{
    if n < 10 {
        out.push(((n as u8) + 48) as char);
        assert(((n as u8) + 48) as char == (n + 48) as char);
    } else {
        push_decimal(out, n / 10);
        let d = (n % 10) as u8;
        out.push((d + 48) as char);
        assert((d + 48) as char == ((n % 10) + 48) as char);
        assert(final(out)@ =~= old(out)@ + decimal_chars(n as nat));
    }
}

fn push_str(out: &mut Vec<char>, s: &str)
    ensures
        final(out)@ == old(out)@ + s@,
{
    let n = s.unicode_len();
    let mut i: usize = 0;
    while i < n
        invariant
            n == s@.len(),
            i <= n,
            out@ == old(out)@ + s@.subrange(0, i as int),
        decreases n - i,
    {
        out.push(s.get_char(i));
        assert(out@ =~= old(out)@ + s@.subrange(0, i + 1));
        i += 1;
    }
    assert(s@.subrange(0, n as int) =~= s@);
}

/// The reason phrase of an HTTP status.
pub open spec fn status_text(status: u16) -> Seq<char> {
    if status == 200 {
        "OK"@
    } else if status == 202 {
        "Accepted"@
    } else if status == 400 {
        "Bad Request"@
    } else if status == 401 {
        "Unauthorized"@
    } else if status == 404 {
        "Not Found"@
    } else if status == 409 {
        "Conflict"@
    } else if status == 413 {
        "Payload Too Large"@
    } else if status == 429 {
        "Too Many Requests"@
    } else {
        "Unknown"@
    }
}

fn status_reason(status: u16) -> (out: &'static str)
    ensures
        out@ == status_text(status),
{
    match status {
        200 => "OK",
        202 => "Accepted",
        400 => "Bad Request",
        401 => "Unauthorized",
        404 => "Not Found",
        409 => "Conflict",
        413 => "Payload Too Large",
        429 => "Too Many Requests",
        _ => "Unknown",
    }
}

/// Whether a body is an HTML page.
pub open spec fn is_html(body: Seq<char>) -> bool {
    body.len() >= 15 && body.subrange(0, 15) == "<!doctype html>"@
}

/// The content type of a body: HTML pages are HTML, everything else JSON.
pub open spec fn content_type(body: Seq<char>) -> Seq<char> {
    if is_html(body) { "text/html; charset=utf-8"@ } else { "application/json"@ }
}

/// The HTTP/1.1 text of a response.
pub open spec fn spec_response_text(status: u16, body: Seq<char>) -> Seq<char> {
    "HTTP/1.1 "@ + decimal_chars(status as nat) + " "@ + status_text(status) + "\r\ncontent-type: "@
        + content_type(body) + "\r\ncontent-length: "@ + decimal_chars(encode_utf8(body).len()) + "\r\n\r\n"@ + body
}

fn starts_with_html(body: &str) -> (out: bool)
    ensures
        out == is_html(body@),
{
    let prefix = "<!doctype html>";
    proof {
        reveal_strlit("<!doctype html>");
    }
    let n = body.unicode_len();
    if n < 15 {
        return false;
    }
    let mut i: usize = 0;
    while i < 15
        invariant
            n == body@.len(),
            n >= 15,
            prefix@.len() == 15,
            prefix@ == "<!doctype html>"@,
            i <= 15,
            forall|j: int| 0 <= j < i ==> body@[j] == prefix@[j],
        decreases 15 - i,
    {
        if body.get_char(i) != prefix.get_char(i) {
            assert(body@.subrange(0, 15)[i as int] != prefix@[i as int]);
            return false;
        }
        i += 1;
    }
    assert(body@.subrange(0, 15) =~= prefix@);
    true
}

/// The HTTP/1.1 text of a response: status line, content type, content
/// length, blank line, body.
pub fn http_response_text(response: &RpcResponse) -> (out: String)
    ensures
        out@ == spec_response_text(response.status, response.body@),
{
    let body = response.body.as_str();
    let status = response.status;
    let html = starts_with_html(body);
    let blen = body.as_bytes().len();
    assert(blen as nat == encode_utf8(body@).len());
    let mut chars: Vec<char> = Vec::new();
    push_str(&mut chars, "HTTP/1.1 ");
    push_decimal(&mut chars, status as u64);
    push_str(&mut chars, " ");
    push_str(&mut chars, status_reason(status));
    push_str(&mut chars, "\r\ncontent-type: ");
    let ghost head = chars@;
    if html {
        push_str(&mut chars, "text/html; charset=utf-8");
    } else {
        push_str(&mut chars, "application/json");
    }
    assert(chars@ == head + content_type(body@));
    push_str(&mut chars, "\r\ncontent-length: ");
    push_decimal(&mut chars, blen as u64);
    push_str(&mut chars, "\r\n\r\n");
    push_str(&mut chars, body);
    assert(chars@ =~= spec_response_text(response.status, response.body@));
    string_from_chars(chars.as_slice())
}

} // verus!
