use vstd::prelude::*;
use vstd::string::{StrSliceExecFns, StringSliceAdditionalSpecFns};
use vstd::utf8::{decode_utf8, encode_utf8, valid_utf8, encode_utf8_decode_utf8};
use vstd::slice::{slice_subrange, slice_to_vec};
use crate::rpc::RpcRequest;
use crate::text::{
    field_end, lemma_field_end_bounds, split_char, split_on, str_eq, is_ws, is_whitespace, words,
    split_whitespace, utf8_str, spec_parse_unsigned, parse_usize_text,
};
use crate::types::{hex_nibble_value, spec_hex_nibble};

verus! {

/// Whether the four bytes at `i` are the blank line `\r\n\r\n`.
pub open spec fn blank_line_at(b: Seq<u8>, i: int) -> bool {
    0 <= i && i + 4 <= b.len() && b[i] == 13 && b[i + 1] == 10 && b[i + 2] == 13 && b[i + 3] == 10
}

/// The first position at or after `i` where a blank line starts.
pub open spec fn header_end_from(b: Seq<u8>, i: int) -> Option<int>
    decreases b.len() - i,
{
    if i < 0 || i + 4 > b.len() {
        None
    } else if blank_line_at(b, i) {
        Some(i)
    } else {
        header_end_from(b, i + 1)
    }
}

/// Where the header block of a request ends: the first `\r\n\r\n`.
pub open spec fn spec_header_end(b: Seq<u8>) -> Option<int> {
    header_end_from(b, 0)
}

fn find_header_end(bytes: &[u8]) -> (out: Option<usize>)
    ensures
        match out {
            Some(i) => spec_header_end(bytes@) == Some(i as int) && i + 4 <= bytes@.len(),
            None => spec_header_end(bytes@) is None,
        },
{
    let n = bytes.len();
    let mut i: usize = 0;
    while i < n && n - i >= 4
        invariant
            n == bytes@.len(),
            i <= n,
            header_end_from(bytes@, 0) == header_end_from(bytes@, i as int),
        decreases n - i,
    {
        if bytes[i] == 13 && bytes[i + 1] == 10 && bytes[i + 2] == 13 && bytes[i + 3] == 10 {
            return Some(i);
        }
        i += 1;
    }
    None
}

/// Whether `\r\n` starts at position `j`.
pub open spec fn crlf_at(s: Seq<char>, j: int) -> bool {
    0 <= j && j + 1 < s.len() && s[j] == '\r' && s[j + 1] == '\n'
}

/// The first position at or after `i` where `\r\n` starts, or the length.
pub open spec fn crlf_end(s: Seq<char>, i: int) -> int
    decreases s.len() - i,
{
    if 0 <= i < s.len() && !crlf_at(s, i) {
        crlf_end(s, i + 1)
    } else {
        i
    }
}

pub proof fn lemma_crlf_end_bounds(s: Seq<char>, i: int)
    requires
        0 <= i <= s.len(),
    ensures
        i <= crlf_end(s, i) <= s.len(),
        crlf_end(s, i) < s.len() ==> crlf_at(s, crlf_end(s, i)),
    decreases s.len() - i,
{
    if i < s.len() && !crlf_at(s, i) {
        lemma_crlf_end_bounds(s, i + 1);
    }
}

/// The pieces of `s` from position `i` on, cut at every `\r\n`.
pub open spec fn split_crlf_from(s: Seq<char>, i: int) -> Seq<Seq<char>>
    decreases s.len() - i,
{
    if i < 0 || i > s.len() {
        Seq::empty()
    } else {
        let k = crlf_end(s, i);
        proof {
            lemma_crlf_end_bounds(s, i);
        }
        if k >= s.len() {
            seq![s.subrange(i, s.len() as int)]
        } else {
            seq![s.subrange(i, k)] + split_crlf_from(s, k + 2)
        }
    }
}

/// The lines of a header block, as `str::split("\r\n")` gives them.
pub open spec fn split_crlf(s: Seq<char>) -> Seq<Seq<char>> {
    split_crlf_from(s, 0)
}

proof fn lemma_split_crlf_nonempty(s: Seq<char>, i: int)
    requires
        0 <= i <= s.len(),
    ensures
        split_crlf_from(s, i).len() >= 1,
    decreases s.len() - i,
{
    lemma_crlf_end_bounds(s, i);
    let k = crlf_end(s, i);
    if k < s.len() {
        lemma_split_crlf_nonempty(s, k + 2);
    }
}

fn split_lines_crlf<'a>(text: &'a str) -> (out: Vec<&'a str>)
    ensures
        out@.map_values(|w: &str| w@) == split_crlf(text@),
        out@.len() >= 1,
{
    proof {
        lemma_split_crlf_nonempty(text@, 0);
    }
    let n = text.unicode_len();
    let mut out: Vec<&'a str> = Vec::new();
    let mut i: usize = 0;
    loop
        invariant
            n == text@.len(),
            i <= n,
            out@.map_values(|w: &str| w@) + split_crlf_from(text@, i as int) == split_crlf(text@),
            split_crlf(text@).len() >= 1,
        decreases n - i,
    {
        let mut k: usize = i;
        proof {
            lemma_crlf_end_bounds(text@, i as int);
        }
        while k < n && !(k + 1 < n && text.get_char(k) == '\r' && text.get_char(k + 1) == '\n')
            invariant
                n == text@.len(),
                i <= k <= n,
                crlf_end(text@, k as int) == crlf_end(text@, i as int),
            decreases n - k,
        {
            k += 1;
        }
        let piece = text.substring_char(i, k);
        let ghost before = out@.map_values(|w: &str| w@);
        out.push(piece);
        assert(out@.map_values(|w: &str| w@) =~= before.push(text@.subrange(i as int, k as int)));
        if k >= n {
            assert(split_crlf_from(text@, i as int) == seq![text@.subrange(i as int, n as int)]);
            assert(before + split_crlf_from(text@, i as int) =~= out@.map_values(|w: &str| w@));
            return out;
        }
        assert(split_crlf_from(text@, i as int) == seq![text@.subrange(i as int, k as int)]
            + split_crlf_from(text@, k + 2));
        assert(before + split_crlf_from(text@, i as int) =~= before.push(text@.subrange(i as int, k as int))
            + split_crlf_from(text@, k + 2));
        i = k + 2;
    }
}

/// The first position at or after `i` that is not whitespace, or the length.
pub open spec fn ws_lead(s: Seq<char>, i: int) -> int
    decreases s.len() - i,
{
    if 0 <= i < s.len() && is_ws(s[i]) {
        ws_lead(s, i + 1)
    } else {
        i
    }
}

/// The end of `s` up to `j` once trailing whitespace after `lo` is dropped.
pub open spec fn ws_trail(s: Seq<char>, lo: int, j: int) -> int
    decreases j - lo,
{
    if lo < j && j <= s.len() && is_ws(s[j - 1]) {
        ws_trail(s, lo, j - 1)
    } else {
        j
    }
}

proof fn lemma_ws_lead_bounds(s: Seq<char>, i: int)
    requires
        0 <= i <= s.len(),
    ensures
        i <= ws_lead(s, i) <= s.len(),
    decreases s.len() - i,
{
    if i < s.len() && is_ws(s[i]) {
        lemma_ws_lead_bounds(s, i + 1);
    }
}

proof fn lemma_ws_trail_bounds(s: Seq<char>, lo: int, j: int)
    requires
        0 <= lo <= j <= s.len(),
    ensures
        lo <= ws_trail(s, lo, j) <= j,
    decreases j - lo,
{
    if lo < j && is_ws(s[j - 1]) {
        lemma_ws_trail_bounds(s, lo, j - 1);
    }
}

/// `s` without leading and trailing whitespace, as `str::trim` gives it.
pub open spec fn trim_ws(s: Seq<char>) -> Seq<char> {
    let a = ws_lead(s, 0);
    s.subrange(a, ws_trail(s, a, s.len() as int))
}

pub(crate) fn trim<'a>(text: &'a str) -> (out: &'a str)
    ensures
        out@ == trim_ws(text@),
{
    let n = text.unicode_len();
    proof {
        lemma_ws_lead_bounds(text@, 0);
    }
    let mut a: usize = 0;
    while a < n && is_whitespace(text.get_char(a))
        invariant
            n == text@.len(),
            a <= n,
            ws_lead(text@, a as int) == ws_lead(text@, 0),
        decreases n - a,
    {
        a += 1;
    }
    proof {
        lemma_ws_trail_bounds(text@, a as int, n as int);
    }
    let mut b: usize = n;
    while b > a && is_whitespace(text.get_char(b - 1))
        invariant
            n == text@.len(),
            a <= b <= n,
            a == ws_lead(text@, 0),
            ws_trail(text@, a as int, b as int) == ws_trail(text@, a as int, n as int),
        decreases b - a,
    {
        b -= 1;
    }
    text.substring_char(a, b)
}

/// A character code with ASCII upper-case letters folded to lower case.
pub open spec fn ascii_fold(c: char) -> u32 {
    let u = c as u32;
    if 65 <= u <= 90 { (u + 32) as u32 } else { u }
}

/// Whether two texts are equal up to ASCII case.
pub open spec fn eq_ignore_ascii_case(a: Seq<char>, b: Seq<char>) -> bool {
    a.len() == b.len() && forall|i: int| 0 <= i < a.len() ==> ascii_fold(#[trigger] a[i]) == ascii_fold(b[i])
}

fn fold_char(c: char) -> (out: u32)
    ensures
        out == ascii_fold(c),
{
    let u = c as u32;
    if 65 <= u && u <= 90 { u + 32 } else { u }
}

fn str_eq_ignore_ascii_case(a: &str, b: &str) -> (out: bool)
    ensures
        out == eq_ignore_ascii_case(a@, b@),
{
    let n = a.unicode_len();
    if n != b.unicode_len() {
        return false;
    }
    let mut i: usize = 0;
    while i < n
        invariant
            n == a@.len(),
            n == b@.len(),
            i <= n,
            forall|j: int| 0 <= j < i ==> ascii_fold(#[trigger] a@[j]) == ascii_fold(b@[j]),
        decreases n - i,
    {
        if fold_char(a.get_char(i)) != fold_char(b.get_char(i)) {
            return false;
        }
        i += 1;
    }
    true
}

/// The bytes of a query value with `%XX` escapes and `+` decoded, from
/// position `i` on.
pub open spec fn percent_decode_from(b: Seq<u8>, i: int) -> Seq<u8>
    decreases b.len() - i,
{
    if i < 0 || i >= b.len() {
        Seq::empty()
    } else if b[i] == 37 && i + 2 < b.len() && spec_hex_nibble(b[i + 1]) is Some
        && spec_hex_nibble(b[i + 2]) is Some {
        seq![(spec_hex_nibble(b[i + 1])->0 * 16 + spec_hex_nibble(b[i + 2])->0) as u8]
            + percent_decode_from(b, i + 3)
    } else if b[i] == 43 {
        seq![32u8] + percent_decode_from(b, i + 1)
    } else {
        seq![b[i]] + percent_decode_from(b, i + 1)
    }
}

/// What `String::from_utf8_lossy` makes of some bytes.
pub uninterp spec fn utf8_lossy(bytes: Seq<u8>) -> Seq<char>;

/// Calls `String::from_utf8_lossy`. The contract names its result, and
/// states what its documentation says of valid UTF-8: the text is the
/// decoded input. How invalid sequences are replaced is not stated.
#[verifier::external_body]
fn string_from_utf8_lossy(bytes: &[u8]) -> (out: String)
    ensures
        out@ == utf8_lossy(bytes@),
        valid_utf8(bytes@) ==> out@ == decode_utf8(bytes@),
{
    String::from_utf8_lossy(bytes).into_owned()
}

/// A query value decoded: escapes resolved, then read as UTF-8 with
/// invalid sequences replaced.
pub open spec fn spec_percent_decode(value: Seq<char>) -> Seq<char> {
    utf8_lossy(percent_decode_from(encode_utf8(value), 0))
}

fn percent_decode(value: &str) -> (out: String)
    ensures
        out@ == spec_percent_decode(value@),
{
    let bytes = value.as_bytes();
    let n = bytes.len();
    let mut out: Vec<u8> = Vec::new();
    let mut index: usize = 0;
    while index < n
        invariant
            n == bytes@.len(),
            index <= n,
            out@ + percent_decode_from(bytes@, index as int) == percent_decode_from(bytes@, 0),
        decreases n - index,
    {
        let ghost before = out@;
        if bytes[index] == 37 && n - index > 2 {
            let high = hex_nibble_value(bytes[index + 1]);
            let low = hex_nibble_value(bytes[index + 2]);
            if high.is_some() && low.is_some() {
                let h = high.unwrap();
                let l = low.unwrap();
                assert(h < 16 && l < 16);
                out.push(h * 16 + l);
                assert(out@ + percent_decode_from(bytes@, index + 3) =~= before + percent_decode_from(bytes@, index as int));
                index += 3;
                continue;
            }
        }
        if bytes[index] == 43 {
            out.push(32);
        } else {
            out.push(bytes[index]);
        }
        assert(out@ + percent_decode_from(bytes@, index + 1) =~= before + percent_decode_from(bytes@, index as int));
        index += 1;
    }
    assert(out@ + percent_decode_from(bytes@, n as int) =~= out@);
    string_from_utf8_lossy(out.as_slice())
}

/// The value of the first `token=` pair among query pairs, decoded.
pub open spec fn query_token(pairs: Seq<Seq<char>>) -> Option<Seq<char>>
    decreases pairs.len(),
{
    if pairs.len() == 0 {
        None
    } else {
        let p = pairs[0];
        let k = field_end(p, 0, '=');
        if k < p.len() && p.subrange(0, k) == "token"@ {
            Some(spec_percent_decode(p.subrange(k + 1, p.len() as int)))
        } else {
            query_token(pairs.drop_first())
        }
    }
}

/// A request target cut at its first `?`: the path, and the token that
/// the query carries, if any.
pub open spec fn spec_split_path_and_auth_token(target: Seq<char>) -> (Seq<char>, Option<Seq<char>>) {
    let q = field_end(target, 0, '?');
    if q >= target.len() {
        (target, None)
    } else {
        (target.subrange(0, q), query_token(split_on(target.subrange(q + 1, target.len() as int), '&')))
    }
}

fn find_char(text: &str, c: char) -> (out: usize)
    ensures
        out == field_end(text@, 0, c),
        out <= text@.len(),
{
    proof {
        lemma_field_end_bounds(text@, 0, c);
    }
    let n = text.unicode_len();
    let mut i: usize = 0;
    while i < n && text.get_char(i) != c
        invariant
            n == text@.len(),
            i <= n,
            field_end(text@, i as int, c) == field_end(text@, 0, c),
        decreases n - i,
    {
        i += 1;
    }
    i
}

/// Cuts a request target into its path and the `token` query value.
pub fn split_path_and_auth_token(path: &str) -> (out: (String, Option<String>))
    ensures
        out.0@ == spec_split_path_and_auth_token(path@).0,
        match out.1 {
            Some(t) => spec_split_path_and_auth_token(path@).1 == Some(t@),
            None => spec_split_path_and_auth_token(path@).1 is None,
        },
{
    let n = path.unicode_len();
    let q = find_char(path, '?');
    if q >= n {
        return (path.to_owned(), None);
    }
    let path_only = path.substring_char(0, q);
    let query = path.substring_char(q + 1, n);
    let pairs = split_char(query, '&');
    let ghost views = pairs@.map_values(|w: &str| w@);
    assert(views.skip(0) =~= views);
    assert(path_only@ == spec_split_path_and_auth_token(path@).0);
    let mut i: usize = 0;
    while i < pairs.len()
        invariant
            path_only@ == spec_split_path_and_auth_token(path@).0,
            spec_split_path_and_auth_token(path@).1 == query_token(views),
            views == pairs@.map_values(|w: &str| w@),
            views == split_on(query@, '&'),
            i <= pairs@.len(),
            query_token(views) == query_token(views.skip(i as int)),
        decreases pairs@.len() - i,
    {
        let pair = pairs[i];
        assert(views.skip(i as int)[0] == pair@);
        assert(views.skip(i as int).drop_first() =~= views.skip(i + 1));
        let m = pair.unicode_len();
        let k = find_char(pair, '=');
        if k < m {
            let name = pair.substring_char(0, k);
            if str_eq(name, "token") {
                let value = pair.substring_char(k + 1, m);
                return (path_only.to_owned(), Some(percent_decode(value)));
            }
        }
        i += 1;
    }
    assert(views.skip(i as int) =~= Seq::<Seq<char>>::empty());
    (path_only.to_owned(), None)
}

/// The method and target of a request line.
pub struct HttpRequestLine<'a> {
    pub method: &'a str,
    pub path: &'a str,
}

/// Why a request line was refused.
#[derive(Clone, Copy, Debug, PartialEq, Eq)]
pub enum HttpRequestLineError {
    MissingMethod,
    MissingPath,
}

/// Reads a request line: its first word is the method, its second the
/// target; anything after them is ignored.
pub fn parse_http_request_line<'a>(line: &'a str) -> (out: Result<HttpRequestLine<'a>, HttpRequestLineError>)
    ensures
        match out {
            Err(e) => (e == HttpRequestLineError::MissingMethod && words(line@).len() == 0)
                || (e == HttpRequestLineError::MissingPath && words(line@).len() == 1),
            Ok(l) => words(line@).len() >= 2 && l.method@ == words(line@)[0] && l.path@ == words(line@)[1],
        },
{
    let parts = split_whitespace(line);
    let ghost views = parts@.map_values(|w: &str| w@);
    if parts.len() == 0 {
        return Err(HttpRequestLineError::MissingMethod);
    }
    if parts.len() == 1 {
        return Err(HttpRequestLineError::MissingPath);
    }
    assert(views[0] == parts@[0]@ && views[1] == parts@[1]@);
    Ok(HttpRequestLine { method: parts[0], path: parts[1] })
}

/// What the header lines of a request have set so far.
pub struct HeaderScan {
    pub content_length: nat,
    pub auth_token: Option<Seq<char>>,
    pub websocket_key: Option<Seq<char>>,
    pub websocket_upgrade: bool,
    pub malformed: bool,
}

/// A value without one leading `Bearer `.
pub open spec fn strip_bearer(value: Seq<char>) -> Seq<char> {
    if value.len() >= 7 && value.subrange(0, 7) == "Bearer "@ {
        value.subrange(7, value.len() as int)
    } else {
        value
    }
}

/// One header line read into the scan: `name: value`, both trimmed, the
/// name compared without ASCII case; a line without `:` is skipped, and
/// nothing is read once a length was malformed.
pub open spec fn scan_line(st: HeaderScan, line: Seq<char>) -> HeaderScan {
    let k = field_end(line, 0, ':');
    if st.malformed || k >= line.len() {
        st
    } else {
        let name = trim_ws(line.subrange(0, k));
        let value = trim_ws(line.subrange(k + 1, line.len() as int));
        if eq_ignore_ascii_case(name, "content-length"@) {
            match spec_parse_unsigned(encode_utf8(value), usize::MAX as nat) {
                Some(v) => HeaderScan { content_length: v, ..st },
                None => HeaderScan { malformed: true, ..st },
            }
        } else if eq_ignore_ascii_case(name, "authorization"@) {
            HeaderScan { auth_token: Some(trim_ws(strip_bearer(value))), ..st }
        } else if eq_ignore_ascii_case(name, "x-tensorchain-auth"@) {
            HeaderScan { auth_token: Some(value), ..st }
        } else if eq_ignore_ascii_case(name, "sec-websocket-key"@) {
            HeaderScan { websocket_key: Some(value), ..st }
        } else if eq_ignore_ascii_case(name, "upgrade"@) && eq_ignore_ascii_case(value, "websocket"@) {
            HeaderScan { websocket_upgrade: true, ..st }
        } else {
            st
        }
    }
}

/// The header lines read in order, later lines overriding earlier ones.
pub open spec fn scan_headers(lines: Seq<Seq<char>>, init: HeaderScan) -> HeaderScan
    decreases lines.len(),
{
    if lines.len() == 0 {
        init
    } else {
        scan_line(scan_headers(lines.drop_last(), init), lines.last())
    }
}

/// A parsed request as plain values.
pub enum HttpRequestView {
    Request { method: Seq<char>, path: Seq<char>, body: Seq<u8>, auth_token: Option<Seq<char>> },
    WebSocketUpgrade { path: Seq<char>, auth_token: Option<Seq<char>>, websocket_key: Seq<char> },
    BadRequest,
    TooLarge,
}

/// What the bytes received so far make of a request: `None` while the
/// header block or the body is incomplete.
pub open spec fn spec_try_parse_http_request(bytes: Seq<u8>, max_body_bytes: nat) -> Option<HttpRequestView> {
    match spec_header_end(bytes) {
        None => None,
        Some(h) => {
            let head = bytes.subrange(0, h);
            if !valid_utf8(head) {
                Some(HttpRequestView::BadRequest)
            } else {
                let lines = split_crlf(decode_utf8(head));
                let w = words(lines[0]);
                if w.len() < 2 {
                    Some(HttpRequestView::BadRequest)
                } else {
                    let target = spec_split_path_and_auth_token(w[1]);
                    let init = HeaderScan {
                        content_length: 0,
                        auth_token: target.1,
                        websocket_key: None,
                        websocket_upgrade: false,
                        malformed: false,
                    };
                    let st = scan_headers(lines.skip(1), init);
                    if st.malformed {
                        Some(HttpRequestView::BadRequest)
                    } else if st.content_length > max_body_bytes {
                        Some(HttpRequestView::TooLarge)
                    } else if st.websocket_upgrade {
                        match st.websocket_key {
                            None => Some(HttpRequestView::BadRequest),
                            Some(key) => Some(HttpRequestView::WebSocketUpgrade {
                                path: target.0,
                                auth_token: st.auth_token,
                                websocket_key: key,
                            }),
                        }
                    } else if h + 4 + st.content_length > usize::MAX || bytes.len() < h + 4 + st.content_length {
                        None
                    } else {
                        Some(HttpRequestView::Request {
                            method: w[0],
                            path: target.0,
                            body: bytes.subrange(h + 4, h + 4 + st.content_length),
                            auth_token: st.auth_token,
                        })
                    }
                }
            }
        },
    }
}

/// A request read from the wire, a websocket handshake, or why it was refused.
#[derive(Clone, Debug, PartialEq, Eq)]
pub enum ParsedHttpRequest {
    Request { request: RpcRequest, auth_token: Option<String> },
    WebSocketUpgrade { path: String, auth_token: Option<String>, websocket_key: String },
    BadRequest,
    TooLarge,
}

/// The text of an optional string.
pub open spec fn opt_text(o: Option<String>) -> Option<Seq<char>> {
    match o {
        Some(s) => Some(s@),
        None => None,
    }
}

impl View for ParsedHttpRequest {
    type V = HttpRequestView;

    open spec fn view(&self) -> HttpRequestView {
        match self {
            ParsedHttpRequest::Request { request, auth_token } => HttpRequestView::Request {
                method: request.method@,
                path: request.path@,
                body: request.body@,
                auth_token: opt_text(*auth_token),
            },
            ParsedHttpRequest::WebSocketUpgrade { path, auth_token, websocket_key } => HttpRequestView::WebSocketUpgrade {
                path: path@,
                auth_token: opt_text(*auth_token),
                websocket_key: websocket_key@,
            },
            ParsedHttpRequest::BadRequest => HttpRequestView::BadRequest,
            ParsedHttpRequest::TooLarge => HttpRequestView::TooLarge,
        }
    }
}

/// The view of an optional parse.
pub open spec fn parsed_view(o: Option<ParsedHttpRequest>) -> Option<HttpRequestView> {
    match o {
        Some(p) => Some(p@),
        None => None,
    }
}

fn opt_owned(o: Option<&str>) -> (out: Option<String>)
    ensures
        opt_text(out) == (match o { Some(s) => Some(s@), None => None::<Seq<char>> }),
{
    match o {
        Some(s) => Some(s.to_owned()),
        None => None,
    }
}

/// Parses the bytes of a request received so far.
pub fn try_parse_http_request(bytes: &[u8], max_body_bytes: usize) -> (out: Option<ParsedHttpRequest>)
    ensures
        parsed_view(out) == spec_try_parse_http_request(bytes@, max_body_bytes as nat),
{
    let header_end = match find_header_end(bytes) {
        Some(h) => h,
        None => return None,
    };
    let head = slice_subrange(bytes, 0, header_end);
    let header_text = match utf8_str(head) {
        Some(t) => t,
        None => return Some(ParsedHttpRequest::BadRequest),
    };
    proof {
        encode_utf8_decode_utf8(header_text@);
    }
    assert(header_text@ == decode_utf8(bytes@.subrange(0, header_end as int)));
    let lines = split_lines_crlf(header_text);
    let ghost views = lines@.map_values(|w: &str| w@);
    assert(views[0] == lines@[0]@);
    assert(views == split_crlf(decode_utf8(bytes@.subrange(0, header_end as int))));
    assert(valid_utf8(bytes@.subrange(0, header_end as int)));
    let request_line = match parse_http_request_line(lines[0]) {
        Ok(l) => l,
        Err(_) => {
            assert(words(views[0]).len() < 2);
            return Some(ParsedHttpRequest::BadRequest);
        },
    };
    let method = request_line.method.to_owned();
    let (path, query_auth_token) = split_path_and_auth_token(request_line.path);
    let ghost init = HeaderScan {
        content_length: 0,
        auth_token: opt_text(query_auth_token),
        websocket_key: None,
        websocket_upgrade: false,
        malformed: false,
    };
    let mut content_length: usize = 0;
    let mut auth_token: Option<String> = query_auth_token;
    let mut websocket_key: Option<String> = None;
    let mut websocket_upgrade = false;
    let mut malformed = false;
    let mut i: usize = 1;
    assert(views.subrange(1, 1) =~= Seq::<Seq<char>>::empty());
    while i < lines.len()
        invariant
            1 <= i <= lines@.len(),
            header_end + 4 <= bytes@.len(),
            views == lines@.map_values(|w: &str| w@),
            scan_headers(views.subrange(1, i as int), init) == (HeaderScan {
                content_length: content_length as nat,
                auth_token: opt_text(auth_token),
                websocket_key: opt_text(websocket_key),
                websocket_upgrade: websocket_upgrade,
                malformed: malformed,
            }),
        decreases lines@.len() - i,
    {
        let line = lines[i];
        assert(views.subrange(1, i + 1).drop_last() =~= views.subrange(1, i as int));
        assert(views.subrange(1, i + 1).last() == line@);
        let m = line.unicode_len();
        let k = find_char(line, ':');
        if !malformed && k < m {
            let name = trim(line.substring_char(0, k));
            let value = trim(line.substring_char(k + 1, m));
            if str_eq_ignore_ascii_case(name, "content-length") {
                match parse_usize_text(value.as_bytes()) {
                    Some(v) => {
                        content_length = v;
                    },
                    None => {
                        malformed = true;
                    },
                }
            } else if str_eq_ignore_ascii_case(name, "authorization") {
                let n = value.unicode_len();
                let stripped = if n >= 7 && str_eq(value.substring_char(0, 7), "Bearer ") {
                    value.substring_char(7, n)
                } else {
                    value
                };
                auth_token = Some(trim(stripped).to_owned());
            } else if str_eq_ignore_ascii_case(name, "x-tensorchain-auth") {
                auth_token = Some(value.to_owned());
            } else if str_eq_ignore_ascii_case(name, "sec-websocket-key") {
                websocket_key = Some(value.to_owned());
            } else if str_eq_ignore_ascii_case(name, "upgrade") && str_eq_ignore_ascii_case(value, "websocket") {
                websocket_upgrade = true;
            }
        }
        i += 1;
    }
    assert(views.subrange(1, lines@.len() as int) =~= views.skip(1));
    if malformed {
        return Some(ParsedHttpRequest::BadRequest);
    }
    if content_length > max_body_bytes {
        return Some(ParsedHttpRequest::TooLarge);
    }
    if websocket_upgrade {
        return match websocket_key {
            None => Some(ParsedHttpRequest::BadRequest),
            Some(websocket_key) => Some(ParsedHttpRequest::WebSocketUpgrade { path, auth_token, websocket_key }),
        };
    }
    let total = bytes.len();
    assert(header_end + 4 <= total);
    let body_start = header_end + 4;
    let body_end = match body_start.checked_add(content_length) {
        Some(e) => e,
        None => return None,
    };
    if bytes.len() < body_end {
        return None;
    }
    let body = slice_to_vec(slice_subrange(bytes, body_start, body_end));
    Some(ParsedHttpRequest::Request { request: RpcRequest { method, path, body }, auth_token })
}

/// The most bytes a request may take beyond its body limit: the room
/// left for the request line and headers.
pub const MAX_HEADER_BYTES: usize = 8192;

/// What a reader does with the bytes of a request received so far: more
/// bytes than the body limit plus header room are refused as too large;
/// otherwise they are parsed, and `None` asks for more.
pub open spec fn spec_http_read_step(bytes: Seq<u8>, max_body_bytes: nat) -> Option<HttpRequestView> {
    let limit: int = if max_body_bytes + MAX_HEADER_BYTES > usize::MAX { usize::MAX as int } else { max_body_bytes + MAX_HEADER_BYTES };
    if bytes.len() > limit {
        Some(HttpRequestView::TooLarge)
    } else {
        spec_try_parse_http_request(bytes, max_body_bytes)
    }
}

/// Decides on the bytes of a request received so far; a reader that gets
/// `None` reads more, and answers `BadRequest` when the peer closes first.
pub fn http_read_step(bytes: &[u8], max_body_bytes: usize) -> (out: Option<ParsedHttpRequest>)
    ensures
        parsed_view(out) == spec_http_read_step(bytes@, max_body_bytes as nat),
{
    let limit = max_body_bytes.saturating_add(MAX_HEADER_BYTES);
    if bytes.len() > limit {
        return Some(ParsedHttpRequest::TooLarge);
    }
    try_parse_http_request(bytes, max_body_bytes)
}

} // verus!
