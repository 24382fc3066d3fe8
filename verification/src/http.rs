//! Requests to the local Pipeline server and its answers.
use vstd::prelude::*;
use vstd::slice::slice_subrange;
use vstd::string::*;

use crate::failure::{Failure, FailureView};
use crate::numbers::{decimal, parse_hex, parse_u16, parse_u64};
use crate::text::{before, contains, find_bytes, lines, split_once, str_eq, to_ascii_lowercase, trim};

verus! {

/// An answer of the server.
#[derive(Debug, PartialEq, Eq)]
pub struct HttpResponse {
    pub status: u16,
    /// Reason phrase from the status line (e.g. "Bad Request"), empty when absent.
    pub reason: String,
    pub body: String,
    /// `Retry-After` header in seconds, when present and numeric.
    pub retry_after: Option<u64>,
}

/// What an [`HttpResponse`] holds.
pub struct ResponseView {
    pub status: u16,
    pub reason: Seq<char>,
    pub body: Seq<char>,
    pub retry_after: Option<u64>,
}

impl View for HttpResponse {
    type V = ResponseView;

    open spec fn view(&self) -> ResponseView {
        ResponseView {
            status: self.status,
            reason: self.reason@,
            body: self.body@,
            retry_after: self.retry_after,
        }
    }
}

/// Whether a status code tells of success.
pub open spec fn is_ok_status(status: u16) -> bool {
    200 <= status < 300
}

impl HttpResponse {
    /// Whether the status is one of the 2xx.
    pub fn ok(&self) -> (r: bool)
        ensures
            r == is_ok_status(self.status),
    {
        200 <= self.status && self.status < 300
    }
}

// ---------------------------------------------------------------------------
// Bytes as text
// ---------------------------------------------------------------------------
/// What `String::from_utf8_lossy` makes of bytes.
pub uninterp spec fn utf8_lossy(bytes: Seq<u8>) -> Seq<char>;

/// `String::from_utf8_lossy`: bytes as text, with replacement characters for what is not UTF-8.
/// Bytes that are UTF-8 come out as the text that they encode.
#[verifier::external_body]
pub(crate) fn lossy_text(bytes: &[u8]) -> (r: String)
    ensures
        r@ == utf8_lossy(bytes@),
        vstd::utf8::valid_utf8(bytes@) ==> r@ == vstd::utf8::decode_utf8(bytes@),
{
    String::from_utf8_lossy(bytes).into_owned()
}

/// `std::str::from_utf8`: the text that the bytes encode, exactly where they are UTF-8.
#[verifier::external_body]
fn utf8_text(bytes: &[u8]) -> (r: Option<&str>)
    ensures
        match r {
            Some(s) => vstd::utf8::valid_utf8(bytes@) && s@ == vstd::utf8::decode_utf8(bytes@),
            None => !vstd::utf8::valid_utf8(bytes@),
        },
{
    std::str::from_utf8(bytes).ok()
}

// ---------------------------------------------------------------------------
// Requests
// ---------------------------------------------------------------------------
/// The header lines of a request.
pub open spec fn headers_of(
    host: Seq<char>,
    port: u16,
    token: Option<Seq<char>>,
    content_type: Option<Seq<char>>,
    body_len: Option<usize>,
) -> Seq<char> {
    let base = "Host: "@ + host + ":"@ + crate::numbers::decimal_of(port as nat)
        + "\r\nAccept: */*\r\nConnection: close\r\n"@;
    let with_token = match token {
        Some(t) => base + "Authorization: Bearer "@ + t + "\r\n"@,
        None => base,
    };
    let with_type = match content_type {
        Some(t) => with_token + "Content-Type: "@ + t + "\r\n"@,
        None => with_token,
    };
    match body_len {
        Some(n) => with_type + "Content-Length: "@ + crate::numbers::decimal_of(n as nat)
            + "\r\n"@,
        None => with_type,
    }
}

/// The header lines of a request.
pub fn build_headers(
    host: &str,
    port: u16,
    token: Option<&str>,
    content_type: Option<&str>,
    body_len: Option<usize>,
) -> (r: String)
    ensures
        r@ == headers_of(
            host@,
            port,
            crate::text::opt_str_view(token),
            crate::text::opt_str_view(content_type),
            body_len,
        ),
{
    let mut out = "Host: ".to_owned();
    out.append(host);
    out.append(":");
    out.append(decimal(port as u64).as_str());
    out.append("\r\nAccept: */*\r\nConnection: close\r\n");
    match token {
        Some(t) => {
            out.append("Authorization: Bearer ");
            out.append(t);
            out.append("\r\n");
        },
        None => {},
    }
    match content_type {
        Some(t) => {
            out.append("Content-Type: ");
            out.append(t);
            out.append("\r\n");
        },
        None => {},
    }
    match body_len {
        Some(n) => {
            out.append("Content-Length: ");
            out.append(decimal(n as u64).as_str());
            out.append("\r\n");
        },
        None => {},
    }
    out
}

/// A whole request to the local server: the request line, the headers, an empty line, the body.
pub open spec fn request_of(
    port: u16,
    request_line: Seq<char>,
    token: Option<Seq<char>>,
    body: Option<Seq<char>>,
    content_type: Option<Seq<char>>,
) -> Seq<char> {
    let head = request_line + "\r\n"@ + headers_of(
        "127.0.0.1"@,
        port,
        token,
        content_type,
        match body {
            Some(b) => Some(vstd::utf8::encode_utf8(b).len() as usize),
            None => None,
        },
    ) + "\r\n"@;
    match body {
        Some(b) => head + b,
        None => head,
    }
}

/// A whole request to the local server.
pub fn build_request(
    port: u16,
    request_line: &str,
    token: Option<&str>,
    body: Option<&str>,
    content_type: Option<&str>,
) -> (r: String)
    ensures
        r@ == request_of(
            port,
            request_line@,
            crate::text::opt_str_view(token),
            crate::text::opt_str_view(body),
            crate::text::opt_str_view(content_type),
        ),
{
    let body_len: Option<usize> = match body {
        Some(b) => Some(b.len()),
        None => None,
    };
    let mut out = request_line.to_owned();
    out.append("\r\n");
    out.append(build_headers("127.0.0.1", port, token, content_type, body_len).as_str());
    out.append("\r\n");
    match body {
        Some(b) => {
            out.append(b);
        },
        None => {},
    }
    out
}

/// The text of a simple HTTP GET against the local Pipeline server.
pub fn http_get(port: u16, path: &str, token: Option<&str>) -> (r: String)
    ensures
        r@ == request_of(
            port,
            "GET "@ + path@ + " HTTP/1.1"@,
            crate::text::opt_str_view(token),
            None,
            None,
        ),
{
    let mut line = "GET ".to_owned();
    line.append(path);
    line.append(" HTTP/1.1");
    build_request(port, line.as_str(), token, None, None)
}

/// The text of a simple HTTP POST with a JSON body.
pub fn http_post_json(port: u16, path: &str, token: Option<&str>, body: &str) -> (r: String)
    ensures
        r@ == request_of(
            port,
            "POST "@ + path@ + " HTTP/1.1"@,
            crate::text::opt_str_view(token),
            Some(body@),
            Some("application/json"@),
        ),
{
    let mut line = "POST ".to_owned();
    line.append(path);
    line.append(" HTTP/1.1");
    build_request(port, line.as_str(), token, Some(body), Some("application/json"))
}

// ---------------------------------------------------------------------------
// Answers
// ---------------------------------------------------------------------------
/// The line ending of HTTP.
pub open spec fn crlf() -> Seq<u8> {
    seq![13u8, 10u8]
}

/// What ends the headers of an answer.
pub open spec fn header_end() -> Seq<u8> {
    seq![13u8, 10u8, 13u8, 10u8]
}

/// The seconds that a header line names where it is a numeric `Retry-After`.
pub open spec fn retry_seconds(line: Seq<char>) -> Option<u64> {
    match crate::text::split_once_of(line, ':') {
        Some((name, value)) => if crate::text::ascii_lower(crate::text::trim_of(name))
            == "retry-after"@ {
            match crate::numbers::parse_unsigned(
                crate::text::trim_of(value),
                10,
                u64::MAX as nat,
            ) {
                Some(n) => Some(n as u64),
                None => None,
            }
        } else {
            None
        },
        None => None,
    }
}

/// The seconds of the first numeric `Retry-After` among the lines from `from` on.
pub open spec fn retry_after_from(head: Seq<Seq<char>>, from: int) -> Option<u64>
    decreases head.len() - from,
{
    if 0 <= from < head.len() {
        match retry_seconds(head[from]) {
            Some(n) => Some(n),
            None => retry_after_from(head, from + 1),
        }
    } else {
        None
    }
}

/// The seconds of the first numeric `Retry-After` behind the status line.
pub open spec fn retry_after_of(head: Seq<char>) -> Option<u64> {
    retry_after_from(crate::text::lines_of(head), 1)
}

/// Extract `Retry-After` (delta-seconds form only) from the response headers.
pub fn parse_retry_after(head: &str) -> (r: Option<u64>)
    ensures
        r == retry_after_of(head@),
{
    let all = lines(head);
    let mut i: usize = 1;
    while i < all.len()
        invariant
            1 <= i,
            crate::text::views(all@) == crate::text::lines_of(head@),
            retry_after_of(head@) == retry_after_from(crate::text::lines_of(head@), i as int),
        decreases all@.len() - i,
    {
        assert(crate::text::views(all@)[i as int] == all@[i as int]@);
        assert(crate::text::views(all@).len() == all@.len());
        match split_once(all[i].as_str(), ':') {
            Some((name, value)) => {
                if str_eq(to_ascii_lowercase(trim(name.as_str()).as_str()).as_str(), "retry-after") {
                    let n = parse_u64(trim(value.as_str()).as_str());
                    if n.is_some() {
                        return n;
                    }
                }
            },
            None => {},
        }
        i = i + 1;
    }
    assert(crate::text::views(all@).len() == all@.len());
    None
}

/// The bytes that a chunked body carries from position `i` on, or the message of the error.
pub open spec fn chunks_from(data: Seq<u8>, i: int) -> Result<Seq<u8>, Seq<char>>
    decreases
            (if i < data.len() {
                data.len() - i
            } else {
                0
            }),
{
    if i < 0 || i >= data.len() {
        Ok(seq![])
    } else {
        match crate::text::find_seq(data, crlf(), i) {
            None => Err("malformed chunked body"@),
            Some(end) => if !(i <= end && end + 2 <= data.len()) {
                Err("malformed chunked body"@)
            } else if !vstd::utf8::valid_utf8(data.subrange(i, end)) {
                Err("chunk size is not utf-8"@)
            } else {
                let size_text = crate::text::trim_of(
                    crate::text::before_of(vstd::utf8::decode_utf8(data.subrange(i, end)), ';'),
                );
                match crate::numbers::parse_unsigned(size_text, 16, usize::MAX as nat) {
                    None => Err("invalid chunk size: "@ + size_text),
                    Some(size) => if size == 0 {
                        Ok(seq![])
                    } else if end + 2 + size > data.len() {
                        Err("truncated chunk"@)
                    } else {
                        behind(
                            data.subrange(end + 2, end + 2 + size),
                            chunks_from(data, end + 2 + size + 2),
                        )
                    },
                }
            },
        }
    }
}

/// `first` in front of the bytes of `rest`.
pub open spec fn behind(first: Seq<u8>, rest: Result<Seq<u8>, Seq<char>>) -> Result<
    Seq<u8>,
    Seq<char>,
> {
    match rest {
        Ok(b) => Ok(first + b),
        Err(e) => Err(e),
    }
}

/// The text that a chunked body carries, or the message of the error.
pub open spec fn chunked_text(data: Seq<u8>) -> Result<Seq<char>, Seq<char>> {
    match chunks_from(data, 0) {
        Ok(b) => Ok(utf8_lossy(b)),
        Err(e) => Err(e),
    }
}

/// The view of an outcome whose failure is a message.
pub open spec fn text_outcome(r: Result<String, Failure>) -> Result<Seq<char>, FailureView> {
    match r {
        Ok(s) => Ok(s@),
        Err(e) => Err(e@),
    }
}

/// An outcome with its message as a failure.
pub open spec fn failing<T>(r: Result<T, Seq<char>>) -> Result<T, FailureView> {
    match r {
        Ok(t) => Ok(t),
        Err(m) => Err(FailureView::Message(m)),
    }
}

/// The text that a chunked body carries.
pub fn decode_chunked(data: &[u8]) -> (r: Result<String, Failure>)
    ensures
        text_outcome(r) == failing(chunked_text(data@)),
{
    let n: usize = data.len();
    let sep: Vec<u8> = vec![13u8, 10u8];
    assert(sep@ =~= crlf());
    let mut out: Vec<u8> = Vec::new();
    let mut i: usize = 0;
    proof {
        if let Ok(b) = chunks_from(data@, 0) {
            assert(out@ + b =~= b);
        }
    }
    while i < n
        invariant
            n == data@.len(),
            sep@ == crlf(),
            chunks_from(data@, 0) == behind(out@, chunks_from(data@, i as int)),
        decreases n - i,
    {
        let hit = find_bytes(data, sep.as_slice(), i);
        proof {
            crate::text::lemma_find_seq(data@, crlf(), i as int);
        }
        let end: usize = match hit {
            Some(e) => e,
            None => {
                return Err(Failure::new("malformed chunked body"));
            },
        };
        assert(end + 2 <= n);
        let line = match utf8_text(slice_subrange(data, i, end)) {
            Some(s) => s,
            None => {
                return Err(Failure::new("chunk size is not utf-8"));
            },
        };
        let size_text = trim(before(line, ';').as_str());
        let size: usize = match parse_hex(size_text.as_str()) {
            Some(v) => v,
            None => {
                let mut m = "invalid chunk size: ".to_owned();
                m.append(size_text.as_str());
                return Err(Failure::Message(m));
            },
        };
        let start: usize = end + 2;
        if size == 0 {
            assert(chunks_from(data@, i as int) == chunks_from(data@, n as int));
            i = n;
            continue ;
        }
        if size > n - start {
            return Err(Failure::new("truncated chunk"));
        }
        let ghost before_chunk = out@;
        let stop: usize = start + size;
        let mut k: usize = start;
        assert(data@.subrange(start as int, k as int) =~= seq![]);
        while k < stop
            invariant
                start <= k <= stop <= data@.len(),
                out@ == before_chunk + data@.subrange(start as int, k as int),
            decreases stop - k,
        {
            out.push(data[k]);
            k = k + 1;
            assert(out@ =~= before_chunk + data@.subrange(start as int, k as int));
        }
        let ghost rest = chunks_from(data@, stop + 2);
        proof {
            let chunk = data@.subrange(start as int, stop as int);
            assert(chunks_from(data@, i as int) == behind(chunk, rest));
            if let Ok(b) = rest {
                assert(before_chunk + (chunk + b) =~= (before_chunk + chunk) + b);
            }
        }
        if n - stop <= 2 {
            i = n;
        } else {
            i = stop + 2;
        }
        assert(chunks_from(data@, i as int) == rest);
    }
    assert(chunks_from(data@, 0) == Ok::<Seq<u8>, Seq<char>>(out@)) by {
        assert(out@ + Seq::<u8>::empty() =~= out@);
    }
    Ok(lossy_text(out.as_slice()))
}

/// The headers of an answer as text; empty where they are not UTF-8.
pub open spec fn head_text(bytes: Seq<u8>) -> Seq<char> {
    if vstd::utf8::valid_utf8(bytes) {
        vstd::utf8::decode_utf8(bytes)
    } else {
        seq![]
    }
}

/// The first line of a text; empty where there is none.
pub open spec fn first_line_of(s: Seq<char>) -> Seq<char> {
    let all = crate::text::lines_of(s);
    if all.len() > 0 {
        all[0]
    } else {
        seq![]
    }
}

/// What a status line says behind the protocol: the code, and the reason.
pub open spec fn status_of(line: Seq<char>) -> Option<(u16, Seq<char>)> {
    match crate::text::split_once_of(line, ' ') {
        None => None,
        Some((_, rest)) => {
            let (code, reason) = match crate::text::split_once_of(rest, ' ') {
                Some((c, r)) => (c, r),
                None => (rest, seq![]),
            };
            match crate::numbers::parse_unsigned(code, 10, u16::MAX as nat) {
                Some(n) => Some((n as u16, crate::text::trim_of(reason))),
                None => None,
            }
        },
    }
}

/// What a status line says behind the protocol.
fn read_status(line: &str) -> (r: Option<(u16, String)>)
    ensures
        match r {
            Some(p) => status_of(line@) == Some((p.0, p.1@)),
            None => status_of(line@) is None,
        },
{
    match split_once(line, ' ') {
        None => None,
        Some((protocol, rest)) => {
            let (code, reason) = match split_once(rest.as_str(), ' ') {
                Some(p) => p,
                None => (rest, String::new()),
            };
            match parse_u16(code.as_str()) {
                Some(n) => Some((n, trim(reason.as_str()))),
                None => None,
            }
        },
    }
}

/// What the bytes of an answer say, or the message of the error.
pub open spec fn response_of(raw: Seq<u8>) -> Result<ResponseView, Seq<char>> {
    match crate::text::find_seq(raw, header_end(), 0) {
        None => Err("malformed HTTP response (no header terminator)"@),
        Some(split) => {
            let head = head_text(raw.take(split));
            let body = raw.skip(split + 4);
            match status_of(first_line_of(head)) {
                None => Err("invalid HTTP status line: "@ + first_line_of(head)),
                Some((status, reason)) => {
                    let text = if crate::text::contains_seq(
                        crate::text::ascii_lower(head),
                        "transfer-encoding: chunked"@,
                    ) {
                        chunked_text(body)
                    } else {
                        Ok(utf8_lossy(body))
                    };
                    match text {
                        Ok(body) => Ok(
                            ResponseView { status, reason, body, retry_after: retry_after_of(head) },
                        ),
                        Err(e) => Err(e),
                    }
                },
            }
        },
    }
}

/// The view of an answer or a failure.
pub open spec fn response_outcome(r: Result<HttpResponse, Failure>) -> Result<
    ResponseView,
    FailureView,
> {
    match r {
        Ok(resp) => Ok(resp@),
        Err(e) => Err(e@),
    }
}

/// Reads an answer of the server from all its bytes.
pub fn parse_response(raw: &[u8]) -> (r: Result<HttpResponse, Failure>)
    ensures
        response_outcome(r) == failing(response_of(raw@)),
{
    let terminator: Vec<u8> = vec![13u8, 10u8, 13u8, 10u8];
    assert(terminator@ =~= header_end());
    proof {
        crate::text::lemma_find_seq(raw@, header_end(), 0);
    }
    let split: usize = match find_bytes(raw, terminator.as_slice(), 0) {
        Some(i) => i,
        None => {
            return Err(Failure::new("malformed HTTP response (no header terminator)"));
        },
    };
    let total: usize = raw.len();
    assert(split + 4 <= total);
    let header_bytes = slice_subrange(raw, 0, split);
    let body_bytes = slice_subrange(raw, split + 4, raw.len());
    assert(header_bytes@ =~= raw@.take(split as int));
    assert(body_bytes@ =~= raw@.skip(split + 4));
    let head: String = match utf8_text(header_bytes) {
        Some(s) => s.to_owned(),
        None => String::new(),
    };
    assert(head@ =~= head_text(raw@.take(split as int)));
    let all = lines(head.as_str());
    assert(crate::text::views(all@).len() == all@.len());
    let first_line: String = if all.len() > 0 {
        assert(crate::text::views(all@)[0] == all@[0]@);
        all[0].clone()
    } else {
        String::new()
    };
    assert(first_line@ =~= first_line_of(head@));
    let (status, reason) = match read_status(first_line.as_str()) {
        Some(p) => p,
        None => {
            let mut m = "invalid HTTP status line: ".to_owned();
            m.append(first_line.as_str());
            return Err(Failure::Message(m));
        },
    };
    // A very small subset of chunked transfer decoding: Unity's HTTP listener always emits
    // Content-Length, but be defensive.
    let is_chunked = contains(
        to_ascii_lowercase(head.as_str()).as_str(),
        "transfer-encoding: chunked",
    );
    let body: String = if is_chunked {
        match decode_chunked(body_bytes) {
            Ok(text) => text,
            Err(e) => {
                return Err(e);
            },
        }
    } else {
        lossy_text(body_bytes)
    };
    Ok(HttpResponse { status, reason, body, retry_after: parse_retry_after(head.as_str()) })
}

/// Whether the answer to a status request proves that the server is alive: any 2xx status, or a
/// 401 when no bearer token was supplied.
pub open spec fn answers(response: Option<ResponseView>, has_token: bool) -> bool {
    match response {
        Some(r) => is_ok_status(r.status) || (r.status == 401 && !has_token),
        None => false,
    }
}

/// Whether the outcome of a status request proves that the local Pipeline server responds. True
/// when the endpoint answers with any 2xx status, or with 401 when no bearer token is supplied
/// (an unauthenticated 401 still proves the server is alive).
pub fn probe_pipeline(outcome: &Result<HttpResponse, Failure>, token: Option<&str>) -> (r: bool)
    ensures
        r == answers(
            match *outcome {
                Ok(resp) => Some(resp@),
                Err(_) => None,
            },
            token is Some,
        ),
{
    match outcome {
        Ok(resp) => resp.ok() || (resp.status == 401 && token.is_none()),
        Err(_) => false,
    }
}

// ---------------------------------------------------------------------------
// Laws
// ---------------------------------------------------------------------------
proof fn lemma_occurs_shifts(p: Seq<u8>, d: Seq<u8>, pat: Seq<u8>, i: int)
    requires
        0 <= i,
    ensures
        crate::text::occurs_at(p + d, pat, p.len() + i) == crate::text::occurs_at(d, pat, i),
{
    if i + pat.len() <= d.len() {
        assert((p + d).subrange(p.len() + i, p.len() + i + pat.len()) =~= d.subrange(
            i,
            i + pat.len(),
        ));
    }
}

proof fn lemma_find_shifts(p: Seq<u8>, d: Seq<u8>, pat: Seq<u8>, i: int)
    requires
        0 <= i,
    ensures
        crate::text::find_seq(p + d, pat, p.len() + i) == match crate::text::find_seq(d, pat, i) {
            Some(k) => Some(p.len() + k),
            None => None::<int>,
        },
    decreases d.len() - i,
{
    lemma_occurs_shifts(p, d, pat, i);
    if i + pat.len() <= d.len() && !crate::text::occurs_at(d, pat, i) && i < d.len() {
        lemma_find_shifts(p, d, pat, i + 1);
    }
}

proof fn lemma_chunks_shift(p: Seq<u8>, d: Seq<u8>, i: int)
    requires
        0 <= i,
    ensures
        chunks_from(p + d, p.len() + i) == chunks_from(d, i),
    decreases
            (if i < d.len() {
                d.len() - i
            } else {
                0
            }),
{
    if i < d.len() {
        lemma_find_shifts(p, d, crlf(), i);
        crate::text::lemma_find_seq(d, crlf(), i);
        match crate::text::find_seq(d, crlf(), i) {
            Some(end) => {
                assert((p + d).subrange(p.len() + i, p.len() + end) =~= d.subrange(i, end));
                if vstd::utf8::valid_utf8(d.subrange(i, end)) {
                    let size_text = crate::text::trim_of(
                        crate::text::before_of(vstd::utf8::decode_utf8(d.subrange(i, end)), ';'),
                    );
                    match crate::numbers::parse_unsigned(size_text, 16, usize::MAX as nat) {
                        Some(size) => {
                            if size > 0 && end + 2 + size <= d.len() {
                                lemma_chunks_shift(p, d, end + 2 + size + 2);
                                assert((p + d).subrange(
                                    p.len() + end + 2,
                                    p.len() + end + 2 + size,
                                ) =~= d.subrange(end + 2, end + 2 + size));
                            }
                        },
                        None => {},
                    }
                }
            },
            None => {},
        }
    }
}

/// The size that the line in front of a chunk gives.
pub open spec fn line_size(line: Seq<u8>) -> Option<nat> {
    if vstd::utf8::valid_utf8(line) {
        crate::numbers::parse_unsigned(
            crate::text::trim_of(crate::text::before_of(vstd::utf8::decode_utf8(line), ';')),
            16,
            usize::MAX as nat,
        )
    } else {
        None
    }
}

proof fn lemma_line_found(line: Seq<u8>, tail: Seq<u8>)
    requires
        !crate::text::contains_seq(line, crlf()),
    ensures
        crate::text::find_seq(line + crlf() + tail, crlf(), 0) == Some(line.len() as int),
{
    let all = line + crlf() + tail;
    let n = line.len() as int;
    assert(all.subrange(n, n + 2) =~= crlf());
    assert forall|j: int| 0 <= j < n implies !crate::text::occurs_at(all, crlf(), j) by {
        if crate::text::occurs_at(all, crlf(), j) {
            let two = all.subrange(j, j + 2);
            assert(two[0] == all[j] && two[1] == all[j + 1]);
            assert(two == crlf());
            if j + 1 < n {
                assert(line.subrange(j, j + 2) =~= two);
                assert(crate::text::occurs_at(line, crlf(), j));
            } else {
                assert(all[j + 1] == crlf()[0]);
            }
        }
    }
    crate::text::lemma_find_seq_step(all, crlf(), 0, n);
    assert(crate::text::occurs_at(all, crlf(), n));
}

/// Chunks are joined in their order: a chunk in front of a chunked body adds its bytes in front of
/// those that the body carries.
pub proof fn chunks_are_joined(line: Seq<u8>, data: Seq<u8>, rest: Seq<u8>)
    requires
        !crate::text::contains_seq(line, crlf()),
        line_size(line) == Some(data.len()),
        data.len() > 0,
    ensures
        chunks_from(line + crlf() + data + crlf() + rest, 0) == behind(data, chunks_from(rest, 0)),
{
    let all = line + crlf() + data + crlf() + rest;
    let n = line.len() as int;
    assert(all =~= line + crlf() + (data + crlf() + rest));
    lemma_line_found(line, data + crlf() + rest);
    assert(all.subrange(0, n) =~= line);
    assert(all.subrange(n + 2, n + 2 + data.len()) =~= data);
    let p = line + crlf() + data + crlf();
    assert(all =~= p + rest);
    lemma_chunks_shift(p, rest, 0);
}

/// A chunk of no bytes ends a chunked body, whatever follows.
pub proof fn empty_chunk_ends_the_body(line: Seq<u8>, rest: Seq<u8>)
    requires
        !crate::text::contains_seq(line, crlf()),
        line_size(line) == Some(0nat),
    ensures
        chunks_from(line + crlf() + rest, 0) == Ok::<Seq<u8>, Seq<char>>(seq![]),
{
    let all = line + crlf() + rest;
    lemma_line_found(line, rest);
    assert(all.subrange(0, line.len() as int) =~= line);
}

/// A request names its host and port, asks for the connection to be closed, and has the token, the
/// type and the length of its body where there is one, and the body behind an empty line.
pub proof fn requests_are_written(port: u16, line: Seq<char>, t: Seq<char>, b: Seq<char>, ty: Seq<char>)
    requires
        vstd::utf8::encode_utf8(b).len() <= usize::MAX,
    ensures
        ({
            let host = line + "\r\n"@ + ("Host: "@ + "127.0.0.1"@ + ":"@ + crate::numbers::decimal_of(
                port as nat,
            ) + "\r\nAccept: */*\r\nConnection: close\r\n"@);
            let authorization = "Authorization: Bearer "@ + t + "\r\n"@;
            let content = "Content-Type: "@ + ty + "\r\n"@ + "Content-Length: "@
                + crate::numbers::decimal_of(vstd::utf8::encode_utf8(b).len()) + "\r\n"@;
            &&& request_of(port, line, None, None, None) == host + "\r\n"@
            &&& request_of(port, line, Some(t), None, None) == host + authorization + "\r\n"@
            &&& request_of(port, line, None, Some(b), Some(ty)) == host + content + "\r\n"@ + b
            &&& request_of(port, line, Some(t), Some(b), Some(ty)) == host + authorization + content
                + "\r\n"@ + b
        }),
{
    let base = "Host: "@ + "127.0.0.1"@ + ":"@ + crate::numbers::decimal_of(port as nat)
        + "\r\nAccept: */*\r\nConnection: close\r\n"@;
    let host = line + "\r\n"@ + base;
    let authorization = "Authorization: Bearer "@ + t + "\r\n"@;
    let n = crate::numbers::decimal_of(vstd::utf8::encode_utf8(b).len());
    let content = "Content-Type: "@ + ty + "\r\n"@ + "Content-Length: "@ + n + "\r\n"@;
    let with_token = base + "Authorization: Bearer "@ + t + "\r\n"@;
    assert(with_token =~= base + authorization);
    assert(line + "\r\n"@ + with_token + "\r\n"@ =~= host + authorization + "\r\n"@);
    let plain = base + "Content-Type: "@ + ty + "\r\n"@ + "Content-Length: "@ + n + "\r\n"@;
    assert(plain =~= base + content);
    assert(line + "\r\n"@ + plain + "\r\n"@ + b =~= host + content + "\r\n"@ + b);
    let both = with_token + "Content-Type: "@ + ty + "\r\n"@ + "Content-Length: "@ + n + "\r\n"@;
    assert(both =~= base + authorization + content);
    assert(line + "\r\n"@ + both + "\r\n"@ + b =~= host + authorization + content + "\r\n"@ + b);
}

/// The statuses of success are those from 200 to 299.
pub proof fn success_is_two_hundred(status: u16)
    ensures
        is_ok_status(status) <==> status / 100 == 2,
{
}

/// A `Retry-After` header, in whatever case, names the seconds that it holds; other headers, and a
/// value that is no number, name none.
pub proof fn retry_headers_are_read(name: Seq<char>, value: Seq<char>, n: nat)
    requires
        !name.contains(':'),
    ensures
        ({
            let line = name + seq![':'] + value;
            let named = crate::text::ascii_lower(crate::text::trim_of(name)) == "retry-after"@;
            let number = crate::numbers::parse_unsigned(
                crate::text::trim_of(value),
                10,
                u64::MAX as nat,
            );
            &&& named && number == Some(n) ==> retry_seconds(line) == Some(n as u64)
            &&& named && number is None ==> retry_seconds(line) is None
            &&& !named ==> retry_seconds(line) is None
        }),
        retry_seconds(name) is None,
{
    crate::text::lemma_split(name, ':', value);
}

/// The first header that names a wait counts; the status line does not.
pub proof fn first_retry_header_counts(head: Seq<Seq<char>>, from: int, i: int)
    requires
        0 <= from <= i <= head.len(),
        i < head.len() ==> retry_seconds(head[i]) is Some,
        forall|j: int| from <= j < i ==> retry_seconds(#[trigger] head[j]) is None,
    ensures
        i < head.len() ==> retry_after_from(head, from) == retry_seconds(head[i]),
        i == head.len() ==> retry_after_from(head, from) is None,
    decreases i - from,
{
    if from < i {
        assert(retry_seconds(head[from]) is None);
        first_retry_header_counts(head, from + 1, i);
    }
}

/// Waits are looked for behind the status line.
pub proof fn waits_follow_the_status_line(head: Seq<char>)
    ensures
        retry_after_of(head) == retry_after_from(crate::text::lines_of(head), 1),
{
}

/// A status line has the version, the status and the reason, without white space around it; the
/// reason may be left out. A status that is no number of sixteen bits is none.
pub proof fn status_lines_are_read(version: Seq<char>, code: Seq<char>, reason: Seq<char>, n: nat)
    requires
        !version.contains(' '),
        !code.contains(' '),
    ensures
        ({
            let bare = version + seq![' '] + code;
            let full = version + seq![' '] + (code + seq![' '] + reason);
            let number = crate::numbers::parse_unsigned(code, 10, u16::MAX as nat);
            &&& number == Some(n) ==> status_of(full) == Some(
                (n as u16, crate::text::trim_of(reason)),
            )
            &&& number == Some(n) ==> (status_of(bare) matches Some((status, said)) && status
                == n as u16 && said == Seq::<char>::empty())
            &&& number is None ==> status_of(full) is None && status_of(bare) is None
        }),
        status_of(version) is None,
{
    crate::text::lemma_split(version, ' ', code);
    crate::text::lemma_split(version, ' ', code + seq![' '] + reason);
    crate::text::lemma_split(code, ' ', reason);
    crate::text::trimming_keeps_the_text(seq![], seq![], seq![]);
    assert(Seq::<char>::empty() + Seq::<char>::empty() + Seq::<char>::empty()
        =~= Seq::<char>::empty());
}

/// A response is its status, reason, wait and body: the head goes up to the first empty line, and
/// the body is what follows it, chunked where the head says so, in whatever case.
pub proof fn responses_are_read(
    raw: Seq<u8>,
    head: Seq<u8>,
    mark: Seq<u8>,
    body: Seq<u8>,
    status: u16,
    reason: Seq<char>,
)
    requires
        mark == seq![13u8, 10u8, 13u8, 10u8],
        raw == head + mark + body,
        forall|i: int|
            0 <= i < head.len() ==> !(#[trigger] crate::text::occurs_at(raw, mark, i)),
        vstd::utf8::valid_utf8(head),
        status_of(first_line_of(vstd::utf8::decode_utf8(head))) == Some((status, reason)),
    ensures
        ({
            let response = response_of(raw);
            let text = vstd::utf8::decode_utf8(head);
            let chunked = crate::text::contains_seq(
                crate::text::ascii_lower(text),
                "transfer-encoding: chunked"@,
            );
            let retry_after = retry_after_of(text);
            &&& !chunked ==> response == Ok::<ResponseView, Seq<char>>(
                ResponseView { status, reason, body: utf8_lossy(body), retry_after },
            )
            &&& chunked ==> match chunks_from(body, 0) {
                Ok(bytes) => response == Ok::<ResponseView, Seq<char>>(
                    ResponseView { status, reason, body: utf8_lossy(bytes), retry_after },
                ),
                Err(e) => response == Err::<ResponseView, Seq<char>>(e),
            }
        }),
{
    let n = head.len() as int;
    crate::text::lemma_find_seq_step(raw, mark, 0, n);
    assert(raw.subrange(n, n + 4) =~= mark);
    assert(crate::text::occurs_at(raw, mark, n));
    assert(raw.take(n) =~= head);
    assert(raw.skip(n + 4) =~= body);
}

/// Bytes without an empty line are no response, and neither are those whose first line has no
/// status: the error says which line it was.
pub proof fn malformed_responses_are_refused(raw: Seq<u8>, head: Seq<u8>, body: Seq<u8>)
    ensures
        !crate::text::contains_seq(raw, seq![13u8, 10u8, 13u8, 10u8]) ==> response_of(raw) == Err::<
            ResponseView,
            Seq<char>,
        >("malformed HTTP response (no header terminator)"@),
        crate::text::find_seq(raw, seq![13u8, 10u8, 13u8, 10u8], 0) == Some(head.len() as int)
            && raw == head + seq![13u8, 10u8, 13u8, 10u8] + body && vstd::utf8::valid_utf8(head)
            && status_of(first_line_of(vstd::utf8::decode_utf8(head))) is None ==> response_of(raw)
            == Err::<ResponseView, Seq<char>>(
            "invalid HTTP status line: "@ + first_line_of(vstd::utf8::decode_utf8(head)),
        ),
        crate::text::find_seq(raw, seq![13u8, 10u8, 13u8, 10u8], 0) == Some(head.len() as int)
            && raw == head + seq![13u8, 10u8, 13u8, 10u8] + body && !vstd::utf8::valid_utf8(head)
            ==> response_of(raw) == Err::<ResponseView, Seq<char>>("invalid HTTP status line: "@),
{
    let none = Seq::<char>::empty();
    assert(crate::text::lines_of(none).len() == 0);
    assert("invalid HTTP status line: "@ + none =~= "invalid HTTP status line: "@);
    crate::text::lemma_seek(none, ' ', 0);
    assert(status_of(none) is None);
    crate::text::lemma_contains_find(raw, seq![13u8, 10u8, 13u8, 10u8]);
    if raw == head + seq![13u8, 10u8, 13u8, 10u8] + body {
        assert(raw.take(head.len() as int) =~= head);
    }
}

/// The first line of a text is its first, and empty where it has none.
pub proof fn first_lines_come_first(line: Seq<char>, rest: Seq<char>)
    requires
        !line.contains('\n'),
    ensures
        first_line_of(line + seq!['\r', '\n'] + rest) == line,
        line.len() > 0 ==> first_line_of(line) == line,
        first_line_of(Seq::<char>::empty()) == Seq::<char>::empty(),
{
    crate::text::line_feeds_end_lines(line, rest);
}

/// Chunked data that breaks off is refused: without the end of a size, with a size that is no
/// hexadecimal number, or with fewer bytes than its size says.
pub proof fn broken_chunks_are_refused(line: Seq<u8>, rest: Seq<u8>, size: nat)
    requires
        !crate::text::contains_seq(line, seq![13u8, 10u8]),
    ensures
        line.len() > 0 ==> chunks_from(line, 0) == Err::<Seq<u8>, Seq<char>>(
            "malformed chunked body"@,
        ),
        line.len() == 0 ==> chunks_from(line, 0) == Ok::<Seq<u8>, Seq<char>>(seq![]),
        ({
            let data = line + seq![13u8, 10u8] + rest;
            let text = crate::text::trim_of(
                crate::text::before_of(vstd::utf8::decode_utf8(line), ';'),
            );
            let number = crate::numbers::parse_unsigned(text, 16, usize::MAX as nat);
            &&& !vstd::utf8::valid_utf8(line) ==> chunks_from(data, 0) == Err::<
                Seq<u8>,
                Seq<char>,
            >("chunk size is not utf-8"@)
            &&& vstd::utf8::valid_utf8(line) && number is None ==> chunks_from(data, 0) == Err::<
                Seq<u8>,
                Seq<char>,
            >("invalid chunk size: "@ + text)
            &&& vstd::utf8::valid_utf8(line) && number == Some(size) && size > rest.len()
                ==> chunks_from(data, 0) == Err::<Seq<u8>, Seq<char>>("truncated chunk"@)
        }),
{
    crate::text::lemma_contains_find(line, crlf());
    lemma_line_found(line, rest);
    assert((line + crlf() + rest).subrange(0, line.len() as int) =~= line);
}

/// The bytes of a chunk stand in front of those of the chunks behind it, and a chunk that cannot be
/// read fails the whole body.
pub proof fn later_chunks_follow(first: Seq<u8>, rest: Seq<u8>, e: Seq<char>)
    ensures
        behind(first, Ok(rest)) == Ok::<Seq<u8>, Seq<char>>(first + rest),
        behind(first, Err(e)) == Err::<Seq<u8>, Seq<char>>(e),
{
}

/// The size of a chunk is the hexadecimal number in front of its extensions.
pub proof fn chunk_sizes_are_read(line: Seq<u8>)
    ensures
        vstd::utf8::valid_utf8(line) ==> line_size(line) == crate::numbers::parse_unsigned(
            crate::text::trim_of(crate::text::before_of(vstd::utf8::decode_utf8(line), ';')),
            16,
            usize::MAX as nat,
        ),
        !vstd::utf8::valid_utf8(line) ==> line_size(line) is None,
{
}

/// A server answers where its reply is a success, or where it asks for the token that was not
/// sent; not where it refuses the token, fails, or says nothing.
pub proof fn servers_that_reply_answer(r: ResponseView)
    ensures
        200 <= r.status <= 299 ==> answers(Some(r), true) && answers(Some(r), false),
        r.status == 401 ==> answers(Some(r), false) && !answers(Some(r), true),
        r.status != 401 && !(200 <= r.status <= 299) ==> !answers(Some(r), true) && !answers(
            Some(r),
            false,
        ),
        !answers(None, true) && !answers(None, false),
{
}

/// What fails fails with the message that it has, and what does not is handed on.
pub proof fn messages_are_failures(r: ResponseView, m: Seq<char>)
    ensures
        failing::<ResponseView>(Err(m)) == Err::<ResponseView, FailureView>(FailureView::Message(m)),
        failing::<ResponseView>(Ok(r)) == Ok::<ResponseView, FailureView>(r),
        failing::<Seq<char>>(Err(m)) == Err::<Seq<char>, FailureView>(FailureView::Message(m)),
        failing::<Seq<char>>(Ok(m)) == Ok::<Seq<char>, FailureView>(m),
{
}

/// The headers name whatever host they are for, the token, the type and the length, each on a line
/// of its own and only where it is given.
pub proof fn headers_are_written(host: Seq<char>, port: u16, t: Seq<char>, ty: Seq<char>, n: usize)
    ensures
        ({
            let base = "Host: "@ + host + ":"@ + crate::numbers::decimal_of(port as nat)
                + "\r\nAccept: */*\r\nConnection: close\r\n"@;
            let authorization = "Authorization: Bearer "@ + t + "\r\n"@;
            let kind = "Content-Type: "@ + ty + "\r\n"@;
            let length = "Content-Length: "@ + crate::numbers::decimal_of(n as nat) + "\r\n"@;
            &&& headers_of(host, port, None, None, None) == base
            &&& headers_of(host, port, Some(t), None, None) == base + authorization
            &&& headers_of(host, port, None, Some(ty), None) == base + kind
            &&& headers_of(host, port, None, None, Some(n)) == base + length
            &&& headers_of(host, port, Some(t), Some(ty), Some(n)) == base + authorization + kind
                + length
        }),
{
    let base = "Host: "@ + host + ":"@ + crate::numbers::decimal_of(port as nat)
        + "\r\nAccept: */*\r\nConnection: close\r\n"@;
    let authorization = "Authorization: Bearer "@ + t + "\r\n"@;
    let kind = "Content-Type: "@ + ty + "\r\n"@;
    let length = "Content-Length: "@ + crate::numbers::decimal_of(n as nat) + "\r\n"@;
    assert(headers_of(host, port, Some(t), None, None) =~= base + authorization);
    assert(headers_of(host, port, None, Some(ty), None) =~= base + kind);
    assert(headers_of(host, port, None, None, Some(n)) =~= base + length);
    assert(headers_of(host, port, Some(t), Some(ty), Some(n)) =~= base + authorization + kind
        + length);
}

/// The view of a response has all that the response has.
pub proof fn responses_are_viewed_whole(r: HttpResponse, s: String, e: Failure)
    ensures
        r@.status == r.status,
        r@.reason == r.reason@,
        r@.body == r.body@,
        r@.retry_after == r.retry_after,
        response_outcome(Ok(r)) == Ok::<ResponseView, FailureView>(r@),
        response_outcome(Err(e)) == Err::<ResponseView, FailureView>(e@),
        text_outcome(Ok(s)) == Ok::<Seq<char>, FailureView>(s@),
        text_outcome(Err(e)) == Err::<Seq<char>, FailureView>(e@),
{
}

/// The last chunk may lack what ends it.
pub proof fn last_chunk_may_end_the_data(line: Seq<u8>, data: Seq<u8>)
    requires
        !crate::text::contains_seq(line, crlf()),
        line_size(line) == Some(data.len()),
        data.len() > 0,
    ensures
        chunks_from(line + crlf() + data, 0) == Ok::<Seq<u8>, Seq<char>>(data),
{
    let all = line + crlf() + data;
    let n = line.len() as int;
    lemma_line_found(line, data);
    assert(all.subrange(0, n) =~= line);
    assert(all.subrange(n + 2, n + 2 + data.len()) =~= data);
    assert(chunks_from(all, n + 2 + data.len() + 2) == Ok::<Seq<u8>, Seq<char>>(seq![]));
    assert(data + Seq::<u8>::empty() =~= data);
}

} // verus!
