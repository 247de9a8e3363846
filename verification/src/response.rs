//! Responses, and how a response is encoded as wire bytes.
use crate::headers::ResponseHeaders;
use crate::request::{colon_space, crlf, space};
use crate::text::byte_len;
use crate::wire::{ContentType, HeaderKey, HeaderValue, StatusCode, Version};
use vstd::prelude::*;
use vstd::utf8::encode_utf8;

verus! {

/// A response, as it is before it is sent.
#[derive(Debug)]
pub struct Response {
    pub version: Version,
    pub status_code: StatusCode,
    pub headers: ResponseHeaders,
    pub body: Option<String>,
}

/// What a response holds, as mathematical values.
pub ghost struct ResponseView {
    pub version: Version,
    pub status_code: StatusCode,
    pub headers: Map<HeaderKey, HeaderValue>,
    pub body: Option<Seq<char>>,
}

impl View for Response {
    type V = ResponseView;

    open spec fn view(&self) -> ResponseView {
        ResponseView {
            version: self.version,
            status_code: self.status_code,
            headers: self.headers@,
            body: match self.body {
                Some(b) => Some(b@),
                None => None,
            },
        }
    }
}

/// The response with the given status, no header and no body.
pub open spec fn bare(status_code: StatusCode) -> ResponseView {
    ResponseView { version: Version::Http1_1, status_code, headers: Map::empty(), body: None }
}

/// The headers that go with a body: its media type, and its length in
/// bytes, which is the length of its UTF-8 encoding.
pub open spec fn body_headers(content_type: ContentType, body: Seq<char>) -> Map<
    HeaderKey,
    HeaderValue,
> {
    map![
        HeaderKey::ContentType => HeaderValue::ContentType(content_type),
        HeaderKey::ContentLength => HeaderValue::ContentLength(encode_utf8(body).len() as usize),
    ]
}

/// The response `200 OK` that carries a body.
pub open spec fn carrying(content_type: ContentType, body: Seq<char>) -> ResponseView {
    ResponseView {
        version: Version::Http1_1,
        status_code: StatusCode::Okay,
        headers: body_headers(content_type, body),
        body: Some(body),
    }
}

/// The length of a response's body in bytes; nothing where it has none.
pub open spec fn body_len(r: ResponseView) -> nat {
    match r.body {
        Some(b) => encode_utf8(b).len(),
        None => 0,
    }
}

/// The headers agree with the body: a `Content-Length` gives the length of
/// the body in bytes, and `Content-Type` and `Content-Length` stand together
/// or not at all.
pub open spec fn consistent(r: ResponseView) -> bool {
    &&& r.headers.contains_key(HeaderKey::ContentType) <==> r.headers.contains_key(
        HeaderKey::ContentLength,
    )
    &&& r.headers.contains_key(HeaderKey::ContentType)
        ==> r.headers[HeaderKey::ContentType] is ContentType
    &&& r.headers.contains_key(HeaderKey::ContentLength)
        ==> r.headers[HeaderKey::ContentLength] == HeaderValue::ContentLength(body_len(r) as usize)
        && body_len(r) <= usize::MAX
}

/// The first line of a response.
pub open spec fn status_line(r: ResponseView) -> Seq<char> {
    r.version.token() + space() + r.status_code.token()
}

/// The line of a header.
pub open spec fn header_line(key: HeaderKey, value: HeaderValue) -> Seq<char> {
    key.token() + colon_space() + value.token()
}

/// The line of the header of one kind, where the response has it.
pub open spec fn header_lines_of(headers: Map<HeaderKey, HeaderValue>, key: HeaderKey) -> Seq<
    Seq<char>,
> {
    if headers.contains_key(key) {
        seq![header_line(key, headers[key])]
    } else {
        seq![]
    }
}

/// The header lines of a response, in the fixed order of the header kinds:
/// `Content-Type` before `Content-Length`.
pub open spec fn header_lines(headers: Map<HeaderKey, HeaderValue>) -> Seq<Seq<char>> {
    header_lines_of(headers, HeaderKey::ContentType) + header_lines_of(
        headers,
        HeaderKey::ContentLength,
    )
}

/// The line that carries the body: one line feed, then the body.
pub open spec fn body_lines(body: Option<Seq<char>>) -> Seq<Seq<char>> {
    match body {
        Some(b) => seq![seq!['\n'] + b],
        None => seq![],
    }
}

/// The lines of a response.
pub open spec fn lines_of(r: ResponseView) -> Seq<Seq<char>> {
    seq![status_line(r)] + header_lines(r.headers) + body_lines(r.body)
}

/// The lines with `sep` between each two of them.
pub open spec fn join(lines: Seq<Seq<char>>, sep: Seq<char>) -> Seq<char>
    decreases lines.len(),
{
    if lines.len() == 0 {
        seq![]
    } else if lines.len() == 1 {
        lines[0]
    } else {
        join(lines.drop_last(), sep) + sep + lines.last()
    }
}

/// A response on the wire: its lines joined with CRLF, then CRLF twice.
pub open spec fn wire(r: ResponseView) -> Seq<char> {
    join(lines_of(r), crlf()) + crlf() + crlf()
}

/// Appends CRLF to `out`.
fn push_crlf(out: &mut String)
    ensures
        final(out)@ == old(out)@ + crlf(),
{
    out.push('\r');
    out.push('\n');
}

/// Appends the line of the header of one kind to `out`, behind a CRLF, where
/// the headers have one of that kind.
fn write_header(out: &mut String, headers: &ResponseHeaders, key: HeaderKey, Ghost(lines): Ghost<
    Seq<Seq<char>>,
>)
    requires
        lines.len() > 0,
        old(out)@ == join(lines, crlf()),
    ensures
        final(out)@ == join(lines + header_lines_of(headers@, key), crlf()),
{
    match headers.get(key) {
        Some(value) => {
            push_crlf(out);
            out.append(key.as_str());
            out.push(':');
            out.push(' ');
            value.write_to(out);
            proof {
                let line = header_line(key, value);
                assert((lines + seq![line]).drop_last() =~= lines);
            }
        },
        None => {
        },
    }
}

impl Response {
    /// A response is well formed when its headers agree with its body.
    pub open spec fn wf(&self) -> bool {
        consistent(self@)
    }

    /// The response `200 OK` without headers and without a body.
    pub fn new() -> (r: Response)
        ensures
            r@ == bare(StatusCode::Okay),
            r.wf(),
    {
        Response {
            version: Version::Http1_1,
            status_code: StatusCode::Okay,
            headers: ResponseHeaders::new(),
            body: None,
        }
    }

    /// The response with the given status, without headers and without a
    /// body.
    pub fn with_status(status_code: StatusCode) -> (r: Response)
        ensures
            r@ == bare(status_code),
            r.wf(),
    {
        let mut response = Response::new();
        response.status_code = status_code;
        response
    }

    /// The response `200 OK` that carries `body`. Its `Content-Length` is
    /// the length of the body in bytes, not in characters.
    pub fn with_body(content_type: ContentType, body: String) -> (r: Response)
        ensures
            r@ == carrying(content_type, body@),
            r@.headers[HeaderKey::ContentLength] == HeaderValue::ContentLength(
                encode_utf8(body@).len() as usize,
            ),
            encode_utf8(body@).len() <= usize::MAX,
            r.wf(),
    {
        let mut response = Response::new();
        let mut headers = ResponseHeaders::new();
        headers.insert(HeaderKey::ContentType, HeaderValue::ContentType(content_type));
        headers.insert(
            HeaderKey::ContentLength,
            HeaderValue::ContentLength(byte_len(body.as_str())),
        );
        response.headers = headers;
        response.body = Some(body);
        response
    }

    /// The response as text, as it goes on the wire.
    pub fn to_string(&self) -> (s: String)
        ensures
            s@ == wire(self@),
    {
        let mut out = String::new();
        out.append(self.version.as_str());
        out.push(' ');
        out.append(self.status_code.as_str());
        let ghost first = seq![status_line(self@)];
        assert(out@ =~= join(first, crlf()));
        write_header(&mut out, &self.headers, HeaderKey::ContentType, Ghost(first));
        let ghost second = first + header_lines_of(self@.headers, HeaderKey::ContentType);
        write_header(&mut out, &self.headers, HeaderKey::ContentLength, Ghost(second));
        let ghost third = second + header_lines_of(self@.headers, HeaderKey::ContentLength);
        match &self.body {
            Some(body) => {
                push_crlf(&mut out);
                out.push('\n');
                out.append(body.as_str());
                proof {
                    let line = seq!['\n'] + body@;
                    assert((third + seq![line]).drop_last() =~= third);
                    assert(lines_of(self@) =~= third + seq![line]);
                }
            },
            None => {
                assert(lines_of(self@) =~= third);
            },
        }
        push_crlf(&mut out);
        push_crlf(&mut out);
        out
    }

    /// The response as bytes, as it goes on the wire: the UTF-8 encoding of
    /// its text.
    pub fn encode(&self) -> (bytes: Vec<u8>)
        ensures
            bytes@ == encode_utf8(wire(self@)),
    {
        self.to_string().as_str().as_bytes_vec()
    }
}

impl Default for Response {
    fn default() -> (r: Response)
        ensures
            r@ == bare(StatusCode::Okay),
    {
        Response::new()
    }
}

} // verus!
