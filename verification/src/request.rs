//! Requests, and how the bytes of one read are decoded into a request.
use crate::headers::{to_map, RequestHeaders};
use crate::text::{
    chars_of, lemma_split_nonempty, push_chars, rows, split, split_on, string_of,
};
use crate::wire::{Method, Version};
use itertools::Itertools;
use vstd::prelude::*;
use vstd::slice::slice_subrange;
use vstd::utf8::{decode_utf8, valid_utf8};

verus! {

/// Why a buffer is no request.
#[derive(Debug, Clone, Copy, PartialEq, Eq, Structural)]
pub enum DecodeError {
    /// The start line has fewer than three tokens, or its path is empty or
    /// does not begin with `/`.
    MalformedStartLine,
    /// The first token of the start line names no known method.
    UnsupportedMethod,
    /// The third token of the start line names no known version.
    UnsupportedVersion,
}

/// A decoded request.
#[derive(Debug, PartialEq, Eq)]
pub struct Request {
    pub method: Method,
    /// The path as it stood in the start line, not percent-decoded.
    pub path: String,
    pub headers: RequestHeaders,
    pub version: Version,
    /// The body, where an empty line that was not the last line came
    /// before it.
    pub body: Option<String>,
}

/// What a request holds, as mathematical values.
pub ghost struct RequestView {
    pub method: Method,
    pub path: Seq<char>,
    pub headers: Map<Seq<char>, Seq<char>>,
    pub version: Version,
    pub body: Option<Seq<char>>,
}

impl View for Request {
    type V = RequestView;

    open spec fn view(&self) -> RequestView {
        RequestView {
            method: self.method,
            path: self.path@,
            headers: self.headers@,
            version: self.version,
            body: match self.body {
                Some(b) => Some(b@),
                None => None,
            },
        }
    }
}

/// A piece of a request's text.
#[derive(Debug, PartialEq, Eq)]
pub enum RequestToken {
    /// The first line.
    StartLine(String),
    /// A header line.
    Header(String),
    /// The body.
    Body(String),
    /// A line of no known kind.
    Unknown(String),
}

/// What ends a line.
pub open spec fn crlf() -> Seq<char> {
    seq!['\r', '\n']
}

/// What parts the tokens of the start line.
pub open spec fn space() -> Seq<char> {
    seq![' ']
}

/// What parts a header's name from its value.
pub open spec fn colon_space() -> Seq<char> {
    seq![':', ' ']
}

/// A path is not empty and begins with `/`.
pub open spec fn valid_path(path: Seq<char>) -> bool {
    path.len() > 0 && path[0] == '/'
}

/// The name and the value of a header line: the two parts of a line that
/// `": "` splits into exactly two.
pub open spec fn header_pair(line: Seq<char>) -> Option<(Seq<char>, Seq<char>)> {
    let parts = split(line, colon_space());
    if parts.len() == 2 {
        Some((parts[0], parts[1]))
    } else {
        None
    }
}

/// The headers at the front of the lines: one for each line, up to the
/// first line that is no header line.
pub open spec fn header_block(lines: Seq<Seq<char>>) -> Seq<(Seq<char>, Seq<char>)>
    decreases lines.len(),
{
    if lines.len() == 0 {
        seq![]
    } else {
        match header_pair(lines[0]) {
            Some(pair) => seq![pair] + header_block(lines.drop_first()),
            None => seq![],
        }
    }
}

/// The body that the lines give: where the first empty line is not the last
/// line, all the lines behind it, joined with nothing between them.
pub open spec fn body_of(lines: Seq<Seq<char>>) -> Option<Seq<char>> {
    match lines.index_of_first(Seq::<char>::empty()) {
        Some(i) => if i != lines.len() - 1 {
            Some(lines.skip(i + 1).flatten())
        } else {
            None
        },
        None => None,
    }
}

/// The request that a text holds, or why it holds none.
///
/// The text is split into lines on CRLF and the first line into tokens on
/// single spaces. The first token is the method, the second the path, the
/// third the version; further tokens are passed over.
pub open spec fn decode(text: Seq<char>) -> Result<RequestView, DecodeError> {
    let lines = split(text, crlf());
    let tokens = split(lines[0], space());
    if Method::from_token(tokens[0]) is None {
        Err(DecodeError::UnsupportedMethod)
    } else if tokens.len() < 3 || !valid_path(tokens[1]) {
        Err(DecodeError::MalformedStartLine)
    } else if Version::from_token(tokens[2]) is None {
        Err(DecodeError::UnsupportedVersion)
    } else {
        Ok(
            RequestView {
                method: Method::from_token(tokens[0])->0,
                path: tokens[1],
                headers: to_map(header_block(lines.drop_first())),
                version: Version::from_token(tokens[2])->0,
                body: body_of(lines),
            },
        )
    }
}

/// The text that `String::from_utf8_lossy` makes of a sequence of bytes.
pub uninterp spec fn utf8_lossy(bytes: Seq<u8>) -> Seq<char>;

/// `String::from_utf8_lossy`, made into an owned string: the bytes read as
/// UTF-8, with U+FFFD in place of what is not valid. The text depends on the
/// bytes alone, and bytes that are valid UTF-8 give the text they encode.
#[verifier::external_body]
fn lossy_text(bytes: &[u8]) -> (text: String)
    ensures
        text@ == utf8_lossy(bytes@),
        valid_utf8(bytes@) ==> text@ == decode_utf8(bytes@),
{
    String::from_utf8_lossy(bytes).into_owned()
}

/// Whether a line holds no character.
pub fn is_blank(line: &Vec<char>) -> (b: bool)
    ensures
        b == (line@.len() == 0),
{
    line.len() == 0
}

/// `Itertools::find_position` over the lines, with `is_blank` as the test:
/// the index of the first line that passes it, or nothing where no line
/// does.
#[verifier::external_body]
fn first_blank(lines: &Vec<Vec<char>>) -> (r: Option<usize>)
    ensures
        match r {
            Some(i) => {
                &&& i < lines@.len()
                &&& lines@[i as int]@.len() == 0
                &&& forall|j: int| 0 <= j < i ==> lines@[j]@.len() != 0
            },
            None => forall|j: int| 0 <= j < lines@.len() ==> lines@[j]@.len() != 0,
        },
{
    lines.iter().find_position(|line| is_blank(line)).map(|found| found.0)
}

/// Reads a header line.
pub fn read_header(line: &[char]) -> (r: Option<(String, String)>)
    ensures
        match r {
            Some(pair) => header_pair(line@) == Some((pair.0@, pair.1@)),
            None => header_pair(line@) is None,
        },
{
    let sep: [char; 2] = [':', ' '];
    let parts = split_on(line, sep.as_slice());
    if parts.len() == 2 {
        Some((string_of(parts[0].as_slice()), string_of(parts[1].as_slice())))
    } else {
        None
    }
}

/// Reads the headers at the front of the lines.
pub fn read_headers(lines: &[Vec<char>]) -> (headers: RequestHeaders)
    ensures
        headers@ == to_map(header_block(rows(lines@))),
{
    let ghost all = rows(lines@);
    let ghost mut done: Seq<(Seq<char>, Seq<char>)> = seq![];
    let mut headers = RequestHeaders::new();
    let mut i: usize = 0;
    assert(all.skip(0) =~= all);
    while i < lines.len()
        invariant_except_break
            header_block(all) == done + header_block(all.skip(i as int)),
        invariant
            i <= lines@.len(),
            all == rows(lines@),
            headers@ == to_map(done),
        ensures
            header_block(all) == done,
        decreases lines@.len() - i,
    {
        let ghost rest = all.skip(i as int);
        match read_header(lines[i].as_slice()) {
            None => {
                break ;
            },
            Some(pair) => {
                proof {
                    let p = (pair.0@, pair.1@);
                    assert(rest.drop_first() =~= all.skip(i + 1));
                    assert(done.push(p).drop_last() =~= done);
                    done = done.push(p);
                }
                headers.insert(pair.0, pair.1);
                i += 1;
            },
        }
    }
    headers
}

/// Reads the body.
pub fn read_body(lines: &Vec<Vec<char>>) -> (body: Option<String>)
    ensures
        match body {
            Some(b) => body_of(rows(lines@)) == Some(b@),
            None => body_of(rows(lines@)) is None,
        },
{
    let ghost all = rows(lines@);
    let found = first_blank(lines);
    proof {
        all.index_of_first_ensures(Seq::<char>::empty());
        if let Some(i) = found {
            assert(all[i as int] =~= Seq::<char>::empty());
        }
    }
    match found {
        Some(i) => {
            if i != lines.len() - 1 {
                let mut body = String::new();
                let mut j: usize = i + 1;
                while j < lines.len()
                    invariant
                        i + 1 <= j <= lines@.len(),
                        all == rows(lines@),
                        body@ == all.subrange(i + 1, j as int).flatten(),
                    decreases lines@.len() - j,
                {
                    push_chars(&mut body, lines[j].as_slice());
                    proof {
                        all.subrange(i + 1, j as int).lemma_flatten_push(all[j as int]);
                        assert(all.subrange(i + 1, j + 1) =~= all.subrange(i + 1, j as int).push(
                            all[j as int],
                        ));
                    }
                    j += 1;
                }
                Some(body)
            } else {
                None
            }
        },
        None => None,
    }
}

/// Whether the characters are a path.
pub fn is_path(token: &[char]) -> (b: bool)
    ensures
        b == valid_path(token@),
{
    token.len() > 0 && token[0] == '/'
}

/// The pieces of a text: as yet the start line alone, which is all of the
/// text before the first CRLF.
pub fn scan_text(text: &str) -> (tokens: Vec<RequestToken>)
    ensures
        tokens@.len() == 1,
        tokens@[0] matches RequestToken::StartLine(line) && line@ == split(text@, crlf())[0],
{
    let chars = chars_of(text);
    let end: [char; 2] = ['\r', '\n'];
    let lines = split_on(chars.as_slice(), end.as_slice());
    proof {
        lemma_split_nonempty(text@, crlf());
    }
    let mut tokens: Vec<RequestToken> = Vec::new();
    tokens.push(RequestToken::StartLine(string_of(lines[0].as_slice())));
    tokens
}

/// The pieces of the text that the bytes hold, read as UTF-8 with U+FFFD in
/// place of what is not valid.
pub fn parse_request(bytes: &[u8]) -> (tokens: Vec<RequestToken>)
    ensures
        tokens@.len() == 1,
        tokens@[0] matches RequestToken::StartLine(line) && line@ == split(
            utf8_lossy(bytes@),
            crlf(),
        )[0],
        valid_utf8(bytes@) ==> (tokens@[0] matches RequestToken::StartLine(line) && line@ == split(
            decode_utf8(bytes@),
            crlf(),
        )[0]),
{
    let text = lossy_text(bytes);
    scan_text(text.as_str())
}

impl Request {
    /// A request is well formed when its path is one.
    pub open spec fn wf(&self) -> bool {
        valid_path(self.path@)
    }

    /// Decodes a text.
    pub fn from_text(text: &str) -> (r: Result<Request, DecodeError>)
        ensures
            match r {
                Ok(request) => decode(text@) == Ok::<RequestView, DecodeError>(request@)
                    && request.wf(),
                Err(e) => decode(text@) == Err::<RequestView, DecodeError>(e),
            },
    {
        let chars = chars_of(text);
        let end: [char; 2] = ['\r', '\n'];
        let lines = split_on(chars.as_slice(), end.as_slice());
        proof {
            lemma_split_nonempty(text@, crlf());
        }
        let gap: [char; 1] = [' '];
        assert(gap@ =~= space());
        let tokens = split_on(lines[0].as_slice(), gap.as_slice());
        proof {
            lemma_split_nonempty(lines@[0]@, space());
        }
        let method = match Method::parse(tokens[0].as_slice()) {
            Some(m) => m,
            None => {
                return Err(DecodeError::UnsupportedMethod);
            },
        };
        if tokens.len() < 3 || !is_path(tokens[1].as_slice()) {
            return Err(DecodeError::MalformedStartLine);
        }
        let version = match Version::parse(tokens[2].as_slice()) {
            Some(v) => v,
            None => {
                return Err(DecodeError::UnsupportedVersion);
            },
        };
        let headers = read_headers(slice_subrange(lines.as_slice(), 1, lines.len()));
        assert(rows(lines@.subrange(1, lines@.len() as int)) =~= rows(lines@).drop_first());
        let body = read_body(&lines);
        Ok(Request { method, path: string_of(tokens[1].as_slice()), headers, version, body })
    }

    /// Decodes the bytes of one read. They are read as UTF-8, with U+FFFD in
    /// place of what is not valid, so that only the shape of the text can
    /// make the decoding fail.
    pub fn try_from(value: &[u8]) -> (r: Result<Request, DecodeError>)
        ensures
            match r {
                Ok(request) => decode(utf8_lossy(value@)) == Ok::<RequestView, DecodeError>(
                    request@,
                ) && request.wf(),
                Err(e) => decode(utf8_lossy(value@)) == Err::<RequestView, DecodeError>(e),
            },
            valid_utf8(value@) ==> match r {
                Ok(request) => decode(decode_utf8(value@)) == Ok::<RequestView, DecodeError>(
                    request@,
                ),
                Err(e) => decode(decode_utf8(value@)) == Err::<RequestView, DecodeError>(e),
            },
    {
        let text = lossy_text(value);
        Request::from_text(text.as_str())
    }
}

} // verus!
