//! What holds of the library as a whole.
use crate::config::Config;
use crate::request::{
    colon_space, crlf, decode, space, valid_path, DecodeError, Request, RequestView,
};
use crate::response::{carrying, consistent, header_lines, wire};
use crate::router::{dispatch, file_name, file_path, reply, Action, ActionView};
use crate::text::{
    contains, decimal, find, lemma_contains_find, lemma_find_none, lemma_find_some, occurs_at,
    split, text_of,
};
use crate::wire::{ContentType, HeaderKey, HeaderValue, Method, Version};
use vstd::prelude::*;
use vstd::utf8::{
    decode_utf8, encode_utf8, encode_utf8_decode_utf8, encode_utf8_valid_utf8, valid_utf8,
};

verus! {

/// The token of a method names that method and no other: a method that is
/// written and read again is the same, and a token that is read and written
/// again is the same.
pub proof fn lemma_method_round_trip(m: Method, token: Seq<char>)
    ensures
        Method::from_token(m.token()) == Some(m),
        Method::from_token(token) == Some(m) ==> m.token() == token,
{
    reveal_strlit("GET");
    reveal_strlit("POST");
    reveal_strlit("PUT");
    reveal_strlit("DELETE");
    reveal_strlit("OPTIONS");
    assert("GET"@.len() == 3 && "POST"@.len() == 4 && "PUT"@.len() == 3 && "DELETE"@.len() == 6
        && "OPTIONS"@.len() == 7);
    assert("PUT"@[0] != "GET"@[0]);
}

/// The token of a version names that version and no other.
pub proof fn lemma_version_round_trip(v: Version, token: Seq<char>)
    ensures
        Version::from_token(v.token()) == Some(v),
        Version::from_token(token) == Some(v) ==> v.token() == token,
{
}

/// A start line is a method token, a path and the version token, with one
/// space between each two of them.
pub open spec fn start_line(m: Method, path: Seq<char>, v: Version) -> Seq<char> {
    m.token() + space() + path + space() + v.token()
}

/// What a text decodes to holds the tokens of its start line: the method
/// and the version, written again, are the first and the third token as
/// they stood in the text, and the path is the second.
pub proof fn lemma_decode_keeps_tokens(text: Seq<char>)
    ensures
        decode(text) matches Ok(request) ==> {
            let tokens = split(split(text, crlf())[0], space());
            &&& tokens.len() >= 3
            &&& request.method.token() == tokens[0]
            &&& request.path == tokens[1]
            &&& request.version.token() == tokens[2]
        },
{
}

/// Where the character `c` is not in `s` before index `i` and is at index
/// `i`, that is where `find` finds it.
proof fn lemma_find_char(s: Seq<char>, c: char, i: int)
    requires
        0 <= i < s.len(),
        s[i] == c,
        forall|j: int| 0 <= j < i ==> s[j] != c,
    ensures
        find(s, seq![c]) == Some(i),
{
    assert(s.subrange(i, i + 1) =~= seq![c]);
    assert forall|j: int| 0 <= j < i implies !occurs_at(s, seq![c], j) by {
        if j + 1 <= s.len() {
            assert(s.subrange(j, j + 1)[0] == s[j]);
        }
    }
    lemma_find_some(s, seq![c], i);
}

/// A pattern whose first character is not in `s` is not found in `s`.
proof fn lemma_find_nothing(s: Seq<char>, pat: Seq<char>)
    requires
        pat.len() > 0,
        forall|j: int| 0 <= j < s.len() ==> s[j] != pat[0],
    ensures
        find(s, pat) is None,
{
    assert forall|i: int| !occurs_at(s, pat, i) by {
        if 0 <= i && i + pat.len() <= s.len() {
            assert(s.subrange(i, i + pat.len())[0] == s[i]);
        }
    }
    lemma_find_none(s, pat);
}

/// Decoding a start line gives back what it was written from: the method,
/// the path and the version, whose tokens are then those of the line. This
/// holds of each method and of each path that is not empty, begins with `/`
/// and holds neither a space nor a carriage return.
pub proof fn lemma_start_line_round_trip(m: Method, path: Seq<char>)
    requires
        valid_path(path),
        forall|i: int| 0 <= i < path.len() ==> path[i] != ' ' && path[i] != '\r',
    ensures
        decode(start_line(m, path, Version::Http1_1)) == Ok::<RequestView, DecodeError>(
            RequestView {
                method: m,
                path: path,
                headers: Map::empty(),
                version: Version::Http1_1,
                body: None,
            },
        ),
{
    reveal_strlit("GET");
    reveal_strlit("POST");
    reveal_strlit("PUT");
    reveal_strlit("DELETE");
    reveal_strlit("OPTIONS");
    reveal_strlit("HTTP/1.1");
    let v = Version::Http1_1.token();
    let mt = m.token();
    let text = start_line(m, path, Version::Http1_1);
    // One line.
    lemma_find_nothing(text, crlf());
    let lines = split(text, crlf());
    assert(lines =~= seq![text]);
    // Three tokens.
    let rest = path + space() + v;
    lemma_find_char(text, ' ', mt.len() as int);
    assert(text.take(mt.len() as int) =~= mt);
    assert(text.skip(mt.len() as int + 1) =~= rest);
    lemma_find_char(rest, ' ', path.len() as int);
    assert(rest.take(path.len() as int) =~= path);
    assert(rest.skip(path.len() as int + 1) =~= v);
    lemma_find_nothing(v, space());
    assert(split(v, space()) =~= seq![v]);
    assert(split(rest, space()) =~= seq![path, v]);
    assert(split(text, space()) =~= seq![mt, path, v]);
    lemma_method_round_trip(m, mt);
    // No header and no body.
    lines.index_of_first_ensures(Seq::<char>::empty());
}

/// The UTF-8 bytes of a text are valid and decode to that text: what
/// `Request::try_from` makes of the bytes of a text is what `decode` makes of
/// the text.
pub proof fn lemma_bytes_of_text(text: Seq<char>)
    ensures
        valid_utf8(encode_utf8(text)),
        decode(decode_utf8(encode_utf8(text))) == decode(text),
{
    encode_utf8_valid_utf8(text);
    encode_utf8_decode_utf8(text);
}

/// A response that carries a body says its length in bytes, that is the
/// length of its UTF-8 encoding, whatever the number of its characters. The
/// body is one that a machine can hold.
pub proof fn lemma_content_length_is_byte_length(content_type: ContentType, body: Seq<char>)
    requires
        encode_utf8(body).len() <= usize::MAX,
    ensures
        ({
            let response = carrying(content_type, body);
            let length = encode_utf8(body).len();
            &&& response.headers[HeaderKey::ContentLength] matches HeaderValue::ContentLength(n)
                && n == length
            &&& header_lines(response.headers)[1] == "Content-Length"@ + colon_space() + decimal(
                length,
            )
            &&& consistent(response)
        }),
{
}

/// What is written to a file is what is read from it. A `POST` and a `GET`
/// of one path that names a file go to the same file of the configured
/// directory; the write carries the body of the `POST`; and where the file
/// then holds that body, the response to the `GET` carries it, with its
/// length in bytes. The path is one that does not hold `/echo/` as well: a
/// `GET` of such a path is echoed and reads no file.
pub proof fn lemma_file_round_trip(
    write: RequestView,
    read: RequestView,
    directory: Seq<char>,
    contents: Seq<char>,
    created: bool,
)
    requires
        write.method == Method::Post,
        read.method == Method::Get,
        write.path == read.path,
        write.body == Some(contents),
        file_name(read.path) is Some,
        !contains(read.path, "/echo/"@),
    ensures
        file_name(read.path) matches Some(name) && {
            let file = file_path(directory, name);
            &&& dispatch(write, Some(directory)) == (ActionView::WriteFile { path: file, contents })
            &&& dispatch(read, Some(directory)) == (ActionView::ReadFile { path: file })
        },
        reply(dispatch(read, Some(directory)), Some(contents), created) == carrying(
            ContentType::ApplicationOctetStream,
            contents,
        ),
        reply(dispatch(read, Some(directory)), Some(contents), created).body == Some(contents),
{
    let path = read.path;
    lemma_contains_find(path, "/files/"@);
    reveal_strlit("/files/");
    reveal_strlit("/");
    reveal_strlit("/user-agent");
    let i = choose|i: int| occurs_at(path, "/files/"@, i);
    if path == "/user-agent"@ {
        assert(path.subrange(i, i + 7)[1] == path[i + 1]);
    }
}

/// The same request gets the same bytes. Two runs of `process_request` on
/// one request and one configuration decide the same; and where the file
/// system says the same both times, the two responses are the same on the
/// wire.
pub proof fn lemma_same_request_same_bytes(
    request: Request,
    config: Config,
    first: Action,
    second: Action,
    found: Option<Seq<char>>,
    created: bool,
)
    requires
        first@ == dispatch(request@, text_of(config.directory)),
        second@ == dispatch(request@, text_of(config.directory)),
    ensures
        first@ == second@,
        encode_utf8(wire(reply(first@, found, created))) == encode_utf8(
            wire(reply(second@, found, created)),
        ),
{
}

} // verus!
