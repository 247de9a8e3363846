//! Routing: from a request to the response, or to the work on a file that
//! comes before the response.
//!
//! This module reads and writes no file. For the two file routes
//! [`process_request`] hands back the file's path, and the caller passes
//! what it found to [`file_read_response`] or [`file_write_response`].
use crate::config::Config;
use crate::request::{Request, RequestView};
use crate::response::{bare, carrying, Response, ResponseView};
use crate::text::{
    after_first, chars_of, contains, find_in, push_chars, rows, same_text, split, split_on,
    tail_after, text_of,
};
use crate::wire::{ContentType, Method, StatusCode};
use vstd::prelude::*;

verus! {

/// Where a request goes.
#[derive(Debug, Clone, Copy, PartialEq, Eq, Structural)]
pub enum Route {
    /// `GET /`
    Root,
    /// `GET` of a path that holds `/echo/`
    Echo,
    /// `GET /user-agent`
    UserAgent,
    /// `GET` of a path that holds `/files/`
    FileRead,
    /// `POST` of a path that holds `/files/`
    FileWrite,
    /// Anything else.
    NotFound,
}

/// What is to be done for a request.
#[derive(Debug)]
pub enum Action {
    /// Send this response.
    Respond(Response),
    /// Read the file at `path`, then send what `file_read_response` makes of
    /// it.
    ReadFile { path: String },
    /// Create the file at `path` with `contents`, then send what
    /// `file_write_response` makes of the outcome.
    WriteFile { path: String, contents: String },
}

/// An action, as mathematical values.
pub ghost enum ActionView {
    Respond(ResponseView),
    ReadFile { path: Seq<char> },
    WriteFile { path: Seq<char>, contents: Seq<char> },
}

impl View for Action {
    type V = ActionView;

    open spec fn view(&self) -> ActionView {
        match self {
            Action::Respond(r) => ActionView::Respond(r@),
            Action::ReadFile { path } => ActionView::ReadFile { path: path@ },
            Action::WriteFile { path, contents } => ActionView::WriteFile {
                path: path@,
                contents: contents@,
            },
        }
    }
}

/// The route of a method and a path. The path is matched as text, in this
/// order: the whole of it against `/`, any part of it against `/echo/`, the
/// whole of it against `/user-agent`, any part of it against `/files/`.
pub open spec fn route_of(method: Method, path: Seq<char>) -> Route {
    match method {
        Method::Get => if path == "/"@ {
            Route::Root
        } else if contains(path, "/echo/"@) {
            Route::Echo
        } else if path == "/user-agent"@ {
            Route::UserAgent
        } else if contains(path, "/files/"@) {
            Route::FileRead
        } else {
            Route::NotFound
        },
        Method::Post => if contains(path, "/files/"@) {
            Route::FileWrite
        } else {
            Route::NotFound
        },
        _ => Route::NotFound,
    }
}

/// What parts the steps of a file name.
pub open spec fn slash() -> Seq<char> {
    seq!['/']
}

/// The step that leads from a directory to the one above it.
pub open spec fn parent() -> Seq<char> {
    seq!['.', '.']
}

/// Whether a file name leads out of the directory it is joined to: whether
/// one of its steps is `..`.
pub open spec fn escapes(name: Seq<char>) -> bool {
    split(name, slash()).contains(parent())
}

/// The name of the file that a path names: what stands behind the first
/// `/files/`, unless that leads out of the directory.
pub open spec fn file_name(path: Seq<char>) -> Option<Seq<char>> {
    match after_first(path, "/files/"@) {
        Some(name) if !escapes(name) => Some(name),
        _ => None,
    }
}

/// The path of the file with the given name in the directory. The two are
/// joined as text, so that a name that begins with `/` stays below the
/// directory.
pub open spec fn file_path(directory: Seq<char>, name: Seq<char>) -> Seq<char> {
    directory + slash() + name
}

/// The response that echoes what stands in the path behind the first
/// `/echo/`.
pub open spec fn echo_reply(path: Seq<char>) -> ResponseView {
    match after_first(path, "/echo/"@) {
        Some(text) => carrying(ContentType::TextPlain, text),
        None => bare(StatusCode::NotFound),
    }
}

/// The response that carries the value of the `User-Agent` header; without
/// that header, `404 NOT FOUND`.
pub open spec fn agent_reply(headers: Map<Seq<char>, Seq<char>>) -> ResponseView {
    if headers.contains_key("User-Agent"@) {
        carrying(ContentType::TextPlain, headers["User-Agent"@])
    } else {
        bare(StatusCode::NotFound)
    }
}

/// What is to be done to read the file that a path names.
pub open spec fn read_plan(path: Seq<char>, directory: Option<Seq<char>>) -> ActionView {
    match (file_name(path), directory) {
        (Some(name), Some(d)) => ActionView::ReadFile { path: file_path(d, name) },
        _ => ActionView::Respond(bare(StatusCode::NotFound)),
    }
}

/// What is to be done to write the body to the file that a path names.
pub open spec fn write_plan(
    path: Seq<char>,
    body: Option<Seq<char>>,
    directory: Option<Seq<char>>,
) -> ActionView {
    match (file_name(path), directory, body) {
        (Some(name), Some(d), Some(b)) => ActionView::WriteFile {
            path: file_path(d, name),
            contents: b,
        },
        _ => ActionView::Respond(bare(StatusCode::NotFound)),
    }
}

/// What is to be done for a request, given the configured directory.
pub open spec fn dispatch(request: RequestView, directory: Option<Seq<char>>) -> ActionView {
    match route_of(request.method, request.path) {
        Route::Root => ActionView::Respond(bare(StatusCode::Okay)),
        Route::Echo => ActionView::Respond(echo_reply(request.path)),
        Route::UserAgent => ActionView::Respond(agent_reply(request.headers)),
        Route::FileRead => read_plan(request.path, directory),
        Route::FileWrite => write_plan(request.path, request.body, directory),
        Route::NotFound => ActionView::Respond(bare(StatusCode::NotFound)),
    }
}

/// The response to a file read: the contents as body where the file was
/// there, `404 NOT FOUND` where it was not.
pub open spec fn read_outcome(contents: Option<Seq<char>>) -> ResponseView {
    match contents {
        Some(c) => carrying(ContentType::ApplicationOctetStream, c),
        None => bare(StatusCode::NotFound),
    }
}

/// The response to a file write: `201 CREATED` where the file could be
/// created, `404 NOT FOUND` where it could not.
pub open spec fn write_outcome(created: bool) -> ResponseView {
    if created {
        bare(StatusCode::Created)
    } else {
        bare(StatusCode::NotFound)
    }
}

/// The response that is sent once an action is carried out. `found` is what
/// the file to be read holds, if there is such a file, and `created` says
/// whether the file to be written could be created.
pub open spec fn reply(
    action: ActionView,
    found: Option<Seq<char>>,
    created: bool,
) -> ResponseView {
    match action {
        ActionView::Respond(r) => r,
        ActionView::ReadFile { .. } => read_outcome(found),
        ActionView::WriteFile { .. } => write_outcome(created),
    }
}

/// Finds the route of a request.
pub fn route(request: &Request) -> (r: Route)
    ensures
        r == route_of(request.method, request.path@),
{
    let path = chars_of(request.path.as_str());
    match request.method {
        Method::Get => {
            if same_text(request.path.as_str(), "/") {
                Route::Root
            } else if find_in(path.as_slice(), chars_of("/echo/").as_slice()).is_some() {
                Route::Echo
            } else if same_text(request.path.as_str(), "/user-agent") {
                Route::UserAgent
            } else if find_in(path.as_slice(), chars_of("/files/").as_slice()).is_some() {
                Route::FileRead
            } else {
                Route::NotFound
            }
        },
        Method::Post => {
            if find_in(path.as_slice(), chars_of("/files/").as_slice()).is_some() {
                Route::FileWrite
            } else {
                Route::NotFound
            }
        },
        _ => Route::NotFound,
    }
}

/// The response `404 NOT FOUND`, without headers and without a body.
pub fn not_found() -> (r: Response)
    ensures
        r@ == bare(StatusCode::NotFound),
        r.wf(),
{
    Response::with_status(StatusCode::NotFound)
}

/// Echoes what stands in the path behind the first `/echo/`. A path
/// without `/echo/` gets `404 NOT FOUND`.
pub fn get_echo(request: &Request) -> (r: Response)
    ensures
        r@ == echo_reply(request.path@),
        r.wf(),
{
    let path = chars_of(request.path.as_str());
    match tail_after(path.as_slice(), chars_of("/echo/").as_slice()) {
        Some(body) => Response::with_body(ContentType::TextPlain, body),
        None => not_found(),
    }
}

/// Sends back the value of the request's `User-Agent` header. A request
/// without that header gets `404 NOT FOUND`.
pub fn get_user_agent(request: &Request) -> (r: Response)
    ensures
        r@ == agent_reply(request.headers@),
        r.wf(),
{
    match request.headers.get("User-Agent") {
        Some(agent) => Response::with_body(ContentType::TextPlain, agent.clone()),
        None => not_found(),
    }
}

/// Whether a file name leads out of the directory it is joined to.
pub fn is_escaping(name: &[char]) -> (b: bool)
    ensures
        b == escapes(name@),
{
    let bar: [char; 1] = ['/'];
    assert(bar@ =~= slash());
    let steps = split_on(name, bar.as_slice());
    let mut i: usize = 0;
    while i < steps.len()
        invariant
            i <= steps@.len(),
            rows(steps@) == split(name@, slash()),
            forall|j: int| 0 <= j < i ==> rows(steps@)[j] != parent(),
        decreases steps@.len() - i,
    {
        if steps[i].len() == 2 && steps[i][0] == '.' && steps[i][1] == '.' {
            assert(rows(steps@)[i as int] =~= parent());
            return true;
        }
        assert(rows(steps@)[i as int] != parent()) by {
            if steps@[i as int]@.len() == 2 {
                assert(parent()[0] == '.' && parent()[1] == '.');
            }
        }
        i += 1;
    }
    false
}

/// The name of the file that the request's path names.
fn file_name_of(request: &Request) -> (name: Option<String>)
    ensures
        text_of(name) == file_name(request.path@),
{
    let path = chars_of(request.path.as_str());
    match tail_after(path.as_slice(), chars_of("/files/").as_slice()) {
        Some(name) => {
            if is_escaping(chars_of(name.as_str()).as_slice()) {
                None
            } else {
                Some(name)
            }
        },
        None => None,
    }
}

/// The path of the file with the given name in the directory.
fn join_path(directory: &String, name: &String) -> (path: String)
    ensures
        path@ == file_path(directory@, name@),
{
    let mut path = directory.clone();
    path.push('/');
    push_chars(&mut path, chars_of(name.as_str()).as_slice());
    path
}

/// Plans the read of the file that the path names behind the first
/// `/files/`. Without such a name, with a name that leads out of the
/// directory or without a configured directory there is nothing to read.
pub fn get_file(request: &Request, config: &Config) -> (action: Action)
    ensures
        action@ == read_plan(request.path@, text_of(config.directory)),
{
    match (file_name_of(request), &config.directory) {
        (Some(name), Some(directory)) => Action::ReadFile { path: join_path(directory, &name) },
        _ => Action::Respond(not_found()),
    }
}

/// Plans the write of the request's body to the file that the path names
/// behind the first `/files/`. Without such a name, with a name that leads
/// out of the directory, without a configured directory or without a body
/// there is nothing to write.
pub fn post_file(request: &Request, config: &Config) -> (action: Action)
    ensures
        action@ == write_plan(request.path@, request@.body, text_of(config.directory)),
{
    match (file_name_of(request), &config.directory, &request.body) {
        (Some(name), Some(directory), Some(body)) => Action::WriteFile {
            path: join_path(directory, &name),
            contents: body.clone(),
        },
        _ => Action::Respond(not_found()),
    }
}

/// The response to a file read. `contents` is what the file holds, or
/// nothing where there is no such file.
pub fn file_read_response(contents: Option<String>) -> (r: Response)
    ensures
        r@ == read_outcome(text_of(contents)),
        r.wf(),
{
    match contents {
        Some(body) => Response::with_body(ContentType::ApplicationOctetStream, body),
        None => not_found(),
    }
}

/// The response to a file write. `created` says whether the file could be
/// created.
pub fn file_write_response(created: bool) -> (r: Response)
    ensures
        r@ == write_outcome(created),
        r.wf(),
{
    if created {
        Response::with_status(StatusCode::Created)
    } else {
        not_found()
    }
}

/// Decides what is to be done for a request.
pub fn process_request(request: &Request, config: &Config) -> (action: Action)
    ensures
        action@ == dispatch(request@, text_of(config.directory)),
        action matches Action::Respond(r) ==> r.wf(),
{
    match route(request) {
        Route::Root => Action::Respond(Response::new()),
        Route::Echo => Action::Respond(get_echo(request)),
        Route::UserAgent => Action::Respond(get_user_agent(request)),
        Route::FileRead => get_file(request, config),
        Route::FileWrite => post_file(request, config),
        Route::NotFound => Action::Respond(not_found()),
    }
}

} // verus!
