//! The values that stand on the wire as fixed tokens: method, version,
//! status, content type, and the header kinds of a response.
use crate::text::{decimal, equals_str, push_decimal};
use vstd::prelude::*;

verus! {

/// The request methods that are understood.
#[derive(Debug, Clone, Copy, PartialEq, Eq, Structural)]
pub enum Method {
    Get,
    Post,
    Put,
    Delete,
    Options,
}

/// The protocol versions that are understood.
#[derive(Debug, Clone, Copy, PartialEq, Eq, Structural)]
pub enum Version {
    Http1_1,
}

/// The status of a response.
#[derive(Debug, Clone, Copy, PartialEq, Eq, Structural)]
pub enum StatusCode {
    Okay,
    Created,
    NotFound,
}

/// The media type of a response body.
#[derive(Debug, Clone, Copy, PartialEq, Eq, Structural)]
pub enum ContentType {
    TextPlain,
    ApplicationOctetStream,
}

/// The header kinds that a response can carry, in the order in which they
/// are written out.
#[derive(Debug, Clone, Copy, PartialEq, Eq, Hash, PartialOrd, Ord, Structural)]
pub enum HeaderKey {
    ContentType,
    ContentLength,
}

/// The value of a response header.
#[derive(Debug, Clone, Copy, PartialEq, Eq, Structural)]
pub enum HeaderValue {
    ContentType(ContentType),
    ContentLength(usize),
}

impl Method {
    /// The token of the method on the wire.
    pub open spec fn token(self) -> Seq<char> {
        match self {
            Method::Get => "GET"@,
            Method::Post => "POST"@,
            Method::Put => "PUT"@,
            Method::Delete => "DELETE"@,
            Method::Options => "OPTIONS"@,
        }
    }

    /// The method that a token names, if it names one.
    pub open spec fn from_token(token: Seq<char>) -> Option<Method> {
        if token == "GET"@ {
            Some(Method::Get)
        } else if token == "POST"@ {
            Some(Method::Post)
        } else if token == "PUT"@ {
            Some(Method::Put)
        } else if token == "DELETE"@ {
            Some(Method::Delete)
        } else if token == "OPTIONS"@ {
            Some(Method::Options)
        } else {
            None
        }
    }

    /// The token of the method on the wire.
    pub fn as_str(&self) -> (s: &'static str)
        ensures
            s@ == self.token(),
    {
        match self {
            Method::Get => "GET",
            Method::Post => "POST",
            Method::Put => "PUT",
            Method::Delete => "DELETE",
            Method::Options => "OPTIONS",
        }
    }

    /// Reads a method token.
    pub fn parse(token: &[char]) -> (m: Option<Method>)
        ensures
            m == Method::from_token(token@),
    {
        if equals_str(token, "GET") {
            Some(Method::Get)
        } else if equals_str(token, "POST") {
            Some(Method::Post)
        } else if equals_str(token, "PUT") {
            Some(Method::Put)
        } else if equals_str(token, "DELETE") {
            Some(Method::Delete)
        } else if equals_str(token, "OPTIONS") {
            Some(Method::Options)
        } else {
            None
        }
    }
}

impl Version {
    /// The token of the version on the wire.
    pub open spec fn token(self) -> Seq<char> {
        match self {
            Version::Http1_1 => "HTTP/1.1"@,
        }
    }

    /// The version that a token names, if it names one.
    pub open spec fn from_token(token: Seq<char>) -> Option<Version> {
        if token == "HTTP/1.1"@ {
            Some(Version::Http1_1)
        } else {
            None
        }
    }

    /// The token of the version on the wire.
    pub fn as_str(&self) -> (s: &'static str)
        ensures
            s@ == self.token(),
    {
        match self {
            Version::Http1_1 => "HTTP/1.1",
        }
    }

    /// Reads a version token.
    pub fn parse(token: &[char]) -> (v: Option<Version>)
        ensures
            v == Version::from_token(token@),
    {
        if equals_str(token, "HTTP/1.1") {
            Some(Version::Http1_1)
        } else {
            None
        }
    }
}

impl StatusCode {
    /// The status as it stands in the first line of a response.
    pub open spec fn token(self) -> Seq<char> {
        match self {
            StatusCode::Okay => "200 OK"@,
            StatusCode::Created => "201 CREATED"@,
            StatusCode::NotFound => "404 NOT FOUND"@,
        }
    }

    /// The status as it stands in the first line of a response.
    pub fn as_str(&self) -> (s: &'static str)
        ensures
            s@ == self.token(),
    {
        match self {
            StatusCode::Okay => "200 OK",
            StatusCode::Created => "201 CREATED",
            StatusCode::NotFound => "404 NOT FOUND",
        }
    }
}

impl ContentType {
    /// The media type as it stands in a header.
    pub open spec fn token(self) -> Seq<char> {
        match self {
            ContentType::TextPlain => "text/plain"@,
            ContentType::ApplicationOctetStream => "application/octet-stream"@,
        }
    }

    /// The media type as it stands in a header.
    pub fn as_str(&self) -> (s: &'static str)
        ensures
            s@ == self.token(),
    {
        match self {
            ContentType::TextPlain => "text/plain",
            ContentType::ApplicationOctetStream => "application/octet-stream",
        }
    }
}

impl HeaderKey {
    /// The name of the header.
    pub open spec fn token(self) -> Seq<char> {
        match self {
            HeaderKey::ContentType => "Content-Type"@,
            HeaderKey::ContentLength => "Content-Length"@,
        }
    }

    /// The name of the header.
    pub fn as_str(&self) -> (s: &'static str)
        ensures
            s@ == self.token(),
    {
        match self {
            HeaderKey::ContentType => "Content-Type",
            HeaderKey::ContentLength => "Content-Length",
        }
    }
}

impl HeaderValue {
    /// The value as it stands behind the header's name: the media type, or
    /// the length as a decimal numeral.
    pub open spec fn token(self) -> Seq<char> {
        match self {
            HeaderValue::ContentType(t) => t.token(),
            HeaderValue::ContentLength(n) => decimal(n as nat),
        }
    }

    /// Appends the value to `out`.
    pub fn write_to(&self, out: &mut String)
        ensures
            final(out)@ == old(out)@ + self.token(),
    {
        match self {
            HeaderValue::ContentType(t) => out.append(t.as_str()),
            HeaderValue::ContentLength(n) => push_decimal(out, *n),
        }
    }

    /// The value as it stands behind the header's name.
    pub fn to_string(&self) -> (s: String)
        ensures
            s@ == self.token(),
    {
        let mut s = String::new();
        self.write_to(&mut s);
        assert(s@ =~= self.token());
        s
    }
}

} // verus!
