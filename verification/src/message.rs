//! Requests and responses as plain data, independent of any HTTP engine.

use crate::text::str_eq;
use vstd::prelude::*;

verus! {

/// A JSON value of `serde_json`; carried through, never looked into.
#[verifier::external_type_specification]
#[verifier::external_body]
pub struct ExValue(serde_json::Value);

/// A header: its name and its value.
pub type Header = (String, String);

/// The methods that a request can be made with.
#[derive(Debug, Clone, Copy, PartialEq, Eq, Structural)]
pub enum Method {
    Get,
    Post,
    Put,
    Patch,
    Delete,
    Head,
    Options,
}

impl Method {
    /// The name of the method on the wire.
    pub open spec fn name(self) -> Seq<char> {
        match self {
            Method::Get => "GET"@,
            Method::Post => "POST"@,
            Method::Put => "PUT"@,
            Method::Patch => "PATCH"@,
            Method::Delete => "DELETE"@,
            Method::Head => "HEAD"@,
            Method::Options => "OPTIONS"@,
        }
    }

    /// The method that `name` is the wire name of, if any.
    pub open spec fn named(name: Seq<char>) -> Option<Method> {
        if name == "GET"@ {
            Some(Method::Get)
        } else if name == "POST"@ {
            Some(Method::Post)
        } else if name == "PUT"@ {
            Some(Method::Put)
        } else if name == "PATCH"@ {
            Some(Method::Patch)
        } else if name == "DELETE"@ {
            Some(Method::Delete)
        } else if name == "HEAD"@ {
            Some(Method::Head)
        } else if name == "OPTIONS"@ {
            Some(Method::Options)
        } else {
            None
        }
    }

    /// The name of the method on the wire.
    pub fn as_str(&self) -> (res: &'static str)
        ensures
            res@ == self.name(),
    {
        match self {
            Method::Get => "GET",
            Method::Post => "POST",
            Method::Put => "PUT",
            Method::Patch => "PATCH",
            Method::Delete => "DELETE",
            Method::Head => "HEAD",
            Method::Options => "OPTIONS",
        }
    }

    /// Recognizes a method by its wire name; names are case-sensitive, and
    /// any other name is not a method that a request can be made with.
    pub fn from_name(name: &str) -> (res: Option<Method>)
        ensures
            res == Method::named(name@),
    {
        if str_eq(name, "GET") {
            Some(Method::Get)
        } else if str_eq(name, "POST") {
            Some(Method::Post)
        } else if str_eq(name, "PUT") {
            Some(Method::Put)
        } else if str_eq(name, "PATCH") {
            Some(Method::Patch)
        } else if str_eq(name, "DELETE") {
            Some(Method::Delete)
        } else if str_eq(name, "HEAD") {
            Some(Method::Head)
        } else if str_eq(name, "OPTIONS") {
            Some(Method::Options)
        } else {
            None
        }
    }

    /// Every method is recognized by its own name.
    pub proof fn lemma_name_round_trip(self)
        ensures
            Method::named(self.name()) == Some(self),
    {
        reveal_strlit("GET");
        reveal_strlit("POST");
        reveal_strlit("PUT");
        reveal_strlit("PATCH");
        reveal_strlit("DELETE");
        reveal_strlit("HEAD");
        reveal_strlit("OPTIONS");
        assert("GET"@.len() == 3 && "PUT"@.len() == 3);
        assert("POST"@.len() == 4 && "HEAD"@.len() == 4);
        assert("PATCH"@.len() == 5 && "DELETE"@.len() == 6 && "OPTIONS"@.len() == 7);
        assert("GET"@[0] == 'G' && "PUT"@[0] == 'P');
        assert("POST"@[0] == 'P' && "HEAD"@[0] == 'H');
    }
}

/// The versions of HTTP that a message can name.
#[derive(Debug, Clone, Copy, PartialEq, Eq, Structural)]
pub enum Version {
    Http09,
    Http10,
    Http11,
    Http2,
    Http3,
}

impl Version {
    /// The version that a status line names with `text`, if any.
    pub open spec fn named(text: Seq<char>) -> Option<Version> {
        if text == "HTTP/0.9"@ {
            Some(Version::Http09)
        } else if text == "HTTP/1.0"@ {
            Some(Version::Http10)
        } else if text == "HTTP/1.1"@ {
            Some(Version::Http11)
        } else if text == "HTTP/2.0"@ {
            Some(Version::Http2)
        } else if text == "HTTP/3.0"@ {
            Some(Version::Http3)
        } else {
            None
        }
    }

    /// Whether a request can be sent in this version.
    pub open spec fn sendable(self) -> bool {
        self == Version::Http10 || self == Version::Http11 || self == Version::Http2
    }

    /// Decides [`Version::sendable`].
    pub fn is_sendable(&self) -> (res: bool)
        ensures
            res == self.sendable(),
    {
        match self {
            Version::Http10 | Version::Http11 | Version::Http2 => true,
            Version::Http09 | Version::Http3 => false,
        }
    }

    /// Recognizes the version that a status line names.
    pub fn from_name(text: &str) -> (res: Option<Version>)
        ensures
            res == Version::named(text@),
    {
        if str_eq(text, "HTTP/0.9") {
            Some(Version::Http09)
        } else if str_eq(text, "HTTP/1.0") {
            Some(Version::Http10)
        } else if str_eq(text, "HTTP/1.1") {
            Some(Version::Http11)
        } else if str_eq(text, "HTTP/2.0") {
            Some(Version::Http2)
        } else if str_eq(text, "HTTP/3.0") {
            Some(Version::Http3)
        } else {
            None
        }
    }
}

/// A request as the caller means it: where it goes, how, and with what.
#[derive(Debug)]
pub struct Request {
    pub method: Method,
    pub uri: String,
    pub version: Version,
    pub headers: Vec<Header>,
    pub body: Option<serde_json::Value>,
}

/// The envelope of an answer: status, version, headers and the decoded body.
#[derive(Debug)]
pub struct Response<T> {
    pub status: u16,
    pub version: Version,
    pub headers: Vec<Header>,
    pub body: T,
}

impl<T> Response<T> {
    /// Gives up the envelope and keeps the body.
    pub fn into_body(self) -> (res: T)
        ensures
            res == self.body,
    {
        self.body
    }
}

} // verus!
