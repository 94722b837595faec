//! Validation of the address that a database is opened with.

use crate::errors::{UrlParseError, UrlParseResult};
use crate::location::{
    https, is_url, parse_url, scheme_of, url_parse, url_parse_error, url_scheme, Location,
};
use crate::message::{Method, Request, Version};
use crate::text::{str_eq, trim_end_char, trimmed_end};
use vstd::prelude::*;
use vstd::string::StringExecFns;

verus! {

/// What is parsed when `uri` is given: `uri` without its trailing slashes.
pub open spec fn canonical_input(uri: Seq<char>) -> Seq<char> {
    trimmed_end(uri, '/')
}

/// The location that `uri` stands for, where it is an absolute `https` URL.
pub open spec fn location_of(uri: Seq<char>) -> Option<Seq<char>> {
    match url_parse(canonical_input(uri)) {
        Some(text) => if url_scheme(text) == https() {
            Some(text)
        } else {
            None
        },
        None => None,
    }
}

/// What becomes of an address that the parser has accepted as `text`, with
/// the scheme `scheme`: a location where the scheme is `https`, and
/// otherwise the refusal of any other scheme.
pub fn check_scheme(text: String, scheme: &str) -> (res: UrlParseResult<Location>)
    requires
        is_url(text@),
        scheme@ == url_scheme(text@),
    ensures
        scheme@ == https() ==> (res matches Ok(location) && location@ == text@),
        scheme@ != https() ==> res == Err::<Location, UrlParseError>(UrlParseError::NotHttps),
{
    proof {
        reveal_strlit("https");
        assert("https"@ =~= https());
    }
    if !str_eq(scheme, "https") {
        return Err(UrlParseError::NotHttps);
    }
    Ok(Location::from_text(text))
}

/// Validates `uri`: trailing slashes are dropped, the rest must parse as an
/// absolute URL, and its scheme must be `https`. Where the parser refuses
/// the address, its error is handed on.
pub fn check_uri(uri: &str) -> (res: UrlParseResult<Location>)
    ensures
        match url_parse(canonical_input(uri@)) {
            None => res == Err::<Location, UrlParseError>(
                UrlParseError::Parser(url_parse_error(canonical_input(uri@))),
            ),
            Some(text) => if url_scheme(text) == https() {
                res matches Ok(location) && location@ == text
            } else {
                res == Err::<Location, UrlParseError>(UrlParseError::NotHttps)
            },
        },
        res matches Ok(location) ==> location_of(uri@) == Some(location@),
        res is Err ==> location_of(uri@) is None,
{
    match parse_url(trim_end_char(uri, '/')) {
        Ok(text) => {
            let scheme = scheme_of(text.as_str());
            check_scheme(text, scheme.as_str())
        },
        Err(err) => Err(UrlParseError::Parser(err)),
    }
}

/// The request for `method` at `uri` with the body `data`: no headers, and
/// the version that requests have unless told otherwise.
pub fn make_request(uri: &Location, method: Method, data: Option<serde_json::Value>) -> (res:
    Request)
    ensures
        res.method == method,
        res.uri@ == uri@,
        res.version == Version::Http11,
        res.headers@.len() == 0,
        res.body == data,
{
    Request {
        method,
        uri: String::from_str(uri.as_str()),
        version: Version::Http11,
        headers: Vec::new(),
        body: data,
    }
}

/// Trailing slashes do not matter: an address, the address with one more
/// slash and the address with two more slashes are parsed as the same input,
/// so they stand for the same location or fail alike.
pub proof fn lemma_trailing_slashes_ignored(uri: Seq<char>)
    ensures
        canonical_input(uri + seq!['/']) == canonical_input(uri),
        canonical_input(uri + seq!['/', '/']) == canonical_input(uri),
        location_of(uri + seq!['/']) == location_of(uri),
        location_of(uri + seq!['/', '/']) == location_of(uri),
{
    let one = uri + seq!['/'];
    let two = uri + seq!['/', '/'];
    assert(one.drop_last() == uri);
    assert(two.drop_last() == one);
    assert(trimmed_end(one, '/') == trimmed_end(uri, '/'));
    assert(trimmed_end(two, '/') == trimmed_end(one, '/'));
}

} // verus!
