//! HTTPS locations, kept in the serialized form that the `url` crate gives them.
//!
//! Parsing and rewriting a URL is the work of `url::Url`. Each of its
//! operations that this library uses gets a name here, a function from the
//! texts it is given to the text it produces, and a thin call that is believed
//! to compute that name. A location is held as text, so each of these calls
//! first turns the text back into a `Url`. Everything else in the library is
//! stated over these names and proved.

use crate::path::{all_slash_free, plain_path, segments_of, unrooted};
use crate::text::{byte_len, byte_length};
use vstd::prelude::*;

verus! {

/// The error of `url::Url::parse`; carried through, never looked into.
#[verifier::external_type_specification]
#[verifier::external_body]
pub struct ExParseError(url::ParseError);

/// The serialization of the URL that `url::Url::parse` makes of `input`, if it
/// accepts it.
pub uninterp spec fn url_parse(input: Seq<char>) -> Option<Seq<char>>;

/// The error with which `url::Url::parse` refuses `input`, where it does.
pub uninterp spec fn url_parse_error(input: Seq<char>) -> url::ParseError;

/// The scheme of the URL serialized as `text`: what stands before its first
/// colon. This is what `url::Url::scheme` returns.
pub open spec fn url_scheme(text: Seq<char>) -> Seq<char>
    decreases text.len(),
{
    if text.len() == 0 || text[0] == ':' {
        Seq::empty()
    } else {
        seq![text[0]] + url_scheme(text.skip(1))
    }
}

/// The items that `url::Url::path_segments` yields for the URL serialized as
/// `text`; `None` where the URL cannot be a base.
pub uninterp spec fn url_path_segments(text: Seq<char>) -> Option<Seq<Seq<char>>>;

/// The serialization after `url::Url::set_path(path)` on the URL serialized as
/// `text`.
pub uninterp spec fn url_with_path(text: Seq<char>, path: Seq<char>) -> Seq<char>;

/// The serialization after `url::Url::set_query(Some(query))` on the URL
/// serialized as `text`.
pub uninterp spec fn url_with_query(text: Seq<char>, query: Seq<char>) -> Seq<char>;

/// The serialization after `query_pairs_mut().append_pair(key, value)` on the
/// URL serialized as `text`.
pub uninterp spec fn url_with_pair(text: Seq<char>, key: Seq<char>, value: Seq<char>) -> Seq<
    char,
>;

/// The pairs that `url::Url::query_pairs` yields for the URL serialized as
/// `text`, each decoded, in the order of the query.
pub uninterp spec fn url_query_pairs(text: Seq<char>) -> Seq<(Seq<char>, Seq<char>)>;

/// The scheme that every location has.
pub open spec fn https() -> Seq<char> {
    seq!['h', 't', 't', 'p', 's']
}

/// `text` is a serialized URL: parsing it gives it back unchanged.
pub open spec fn is_url(text: Seq<char>) -> bool {
    url_parse(text) == Some(text)
}

/// `text` is a serialized URL whose scheme is `https`.
pub open spec fn is_https_url(text: Seq<char>) -> bool {
    is_url(text) && url_scheme(text) == https()
}

/// A URL of `text` bytes stays within the `url` crate's limit of `u32::MAX`
/// bytes when `extra` bytes of input are written into it, each of which may
/// take three bytes once percent-encoded, with up to three delimiters.
pub open spec fn has_room(text: nat, extra: nat) -> bool {
    text + 3 * extra + 3 <= u32::MAX
}

/// Decides [`has_room`] without overflow.
pub fn check_room(text: usize, extra: usize) -> (res: bool)
    ensures
        res == has_room(text as nat, extra as nat),
{
    if extra > 0x5555_5555 || text > 0xFFFF_FFFF {
        false
    } else {
        text as u64 + 3 * (extra as u64) + 3 <= 0xFFFF_FFFF
    }
}

/// Calls `url::Url::parse` and hands back the serialization of the URL or the
/// crate's error. Believed: the result is what [`url_parse`] and
/// [`url_parse_error`] name, and a serialization parses to itself, as the
/// crate's own invariant check (`Url::check_invariants`) demands of every
/// `Url`.
#[verifier::external_body]
pub(crate) fn parse_url(input: &str) -> (res: Result<String, url::ParseError>)
    ensures
        res matches Ok(text) ==> url_parse(input@) == Some(text@) && is_url(text@),
        res matches Err(error) ==> url_parse(input@) is None && error == url_parse_error(input@),
{
    url::Url::parse(input).map(String::from)
}

/// Calls `url::Url::scheme` on the URL that `text` serializes. Believed: the
/// result is what stands before the first colon of the serialization, which
/// is how the method finds it.
#[verifier::external_body]
pub(crate) fn scheme_of(text: &str) -> (res: String)
    requires
        is_url(text@),
    ensures
        res@ == url_scheme(text@),
{
    let url = url::Url::parse(text).expect("a serialized URL");
    String::from(url.scheme())
}

/// Calls `url::Url::path_segments` on the URL that `text` serializes and
/// copies out what it yields. Believed: the result is what
/// [`url_path_segments`] names; as the method splits the path at every `/`,
/// there is at least one segment and none holds a `/`; and a URL with the
/// scheme `https` always has segments, as its path always starts with `/`.
#[verifier::external_body]
pub(crate) fn path_segments_of(text: &str) -> (res: Option<Vec<String>>)
    requires
        is_url(text@),
    ensures
        res.deep_view() == url_path_segments(text@),
        res matches Some(segments) ==> segments.len() >= 1 && all_slash_free(
            segments.deep_view(),
        ),
        url_scheme(text@) == https() ==> res is Some,
{
    let url = url::Url::parse(text).expect("a serialized URL");
    url.path_segments().map(|segments| segments.map(String::from).collect())
}

/// Calls `url::Url::set_path` on the URL that `text` serializes. Believed: the
/// result is what [`url_with_path`] names, it is again a serialized URL, and
/// the scheme is untouched. The bound keeps the result within the length
/// that the crate can record. Believed too: a path of ASCII letters, digits,
/// `-`, `_`, `.` and slashes without a segment `.` or `..` is taken as it
/// is, behind one slash where it starts with none: the parser encodes none
/// of these characters, and `path_segments` splits the path behind its
/// first slash at every other.
#[verifier::external_body]
pub(crate) fn set_path(text: &str, path: &str) -> (res: String)
    requires
        is_https_url(text@),
        has_room(byte_len(text@), byte_len(path@)),
    ensures
        res@ == url_with_path(text@, path@),
        is_https_url(res@),
        plain_path(path@) ==> url_path_segments(res@) == Some(segments_of(unrooted(path@))),
{
    let mut url = url::Url::parse(text).expect("a serialized URL");
    url.set_path(path);
    String::from(url)
}

/// Calls `url::Url::set_query` with `Some(query)` on the URL that `text`
/// serializes. Believed: the result is what [`url_with_query`] names, it is
/// again a serialized URL, the scheme is untouched, and an empty query has
/// no pairs.
#[verifier::external_body]
pub(crate) fn set_query(text: &str, query: &str) -> (res: String)
    requires
        is_https_url(text@),
        has_room(byte_len(text@), byte_len(query@)),
    ensures
        res@ == url_with_query(text@, query@),
        is_https_url(res@),
        query@.len() == 0 ==> url_query_pairs(res@) == Seq::<(Seq<char>, Seq<char>)>::empty(),
{
    let mut url = url::Url::parse(text).expect("a serialized URL");
    url.set_query(Some(query));
    String::from(url)
}

/// Calls `url::Url::query_pairs` on the URL that `text` serializes and copies
/// out the pairs. Believed: the result is what [`url_query_pairs`] names.
#[verifier::external_body]
pub(crate) fn query_pairs_of(text: &str) -> (res: Vec<(String, String)>)
    requires
        is_url(text@),
    ensures
        res.deep_view() == url_query_pairs(text@),
{
    let url = url::Url::parse(text).expect("a serialized URL");
    url.query_pairs().map(|(key, value)| (key.into_owned(), value.into_owned())).collect()
}

/// Calls `url::Url::query_pairs_mut` and `append_pair` on the URL that `text`
/// serializes. Believed: the result is what [`url_with_pair`] names, it is
/// again a serialized URL, the scheme is untouched, and the pairs of the
/// query are those of before followed by the new one: the pair is written
/// behind the query in form encoding, which `query_pairs` decodes.
#[verifier::external_body]
pub(crate) fn append_pair(text: &str, key: &str, value: &str) -> (res: String)
    requires
        is_https_url(text@),
        has_room(byte_len(text@), byte_len(key@) + byte_len(value@)),
    ensures
        res@ == url_with_pair(text@, key@, value@),
        is_https_url(res@),
        url_query_pairs(res@) == url_query_pairs(text@).push((key@, value@)),
{
    let mut url = url::Url::parse(text).expect("a serialized URL");
    url.query_pairs_mut().append_pair(key, value);
    String::from(url)
}

/// A validated absolute URL with the scheme `https`, in serialized form.
#[derive(Debug)]
pub struct Location {
    text: String,
}

impl View for Location {
    type V = Seq<char>;

    closed spec fn view(&self) -> Seq<char> {
        self.text@
    }
}

impl Clone for Location {
    fn clone(&self) -> (res: Self)
        ensures
            res@ == self@,
    {
        proof {
            use_type_invariant(self);
        }
        Location { text: self.text.clone() }
    }
}

impl Location {
    #[verifier::type_invariant]
    closed spec fn well_formed(self) -> bool {
        is_https_url(self.text@)
    }

    /// Accepts the serialization of a URL whose scheme is `https`.
    pub(crate) fn from_text(text: String) -> (res: Location)
        requires
            is_https_url(text@),
        ensures
            res@ == text@,
    {
        Location { text }
    }

    /// The serialized URL.
    pub fn as_str(&self) -> (res: &str)
        ensures
            res@ == self@,
            is_https_url(self@),
    {
        proof {
            use_type_invariant(self);
        }
        self.text.as_str()
    }

    /// Length of the serialized URL in bytes.
    pub fn byte_len(&self) -> (res: usize)
        ensures
            res == byte_len(self@),
    {
        byte_length(self.text.as_str())
    }

    /// The segments of the path, as `url::Url::path_segments` gives them:
    /// at least one, and none with a `/` in it. A location always has them.
    pub fn path_segments(&self) -> (res: Vec<String>)
        ensures
            url_path_segments(self@) == Some(res.deep_view()),
            res.len() >= 1,
            all_slash_free(res.deep_view()),
    {
        path_segments_of(self.as_str()).unwrap()
    }

    /// The pairs of the query, decoded, in their order.
    pub fn query_pairs(&self) -> (res: Vec<(String, String)>)
        ensures
            res.deep_view() == url_query_pairs(self@),
    {
        query_pairs_of(self.as_str())
    }

    /// This location with its path replaced by `path`. A plain path is
    /// taken as it is.
    pub fn with_path(&self, path: &str) -> (res: Location)
        requires
            has_room(byte_len(self@), byte_len(path@)),
        ensures
            res@ == url_with_path(self@, path@),
            plain_path(path@) ==> url_path_segments(res@) == Some(segments_of(unrooted(path@))),
    {
        Location { text: set_path(self.as_str(), path) }
    }

    /// This location with its query replaced by `query`.
    pub fn with_query(&self, query: &str) -> (res: Location)
        requires
            has_room(byte_len(self@), byte_len(query@)),
        ensures
            res@ == url_with_query(self@, query@),
            query@.len() == 0 ==> url_query_pairs(res@) == Seq::<(Seq<char>, Seq<char>)>::empty(),
    {
        Location { text: set_query(self.as_str(), query) }
    }

    /// This location with one more pair at the end of its query.
    pub fn with_pair(&self, key: &str, value: &str) -> (res: Location)
        requires
            has_room(byte_len(self@), byte_len(key@) + byte_len(value@)),
        ensures
            res@ == url_with_pair(self@, key@, value@),
            url_query_pairs(res@) == url_query_pairs(self@).push((key@, value@)),
    {
        Location { text: append_pair(self.as_str(), key, value) }
    }
}

} // verus!
