//! The handle that a caller holds: a place in the database.

use crate::constants::AUTH;
use crate::errors::{UrlParseError, UrlParseResult};
use crate::location::{
    check_room, has_room, https, is_url, url_parse, url_parse_error, url_path_segments,
    url_query_pairs, url_scheme, url_with_pair, url_with_path, url_with_query, Location,
};
use crate::message::{Method, Request};
use crate::params::{ParamValue, Paramable};
use crate::path::{
    bare, bare_all, canonical, child_path, json_suffix, lemma_child_path_canonical,
    lemma_child_segments, lemma_plain_child, lemma_reached_is_a_start, make_child_path,
    plain_path, plain_segment, plain_start, plain_steps, reached, segments_of, slash_free, stem,
    unrooted,
};
use crate::request::Requestable;
use crate::text::{byte_len, byte_length};
use crate::utils::{canonical_input, check_uri, location_of, make_request};
use vstd::prelude::*;

verus! {

/// The location `text` with the credential `key`: the query is emptied and
/// the pair of `auth` and the key is added to it.
pub open spec fn authorized(text: Seq<char>, key: Seq<char>) -> Seq<char> {
    url_with_pair(url_with_query(text, Seq::empty()), AUTH@, key)
}

/// The URL `text` has room for the credential `key`: both steps of
/// [`authorized`] stay within what the parser can record.
pub open spec fn can_authorize(text: Seq<char>, key: Seq<char>) -> bool {
    has_room(byte_len(text), 0) && has_room(
        byte_len(url_with_query(text, Seq::empty())),
        byte_len(AUTH@) + byte_len(key),
    )
}

/// The location with the credential `key` as the one pair of its query, or
/// `None` where [`can_authorize`] does not hold.
pub fn authorize(location: &Location, key: &str) -> (res: Option<Location>)
    ensures
        res is Some <==> can_authorize(location@, key@),
        res matches Some(with_key) ==> {
            &&& with_key@ == authorized(location@, key@)
            &&& url_query_pairs(with_key@) == seq![(AUTH@, key@)]
        },
{
    proof {
        reveal_strlit("");
        assert(""@ =~= Seq::<char>::empty());
    }
    if !check_room(location.byte_len(), 0) {
        return None;
    }
    let emptied = location.with_query("");
    let key_len = byte_length(key);
    let name_len = byte_length(AUTH);
    if name_len > usize::MAX - key_len || !check_room(emptied.byte_len(), name_len + key_len) {
        return None;
    }
    let with_key = emptied.with_pair(AUTH, key);
    assert(url_query_pairs(with_key@) =~= seq![(AUTH@, key@)]);
    Some(with_key)
}

/// The location of the child `path` below the location `parent`, whose path
/// has `segments`.
pub open spec fn child_location(parent: Seq<char>, segments: Seq<Seq<char>>, path: Seq<char>) -> Seq<
    char,
> {
    url_with_path(parent, child_path(segments, path))
}

/// The location `child` has the path that navigation from `parent` by `path`
/// sets for it, where that path is plain: a URL takes a plain path as it is.
pub open spec fn reached_by_at(parent: Seq<char>, path: Seq<char>, child: Seq<char>) -> bool {
    let set = child_path(url_path_segments(parent).unwrap(), path);
    plain_path(set) ==> url_path_segments(child) == Some(segments_of(unrooted(set)))
}

/// Navigation over URLs: where `texts` are the locations of a walk, each
/// reached from the one before by [`Firebase::at`] with the path of the same
/// place in `paths`, the last location has the segments that the first had,
/// then one for each path in their order. None is dropped, none stands
/// twice, and only the last of all carries the suffix, whether or not a path
/// carried it when it was given. This holds of plain segments; an empty
/// first segment stands for the slash of a path and is kept only as that.
pub proof fn lemma_navigation_over_urls(texts: Seq<Seq<char>>, paths: Seq<Seq<char>>)
    requires
        paths.len() >= 1,
        texts.len() == paths.len() + 1,
        url_path_segments(texts[0]) is Some,
        plain_start(url_path_segments(texts[0]).unwrap()),
        plain_steps(paths),
        forall|k: int|
            0 <= k < paths.len() ==> reached_by_at(#[trigger] texts[k], paths[k], texts[k + 1]),
    ensures
        url_path_segments(texts.last()) == Some(
            reached(url_path_segments(texts[0]).unwrap(), paths),
        ),
    decreases paths.len(),
{
    let root = url_path_segments(texts[0]).unwrap();
    let n = paths.len() as int;
    let path = paths.last();
    let last = bare(path) + json_suffix();
    assert(plain_steps(paths) && paths[n - 1] == path);
    assert(reached_by_at(texts[n - 1], paths[n - 1], texts[n - 1 + 1]));
    if n == 1 {
        lemma_plain_child(root, path);
        assert(bare_all(paths.drop_last()) =~= Seq::<Seq<char>>::empty());
        assert(stem(root).push(last) =~= reached(root, paths));
    } else {
        let earlier = paths.drop_last();
        let before = texts.drop_last();
        assert(before[0] == texts[0]);
        assert forall|k: int| 0 <= k < earlier.len() implies reached_by_at(
            #[trigger] before[k],
            earlier[k],
            before[k + 1],
        ) by {
            assert(before[k] == texts[k] && before[k + 1] == texts[k + 1]);
            assert(earlier[k] == paths[k]);
            assert(reached_by_at(texts[k], paths[k], texts[k + 1]));
        }
        assert forall|k: int| 0 <= k < earlier.len() implies plain_segment(#[trigger] earlier[k])
            && bare(earlier[k]).len() > 0 by {
            assert(earlier[k] == paths[k]);
        }
        lemma_navigation_over_urls(before, earlier);
        let so_far = reached(root, earlier);
        assert(before.last() == texts[n - 1]);
        lemma_reached_is_a_start(root, earlier);
        lemma_plain_child(so_far, path);
        assert(stem(so_far) == bare_all(so_far));
        assert(bare_all(earlier) =~= bare_all(paths.drop_last()));
        assert(stem(so_far).push(last) =~= reached(root, paths));
    }
}

/// Whether the child `path` can be reached from the location `parent`: the
/// URL of the child stays within what the parser can record. A location
/// always has the path segments that navigation starts from.
pub open spec fn navigable(parent: Seq<char>, path: Seq<char>) -> bool {
    has_room(byte_len(parent), byte_len(child_path(url_path_segments(parent).unwrap(), path)))
}

/// The location of the child `path` below `parent`, whose path has the given
/// `segments`: the segments without their suffix, then `path`, then `.json`.
/// `None` where the URL would grow beyond what the parser can record.
pub fn child_of(parent: &Location, segments: &Vec<String>, path: &str) -> (res: Option<Location>)
    ensures
        res is Some <==> has_room(
            byte_len(parent@),
            byte_len(child_path(segments.deep_view(), path@)),
        ),
        res matches Some(child) ==> child@ == child_location(
            parent@,
            segments.deep_view(),
            path@,
        ),
        res matches Some(child) ==> (plain_path(child_path(segments.deep_view(), path@))
            ==> url_path_segments(child@) == Some(
            segments_of(unrooted(child_path(segments.deep_view(), path@))),
        )),
{
    let new_path = make_child_path(segments, path);
    if check_room(parent.byte_len(), byte_length(new_path.as_str())) {
        Some(parent.with_path(new_path.as_str()))
    } else {
        None
    }
}

/// Decides [`navigable`].
pub fn is_navigable(parent: &Location, path: &str) -> (res: bool)
    ensures
        res == navigable(parent@, path@),
{
    let segments = parent.path_segments();
    let new_path = make_child_path(&segments, path);
    check_room(parent.byte_len(), byte_length(new_path.as_str()))
}

/// Represents a place in a database: a URL with the scheme `https`.
#[derive(Debug)]
pub struct Firebase {
    base_uri: Location,
}

impl View for Firebase {
    type V = Seq<char>;

    closed spec fn view(&self) -> Seq<char> {
        self.base_uri@
    }
}

impl Firebase {
    /// Opens the database at `uri`. Succeeds exactly where `uri`, without
    /// its trailing slashes, parses as an absolute URL with the scheme
    /// `https`; where it does not parse, the parser's error is handed on.
    pub fn new(uri: &str) -> (res: UrlParseResult<Firebase>)
        ensures
            match url_parse(canonical_input(uri@)) {
                None => res == Err::<Firebase, UrlParseError>(
                    UrlParseError::Parser(url_parse_error(canonical_input(uri@))),
                ),
                Some(text) => if url_scheme(text) == https() {
                    res matches Ok(firebase) && firebase@ == text
                } else {
                    res == Err::<Firebase, UrlParseError>(UrlParseError::NotHttps)
                },
            },
            res matches Ok(firebase) ==> location_of(uri@) == Some(firebase@),
            res is Err ==> location_of(uri@) is None,
    {
        match check_uri(uri) {
            Ok(uri) => Ok(Firebase { base_uri: uri }),
            Err(err) => Err(err),
        }
    }

    /// Whether the address `uri` can be opened with the credential `key`:
    /// either it is refused anyway, or its URL has room for the credential.
    pub open spec fn can_open_with(uri: Seq<char>, key: Seq<char>) -> bool {
        location_of(uri) matches Some(text) ==> can_authorize(text, key)
    }

    /// Opens the database at `uri` with a credential: fails as
    /// [`Firebase::new`] does, and otherwise the query of the URL is the one
    /// pair of `auth` and the key, whatever characters the key holds.
    pub fn auth(uri: &str, auth_key: &str) -> (res: UrlParseResult<Firebase>)
        requires
            Self::can_open_with(uri@, auth_key@),
        ensures
            match url_parse(canonical_input(uri@)) {
                None => res == Err::<Firebase, UrlParseError>(
                    UrlParseError::Parser(url_parse_error(canonical_input(uri@))),
                ),
                Some(text) => if url_scheme(text) == https() {
                    &&& res matches Ok(firebase)
                    &&& firebase@ == authorized(text, auth_key@)
                    &&& url_query_pairs(firebase@) == seq![(AUTH@, auth_key@)]
                } else {
                    res == Err::<Firebase, UrlParseError>(UrlParseError::NotHttps)
                },
            },
    {
        match check_uri(uri) {
            Ok(uri) => Ok(Firebase { base_uri: authorize(&uri, auth_key).unwrap() }),
            Err(err) => Err(err),
        }
    }

    /// Opens the database at `uri` with a credential where
    /// [`Firebase::can_open_with`] holds, as [`Firebase::auth`] does; `None`
    /// where it does not hold.
    pub fn try_auth(uri: &str, auth_key: &str) -> (res: Option<UrlParseResult<Firebase>>)
        ensures
            res is Some <==> Self::can_open_with(uri@, auth_key@),
            res matches Some(opened) ==> match url_parse(canonical_input(uri@)) {
                None => opened == Err::<Firebase, UrlParseError>(
                    UrlParseError::Parser(url_parse_error(canonical_input(uri@))),
                ),
                Some(text) => if url_scheme(text) == https() {
                    &&& opened matches Ok(firebase)
                    &&& firebase@ == authorized(text, auth_key@)
                    &&& url_query_pairs(firebase@) == seq![(AUTH@, auth_key@)]
                } else {
                    opened == Err::<Firebase, UrlParseError>(UrlParseError::NotHttps)
                },
            },
    {
        let fits = match check_uri(uri) {
            Ok(uri) => authorize(&uri, auth_key).is_some(),
            Err(_) => true,
        };
        if fits {
            Some(Firebase::auth(uri, auth_key))
        } else {
            None
        }
    }

    /// The URL of this place, serialized. Its scheme is `https`, whatever
    /// was done to reach this place.
    pub fn base_uri(&self) -> (res: String)
        ensures
            res@ == self@,
            is_url(self@),
            url_scheme(self@) == https(),
    {
        String::from_str(self.base_uri.as_str())
    }

    /// The location of this place.
    pub fn as_location(&self) -> (res: &Location)
        ensures
            res@ == self@,
    {
        &self.base_uri
    }

    /// Whether the child `path` can be reached from here.
    pub open spec fn can_navigate(&self, path: Seq<char>) -> bool {
        navigable(self@, path)
    }

    /// Decides [`Firebase::can_navigate`].
    pub fn reaches(&self, path: &str) -> (res: bool)
        ensures
            res == self.can_navigate(path@),
    {
        is_navigable(&self.base_uri, path)
    }

    /// The place of the child `path` below this one, or `None` where
    /// [`Firebase::can_navigate`] does not hold.
    pub fn try_at(&self, path: &str) -> (res: Option<Firebase>)
        ensures
            res is Some <==> self.can_navigate(path@),
            res matches Some(child) ==> child@ == child_location(
                self@,
                url_path_segments(self@).unwrap(),
                path@,
            ),
            res matches Some(child) ==> reached_by_at(self@, path@, child@),
    {
        if self.reaches(path) {
            Some(self.at(path))
        } else {
            None
        }
    }

    /// The place of the child `path` below this one, given the segments of
    /// this place's path: the segments without their suffix, then `path`,
    /// then `.json`. `None` where the URL would grow beyond what the parser
    /// can record.
    pub fn at_segments(&self, segments: &Vec<String>, path: &str) -> (res: Option<Firebase>)
        ensures
            res is Some <==> has_room(
                byte_len(self@),
                byte_len(child_path(segments.deep_view(), path@)),
            ),
            res matches Some(child) ==> child@ == child_location(
                self@,
                segments.deep_view(),
                path@,
            ),
            res matches Some(child) ==> (plain_path(child_path(segments.deep_view(), path@))
                ==> url_path_segments(child@) == Some(
                segments_of(unrooted(child_path(segments.deep_view(), path@))),
            )),
    {
        match child_of(&self.base_uri, segments, path) {
            Some(base_uri) => Some(Firebase { base_uri }),
            None => None,
        }
    }

    /// The place of the child `path` below this one. This place is left as
    /// it is, and the child depends on nothing but this place and `path`.
    /// Where the path that is set for the child is plain, the URL of the
    /// child has its segments ([`reached_by_at`]).
    /// The path that is set for the child ends with `.json` exactly once.
    /// Where `path` is a single segment, that path has the segments of this
    /// place, each without the suffix, and then `path`, which alone ends
    /// with `.json`.
    pub fn at(&self, path: &str) -> (res: Firebase)
        requires
            self.can_navigate(path@),
        ensures
            res@ == child_location(self@, url_path_segments(self@).unwrap(), path@),
            reached_by_at(self@, path@, res@),
            canonical(child_path(url_path_segments(self@).unwrap(), path@)),
            slash_free(path@) ==> segments_of(
                child_path(url_path_segments(self@).unwrap(), path@),
            ) == bare_all(url_path_segments(self@).unwrap()).push(bare(path@) + json_suffix()),
    {
        let segments = self.base_uri.path_segments();
        proof {
            lemma_child_path_canonical(segments.deep_view(), path@);
            if slash_free(path@) {
                lemma_child_segments(segments.deep_view(), path@);
            }
        }
        self.at_segments(&segments, path).unwrap()
    }
}

impl Requestable for Firebase {
    open spec fn target(&self) -> Seq<char> {
        self@
    }

    fn request(&self, method: Method, data: Option<serde_json::Value>) -> (res: Request) {
        make_request(&self.base_uri, method, data)
    }
}

impl Paramable for Firebase {
    open spec fn location(&self) -> Seq<char> {
        self@
    }

    fn location_len(&self) -> (res: usize) {
        self.base_uri.byte_len()
    }

    fn add_param<T: ParamValue>(&self, key: &str, value: T) -> (res: Self) {
        let text = value.to_param();
        Firebase { base_uri: self.base_uri.with_pair(key, text.as_str()) }
    }
}

} // verus!
