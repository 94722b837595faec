//! A place under construction: a database and the URL that is being built
//! below it, step by step.

use crate::firebase::{
    child_location, child_of, is_navigable, navigable, reached_by_at, Firebase,
};
use crate::location::{url_path_segments, Location};
use crate::message::{Method, Request};
use crate::params::{ParamValue, Paramable};
use crate::path::{canonical, child_path, lemma_child_path_canonical};
use crate::request::Requestable;
use crate::utils::make_request;
use vstd::prelude::*;

verus! {

/// A URL that is being built below a database, one path after another.
#[derive(Debug)]
pub struct WithQueries<'fb> {
    pub firebase: &'fb Firebase,
    pub uri: Location,
}

/// A URL below a database that parameters are being added to.
#[derive(Debug)]
pub struct WithParams<'fb> {
    pub firebase: &'fb Firebase,
    pub uri: Location,
}

impl<'fb> WithQueries<'fb> {
    /// Whether the child `path` can be reached from the URL built so far.
    pub open spec fn can_navigate(&self, path: Seq<char>) -> bool {
        navigable(self.uri@, path)
    }

    /// Decides [`WithQueries::can_navigate`].
    pub fn reaches(&self, path: &str) -> (res: bool)
        ensures
            res == self.can_navigate(path@),
    {
        is_navigable(&self.uri, path)
    }

    /// Goes down to the child `path`: the URL becomes that of the child,
    /// whose path ends with `.json` exactly once, and the database stays the
    /// same.
    pub fn at(&mut self, path: &str) -> (res: &mut Self)
        requires
            old(self).can_navigate(path@),
        ensures
            res.firebase == old(self).firebase,
            res.uri@ == child_location(
                old(self).uri@,
                url_path_segments(old(self).uri@).unwrap(),
                path@,
            ),
            reached_by_at(old(self).uri@, path@, res.uri@),
            canonical(child_path(url_path_segments(old(self).uri@).unwrap(), path@)),
            *final(self) == *final(res),
    {
        let segments = self.uri.path_segments();
        proof {
            lemma_child_path_canonical(segments.deep_view(), path@);
        }
        self.uri = child_of(&self.uri, &segments, path).unwrap();
        self
    }

    /// Goes down to the child `path` where it can be reached, and says
    /// whether it did; otherwise nothing changes.
    pub fn try_at(&mut self, path: &str) -> (res: bool)
        ensures
            res == old(self).can_navigate(path@),
            final(self).firebase == old(self).firebase,
            res ==> final(self).uri@ == child_location(
                old(self).uri@,
                url_path_segments(old(self).uri@).unwrap(),
                path@,
            ),
            !res ==> final(self).uri@ == old(self).uri@,
    {
        if self.reaches(path) {
            let _ = self.at(path);
            true
        } else {
            false
        }
    }

    /// Ends the construction and gives back the database.
    pub fn finish(self) -> (res: &'fb Firebase)
        ensures
            res == self.firebase,
    {
        self.firebase
    }

    /// The URL built so far, ready to take parameters.
    pub fn with_params(&self) -> (res: WithParams<'fb>)
        ensures
            res.firebase == self.firebase,
            res.uri@ == self.uri@,
    {
        WithParams { firebase: self.firebase, uri: self.uri.clone() }
    }
}

impl Requestable for WithQueries<'_> {
    open spec fn target(&self) -> Seq<char> {
        self.uri@
    }

    fn request(&self, method: Method, data: Option<serde_json::Value>) -> (res: Request) {
        make_request(&self.uri, method, data)
    }
}

impl Paramable for WithParams<'_> {
    open spec fn location(&self) -> Seq<char> {
        self.uri@
    }

    fn location_len(&self) -> (res: usize) {
        self.uri.byte_len()
    }

    fn add_param<T: ParamValue>(&self, key: &str, value: T) -> (res: Self)
        ensures
            res.firebase == self.firebase,
    {
        let text = value.to_param();
        WithParams { firebase: self.firebase, uri: self.uri.with_pair(key, text.as_str()) }
    }
}

} // verus!
