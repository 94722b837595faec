//! The path of a location: segments joined by `/`, the last one carrying the
//! `.json` suffix, and no other segment carrying it.

use crate::text::{
    ends_with, lemma_trimmed_has_no_suffix, lemma_trimmed_is_prefix, lemma_trimmed_of_appended,
    lemma_trimmed_twice, trim_end_str, trimmed_suffix,
};
use vstd::prelude::*;
use vstd::string::StringExecFns;

verus! {

/// The suffix that the last path segment of every request carries.
pub const JSON_SUFFIX: &'static str = ".json";

/// [`JSON_SUFFIX`], character by character.
pub open spec fn json_suffix() -> Seq<char> {
    seq!['.', 'j', 's', 'o', 'n']
}

/// `segment` with every trailing `.json` removed.
pub open spec fn bare(segment: Seq<char>) -> Seq<char> {
    trimmed_suffix(segment, json_suffix())
}

/// The segments of a parent, each bare and each followed by `/`.
pub open spec fn parent_prefix(segments: Seq<Seq<char>>) -> Seq<char>
    decreases segments.len(),
{
    if segments.len() == 0 {
        Seq::empty()
    } else {
        parent_prefix(segments.drop_last()) + bare(segments.last()) + seq!['/']
    }
}

/// The path of the child `path` below a parent with these `segments`: the
/// parent's segments without their suffix, then `path`, then one suffix.
pub open spec fn child_path(segments: Seq<Seq<char>>, path: Seq<char>) -> Seq<char> {
    bare(parent_prefix(segments) + path) + json_suffix()
}

/// Computes [`child_path`]. The result ends with `.json` exactly once.
pub fn make_child_path(segments: &Vec<String>, path: &str) -> (res: String)
    ensures
        res@ == child_path(segments.deep_view(), path@),
        canonical(res@),
{
    proof {
        reveal_strlit(".json");
        reveal_strlit("/");
        lemma_child_path_canonical(segments.deep_view(), path@);
    }
    let ghost all = segments.deep_view();
    let mut prefix = String::new();
    let mut i: usize = 0;
    assert(all.take(0) == Seq::<Seq<char>>::empty());
    while i < segments.len()
        invariant
            i <= segments.len(),
            all == segments.deep_view(),
            prefix@ == parent_prefix(all.take(i as int)),
            JSON_SUFFIX@ == json_suffix(),
            "/"@ == seq!['/'],
        decreases segments.len() - i,
    {
        let segment = trim_end_str(segments[i].as_str(), JSON_SUFFIX);
        assert(all.take(i + 1).drop_last() == all.take(i as int));
        assert(all.take(i + 1).last() == segments[i as int]@);
        prefix.append(segment);
        prefix.append("/");
        i = i + 1;
    }
    assert(all.take(i as int) == all);
    prefix.append(path);
    let mut res = String::from_str(trim_end_str(prefix.as_str(), JSON_SUFFIX));
    res.append(JSON_SUFFIX);
    res
}

/// `s` holds no `/`.
pub open spec fn slash_free(s: Seq<char>) -> bool {
    forall|i: int| 0 <= i < s.len() ==> s[i] != '/'
}

/// Every one of `segments` holds no `/`.
pub open spec fn all_slash_free(segments: Seq<Seq<char>>) -> bool {
    forall|i: int| 0 <= i < segments.len() ==> slash_free(#[trigger] segments[i])
}

/// Every one of `segments`, bare.
pub open spec fn bare_all(segments: Seq<Seq<char>>) -> Seq<Seq<char>> {
    segments.map_values(|segment: Seq<char>| bare(segment))
}

/// The segments of `path`: what stands between its slashes. There is always
/// at least one, which may be empty.
pub open spec fn segments_of(path: Seq<char>) -> Seq<Seq<char>>
    decreases path.len(),
{
    if path.len() == 0 {
        seq![Seq::empty()]
    } else if path.last() == '/' {
        segments_of(path.drop_last()).push(Seq::empty())
    } else {
        let before = segments_of(path.drop_last());
        before.drop_last().push(before.last().push(path.last()))
    }
}

/// An ASCII letter or digit, `-`, `_` or `.`: characters that a URL holds
/// in its path as they are.
pub open spec fn plain_char(c: char) -> bool {
    ('a' <= c && c <= 'z') || ('A' <= c && c <= 'Z') || ('0' <= c && c <= '9') || c == '-' || c
        == '_' || c == '.'
}

/// The segments `.` and `..`, which a URL does not keep in its path.
pub open spec fn dot_segment(segment: Seq<char>) -> bool {
    segment == seq!['.'] || segment == seq!['.', '.']
}

/// A path of plain characters and slashes, none of whose segments is `.` or
/// `..`: a path that a URL takes as it is.
pub open spec fn plain_path(path: Seq<char>) -> bool {
    &&& forall|i: int| 0 <= i < path.len() ==> path[i] == '/' || plain_char(#[trigger] path[i])
    &&& forall|i: int|
        0 <= i < segments_of(path).len() ==> !dot_segment(#[trigger] segments_of(path)[i])
}

/// A segment of plain characters whose bare form is neither `.` nor `..`.
pub open spec fn plain_segment(segment: Seq<char>) -> bool {
    &&& forall|i: int| 0 <= i < segment.len() ==> plain_char(#[trigger] segment[i])
    &&& !dot_segment(bare(segment))
}

/// Every one of `segments` is a plain segment.
pub open spec fn all_plain(segments: Seq<Seq<char>>) -> bool {
    forall|i: int| 0 <= i < segments.len() ==> plain_segment(#[trigger] segments[i])
}

/// What navigation keeps of the segments of a parent: each of them, bare,
/// but for an empty first one, which stands for the slash that every path
/// starts with.
pub open spec fn stem(segments: Seq<Seq<char>>) -> Seq<Seq<char>> {
    if segments.len() > 0 && bare(segments[0]).len() == 0 {
        bare_all(segments).skip(1)
    } else {
        bare_all(segments)
    }
}

/// `path` without the one slash that it may start with.
pub open spec fn unrooted(path: Seq<char>) -> Seq<char> {
    if path.len() > 0 && path[0] == '/' {
        path.skip(1)
    } else {
        path
    }
}

/// A path is canonical where it ends with `.json` exactly once.
pub open spec fn canonical(path: Seq<char>) -> bool {
    ends_with(path, json_suffix()) && !ends_with(
        path.take(path.len() - json_suffix().len()),
        json_suffix(),
    )
}

/// The segments after navigating from a path with `segments` through
/// `paths`, one after the other, where each step reads the segments of the
/// path that the step before has made.
pub open spec fn walk(segments: Seq<Seq<char>>, paths: Seq<Seq<char>>) -> Seq<Seq<char>>
    decreases paths.len(),
{
    if paths.len() == 0 {
        segments
    } else {
        segments_of(child_path(walk(segments, paths.drop_last()), paths.last()))
    }
}

/// Every path has a segment.
pub proof fn lemma_segments_exist(path: Seq<char>)
    ensures
        segments_of(path).len() >= 1,
    decreases path.len(),
{
    if path.len() > 0 {
        lemma_segments_exist(path.drop_last());
    }
}

/// Text without a slash that is written behind a path lengthens its last
/// segment and touches no other.
pub proof fn lemma_segments_of_appended(path: Seq<char>, tail: Seq<char>)
    requires
        slash_free(tail),
    ensures
        segments_of(path).len() >= 1,
        segments_of(path + tail) == segments_of(path).drop_last().push(
            segments_of(path).last() + tail,
        ),
    decreases tail.len(),
{
    lemma_segments_exist(path);
    let segments = segments_of(path);
    if tail.len() == 0 {
        assert(path + tail == path);
        assert(segments.last() + tail == segments.last());
        assert(segments.drop_last().push(segments.last()) == segments);
    } else {
        let shorter = tail.drop_last();
        lemma_segments_of_appended(path, shorter);
        assert((path + tail).drop_last() == path + shorter);
        assert((path + tail).last() == tail.last());
        let before = segments_of(path + shorter);
        assert(before.drop_last() == segments.drop_last());
        assert(before.last().push(tail.last()) == segments.last() + tail);
    }
}

/// A bare segment without a slash is still without one, and so is that
/// segment with the suffix behind it.
pub proof fn lemma_bare_slash_free(segment: Seq<char>)
    requires
        slash_free(segment),
    ensures
        slash_free(bare(segment)),
        slash_free(bare(segment) + json_suffix()),
{
    lemma_trimmed_is_prefix(segment, json_suffix());
}

/// Behind a slash, or at the very start, the suffix is trimmed from what
/// follows and from nothing before it.
pub proof fn lemma_bare_behind_slash(prefix: Seq<char>, path: Seq<char>)
    requires
        prefix.len() == 0 || prefix.last() == '/',
    ensures
        bare(prefix + path) == prefix + bare(path),
    decreases path.len(),
{
    let suffix = json_suffix();
    let whole = prefix + path;
    if ends_with(path, suffix) {
        let shorter = path.take(path.len() - suffix.len());
        assert(whole.skip(whole.len() - suffix.len()) == path.skip(path.len() - suffix.len()));
        assert(whole.take(whole.len() - suffix.len()) == prefix + shorter);
        lemma_bare_behind_slash(prefix, shorter);
    } else if whole.len() >= suffix.len() {
        let tail = whole.skip(whole.len() - suffix.len());
        if path.len() >= suffix.len() {
            assert(tail == path.skip(path.len() - suffix.len()));
        } else {
            let at = suffix.len() - path.len() - 1;
            assert(tail[at] == prefix.last());
            assert(suffix[at] != '/');
        }
        assert(!ends_with(whole, suffix));
    }
}

/// The parent's part of a child's path is empty or ends with a slash, and
/// its segments are those of the parent, bare, and an empty one behind them.
pub proof fn lemma_parent_prefix_segments(segments: Seq<Seq<char>>)
    requires
        all_slash_free(segments),
    ensures
        parent_prefix(segments).len() == 0 || parent_prefix(segments).last() == '/',
        segments_of(parent_prefix(segments)) == bare_all(segments).push(Seq::empty()),
    decreases segments.len(),
{
    if segments.len() == 0 {
        assert(bare_all(segments).push(Seq::empty()) =~= seq![Seq::<char>::empty()]);
    } else {
        let parents = segments.drop_last();
        lemma_parent_prefix_segments(parents);
        lemma_bare_slash_free(segments.last());
        let named = parent_prefix(parents) + bare(segments.last());
        lemma_segments_of_appended(parent_prefix(parents), bare(segments.last()));
        assert(Seq::<char>::empty() + bare(segments.last()) == bare(segments.last()));
        assert(bare_all(parents).push(Seq::empty()).drop_last() == bare_all(parents));
        assert(segments_of(named) == bare_all(parents).push(bare(segments.last())));
        assert(bare_all(parents).push(bare(segments.last())) =~= bare_all(segments));
        assert((named + seq!['/']).drop_last() == named);
    }
}

/// One step of navigation keeps every segment of the parent, bare, and
/// appends the new one, which alone carries the suffix.
pub proof fn lemma_child_segments(segments: Seq<Seq<char>>, path: Seq<char>)
    requires
        all_slash_free(segments),
        slash_free(path),
    ensures
        child_path(segments, path) == parent_prefix(segments) + bare(path) + json_suffix(),
        segments_of(child_path(segments, path)) == bare_all(segments).push(
            bare(path) + json_suffix(),
        ),
        canonical(child_path(segments, path)),
{
    let prefix = parent_prefix(segments);
    let last = bare(path) + json_suffix();
    lemma_parent_prefix_segments(segments);
    lemma_bare_behind_slash(prefix, path);
    lemma_bare_slash_free(path);
    assert(prefix + bare(path) + json_suffix() == prefix + last);
    lemma_segments_of_appended(prefix, last);
    assert(Seq::<char>::empty() + last == last);
    assert(bare_all(segments).push(Seq::empty()).drop_last() == bare_all(segments));
    lemma_child_path_canonical(segments, path);
}

/// The path of a child ends with `.json`, and with one only.
pub proof fn lemma_child_path_canonical(segments: Seq<Seq<char>>, path: Seq<char>)
    ensures
        canonical(child_path(segments, path)),
{
    let stem = bare(parent_prefix(segments) + path);
    let whole = stem + json_suffix();
    lemma_trimmed_has_no_suffix(parent_prefix(segments) + path, json_suffix());
    assert(whole.skip(whole.len() - json_suffix().len()) == json_suffix());
    assert(whole.take(whole.len() - json_suffix().len()) == stem);
}

/// A path that starts with a slash has an empty first segment, and behind it
/// the segments of the rest.
pub proof fn lemma_segments_behind_slash(path: Seq<char>)
    requires
        path.len() > 0,
        path[0] == '/',
    ensures
        segments_of(path) == seq![Seq::<char>::empty()] + segments_of(path.skip(1)),
    decreases path.len(),
{
    let rest = path.skip(1);
    if rest.len() == 0 {
        assert(path.drop_last() == Seq::<char>::empty());
        assert(segments_of(path.drop_last()) == seq![Seq::<char>::empty()]);
        assert(segments_of(rest) == seq![Seq::<char>::empty()]);
        assert(segments_of(path) =~= seq![Seq::<char>::empty()] + segments_of(rest));
    } else {
        let shorter = path.drop_last();
        assert(shorter.skip(1) == rest.drop_last());
        assert(path.last() == rest.last());
        lemma_segments_behind_slash(shorter);
        lemma_segments_exist(rest.drop_last());
        let before = segments_of(rest.drop_last());
        let whole = seq![Seq::<char>::empty()] + before;
        assert(segments_of(shorter) == whole);
        if path.last() == '/' {
            assert(whole.push(Seq::empty()) =~= seq![Seq::<char>::empty()] + before.push(
                Seq::empty(),
            ));
        } else {
            assert(whole.last() == before.last());
            assert(whole.drop_last() =~= seq![Seq::<char>::empty()] + before.drop_last());
            assert(whole.drop_last().push(whole.last().push(path.last())) =~= seq![
                Seq::<char>::empty(),
            ] + before.drop_last().push(before.last().push(rest.last())));
        }
    }
}

/// The parent's part of a child's path starts as the first segment does:
/// with a slash where that segment is empty when bare, and else with its
/// first character.
pub proof fn lemma_parent_prefix_start(segments: Seq<Seq<char>>)
    requires
        segments.len() >= 1,
    ensures
        parent_prefix(segments).len() > 0,
        bare(segments[0]).len() == 0 ==> parent_prefix(segments)[0] == '/',
        bare(segments[0]).len() > 0 ==> parent_prefix(segments)[0] == bare(segments[0])[0],
    decreases segments.len(),
{
    let parents = segments.drop_last();
    if parents.len() == 0 {
        assert(parent_prefix(parents).len() == 0);
        assert(segments.last() == segments[0]);
    } else {
        lemma_parent_prefix_start(parents);
        assert(parents[0] == segments[0]);
    }
}

/// The parent's part of a child's path holds plain characters and slashes
/// only, where the segments are plain.
pub proof fn lemma_parent_prefix_is_plain(segments: Seq<Seq<char>>)
    requires
        all_plain(segments),
    ensures
        forall|i: int|
            0 <= i < parent_prefix(segments).len() ==> parent_prefix(segments)[i] == '/'
                || plain_char(#[trigger] parent_prefix(segments)[i]),
    decreases segments.len(),
{
    if segments.len() > 0 {
        let parents = segments.drop_last();
        assert forall|i: int| 0 <= i < parents.len() implies plain_segment(
            #[trigger] parents[i],
        ) by {
            assert(parents[i] == segments[i]);
        }
        lemma_parent_prefix_is_plain(parents);
        assert(plain_segment(segments[segments.len() - 1]));
        lemma_trimmed_is_prefix(segments.last(), json_suffix());
        let named = bare(segments.last());
        let before = parent_prefix(parents);
        let prefix = parent_prefix(segments);
        assert(prefix == before + named + seq!['/']);
        assert forall|i: int| 0 <= i < prefix.len() implies prefix[i] == '/' || plain_char(
            #[trigger] prefix[i],
        ) by {
            if i < before.len() {
                assert(prefix[i] == before[i]);
            } else if i < before.len() + named.len() {
                assert(prefix[i] == named[i - before.len()]);
                assert(named[i - before.len()] == segments.last()[i - before.len()]);
            } else {
                assert(prefix[i] == '/');
            }
        }
    }
}

/// Plain segments hold no slash.
pub proof fn lemma_plain_is_slash_free(segments: Seq<Seq<char>>)
    requires
        all_plain(segments),
    ensures
        all_slash_free(segments),
{
    assert forall|i: int| 0 <= i < segments.len() implies slash_free(#[trigger] segments[i]) by {
        assert(plain_segment(segments[i]));
    }
}

/// Below a parent with plain segments, the path of a plain child is a plain
/// path, and without the slash that it may start with it has the segments
/// of [`stem`] and then the new one, which alone carries the suffix.
pub proof fn lemma_plain_child(segments: Seq<Seq<char>>, path: Seq<char>)
    requires
        segments.len() >= 1,
        all_plain(segments),
        plain_segment(path),
    ensures
        plain_path(child_path(segments, path)),
        segments_of(unrooted(child_path(segments, path))) == stem(segments).push(
            bare(path) + json_suffix(),
        ),
{
    let prefix = parent_prefix(segments);
    let last = bare(path) + json_suffix();
    let child = child_path(segments, path);
    lemma_plain_is_slash_free(segments);
    lemma_child_segments(segments, path);
    lemma_parent_prefix_is_plain(segments);
    lemma_parent_prefix_start(segments);
    lemma_trimmed_is_prefix(path, json_suffix());
    assert(child == prefix + bare(path) + json_suffix());
    assert forall|i: int| 0 <= i < child.len() implies child[i] == '/' || plain_char(
        #[trigger] child[i],
    ) by {
        if i < prefix.len() {
            assert(child[i] == prefix[i]);
        } else if i < prefix.len() + bare(path).len() {
            assert(child[i] == path[i - prefix.len()]);
        } else {
            assert(child[i] == json_suffix()[i - prefix.len() - bare(path).len()]);
        }
    }
    let all = bare_all(segments).push(last);
    assert forall|i: int| 0 <= i < all.len() implies !dot_segment(#[trigger] all[i]) by {
        if i < segments.len() {
            assert(plain_segment(segments[i]));
            assert(all[i] == bare(segments[i]));
        } else {
            assert(all[i] == last);
            assert(last.len() >= 5);
            assert(seq!['.'].len() == 1 && seq!['.', '.'].len() == 2);
        }
    }
    assert(child[0] == prefix[0]);
    if bare(segments[0]).len() == 0 {
        lemma_segments_behind_slash(child);
        assert(segments_of(child.skip(1)) =~= segments_of(child).skip(1));
        assert(all.skip(1) =~= bare_all(segments).skip(1).push(last));
    } else {
        assert(plain_segment(segments[0]));
        lemma_trimmed_is_prefix(segments[0], json_suffix());
        assert(bare(segments[0])[0] == segments[0][0]);
        assert(plain_char(segments[0][0]));
    }
}

/// Segments that navigation can start from and keep in order: plain ones,
/// the first of which is not empty when bare, unless it is the only one.
pub open spec fn plain_start(root: Seq<Seq<char>>) -> bool {
    &&& root.len() >= 1
    &&& all_plain(root)
    &&& root.len() == 1 || bare(root[0]).len() > 0
}

/// Paths that are each one plain segment with a name before the suffix.
pub open spec fn plain_steps(paths: Seq<Seq<char>>) -> bool {
    forall|k: int|
        0 <= k < paths.len() ==> plain_segment(#[trigger] paths[k]) && bare(paths[k]).len() > 0
}

/// The segments after navigating from `root` through `paths`: what is kept
/// of the root, then each of `paths` in their order, bare, and the suffix
/// behind the last.
pub open spec fn reached(root: Seq<Seq<char>>, paths: Seq<Seq<char>>) -> Seq<Seq<char>> {
    stem(root) + bare_all(paths.drop_last()) + seq![bare(paths.last()) + json_suffix()]
}

/// A bare plain segment is plain, and bare already.
pub proof fn lemma_bare_is_plain(segment: Seq<char>)
    requires
        plain_segment(segment),
    ensures
        plain_segment(bare(segment)),
        plain_segment(bare(segment) + json_suffix()),
        bare(bare(segment)) == bare(segment),
        bare(bare(segment) + json_suffix()) == bare(segment),
{
    let named = bare(segment);
    lemma_trimmed_is_prefix(segment, json_suffix());
    lemma_trimmed_twice(segment, json_suffix());
    lemma_trimmed_of_appended(named, json_suffix());
    assert forall|i: int| 0 <= i < named.len() implies plain_char(#[trigger] named[i]) by {
        assert(named[i] == segment[i]);
    }
    let whole = named + json_suffix();
    assert forall|i: int| 0 <= i < whole.len() implies plain_char(#[trigger] whole[i]) by {
        if i < named.len() {
            assert(whole[i] == named[i]);
        } else {
            assert(whole[i] == json_suffix()[i - named.len()]);
        }
    }
}

/// What has been reached is again a start for navigation, and bare it is the
/// stem of the root and then every path, bare.
pub proof fn lemma_reached_is_a_start(root: Seq<Seq<char>>, paths: Seq<Seq<char>>)
    requires
        plain_start(root),
        plain_steps(paths),
        paths.len() >= 1,
    ensures
        plain_start(reached(root, paths)),
        bare(reached(root, paths)[0]).len() > 0,
        stem(reached(root, paths)) == stem(root) + bare_all(paths),
{
    let kept = stem(root);
    let middle = bare_all(paths.drop_last());
    let last = bare(paths.last()) + json_suffix();
    let all = reached(root, paths);
    let shift: int = if bare(root[0]).len() == 0 {
        1
    } else {
        0
    };
    assert(kept.len() == root.len() - shift);
    assert forall|i: int| 0 <= i < all.len() implies plain_segment(#[trigger] all[i]) && bare(
        all[i],
    ) == (kept + bare_all(paths))[i] by {
        if i < kept.len() {
            assert(all[i] == bare(root[i + shift]));
            assert(plain_segment(root[i + shift]));
            lemma_bare_is_plain(root[i + shift]);
        } else if i < kept.len() + middle.len() {
            let k = i - kept.len();
            assert(all[i] == bare(paths[k]));
            assert(plain_segment(paths[k]));
            lemma_bare_is_plain(paths[k]);
        } else {
            assert(all[i] == last);
            assert(plain_segment(paths[paths.len() - 1]));
            lemma_bare_is_plain(paths.last());
        }
    }
    assert(bare_all(all) =~= kept + bare_all(paths));
    if kept.len() > 0 {
        assert(shift == 0);
        assert(plain_segment(root[0]));
        lemma_bare_is_plain(root[0]);
        assert(all[0] == bare(root[0]));
    } else {
        assert(plain_segment(paths[0]) && bare(paths[0]).len() > 0);
        assert(bare(all[0]) == bare_all(paths)[0]);
    }
}

/// A suffix that is given with the path makes no difference to the child.
pub proof fn lemma_given_suffix_is_ignored(segments: Seq<Seq<char>>, path: Seq<char>)
    ensures
        child_path(segments, path + json_suffix()) == child_path(segments, path),
{
    let prefix = parent_prefix(segments);
    assert(prefix + (path + json_suffix()) == (prefix + path) + json_suffix());
    lemma_trimmed_of_appended(prefix + path, json_suffix());
}

/// Navigating through `paths`, each a single segment, gives the segments
/// that the start had, then one for each of `paths` in their order: none is
/// dropped, none stands twice, and only the last of all carries the suffix,
/// whether or not a segment carried it when it was given.
pub proof fn lemma_walk_appends_each_once(segments: Seq<Seq<char>>, paths: Seq<Seq<char>>)
    requires
        all_slash_free(segments),
        all_slash_free(paths),
        paths.len() >= 1,
    ensures
        walk(segments, paths) == bare_all(segments) + bare_all(paths.drop_last()) + seq![
            bare(paths.last()) + json_suffix(),
        ],
        all_slash_free(walk(segments, paths)),
    decreases paths.len(),
{
    let earlier = paths.drop_last();
    let last = bare(paths.last()) + json_suffix();
    assert(slash_free(paths[paths.len() - 1]));
    lemma_bare_slash_free(paths.last());
    if earlier.len() == 0 {
        lemma_child_segments(segments, paths.last());
        assert(walk(segments, earlier) == segments);
        assert(bare_all(segments).push(last) =~= bare_all(segments) + bare_all(earlier) + seq![
            last,
        ]);
    } else {
        assert forall|i: int| 0 <= i < earlier.len() implies slash_free(#[trigger] earlier[i]) by {
            assert(earlier[i] == paths[i]);
        }
        lemma_walk_appends_each_once(segments, earlier);
        let so_far = walk(segments, earlier);
        lemma_child_segments(so_far, paths.last());
        let before = bare_all(segments) + bare_all(earlier.drop_last());
        assert(so_far == before.push(bare(earlier.last()) + json_suffix()));
        assert forall|i: int| 0 <= i < so_far.len() implies #[trigger] bare_all(so_far)[i] == (
        bare_all(segments) + bare_all(earlier))[i] by {
            if i < segments.len() {
                lemma_trimmed_twice(segments[i], json_suffix());
            } else if i < so_far.len() - 1 {
                lemma_trimmed_twice(earlier[i - segments.len()], json_suffix());
            } else {
                lemma_trimmed_of_appended(bare(earlier.last()), json_suffix());
                lemma_trimmed_twice(earlier.last(), json_suffix());
            }
        }
        assert(bare_all(so_far) =~= bare_all(segments) + bare_all(earlier));
        assert(bare_all(so_far).push(last) =~= bare_all(segments) + bare_all(earlier) + seq![
            last,
        ]);
    }
    assert forall|i: int| 0 <= i < walk(segments, paths).len() implies slash_free(
        #[trigger] walk(segments, paths)[i],
    ) by {
        if i < segments.len() {
            lemma_bare_slash_free(segments[i]);
        } else if i < segments.len() + earlier.len() {
            assert(slash_free(paths[i - segments.len()]));
            lemma_bare_slash_free(earlier[i - segments.len()]);
        }
    }
}

} // verus!
