//! Routes: a method, a path pattern and a handler, and what it means for a
//! request path to match a pattern.
//!
//! A pattern and a path are cut at every `/` into segments. A pattern
//! segment of the form `{name}` is a parameter; any other segment is a
//! literal.

use vstd::prelude::*;

use crate::http::http_method::HttpMethod;
use crate::text::{chars_of, lemma_split_injective, same_text, split, split_str, views};

verus! {

/// The segments of a path or of a pattern.
pub open spec fn segments(path: Seq<char>) -> Seq<Seq<char>> {
    split(path, '/')
}

/// Whether a pattern segment is a parameter: an opening brace, a name, a
/// closing brace. The name may be empty.
pub open spec fn is_param(segment: Seq<char>) -> bool {
    segment.len() >= 2 && segment.first() == '{' && segment.last() == '}'
}

/// The name of a parameter segment: what stands between its braces.
pub open spec fn param_name(segment: Seq<char>) -> Seq<char> {
    segment.subrange(1, segment.len() - 1)
}

/// Whether a path segment fits a pattern segment: a parameter takes any
/// segment that is not empty, a literal only itself.
pub open spec fn segment_matches(pattern_segment: Seq<char>, segment: Seq<char>) -> bool {
    if is_param(pattern_segment) {
        segment.len() > 0
    } else {
        segment == pattern_segment
    }
}

/// Whether a path matches a pattern: both have the same number of
/// segments, and each segment of the path fits the pattern's segment at its
/// place.
pub open spec fn path_matches(pattern: Seq<char>, path: Seq<char>) -> bool {
    let p = segments(pattern);
    let r = segments(path);
    &&& p.len() == r.len()
    &&& forall|i: int| 0 <= i < p.len() ==> segment_matches(#[trigger] p[i], r[i])
}

/// The numbers `0, 1, .., n - 1`.
pub open spec fn positions(n: nat) -> Seq<int> {
    Seq::new(n, |i: int| i)
}

/// The parameters of a pattern, in the pattern's order: for each parameter
/// segment its position among the segments and its name.
pub open spec fn pattern_params(pattern: Seq<char>) -> Seq<(int, Seq<char>)> {
    let p = segments(pattern);
    positions(p.len()).filter_map(
        |i: int|
            if is_param(p[i]) {
                Some((i, param_name(p[i])))
            } else {
                None
            },
    )
}

/// The values that a path gives to the parameters of a pattern, in the
/// pattern's order: for each parameter segment whose position the path
/// reaches, its name and the path's segment at that position.
pub open spec fn path_params(pattern: Seq<char>, path: Seq<char>) -> Seq<(Seq<char>, Seq<char>)> {
    let p = segments(pattern);
    let r = segments(path);
    positions(p.len()).filter_map(
        |i: int|
            if is_param(p[i]) && i < r.len() {
                Some((param_name(p[i]), r[i]))
            } else {
                None
            },
    )
}

/// A list of positions and names, as numbers and character sequences.
pub open spec fn slots_view(params: Seq<(usize, &str)>) -> Seq<(int, Seq<char>)> {
    params.map_values(|slot: (usize, &str)| (slot.0 as int, slot.1@))
}

/// A pattern without parameters is matched by one path only: the path
/// that is, character for character, the pattern itself.
pub proof fn lemma_literal_pattern_matches_itself_only(pattern: Seq<char>, path: Seq<char>)
    requires
        pattern_params(pattern).len() == 0,
    ensures
        path_matches(pattern, path) <==> path == pattern,
{
    lemma_no_params(pattern);
    if path_matches(pattern, path) {
        assert(segments(pattern) =~= segments(path));
        lemma_split_injective(pattern, path, '/');
    }
}

/// A pattern has no parameters exactly when none of its segments is a
/// parameter segment.
pub proof fn lemma_no_params(pattern: Seq<char>)
    ensures
        pattern_params(pattern).len() == 0 <==> forall|i: int|
            0 <= i < segments(pattern).len() ==> !is_param(#[trigger] segments(pattern)[i]),
{
    let p = segments(pattern);
    lemma_no_params_upto(pattern, p.len());
    assert(positions(p.len()).take(p.len() as int) =~= positions(p.len()));
}

/// What `lemma_no_params` says, of the first `n` segments of the pattern.
proof fn lemma_no_params_upto(pattern: Seq<char>, n: nat)
    requires
        n <= segments(pattern).len(),
    ensures
        ({
            let p = segments(pattern);
            positions(p.len()).take(n as int).filter_map(
                |i: int|
                    if is_param(p[i]) {
                        Some((i, param_name(p[i])))
                    } else {
                        None
                    },
            ).len() == 0 <==> forall|i: int| 0 <= i < n ==> !is_param(#[trigger] p[i])
        }),
    decreases n,
{
    let p = segments(pattern);
    let f = |i: int|
        if is_param(p[i]) {
            Some((i, param_name(p[i])))
        } else {
            None
        };
    if n > 0 {
        let m = (n - 1) as nat;
        lemma_no_params_upto(pattern, m);
        positions(p.len()).lemma_filter_map_take_succ(f, m as int);
    }
}

/// A path with another number of segments than the pattern does not match
/// it.
pub proof fn lemma_match_needs_equal_segment_count(pattern: Seq<char>, path: Seq<char>)
    requires
        segments(pattern).len() != segments(path).len(),
    ensures
        !path_matches(pattern, path),
{
}

/// The parameters of a pattern stand at positions of parameter segments,
/// in rising order, each with the name of its segment. The values that a
/// path with at least as many segments gives them are these names, each
/// with the path's segment at the parameter's position.
pub proof fn lemma_path_params_follow_pattern(pattern: Seq<char>, path: Seq<char>)
    requires
        segments(pattern).len() <= segments(path).len(),
    ensures
        path_params(pattern, path).len() == pattern_params(pattern).len(),
        forall|k: int|
            0 <= k < pattern_params(pattern).len() ==> {
                let at = (#[trigger] pattern_params(pattern)[k]).0;
                &&& 0 <= at < segments(pattern).len()
                &&& is_param(segments(pattern)[at])
                &&& pattern_params(pattern)[k].1 == param_name(segments(pattern)[at])
                &&& path_params(pattern, path)[k] == (
                    pattern_params(pattern)[k].1,
                    segments(path)[at],
                )
            },
        forall|j: int, k: int|
            0 <= j < k < pattern_params(pattern).len() ==> (#[trigger] pattern_params(pattern)[j]).0
                < (#[trigger] pattern_params(pattern)[k]).0,
{
    let p = segments(pattern);
    lemma_params_upto(pattern, path, p.len());
    assert(positions(p.len()).take(p.len() as int) =~= positions(p.len()));
}

/// What `lemma_path_params_follow_pattern` says, of the first `n` segments
/// of the pattern.
proof fn lemma_params_upto(pattern: Seq<char>, path: Seq<char>, n: nat)
    requires
        n <= segments(pattern).len() <= segments(path).len(),
    ensures
        ({
            let p = segments(pattern);
            let r = segments(path);
            let names = positions(p.len()).take(n as int).filter_map(
                |i: int|
                    if is_param(p[i]) {
                        Some((i, param_name(p[i])))
                    } else {
                        None
                    },
            );
            let values = positions(p.len()).take(n as int).filter_map(
                |i: int|
                    if is_param(p[i]) && i < r.len() {
                        Some((param_name(p[i]), r[i]))
                    } else {
                        None
                    },
            );
            &&& values.len() == names.len()
            &&& forall|k: int|
                0 <= k < names.len() ==> {
                    let at = (#[trigger] names[k]).0;
                    &&& 0 <= at < n
                    &&& is_param(p[at])
                    &&& names[k].1 == param_name(p[at])
                    &&& values[k] == (names[k].1, r[at])
                }
            &&& forall|j: int, k: int|
                0 <= j < k < names.len() ==> (#[trigger] names[j]).0 < (#[trigger] names[k]).0
        }),
    decreases n,
{
    let p = segments(pattern);
    let r = segments(path);
    let all = positions(p.len());
    let f = |i: int|
        if is_param(p[i]) {
            Some((i, param_name(p[i])))
        } else {
            None
        };
    let g = |i: int|
        if is_param(p[i]) && i < r.len() {
            Some((param_name(p[i]), r[i]))
        } else {
            None
        };
    if n > 0 {
        let m = (n - 1) as nat;
        lemma_params_upto(pattern, path, m);
        all.lemma_filter_map_take_succ(f, m as int);
        all.lemma_filter_map_take_succ(g, m as int);
    }
}

/// Whether `segment` is a parameter segment.
pub fn is_param_segment(segment: &str) -> (r: bool)
    ensures
        r == is_param(segment@),
{
    let chars = chars_of(segment);
    let n: usize = chars.len();
    n >= 2 && chars[0] == '{' && chars[n - 1] == '}'
}

/// The name of a parameter segment.
pub fn param_name_of<'a>(segment: &'a str) -> (name: &'a str)
    requires
        is_param(segment@),
    ensures
        name@ == param_name(segment@),
{
    let n: usize = segment.unicode_len();
    segment.substring_char(1, n - 1)
}

/// A registered route.
pub struct Route<H> {
    /// The method that the route answers.
    pub method: HttpMethod,
    /// The path pattern.
    pub path: String,
    /// What handles a matching request.
    pub handler: H,
}

impl<H: Clone> Clone for Route<H> {
    /// A route with the same method and pattern, and a clone of the handler.
    fn clone(&self) -> (r: Self)
        ensures
            r.method == self.method,
            r.path@ == self.path@,
            cloned(self.handler, r.handler),
    {
        Route { method: self.method, path: self.path.clone(), handler: self.handler.clone() }
    }
}

impl<H> Route<H> {
    /// A route for `method` and the pattern `path`.
    pub fn new(method: HttpMethod, path: String, handler: H) -> (r: Self)
        ensures
            r.method == method,
            r.path == path,
            r.handler == handler,
    {
        Self { method, path, handler }
    }

    /// The parameters of the route's pattern, in order: for each its
    /// position among the pattern's segments and its name.
    pub fn get_params(&self) -> (params: Vec<(usize, &str)>)
        ensures
            slots_view(params@) == pattern_params(self.path@),
    {
        let parts = split_str(self.path.as_str(), '/');
        let ghost p = segments(self.path@);
        let ghost f = |i: int|
            if is_param(p[i]) {
                Some((i, param_name(p[i])))
            } else {
                None
            };
        let ghost all = positions(p.len());
        let mut params: Vec<(usize, &str)> = Vec::new();
        let mut i: usize = 0;
        while i < parts.len()
            invariant
                0 <= i <= parts.len(),
                views(parts@) == p,
                all == positions(p.len()),
                f == |i: int|
                    if is_param(p[i]) {
                        Some((i, param_name(p[i])))
                    } else {
                        None
                    },
                slots_view(params@) == all.take(i as int).filter_map(f),
            decreases parts.len() - i,
        {
            proof {
                all.lemma_filter_map_take_succ(f, i as int);
            }
            if is_param_segment(parts[i]) {
                params.push((i, param_name_of(parts[i])));
            }
            i += 1;
        }
        proof {
            assert(all.take(i as int) =~= all);
        }
        params
    }

    /// Whether `path` matches the route's pattern.
    pub fn matches(&self, path: &str) -> (r: bool)
        ensures
            r == path_matches(self.path@, path@),
    {
        let pattern_parts = split_str(self.path.as_str(), '/');
        let path_parts = split_str(path, '/');
        if pattern_parts.len() != path_parts.len() {
            return false;
        }
        let ghost p = segments(self.path@);
        let ghost r = segments(path@);
        let mut i: usize = 0;
        while i < pattern_parts.len()
            invariant
                0 <= i <= pattern_parts.len(),
                pattern_parts.len() == path_parts.len(),
                views(pattern_parts@) == p,
                views(path_parts@) == r,
                p == segments(self.path@),
                r == segments(path@),
                forall|j: int| 0 <= j < i ==> segment_matches(#[trigger] p[j], r[j]),
            decreases pattern_parts.len() - i,
        {
            let fits = if is_param_segment(pattern_parts[i]) {
                !path_parts[i].is_empty()
            } else {
                same_text(path_parts[i], pattern_parts[i])
            };
            if !fits {
                assert(!segment_matches(p[i as int], r[i as int]));
                return false;
            }
            i += 1;
        }
        true
    }
}

} // verus!
