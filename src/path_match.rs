//! Matching a request path against a route's pattern.
use vstd::prelude::*;

use crate::text::{chars_of, split_on, split_text, string_of};
use crate::text_map::TextMap;
use crate::types::{path_view, PathMatch, PatternView, RequestPath, RequestPathPattern};

verus! {

broadcast use vstd::string::group_string_axioms;

/// Whether a template segment binds a parameter (it starts with `:`).
pub open spec fn is_param_segment(seg: Seq<char>) -> bool {
    seg.len() > 0 && seg[0] == ':'
}

/// The parameter name of a `:name` segment.
pub open spec fn param_name(seg: Seq<char>) -> Seq<char> {
    seg.drop_first()
}

/// Whether the template segments `ps` accept the path segments `rs`: same
/// count, and every literal segment equal to its counterpart.
pub open spec fn segments_match(ps: Seq<Seq<char>>, rs: Seq<Seq<char>>) -> bool {
    &&& ps.len() == rs.len()
    &&& forall|i: int| 0 <= i < ps.len() && !is_param_segment(ps[i]) ==> #[trigger] ps[i] == rs[i]
}

/// The parameters that the first `n` template segments bind, a later
/// segment of the same name taking precedence.
pub open spec fn bound_params(ps: Seq<Seq<char>>, rs: Seq<Seq<char>>, n: nat) -> Map<
    Seq<char>,
    Seq<char>,
>
    decreases n,
{
    if n == 0 {
        Map::empty()
    } else {
        let m = bound_params(ps, rs, (n - 1) as nat);
        let i = n - 1;
        if is_param_segment(ps[i]) {
            m.insert(param_name(ps[i]), rs[i])
        } else {
            m
        }
    }
}

/// The result of matching `path` against the exact template `pattern`.
pub open spec fn exact_match(pattern: Seq<char>, path: Seq<char>) -> Option<PathMatch> {
    let ps = split_on(pattern, '/');
    let rs = split_on(path, '/');
    if segments_match(ps, rs) {
        Some(
            PathMatch {
                path,
                queries: Map::empty(),
                params: bound_params(ps, rs, ps.len()),
                matches: Seq::empty(),
            },
        )
    } else {
        None
    }
}

/// What searching `text` for the regular expression `pattern` yields: `None`
/// when the pattern does not compile or nothing matches; otherwise one entry
/// per capturing group, the whole match first, `None` for a group that took
/// no part in the match.
pub uninterp spec fn regex_captures(pattern: Seq<char>, text: Seq<char>) -> Option<
    Seq<Option<Seq<char>>>,
>;

/// The mathematical form of a list of capture results.
pub open spec fn captures_view(g: Seq<Option<String>>) -> Seq<Option<Seq<char>>> {
    g.map_values(
        |c: Option<String>|
            match c {
                Some(s) => Some(s@),
                None => None,
            },
    )
}

/// Whether every group after the whole match took part in it.
pub open spec fn groups_all_present(g: Seq<Option<Seq<char>>>) -> bool {
    &&& g.len() >= 1
    &&& forall|i: int| 1 <= i < g.len() ==> (#[trigger] g[i]) is Some
}

/// The match that a search result gives for `path`: the groups after the
/// whole match, in order, when all of them took part.
pub open spec fn captures_match(path: Seq<char>, caps: Option<Seq<Option<Seq<char>>>>) -> Option<
    PathMatch,
> {
    match caps {
        Some(g) => if groups_all_present(g) {
            Some(
                PathMatch {
                    path,
                    queries: Map::empty(),
                    params: Map::empty(),
                    matches: Seq::new((g.len() - 1) as nat, |i: int| g[i + 1]->0),
                },
            )
        } else {
            None
        },
        None => None,
    }
}

/// The result of matching `path` against a pattern of either kind.
pub open spec fn pattern_match(pattern: PatternView, path: Seq<char>) -> Option<PathMatch> {
    match pattern {
        PatternView::Exact(p) => exact_match(p, path),
        PatternView::Match(p) => captures_match(path, regex_captures(p, path)),
    }
}

/// Relies on regex::Regex::new and Regex::captures: compiles `pattern` and
/// searches `text` with it, listing each capturing group's text.
#[verifier::external_body]
fn search_captures(pattern: &str, text: &str) -> (r: Option<Vec<Option<String>>>)
    ensures
        match r {
            Some(g) => regex_captures(pattern@, text@) == Some(captures_view(g@)),
            None => regex_captures(pattern@, text@) is None,
        },
{
    let re = regex::Regex::new(pattern).ok()?;
    let caps = re.captures(text)?;
    Some(caps.iter().map(|m| m.map(|m| m.as_str().to_string())).collect())
}

/// Builds the match for `path` from the result of a regular-expression
/// search: the groups after the whole match, in order, or no match when the
/// search found nothing or a group took no part.
pub fn request_path_from_captures(path: &str, captures: Option<Vec<Option<String>>>) -> (r: Option<
    RequestPath,
>)
    ensures
        path_view(r) == captures_match(
            path@,
            match captures {
                Some(g) => Some(captures_view(g@)),
                None => None,
            },
        ),
{
    let groups = match captures {
        Some(g) => g,
        None => {
            return None;
        },
    };
    let ghost gv = captures_view(groups@);
    if groups.len() == 0 {
        return None;
    }
    let mut matches: Vec<String> = Vec::new();
    let mut i: usize = 1;
    while i < groups.len()
        invariant
            1 <= i <= groups.len(),
            gv == captures_view(groups@),
            captures == Some(groups),
            forall|j: int| 1 <= j < i ==> (#[trigger] gv[j]) is Some,
            matches.len() == i - 1,
            forall|j: int| 0 <= j < i - 1 ==> (#[trigger] matches@[j])@ == gv[j + 1]->0,
        decreases groups.len() - i,
    {
        match &groups[i] {
            Some(s) => {
                matches.push(s.clone());
            },
            None => {
                assert(gv[i as int] is None);
                assert(!groups_all_present(gv));
                return None;
            },
        }
        i = i + 1;
    }
    let r = RequestPath {
        path: path.to_owned(),
        queries: TextMap::new(),
        params: TextMap::new(),
        matches,
    };
    assert(r.matches.deep_view() =~= Seq::new((gv.len() - 1) as nat, |j: int| gv[j + 1]->0));
    Some(r)
}

/// Matches `request_path` against the exact template `pattern`.
pub fn match_exact(pattern: &str, request_path: &str) -> (r: Option<RequestPath>)
    ensures
        path_view(r) == exact_match(pattern@, request_path@),
{
    let ps = split_text(pattern, '/');
    let rs = split_text(request_path, '/');
    let ghost psv = split_on(pattern@, '/');
    let ghost rsv = split_on(request_path@, '/');
    if ps.len() != rs.len() {
        return None;
    }
    let mut params = TextMap::new();
    let mut i: usize = 0;
    while i < ps.len()
        invariant
            0 <= i <= ps.len(),
            ps.len() == rs.len(),
            ps.deep_view() == psv,
            rs.deep_view() == rsv,
            psv == split_on(pattern@, '/'),
            rsv == split_on(request_path@, '/'),
            forall|j: int| 0 <= j < i && !is_param_segment(psv[j]) ==> #[trigger] psv[j] == rsv[j],
            params@ == bound_params(psv, rsv, i as nat),
        decreases ps.len() - i,
    {
        let seg = chars_of(ps[i].as_str());
        assert(seg@ == psv[i as int]);
        if seg.len() > 0 && seg[0] == ':' {
            let name = string_of(&seg, 1, seg.len());
            assert(name@ == param_name(psv[i as int]));
            params.insert(name, rs[i].clone());
        } else if !(ps[i] == rs[i]) {
            assert(ps[i as int]@ == psv[i as int] && rs[i as int]@ == rsv[i as int]);
            assert(!is_param_segment(psv[i as int]) && psv[i as int] != rsv[i as int]);
            assert(!segments_match(psv, rsv));
            return None;
        }
        i = i + 1;
    }
    let r = RequestPath {
        path: request_path.to_owned(),
        queries: TextMap::new(),
        params,
        matches: Vec::new(),
    };
    assert(segments_match(psv, rsv));
    assert(r.matches.deep_view() =~= Seq::<Seq<char>>::empty());
    Some(r)
}

/// Parses the parameters in a path: matches `request_path` against
/// `path_pattern`, returning what the match binds, or `None` when the path
/// does not match.
pub fn parse_request_path(path_pattern: &RequestPathPattern, request_path: &str) -> (r: Option<
    RequestPath,
>)
    ensures
        path_view(r) == pattern_match(path_pattern@, request_path@),
{
    match path_pattern {
        RequestPathPattern::Exact(p) => match_exact(p.as_str(), request_path),
        RequestPathPattern::Match(p) => {
            let captures = search_captures(p.as_str(), request_path);
            request_path_from_captures(request_path, captures)
        },
    }
}

/// The names of the parameter segments of `ps` are pairwise distinct.
pub open spec fn distinct_param_names(ps: Seq<Seq<char>>) -> bool {
    forall|i: int, j: int|
        0 <= i < j < ps.len() && is_param_segment(ps[i]) && is_param_segment(ps[j]) ==> param_name(
            #[trigger] ps[i],
        ) != param_name(#[trigger] ps[j])
}

proof fn lemma_bound_params(ps: Seq<Seq<char>>, rs: Seq<Seq<char>>, n: nat)
    requires
        n <= ps.len(),
        n <= rs.len(),
        distinct_param_names(ps),
    ensures
        forall|k: Seq<char>|
            #[trigger] bound_params(ps, rs, n).contains_key(k) <==> exists|i: int|
                0 <= i < n && is_param_segment(ps[i]) && param_name(ps[i]) == k,
        forall|i: int|
            0 <= i < n && is_param_segment(ps[i]) ==> #[trigger] bound_params(ps, rs, n)[param_name(
                ps[i],
            )] == rs[i],
    decreases n,
{
    if n > 0 {
        lemma_bound_params(ps, rs, (n - 1) as nat);
        let m = bound_params(ps, rs, n);
        let prev = bound_params(ps, rs, (n - 1) as nat);
        assert forall|k: Seq<char>| #[trigger] m.contains_key(k) <==> exists|i: int|
            0 <= i < n && is_param_segment(ps[i]) && param_name(ps[i]) == k by {
            if m.contains_key(k) && !(is_param_segment(ps[n - 1]) && param_name(ps[n - 1]) == k) {
                assert(prev.contains_key(k));
            }
            if exists|i: int| 0 <= i < n && is_param_segment(ps[i]) && param_name(ps[i]) == k {
                let i = choose|i: int| 0 <= i < n && is_param_segment(ps[i]) && param_name(ps[i]) == k;
                if i < n - 1 {
                    assert(prev.contains_key(k));
                }
            }
        }
        assert forall|i: int| 0 <= i < n && is_param_segment(ps[i]) implies #[trigger] m[param_name(
            ps[i],
        )] == rs[i] by {
            if i < n - 1 {
                assert(prev[param_name(ps[i])] == rs[i]);
                if is_param_segment(ps[n - 1]) {
                    assert(param_name(ps[i]) != param_name(ps[n - 1]));
                }
            }
        }
    }
}

/// Matching an exact template against a path with as many segments binds
/// every `:name` segment to the path's segment at the same place (when the
/// names are distinct), binds nothing else, and fails exactly when some
/// literal segment differs from its counterpart.
pub proof fn lemma_exact_binds_segments(pattern: Seq<char>, path: Seq<char>)
    requires
        split_on(pattern, '/').len() == split_on(path, '/').len(),
        distinct_param_names(split_on(pattern, '/')),
    ensures
        ({
            let ps = split_on(pattern, '/');
            let rs = split_on(path, '/');
            &&& exact_match(pattern, path) is None <==> exists|i: int|
                0 <= i < ps.len() && !is_param_segment(ps[i]) && ps[i] != rs[i]
            &&& exact_match(pattern, path) matches Some(m) ==> {
                &&& m.path == path
                &&& m.matches.len() == 0
                &&& forall|i: int|
                    0 <= i < ps.len() && is_param_segment(ps[i]) ==> #[trigger] m.params[param_name(
                        ps[i],
                    )] == rs[i]
                &&& forall|k: Seq<char>|
                    #[trigger] m.params.contains_key(k) <==> exists|i: int|
                        0 <= i < ps.len() && is_param_segment(ps[i]) && param_name(ps[i]) == k
            }
        }),
{
    let ps = split_on(pattern, '/');
    let rs = split_on(path, '/');
    lemma_bound_params(ps, rs, ps.len());
    if exists|i: int| 0 <= i < ps.len() && !is_param_segment(ps[i]) && ps[i] != rs[i] {
        let i = choose|i: int| 0 <= i < ps.len() && !is_param_segment(ps[i]) && ps[i] != rs[i];
        assert(!segments_match(ps, rs));
    }
}

/// A template and a path with different numbers of segments never match.
pub proof fn lemma_exact_segment_count(pattern: Seq<char>, path: Seq<char>)
    requires
        split_on(pattern, '/').len() != split_on(path, '/').len(),
    ensures
        exact_match(pattern, path) is None,
{
}

/// When a regular-expression pattern matches a path with all of its groups
/// taking part, the positional matches hold one entry per capturing group
/// after the whole match, in the order of the groups.
pub proof fn lemma_match_groups_in_order(pattern: Seq<char>, path: Seq<char>)
    requires
        regex_captures(pattern, path) matches Some(g) && groups_all_present(g),
    ensures
        ({
            let g = regex_captures(pattern, path)->0;
            &&& pattern_match(PatternView::Match(pattern), path) matches Some(m)
            &&& m.matches.len() == g.len() - 1
            &&& forall|i: int| 0 <= i < m.matches.len() ==> #[trigger] m.matches[i] == g[i + 1]->0
            &&& m.params == Map::<Seq<char>, Seq<char>>::empty()
        }),
{
    let g = regex_captures(pattern, path)->0;
}

} // verus!
