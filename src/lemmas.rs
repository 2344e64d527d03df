use vstd::prelude::*;

use crate::mount_router::{merge_captures, params_or_empty, routed, ContextView, NoRoute, RouteEntry, Router};
use crate::pattern::leftover_name;
use crate::recognizer::recognition;

verus! {

/// Merging captures into a map overlays the map with what the captures alone
/// give.
pub proof fn lemma_merge_overlays(m: Map<Seq<char>, Seq<char>>, caps: Seq<(Seq<char>, Seq<char>)>)
    ensures
        merge_captures(m, caps) == m.union_prefer_right(merge_captures(Map::empty(), caps)),
    decreases caps.len(),
{
    if caps.len() == 0 {
        assert(m.union_prefer_right(Map::empty()) =~= m);
    } else {
        lemma_merge_overlays(m, caps.drop_last());
        let d = merge_captures(Map::empty(), caps.drop_last());
        let k = caps.last().0;
        let v = caps.last().1;
        assert(m.union_prefer_right(d).insert(k, v) =~= m.union_prefer_right(d.insert(k, v)));
    }
}

/// Merging the same captures twice gives what merging them once gives.
pub proof fn lemma_merge_idempotent(m: Map<Seq<char>, Seq<char>>, caps: Seq<(Seq<char>, Seq<char>)>)
    ensures
        merge_captures(merge_captures(m, caps), caps) == merge_captures(m, caps),
{
    let d = merge_captures(Map::empty(), caps);
    lemma_merge_overlays(m, caps);
    lemma_merge_overlays(merge_captures(m, caps), caps);
    assert(m.union_prefer_right(d).union_prefer_right(d) =~= m.union_prefer_right(d));
}

/// Merging never adds the leftover capture's name.
pub proof fn lemma_merge_hides_leftover(m: Map<Seq<char>, Seq<char>>, caps: Seq<(Seq<char>, Seq<char>)>)
    requires
        !m.contains_key(leftover_name()),
    ensures
        !merge_captures(m, caps).contains_key(leftover_name()),
    decreases caps.len(),
{
    if caps.len() > 0 {
        lemma_merge_hides_leftover(m, caps.drop_last());
    }
}

/// A route that is not mounted and captures nothing names its handler and
/// leaves the request's parameters as they were, creating an empty map where
/// there was none; the path and its history are untouched.
pub proof fn lemma_plain_match_adds_no_params(entries: Seq<RouteEntry>, i: usize, c: ContextView)
    requires
        i < entries.len(),
        !entries[i as int].is_mounted,
    ensures
        routed(entries, Some((i, Seq::empty())), c) == (
            Ok::<usize, NoRoute>(entries[i as int].handler),
            ContextView {
                path: c.path,
                history: c.history,
                params: Some(params_or_empty(c.params)),
            },
        ),
{
}

/// The leftover capture of a mounted route never reaches the parameter map.
pub proof fn lemma_leftover_never_exposed(
    entries: Seq<RouteEntry>,
    m: Option<(usize, Seq<(Seq<char>, Seq<char>)>)>,
    c: ContextView,
)
    requires
        c.params matches Some(p) ==> !p.contains_key(leftover_name()),
    ensures
        routed(entries, m, c).1.params matches Some(p) ==> !p.contains_key(leftover_name()),
{
    if let Some((i, caps)) = m {
        lemma_merge_hides_leftover(params_or_empty(c.params), caps);
    }
}

/// When nothing matches, no handler is named and the request is left as it
/// was.
pub proof fn lemma_no_match_no_handler(entries: Seq<RouteEntry>, c: ContextView)
    ensures
        routed(entries, None, c) == (Err::<usize, NoRoute>(NoRoute), c),
{
}

/// Once the original path is recorded, no later routing step changes it; the
/// first mounted match records the path it was given.
pub proof fn lemma_history_write_once(
    entries: Seq<RouteEntry>,
    m: Option<(usize, Seq<(Seq<char>, Seq<char>)>)>,
    c: ContextView,
)
    ensures
        c.history is Some ==> routed(entries, m, c).1.history == c.history,
        c.history is None ==> (m matches Some((i, _)) && entries[i as int].is_mounted
            ==> routed(entries, m, c).1.history == Some(c.path)),
{
}

/// Through three nested routers whose first match is mounted, the recorded
/// path is the one the outermost router was given.
pub proof fn lemma_history_three_levels(
    outer: Seq<RouteEntry>,
    m1: Option<(usize, Seq<(Seq<char>, Seq<char>)>)>,
    middle: Seq<RouteEntry>,
    m2: Option<(usize, Seq<(Seq<char>, Seq<char>)>)>,
    inner: Seq<RouteEntry>,
    m3: Option<(usize, Seq<(Seq<char>, Seq<char>)>)>,
    c: ContextView,
)
    requires
        c.history is None,
        (m1 matches Some((i, _)) && outer[i as int].is_mounted),
    ensures
        ({
            let c1 = routed(outer, m1, c).1;
            let c2 = routed(middle, m2, c1).1;
            routed(inner, m3, c2).1.history == Some(c.path)
        }),
{
    let c1 = routed(outer, m1, c).1;
    lemma_history_write_once(outer, m1, c);
    lemma_history_write_once(middle, m2, c1);
    lemma_history_write_once(inner, m3, routed(middle, m2, c1).1);
}

/// Resolving a path a second time, on the request that the first resolution
/// produced, leaves the parameter map as the first resolution left it.
pub proof fn lemma_resolve_twice_same_params(r: &Router, c: ContextView)
    ensures
        ({
            let m = recognition(r.routes(), c.path);
            let c1 = routed(r.entries(), m, c).1;
            routed(r.entries(), m, c1).1.params == c1.params
        }),
{
    let m = recognition(r.routes(), c.path);
    if let Some((i, caps)) = m {
        lemma_merge_idempotent(params_or_empty(c.params), caps);
    }
}

} // verus!
