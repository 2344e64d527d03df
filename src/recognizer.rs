use vstd::prelude::*;

use crate::params::{distinct_names, pairs_view};
use crate::pattern::{accepted_route, nul_free};

verus! {

/// A route_recognizer::Router whose destinations are entry indices.
#[verifier::external_body]
pub struct PatternTable {
    inner: route_recognizer::Router<usize>,
}

/// The patterns registered in a recognizer, each with its destination, in the
/// order in which they were added.
pub uninterp spec fn registered(r: PatternTable) -> Seq<(Seq<char>, usize)>;

/// What route_recognizer makes of `path` against the patterns `routes`: the
/// destination of the most specific matching pattern, with the named captures.
pub uninterp spec fn recognition(routes: Seq<(Seq<char>, usize)>, path: Seq<char>) -> Option<
    (usize, Seq<(Seq<char>, Seq<char>)>),
>;

/// Relies on route_recognizer::Router::new: a recognizer with no pattern.
#[verifier::external_body]
pub(crate) fn new_recognizer() -> (r: PatternTable)
    ensures
        registered(r) == Seq::<(Seq<char>, usize)>::empty(),
{
    PatternTable { inner: route_recognizer::Router::new() }
}

/// Relies on route_recognizer::Router::add: registers `pattern` for `dest`.
/// It slices the pattern one byte past its first character (after a leading
/// '/'), which panics unless that character is a single byte, and it computes
/// one less than each character's code, which overflows on U+0000.
#[verifier::external_body]
pub(crate) fn add_pattern(r: &mut PatternTable, pattern: &str, dest: usize)
    requires
        accepted_route(pattern@),
    ensures
        registered(*final(r)) == registered(*old(r)).push((pattern@, dest)),
{
    r.inner.add(pattern, dest)
}

/// Relies on route_recognizer::Router::recognize: the destination comes from
/// one of the registered patterns, and the captures come out of a map keyed by
/// name, so no name occurs twice. It computes one less than each character's
/// code, which overflows on U+0000.
#[verifier::external_body]
pub(crate) fn recognize(r: &PatternTable, path: &str) -> (res: Option<
    (usize, Vec<(String, String)>),
>)
    requires
        nul_free(path@),
    ensures
        match res {
            Some((dest, caps)) => {
                &&& recognition(registered(*r), path@) == Some((dest, pairs_view(caps@)))
                &&& exists|k: int|
                    0 <= k < registered(*r).len() && (#[trigger] registered(*r)[k]).1 == dest
                &&& distinct_names(pairs_view(caps@))
            },
            None => recognition(registered(*r), path@) is None,
        },
{
    match r.inner.recognize(path) {
        Ok(m) => Some(
            (**m.handler(), m.params().iter().map(|(k, v)| (k.to_string(), v.to_string())).collect()),
        ),
        Err(_) => None,
    }
}

} // verus!
