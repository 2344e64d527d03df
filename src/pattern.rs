use vstd::prelude::*;
use vstd::std_specs::iter::IteratorSpec;
use vstd::string::*;

verus! {

/// Name of the wildcard that a mounted pattern ends with; it captures what
/// follows the mount prefix and never reaches a handler.
pub const LEFTOVER_PARAM_NAME: &'static str = "mountrouter_leftover";

pub open spec fn leftover_name() -> Seq<char> {
    LEFTOVER_PARAM_NAME@
}

pub open spec fn ends_in_slash(s: Seq<char>) -> bool {
    s.len() > 0 && s.last() == '/'
}

/// The pattern registered for `route`: verbatim, or for a mounted route the
/// route forced to end in `/`, followed by the leftover wildcard.
pub open spec fn mount_pattern(route: Seq<char>, is_mounted: bool) -> Seq<char> {
    if !is_mounted {
        route
    } else {
        let prefix = if ends_in_slash(route) {
            route
        } else {
            route.push('/')
        };
        prefix + seq!['*'] + leftover_name()
    }
}

/// No character of `s` is U+0000, which the pattern matcher cannot take: it
/// computes one less than each character's code.
pub open spec fn nul_free(s: Seq<char>) -> bool {
    forall|i: int| 0 <= i < s.len() ==> s[i] != '\0'
}

/// A route that the pattern matcher can take: it holds no U+0000, and its
/// first character, after one leading '/', is ASCII (or it has none), as the
/// matcher splits patterns at a byte offset one past that character.
pub open spec fn accepted_route(route: Seq<char>) -> bool {
    let rest = if route.len() > 0 && route[0] == '/' {
        route.drop_first()
    } else {
        route
    };
    &&& rest.len() == 0 || (rest[0] as u32) < 128
    &&& nul_free(route)
}

/// Whether no character of `s` is U+0000.
pub fn is_nul_free(s: &str) -> (r: bool)
    ensures
        r == nul_free(s@),
{
    let cs = chars_of(s);
    let mut i: usize = 0;
    while i < cs.len()
        invariant
            cs@ == s@,
            0 <= i <= cs@.len(),
            forall|j: int| 0 <= j < i ==> cs@[j] != '\0',
        decreases cs@.len() - i,
    {
        if cs[i] == '\0' {
            return false;
        }
        i = i + 1;
    }
    true
}

/// Whether the pattern matcher can take `route`.
pub fn accepts_route(route: &str) -> (r: bool)
    ensures
        r == accepted_route(route@),
{
    let cs = chars_of(route);
    let first_ok = if cs.len() == 0 {
        true
    } else if cs[0] == '/' {
        cs.len() == 1 || (cs[1] as u32) < 128
    } else {
        (cs[0] as u32) < 128
    };
    if cs.len() > 0 && cs[0] == '/' {
        assert(cs@.len() > 1 ==> route@.drop_first()[0] == cs@[1]);
    }
    first_ok && is_nul_free(route)
}

/// `needle` occurs in `s` as a contiguous run.
pub open spec fn contains_run(s: Seq<char>, needle: Seq<char>) -> bool {
    exists|i: int| 0 <= i <= s.len() - needle.len() && #[trigger] s.subrange(i, i + needle.len()) == needle
}

/// A route that a caller may register: the matcher can take it, and it does
/// not name the leftover wildcard, which only mounting adds.
pub open spec fn user_route(route: Seq<char>) -> bool {
    accepted_route(route) && !contains_run(route, leftover_name())
}

/// The characters of `s`, in order.
fn chars_of(s: &str) -> (r: Vec<char>)
    ensures
        r@ == s@,
{
    broadcast use {vstd::string::axiom_spec_iter, vstd::string::next_postcondition};

    let mut chars = s.chars();
    let mut out: Vec<char> = Vec::new();
    loop
        invariant
            out@ + chars.remaining() == s@,
        ensures
            out@ == s@,
        decreases s@.len() - out@.len(),
    {
        match chars.next() {
            Some(c) => {
                out.push(c);
            },
            None => {
                assert(out@ =~= s@);
                break;
            },
        }
    }
    out
}

/// Whether `needle` occurs in `s` starting at `at`.
fn run_at(s: &Vec<char>, needle: &Vec<char>, at: usize) -> (r: bool)
    requires
        at + needle@.len() <= s@.len(),
    ensures
        r == (s@.subrange(at as int, at + needle@.len()) == needle@),
{
    let n = s.len();
    let mut j: usize = 0;
    while j < needle.len()
        invariant
            n == s@.len(),
            0 <= j <= needle@.len(),
            at + needle@.len() <= s@.len(),
            forall|k: int| 0 <= k < j ==> s@[at + k] == needle@[k],
        decreases needle@.len() - j,
    {
        if s[at + j] != needle[j] {
            assert(s@.subrange(at as int, at + needle@.len())[j as int] != needle@[j as int]);
            return false;
        }
        j = j + 1;
    }
    assert(s@.subrange(at as int, at + needle@.len()) =~= needle@);
    true
}

/// Whether `route` can be registered: its first character (after a leading
/// '/') is ASCII, and it does not name the leftover wildcard.
pub fn is_user_route(route: &str) -> (r: bool)
    ensures
        r == user_route(route@),
{
    if !accepts_route(route) {
        return false;
    }
    let s = chars_of(route);
    let needle = chars_of(LEFTOVER_PARAM_NAME);
    proof {
        reveal_strlit("mountrouter_leftover");
    }
    assert(needle@.len() > 0);
    if needle.len() > s.len() {
        assert(!contains_run(route@, leftover_name()));
        return true;
    }
    let last = s.len() - needle.len();
    let mut at: usize = 0;
    while at <= last
        invariant
            s@ == route@,
            needle@ == leftover_name(),
            last == s@.len() - needle@.len(),
            needle@.len() > 0,
            s@.len() <= usize::MAX,
            0 <= at <= last + 1,
            forall|i: int| 0 <= i < at ==> #[trigger] s@.subrange(i, i + needle@.len()) != needle@,
        decreases last + 1 - at,
    {
        if run_at(&s, &needle, at) {
            assert(contains_run(route@, leftover_name()));
            return false;
        }
        at = at + 1;
    }
    true
}

/// The leftover wildcard stands in a registered pattern exactly when the route
/// was mounted.
pub proof fn lemma_leftover_only_from_mounts(route: Seq<char>, is_mounted: bool)
    requires
        user_route(route),
    ensures
        contains_run(mount_pattern(route, is_mounted), leftover_name()) == is_mounted,
{
    if is_mounted {
        let p = mount_pattern(route, is_mounted);
        let n = leftover_name().len();
        let i = p.len() - n;
        assert(p.subrange(i, i + n) =~= leftover_name());
    }
}

/// A mounted pattern keeps the route's first characters.
pub proof fn lemma_mount_pattern_accepted(route: Seq<char>, is_mounted: bool)
    requires
        accepted_route(route),
    ensures
        accepted_route(mount_pattern(route, is_mounted)),
{
    let p = mount_pattern(route, is_mounted);
    if is_mounted {
        let prefix = if ends_in_slash(route) {
            route
        } else {
            route.push('/')
        };
        reveal_strlit("mountrouter_leftover");
        assert(nul_free(p)) by {
            assert forall|i: int| 0 <= i < p.len() implies p[i] != '\0' by {
                if i < route.len() {
                    assert(p[i] == route[i]);
                }
            }
        }
        assert(p[0] == if route.len() > 0 { route[0] } else { '/' });
        if route.len() > 1 {
            assert(p[1] == route[1]);
        } else if route.len() == 1 && route[0] == '/' {
            assert(p[1] == '*');
        } else {
            assert(p[1] == if route.len() == 0 { '*' } else { '/' });
        }
    }
}

fn ends_with_slash(s: &str) -> (r: bool)
    ensures
        r == ends_in_slash(s@),
{
    let cs = chars_of(s);
    cs.len() > 0 && cs[cs.len() - 1] == '/'
}

/// Builds the pattern under which a route is registered.
pub fn route_pattern(route: &str, is_mounted: bool) -> (r: String)
    ensures
        r@ == mount_pattern(route@, is_mounted),
{
    let mut pattern = String::from_str(route);
    if is_mounted {
        if !ends_with_slash(route) {
            pattern.append("/");
        }
        pattern.append("*");
        pattern.append(LEFTOVER_PARAM_NAME);
        proof {
            reveal_strlit("/");
            reveal_strlit("*");
        }
        assert(pattern@ =~= mount_pattern(route@, is_mounted));
    }
    pattern
}

} // verus!
