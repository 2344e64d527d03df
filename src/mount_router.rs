use vstd::prelude::*;
use vstd::string::*;

use crate::params::{pairs_view, Params};
use crate::pattern::{
    contains_run, leftover_name, lemma_leftover_only_from_mounts, lemma_mount_pattern_accepted,
    is_nul_free, mount_pattern, nul_free, route_pattern, user_route, LEFTOVER_PARAM_NAME,
};
use crate::recognizer::{PatternTable, add_pattern, new_recognizer, recognition, recognize, registered};

verus! {

/// What routing has recorded on a request so far.
pub ghost struct ContextView {
    /// The path that the next router matches against.
    pub path: Seq<char>,
    /// The path as it was before the first mount prefix was stripped.
    pub history: Option<Seq<char>>,
    /// The parameters captured so far; absent until a router first matches.
    pub params: Option<Map<Seq<char>, Seq<char>>>,
}

/// The per-request state that routers read and write.
pub struct RequestContext {
    path: String,
    history: Option<String>,
    params: Option<Params>,
}

impl View for RequestContext {
    type V = ContextView;

    closed spec fn view(&self) -> ContextView {
        ContextView {
            path: self.path@,
            history: match self.history {
                Some(h) => Some(h@),
                None => None,
            },
            params: params_view(self.params),
        }
    }
}

impl RequestContext {
    pub closed spec fn wf(&self) -> bool {
        match self.params {
            Some(p) => p.wf(),
            None => true,
        }
    }

    /// A request for `path` that no router has seen yet.
    pub fn new(path: String) -> (r: RequestContext)
        ensures
            r.wf(),
            r@ == (ContextView { path: path@, history: None, params: None }),
    {
        RequestContext { path, history: None, params: None }
    }

    /// The path that the next router matches against.
    pub fn path(&self) -> (r: &String)
        ensures
            r@ == self@.path,
    {
        &self.path
    }

    /// The path before any mount prefix was stripped, once one was.
    pub fn history(&self) -> (r: Option<String>)
        ensures
            match r {
                Some(h) => self@.history == Some(h@),
                None => self@.history is None,
            },
    {
        match &self.history {
            Some(h) => Some(h.clone()),
            None => None,
        }
    }

    /// Whether some router has matched this request.
    pub fn has_params(&self) -> (r: bool)
        ensures
            r == self@.params is Some,
    {
        self.params.is_some()
    }

    /// The value captured under `name`, if any.
    pub fn param(&self, name: &str) -> (r: Option<String>)
        requires
            self.wf(),
        ensures
            match r {
                Some(v) => self@.params is Some && self@.params->0.contains_key(name@)
                    && self@.params->0[name@] == v@,
                None => self@.params is None || !self@.params->0.contains_key(name@),
            },
    {
        match &self.params {
            Some(p) => p.get(name),
            None => None,
        }
    }

    /// Number of parameters captured so far.
    pub fn param_count(&self) -> (r: usize)
        requires
            self.wf(),
        ensures
            r == match self@.params {
                Some(m) => m.len(),
                None => 0,
            },
    {
        match &self.params {
            Some(p) => p.len(),
            None => 0,
        }
    }
}

/// Returned when no pattern of a router matches the path.
#[derive(Debug, Clone, Copy, PartialEq, Eq, Structural)]
pub struct NoRoute;

impl NoRoute {
    pub fn message(&self) -> (r: String)
        ensures
            r@ == "No matching route found."@,
    {
        String::from_str("No matching route found.")
    }

    pub fn description(&self) -> (r: String)
        ensures
            r@ == "No Route"@,
    {
        String::from_str("No Route")
    }
}

/// One registered route: the handler it leads to, and whether it is mounted.
#[derive(Clone, Copy, PartialEq, Eq, Structural)]
pub struct RouteEntry {
    pub handler: usize,
    pub is_mounted: bool,
}

/// Merges captured parameters into `m`, later ones overriding, without the
/// leftover capture.
pub open spec fn merge_captures(
    m: Map<Seq<char>, Seq<char>>,
    caps: Seq<(Seq<char>, Seq<char>)>,
) -> Map<Seq<char>, Seq<char>>
    decreases caps.len(),
{
    if caps.len() == 0 {
        m
    } else {
        let rest = merge_captures(m, caps.drop_last());
        if caps.last().0 == leftover_name() {
            rest
        } else {
            rest.insert(caps.last().0, caps.last().1)
        }
    }
}

/// What the leftover wildcard captured (the last such capture), or nothing.
pub open spec fn leftover_of(caps: Seq<(Seq<char>, Seq<char>)>) -> Seq<char>
    decreases caps.len(),
{
    if caps.len() == 0 {
        Seq::empty()
    } else if caps.last().0 == leftover_name() {
        caps.last().1
    } else {
        leftover_of(caps.drop_last())
    }
}

/// The abstract form of a matcher's answer.
pub open spec fn match_view(m: Option<(usize, Vec<(String, String)>)>) -> Option<
    (usize, Seq<(Seq<char>, Seq<char>)>),
> {
    match m {
        Some((i, caps)) => Some((i, pairs_view(caps@))),
        None => None,
    }
}

/// One routing step: given the matcher's answer `m` (an index into `entries`
/// and the captures), the handler chosen and the request afterwards.
pub open spec fn routed(
    entries: Seq<RouteEntry>,
    m: Option<(usize, Seq<(Seq<char>, Seq<char>)>)>,
    c: ContextView,
) -> (Result<usize, NoRoute>, ContextView) {
    match m {
        None => (Err(NoRoute), c),
        Some((i, caps)) => {
            let e = entries[i as int];
            let params = Some(merge_captures(params_or_empty(c.params), caps));
            if e.is_mounted {
                let history = if c.history is Some {
                    c.history
                } else {
                    Some(c.path)
                };
                (
                    Ok(e.handler),
                    ContextView { path: seq!['/'] + leftover_of(caps), history, params },
                )
            } else {
                (Ok(e.handler), ContextView { path: c.path, history: c.history, params })
            }
        },
    }
}

pub open spec fn params_view(p: Option<Params>) -> Option<Map<Seq<char>, Seq<char>>> {
    match p {
        Some(p) => Some(p@),
        None => None,
    }
}

/// The parameters a request has so far, as a map.
pub open spec fn params_or_empty(p: Option<Map<Seq<char>, Seq<char>>>) -> Map<Seq<char>, Seq<char>> {
    match p {
        Some(m) => m,
        None => Map::empty(),
    }
}

/// Merges the captures into the request's parameters, creating them if absent,
/// and leaves out the leftover capture.
fn append_params(params: &mut Option<Params>, caps: &Vec<(String, String)>)
    requires
        *old(params) matches Some(p) ==> p.wf(),
    ensures
        *final(params) matches Some(p) && p.wf() && p@ == merge_captures(
            params_or_empty(params_view(*old(params))),
            pairs_view(caps@),
        ),
{
    let ghost base = params_or_empty(params_view(*old(params)));
    let mut merged = match params.take() {
        Some(p) => p,
        None => Params::new(),
    };
    let ghost cv = pairs_view(caps@);
    let leftover_key = String::from_str(LEFTOVER_PARAM_NAME);
    let mut i: usize = 0;
    while i < caps.len()
        invariant
            0 <= i <= caps@.len(),
            cv == pairs_view(caps@),
            merged.wf(),
            merged@ == merge_captures(base, cv.take(i as int)),
            leftover_key@ == leftover_name(),
        decreases caps@.len() - i,
    {
        assert(cv[i as int] == (caps@[i as int].0@, caps@[i as int].1@));
        assert(cv.take(i + 1).drop_last() =~= cv.take(i as int));
        if caps[i].0 != leftover_key {
            merged.insert(caps[i].0.clone(), caps[i].1.clone());
        }
        i = i + 1;
    }
    assert(cv.take(i as int) =~= cv);
    *params = Some(merged);
}

/// What the leftover wildcard captured.
fn leftover_capture(caps: &Vec<(String, String)>) -> (r: String)
    ensures
        r@ == leftover_of(pairs_view(caps@)),
{
    let ghost cv = pairs_view(caps@);
    let leftover_key = String::from_str(LEFTOVER_PARAM_NAME);
    let mut leftover = String::new();
    let mut i: usize = 0;
    while i < caps.len()
        invariant
            0 <= i <= caps@.len(),
            cv == pairs_view(caps@),
            leftover@ == leftover_of(cv.take(i as int)),
            leftover_key@ == leftover_name(),
        decreases caps@.len() - i,
    {
        assert(cv[i as int] == (caps@[i as int].0@, caps@[i as int].1@));
        assert(cv.take(i + 1).drop_last() =~= cv.take(i as int));
        if caps[i].0 == leftover_key {
            leftover = caps[i].1.clone();
        }
        i = i + 1;
    }
    assert(cv.take(i as int) =~= cv);
    leftover
}

/// Resolves request paths to handlers, which callers identify by index.
pub struct Router {
    recognizer: PatternTable,
    entries: Vec<RouteEntry>,
}

impl Router {
    /// The registered patterns with the index of their entry.
    pub closed spec fn routes(&self) -> Seq<(Seq<char>, usize)> {
        registered(self.recognizer)
    }

    pub closed spec fn entries(&self) -> Seq<RouteEntry> {
        self.entries@
    }

    /// The registered patterns, in order of registration.
    pub open spec fn patterns(&self) -> Seq<Seq<char>> {
        self.routes().map_values(|p: (Seq<char>, usize)| p.0)
    }

    /// The k-th pattern leads to the k-th entry, and names the leftover
    /// wildcard exactly when that entry is mounted.
    pub closed spec fn wf(&self) -> bool {
        &&& self.routes().len() == self.entries@.len()
        &&& forall|k: int| 0 <= k < self.routes().len() ==> (#[trigger] self.routes()[k]).1 == k
        &&& forall|k: int|
            0 <= k < self.routes().len() ==> contains_run(
                #[trigger] self.routes()[k].0,
                leftover_name(),
            ) == self.entries@[k].is_mounted
    }

    pub fn new() -> (r: Router)
        ensures
            r.wf(),
            r.entries() == Seq::<RouteEntry>::empty(),
            r.patterns() == Seq::<Seq<char>>::empty(),
    {
        let r = Router { recognizer: new_recognizer(), entries: Vec::new() };
        assert(r.patterns() =~= Seq::<Seq<char>>::empty());
        r
    }

    /// Registers `route` for `handler`. A mounted route matches every path that
    /// starts with it, and the routers below see only the rest of the path.
    pub fn add_route(&mut self, route: &str, handler: usize, is_mounted: bool)
        requires
            old(self).wf(),
            old(self).entries().len() < usize::MAX,
            user_route(route@),
        ensures
            final(self).wf(),
            final(self).entries() == old(self).entries().push(RouteEntry { handler, is_mounted }),
            final(self).patterns() == old(self).patterns().push(mount_pattern(route@, is_mounted)),
    {
        let pattern = route_pattern(route, is_mounted);
        proof {
            lemma_mount_pattern_accepted(route@, is_mounted);
            lemma_leftover_only_from_mounts(route@, is_mounted);
        }
        let index = self.entries.len();
        add_pattern(&mut self.recognizer, pattern.as_str(), index);
        self.entries.push(RouteEntry { handler, is_mounted });
        assert(self.patterns() =~= old(self).patterns().push(mount_pattern(route@, is_mounted)));
    }

    /// Applies the matcher's answer for the request's current path: merges the
    /// captures into the request's parameters, strips a mount prefix, and
    /// names the handler to run.
    pub fn apply_match(
        &self,
        matched: Option<(usize, Vec<(String, String)>)>,
        ctx: &mut RequestContext,
    ) -> (r: Result<usize, NoRoute>)
        requires
            self.wf(),
            old(ctx).wf(),
            matched matches Some((i, _)) ==> i < self.entries().len(),
        ensures
            final(ctx).wf(),
            (r, final(ctx)@) == routed(self.entries(), match_view(matched), old(ctx)@),
    {
        match matched {
            None => Err(NoRoute),
            Some((index, caps)) => {
                let entry = self.entries[index];
                append_params(&mut ctx.params, &caps);
                if entry.is_mounted {
                    let leftover = leftover_capture(&caps);
                    let stripped = String::from_str("/").concat(leftover.as_str());
                    proof {
                        reveal_strlit("/");
                    }
                    assert(stripped@ =~= seq!['/'] + leftover_of(pairs_view(caps@)));
                    if ctx.history.is_none() {
                        ctx.history = Some(ctx.path.clone());
                    }
                    ctx.path = stripped;
                }
                Ok(entry.handler)
            },
        }
    }

    /// Resolves the request's current path and names the handler to run, or
    /// fails with `NoRoute` and leaves the request as it was. A path holding
    /// U+0000 matches no route: the pattern matcher cannot take it.
    pub fn handle(&self, ctx: &mut RequestContext) -> (r: Result<usize, NoRoute>)
        requires
            self.wf(),
            old(ctx).wf(),
        ensures
            final(ctx).wf(),
            nul_free(old(ctx)@.path) ==> (recognition(self.routes(), old(ctx)@.path) matches Some(
                (i, _),
            ) ==> i < self.entries().len()),
            (r, final(ctx)@) == if nul_free(old(ctx)@.path) {
                routed(self.entries(), recognition(self.routes(), old(ctx)@.path), old(ctx)@)
            } else {
                (Err(NoRoute), old(ctx)@)
            },
    {
        if !is_nul_free(ctx.path.as_str()) {
            return Err(NoRoute);
        }
        let matched = recognize(&self.recognizer, ctx.path.as_str());
        self.apply_match(matched, ctx)
    }

    /// The leftover wildcard stands in a registered pattern only where the
    /// route was mounted.
    pub proof fn lemma_leftover_marks_mounts(&self)
        requires
            self.wf(),
        ensures
            self.patterns().len() == self.entries().len(),
            forall|k: int|
                0 <= k < self.patterns().len() ==> contains_run(
                    #[trigger] self.patterns()[k],
                    leftover_name(),
                ) == self.entries()[k].is_mounted,
    {
        assert forall|k: int| 0 <= k < self.patterns().len() implies contains_run(
            #[trigger] self.patterns()[k],
            leftover_name(),
        ) == self.entries()[k].is_mounted by {
            assert(self.patterns()[k] == self.routes()[k].0);
        }
    }
}

} // verus!
