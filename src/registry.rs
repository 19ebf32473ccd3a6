//! The route registry: routes in insertion order, replaced in place by id,
//! looked up by method (ignoring case) and exact path.
use vstd::prelude::*;

verus! {

/// How a matched request is served.
#[derive(Debug, Clone, Copy, PartialEq, Eq, Structural)]
pub enum RouteMode {
    /// Forwarded to the upstream service, whose response is relayed.
    Proxy,
    /// Answered locally with a fixed acknowledgment.
    Handled,
}

/// A dynamically registered dispatch rule.
#[derive(Debug, Clone)]
pub struct RouteConfig {
    pub id: usize,
    pub path: String,
    pub method: String,
    pub mode: RouteMode,
    /// The upstream path to forward to, when it differs from the request's.
    pub target_path: Option<String>,
    pub description: Option<String>,
}

impl RouteConfig {
    /// A copy of the route, field for field.
    pub fn cloned(&self) -> (r: RouteConfig)
        ensures
            r == *self,
    {
        let target_path = match &self.target_path {
            Some(t) => Some(t.clone()),
            None => None,
        };
        let description = match &self.description {
            Some(d) => Some(d.clone()),
            None => None,
        };
        RouteConfig {
            id: self.id,
            path: self.path.clone(),
            method: self.method.clone(),
            mode: self.mode,
            target_path,
            description,
        }
    }
}

/// What `str::to_uppercase` returns for a string.
pub uninterp spec fn upper_of(s: Seq<char>) -> Seq<char>;

/// Relies on `str::to_uppercase`: its result depends on the characters alone.
#[verifier::external_body]
fn to_upper(s: &str) -> (r: String)
    ensures
        r@ == upper_of(s@),
{
    s.to_uppercase()
}

/// `i` is the first position of `s` that holds a route with this id.
pub open spec fn is_first_id(s: Seq<RouteConfig>, id: usize, i: int) -> bool {
    0 <= i < s.len() && s[i].id == id && forall|j: int| 0 <= j < i ==> s[j].id != id
}

/// Some route of `s` has this id.
pub open spec fn has_id(s: Seq<RouteConfig>, id: usize) -> bool {
    exists|i: int| 0 <= i < s.len() && s[i].id == id
}

/// The first position of `s` that holds a route with this id (meaningful when
/// `has_id(s, id)`).
pub open spec fn first_id_index(s: Seq<RouteConfig>, id: usize) -> int {
    choose|i: int| is_first_id(s, id, i)
}

/// The registry after registering `r`: the first route with the same id is
/// replaced in place, otherwise `r` is appended.
pub open spec fn upsert(s: Seq<RouteConfig>, r: RouteConfig) -> Seq<RouteConfig> {
    if has_id(s, r.id) {
        s.update(first_id_index(s, r.id), r)
    } else {
        s.push(r)
    }
}

/// Route `r` serves a request whose method, upper-cased, is `method_up` and
/// whose path is `path`.
pub open spec fn route_hits(r: RouteConfig, method_up: Seq<char>, path: Seq<char>) -> bool {
    upper_of(r.method@) == method_up && r.path@ == path
}

/// `i` is the first position of `s` whose route serves the request.
pub open spec fn is_first_hit(s: Seq<RouteConfig>, method_up: Seq<char>, path: Seq<char>, i: int) -> bool {
    0 <= i < s.len() && route_hits(s[i], method_up, path)
        && forall|j: int| 0 <= j < i ==> !route_hits(s[j], method_up, path)
}

/// Some route of `s` serves the request.
pub open spec fn any_hit(s: Seq<RouteConfig>, method_up: Seq<char>, path: Seq<char>) -> bool {
    exists|i: int| 0 <= i < s.len() && route_hits(s[i], method_up, path)
}

proof fn lemma_first_id_from(s: Seq<RouteConfig>, id: usize, k: int)
    requires
        0 <= k < s.len(),
        s[k].id == id,
    ensures
        exists|i: int| is_first_id(s, id, i),
    decreases k,
{
    if exists|j: int| 0 <= j < k && s[j].id == id {
        let j = choose|j: int| 0 <= j < k && s[j].id == id;
        lemma_first_id_from(s, id, j);
    } else {
        assert(is_first_id(s, id, k));
    }
}

proof fn lemma_first_id_exists(s: Seq<RouteConfig>, id: usize)
    requires
        has_id(s, id),
    ensures
        is_first_id(s, id, first_id_index(s, id)),
{
    let k = choose|k: int| 0 <= k < s.len() && s[k].id == id;
    lemma_first_id_from(s, id, k);
}

proof fn lemma_first_id_unique(s: Seq<RouteConfig>, id: usize, i: int)
    requires
        is_first_id(s, id, i),
    ensures
        first_id_index(s, id) == i,
{
    lemma_first_id_exists(s, id);
    let f = first_id_index(s, id);
    if f < i {
        assert(s[f].id != id);
    } else if i < f {
        assert(s[i].id != id);
    }
}

/// The registry after registering each of `rs` in turn into an empty one.
pub open spec fn replay_upserts(rs: Seq<RouteConfig>) -> Seq<RouteConfig>
    decreases rs.len(),
{
    if rs.len() == 0 {
        Seq::<RouteConfig>::empty()
    } else {
        upsert(replay_upserts(rs.drop_last()), rs.last())
    }
}

/// No two routes of `s` share an id.
pub open spec fn ids_unique(s: Seq<RouteConfig>) -> bool {
    forall|i: int, j: int| 0 <= i < s.len() && 0 <= j < s.len() && i != j ==> s[i].id != s[j].id
}

/// `rs[k]` is the last route of `rs` with its id.
pub open spec fn is_latest(rs: Seq<RouteConfig>, k: int) -> bool {
    0 <= k < rs.len() && forall|m: int| k < m < rs.len() ==> rs[m].id != rs[k].id
}

/// After any sequence of registrations into an empty registry, the registry
/// holds exactly one route for each id registered, and that route is the one
/// registered last with its id.
pub proof fn law_one_route_per_id(rs: Seq<RouteConfig>)
    ensures
        ids_unique(replay_upserts(rs)),
        forall|j: int| 0 <= j < rs.len() ==> has_id(replay_upserts(rs), #[trigger] rs[j].id),
        forall|i: int| 0 <= i < replay_upserts(rs).len() ==>
            exists|k: int| is_latest(rs, k) && rs[k] == #[trigger] replay_upserts(rs)[i],
    decreases rs.len(),
{
    if rs.len() > 0 {
        let n = rs.len() - 1;
        let pre = rs.drop_last();
        let r = rs.last();
        let prev = replay_upserts(pre);
        let out = replay_upserts(rs);
        law_one_route_per_id(pre);
        assert(forall|k: int| 0 <= k < n ==> pre[k] == rs[k]);
        assert(is_latest(rs, n));
        if has_id(prev, r.id) {
            lemma_first_id_exists(prev, r.id);
            let f = first_id_index(prev, r.id);
            assert(out == prev.update(f, r));
            assert forall|j: int| 0 <= j < rs.len() implies has_id(out, #[trigger] rs[j].id) by {
                if j < n {
                    assert(has_id(prev, pre[j].id));
                    let i = choose|i: int| 0 <= i < prev.len() && prev[i].id == pre[j].id;
                    assert(out[i].id == prev[i].id);
                } else {
                    assert(out[f].id == r.id);
                }
            }
            assert forall|i: int| 0 <= i < out.len() implies
                exists|k: int| is_latest(rs, k) && rs[k] == #[trigger] out[i] by {
                if i == f {
                    assert(is_latest(rs, n) && rs[n] == out[i]);
                } else {
                    assert(out[i] == prev[i]);
                    let k = choose|k: int| is_latest(pre, k) && pre[k] == prev[i];
                    assert(prev[i].id != prev[f].id);
                    assert(is_latest(rs, k) && rs[k] == out[i]);
                }
            }
        } else {
            assert(out == prev.push(r));
            assert forall|j: int| 0 <= j < rs.len() implies has_id(out, #[trigger] rs[j].id) by {
                if j < n {
                    assert(has_id(prev, pre[j].id));
                    let i = choose|i: int| 0 <= i < prev.len() && prev[i].id == pre[j].id;
                    assert(out[i].id == prev[i].id);
                } else {
                    assert(out[n - n + prev.len()].id == r.id);
                }
            }
            assert forall|i: int| 0 <= i < out.len() implies
                exists|k: int| is_latest(rs, k) && rs[k] == #[trigger] out[i] by {
                if i == prev.len() {
                    assert(is_latest(rs, n) && rs[n] == out[i]);
                } else {
                    assert(out[i] == prev[i]);
                    let k = choose|k: int| is_latest(pre, k) && pre[k] == prev[i];
                    assert(prev[i].id != r.id);
                    assert(is_latest(rs, k) && rs[k] == out[i]);
                }
            }
        }
    }
}

/// The routes, in insertion order.
#[derive(Debug, Clone)]
pub struct RouteRegistry {
    routes: Vec<RouteConfig>,
}

impl View for RouteRegistry {
    type V = Seq<RouteConfig>;

    closed spec fn view(&self) -> Seq<RouteConfig> {
        self.routes@
    }
}

impl RouteRegistry {
    /// An empty registry.
    pub fn new() -> (r: RouteRegistry)
        ensures
            r@ == Seq::<RouteConfig>::empty(),
    {
        RouteRegistry { routes: Vec::new() }
    }

    /// A snapshot copy of all routes, in insertion order.
    pub fn list(&self) -> (r: Vec<RouteConfig>)
        ensures
            r@ == self@,
    {
        let mut out: Vec<RouteConfig> = Vec::new();
        let mut i: usize = 0;
        while i < self.routes.len()
            invariant
                i <= self@.len(),
                out@ == self@.subrange(0, i as int),
            decreases self@.len() - i,
        {
            out.push(self.routes[i].cloned());
            i = i + 1;
        }
        assert(out@ =~= self@);
        out
    }

    /// Registers a route: the first route with the same id is replaced in
    /// place, otherwise the route is appended. Returns whether a route was
    /// replaced.
    pub fn add_or_update(&mut self, route: RouteConfig) -> (replaced: bool)
        ensures
            replaced == has_id(old(self)@, route.id),
            final(self)@ == upsert(old(self)@, route),
    {
        let mut i: usize = 0;
        while i < self.routes.len()
            invariant
                i <= self@.len(),
                self@ == old(self)@,
                forall|j: int| 0 <= j < i ==> self@[j].id != route.id,
            decreases self@.len() - i,
        {
            if self.routes[i].id == route.id {
                proof {
                    assert(is_first_id(self@, route.id, i as int));
                    lemma_first_id_unique(self@, route.id, i as int);
                }
                self.routes.set(i, route);
                return true;
            }
            i = i + 1;
        }
        self.routes.push(route);
        false
    }

    /// The position of the first route whose upper-cased method, given in
    /// `methods_up` position by position, is `method_up` and whose path is
    /// `path`.
    pub fn find_folded(&self, methods_up: &Vec<String>, method_up: &str, path: &str) -> (r: Option<usize>)
        requires
            methods_up@.len() == self@.len(),
        ensures
            match r {
                Some(i) => {
                    &&& i < self@.len()
                    &&& methods_up@[i as int]@ == method_up@
                    &&& self@[i as int].path@ == path@
                    &&& forall|j: int| 0 <= j < i ==> !(methods_up@[j]@ == method_up@ && self@[j].path@ == path@)
                },
                None => forall|j: int| 0 <= j < self@.len() ==> !(methods_up@[j]@ == method_up@ && self@[j].path@ == path@),
            },
    {
        let mut i: usize = 0;
        while i < self.routes.len()
            invariant
                i <= self@.len(),
                methods_up@.len() == self@.len(),
                forall|j: int| 0 <= j < i ==> !(methods_up@[j]@ == method_up@ && self@[j].path@ == path@),
            decreases self@.len() - i,
        {
            let m = String::from_str(method_up);
            let p = String::from_str(path);
            if methods_up[i] == m && self.routes[i].path == p {
                return Some(i);
            }
            i = i + 1;
        }
        None
    }

    /// The first route, in registry order, whose method equals `method` when
    /// both are upper-cased and whose path equals `path` exactly.
    pub fn find(&self, method: &str, path: &str) -> (r: Option<RouteConfig>)
        ensures
            match r {
                Some(route) => exists|i: int| is_first_hit(self@, upper_of(method@), path@, i) && route == self@[i],
                None => !any_hit(self@, upper_of(method@), path@),
            },
    {
        let mut methods_up: Vec<String> = Vec::new();
        let mut i: usize = 0;
        while i < self.routes.len()
            invariant
                i <= self@.len(),
                methods_up@.len() == i,
                forall|j: int| 0 <= j < i ==> methods_up@[j]@ == upper_of(self@[j].method@),
            decreases self@.len() - i,
        {
            methods_up.push(to_upper(self.routes[i].method.as_str()));
            i = i + 1;
        }
        let method_up = to_upper(method);
        match self.find_folded(&methods_up, method_up.as_str(), path) {
            Some(k) => {
                assert forall|j: int| 0 <= j < k implies !route_hits(self@[j], upper_of(method@), path@) by {
                    assert(methods_up@[j]@ == upper_of(self@[j].method@));
                }
                assert(is_first_hit(self@, upper_of(method@), path@, k as int));
                Some(self.routes[k].cloned())
            },
            None => {
                assert forall|j: int| 0 <= j < self@.len() implies !route_hits(self@[j], upper_of(method@), path@) by {
                    assert(methods_up@[j]@ == upper_of(self@[j].method@));
                }
                None
            },
        }
    }
}

} // verus!
