use vstd::prelude::*;
use vstd::string::*;

use crate::config::{RenderMode, RouteConfig};
use crate::keyed::{keys_distinct, last_with, lemma_table_len, lemma_table_at, lemma_table_domain, lemma_table_push, lemma_table_update, table};

verus! {

/// Each route keyed by its identifier.
pub open spec fn keyed_routes(s: Seq<RouteConfig>) -> Seq<(Seq<char>, RouteConfig)> {
    s.map_values(|r: RouteConfig| (r.id@, r))
}

/// The registry that a list of routes denotes: a later route replaces an
/// earlier one with the same identifier.
pub open spec fn route_table(s: Seq<RouteConfig>) -> Map<Seq<char>, RouteConfig> {
    table(keyed_routes(s))
}

/// Index of the last route with identifier `id`, if any.
fn position(routes: &Vec<RouteConfig>, id: &String) -> (r: Option<usize>)
    ensures
        r matches Some(i) ==> last_with(keyed_routes(routes@), i as int, id@),
        r is None ==> forall|i: int| 0 <= i < routes@.len() ==> routes@[i].id@ != id@,
{
    let mut i: usize = routes.len();
    while i > 0
        invariant
            i <= routes@.len(),
            forall|j: int| i <= j < routes@.len() ==> routes@[j].id@ != id@,
        decreases i,
    {
        if routes[i - 1].id == *id {
            return Some(i - 1);
        }
        i = i - 1;
    }
    None
}

/// Read-only mapping from route identifier to route configuration.
#[derive(Debug)]
pub struct RouteRegistry {
    routes: Vec<RouteConfig>,
}

impl View for RouteRegistry {
    type V = Map<Seq<char>, RouteConfig>;

    closed spec fn view(&self) -> Map<Seq<char>, RouteConfig> {
        route_table(self.routes@)
    }
}

impl RouteRegistry {
    /// Identifiers are stored once each.
    #[verifier::type_invariant]
    closed spec fn wf(self) -> bool {
        keys_distinct(keyed_routes(self.routes@))
    }

    /// Builds the registry from a list; a later route replaces an earlier one
    /// with the same identifier.
    pub fn from_routes(routes: Vec<RouteConfig>) -> (r: RouteRegistry)
        ensures
            r@ == route_table(routes@),
    {
        let ghost all = routes@;
        let mut rest = routes;
        let mut out: Vec<RouteConfig> = Vec::new();
        let ghost mut done: Seq<RouteConfig> = Seq::empty();
        assert(keyed_routes(out@) =~= Seq::empty());
        while rest.len() > 0
            invariant
                all == done + rest@,
                route_table(out@) == route_table(done),
                keys_distinct(keyed_routes(out@)),
            decreases rest@.len(),
        {
            let route = rest.remove(0);
            let ghost s = keyed_routes(out@);
            proof {
                assert(done.push(route) + rest@ =~= all);
                assert(keyed_routes(done.push(route)) =~= keyed_routes(done).push((route.id@, route)));
                lemma_table_push(keyed_routes(done), route.id@, route);
            }
            match position(&out, &route.id) {
                Some(i) => {
                    let ghost id = route.id@;
                    proof {
                        lemma_table_update(s, i as int, id, route);
                    }
                    out.set(i, route);
                    assert(keyed_routes(out@) =~= s.update(i as int, (id, route)));
                    assert(keys_distinct(keyed_routes(out@)));
                },
                None => {
                    proof {
                        lemma_table_push(s, route.id@, route);
                    }
                    out.push(route);
                    assert(keyed_routes(out@) =~= s.push((route.id@, route)));
                    assert(keys_distinct(keyed_routes(out@)));
                },
            }
            proof {
                done = done.push(route);
            }
        }
        assert(done =~= all);
        proof {
            lemma_table_len(keyed_routes(out@));
        }
        RouteRegistry { routes: out }
    }

    /// The route with identifier `id`, if registered.
    pub fn lookup(&self, id: &str) -> (r: Option<&RouteConfig>)
        ensures
            r is Some <==> self@.contains_key(id@),
            r matches Some(c) ==> *c == self@[id@],
    {
        proof {
            lemma_table_domain(keyed_routes(self.routes@), id@);
        }
        let key = String::from_str(id);
        match position(&self.routes, &key) {
            Some(i) => {
                proof {
                    lemma_table_at(keyed_routes(self.routes@), i as int, id@);
                }
                Some(&self.routes[i])
            },
            None => None,
        }
    }

    /// Number of registered routes.
    pub fn count(&self) -> (r: usize)
        ensures
            r == self@.dom().len(),
    {
        proof {
            use_type_invariant(self);
            lemma_table_len(keyed_routes(self.routes@));
        }
        self.routes.len()
    }
}

/// The routes served out of the box: the home page, rendered buffered, and a
/// streamed page.
pub fn default_routes() -> (r: RouteRegistry)
    ensures
        r@.dom() == set!["home"@, "stream"@],
        r@.dom().len() == 2,
        r@.contains_key("home"@),
        r@["home"@].id@ == "home"@,
        r@["home"@].pattern@ == "/"@,
        r@["home"@].render_mode == RenderMode::Blocking,
        r@.contains_key("stream"@),
        r@["stream"@].id@ == "stream"@,
        r@["stream"@].pattern@ == "/stream"@,
        r@["stream"@].render_mode == RenderMode::Streaming,
{
    let mut v: Vec<RouteConfig> = Vec::new();
    v.push(RouteConfig::new("home", "/"));
    v.push(RouteConfig::new("stream", "/stream").with_mode(RenderMode::Streaming));
    let ghost s = v@;
    let r = RouteRegistry::from_routes(v);
    proof {
        reveal_strlit("home");
        reveal_strlit("stream");
        let k = keyed_routes(s);
        assert(k.drop_last().drop_last() =~= Seq::empty());
        assert(k[0].0 == "home"@);
        assert(k[1].0 == "stream"@);
        assert(k.drop_last()[0] == k[0]);
        assert(table(k.drop_last()) == table(k.drop_last().drop_last()).insert(k[0].0, k[0].1));
        assert(table(k) == table(k.drop_last()).insert(k[1].0, k[1].1));
        assert(keys_distinct(k));
        lemma_table_len(k);
        assert(r@.dom() =~= set!["home"@, "stream"@]);
    }
    r
}

} // verus!
