//! The catch-all routing policy: picking a project for a request whose
//! path did not arrive on a project-bound listener.

use vstd::prelude::*;

use crate::registry::ProjectRegistry;

verus! {

/// The path with its one leading separator removed, if it has one.
pub open spec fn strip_lead(s: Seq<char>) -> Seq<char> {
    if s.len() > 0 && s[0] == '/' {
        s.drop_first()
    } else {
        s
    }
}

/// The index of the first separator in `s`, or `s.len()` if there is none.
pub open spec fn first_sep(s: Seq<char>) -> int
    decreases s.len(),
{
    if s.len() == 0 {
        0
    } else if s[0] == '/' {
        0
    } else {
        1 + first_sep(s.drop_first())
    }
}

proof fn lemma_first_sep_at(s: Seq<char>, k: int)
    requires
        0 <= k <= s.len(),
        forall|i: int| 0 <= i < k ==> s[i] != '/',
        k < s.len() ==> s[k] == '/',
    ensures
        first_sep(s) == k,
    decreases s.len(),
{
    if s.len() == 0 {
    } else if s[0] == '/' {
        assert(k == 0);
    } else {
        assert(k > 0);
        assert forall|i: int| 0 <= i < k - 1 implies s.drop_first()[i] != '/' by {
            assert(s.drop_first()[i] == s[i + 1]);
        }
        lemma_first_sep_at(s.drop_first(), k - 1);
    }
}

/// The routing policy on an incoming request path, after the leading
/// separator is stripped:
/// - a path with a separator splits at the first one into a head and a
///   tail; a head naming a known project routes there with the tail as the
///   relative path, any other head routes the whole stripped path under the
///   default project;
/// - a path without a separator routes to the project it names, or to the
///   default project otherwise; an empty path routes to the default
///   project. In these cases the relative path is empty, which later
///   triggers the index-file rule at the project's root directory.
pub open spec fn route_spec(reg: Seq<Seq<char>>, default: Seq<char>, uri: Seq<char>) -> (
    Seq<char>,
    Seq<char>,
) {
    let p = strip_lead(uri);
    let k = first_sep(p);
    if k < p.len() {
        let head = p.subrange(0, k);
        let tail = p.subrange(k + 1, p.len() as int);
        if reg.contains(head) {
            (head, tail)
        } else {
            (default, p)
        }
    } else if p.len() == 0 {
        (default, Seq::<char>::empty())
    } else if reg.contains(p) {
        (p, Seq::<char>::empty())
    } else {
        (default, p)
    }
}

/// The router never invents a target: every request is routed either to a
/// project the registry knows or to the default project.
pub proof fn lemma_route_target_known(reg: Seq<Seq<char>>, default: Seq<char>, uri: Seq<char>)
    ensures
        ({
            let routed = route_spec(reg, default, uri);
            routed.0 == default || reg.contains(routed.0)
        }),
{
}

/// A routing decision: the chosen project and the path relative to it.
pub struct Route {
    pub project: String,
    pub rel: String,
}

/// Routes unmatched requests, deciding by the first path segment whether
/// they belong to a known project or fall back to the default one.
pub struct CatchAllRouter {
    registry: ProjectRegistry,
    default_project: String,
}

impl CatchAllRouter {
    /// The known project names.
    pub closed spec fn registry_view(&self) -> Seq<Seq<char>> {
        self.registry@
    }

    /// The fallback project's name.
    pub closed spec fn default_view(&self) -> Seq<char> {
        self.default_project@
    }

    pub fn new(registry: ProjectRegistry, default_project: String) -> (r: CatchAllRouter)
        ensures
            r.registry_view() == registry@,
            r.default_view() == default_project@,
    {
        CatchAllRouter { registry, default_project }
    }

    /// The registry the router consults.
    pub fn registry(&self) -> (r: &ProjectRegistry)
        ensures
            r@ == self.registry_view(),
    {
        &self.registry
    }

    /// The fallback project's name.
    pub fn default_project(&self) -> (r: &String)
        ensures
            r@ == self.default_view(),
    {
        &self.default_project
    }

    /// Applies the routing policy to one request path.
    pub fn route(&self, uri: &str) -> (r: Route)
        ensures
            r.project@ == route_spec(self.registry_view(), self.default_view(), uri@).0,
            r.rel@ == route_spec(self.registry_view(), self.default_view(), uri@).1,
    {
        let n = uri.unicode_len();
        let stripped: &str = if n > 0 && uri.get_char(0) == '/' {
            uri.substring_char(1, n)
        } else {
            uri
        };
        proof {
            assert(stripped@ =~= strip_lead(uri@));
        }
        let m = stripped.unicode_len();
        let mut k: usize = 0;
        while k < m && stripped.get_char(k) != '/'
            invariant
                k <= m,
                m == stripped@.len(),
                forall|i: int| 0 <= i < k ==> stripped@[i] != '/',
            decreases m - k,
        {
            k += 1;
        }
        proof {
            lemma_first_sep_at(stripped@, k as int);
        }
        if k < m {
            let head = stripped.substring_char(0, k).to_owned();
            let tail = stripped.substring_char(k + 1, m).to_owned();
            proof {
                assert(head@ =~= stripped@.subrange(0, k as int));
                assert(tail@ =~= stripped@.subrange(k + 1, m as int));
            }
            if self.registry.contains(&head) {
                Route { project: head, rel: tail }
            } else {
                Route { project: self.default_project.clone(), rel: stripped.to_owned() }
            }
        } else {
            if stripped.is_empty() {
                Route { project: self.default_project.clone(), rel: String::new() }
            } else {
                let whole = stripped.to_owned();
                if self.registry.contains(&whole) {
                    Route { project: whole, rel: String::new() }
                } else {
                    Route { project: self.default_project.clone(), rel: whole }
                }
            }
        }
    }
}

} // verus!
