//! The per-request decisions a listener makes, as pure functions: the I/O
//! layer hands in the request path and the outcomes of its file-system
//! calls, and takes back the resolved location and the response status.

use vstd::prelude::*;

use crate::resolve::PathResolver;
use crate::resolve::ResolvedPath;
use crate::resolve::TraversalRejected;
use crate::resolve::resolve_segments;
use crate::router::CatchAllRouter;
use crate::router::route_spec;
use crate::router::strip_lead;

verus! {

/// The immutable decision core every request handler shares: the catch-all
/// router (with its registry) and the path resolver.
pub struct ServerCore {
    router: CatchAllRouter,
    resolver: PathResolver,
}

impl ServerCore {
    /// The known project names.
    pub closed spec fn registry_view(&self) -> Seq<Seq<char>> {
        self.router.registry_view()
    }

    /// The fallback project's name.
    pub closed spec fn default_view(&self) -> Seq<char> {
        self.router.default_view()
    }

    /// The web root's path components.
    pub closed spec fn root_view(&self) -> Seq<Seq<char>> {
        self.resolver.root_view()
    }

    /// The configured index file name.
    pub closed spec fn index_view(&self) -> Seq<char> {
        self.resolver.index_view()
    }

    pub fn new(router: CatchAllRouter, resolver: PathResolver) -> (r: ServerCore)
        ensures
            r.registry_view() == router.registry_view(),
            r.default_view() == router.default_view(),
            r.root_view() == resolver.root_view(),
            r.index_view() == resolver.index_view(),
    {
        ServerCore { router, resolver }
    }

    /// The router.
    pub fn router(&self) -> (r: &CatchAllRouter)
        ensures
            r.registry_view() == self.registry_view(),
            r.default_view() == self.default_view(),
    {
        &self.router
    }

    /// The resolver.
    pub fn resolver(&self) -> (r: &PathResolver)
        ensures
            r.root_view() == self.root_view(),
            r.index_view() == self.index_view(),
    {
        &self.resolver
    }

    /// The catch-all listener's decision for one request path: route it to
    /// a project, then resolve it inside that project's subtree, rejecting
    /// a path that would escape the web root.
    pub fn plan_catch_all(&self, uri: &str) -> (r: Result<ResolvedPath, TraversalRejected>)
        ensures
            ({
                let routed = route_spec(self.registry_view(), self.default_view(), uri@);
                match r {
                    Ok(p) => resolve_segments(routed.0, routed.1) matches Some(inner) && p@
                        == self.root_view() + inner,
                    Err(_) => resolve_segments(routed.0, routed.1) is None,
                }
            }),
    {
        let route = self.router.route(uri);
        self.resolver.resolve(&route.project, route.rel.as_str())
    }

    /// A project-bound listener's decision for one request path: the path,
    /// stripped of its leading separator, resolves inside that project's
    /// subtree, and a path that would escape the web root is rejected.
    pub fn plan_project(&self, project: &String, uri: &str) -> (r: Result<
        ResolvedPath,
        TraversalRejected,
    >)
        ensures
            match r {
                Ok(p) => resolve_segments(project@, strip_lead(uri@)) matches Some(inner) && p@
                    == self.root_view() + inner,
                Err(_) => resolve_segments(project@, strip_lead(uri@)) is None,
            },
    {
        let n = uri.unicode_len();
        let rel: &str = if n > 0 && uri.get_char(0) == '/' {
            uri.substring_char(1, n)
        } else {
            uri
        };
        proof {
            assert(rel@ =~= strip_lead(uri@));
        }
        self.resolver.resolve(project, rel)
    }
}

/// The status code the core answers with: a request whose path was rejected
/// as a traversal gets 400, one whose resolved file could not be read gets
/// 404, and a served file gets 200.
pub fn response_status(resolved: bool, read_ok: bool) -> (s: u16)
    ensures
        !resolved ==> s == 400,
        resolved && !read_ok ==> s == 404,
        resolved && read_ok ==> s == 200,
{
    if !resolved {
        400
    } else if !read_ok {
        404
    } else {
        200
    }
}

} // verus!
