use std::sync::Arc;

use vstd::prelude::*;
use vstd::string::*;

use crate::config::RouteConfig;
use crate::errors::{AppError, ErrorCode};
use crate::registry::RouteRegistry;
use crate::render::{page_of, RenderRuntime};
use crate::request::RequestContext;

verus! {

/// Relies on `Arc::clone`: another handle to the same value.
#[verifier::external_body]
fn share<T>(a: &Arc<T>) -> (r: Arc<T>)
    ensures
        *r == **a,
{
    Arc::clone(a)
}

/// Body of the liveness report.
#[derive(Debug)]
pub struct HealthReport {
    pub status: String,
    pub uptime_seconds: u64,
}

/// Body of the readiness report.
#[derive(Debug)]
pub struct ReadinessReport {
    pub status: String,
    pub routes_loaded: usize,
}

/// State shared by every request handler: the render runtime, the route
/// registry and the process start time, none of which changes after
/// construction.
#[derive(Debug)]
pub struct AppState {
    runtime: Arc<RenderRuntime>,
    routes: Arc<RouteRegistry>,
    started_at_secs: u64,
}

impl AppState {
    /// The render runtime.
    pub closed spec fn runtime_spec(&self) -> RenderRuntime {
        *self.runtime
    }

    /// The route registry.
    pub closed spec fn routes_spec(&self) -> RouteRegistry {
        *self.routes
    }

    /// Process start, in seconds since the Unix epoch.
    pub closed spec fn started_at(&self) -> u64 {
        self.started_at_secs
    }

    /// Bundles the runtime, the registry and the start time.
    pub fn new(runtime: RenderRuntime, routes: RouteRegistry, started_at_secs: u64) -> (r: AppState)
        ensures
            r.runtime_spec() == runtime,
            r.routes_spec() == routes,
            r.started_at() == started_at_secs,
    {
        AppState { runtime: Arc::new(runtime), routes: Arc::new(routes), started_at_secs }
    }

    /// A shared handle to the render runtime.
    pub fn runtime(&self) -> (r: Arc<RenderRuntime>)
        ensures
            *r == self.runtime_spec(),
    {
        share(&self.runtime)
    }

    /// The route registry.
    pub fn routes(&self) -> (r: &RouteRegistry)
        ensures
            *r == self.routes_spec(),
    {
        &self.routes
    }

    /// Liveness: always `ok`, with the seconds since start (zero if the
    /// clock reads earlier than the start).
    pub fn health(&self, now_secs: u64) -> (r: HealthReport)
        ensures
            r.status@ == "ok"@,
            r.uptime_seconds == if now_secs >= self.started_at() {
                (now_secs - self.started_at()) as u64
            } else {
                0
            },
    {
        HealthReport {
            status: String::from_str("ok"),
            uptime_seconds: now_secs.saturating_sub(self.started_at_secs),
        }
    }

    /// Readiness: `ready`, with the number of registered routes.
    pub fn readiness(&self) -> (r: ReadinessReport)
        ensures
            r.status@ == "ready"@,
            r.routes_loaded == self.routes_spec()@.dom().len(),
    {
        ReadinessReport { status: String::from_str("ready"), routes_loaded: self.routes.count() }
    }

    /// The route registered under `id`; an unknown identifier is a NotFound.
    pub fn resolve_route(&self, id: &str) -> (r: Result<&RouteConfig, AppError>)
        ensures
            r is Ok <==> self.routes_spec()@.contains_key(id@),
            r matches Ok(c) ==> *c == self.routes_spec()@[id@],
            r matches Err(e) ==> e.code == ErrorCode::NotFound && e.message@ == "route '"@ + id@
                + "' is not registered"@,
    {
        match self.routes.lookup(id) {
            Some(c) => Ok(c),
            None => {
                let mut m = String::from_str("route '");
                m.append(id);
                m.append("' is not registered");
                Err(AppError::new(ErrorCode::NotFound, m.as_str()))
            },
        }
    }

    /// The buffered page of the route registered under `id`.
    pub fn render_route(&self, id: &str, ctx: &RequestContext) -> (r: Result<String, AppError>)
        ensures
            !self.routes_spec()@.contains_key(id@) ==> (r matches Err(e) && e.code
                == ErrorCode::NotFound),
            self.routes_spec()@.contains_key(id@) ==> {
                let c = self.routes_spec()@[id@];
                &&& (c.pattern@.len() == 0 <==> r is Err)
                &&& r matches Err(e) ==> e.code == ErrorCode::BadRequest
                &&& r matches Ok(page) ==> page@ == page_of(
                    self.runtime_spec().config().name@,
                    c.pattern@,
                    ctx.path@,
                )
            },
    {
        let route = match self.resolve_route(id) {
            Ok(c) => c,
            Err(e) => return Err(e),
        };
        self.runtime.render(route, ctx)
    }
}

} // verus!
