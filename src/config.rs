use vstd::prelude::*;

verus! {

/// Controls how a route should be rendered by the runtime.
#[derive(Debug, Clone, Copy, PartialEq, Eq, Structural)]
pub enum RenderMode {
    /// Render synchronously and buffer the full response before sending it.
    Blocking,
    /// Stream the response as chunks become available from the runtime.
    Streaming,
}

impl Default for RenderMode {
    fn default() -> (r: RenderMode)
        ensures
            r == RenderMode::Blocking,
    {
        RenderMode::Blocking
    }
}

/// Declarative configuration for a renderable route.
#[derive(Debug)]
pub struct RouteConfig {
    /// Stable identifier, unique within a registry.
    pub id: String,
    /// Human-readable route pattern (e.g. `/products/:id`).
    pub pattern: String,
    /// Rendering strategy for this route.
    pub render_mode: RenderMode,
    /// Optional time-to-live for cached render results, in seconds.
    pub cache_ttl_seconds: Option<u64>,
}

impl RouteConfig {
    /// Creates a blocking, uncached route configuration.
    pub fn new(id: &str, pattern: &str) -> (r: RouteConfig)
        ensures
            r.id@ == id@,
            r.pattern@ == pattern@,
            r.render_mode == RenderMode::Blocking,
            r.cache_ttl_seconds is None,
    {
        RouteConfig {
            id: id.to_owned(),
            pattern: pattern.to_owned(),
            render_mode: RenderMode::Blocking,
            cache_ttl_seconds: None,
        }
    }

    /// Sets the rendering strategy.
    pub fn with_mode(self, mode: RenderMode) -> (r: RouteConfig)
        ensures
            r.id == self.id,
            r.pattern == self.pattern,
            r.render_mode == mode,
            r.cache_ttl_seconds == self.cache_ttl_seconds,
    {
        let mut c = self;
        c.render_mode = mode;
        c
    }
}

} // verus!
