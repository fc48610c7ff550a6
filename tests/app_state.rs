use rsengine::port::port_from;
use rsengine::{
    default_routes, AppError, AppState, ErrorCode, HeaderList, HttpError, InstallOnce, RenderMode,
    RenderRuntime, RequestContext, RouteConfig, RouteRegistry, RuntimeConfig, BundleProbe,
};

fn test_state() -> AppState {
    let probe = BundleProbe::Loaded { contents: "export function stream() {}".to_string() };
    let runtime = RenderRuntime::try_new(RuntimeConfig::new("app.bundle.js"), &probe).unwrap();
    AppState::new(runtime, default_routes(), 1_000)
}

#[test]
fn health_endpoint_reports_ok() {
    let state = test_state();
    let report = state.health(1_042);
    assert_eq!(report.status, "ok");
    assert_eq!(report.uptime_seconds, 42);
    assert_eq!(state.health(10).uptime_seconds, 0);
}

#[test]
fn readiness_reports_route_count() {
    let state = test_state();
    let report = state.readiness();
    assert_eq!(report.status, "ready");
    assert_eq!(report.routes_loaded, 2);
}

#[test]
fn render_route_returns_placeholder_markup() {
    let state = test_state();
    let context = RequestContext::from_http_parts("GET", "/render/home", &HeaderList::new());
    let body = state.render_route("home", &context).unwrap();
    assert!(body.contains("SSR placeholder"));
    assert!(body.contains("Route: /"));
}

#[test]
fn registry_lookup_and_count() {
    let routes = default_routes();
    assert_eq!(routes.count(), 2);
    let home = routes.lookup("home").unwrap();
    assert_eq!(home.pattern, "/");
    assert_eq!(home.render_mode, RenderMode::Blocking);
    assert_eq!(routes.lookup("stream").unwrap().render_mode, RenderMode::Streaming);
    assert!(routes.lookup("missing").is_none());
}

#[test]
fn registry_later_duplicate_wins() {
    let routes = RouteRegistry::from_routes(vec![
        RouteConfig::new("a", "/one"),
        RouteConfig::new("b", "/b"),
        RouteConfig::new("a", "/two"),
    ]);
    assert_eq!(routes.count(), 2);
    assert_eq!(routes.lookup("a").unwrap().pattern, "/two");
    let empty = RouteRegistry::from_routes(Vec::new());
    assert_eq!(empty.count(), 0);
}

#[test]
fn missing_route_becomes_not_found_envelope() {
    let state = test_state();
    let err = state.resolve_route("missing").unwrap_err();
    assert_eq!(err.code(), ErrorCode::NotFound);
    assert_eq!(err.message(), "route 'missing' is not registered");
    let http = HttpError::from(err);
    assert_eq!(http.status(), 404);
    let envelope = http.envelope();
    assert_eq!(envelope.code.as_str(), "not_found");
    assert_eq!(envelope.message, "route 'missing' is not registered");
    let ctx = RequestContext::build("GET", "/render/missing", &HeaderList::new(), 1, 2);
    assert_eq!(state.render_route("missing", &ctx).unwrap_err().code(), ErrorCode::NotFound);
}

#[test]
fn error_codes_map_to_statuses() {
    assert_eq!(ErrorCode::BadRequest.status_code(), 400);
    assert_eq!(ErrorCode::NotFound.status_code(), 404);
    assert_eq!(ErrorCode::UpstreamFailure.status_code(), 502);
    assert_eq!(ErrorCode::Internal.status_code(), 500);
    assert_eq!(ErrorCode::BadRequest.as_str(), "bad_request");
    assert_eq!(ErrorCode::UpstreamFailure.as_str(), "upstream_failure");
    assert_eq!(ErrorCode::Internal.as_str(), "internal");
}

#[test]
fn error_cause_stays_out_of_payload() {
    let err = AppError::new(ErrorCode::Internal, "failed").with_source("disk on fire");
    assert_eq!(err.source, Some("disk on fire".to_string()));
    let payload = err.as_payload();
    assert_eq!(payload.code, ErrorCode::Internal);
    assert_eq!(payload.message, "failed");
}

#[test]
fn route_config_defaults() {
    let c = RouteConfig::new("home", "/");
    assert_eq!(c.id, "home");
    assert_eq!(c.render_mode, RenderMode::Blocking);
    assert_eq!(c.cache_ttl_seconds, None);
    assert_eq!(RenderMode::default(), RenderMode::Blocking);
}

#[test]
fn runtime_handle_is_shared() {
    let state = test_state();
    let a = state.runtime();
    let b = state.runtime();
    assert!(std::sync::Arc::ptr_eq(&a, &b));
    assert_eq!(state.routes().count(), 2);
}

#[test]
fn install_once_keeps_first_handle() {
    let mut slot: InstallOnce<u32> = InstallOnce::new();
    assert_eq!(slot.get(), None);
    assert!(slot.install(7));
    assert!(!slot.install(9));
    assert_eq!(slot.get(), Some(&7));
}

#[test]
fn port_defaults_and_parses() {
    assert_eq!(port_from(None), 3000);
    assert_eq!(port_from(Some("8080")), 8080);
    assert_eq!(port_from(Some("+80")), 80);
    assert_eq!(port_from(Some("65535")), 65535);
    assert_eq!(port_from(Some("65536")), 3000);
    assert_eq!(port_from(Some("")), 3000);
    assert_eq!(port_from(Some("+")), 3000);
    assert_eq!(port_from(Some("80a")), 3000);
    assert_eq!(port_from(Some("-1")), 3000);
    assert_eq!(port_from(Some("0007")), 7);
}
