use rsengine::pipeline::error_chunk;
use rsengine::render::validate_bundle;
use rsengine::{
    AppError, BackendRun, BundleProbe, CollectingWriter, ErrorCode, HeaderList, RenderRuntime,
    RequestContext, RouteConfig, RuntimeConfig, StreamProducer,
};

const HANDLER: &str = "export function stream(ctx) { ctx.write('<div>hello</div>'); }";

fn loaded(text: &str) -> BundleProbe {
    BundleProbe::Loaded { contents: text.to_string() }
}

fn runtime_for(script: &str) -> RenderRuntime {
    RenderRuntime::try_new(RuntimeConfig::new("app.bundle.js"), &loaded(script)).expect("runtime")
}

#[test]
fn runtime_streams_chunks() {
    let runtime = runtime_for(HANDLER);
    let context = RequestContext::from_http_parts("GET", "/stream", &HeaderList::new());

    let mut writer = CollectingWriter::new();
    runtime
        .stream_response(&context, HANDLER, &mut writer)
        .expect("chunks");

    assert!(writer
        .chunks
        .iter()
        .any(|chunk| chunk.contains("Streaming SSR response")));
}

#[test]
fn validate_bundle_requires_stream_handler() {
    let result = RenderRuntime::try_new(
        RuntimeConfig::new("bundle.js"),
        &loaded("console.log('no handler');"),
    );
    assert!(result.is_err());
    let err = result.unwrap_err();
    assert_eq!(err.code(), ErrorCode::BadRequest);
    assert_eq!(err.message(), "bundle 'bundle.js' is missing a `stream` export");
}

#[test]
fn validation_errors_by_probe() {
    let missing = validate_bundle("b.js", &BundleProbe::Missing { cause: "no such file".to_string() })
        .unwrap_err();
    assert_eq!(missing.code(), ErrorCode::Internal);
    assert_eq!(missing.message(), "bundle 'b.js' could not be read");
    assert_eq!(missing.source, Some("no such file".to_string()));

    let dir = validate_bundle("b.js", &BundleProbe::NotAFile).unwrap_err();
    assert_eq!(dir.code(), ErrorCode::BadRequest);
    assert_eq!(dir.message(), "bundle 'b.js' is not a file");

    let unreadable = validate_bundle("b.js", &BundleProbe::Unreadable { cause: "bad utf-8".to_string() })
        .unwrap_err();
    assert_eq!(unreadable.code(), ErrorCode::Internal);
    assert_eq!(unreadable.message(), "failed to load bundle 'b.js'");
    assert_eq!(unreadable.status_code(), 500);

    assert!(validate_bundle("b.js", &loaded(HANDLER)).is_ok());
}

#[test]
fn config_builders() {
    let config = RuntimeConfig::new("x.js").with_name("edge");
    assert_eq!(config.name, "edge");
    assert_eq!(config.bundle_path, "x.js");
    assert_eq!(RuntimeConfig::new("y.js").name, "default");
    let runtime = RenderRuntime::try_new(config, &loaded(HANDLER)).unwrap();
    assert_eq!(runtime.bundle_path(), "x.js");
    assert_eq!(runtime.name(), "edge");
}

#[test]
fn empty_pattern_is_rejected_before_rendering() {
    let runtime = runtime_for(HANDLER);
    let ctx = RequestContext::build("GET", "/", &HeaderList::new(), 1, 2);
    let err = runtime.render(&RouteConfig::new("blank", ""), &ctx).unwrap_err();
    assert_eq!(err.code(), ErrorCode::BadRequest);
    assert_eq!(err.status_code(), 400);
}

#[test]
fn buffered_render_is_exact() {
    let runtime = runtime_for(HANDLER);
    let ctx = RequestContext::build("GET", "/a<b", &HeaderList::new(), 1, 2);
    let page = runtime.render(&RouteConfig::new("home", "/"), &ctx).unwrap();
    assert_eq!(
        page,
        "<!DOCTYPE html><html><head><meta charset=\"utf-8\"><title>default</title></head><body><h1>SSR placeholder</h1><p>Route: /</p><p>Path: /a&lt;b</p></body></html>"
    );
}

#[test]
fn stream_chunks_escape_and_order() {
    let runtime = runtime_for(HANDLER);
    let ctx = RequestContext::build("GET", "/stream", &HeaderList::new(), 1, 2);
    let chunks = runtime.stream_chunks(&ctx, HANDLER).unwrap();
    assert_eq!(chunks.len(), 8);
    assert_eq!(chunks[0], "<!DOCTYPE html>\n<html><head><meta charset=\"utf-8\">");
    assert_eq!(chunks[5], "export function stream(ctx) { ctx.write('&lt;div&gt;hello&lt;/div&gt;'); }");
    let body: String = chunks.concat();
    let snapshot_at = body.find("\"path\": \"/stream\"").unwrap();
    let trace_at = body.find("00000000-0000-0000-0000-000000000002").unwrap();
    let source_at = body.find("&lt;div&gt;hello").unwrap();
    assert!(snapshot_at < source_at);
    assert!(trace_at < source_at);
    assert!(body.ends_with("</body></html>"));
}

#[test]
fn stream_without_handler_fails_before_writing() {
    let runtime = runtime_for(HANDLER);
    let ctx = RequestContext::build("GET", "/", &HeaderList::new(), 1, 2);
    let mut writer = CollectingWriter::new();
    let err = runtime.stream_response(&ctx, "console.log(1)", &mut writer).unwrap_err();
    assert_eq!(err.code(), ErrorCode::BadRequest);
    assert_eq!(err.message(), "bundle does not define a `stream` handler");
    assert!(writer.chunks.is_empty());
}

#[test]
fn late_failure_becomes_escaped_final_chunk() {
    let run = BackendRun {
        chunks: vec!["<p>1</p>".to_string(), "<p>2</p>".to_string()],
        failure: Some(AppError::new(ErrorCode::UpstreamFailure, "boom <script>")),
    };
    let mut producer = StreamProducer::new(run);
    let mut body = Vec::new();
    while let Some(chunk) = producer.next_chunk() {
        body.push(chunk);
        producer.on_sent(true);
    }
    assert_eq!(
        body,
        vec![
            "<p>1</p>".to_string(),
            "<p>2</p>".to_string(),
            "<section><h2>Render Error</h2><pre>boom &lt;script&gt;</pre></section>".to_string(),
        ]
    );
}

#[test]
fn producer_stops_when_consumer_is_gone() {
    let run = BackendRun {
        chunks: vec!["a".to_string(), "b".to_string(), "c".to_string()],
        failure: None,
    };
    let mut producer = StreamProducer::new(run);
    assert_eq!(producer.next_chunk(), Some("a".to_string()));
    producer.on_sent(false);
    assert_eq!(producer.next_chunk(), None);
    assert_eq!(producer.next_chunk(), None);
}

#[test]
fn failure_before_first_chunk_is_only_error_chunk() {
    let run = BackendRun::from_result(Err(AppError::new(ErrorCode::Internal, "x & y")));
    let mut producer = StreamProducer::new(run);
    assert_eq!(
        producer.next_chunk(),
        Some("<section><h2>Render Error</h2><pre>x &amp; y</pre></section>".to_string())
    );
    producer.on_sent(true);
    assert_eq!(producer.next_chunk(), None);
    let e = AppError::new(ErrorCode::Internal, "a>b");
    assert_eq!(error_chunk(&e), "<section><h2>Render Error</h2><pre>a&gt;b</pre></section>");
}

#[test]
fn stream_endpoint_returns_chunked_html() {
    let script = "export function stream(context) { context.write('<div>Hello</div>'); }\n";
    let runtime = runtime_for(script);
    let ctx = RequestContext::from_http_parts("GET", "/stream", &HeaderList::new());
    let run = BackendRun::from_result(runtime.stream_chunks(&ctx, script));
    let mut producer = StreamProducer::new(run);
    let mut html = String::new();
    while let Some(chunk) = producer.next_chunk() {
        html.push_str(&chunk);
        producer.on_sent(true);
    }
    assert!(html.contains("Streaming SSR response"));
    assert!(html.contains("Hello"));
}

#[test]
fn title_and_banner_stand_as_configured() {
    let config = RuntimeConfig::new("dist/a&b.js").with_name("edge<1>");
    let runtime = RenderRuntime::try_new(config, &loaded(HANDLER)).unwrap();
    let ctx = RequestContext::build("GET", "/", &HeaderList::new(), 1, 2);
    let chunks = runtime.stream_chunks(&ctx, HANDLER).unwrap();
    assert_eq!(chunks[1], "<title>edge<1></title></head><body>");
    assert_eq!(chunks[2], "<h1>Streaming SSR response</h1><p>Bundle: dist/a&b.js</p>");
    assert_eq!(
        chunks[6],
        "</pre></section><script>// stream handler executed inside V8 in future milestones</script>"
    );
}

#[test]
fn validation_cause_is_kept_by_constructor() {
    let err = RenderRuntime::try_new(
        RuntimeConfig::new("b.js"),
        &BundleProbe::Unreadable { cause: "bad utf-8".to_string() },
    )
    .unwrap_err();
    assert_eq!(err.source, Some("bad utf-8".to_string()));
}

#[test]
fn failed_bundle_read_is_internal_with_cause() {
    let runtime = runtime_for(HANDLER);
    let ctx = RequestContext::build("GET", "/", &HeaderList::new(), 1, 2);
    let read: Result<String, String> = Err("permission denied".to_string());
    let err = runtime.stream_chunks_from_read(&ctx, &read).unwrap_err();
    assert_eq!(err.code(), ErrorCode::Internal);
    assert_eq!(err.message(), "failed to read bundle 'app.bundle.js'");
    assert_eq!(err.source, Some("permission denied".to_string()));
    let mut writer = CollectingWriter::new();
    let err = runtime.stream_response_from_read(&ctx, &read, &mut writer).unwrap_err();
    assert_eq!(err.code(), ErrorCode::Internal);
    assert!(writer.chunks.is_empty());
    let ok: Result<String, String> = Ok(HANDLER.to_string());
    runtime.stream_response_from_read(&ctx, &ok, &mut writer).unwrap();
    assert_eq!(writer.chunks.len(), 8);
    assert_eq!(runtime.stream_chunks_from_read(&ctx, &ok).unwrap().len(), 8);
}
