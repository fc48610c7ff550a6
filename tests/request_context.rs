use rsengine::pipeline::error_chunk;
use rsengine::render::snapshot_json;
use rsengine::request::resolve_id;
use rsengine::text::contains;
use rsengine::{AppError, ErrorCode, HeaderList, RequestContext};
use uuid::Uuid;

fn context(path: &str, headers: &HeaderList) -> RequestContext {
    RequestContext::from_http_parts("GET", path, headers)
}

#[test]
fn request_id_is_generated_when_missing() {
    let headers = HeaderList::new();
    let ctx = context("/foo", &headers);
    assert!(!Uuid::from_u128(ctx.trace.request_id).is_nil());
}

#[test]
fn cookies_are_parsed() {
    let mut headers = HeaderList::new();
    headers.append("cookie", b"session=abc123; theme=dark");
    let ctx = context("/cookies", &headers);

    assert_eq!(ctx.cookies.get("session"), Some(&"abc123".to_string()));
    assert_eq!(ctx.cookies.get("theme"), Some(&"dark".to_string()));
}

#[test]
fn trace_id_prefers_header_value() {
    let mut headers = HeaderList::new();
    let trace_id = Uuid::new_v4();
    headers.append("x-trace-id", trace_id.to_string().as_bytes());
    let ctx = context("/trace", &headers);

    assert_eq!(ctx.trace.trace_id, trace_id.as_u128());
}

#[test]
fn generated_ids_are_non_nil_and_distinct() {
    let headers = HeaderList::new();
    let ctx = context("/", &headers);
    assert_ne!(ctx.trace.request_id, 0);
    assert_ne!(ctx.trace.trace_id, 0);
    assert_ne!(ctx.trace.request_id, ctx.trace.trace_id);
    assert_eq!(Uuid::from_u128(ctx.trace.request_id).get_version_num(), 4);
}

#[test]
fn request_id_header_is_used_when_valid() {
    let mut headers = HeaderList::new();
    headers.append("x-request-id", b"67e55044-10b1-426f-9247-bb680e5fe0c8");
    let ctx = context("/", &headers);
    assert_eq!(ctx.trace.request_id, 0x67e55044_10b1_426f_9247_bb680e5fe0c8);
}

#[test]
fn invalid_request_id_header_is_replaced() {
    let mut headers = HeaderList::new();
    headers.append("x-request-id", b"not-a-uuid");
    let ctx = context("/", &headers);
    assert_ne!(ctx.trace.request_id, 0);
    assert_eq!(ctx.headers.get("x-request-id"), Some(&"not-a-uuid".to_string()));
}

#[test]
fn malformed_cookie_segments_are_skipped() {
    let mut headers = HeaderList::new();
    headers.append("cookie", b"a=1; junk; =x;  b = 2 ");
    let ctx = context("/", &headers);
    assert_eq!(ctx.cookies.get("a"), Some(&"1".to_string()));
    assert_eq!(ctx.cookies.get("b"), Some(&"2".to_string()));
    assert_eq!(ctx.cookies.get("junk"), None);
    assert_eq!(ctx.cookies.len(), 2);
}

#[test]
fn later_cookie_headers_win() {
    let mut headers = HeaderList::new();
    headers.append("cookie", b"session=old; theme=dark");
    headers.append("cookie", b"session=new");
    let ctx = context("/", &headers);
    assert_eq!(ctx.cookies.get("session"), Some(&"new".to_string()));
    assert_eq!(ctx.cookies.get("theme"), Some(&"dark".to_string()));
}

#[test]
fn header_snapshot_keeps_text_values_last_wins() {
    let mut headers = HeaderList::new();
    headers.append("accept", b"text/html");
    headers.append("x-binary", &[0x66, 0xff]);
    headers.append("accept", b"application/json");
    let ctx = context("/", &headers);
    assert_eq!(ctx.headers.get("accept"), Some(&"application/json".to_string()));
    assert_eq!(ctx.headers.get("x-binary"), None);
    assert_eq!(ctx.headers.len(), 1);
}

#[test]
fn traceparent_is_copied_verbatim() {
    let mut headers = HeaderList::new();
    headers.append("traceparent", b"00-4bf92f3577b34da6a3ce929d0e0e4736-00f067aa0ba902b7-01");
    let ctx = context("/", &headers);
    assert_eq!(
        ctx.trace.parent_trace_id,
        Some("00-4bf92f3577b34da6a3ce929d0e0e4736-00f067aa0ba902b7-01".to_string())
    );
    let none = context("/", &HeaderList::new());
    assert_eq!(none.trace.parent_trace_id, None);
}

#[test]
fn build_uses_generated_ids_only_when_needed() {
    let mut headers = HeaderList::new();
    headers.append("x-trace-id", b"67e55044-10b1-426f-9247-bb680e5fe0c8");
    let ctx = RequestContext::build("POST", "/x", &headers, 7, 9);
    assert_eq!(ctx.trace.request_id, 7);
    assert_eq!(ctx.trace.trace_id, 0x67e55044_10b1_426f_9247_bb680e5fe0c8);
    assert_eq!(ctx.method, "POST");
    assert_eq!(ctx.path, "/x");
}

#[test]
fn header_values_must_be_utf8() {
    let mut headers = HeaderList::new();
    headers.append("x-a", b"a b\tc");
    headers.append("x-b", &[0x61, 0x80]);
    headers.append("x-c", &[0x61, 0x0a]);
    headers.append("x-d", &[0xc3, 0xa9]);
    let ctx = context("/", &headers);
    assert_eq!(ctx.headers.get("x-a"), Some(&"a b\tc".to_string()));
    assert_eq!(ctx.headers.get("x-b"), None);
    assert_eq!(ctx.headers.get("x-c"), Some(&"a\n".to_string()));
    assert_eq!(ctx.headers.get("x-d"), Some(&"\u{e9}".to_string()));
}

#[test]
fn non_ascii_cookies_are_kept() {
    let mut headers = HeaderList::new();
    headers.append("cookie", "a=1; \u{e9}; b=\u{e9}".as_bytes());
    let ctx = context("/", &headers);
    assert_eq!(ctx.cookies.get("a"), Some(&"1".to_string()));
    assert_eq!(ctx.cookies.get("b"), Some(&"\u{e9}".to_string()));
    assert_eq!(ctx.cookies.len(), 2);
}

#[test]
fn escaping_and_quoting() {
    let e = AppError::new(ErrorCode::Internal, "<a href=\"x\">&</a>");
    assert_eq!(
        error_chunk(&e),
        "<section><h2>Render Error</h2><pre>&lt;a href=\"x\"&gt;&amp;&lt;/a&gt;</pre></section>"
    );
    let ctx = RequestContext::build("GET", "a\"b\\c\n\u{1}", &HeaderList::new(), 0x67e55044_10b1_426f_9247_bb680e5fe0c8, 2);
    let snap = snapshot_json(&ctx);
    assert!(snap.contains("\"path\": \"a\\\"b\\\\c\\n\\u0001\""));
    assert!(snap.contains("\"request_id\": \"67e55044-10b1-426f-9247-bb680e5fe0c8\""));
    assert!(contains("export function stream()", "stream"));
    assert!(!contains("console.log", "stream"));
    assert!(contains("abc", ""));
}

#[test]
fn snapshot_is_pretty_json() {
    let mut headers = HeaderList::new();
    headers.append("cookie", b"k=v");
    let ctx = RequestContext::build("GET", "/p", &headers, 1, 2);
    let snap = snapshot_json(&ctx);
    let expected = "{\n  \"cookies\": {\n    \"k\": \"v\"\n  },\n  \"headers\": {\n    \"cookie\": \"k=v\"\n  },\n  \"method\": \"GET\",\n  \"path\": \"/p\",\n  \"trace\": {\n    \"parent_trace_id\": null,\n    \"request_id\": \"00000000-0000-0000-0000-000000000001\",\n    \"trace_id\": \"00000000-0000-0000-0000-000000000002\"\n  }\n}";
    assert_eq!(snap, expected);
    let parsed: serde_json::Value = serde_json::from_str(&snap).unwrap();
    assert_eq!(parsed["path"], "/p");
}

#[test]
fn carried_id_wins_over_generated() {
    assert_eq!(resolve_id(Some(5), 9), 5);
    assert_eq!(resolve_id(None, 9), 9);
}

#[test]
fn names_are_kept_in_order() {
    let mut headers = HeaderList::new();
    headers.append("x-zeta", b"1");
    headers.append("accept", b"2");
    headers.append("x-alpha", b"3");
    headers.append("cookie", b"zz=1; aa=2; mm=3");
    let ctx = context("/", &headers);
    let names: Vec<String> = (0..ctx.headers.len()).map(|i| ctx.headers.entry(i).0.clone()).collect();
    assert_eq!(names, vec!["accept", "cookie", "x-alpha", "x-zeta"]);
    let cookies: Vec<String> = (0..ctx.cookies.len()).map(|i| ctx.cookies.entry(i).0.clone()).collect();
    assert_eq!(cookies, vec!["aa", "mm", "zz"]);
}
