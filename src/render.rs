use vstd::prelude::*;
use vstd::string::*;

use crate::config::RouteConfig;
use crate::errors::{AppError, ErrorCode};
use crate::pipeline::ResponseWriter;
use crate::request::{hyphenated, uuid_text, RequestContext};
use crate::text::{contains, escape_html, html_escaped, json_quoted, json_string, occurs_at, occurs_in};
use crate::textmap::TextMap;

verus! {

broadcast use vstd::string::group_string_axioms;

// ---------------------------------------------------------------------------
// Request snapshot

/// One `"name": "value"` member of a nested object.
pub open spec fn member_text(p: (Seq<char>, Seq<char>)) -> Seq<char> {
    "    "@ + json_quoted(p.0) + ": "@ + json_quoted(p.1)
}

/// The members of a nested object, one per line.
pub open spec fn members_text(pairs: Seq<(Seq<char>, Seq<char>)>) -> Seq<char>
    decreases pairs.len(),
{
    if pairs.len() <= 1 {
        if pairs.len() == 0 {
            Seq::empty()
        } else {
            member_text(pairs[0])
        }
    } else {
        members_text(pairs.drop_last()) + ",\n"@ + member_text(pairs.last())
    }
}

/// A nested object of string members, pretty-printed.
pub open spec fn object_text(pairs: Seq<(Seq<char>, Seq<char>)>) -> Seq<char> {
    if pairs.len() == 0 {
        "{}"@
    } else {
        "{\n"@ + members_text(pairs) + "\n  }"@
    }
}

/// The parent trace, as a JSON value.
pub open spec fn parent_text(p: Option<Seq<char>>) -> Seq<char> {
    match p {
        Some(t) => json_quoted(t),
        None => "null"@,
    }
}

/// The pretty-printed JSON snapshot of a request context: cookies,
/// headers, method, path and the trace triple, every object's keys in order.
pub open spec fn snapshot_text(ctx: RequestContext) -> Seq<char> {
    "{\n  \"cookies\": "@ + object_text(ctx.cookies.pairs()) + ",\n  \"headers\": "@ + object_text(
        ctx.headers.pairs(),
    ) + ",\n  \"method\": "@ + json_quoted(ctx.method@) + ",\n  \"path\": "@ + json_quoted(ctx.path@)
        + ",\n  \"trace\": {\n    \"parent_trace_id\": "@ + parent_text(
        crate::request::opt_text(ctx.trace.parent_trace_id),
    ) + ",\n    \"request_id\": \""@ + hyphenated(ctx.trace.request_id) + "\",\n    \"trace_id\": \""@
        + hyphenated(ctx.trace.trace_id) + "\"\n  }\n}"@
}

/// Writes the members of `map` as a pretty-printed JSON object.
fn object_json(map: &TextMap) -> (r: String)
    ensures
        r@ == object_text(map.pairs()),
{
    let n = map.len();
    if n == 0 {
        return String::from_str("{}");
    }
    let mut out = String::from_str("{\n");
    let mut i: usize = 0;
    while i < n
        invariant
            n == map.pairs().len(),
            0 < n,
            i <= n,
            i == 0 ==> out@ == "{\n"@,
            i > 0 ==> out@ == "{\n"@ + members_text(map.pairs().take(i as int)),
        decreases n - i,
    {
        let (k, v) = map.entry(i);
        let ghost before = out@;
        if i > 0 {
            out.append(",\n");
        }
        out.append("    ");
        let qk = json_string(k.as_str());
        out.append(qk.as_str());
        out.append(": ");
        let qv = json_string(v.as_str());
        out.append(qv.as_str());
        proof {
            let t = map.pairs().take(i + 1);
            assert(t.drop_last() =~= map.pairs().take(i as int));
            assert(t.last() == map.pairs()[i as int]);
            if i > 0 {
                assert(out@ =~= "{\n"@ + members_text(t));
            } else {
                assert(out@ =~= "{\n"@ + members_text(t));
            }
        }
        i = i + 1;
    }
    out.append("\n  }");
    assert(map.pairs().take(n as int) =~= map.pairs());
    out
}

/// Serialises the request context for the observability section.
pub fn snapshot_json(ctx: &RequestContext) -> (r: String)
    ensures
        r@ == snapshot_text(*ctx),
{
    let mut out = String::from_str("{\n  \"cookies\": ");
    out.append(object_json(&ctx.cookies).as_str());
    out.append(",\n  \"headers\": ");
    out.append(object_json(&ctx.headers).as_str());
    out.append(",\n  \"method\": ");
    out.append(json_string(ctx.method.as_str()).as_str());
    out.append(",\n  \"path\": ");
    out.append(json_string(ctx.path.as_str()).as_str());
    out.append(",\n  \"trace\": {\n    \"parent_trace_id\": ");
    match &ctx.trace.parent_trace_id {
        Some(p) => out.append(json_string(p.as_str()).as_str()),
        None => out.append("null"),
    }
    out.append(",\n    \"request_id\": \"");
    out.append(uuid_text(ctx.trace.request_id).as_str());
    out.append("\",\n    \"trace_id\": \"");
    out.append(uuid_text(ctx.trace.trace_id).as_str());
    out.append("\"\n  }\n}");
    out
}

// ---------------------------------------------------------------------------
// Runtime configuration and bundle validation

/// Configuration parameters for the render runtime.
#[derive(Debug)]
pub struct RuntimeConfig {
    /// Friendly name used in logs and page titles.
    pub name: String,
    /// Path to the script bundle that exposes the `stream` handler.
    pub bundle_path: String,
}

impl RuntimeConfig {
    /// A configuration named `default` for the given bundle.
    pub fn new(bundle_path: &str) -> (r: RuntimeConfig)
        ensures
            r.name@ == "default"@,
            r.bundle_path@ == bundle_path@,
    {
        RuntimeConfig { name: String::from_str("default"), bundle_path: bundle_path.to_owned() }
    }

    /// Overrides the human readable name of the runtime.
    pub fn with_name(self, name: &str) -> (r: RuntimeConfig)
        ensures
            r.name@ == name@,
            r.bundle_path == self.bundle_path,
    {
        let mut c = self;
        c.name = name.to_owned();
        c
    }
}

/// What reading the bundle from storage gave.
#[derive(Debug)]
pub enum BundleProbe {
    /// Its metadata could not be read.
    Missing { cause: String },
    /// It exists but is not a regular file.
    NotAFile,
    /// It is a file whose contents could not be read as text.
    Unreadable { cause: String },
    /// Its text.
    Loaded { contents: String },
}

/// The name of the entry point that a bundle must expose.
pub open spec fn entry_point() -> Seq<char> {
    "stream"@
}

/// The error that validation reports for a probe of the bundle at `path`,
/// as code and message; none for a valid bundle.
pub open spec fn bundle_problem(path: Seq<char>, probe: BundleProbe) -> Option<(ErrorCode, Seq<char>)> {
    match probe {
        BundleProbe::Missing { .. } => Some(
            (ErrorCode::Internal, "bundle '"@ + path + "' could not be read"@),
        ),
        BundleProbe::NotAFile => Some((ErrorCode::BadRequest, "bundle '"@ + path + "' is not a file"@)),
        BundleProbe::Unreadable { .. } => Some(
            (ErrorCode::Internal, "failed to load bundle '"@ + path + "'"@),
        ),
        BundleProbe::Loaded { contents } => if occurs_in(contents@, entry_point()) {
            None
        } else {
            Some((ErrorCode::BadRequest, "bundle '"@ + path + "' is missing a `stream` export"@))
        },
    }
}

/// The message for a bundle that could not be read at request time.
pub open spec fn read_failure_message(path: Seq<char>) -> Seq<char> {
    "failed to read bundle '"@ + path + "'"@
}

/// The diagnostic cause a probe carries, if any.
pub open spec fn probe_cause(probe: BundleProbe) -> Option<Seq<char>> {
    match probe {
        BundleProbe::Missing { cause } => Some(cause@),
        BundleProbe::Unreadable { cause } => Some(cause@),
        _ => None,
    }
}

/// `prefix`, then `path`, then `suffix`.
fn framed(prefix: &str, path: &str, suffix: &str) -> (r: String)
    ensures
        r@ == prefix@ + path@ + suffix@,
{
    let mut s = prefix.to_owned();
    s.append(path);
    s.append(suffix);
    s
}

/// Checks that the bundle at `path` is a readable regular file exposing the
/// `stream` entry point; storage failures carry their cause.
pub fn validate_bundle(path: &str, probe: &BundleProbe) -> (r: Result<(), AppError>)
    ensures
        r is Ok <==> bundle_problem(path@, *probe) is None,
        r matches Err(e) ==> bundle_problem(path@, *probe) == Some((e.code, e.message@)),
        r matches Err(e) ==> opt_cause(e.source) == probe_cause(*probe),
{
    match probe {
        BundleProbe::Missing { cause } => {
            let m = framed("bundle '", path, "' could not be read");
            Err(AppError::new(ErrorCode::Internal, m.as_str()).with_source(cause.as_str()))
        },
        BundleProbe::NotAFile => {
            let m = framed("bundle '", path, "' is not a file");
            Err(AppError::new(ErrorCode::BadRequest, m.as_str()))
        },
        BundleProbe::Unreadable { cause } => {
            let m = framed("failed to load bundle '", path, "'");
            Err(AppError::new(ErrorCode::Internal, m.as_str()).with_source(cause.as_str()))
        },
        BundleProbe::Loaded { contents } => {
            if contains(contents.as_str(), "stream") {
                Ok(())
            } else {
                let m = framed("bundle '", path, "' is missing a `stream` export");
                Err(AppError::new(ErrorCode::BadRequest, m.as_str()))
            }
        },
    }
}

/// Text of an optional cause.
pub open spec fn opt_cause(o: Option<String>) -> Option<Seq<char>> {
    match o {
        Some(s) => Some(s@),
        None => None,
    }
}

/// The text that a sequence of chunks forms on the wire.
pub open spec fn joined(s: Seq<Seq<char>>) -> Seq<char>
    decreases s.len(),
{
    if s.len() == 0 {
        Seq::empty()
    } else {
        joined(s.drop_last()) + s.last()
    }
}

/// A streamed page shows the request snapshot, then the bundle's content,
/// both escaped, in that order.
pub proof fn lemma_snapshot_precedes_body(
    name: Seq<char>,
    path: Seq<char>,
    snapshot: Seq<char>,
    script: Seq<char>,
)
    ensures
        ({
            let body = joined(stream_chunks_of(name, path, snapshot, script));
            exists|i: int, j: int|
                occurs_at(body, html_escaped(snapshot), i) && occurs_at(body, html_escaped(script), j)
                    && i + html_escaped(snapshot).len() <= j
        }),
{
    let c = stream_chunks_of(name, path, snapshot, script);
    reveal_with_fuel(joined, 9);
    assert(c.take(8) =~= c);
    assert(c.take(7) =~= c.take(8).drop_last());
    let head = "<section><h2>Request Context</h2><pre>"@;
    let e = html_escaped(snapshot);
    let a = joined(c.take(3));
    let b = joined(c.take(5));
    let body = joined(c);
    assert(c.take(8).drop_last().drop_last() =~= c.take(6));
    assert(c.take(6).drop_last() =~= c.take(5));
    assert(c.take(5).drop_last() =~= c.take(4));
    assert(c.take(4).drop_last() =~= c.take(3));
    assert(body =~= b + c[5] + c[6] + c[7]);
    assert(b =~= a + c[3] + c[4]);
    assert(c[3] =~= head + e + "</pre></section>"@);
    let i: int = (a.len() + head.len()) as int;
    let j: int = b.len() as int;
    assert(body.subrange(i, i + e.len()) =~= e);
    assert(body.subrange(j, j + c[5].len()) =~= c[5]);
    assert(occurs_at(body, e, i));
    assert(occurs_at(body, html_escaped(script), j));
}

/// The snapshot of a request names its path and both trace identifiers.
pub proof fn lemma_snapshot_mentions(ctx: RequestContext)
    ensures
        occurs_in(snapshot_text(ctx), json_quoted(ctx.path@)),
        occurs_in(snapshot_text(ctx), hyphenated(ctx.trace.request_id)),
        occurs_in(snapshot_text(ctx), hyphenated(ctx.trace.trace_id)),
{
    let pre = "{\n  \"cookies\": "@ + object_text(ctx.cookies.pairs()) + ",\n  \"headers\": "@
        + object_text(ctx.headers.pairs()) + ",\n  \"method\": "@ + json_quoted(ctx.method@)
        + ",\n  \"path\": "@;
    let qp = json_quoted(ctx.path@);
    let mid = ",\n  \"trace\": {\n    \"parent_trace_id\": "@ + parent_text(
        crate::request::opt_text(ctx.trace.parent_trace_id),
    ) + ",\n    \"request_id\": \""@;
    let rid = hyphenated(ctx.trace.request_id);
    let mid2 = "\",\n    \"trace_id\": \""@;
    let tid = hyphenated(ctx.trace.trace_id);
    let rest = "\"\n  }\n}"@;
    let snap = snapshot_text(ctx);
    assert(snap =~= pre + qp + mid + rid + mid2 + tid + rest);
    let i = pre.len() as int;
    assert(snap.subrange(i, i + qp.len()) =~= qp);
    assert(occurs_at(snap, qp, i));
    let j = (pre.len() + qp.len() + mid.len()) as int;
    assert(snap.subrange(j, j + rid.len()) =~= rid);
    assert(occurs_at(snap, rid, j));
    let k = (pre.len() + qp.len() + mid.len() + rid.len() + mid2.len()) as int;
    assert(snap.subrange(k, k + tid.len()) =~= tid);
    assert(occurs_at(snap, tid, k));
}

// ---------------------------------------------------------------------------
// The runtime

/// A validated script bundle that renders pages, buffered or streamed.
#[derive(Debug)]
pub struct RenderRuntime {
    config: RuntimeConfig,
}

/// The opening of a streamed document.
pub open spec fn preamble() -> Seq<char> {
    "<!DOCTYPE html>\n<html><head><meta charset=\"utf-8\">"@
}

/// The chunks of a streamed page, in the order they are sent: preamble and
/// head, banner, request snapshot, bundle source, and the document close.
/// The request snapshot and the bundle text are HTML-escaped; the runtime
/// name and bundle path are operator settings and stand as given.
pub open spec fn stream_chunks_of(
    name: Seq<char>,
    path: Seq<char>,
    snapshot: Seq<char>,
    script: Seq<char>,
) -> Seq<Seq<char>> {
    seq![
        preamble(),
        "<title>"@ + name + "</title></head><body>"@,
        "<h1>Streaming SSR response</h1><p>Bundle: "@ + path + "</p>"@,
        "<section><h2>Request Context</h2><pre>"@ + html_escaped(snapshot) + "</pre></section>"@,
        "<section><h2>Bundle Source</h2><pre>"@,
        html_escaped(script),
        script_placeholder(),
        "</body></html>"@,
    ]
}

/// The close of the bundle section, with a placeholder where the bundle's
/// handler will run.
pub open spec fn script_placeholder() -> Seq<char> {
    "</pre></section><script>// stream handler executed inside V8 in future milestones</script>"@
}

/// The buffered page for a route.
pub open spec fn page_of(name: Seq<char>, pattern: Seq<char>, path: Seq<char>) -> Seq<char> {
    "<!DOCTYPE html><html><head><meta charset=\"utf-8\"><title>"@ + html_escaped(name)
        + "</title></head><body><h1>SSR placeholder</h1><p>Route: "@ + html_escaped(pattern)
        + "</p><p>Path: "@ + html_escaped(path) + "</p></body></html>"@
}

/// Views of a list of strings.
pub open spec fn texts(v: Seq<String>) -> Seq<Seq<char>> {
    v.map_values(|s: String| s@)
}

impl RenderRuntime {
    /// The configuration the runtime was built from.
    pub closed spec fn config(&self) -> RuntimeConfig {
        self.config
    }

    /// Validates the bundle, as probed, and constructs the runtime.
    pub fn try_new(config: RuntimeConfig, probe: &BundleProbe) -> (r: Result<RenderRuntime, AppError>)
        ensures
            r is Ok <==> bundle_problem(config.bundle_path@, *probe) is None,
            r matches Ok(rt) ==> rt.config() == config,
            r matches Err(e) ==> bundle_problem(config.bundle_path@, *probe) == Some(
                (e.code, e.message@),
            ),
            r matches Err(e) ==> opt_cause(e.source) == probe_cause(*probe),
    {
        match validate_bundle(config.bundle_path.as_str(), probe) {
            Ok(()) => Ok(RenderRuntime { config }),
            Err(e) => Err(e),
        }
    }

    /// Path of the bundle currently loaded.
    pub fn bundle_path(&self) -> (r: &str)
        ensures
            r@ == self.config().bundle_path@,
    {
        self.config.bundle_path.as_str()
    }

    /// The chunks of the streamed page for a request and bundle text.
    pub open spec fn chunks_for(&self, ctx: RequestContext, script: Seq<char>) -> Seq<Seq<char>> {
        stream_chunks_of(self.config().name@, self.config().bundle_path@, snapshot_text(ctx), script)
    }

    /// Name of the runtime.
    pub fn name(&self) -> (r: &str)
        ensures
            r@ == self.config().name@,
    {
        self.config.name.as_str()
    }

    /// Renders a route as one complete document; an empty route pattern is
    /// rejected before the bundle is involved.
    pub fn render(&self, route: &RouteConfig, ctx: &RequestContext) -> (r: Result<String, AppError>)
        ensures
            route.pattern@.len() == 0 <==> r is Err,
            r matches Err(e) ==> e.code == ErrorCode::BadRequest
                && e.message@ == "route pattern must not be empty"@,
            r matches Ok(page) ==> page@ == page_of(self.config().name@, route.pattern@, ctx.path@),
    {
        if route.pattern.as_str().is_empty() {
            return Err(AppError::new(ErrorCode::BadRequest, "route pattern must not be empty"));
        }
        let mut page = String::from_str(
            "<!DOCTYPE html><html><head><meta charset=\"utf-8\"><title>",
        );
        page.append(escape_html(self.config.name.as_str()).as_str());
        page.append("</title></head><body><h1>SSR placeholder</h1><p>Route: ");
        page.append(escape_html(route.pattern.as_str()).as_str());
        page.append("</p><p>Path: ");
        page.append(escape_html(ctx.path.as_str()).as_str());
        page.append("</p></body></html>");
        Ok(page)
    }

    /// The chunks of the streamed page for a request, given the bundle's
    /// current text; a bundle without the `stream` entry point is rejected.
    pub fn stream_chunks(&self, ctx: &RequestContext, script: &str) -> (r: Result<Vec<String>, AppError>)
        ensures
            r is Ok <==> occurs_in(script@, entry_point()),
            r matches Err(e) ==> e.code == ErrorCode::BadRequest
                && e.message@ == "bundle does not define a `stream` handler"@,
            r matches Ok(chunks) ==> texts(chunks@) == stream_chunks_of(
                self.config().name@,
                self.config().bundle_path@,
                snapshot_text(*ctx),
                script@,
            ),
    {
        if !contains(script, "stream") {
            return Err(AppError::new(ErrorCode::BadRequest, "bundle does not define a `stream` handler"));
        }
        let snapshot = snapshot_json(ctx);
        let mut chunks: Vec<String> = Vec::new();
        chunks.push(String::from_str("<!DOCTYPE html>\n<html><head><meta charset=\"utf-8\">"));
        chunks.push(framed("<title>", self.config.name.as_str(), "</title></head><body>"));
        chunks.push(
            framed(
                "<h1>Streaming SSR response</h1><p>Bundle: ",
                self.config.bundle_path.as_str(),
                "</p>",
            ),
        );
        chunks.push(
            framed(
                "<section><h2>Request Context</h2><pre>",
                escape_html(snapshot.as_str()).as_str(),
                "</pre></section>",
            ),
        );
        chunks.push(String::from_str("<section><h2>Bundle Source</h2><pre>"));
        chunks.push(escape_html(script));
        chunks.push(
            String::from_str(
                "</pre></section><script>// stream handler executed inside V8 in future milestones</script>",
            ),
        );
        chunks.push(String::from_str("</body></html>"));
        assert(texts(chunks@) =~= stream_chunks_of(
            self.config().name@,
            self.config().bundle_path@,
            snapshot_text(*ctx),
            script@,
        ));
        Ok(chunks)
    }
    /// The error for a bundle that could not be read when a page was
    /// requested: Internal, carrying the cause.
    fn read_failure(&self, cause: &String) -> (r: AppError)
        ensures
            r.code == ErrorCode::Internal,
            r.message@ == read_failure_message(self.config().bundle_path@),
            opt_cause(r.source) == Some(cause@),
    {
        let m = framed("failed to read bundle '", self.config.bundle_path.as_str(), "'");
        AppError::new(ErrorCode::Internal, m.as_str()).with_source(cause.as_str())
    }

    /// The chunks of the streamed page, given what reading the bundle gave:
    /// its text, or the cause of the failure.
    pub fn stream_chunks_from_read(&self, ctx: &RequestContext, read: &Result<String, String>) -> (r:
        Result<Vec<String>, AppError>)
        ensures
            read matches Err(cause) ==> (r matches Err(e) && e.code == ErrorCode::Internal
                && e.message@ == read_failure_message(self.config().bundle_path@) && opt_cause(e.source)
                == Some(cause@)),
            read matches Ok(script) ==> (r is Ok <==> occurs_in(script@, entry_point())),
            read matches Ok(script) ==> (r matches Err(e) ==> e.code == ErrorCode::BadRequest
                && e.message@ == "bundle does not define a `stream` handler"@),
            read matches Ok(script) ==> (r matches Ok(c) ==> texts(c@) == self.chunks_for(*ctx, script@)),
    {
        match read {
            Ok(script) => self.stream_chunks(ctx, script.as_str()),
            Err(cause) => Err(self.read_failure(cause)),
        }
    }

    /// Streams the page into `writer`, given what reading the bundle gave; a
    /// failed read is reported before anything is written.
    pub fn stream_response_from_read<W: ResponseWriter>(
        &self,
        ctx: &RequestContext,
        read: &Result<String, String>,
        writer: &mut W,
    ) -> (r: Result<(), AppError>)
        ensures
            read matches Err(cause) ==> {
                &&& r matches Err(e)
                &&& e.code == ErrorCode::Internal
                &&& e.message@ == read_failure_message(self.config().bundle_path@)
                &&& opt_cause(e.source) == Some(cause@)
                &&& final(writer).delivered() == old(writer).delivered()
                &&& final(writer).attempted() == old(writer).attempted()
            },
            read matches Ok(script) ==> (!occurs_in(script@, entry_point()) ==> {
                &&& r matches Err(e)
                &&& e.code == ErrorCode::BadRequest
                &&& final(writer).delivered() == old(writer).delivered()
                &&& final(writer).attempted() == old(writer).attempted()
            }),
            read matches Ok(script) ==> (occurs_in(script@, entry_point()) && r is Ok ==> {
                &&& final(writer).attempted() == old(writer).attempted() + self.chunks_for(*ctx, script@)
                &&& final(writer).delivered() == old(writer).delivered() + self.chunks_for(*ctx, script@)
            }),
            read matches Ok(script) ==> (occurs_in(script@, entry_point()) && r is Err ==> {
                &&& final(writer).refusal() == Some(r->Err_0)
                &&& exists|k: int|
                    1 <= k <= 8 && final(writer).attempted() == old(writer).attempted()
                        + self.chunks_for(*ctx, script@).take(k) && final(writer).delivered()
                        == old(writer).delivered() + self.chunks_for(*ctx, script@).take(k - 1)
            }),
    {
        match read {
            Ok(script) => self.stream_response(ctx, script.as_str(), writer),
            Err(cause) => Err(self.read_failure(cause)),
        }
    }

    /// Streams the page for a request into `writer`, stopping at the first
    /// chunk the writer refuses.
    pub fn stream_response<W: ResponseWriter>(
        &self,
        ctx: &RequestContext,
        script: &str,
        writer: &mut W,
    ) -> (r: Result<(), AppError>)
        ensures
            !occurs_in(script@, entry_point()) ==> {
                &&& r matches Err(e)
                &&& e.code == ErrorCode::BadRequest
                &&& e.message@ == "bundle does not define a `stream` handler"@
                &&& final(writer).delivered() == old(writer).delivered()
                &&& final(writer).attempted() == old(writer).attempted()
            },
            occurs_in(script@, entry_point()) && r is Ok ==> {
                &&& final(writer).attempted() == old(writer).attempted() + self.chunks_for(*ctx, script@)
                &&& final(writer).delivered() == old(writer).delivered() + self.chunks_for(*ctx, script@)
            },
            occurs_in(script@, entry_point()) && r is Err ==> final(writer).refusal() == Some(
                r->Err_0,
            ),
            occurs_in(script@, entry_point()) && r is Err ==> exists|k: int|
                1 <= k <= 8 && final(writer).attempted() == old(writer).attempted() + self.chunks_for(
                    *ctx,
                    script@,
                ).take(k) && final(writer).delivered() == old(writer).delivered() + self.chunks_for(
                    *ctx,
                    script@,
                ).take(k - 1),
    {
        let chunks = match self.stream_chunks(ctx, script) {
            Ok(c) => c,
            Err(e) => return Err(e),
        };
        let ghost start = writer.delivered();
        let ghost tried = writer.attempted();
        let n = chunks.len();
        assert(texts(chunks@).len() == chunks@.len());
        assert(self.chunks_for(*ctx, script@).len() == 8);
        assert(texts(chunks@) == self.chunks_for(*ctx, script@));
        assert(n == 8);
        let mut i: usize = 0;
        while i < n
            invariant
                n == chunks@.len(),
                n == 8,
                i <= n,
                tried == old(writer).attempted(),
                start == old(writer).delivered(),
                writer.delivered() == start + texts(chunks@).take(i as int),
                writer.attempted() == tried + texts(chunks@).take(i as int),
                occurs_in(script@, entry_point()),
                texts(chunks@) == stream_chunks_of(
                    self.config().name@,
                    self.config().bundle_path@,
                    snapshot_text(*ctx),
                    script@,
                ),
            decreases n - i,
        {
            let c = chunks[i].clone();
            assert(texts(chunks@).take(i + 1) =~= texts(chunks@).take(i as int).push(chunks@[i as int]@));
            match writer.write(c) {
                Ok(()) => {},
                Err(e) => {
                    let ghost k: int = i + 1;
                    assert(writer.attempted() =~= tried + texts(chunks@).take(k));
                    assert(texts(chunks@).take(k - 1) =~= texts(chunks@).take(i as int));
                    assert(1 <= k <= 8 && writer.attempted() == tried + texts(chunks@).take(k)
                        && writer.delivered() == start + texts(chunks@).take(k - 1));
                    assert(self.chunks_for(*ctx, script@) == texts(chunks@));
                    assert(1 <= k <= 8 && writer.attempted() == tried + self.chunks_for(*ctx, script@).take(k)
                        && writer.delivered() == start + self.chunks_for(*ctx, script@).take(k - 1));
                    assert(exists|k: int|
                        1 <= k <= 8 && writer.attempted() == tried + self.chunks_for(*ctx, script@).take(k)
                            && writer.delivered() == start + self.chunks_for(*ctx, script@).take(k - 1));
                    return Err(e);
                },
            }
            i = i + 1;
        }
        assert(texts(chunks@).take(n as int) =~= texts(chunks@));
        Ok(())
    }
}

/// Any text inside the request snapshot shows, escaped, in a streamed page
/// before the bundle's content.
pub proof fn lemma_snapshot_part_precedes_body(
    name: Seq<char>,
    path: Seq<char>,
    snapshot: Seq<char>,
    script: Seq<char>,
    part: Seq<char>,
)
    requires
        occurs_in(snapshot, part),
    ensures
        ({
            let body = joined(stream_chunks_of(name, path, snapshot, script));
            exists|a: int, j: int|
                occurs_at(body, html_escaped(part), a) && occurs_at(body, html_escaped(script), j)
                    && a + html_escaped(part).len() <= j
        }),
{
    let body = joined(stream_chunks_of(name, path, snapshot, script));
    let e = html_escaped(snapshot);
    lemma_snapshot_precedes_body(name, path, snapshot, script);
    let (i, j) = choose|i: int, j: int|
        occurs_at(body, e, i) && occurs_at(body, html_escaped(script), j) && i + e.len() <= j;
    let p = choose|p: int| occurs_at(snapshot, part, p);
    crate::text::lemma_html_escaped_occurs(snapshot, part, p);
    let q = html_escaped(snapshot.take(p)).len() as int;
    let x = html_escaped(part);
    assert(body.subrange(i + q, i + q + x.len()) =~= e.subrange(q, q + x.len()));
    assert(occurs_at(body, x, i + q));
}

/// A streamed page shows both trace identifiers as text, and the request
/// path as a JSON string (escaped for HTML), before the bundle's content.
pub proof fn lemma_trace_and_path_precede_body(rt: RenderRuntime, ctx: RequestContext, script: Seq<char>)
    ensures
        ({
            let body = joined(rt.chunks_for(ctx, script));
            &&& exists|a: int, j: int|
                occurs_at(body, hyphenated(ctx.trace.request_id), a) && occurs_at(
                    body,
                    html_escaped(script),
                    j,
                ) && a + 36 <= j
            &&& exists|a: int, j: int|
                occurs_at(body, hyphenated(ctx.trace.trace_id), a) && occurs_at(
                    body,
                    html_escaped(script),
                    j,
                ) && a + 36 <= j
            &&& exists|a: int, j: int|
                occurs_at(body, html_escaped(json_quoted(ctx.path@)), a) && occurs_at(
                    body,
                    html_escaped(script),
                    j,
                ) && a + html_escaped(json_quoted(ctx.path@)).len() <= j
        }),
{
    let name = rt.config().name@;
    let path = rt.config().bundle_path@;
    let snap = snapshot_text(ctx);
    lemma_snapshot_mentions(ctx);
    lemma_hyphenated_plain(ctx.trace.request_id);
    lemma_hyphenated_plain(ctx.trace.trace_id);
    let body = joined(stream_chunks_of(name, path, snap, script));
    let es = html_escaped(script);
    let rid = hyphenated(ctx.trace.request_id);
    let tid = hyphenated(ctx.trace.trace_id);
    lemma_snapshot_part_precedes_body(name, path, snap, script, rid);
    let (a1, j1) = choose|a: int, j: int|
        occurs_at(body, html_escaped(rid), a) && occurs_at(body, es, j) && a + html_escaped(rid).len() <= j;
    assert(occurs_at(body, rid, a1) && occurs_at(body, es, j1) && a1 + 36 <= j1);
    assert(exists|a: int, j: int| occurs_at(body, rid, a) && occurs_at(body, es, j) && a + 36 <= j);
    lemma_snapshot_part_precedes_body(name, path, snap, script, tid);
    let (a2, j2) = choose|a: int, j: int|
        occurs_at(body, html_escaped(tid), a) && occurs_at(body, es, j) && a + html_escaped(tid).len() <= j;
    assert(occurs_at(body, tid, a2) && occurs_at(body, es, j2) && a2 + 36 <= j2);
    assert(exists|a: int, j: int| occurs_at(body, tid, a) && occurs_at(body, es, j) && a + 36 <= j);
    lemma_snapshot_part_precedes_body(name, path, snap, script, json_quoted(ctx.path@));
    assert(body == joined(rt.chunks_for(ctx, script)));
}

/// The hyphenated form of an identifier needs no HTML escaping.
proof fn lemma_hyphenated_plain(v: u128)
    ensures
        html_escaped(hyphenated(v)) == hyphenated(v),
        hyphenated(v).len() == 36,
{
    let h = hyphenated(v);
    assert(forall|x: u128| #[trigger] (x & 0xfu128) <= 0xfu128) by (bit_vector);
    assert forall|i: int| 0 <= i < h.len() implies h[i] != '&' && h[i] != '<' && h[i] != '>' by {
        assert(h[i] == '-' || exists|k: int| h[i] == crate::request::nibble_char(v, k));
    }
    crate::text::lemma_html_escaped_plain(h);
}

} // verus!
