use vstd::prelude::*;
use vstd::string::*;

use crate::errors::AppError;
use crate::render::texts;
use crate::text::{escape_html, html_escaped};

verus! {

broadcast use vstd::string::group_string_axioms;

/// The in-band chunk that reports a failure after streaming has begun.
pub open spec fn error_chunk_text(message: Seq<char>) -> Seq<char> {
    "<section><h2>Render Error</h2><pre>"@ + html_escaped(message) + "</pre></section>"@
}

/// Renders a late failure as a final HTML fragment with the escaped message.
pub fn error_chunk(error: &AppError) -> (r: String)
    ensures
        r@ == error_chunk_text(error.message@),
{
    let mut s = String::from_str("<section><h2>Render Error</h2><pre>");
    s.append(escape_html(error.message.as_str()).as_str());
    s.append("</pre></section>");
    s
}

/// What a backend produced for one streamed request: the chunks it
/// emitted, in order, and the error that ended it early, if any.
#[derive(Debug)]
pub struct BackendRun {
    pub chunks: Vec<String>,
    pub failure: Option<AppError>,
}

impl BackendRun {
    /// A run that either produced all its chunks or failed before the first.
    pub fn from_result(result: Result<Vec<String>, AppError>) -> (r: BackendRun)
        ensures
            result matches Ok(c) ==> r.chunks@ == c@ && r.failure is None,
            result matches Err(e) ==> r.chunks@.len() == 0 && r.failure == Some(e),
    {
        match result {
            Ok(chunks) => BackendRun { chunks, failure: None },
            Err(e) => BackendRun { chunks: Vec::new(), failure: Some(e) },
        }
    }
}

/// The body segments of a streamed response: every chunk the backend
/// emitted, then, if it failed, one chunk reporting the failure.
pub open spec fn frames_of(chunks: Seq<Seq<char>>, failure: Option<AppError>) -> Seq<Seq<char>> {
    match failure {
        Some(e) => chunks.push(error_chunk_text(e.message@)),
        None => chunks,
    }
}

/// A streamed body is the emitted chunks followed, after a failure, by
/// exactly one escaped error chunk; the status is already committed, so the
/// failure never becomes a transport error.
pub proof fn lemma_late_failure_is_in_band(chunks: Seq<Seq<char>>, e: AppError)
    ensures
        frames_of(chunks, Some(e)).len() == chunks.len() + 1,
        frames_of(chunks, Some(e)).take(chunks.len() as int) == chunks,
        frames_of(chunks, Some(e)).last() == error_chunk_text(e.message@),
{
    assert(frames_of(chunks, Some(e)).take(chunks.len() as int) =~= chunks);
}

/// The producer side of a streamed response: hands out body segments in
/// order and stops for good once the consumer has gone away.
#[derive(Debug)]
pub struct StreamProducer {
    frames: Vec<String>,
    next: usize,
    open: bool,
}

impl StreamProducer {
    /// The segments to deliver.
    pub closed spec fn frames(&self) -> Seq<Seq<char>> {
        texts(self.frames@)
    }

    /// How many segments have been handed out.
    pub closed spec fn sent(&self) -> nat {
        self.next as nat
    }

    /// Whether the consumer is still accepting segments.
    pub closed spec fn is_open(&self) -> bool {
        self.open
    }

    #[verifier::type_invariant]
    closed spec fn wf(self) -> bool {
        self.next <= self.frames@.len()
    }

    /// Prepares the delivery of a backend run.
    pub fn new(run: BackendRun) -> (r: StreamProducer)
        ensures
            r.frames() == frames_of(texts(run.chunks@), run.failure),
            r.sent() == 0,
            r.is_open(),
    {
        let BackendRun { chunks, failure } = run;
        let mut frames = chunks;
        let ghost c = texts(frames@);
        match &failure {
            Some(e) => {
                let last = error_chunk(e);
                frames.push(last);
                assert(texts(frames@) =~= c.push(last@));
            },
            None => {},
        }
        StreamProducer { frames, next: 0, open: true }
    }

    /// The next segment to enqueue, or none when all are out or the
    /// consumer has gone.
    pub fn next_chunk(&mut self) -> (r: Option<String>)
        ensures
            final(self).frames() == old(self).frames(),
            final(self).is_open() == old(self).is_open(),
            old(self).is_open() && old(self).sent() < old(self).frames().len() ==> {
                &&& r matches Some(c) && c@ == old(self).frames()[old(self).sent() as int]
                &&& final(self).sent() == old(self).sent() + 1
            },
            !(old(self).is_open() && old(self).sent() < old(self).frames().len()) ==> {
                &&& r is None
                &&& final(self).sent() == old(self).sent()
            },
    {
        proof {
            use_type_invariant(&*self);
        }
        if self.open && self.next < self.frames.len() {
            let c = self.frames[self.next].clone();
            self.next = self.next + 1;
            Some(c)
        } else {
            None
        }
    }

    /// Records whether the last segment was accepted; a refusal means the
    /// consumer is gone and the remaining work is dropped.
    pub fn on_sent(&mut self, delivered: bool)
        ensures
            final(self).frames() == old(self).frames(),
            final(self).sent() == old(self).sent(),
            final(self).is_open() == (old(self).is_open() && delivered),
    {
        proof {
            use_type_invariant(&*self);
        }
        if !delivered {
            self.open = false;
        }
    }
}

/// A sink that receives rendered HTML chunks.
pub trait ResponseWriter {
    /// The chunks accepted so far, in order.
    spec fn delivered(&self) -> Seq<Seq<char>>;

    /// Every chunk handed to the sink so far, accepted or not, in order.
    spec fn attempted(&self) -> Seq<Seq<char>>;

    /// The error of the latest refused write, if any.
    spec fn refusal(&self) -> Option<AppError>;

    /// Writes one chunk to the sink; a refused chunk leaves what was
    /// accepted unchanged and is recorded with its error.
    fn write(&mut self, chunk: String) -> (r: Result<(), AppError>)
        ensures
            final(self).attempted() == old(self).attempted().push(chunk@),
            r is Ok ==> final(self).delivered() == old(self).delivered().push(chunk@),
            r is Err ==> final(self).delivered() == old(self).delivered(),
            r matches Err(e) ==> final(self).refusal() == Some(e),
    ;
}

/// A sink that keeps every chunk in memory.
#[derive(Debug)]
pub struct CollectingWriter {
    pub chunks: Vec<String>,
}

impl CollectingWriter {
    /// An empty collector.
    pub fn new() -> (r: CollectingWriter)
        ensures
            r.chunks@.len() == 0,
    {
        CollectingWriter { chunks: Vec::new() }
    }
}

impl ResponseWriter for CollectingWriter {
    open spec fn delivered(&self) -> Seq<Seq<char>> {
        texts(self.chunks@)
    }

    open spec fn attempted(&self) -> Seq<Seq<char>> {
        texts(self.chunks@)
    }

    open spec fn refusal(&self) -> Option<AppError> {
        None
    }

    fn write(&mut self, chunk: String) -> (r: Result<(), AppError>) {
        let ghost before = self.chunks@;
        self.chunks.push(chunk);
        assert(texts(self.chunks@) =~= texts(before).push(chunk@));
        Ok(())
    }
}

} // verus!
