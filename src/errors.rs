use vstd::prelude::*;

verus! {

/// High-level classification for application errors.
#[derive(Debug, Clone, Copy, PartialEq, Eq, Structural)]
pub enum ErrorCode {
    BadRequest,
    NotFound,
    UpstreamFailure,
    Internal,
}

/// The transport status that each error class maps to.
pub open spec fn status_of(code: ErrorCode) -> u16 {
    match code {
        ErrorCode::BadRequest => 400,
        ErrorCode::NotFound => 404,
        ErrorCode::UpstreamFailure => 502,
        ErrorCode::Internal => 500,
    }
}

/// The wire name of each error class in the client-facing envelope.
pub open spec fn label_of(code: ErrorCode) -> Seq<char> {
    match code {
        ErrorCode::BadRequest => "bad_request"@,
        ErrorCode::NotFound => "not_found"@,
        ErrorCode::UpstreamFailure => "upstream_failure"@,
        ErrorCode::Internal => "internal"@,
    }
}

impl ErrorCode {
    /// Converts the error code into the HTTP status used when surfacing it.
    pub fn status_code(self) -> (r: u16)
        ensures
            r == status_of(self),
    {
        match self {
            ErrorCode::BadRequest => 400,
            ErrorCode::NotFound => 404,
            ErrorCode::UpstreamFailure => 502,
            ErrorCode::Internal => 500,
        }
    }

    /// The snake-case name of the code, as written in error envelopes.
    pub fn as_str(self) -> (r: &'static str)
        ensures
            r@ == label_of(self),
    {
        match self {
            ErrorCode::BadRequest => "bad_request",
            ErrorCode::NotFound => "not_found",
            ErrorCode::UpstreamFailure => "upstream_failure",
            ErrorCode::Internal => "internal",
        }
    }
}

/// Canonical application error: a public code, a user-safe message and an
/// optional diagnostic cause that never reaches clients.
#[derive(Debug)]
pub struct AppError {
    pub code: ErrorCode,
    pub message: String,
    pub source: Option<String>,
}

impl AppError {
    /// Creates a new error with the provided code and message.
    pub fn new(code: ErrorCode, message: &str) -> (r: AppError)
        ensures
            r.code == code,
            r.message@ == message@,
            r.source is None,
    {
        AppError { code, message: message.to_owned(), source: None }
    }

    /// Attaches a diagnostic cause for local logging.
    pub fn with_source(self, source: &str) -> (r: AppError)
        ensures
            r.code == self.code,
            r.message@ == self.message@,
            r.source matches Some(s) && s@ == source@,
    {
        let mut e = self;
        e.source = Some(source.to_owned());
        e
    }

    /// Returns the public error code.
    pub fn code(&self) -> (r: ErrorCode)
        ensures
            r == self.code,
    {
        self.code
    }

    /// Returns the user-safe error message.
    pub fn message(&self) -> (r: &str)
        ensures
            r@ == self.message@,
    {
        self.message.as_str()
    }

    /// Returns the HTTP status associated with this error.
    pub fn status_code(&self) -> (r: u16)
        ensures
            r == status_of(self.code),
    {
        self.code.status_code()
    }

    /// The envelope sent back to clients: the code and the message, never the cause.
    pub fn as_payload(&self) -> (r: ErrorPayload)
        ensures
            r.code == self.code,
            r.message@ == self.message@,
    {
        ErrorPayload { code: self.code, message: self.message.clone() }
    }
}

/// Standard error payload returned to HTTP clients.
#[derive(Debug)]
pub struct ErrorPayload {
    pub code: ErrorCode,
    pub message: String,
}

/// An application error on its way to becoming an HTTP response.
#[derive(Debug)]
pub struct HttpError(pub AppError);

impl From<AppError> for HttpError {
    fn from(value: AppError) -> (r: HttpError) {
        HttpError(value)
    }
}

impl vstd::std_specs::convert::FromSpecImpl<AppError> for HttpError {
    open spec fn obeys_from_spec() -> bool {
        true
    }

    open spec fn from_spec(v: AppError) -> HttpError {
        HttpError(v)
    }
}

impl HttpError {
    /// The status line of the response.
    pub fn status(&self) -> (r: u16)
        ensures
            r == status_of(self.0.code),
    {
        self.0.status_code()
    }

    /// The `{code, message}` body of the response.
    pub fn envelope(&self) -> (r: ErrorPayload)
        ensures
            r.code == self.0.code,
            r.message@ == self.0.message@,
    {
        self.0.as_payload()
    }
}

} // verus!
