use vstd::prelude::*;

verus! {

/// What went wrong in the engine.
#[derive(Debug, Clone, Copy, PartialEq, Eq, Structural)]
pub enum ErrorKind {
    Unknown,
    IoError,
    TimeError,
    SerdeError,
    DatabaseError,
    HttpClientError,
    CryptoError,
    UpnpError,
    NetworkError,
    TaskError,
    UnexpectedError,
    InvalidFormat,
    EndOfStream,
    UnsupportedType,
    Reject,
    NotFound,
    AlreadyExists,
    RateLimitExceeded,
    AlreadyConnected,
    NotConnected,
}

/// The text under which an error kind is shown.
pub open spec fn kind_text(kind: ErrorKind) -> Seq<char> {
    match kind {
        ErrorKind::Unknown => "unknown"@,
        ErrorKind::IoError => "io error"@,
        ErrorKind::TimeError => "time conversion error"@,
        ErrorKind::SerdeError => "serde error"@,
        ErrorKind::DatabaseError => "database error"@,
        ErrorKind::HttpClientError => "http client error"@,
        ErrorKind::CryptoError => "crypto error"@,
        ErrorKind::UpnpError => "upnp error"@,
        ErrorKind::NetworkError => "network error"@,
        ErrorKind::TaskError => "task error"@,
        ErrorKind::UnexpectedError => "unexpected error"@,
        ErrorKind::InvalidFormat => "invalid format"@,
        ErrorKind::EndOfStream => "end of stream"@,
        ErrorKind::UnsupportedType => "unsupported type"@,
        ErrorKind::Reject => "reject"@,
        ErrorKind::NotFound => "not found"@,
        ErrorKind::AlreadyExists => "already exists"@,
        ErrorKind::RateLimitExceeded => "rate limit exceeded"@,
        ErrorKind::AlreadyConnected => "already connected"@,
        ErrorKind::NotConnected => "not_connected"@,
    }
}

/// The text under which each kind of the engine's errors is shown.
pub proof fn lemma_kind_texts()
    ensures
        kind_text(ErrorKind::Unknown) == "unknown"@,
        kind_text(ErrorKind::IoError) == "io error"@,
        kind_text(ErrorKind::TimeError) == "time conversion error"@,
        kind_text(ErrorKind::SerdeError) == "serde error"@,
        kind_text(ErrorKind::DatabaseError) == "database error"@,
        kind_text(ErrorKind::HttpClientError) == "http client error"@,
        kind_text(ErrorKind::CryptoError) == "crypto error"@,
        kind_text(ErrorKind::UpnpError) == "upnp error"@,
        kind_text(ErrorKind::NetworkError) == "network error"@,
        kind_text(ErrorKind::TaskError) == "task error"@,
        kind_text(ErrorKind::UnexpectedError) == "unexpected error"@,
        kind_text(ErrorKind::InvalidFormat) == "invalid format"@,
        kind_text(ErrorKind::EndOfStream) == "end of stream"@,
        kind_text(ErrorKind::UnsupportedType) == "unsupported type"@,
        kind_text(ErrorKind::Reject) == "reject"@,
        kind_text(ErrorKind::NotFound) == "not found"@,
        kind_text(ErrorKind::AlreadyExists) == "already exists"@,
        kind_text(ErrorKind::RateLimitExceeded) == "rate limit exceeded"@,
        kind_text(ErrorKind::AlreadyConnected) == "already connected"@,
        kind_text(ErrorKind::NotConnected) == "not_connected"@,
{
}

impl ErrorKind {
    /// The text under which this kind is shown.
    pub fn as_str(&self) -> (r: &'static str)
        ensures
            r@ == kind_text(*self),
    {
        match self {
            ErrorKind::Unknown => "unknown",
            ErrorKind::IoError => "io error",
            ErrorKind::TimeError => "time conversion error",
            ErrorKind::SerdeError => "serde error",
            ErrorKind::DatabaseError => "database error",
            ErrorKind::HttpClientError => "http client error",
            ErrorKind::CryptoError => "crypto error",
            ErrorKind::UpnpError => "upnp error",
            ErrorKind::NetworkError => "network error",
            ErrorKind::TaskError => "task error",
            ErrorKind::UnexpectedError => "unexpected error",
            ErrorKind::InvalidFormat => "invalid format",
            ErrorKind::EndOfStream => "end of stream",
            ErrorKind::UnsupportedType => "unsupported type",
            ErrorKind::Reject => "reject",
            ErrorKind::NotFound => "not found",
            ErrorKind::AlreadyExists => "already exists",
            ErrorKind::RateLimitExceeded => "rate limit exceeded",
            ErrorKind::AlreadyConnected => "already connected",
            ErrorKind::NotConnected => "not_connected",
        }
    }

    /// The text under which this kind is shown, as an owned string.
    pub fn to_string(&self) -> (r: String)
        ensures
            r@ == kind_text(*self),
    {
        self.as_str().to_owned()
    }
}

/// An error: its kind and an optional message that says more.
#[derive(Debug)]
pub struct Error {
    pub kind: ErrorKind,
    pub message: Option<String>,
}

impl Error {
    /// An error of the given kind without a message.
    pub fn new(kind: ErrorKind) -> (r: Self)
        ensures
            r.kind == kind,
            r.message is None,
    {
        Error { kind, message: None }
    }

    /// The same error with its message replaced by `message`.
    pub fn with_message(self, message: String) -> (r: Self)
        ensures
            r.kind == self.kind,
            r.message == Some(message),
    {
        Error { kind: self.kind, message: Some(message) }
    }

    /// The kind of this error.
    pub fn kind(&self) -> (r: &ErrorKind)
        ensures
            *r == self.kind,
    {
        &self.kind
    }

    /// The message of this error, if it has one.
    pub fn message(&self) -> (r: Option<&str>)
        ensures
            r is None <==> self.message is None,
            self.message matches Some(m) ==> r matches Some(s) && s@ == m@,
    {
        match &self.message {
            Some(m) => Some(m.as_str()),
            None => None,
        }
    }
}

} // verus!
