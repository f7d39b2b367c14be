use vstd::prelude::*;

use crate::error_source::OmnikitErrorKind;

verus! {

/// What went wrong in the daemon.
#[derive(Debug, Clone, Copy, PartialEq, Eq, Structural)]
pub enum ErrorKind {
    Unknown,
    IoError,
    TimeError,
    SerdeError,
    DatabaseError,
    HttpClientError,
    CryptoError,
    UpnpError,
    NetworkError,
    TaskError,
    UnexpectedError,
    InvalidFormat,
    EndOfStream,
    UnsupportedType,
    Reject,
    NotFound,
    AlreadyExists,
    RateLimitExceeded,
    AlreadyConnected,
    NotConnected,
}

/// The text under which an error kind is shown.
pub open spec fn kind_text(kind: ErrorKind) -> Seq<char> {
    match kind {
        ErrorKind::Unknown => "unknown"@,
        ErrorKind::IoError => "io error"@,
        ErrorKind::TimeError => "time conversion error"@,
        ErrorKind::SerdeError => "serde error"@,
        ErrorKind::DatabaseError => "database error"@,
        ErrorKind::HttpClientError => "http client error"@,
        ErrorKind::CryptoError => "crypto error"@,
        ErrorKind::UpnpError => "upnp error"@,
        ErrorKind::NetworkError => "network error"@,
        ErrorKind::TaskError => "task error"@,
        ErrorKind::UnexpectedError => "unexpected error"@,
        ErrorKind::InvalidFormat => "invalid format"@,
        ErrorKind::EndOfStream => "end of stream"@,
        ErrorKind::UnsupportedType => "unsupported type"@,
        ErrorKind::Reject => "reject"@,
        ErrorKind::NotFound => "not found"@,
        ErrorKind::AlreadyExists => "already Exists"@,
        ErrorKind::RateLimitExceeded => "rate limit exceeded"@,
        ErrorKind::AlreadyConnected => "already connected"@,
        ErrorKind::NotConnected => "not_connected"@,
    }
}

/// The text under which each kind of the daemon's errors is shown.
pub proof fn lemma_kind_texts()
    ensures
        kind_text(ErrorKind::Unknown) == "unknown"@,
        kind_text(ErrorKind::IoError) == "io error"@,
        kind_text(ErrorKind::TimeError) == "time conversion error"@,
        kind_text(ErrorKind::SerdeError) == "serde error"@,
        kind_text(ErrorKind::DatabaseError) == "database error"@,
        kind_text(ErrorKind::HttpClientError) == "http client error"@,
        kind_text(ErrorKind::CryptoError) == "crypto error"@,
        kind_text(ErrorKind::UpnpError) == "upnp error"@,
        kind_text(ErrorKind::NetworkError) == "network error"@,
        kind_text(ErrorKind::TaskError) == "task error"@,
        kind_text(ErrorKind::UnexpectedError) == "unexpected error"@,
        kind_text(ErrorKind::InvalidFormat) == "invalid format"@,
        kind_text(ErrorKind::EndOfStream) == "end of stream"@,
        kind_text(ErrorKind::UnsupportedType) == "unsupported type"@,
        kind_text(ErrorKind::Reject) == "reject"@,
        kind_text(ErrorKind::NotFound) == "not found"@,
        kind_text(ErrorKind::AlreadyExists) == "already Exists"@,
        kind_text(ErrorKind::RateLimitExceeded) == "rate limit exceeded"@,
        kind_text(ErrorKind::AlreadyConnected) == "already connected"@,
        kind_text(ErrorKind::NotConnected) == "not_connected"@,
{
}

impl ErrorKind {
    /// The text under which this kind is shown.
    pub fn as_str(&self) -> (r: &'static str)
        ensures
            r@ == kind_text(*self),
    {
        match self {
            ErrorKind::Unknown => "unknown",
            ErrorKind::IoError => "io error",
            ErrorKind::TimeError => "time conversion error",
            ErrorKind::SerdeError => "serde error",
            ErrorKind::DatabaseError => "database error",
            ErrorKind::HttpClientError => "http client error",
            ErrorKind::CryptoError => "crypto error",
            ErrorKind::UpnpError => "upnp error",
            ErrorKind::NetworkError => "network error",
            ErrorKind::TaskError => "task error",
            ErrorKind::UnexpectedError => "unexpected error",
            ErrorKind::InvalidFormat => "invalid format",
            ErrorKind::EndOfStream => "end of stream",
            ErrorKind::UnsupportedType => "unsupported type",
            ErrorKind::Reject => "reject",
            ErrorKind::NotFound => "not found",
            ErrorKind::AlreadyExists => "already Exists",
            ErrorKind::RateLimitExceeded => "rate limit exceeded",
            ErrorKind::AlreadyConnected => "already connected",
            ErrorKind::NotConnected => "not_connected",
        }
    }

    /// The text under which this kind is shown, as an owned string.
    pub fn to_string(&self) -> (r: String)
        ensures
            r@ == kind_text(*self),
    {
        self.as_str().to_owned()
    }
}

/// An error: its kind and an optional message that says more.
#[derive(Debug)]
pub struct Error {
    pub kind: ErrorKind,
    pub message: Option<String>,
}

impl Error {
    /// An error of the given kind without a message.
    pub fn new(kind: ErrorKind) -> (r: Self)
        ensures
            r.kind == kind,
            r.message is None,
    {
        Error { kind, message: None }
    }

    /// The same error with its message replaced by `message`.
    pub fn with_message(self, message: String) -> (r: Self)
        ensures
            r.kind == self.kind,
            r.message == Some(message),
    {
        Error { kind: self.kind, message: Some(message) }
    }

    /// The kind of this error.
    pub fn kind(&self) -> (r: &ErrorKind)
        ensures
            *r == self.kind,
    {
        &self.kind
    }

    /// The message of this error, if it has one.
    pub fn message(&self) -> (r: Option<&str>)
        ensures
            r is None <==> self.message is None,
            self.message matches Some(m) ==> r matches Some(s) && s@ == m@,
    {
        match &self.message {
            Some(m) => Some(m.as_str()),
            None => None,
        }
    }
}

/// The daemon's kind for each kind of the engine: the kind of the same name.
pub open spec fn kind_of_engine_kind(kind: crate::error::ErrorKind) -> ErrorKind {
    match kind {
        crate::error::ErrorKind::Unknown => ErrorKind::Unknown,
        crate::error::ErrorKind::IoError => ErrorKind::IoError,
        crate::error::ErrorKind::TimeError => ErrorKind::TimeError,
        crate::error::ErrorKind::SerdeError => ErrorKind::SerdeError,
        crate::error::ErrorKind::DatabaseError => ErrorKind::DatabaseError,
        crate::error::ErrorKind::HttpClientError => ErrorKind::HttpClientError,
        crate::error::ErrorKind::CryptoError => ErrorKind::CryptoError,
        crate::error::ErrorKind::UpnpError => ErrorKind::UpnpError,
        crate::error::ErrorKind::NetworkError => ErrorKind::NetworkError,
        crate::error::ErrorKind::TaskError => ErrorKind::TaskError,
        crate::error::ErrorKind::UnexpectedError => ErrorKind::UnexpectedError,
        crate::error::ErrorKind::InvalidFormat => ErrorKind::InvalidFormat,
        crate::error::ErrorKind::EndOfStream => ErrorKind::EndOfStream,
        crate::error::ErrorKind::UnsupportedType => ErrorKind::UnsupportedType,
        crate::error::ErrorKind::Reject => ErrorKind::Reject,
        crate::error::ErrorKind::NotFound => ErrorKind::NotFound,
        crate::error::ErrorKind::AlreadyExists => ErrorKind::AlreadyExists,
        crate::error::ErrorKind::RateLimitExceeded => ErrorKind::RateLimitExceeded,
        crate::error::ErrorKind::AlreadyConnected => ErrorKind::AlreadyConnected,
        crate::error::ErrorKind::NotConnected => ErrorKind::NotConnected,
    }
}

impl Error {
    /// Turns an error of the engine into an error of the daemon: the kind of the
    /// same name, and no message of its own.
    pub fn from_engine_error(e: crate::error::Error) -> (r: Self)
        ensures
            r.kind == kind_of_engine_kind(e.kind),
            r.message is None,
    {
        let kind = match e.kind {
            crate::error::ErrorKind::Unknown => ErrorKind::Unknown,
            crate::error::ErrorKind::IoError => ErrorKind::IoError,
            crate::error::ErrorKind::TimeError => ErrorKind::TimeError,
            crate::error::ErrorKind::SerdeError => ErrorKind::SerdeError,
            crate::error::ErrorKind::DatabaseError => ErrorKind::DatabaseError,
            crate::error::ErrorKind::HttpClientError => ErrorKind::HttpClientError,
            crate::error::ErrorKind::CryptoError => ErrorKind::CryptoError,
            crate::error::ErrorKind::UpnpError => ErrorKind::UpnpError,
            crate::error::ErrorKind::NetworkError => ErrorKind::NetworkError,
            crate::error::ErrorKind::TaskError => ErrorKind::TaskError,
            crate::error::ErrorKind::UnexpectedError => ErrorKind::UnexpectedError,
            crate::error::ErrorKind::InvalidFormat => ErrorKind::InvalidFormat,
            crate::error::ErrorKind::EndOfStream => ErrorKind::EndOfStream,
            crate::error::ErrorKind::UnsupportedType => ErrorKind::UnsupportedType,
            crate::error::ErrorKind::Reject => ErrorKind::Reject,
            crate::error::ErrorKind::NotFound => ErrorKind::NotFound,
            crate::error::ErrorKind::AlreadyExists => ErrorKind::AlreadyExists,
            crate::error::ErrorKind::RateLimitExceeded => ErrorKind::RateLimitExceeded,
            crate::error::ErrorKind::AlreadyConnected => ErrorKind::AlreadyConnected,
            crate::error::ErrorKind::NotConnected => ErrorKind::NotConnected,
        };
        Error::new(kind)
    }
}

/// What a failure of a library or std function was, as the daemon turns it
/// into an error of its own.
#[derive(Debug)]
pub enum DaemonErrorSource {
    Infallible,
    TryFromSlice,
    Io,
    Database,
    ParseInt,
    AddrParse,
    Hex,
    Base64,
    TryFromInt,
    HttpClient,
    Toml,
    RocketPack,
    Omnikit(OmnikitErrorKind),
}

/// The kind of the daemon's error for an omnikit error kind.
pub open spec fn omnikit_daemon_kind(k: OmnikitErrorKind) -> ErrorKind {
    match k {
        OmnikitErrorKind::Unknown => ErrorKind::Unknown,
        OmnikitErrorKind::SerdeError => ErrorKind::SerdeError,
        OmnikitErrorKind::IoError => ErrorKind::IoError,
        OmnikitErrorKind::UnexpectedError => ErrorKind::UnexpectedError,
        OmnikitErrorKind::InvalidFormat => ErrorKind::InvalidFormat,
        OmnikitErrorKind::EndOfStream => ErrorKind::EndOfStream,
        OmnikitErrorKind::UnsupportedType => ErrorKind::UnsupportedType,
        OmnikitErrorKind::AlreadyConnected => ErrorKind::AlreadyConnected,
        OmnikitErrorKind::NotConnected => ErrorKind::NotConnected,
    }
}

/// The kind of the daemon's error for a failure.
pub open spec fn daemon_source_kind(s: DaemonErrorSource) -> ErrorKind {
    match s {
        DaemonErrorSource::Infallible => ErrorKind::Unknown,
        DaemonErrorSource::Io => ErrorKind::IoError,
        DaemonErrorSource::Database => ErrorKind::DatabaseError,
        DaemonErrorSource::HttpClient => ErrorKind::HttpClientError,
        DaemonErrorSource::Toml | DaemonErrorSource::RocketPack => ErrorKind::SerdeError,
        DaemonErrorSource::Omnikit(k) => omnikit_daemon_kind(k),
        _ => ErrorKind::InvalidFormat,
    }
}

/// The message of the daemon's error for a failure, if it has one.
pub open spec fn daemon_source_message(s: DaemonErrorSource) -> Option<Seq<char>> {
    match s {
        DaemonErrorSource::Infallible | DaemonErrorSource::Omnikit(_) => None,
        DaemonErrorSource::TryFromSlice => Some("failed to convert slice to array"@),
        DaemonErrorSource::Io => Some("io error"@),
        DaemonErrorSource::Database => Some("Database operation failed"@),
        DaemonErrorSource::ParseInt => Some("int parse error"@),
        DaemonErrorSource::AddrParse => Some("addr parse error"@),
        DaemonErrorSource::Hex => Some("hex decode error"@),
        DaemonErrorSource::Base64 => Some("base64 decode error"@),
        DaemonErrorSource::TryFromInt => Some("integer conversion error"@),
        DaemonErrorSource::HttpClient => Some("http request failed"@),
        DaemonErrorSource::Toml => Some("failed to parse toml file"@),
        DaemonErrorSource::RocketPack => Some("rocket pack error"@),
    }
}

fn text_error(kind: ErrorKind, m: &str) -> (r: Error)
    ensures
        r.kind == kind,
        r.message matches Some(x) && x@ == m@,
{
    Error::new(kind).with_message(m.to_owned())
}

fn omnikit_error_kind(k: OmnikitErrorKind) -> (r: ErrorKind)
    ensures
        r == omnikit_daemon_kind(k),
{
    match k {
        OmnikitErrorKind::Unknown => ErrorKind::Unknown,
        OmnikitErrorKind::SerdeError => ErrorKind::SerdeError,
        OmnikitErrorKind::IoError => ErrorKind::IoError,
        OmnikitErrorKind::UnexpectedError => ErrorKind::UnexpectedError,
        OmnikitErrorKind::InvalidFormat => ErrorKind::InvalidFormat,
        OmnikitErrorKind::EndOfStream => ErrorKind::EndOfStream,
        OmnikitErrorKind::UnsupportedType => ErrorKind::UnsupportedType,
        OmnikitErrorKind::AlreadyConnected => ErrorKind::AlreadyConnected,
        OmnikitErrorKind::NotConnected => ErrorKind::NotConnected,
    }
}

impl Error {
    /// The daemon's error for a failure of a library or std function: the kind
    /// and the message that the daemon gives that failure.
    pub fn from_source(s: &DaemonErrorSource) -> (r: Error)
        ensures
            r.kind == daemon_source_kind(*s),
            match daemon_source_message(*s) {
                None => r.message is None,
                Some(m) => r.message matches Some(x) && x@ == m,
            },
    {
        match s {
            DaemonErrorSource::Infallible => Error::new(ErrorKind::Unknown),
            DaemonErrorSource::TryFromSlice => text_error(ErrorKind::InvalidFormat, "failed to convert slice to array"),
            DaemonErrorSource::Io => text_error(ErrorKind::IoError, "io error"),
            DaemonErrorSource::Database => text_error(ErrorKind::DatabaseError, "Database operation failed"),
            DaemonErrorSource::ParseInt => text_error(ErrorKind::InvalidFormat, "int parse error"),
            DaemonErrorSource::AddrParse => text_error(ErrorKind::InvalidFormat, "addr parse error"),
            DaemonErrorSource::Hex => text_error(ErrorKind::InvalidFormat, "hex decode error"),
            DaemonErrorSource::Base64 => text_error(ErrorKind::InvalidFormat, "base64 decode error"),
            DaemonErrorSource::TryFromInt => text_error(ErrorKind::InvalidFormat, "integer conversion error"),
            DaemonErrorSource::HttpClient => text_error(ErrorKind::HttpClientError, "http request failed"),
            DaemonErrorSource::Toml => text_error(ErrorKind::SerdeError, "failed to parse toml file"),
            DaemonErrorSource::RocketPack => text_error(ErrorKind::SerdeError, "rocket pack error"),
            DaemonErrorSource::Omnikit(k) => Error::new(omnikit_error_kind(*k)),
        }
    }
}

/// Each kind of the engine keeps its name, and so its text but for the one
/// whose text the daemon spells otherwise, when it becomes an error of the daemon.
pub proof fn lemma_engine_kind_keeps_its_text(kind: crate::error::ErrorKind)
    ensures
        kind != crate::error::ErrorKind::AlreadyExists ==> kind_text(kind_of_engine_kind(kind))
            == crate::error::kind_text(kind),
{
}

/// No two kinds of the engine become the same kind of the daemon.
pub proof fn lemma_engine_kinds_stay_apart(a: crate::error::ErrorKind, b: crate::error::ErrorKind)
    ensures
        kind_of_engine_kind(a) == kind_of_engine_kind(b) ==> a == b,
{
}

} // verus!
