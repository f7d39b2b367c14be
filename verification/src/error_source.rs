use vstd::prelude::*;

use crate::error::{Error, ErrorKind};

verus! {

/// The kinds of the errors of the omnikit library.
#[derive(Debug, Clone, Copy, PartialEq, Eq, Structural)]
pub enum OmnikitErrorKind {
    Unknown,
    SerdeError,
    IoError,
    UnexpectedError,
    InvalidFormat,
    EndOfStream,
    UnsupportedType,
    AlreadyConnected,
    NotConnected,
}

/// The kinds of the errors of the database migration library.
#[derive(Debug, Clone, Copy, PartialEq, Eq, Structural)]
pub enum MigrationErrorKind {
    Unknown,
    IoError,
    DatabaseError,
    InvalidFormat,
}

/// What a failure of a library or std function was, as the engine turns it
/// into an error of its own. A parser failure carries the name of its code.
#[derive(Debug)]
pub enum ErrorSource {
    Infallible,
    TryFromSlice,
    Io,
    Database,
    Pkcs8,
    Pkcs8Spki,
    ParserIncomplete,
    ParserError(String),
    ParserFailure(String),
    ParseInt,
    AddrParse,
    Hex,
    Base64,
    RocketPack,
    Migration(MigrationErrorKind),
    Omnikit(OmnikitErrorKind),
    TryFromInt,
    Upnp,
    LocalIp,
    HttpClient,
    RocksDb,
    Socks,
    Join,
}

/// The kind of the engine's error for an omnikit error kind.
pub open spec fn omnikit_kind(k: OmnikitErrorKind) -> ErrorKind {
    match k {
        OmnikitErrorKind::Unknown => ErrorKind::Unknown,
        OmnikitErrorKind::SerdeError => ErrorKind::SerdeError,
        OmnikitErrorKind::IoError => ErrorKind::IoError,
        OmnikitErrorKind::UnexpectedError => ErrorKind::UnexpectedError,
        OmnikitErrorKind::InvalidFormat => ErrorKind::InvalidFormat,
        OmnikitErrorKind::EndOfStream => ErrorKind::EndOfStream,
        OmnikitErrorKind::UnsupportedType => ErrorKind::UnsupportedType,
        OmnikitErrorKind::AlreadyConnected => ErrorKind::AlreadyConnected,
        OmnikitErrorKind::NotConnected => ErrorKind::NotConnected,
    }
}

/// The kind of the engine's error for a migration error kind. A database
/// failure of a migration is a time error.
pub open spec fn migration_kind(k: MigrationErrorKind) -> ErrorKind {
    match k {
        MigrationErrorKind::Unknown => ErrorKind::Unknown,
        MigrationErrorKind::IoError => ErrorKind::IoError,
        MigrationErrorKind::DatabaseError => ErrorKind::TimeError,
        MigrationErrorKind::InvalidFormat => ErrorKind::InvalidFormat,
    }
}

/// The kind of the engine's error for a failure.
pub open spec fn source_kind(s: ErrorSource) -> ErrorKind {
    match s {
        ErrorSource::Infallible => ErrorKind::Unknown,
        ErrorSource::Io => ErrorKind::IoError,
        ErrorSource::Database | ErrorSource::RocksDb => ErrorKind::DatabaseError,
        ErrorSource::RocketPack => ErrorKind::SerdeError,
        ErrorSource::Migration(k) => migration_kind(k),
        ErrorSource::Omnikit(k) => omnikit_kind(k),
        ErrorSource::Upnp => ErrorKind::UpnpError,
        ErrorSource::LocalIp | ErrorSource::Socks => ErrorKind::NetworkError,
        ErrorSource::HttpClient => ErrorKind::HttpClientError,
        ErrorSource::Join => ErrorKind::TaskError,
        _ => ErrorKind::InvalidFormat,
    }
}

/// The message of the engine's error for a failure, if it has one.
pub open spec fn source_message(s: ErrorSource) -> Option<Seq<char>> {
    match s {
        ErrorSource::Infallible | ErrorSource::Migration(_) | ErrorSource::Omnikit(_) => None,
        ErrorSource::TryFromSlice => Some("failed to convert slice to array"@),
        ErrorSource::Io => Some("io error"@),
        ErrorSource::Database => Some("Database operation failed"@),
        ErrorSource::Pkcs8 => Some("pkcs8 error"@),
        ErrorSource::Pkcs8Spki => Some("pkcs8 spki error"@),
        ErrorSource::ParserIncomplete => Some("nom incomplete"@),
        ErrorSource::ParserError(code) => Some("nom error: "@ + code@),
        ErrorSource::ParserFailure(code) => Some("nom failure: "@ + code@),
        ErrorSource::ParseInt => Some("int parse error"@),
        ErrorSource::AddrParse => Some("addr parse error"@),
        ErrorSource::Hex => Some("hex decode error"@),
        ErrorSource::Base64 => Some("base64 decode error"@),
        ErrorSource::RocketPack => Some("rocket pack error"@),
        ErrorSource::TryFromInt => Some("Integer conversion error"@),
        ErrorSource::Upnp => Some("UPnP operation failed"@),
        ErrorSource::LocalIp => Some("Failed to get local IP address"@),
        ErrorSource::HttpClient => Some("HTTP request failed"@),
        ErrorSource::RocksDb => Some("RocksDB operation failed"@),
        ErrorSource::Socks => Some("Socks operation failed"@),
        ErrorSource::Join => Some("join failed"@),
    }
}

fn text_error(kind: ErrorKind, m: &str) -> (r: Error)
    ensures
        r.kind == kind,
        r.message matches Some(x) && x@ == m@,
{
    Error::new(kind).with_message(m.to_owned())
}

fn prefixed_error(kind: ErrorKind, prefix: &str, code: &String) -> (r: Error)
    ensures
        r.kind == kind,
        r.message matches Some(x) && x@ == prefix@ + code@,
{
    let mut m = prefix.to_owned();
    m.append(code.as_str());
    Error::new(kind).with_message(m)
}

fn omnikit_error_kind(k: OmnikitErrorKind) -> (r: ErrorKind)
    ensures
        r == omnikit_kind(k),
{
    match k {
        OmnikitErrorKind::Unknown => ErrorKind::Unknown,
        OmnikitErrorKind::SerdeError => ErrorKind::SerdeError,
        OmnikitErrorKind::IoError => ErrorKind::IoError,
        OmnikitErrorKind::UnexpectedError => ErrorKind::UnexpectedError,
        OmnikitErrorKind::InvalidFormat => ErrorKind::InvalidFormat,
        OmnikitErrorKind::EndOfStream => ErrorKind::EndOfStream,
        OmnikitErrorKind::UnsupportedType => ErrorKind::UnsupportedType,
        OmnikitErrorKind::AlreadyConnected => ErrorKind::AlreadyConnected,
        OmnikitErrorKind::NotConnected => ErrorKind::NotConnected,
    }
}

fn migration_error_kind(k: MigrationErrorKind) -> (r: ErrorKind)
    ensures
        r == migration_kind(k),
{
    match k {
        MigrationErrorKind::Unknown => ErrorKind::Unknown,
        MigrationErrorKind::IoError => ErrorKind::IoError,
        MigrationErrorKind::DatabaseError => ErrorKind::TimeError,
        MigrationErrorKind::InvalidFormat => ErrorKind::InvalidFormat,
    }
}

impl Error {
    /// The engine's error for a failure of a library or std function: the kind
    /// and the message that the engine gives that failure.
    pub fn from_source(s: &ErrorSource) -> (r: Error)
        ensures
            r.kind == source_kind(*s),
            match source_message(*s) {
                None => r.message is None,
                Some(m) => r.message matches Some(x) && x@ == m,
            },
    {
        match s {
            ErrorSource::Infallible => Error::new(ErrorKind::Unknown),
            ErrorSource::TryFromSlice => text_error(ErrorKind::InvalidFormat, "failed to convert slice to array"),
            ErrorSource::Io => text_error(ErrorKind::IoError, "io error"),
            ErrorSource::Database => text_error(ErrorKind::DatabaseError, "Database operation failed"),
            ErrorSource::Pkcs8 => text_error(ErrorKind::InvalidFormat, "pkcs8 error"),
            ErrorSource::Pkcs8Spki => text_error(ErrorKind::InvalidFormat, "pkcs8 spki error"),
            ErrorSource::ParserIncomplete => text_error(ErrorKind::InvalidFormat, "nom incomplete"),
            ErrorSource::ParserError(code) => prefixed_error(ErrorKind::InvalidFormat, "nom error: ", code),
            ErrorSource::ParserFailure(code) => prefixed_error(ErrorKind::InvalidFormat, "nom failure: ", code),
            ErrorSource::ParseInt => text_error(ErrorKind::InvalidFormat, "int parse error"),
            ErrorSource::AddrParse => text_error(ErrorKind::InvalidFormat, "addr parse error"),
            ErrorSource::Hex => text_error(ErrorKind::InvalidFormat, "hex decode error"),
            ErrorSource::Base64 => text_error(ErrorKind::InvalidFormat, "base64 decode error"),
            ErrorSource::RocketPack => text_error(ErrorKind::SerdeError, "rocket pack error"),
            ErrorSource::Migration(k) => Error::new(migration_error_kind(*k)),
            ErrorSource::Omnikit(k) => Error::new(omnikit_error_kind(*k)),
            ErrorSource::TryFromInt => text_error(ErrorKind::InvalidFormat, "Integer conversion error"),
            ErrorSource::Upnp => text_error(ErrorKind::UpnpError, "UPnP operation failed"),
            ErrorSource::LocalIp => text_error(ErrorKind::NetworkError, "Failed to get local IP address"),
            ErrorSource::HttpClient => text_error(ErrorKind::HttpClientError, "HTTP request failed"),
            ErrorSource::RocksDb => text_error(ErrorKind::DatabaseError, "RocksDB operation failed"),
            ErrorSource::Socks => text_error(ErrorKind::NetworkError, "Socks operation failed"),
            ErrorSource::Join => text_error(ErrorKind::TaskError, "join failed"),
        }
    }
}

} // verus!
