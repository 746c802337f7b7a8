//! The error type shared by every module of the crate.

use vstd::prelude::*;

verus! {

/// What went wrong. Outside errors (I/O, JSON) are carried as their message.
#[derive(Debug, Clone)]
pub enum Error {
    /// An I/O failure at `path`.
    Io { path: String, message: String },
    /// A JSON document could not be parsed.
    Json(String),
    /// A configuration or manifest is unusable.
    Config(String),
    /// Neither candidate data directory is usable.
    PathLayout(String),
    /// A network request failed.
    Network(String),
    /// A server answered 429; `retry_after_secs` is its `Retry-After`, when numeric.
    HttpRateLimited { url: String, retry_after_secs: Option<u64> },
    /// A server answered with another 4xx status.
    HttpClient { url: String, status: u16 },
    /// A file's checksum differs from the expected one.
    ChecksumMismatch { expected: String, actual: String },
    /// A task failed.
    Task(String),
    /// Something looked up is absent.
    NotFound(String),
}

/// The text of an error, as the launcher shows it.
pub open spec fn error_text(e: Error) -> Seq<char> {
    match e {
        Error::Io { path, message } => "I/O at "@ + path@ + ": "@ + message@,
        Error::Json(m) => "JSON parse error: "@ + m@,
        Error::Config(m) => "config error: "@ + m@,
        Error::PathLayout(m) => "path layout: "@ + m@,
        Error::Network(m) => "network: "@ + m@,
        Error::HttpRateLimited { url, retry_after_secs } => "rate limited (HTTP 429): "@ + url@,
        Error::HttpClient { url, status } => "client error (HTTP "@ + crate::text::dec_string(
            status as nat,
        ) + "): "@ + url@,
        Error::ChecksumMismatch { expected, actual } => "checksum mismatch (expected="@ + expected@
            + ", actual="@ + actual@ + ")"@,
        Error::Task(m) => "task: "@ + m@,
        Error::NotFound(m) => "not found: "@ + m@,
    }
}

impl Error {
    /// The text of this error.
    pub fn message(&self) -> (s: String)
        ensures
            s@ == error_text(*self),
    {
        let (head, body) = match self {
            Error::Io { path, message } => {
                let mut s = "I/O at ".to_string();
                s.append(path.as_str());
                s.append(": ");
                s.append(message.as_str());
                return s;
            },
            Error::Json(m) => ("JSON parse error: ", m),
            Error::Config(m) => ("config error: ", m),
            Error::PathLayout(m) => ("path layout: ", m),
            Error::Network(m) => ("network: ", m),
            Error::HttpRateLimited { url, retry_after_secs } => ("rate limited (HTTP 429): ", url),
            Error::HttpClient { url, status } => {
                let mut s = "client error (HTTP ".to_string();
                s.append(crate::text::decimal(*status as u32).as_str());
                s.append("): ");
                s.append(url.as_str());
                return s;
            },
            Error::ChecksumMismatch { expected, actual } => {
                let mut s = "checksum mismatch (expected=".to_string();
                s.append(expected.as_str());
                s.append(", actual=");
                s.append(actual.as_str());
                s.append(")");
                return s;
            },
            Error::Task(m) => ("task: ", m),
            Error::NotFound(m) => ("not found: ", m),
        };
        let mut s = head.to_string();
        s.append(body.as_str());
        s
    }

    /// The I/O error at `path` described by `message`.
    pub fn io(path: String, message: String) -> (e: Error)
        ensures
            e matches Error::Io { path: p, message: m } && p == path && m == message,
    {
        Error::Io { path, message }
    }
}

} // verus!
