//! The decisions of downloading one file: whether the file on disk can be
//! kept, and what an HTTP status means.

use vstd::prelude::*;
use crate::errors::Error;
use crate::net::checksum::{eq_ignore_ascii_case, verify_sha1};
use crate::text::{dec_string, decimal, parse_u64, parse_u64_spec, to_chars, trim, trim_chars};

verus! {

/// The user agent of the launcher's HTTP requests.
pub const USER_AGENT: &'static str = "Nova-Craft-Launcher/0.1.0";
/// Seconds allowed to connect.
pub const CONNECT_TIMEOUT_SECS: u64 = 5;
/// Seconds allowed for a whole request.
pub const REQUEST_TIMEOUT_SECS: u64 = 30;

/// What a `Retry-After` header value means: whole seconds, if it is a
/// number once trimmed.
pub open spec fn retry_after_spec(value: Option<Seq<char>>) -> Option<u64> {
    match value {
        Some(v) => parse_u64_spec(trim(v)),
        None => None,
    }
}

/// The seconds of a `Retry-After` header value.
pub fn retry_after_secs(value: Option<&str>) -> (r: Option<u64>)
    ensures
        r == retry_after_spec(match value {
            Some(v) => Some(v@),
            None => None,
        }),
{
    match value {
        Some(v) => {
            let t = trim_chars(to_chars(v).as_slice());
            parse_u64(t.as_slice())
        },
        None => None,
    }
}

/// The file already on disk is kept: a checksum is expected and the
/// file's (`existing`, when it exists and could be read) matches it.
pub fn can_skip(expected_sha1: Option<&str>, existing: Option<String>) -> (b: bool)
    ensures
        b == (expected_sha1 matches Some(x) && existing matches Some(a) && eq_ignore_ascii_case(
            a@,
            x@,
        )),
{
    match (expected_sha1, existing) {
        (Some(x), Some(a)) => verify_sha1(a, x).is_ok(),
        _ => false,
    }
}

/// What the HTTP status `code` of `GET url` means: success for 2xx; for
/// 429 a rate limit with the `Retry-After` seconds; another 4xx a client
/// error; anything else a network error.
pub fn status_outcome(url: &str, code: u16, retry_after: Option<&str>) -> (r: Result<(), Error>)
    ensures
        200 <= code <= 299 <==> r is Ok,
        code == 429 ==> (r matches Err(Error::HttpRateLimited { url: u, retry_after_secs: s }) && u@
            == url@ && s == retry_after_spec(match retry_after {
            Some(v) => Some(v@),
            None => None,
        })),
        400 <= code <= 499 && code != 429 ==> (r matches Err(Error::HttpClient { url: u, status })
            && u@ == url@ && status == code),
        !(200 <= code <= 299) && !(400 <= code <= 499) ==> (r matches Err(Error::Network(m)) && m@
            == "GET "@ + url@ + ": HTTP "@ + dec_string(code as nat)),
{
    if 200 <= code && code <= 299 {
        return Ok(());
    }
    if code == 429 {
        return Err(
            Error::HttpRateLimited { url: url.to_string(), retry_after_secs: retry_after_secs(retry_after) },
        );
    }
    if 400 <= code && code <= 499 {
        return Err(Error::HttpClient { url: url.to_string(), status: code });
    }
    let mut m = "GET ".to_string();
    m.append(url);
    m.append(": HTTP ");
    m.append(decimal(code as u32).as_str());
    Err(Error::Network(m))
}

} // verus!
