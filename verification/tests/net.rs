use ncl::errors::Error;
use ncl::net::checksum::{sha1_hex, verify_sha1};
use ncl::net::download::{can_skip, retry_after_secs, status_outcome};
use ncl::net::mirror::{MirrorSource, OfficialSource};
use ncl::net::resilient::{backoff_ms, RetryState};

#[test]
fn known_sha1_of_abc() {
    assert_eq!(sha1_hex(b"abc"), "a9993e364706816aba3e25717850c26c9cd0d89d");
    assert_eq!(sha1_hex(b""), "da39a3ee5e6b4b0d3255bfef95601890afd80709");
}

#[test]
fn verify_ignores_case() {
    assert!(verify_sha1("a9993e36".into(), "A9993E36").is_ok());
    match verify_sha1("aa".into(), "bb") {
        Err(Error::ChecksumMismatch { expected, actual }) => {
            assert_eq!(expected, "bb");
            assert_eq!(actual, "aa");
        }
        _ => panic!("expected a mismatch"),
    }
}

#[test]
fn skip_only_with_matching_checksum() {
    assert!(can_skip(Some("ABC"), Some("abc".into())));
    assert!(!can_skip(None, Some("abc".into())));
    assert!(!can_skip(Some("abc"), None));
    assert!(!can_skip(Some("abd"), Some("abc".into())));
}

#[test]
fn status_meanings() {
    assert!(status_outcome("u", 200, None).is_ok());
    assert!(status_outcome("u", 204, None).is_ok());
    match status_outcome("u", 429, Some(" 30 ")) {
        Err(Error::HttpRateLimited { url, retry_after_secs }) => {
            assert_eq!(url, "u");
            assert_eq!(retry_after_secs, Some(30));
        }
        _ => panic!("expected a rate limit"),
    }
    match status_outcome("u", 404, None) {
        Err(Error::HttpClient { status, .. }) => assert_eq!(status, 404),
        _ => panic!("expected a client error"),
    }
    match status_outcome("http://x", 503, None) {
        Err(Error::Network(m)) => assert_eq!(m, "GET http://x: HTTP 503"),
        _ => panic!("expected a network error"),
    }
}

#[test]
fn retry_after_parsing() {
    assert_eq!(retry_after_secs(Some("120")), Some(120));
    assert_eq!(retry_after_secs(Some("+5")), Some(5));
    assert_eq!(retry_after_secs(Some("Wed, 21 Oct 2015 07:28:00 GMT")), None);
    assert_eq!(retry_after_secs(Some("18446744073709551616")), None);
    assert_eq!(retry_after_secs(None), None);
}

#[test]
fn official_source_passes_through() {
    let s = OfficialSource;
    assert_eq!(s.name(), "official");
    assert_eq!(s.rewrite("https://a/b").as_deref(), Some("https://a/b"));
}

#[test]
fn backoff_doubles_up_to_cap() {
    let v: Vec<u64> = (0..7).map(backoff_ms).collect();
    assert_eq!(v, vec![200, 400, 800, 1600, 3200, 4000, 4000]);
}

#[test]
fn retry_run_tries_each_candidate_once() {
    assert!(RetryState::start("u", 0, 3).is_err());
    let mut s = RetryState::start("u", 2, 5).unwrap();
    assert_eq!(s.next_candidate(), Some(0));
    assert_eq!(s.failed(Error::Network("a".into())), Some(200));
    assert_eq!(s.next_candidate(), Some(1));
    assert_eq!(s.failed(Error::Network("b".into())), None);
    assert_eq!(s.next_candidate(), None);
    match s.into_error() {
        Error::Network(m) => assert_eq!(m, "b"),
        _ => panic!("expected the last error"),
    }
    let s = RetryState::start("u", 3, 0).unwrap();
    assert_eq!(s.max_retries, 1);
}
