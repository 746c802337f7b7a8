//! The decisions of a download that falls back across mirrors: which
//! candidate URL to try next, how long to wait after a failure, and which
//! error ends a run that never succeeded.

use vstd::prelude::*;
use crate::errors::Error;

verus! {

/// The progress of one download across its candidate URLs.
#[derive(Debug, Clone)]
pub struct RetryState {
    /// How many tries were made.
    pub attempt: usize,
    /// How many candidate URLs there are.
    pub candidates: usize,
    /// How many tries are allowed; at least 1.
    pub max_retries: usize,
    /// The error of the latest failed try.
    pub last_error: Option<Error>,
}

/// The wait after failed try `attempt` (counted from 0): 200 ms, doubled
/// for each further try, at most 4000 ms.
pub open spec fn backoff_spec(attempt: nat) -> u64
    decreases attempt,
{
    if attempt == 0 {
        200
    } else {
        let prev = backoff_spec((attempt - 1) as nat);
        if 2 * prev > 4000 { 4000 } else { (2 * prev) as u64 }
    }
}

/// The wait, in milliseconds, after failed try `attempt`.
pub fn backoff_ms(attempt: usize) -> (ms: u64)
    ensures
        ms == backoff_spec(attempt as nat),
        200 <= ms <= 4000,
{
    let mut ms: u64 = 200;
    let mut i: usize = 0;
    while i < attempt
        invariant
            i <= attempt,
            ms == backoff_spec(i as nat),
            200 <= ms <= 4000,
        decreases attempt - i,
    {
        ms = if 2 * ms > 4000 { 4000 } else { 2 * ms };
        i = i + 1;
    }
    ms
}

impl RetryState {
    /// Starts a download of `original_url` with `candidates` candidate URLs
    /// and at most `max_retries` tries (0 counts as 1); an error when no
    /// mirror serves the URL.
    pub fn start(original_url: &str, candidates: usize, max_retries: usize) -> (r: Result<
        RetryState,
        Error,
    >)
        ensures
            candidates == 0 ==> (r matches Err(Error::Network(m)) && m@ == "no mirror can serve "@
                + original_url@),
            candidates > 0 ==> (r matches Ok(s) && s.attempt == 0 && s.candidates == candidates
                && s.max_retries == (if max_retries == 0 { 1 } else { max_retries })
                && s.last_error is None),
    {
        if candidates == 0 {
            let mut m = "no mirror can serve ".to_string();
            m.append(original_url);
            return Err(Error::Network(m));
        }
        Ok(
            RetryState {
                attempt: 0,
                candidates,
                max_retries: if max_retries == 0 { 1 } else { max_retries },
                last_error: None,
            },
        )
    }

    /// The candidate to try next, if tries and candidates remain.
    pub fn next_candidate(&self) -> (r: Option<usize>)
        ensures
            r matches Some(i) ==> i == self.attempt,
            r is Some <==> self.attempt < self.candidates && self.attempt < self.max_retries,
    {
        if self.attempt < self.candidates && self.attempt < self.max_retries {
            Some(self.attempt)
        } else {
            None
        }
    }

    /// Records that the current try failed with `e`; the wait before the
    /// next try, when another one follows.
    pub fn failed(&mut self, e: Error) -> (wait: Option<u64>)
        requires
            old(self).attempt < old(self).candidates,
            old(self).attempt < old(self).max_retries,
        ensures
            final(self).attempt == old(self).attempt + 1,
            final(self).candidates == old(self).candidates,
            final(self).max_retries == old(self).max_retries,
            final(self).last_error == Some(e),
            old(self).attempt + 1 < old(self).candidates && old(self).attempt + 1
                < old(self).max_retries ==> wait == Some(backoff_spec(old(self).attempt as nat)),
            !(old(self).attempt + 1 < old(self).candidates && old(self).attempt + 1
                < old(self).max_retries) ==> wait is None,
    {
        self.last_error = Some(e);
        let more = self.attempt + 1 < self.candidates && self.attempt + 1 < self.max_retries;
        let wait = if more { Some(backoff_ms(self.attempt)) } else { None };
        self.attempt = self.attempt + 1;
        wait
    }

    /// The error that ends a download that never succeeded: the latest
    /// failure, else a generic one.
    pub fn into_error(self) -> (e: Error)
        ensures
            self.last_error matches Some(x) ==> e == x,
            self.last_error is None ==> (e matches Error::Network(m) && m@ == "all mirrors failed"@),
    {
        match self.last_error {
            Some(x) => x,
            None => Error::Network("all mirrors failed".to_string()),
        }
    }
}

} // verus!
