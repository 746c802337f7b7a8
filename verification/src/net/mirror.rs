//! Mirror sources: each may rewrite an official URL to its own.

use vstd::prelude::*;

verus! {

/// A download source. `rewrite` gives the source's URL for an official
/// one, or nothing when the source does not serve it.
pub trait MirrorSource {
    /// The source's name.
    fn name(&self) -> &str;

    /// The source's URL for `url`.
    fn rewrite(&self, url: &str) -> Option<String>;
}

/// The official servers: every URL is served as it is.
pub struct OfficialSource;

impl MirrorSource for OfficialSource {
    fn name(&self) -> (n: &str)
        ensures
            n@ == "official"@,
    {
        "official"
    }

    fn rewrite(&self, url: &str) -> (r: Option<String>)
        ensures
            r matches Some(u) && u@ == url@,
    {
        Some(url.to_string())
    }
}

} // verus!
