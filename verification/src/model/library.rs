//! Maven-style library descriptions of a version JSON.

use super::arguments::Rule;
use crate::text::{find_char, find_char_from, string_of, to_chars};
use vstd::prelude::*;

verus! {

/// A library entry. Natives come either encoded in `name` (new format,
/// `group:artifact:version:natives-<os>`) or through `natives`, a list of
/// `(os, classifier)` pairs, with `downloads.classifiers` (old format).
#[derive(Debug, Clone)]
pub struct Library {
    /// Maven coordinate, such as `ca.weblite:java-objc-bridge:1.1`.
    pub name: String,
    pub downloads: Option<LibraryDownloads>,
    /// Old-format natives: OS name → classifier.
    pub natives: Option<Vec<(String, String)>>,
    /// Path prefixes skipped when extracting natives.
    pub extract: Option<ExtractRules>,
    /// Applicability rules; an empty list always applies.
    pub rules: Vec<Rule>,
    /// Custom Maven repository used by some mod loaders.
    pub url: Option<String>,
}

/// Download records of a library.
#[derive(Debug, Clone)]
pub struct LibraryDownloads {
    pub artifact: Option<ArtifactInfo>,
    /// Old-format native files: classifier → artifact.
    pub classifiers: Option<Vec<(String, ArtifactInfo)>>,
}

/// One downloadable file of a library.
#[derive(Debug, Clone)]
pub struct ArtifactInfo {
    pub path: String,
    pub sha1: String,
    pub size: u64,
    pub url: String,
}

/// Extraction settings of a native library.
#[derive(Debug, Clone)]
pub struct ExtractRules {
    pub exclude: Vec<String>,
}

/// The `group:artifact` part of a Maven coordinate: everything before its
/// second `:`, or the whole coordinate when it has fewer than two.
pub open spec fn maven_ga_spec(coord: Seq<char>) -> Seq<char> {
    let i = find_char(coord, ':');
    if i < 0 {
        coord
    } else {
        let j = find_char(coord.skip(i + 1), ':');
        if j < 0 {
            coord
        } else {
            coord.take(i + 1 + j)
        }
    }
}

/// The `group:artifact` part of a Maven coordinate
/// (`"a.b:c:1.2.3"` → `"a.b:c"`; a coordinate with one `:` or none is returned whole).
pub fn maven_ga(coord: &str) -> (r: String)
    ensures
        r@ == maven_ga_spec(coord@),
{
    let v = to_chars(coord);
    match find_char_from(v.as_slice(), ':', 0) {
        None => {
            proof {
                crate::text::lemma_find_char_is(v@, ':', v@.len() as int);
            }
            string_of(v.as_slice(), 0, v.len())
        },
        Some(i) => {
            proof {
                crate::text::lemma_find_char_is(v@, ':', i as int);
            }
            let ghost rest = v@.skip(i + 1);
            assert(i < v.len());
            match find_char_from(v.as_slice(), ':', i + 1) {
                None => {
                    proof {
                        crate::text::lemma_find_char_is(rest, ':', rest.len() as int);
                    }
                    string_of(v.as_slice(), 0, v.len())
                },
                Some(j) => {
                    proof {
                        crate::text::lemma_find_char_is(rest, ':', j - i - 1);
                        assert(v@.take(j as int) == v@.subrange(0, j as int));
                    }
                    string_of(v.as_slice(), 0, j)
                },
            }
        },
    }
}

} // verus!
