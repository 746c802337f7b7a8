//! The version manifest's address, lookups in the version list, and the
//! decisions of `inheritsFrom` resolution.
//!
//! Resolution alternates fetching a parent version JSON (the caller's
//! work) with the step below, until a version inherits from nothing.

use vstd::prelude::*;
use crate::errors::Error;
use crate::model::version::{merged_version, RawVersion, VersionList, VersionListEntry};
use crate::text::{str_eq, sviews};
use crate::loader::forge::processor::contains_string;

verus! {

/// The official version manifest.
pub const VERSION_MANIFEST_URL: &'static str = "https://launchermeta.mojang.com/mc/game/version_manifest_v2.json";

/// What resolution does next.
#[derive(Debug, Clone)]
pub enum InheritStep {
    /// Nothing is inherited any more: the version can be resolved.
    Resolve,
    /// Fetch the version JSON of `parent_id` from `url` and merge it in.
    FetchParent { parent_id: String, url: String },
}

/// The position of the first entry of `v` with id `id`, or `-1`.
pub open spec fn entry_pos(v: Seq<VersionListEntry>, id: Seq<char>) -> int
    decreases v.len(),
{
    if v.len() == 0 {
        -1
    } else if v[0].id@ == id {
        0
    } else {
        let r = entry_pos(v.drop_first(), id);
        if r < 0 { -1 } else { r + 1 }
    }
}

/// What `{:?}` prints for a list of strings.
pub uninterp spec fn debug_strings(v: Seq<Seq<char>>) -> Seq<char>;

/// `{:?}` of a list of strings (std's `Debug` for `Vec<String>`).
#[verifier::external_body]
fn debug_string_list(v: &Vec<String>) -> (s: String)
    ensures
        s@ == debug_strings(sviews(v@)),
{
    format!("{:?}", v)
}

/// The position of the version `id` in the version list.
pub fn find_version_entry(list: &VersionList, id: &str) -> (r: Option<usize>)
    ensures
        r matches Some(i) ==> entry_pos(list.versions@, id@) == i && i < list.versions@.len(),
        r is None ==> entry_pos(list.versions@, id@) == -1,
{
    let mut i: usize = 0;
    assert(list.versions@.skip(0) == list.versions@);
    while i < list.versions.len()
        invariant
            i <= list.versions@.len(),
            entry_pos(list.versions@, id@) == (if entry_pos(list.versions@.skip(i as int), id@) < 0 {
                -1
            } else {
                entry_pos(list.versions@.skip(i as int), id@) + i
            }),
        decreases list.versions@.len() - i,
    {
        assert(list.versions@.skip(i as int)[0] == list.versions@[i as int]);
        if str_eq(list.versions[i].id.as_str(), id) {
            assert(entry_pos(list.versions@.skip(i as int), id@) == 0);
            return Some(i);
        }
        assert(list.versions@.skip(i as int).drop_first() == list.versions@.skip(i + 1));
        i = i + 1;
    }
    None
}

/// The next step of resolving `current`, whose inheritance chain so far
/// is `chain`: resolve it when it inherits from nothing; an error when its
/// parent is already in the chain or absent from the version list; else
/// fetch the parent.
pub fn next_inherit_step(current: &RawVersion, chain: &Vec<String>, list: &VersionList) -> (r: Result<
    InheritStep,
    Error,
>)
    ensures
        current.inherits_from is None ==> (r matches Ok(InheritStep::Resolve)),
        current.inherits_from matches Some(p) ==> {
            &&& sviews(chain@).contains(p@) ==> (r matches Err(Error::Config(m)) && m@
                == "circular inheritsFrom detected: chain="@ + debug_strings(sviews(chain@))
                + ", next="@ + p@)
            &&& !sviews(chain@).contains(p@) && entry_pos(list.versions@, p@) < 0 ==> (r matches Err(
                Error::NotFound(m),
            ) && m@ == "inheritsFrom parent '"@ + p@ + "' not found in version manifest"@)
            &&& !sviews(chain@).contains(p@) && entry_pos(list.versions@, p@) >= 0 ==> (r matches Ok(
                InheritStep::FetchParent { parent_id, url },
            ) && parent_id@ == p@ && url@ == list.versions@[entry_pos(list.versions@, p@)].url@)
        },
{
    match &current.inherits_from {
        None => Ok(InheritStep::Resolve),
        Some(p) => {
            if contains_string(chain, p.as_str()) {
                let mut m = "circular inheritsFrom detected: chain=".to_string();
                m.append(debug_string_list(chain).as_str());
                m.append(", next=");
                m.append(p.as_str());
                return Err(Error::Config(m));
            }
            match find_version_entry(list, p.as_str()) {
                None => {
                    let mut m = "inheritsFrom parent '".to_string();
                    m.append(p.as_str());
                    m.append("' not found in version manifest");
                    Err(Error::NotFound(m))
                },
                Some(i) => Ok(
                    InheritStep::FetchParent { parent_id: p.clone(), url: list.versions[i].url.clone() },
                ),
            }
        },
    }
}

/// Merges the fetched `parent` (the version `parent_id`) into `current` and
/// records it in the chain.
pub fn inherit_parent(
    current: RawVersion,
    chain: &mut Vec<String>,
    parent_id: String,
    parent: RawVersion,
) -> (m: RawVersion)
    ensures
        final(chain)@ == old(chain)@.push(parent_id),
        merged_version(m, current, parent),
{
    chain.push(parent_id);
    current.merge_inherits(parent)
}

} // verus!
