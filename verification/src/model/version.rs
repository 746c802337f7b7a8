//! Version list and version JSON records, and `inheritsFrom` merging.

use super::arguments::Arguments;
use super::assets::AssetIndexInfo;
use super::java::JavaVersionRequirement;
use super::library::{maven_ga, maven_ga_spec, Library};
use crate::errors::Error;
use vstd::prelude::*;

verus! {

/// Top level of `version_manifest_v2.json`.
#[derive(Debug, Clone)]
pub struct VersionList {
    pub latest: LatestVersions,
    pub versions: Vec<VersionListEntry>,
}

/// The latest release and snapshot ids.
#[derive(Debug, Clone)]
pub struct LatestVersions {
    pub release: String,
    pub snapshot: String,
}

/// One entry of the version list.
#[derive(Debug, Clone)]
pub struct VersionListEntry {
    pub id: String,
    pub kind: VersionType,
    pub url: String,
    pub time: String,
    pub release_time: String,
    pub sha1: String,
    pub compliance_level: u32,
}

/// Release channel of a version.
#[derive(Debug, Clone, Copy, PartialEq, Eq, Structural)]
pub enum VersionType {
    Release,
    Snapshot,
    OldBeta,
    OldAlpha,
}

/// A version JSON as read, possibly with `inheritsFrom`.
#[derive(Debug, Clone)]
pub struct RawVersion {
    pub id: String,
    pub kind: Option<VersionType>,
    pub main_class: Option<String>,
    pub asset_index: Option<AssetIndexInfo>,
    /// Old versions only name their asset index id here.
    pub assets: Option<String>,
    pub downloads: Option<MainDownloads>,
    pub libraries: Vec<Library>,
    pub arguments: Option<Arguments>,
    /// Whole command line of 1.12 and older.
    pub minecraft_arguments: Option<String>,
    pub java_version: Option<JavaVersionRequirement>,
    pub inherits_from: Option<String>,
    pub release_time: Option<String>,
    pub time: Option<String>,
    pub minimum_launcher_version: Option<u32>,
}

/// The main downloads (client/server jars and their mappings).
#[derive(Debug, Clone)]
pub struct MainDownloads {
    pub client: Option<DownloadInfo>,
    pub client_mappings: Option<DownloadInfo>,
    pub server: Option<DownloadInfo>,
    pub server_mappings: Option<DownloadInfo>,
}

/// One downloadable file.
#[derive(Debug, Clone)]
pub struct DownloadInfo {
    pub sha1: String,
    pub size: u64,
    pub url: String,
}

/// A version with its inheritance chain merged in: what install and launch use.
#[derive(Debug, Clone)]
pub struct ResolvedManifest {
    pub id: String,
    pub kind: VersionType,
    pub main_class: String,
    pub asset_index: AssetIndexInfo,
    pub downloads: MainDownloads,
    pub libraries: Vec<Library>,
    pub arguments: Arguments,
    pub minecraft_arguments: Option<String>,
    pub java_version: JavaVersionRequirement,
    /// Ids from the child up to the root: `[id, parent_id, ...]`.
    pub inherits_chain: Vec<String>,
}

// ───────────────────────── specs of merging ─────────────────────────

/// `a` if it is present, else `b`.
pub open spec fn or_else<T>(a: Option<T>, b: Option<T>) -> Option<T> {
    if a is Some { a } else { b }
}

/// The `group:artifact` of a library.
pub open spec fn lib_ga(l: Library) -> Seq<char> {
    maven_ga_spec(l.name@)
}

/// Some library of `libs` has `group:artifact` `ga`.
pub open spec fn has_ga(libs: Seq<Library>, ga: Seq<char>) -> bool {
    exists|j: int| 0 <= j < libs.len() && lib_ga(#[trigger] libs[j]) == ga
}

/// Some library of `libs` has the full name `n`.
pub open spec fn has_name(libs: Seq<Library>, n: Seq<char>) -> bool {
    exists|j: int| 0 <= j < libs.len() && (#[trigger] libs[j]).name@ == n
}

/// No two libraries of `libs` share a full name.
pub open spec fn names_distinct(libs: Seq<Library>) -> bool {
    forall|i: int, j: int| 0 <= i < j < libs.len() ==> (#[trigger] libs[i]).name@ != (#[trigger] libs[j]).name@
}

/// The parent libraries kept by a merge, in order: those whose
/// `group:artifact` no child library has, each full name once.
pub open spec fn merge_parent_libs(parent: Seq<Library>, child: Seq<Library>) -> Seq<Library>
    decreases parent.len(),
{
    if parent.len() == 0 {
        Seq::empty()
    } else {
        let prev = merge_parent_libs(parent.drop_last(), child);
        let l = parent.last();
        if has_ga(child, lib_ga(l)) || has_name(prev, l.name@) {
            prev
        } else {
            prev.push(l)
        }
    }
}

/// `base` followed by the libraries of `libs` whose full name is not yet present, in order.
pub open spec fn append_new_names(base: Seq<Library>, libs: Seq<Library>) -> Seq<Library>
    decreases libs.len(),
{
    if libs.len() == 0 {
        base
    } else {
        let prev = append_new_names(base, libs.drop_last());
        let l = libs.last();
        if has_name(prev, l.name@) {
            prev
        } else {
            prev.push(l)
        }
    }
}

/// Merged library list: the kept parent libraries, then the child's, without repeated names.
pub open spec fn merge_libraries_spec(parent: Seq<Library>, child: Seq<Library>) -> Seq<Library> {
    append_new_names(merge_parent_libs(parent, child), child)
}

/// `r` is the merge of two argument sections: a missing side yields the
/// other; with both, the parent's game and JVM entries come first, then the
/// child's.
pub open spec fn merged_arguments(r: Option<Arguments>, parent: Option<Arguments>, child: Option<Arguments>) -> bool {
    match (parent, child) {
        (None, c) => r == c,
        (Some(p), None) => r == Some(p),
        (Some(p), Some(c)) => r matches Some(a) && a.game@ == p.game@ + c.game@ && a.jvm@ == p.jvm@
            + c.jvm@,
    }
}

/// `m` is `child` merged onto `parent`: the child's id; each optional field
/// the child's when present, else the parent's; libraries and arguments
/// merged (parent first); `inherits_from` the parent's.
pub open spec fn merged_version(m: RawVersion, child: RawVersion, parent: RawVersion) -> bool {
    &&& m.id == child.id
    &&& m.kind == or_else(child.kind, parent.kind)
    &&& m.main_class == or_else(child.main_class, parent.main_class)
    &&& m.asset_index == or_else(child.asset_index, parent.asset_index)
    &&& m.assets == or_else(child.assets, parent.assets)
    &&& m.downloads == or_else(child.downloads, parent.downloads)
    &&& m.libraries@ == merge_libraries_spec(parent.libraries@, child.libraries@)
    &&& merged_arguments(m.arguments, parent.arguments, child.arguments)
    &&& m.minecraft_arguments == or_else(child.minecraft_arguments, parent.minecraft_arguments)
    &&& m.java_version == or_else(child.java_version, parent.java_version)
    &&& m.inherits_from == parent.inherits_from
    &&& m.release_time == or_else(child.release_time, parent.release_time)
    &&& m.time == or_else(child.time, parent.time)
    &&& m.minimum_launcher_version == or_else(child.minimum_launcher_version, parent.minimum_launcher_version)
}

// ───────────────────────── exec merging ─────────────────────────

/// `v` holds a string equal to `s`.
fn contains_string(v: &Vec<String>, s: &str) -> (b: bool)
    ensures
        b == exists|j: int| 0 <= j < v@.len() && (#[trigger] v@[j])@ == s@,
{
    let mut i: usize = 0;
    while i < v.len()
        invariant
            i <= v@.len(),
            forall|j: int| 0 <= j < i ==> (#[trigger] v@[j])@ != s@,
        decreases v@.len() - i,
    {
        if crate::text::str_eq(v[i].as_str(), s) {
            return true;
        }
        i = i + 1;
    }
    false
}

/// `libs` holds a library named `n`.
fn has_lib_name(libs: &Vec<Library>, n: &str) -> (b: bool)
    ensures
        b == has_name(libs@, n@),
{
    let mut i: usize = 0;
    while i < libs.len()
        invariant
            i <= libs@.len(),
            forall|j: int| 0 <= j < i ==> (#[trigger] libs@[j]).name@ != n@,
        decreases libs@.len() - i,
    {
        if crate::text::str_eq(libs[i].name.as_str(), n) {
            return true;
        }
        i = i + 1;
    }
    false
}

/// Merges library lists: parent libraries first, then the child's. A parent
/// library whose `group:artifact` the child also has is dropped (the child's
/// version wins); a library whose full name is already present is dropped.
pub fn merge_libraries(parent: Vec<Library>, child: Vec<Library>) -> (r: Vec<Library>)
    ensures
        r@ == merge_libraries_spec(parent@, child@),
{
    let mut child_gas: Vec<String> = Vec::new();
    let mut i: usize = 0;
    while i < child.len()
        invariant
            i <= child@.len(),
            child_gas@.len() == i,
            forall|j: int| 0 <= j < i ==> (#[trigger] child_gas@[j])@ == lib_ga(child@[j]),
        decreases child@.len() - i,
    {
        child_gas.push(maven_ga(child[i].name.as_str()));
        i = i + 1;
    }
    let mut result: Vec<Library> = Vec::new();
    let ghost p0 = parent@;
    let mut rest = parent;
    let mut k: usize = 0;
    assert(p0.skip(0) == p0);
    assert(p0.len() == rest.len());
    while rest.len() > 0
        invariant
            k <= p0.len() <= usize::MAX,
            rest@ == p0.skip(k as int),
            result@ == merge_parent_libs(p0.take(k as int), child@),
            child_gas@.len() == child@.len(),
            forall|j: int| 0 <= j < child_gas@.len() ==> (#[trigger] child_gas@[j])@ == lib_ga(child@[j]),
        decreases rest@.len(),
    {
        let lib = rest.remove(0);
        assert(lib == p0[k as int]);
        assert(p0.take(k + 1).drop_last() == p0.take(k as int));
        let ga = maven_ga(lib.name.as_str());
        let overridden = contains_string(&child_gas, ga.as_str());
        assert(overridden == has_ga(child@, lib_ga(lib))) by {
            if overridden {
                let j = choose|j: int| 0 <= j < child_gas@.len() && (#[trigger] child_gas@[j])@ == ga@;
                assert(lib_ga(child@[j]) == lib_ga(lib));
            }
            if has_ga(child@, lib_ga(lib)) {
                let j = choose|j: int| 0 <= j < child@.len() && lib_ga(#[trigger] child@[j]) == lib_ga(lib);
                assert(child_gas@[j]@ == ga@);
            }
        }
        if !overridden && !has_lib_name(&result, lib.name.as_str()) {
            result.push(lib);
        }
        assert(p0.skip(k as int).drop_first() == p0.skip(k + 1));
        k = k + 1;
    }
    assert(p0.take(k as int) == p0);
    let ghost base = result@;
    let ghost c0 = child@;
    let mut rest = child;
    let mut k: usize = 0;
    assert(c0.skip(0) == c0);
    assert(c0.len() == rest.len());
    while rest.len() > 0
        invariant
            k <= c0.len() <= usize::MAX,
            rest@ == c0.skip(k as int),
            result@ == append_new_names(base, c0.take(k as int)),
        decreases rest@.len(),
    {
        let lib = rest.remove(0);
        assert(lib == c0[k as int]);
        assert(c0.take(k + 1).drop_last() == c0.take(k as int));
        if !has_lib_name(&result, lib.name.as_str()) {
            result.push(lib);
        }
        assert(c0.skip(k as int).drop_first() == c0.skip(k + 1));
        k = k + 1;
    }
    assert(c0.take(k as int) == c0);
    result
}

/// Merges argument sections: a missing side yields the other; with both, the
/// parent's game and JVM entries come first, then the child's.
pub fn merge_arguments(parent: Option<Arguments>, child: Option<Arguments>) -> (r: Option<Arguments>)
    ensures
        merged_arguments(r, parent, child),
{
    match (parent, child) {
        (None, c) => c,
        (Some(p), None) => Some(p),
        (Some(p), Some(c)) => {
            let mut p = p;
            let mut c = c;
            p.game.append(&mut c.game);
            p.jvm.append(&mut c.jvm);
            Some(p)
        },
    }
}

/// `a` if present, else `b`.
fn or_opt<T>(a: Option<T>, b: Option<T>) -> (r: Option<T>)
    ensures
        r == or_else(a, b),
{
    match a {
        Some(x) => Some(x),
        None => b,
    }
}

impl RawVersion {
    /// Merges this child version onto `parent`: each optional field is the
    /// child's when present, else the parent's; libraries and arguments are
    /// merged (parent first); `inherits_from` becomes the parent's.
    pub fn merge_inherits(self, parent: RawVersion) -> (m: RawVersion)
        ensures
            merged_version(m, self, parent),
    {
        RawVersion {
            id: self.id,
            kind: or_opt(self.kind, parent.kind),
            main_class: or_opt(self.main_class, parent.main_class),
            asset_index: or_opt(self.asset_index, parent.asset_index),
            assets: or_opt(self.assets, parent.assets),
            downloads: or_opt(self.downloads, parent.downloads),
            libraries: merge_libraries(parent.libraries, self.libraries),
            arguments: merge_arguments(parent.arguments, self.arguments),
            minecraft_arguments: or_opt(self.minecraft_arguments, parent.minecraft_arguments),
            java_version: or_opt(self.java_version, parent.java_version),
            inherits_from: parent.inherits_from,
            release_time: or_opt(self.release_time, parent.release_time),
            time: or_opt(self.time, parent.time),
            minimum_launcher_version: or_opt(
                self.minimum_launcher_version,
                parent.minimum_launcher_version,
            ),
        }
    }

    /// Turns a merged version (without `inheritsFrom`) into a manifest.
    /// Fails with a configuration error naming the first missing field among
    /// `mainClass`, `assetIndex` and `downloads`; a missing type defaults to
    /// release, missing arguments to empty lists, a missing Java requirement
    /// to Java 8.
    pub fn into_resolved(self, inherits_chain: Vec<String>) -> (r: Result<ResolvedManifest, Error>)
        ensures
            self.main_class is None ==> (r matches Err(Error::Config(m)) && m@
                == "manifest missing mainClass"@),
            self.main_class is Some && self.asset_index is None ==> (r matches Err(
                Error::Config(m),
            ) && m@ == "manifest missing assetIndex"@),
            self.main_class is Some && self.asset_index is Some && self.downloads is None
                ==> (r matches Err(Error::Config(m)) && m@ == "manifest missing downloads"@),
            r is Ok <==> (self.main_class is Some && self.asset_index is Some
                && self.downloads is Some),
            r matches Ok(res) ==> {
                &&& res.id == self.id
                &&& res.kind == (match self.kind {
                    Some(k) => k,
                    None => VersionType::Release,
                })
                &&& Some(res.main_class) == self.main_class
                &&& Some(res.asset_index) == self.asset_index
                &&& Some(res.downloads) == self.downloads
                &&& res.libraries == self.libraries
                &&& (match self.arguments {
                    Some(a) => res.arguments == a,
                    None => res.arguments.game@.len() == 0 && res.arguments.jvm@.len() == 0,
                })
                &&& res.minecraft_arguments == self.minecraft_arguments
                &&& (match self.java_version {
                    Some(j) => res.java_version == j,
                    None => res.java_version.major_version == 8
                        && res.java_version.component@.len() == 0,
                })
                &&& res.inherits_chain == inherits_chain
            },
    {
        let main_class = match self.main_class {
            Some(m) => m,
            None => {
                return Err(Error::Config("manifest missing mainClass".to_string()));
            },
        };
        let asset_index = match self.asset_index {
            Some(a) => a,
            None => {
                return Err(Error::Config("manifest missing assetIndex".to_string()));
            },
        };
        let downloads = match self.downloads {
            Some(d) => d,
            None => {
                return Err(Error::Config("manifest missing downloads".to_string()));
            },
        };
        Ok(ResolvedManifest {
            id: self.id,
            kind: match self.kind {
                Some(k) => k,
                None => VersionType::Release,
            },
            main_class,
            asset_index,
            downloads,
            libraries: self.libraries,
            arguments: match self.arguments {
                Some(a) => a,
                None => Arguments::empty(),
            },
            minecraft_arguments: self.minecraft_arguments,
            java_version: match self.java_version {
                Some(j) => j,
                None => JavaVersionRequirement::default_requirement(),
            },
            inherits_chain,
        })
    }
}


// ───────────────────────── laws of merging ─────────────────────────

proof fn lemma_merge_parent_libs(parent: Seq<Library>, child: Seq<Library>)
    ensures
        names_distinct(merge_parent_libs(parent, child)),
        forall|i: int|
            0 <= i < merge_parent_libs(parent, child).len() ==> exists|j: int|
                0 <= j < parent.len() && #[trigger] merge_parent_libs(parent, child)[i]
                    == parent[j] && !has_ga(child, lib_ga(parent[j])),
        forall|j: int|
            0 <= j < parent.len() && !has_ga(child, lib_ga(#[trigger] parent[j])) ==> has_name(
                merge_parent_libs(parent, child),
                parent[j].name@,
            ),
    decreases parent.len(),
{
    if parent.len() > 0 {
        let pp = parent.drop_last();
        lemma_merge_parent_libs(pp, child);
        let prev = merge_parent_libs(pp, child);
        let mp = merge_parent_libs(parent, child);
        let l = parent.last();
        assert forall|i: int| 0 <= i < mp.len() implies exists|j: int|
            0 <= j < parent.len() && #[trigger] mp[i] == parent[j] && !has_ga(child, lib_ga(parent[j])) by {
            if i < prev.len() {
                assert(mp[i] == prev[i]);
                let j = choose|j: int| 0 <= j < pp.len() && #[trigger] prev[i] == pp[j] && !has_ga(child, lib_ga(pp[j]));
                assert(parent[j] == pp[j]);
            } else {
                assert(mp[i] == parent[parent.len() - 1]);
            }
        }
        assert forall|j: int| 0 <= j < parent.len() && !has_ga(child, lib_ga(#[trigger] parent[j])) implies has_name(mp, parent[j].name@) by {
            if j < pp.len() {
                assert(parent[j] == pp[j]);
                assert(has_name(prev, pp[j].name@));
                let k = choose|k: int| 0 <= k < prev.len() && (#[trigger] prev[k]).name@ == pp[j].name@;
                assert(mp[k] == prev[k]);
            } else {
                if has_name(prev, l.name@) {
                    let k = choose|k: int| 0 <= k < prev.len() && (#[trigger] prev[k]).name@ == l.name@;
                    assert(mp[k] == prev[k]);
                } else {
                    assert(mp[prev.len() as int] == l);
                }
            }
        }
        assert forall|a: int, b: int| 0 <= a < b < mp.len() implies (#[trigger] mp[a]).name@ != (#[trigger] mp[b]).name@ by {
            if b < prev.len() {
                assert(mp[a] == prev[a] && mp[b] == prev[b]);
            } else {
                assert(mp[a] == prev[a]);
                assert(mp[b] == l);
                assert(!has_name(prev, l.name@));
            }
        }
    }
}

proof fn lemma_append_new_names(base: Seq<Library>, libs: Seq<Library>)
    ensures
        append_new_names(base, libs).len() >= base.len(),
        forall|i: int| 0 <= i < base.len() ==> #[trigger] append_new_names(base, libs)[i] == base[i],
        names_distinct(base) ==> names_distinct(append_new_names(base, libs)),
        forall|j: int| 0 <= j < libs.len() ==> has_name(append_new_names(base, libs), (#[trigger] libs[j]).name@),
        forall|i: int|
            base.len() <= i < append_new_names(base, libs).len() ==> exists|j: int|
                0 <= j < libs.len() && #[trigger] append_new_names(base, libs)[i] == libs[j],
    decreases libs.len(),
{
    if libs.len() > 0 {
        let ll = libs.drop_last();
        lemma_append_new_names(base, ll);
        let prev = append_new_names(base, ll);
        let an = append_new_names(base, libs);
        let l = libs.last();
        assert forall|i: int| 0 <= i < prev.len() implies #[trigger] an[i] == prev[i] by {}
        assert forall|j: int| 0 <= j < libs.len() implies has_name(an, (#[trigger] libs[j]).name@) by {
            if j < ll.len() {
                assert(libs[j] == ll[j]);
                let k = choose|k: int| 0 <= k < prev.len() && (#[trigger] prev[k]).name@ == ll[j].name@;
                assert(an[k] == prev[k]);
            } else if has_name(prev, l.name@) {
                let k = choose|k: int| 0 <= k < prev.len() && (#[trigger] prev[k]).name@ == l.name@;
                assert(an[k] == prev[k]);
            } else {
                assert(an[prev.len() as int] == l);
            }
        }
        assert forall|i: int| base.len() <= i < an.len() implies exists|j: int|
            0 <= j < libs.len() && #[trigger] an[i] == libs[j] by {
            if i < prev.len() {
                let j = choose|j: int| 0 <= j < ll.len() && #[trigger] prev[i] == ll[j];
                assert(libs[j] == ll[j]);
            } else {
                assert(an[i] == libs[libs.len() - 1]);
            }
        }
        if names_distinct(base) {
            assert forall|a: int, b: int| 0 <= a < b < an.len() implies (#[trigger] an[a]).name@ != (#[trigger] an[b]).name@ by {
                if b < prev.len() {
                    assert(an[a] == prev[a] && an[b] == prev[b]);
                } else {
                    assert(an[a] == prev[a]);
                    assert(!has_name(prev, l.name@));
                }
            }
        }
    }
}

/// Merging libraries never leaves two libraries with the same full name.
pub proof fn law_merged_library_names_distinct(parent: Seq<Library>, child: Seq<Library>)
    ensures
        names_distinct(merge_libraries_spec(parent, child)),
{
    lemma_merge_parent_libs(parent, child);
    lemma_append_new_names(merge_parent_libs(parent, child), child);
}

/// Every library of the child is present, by full name, after merging.
pub proof fn law_child_libraries_kept(parent: Seq<Library>, child: Seq<Library>)
    ensures
        forall|j: int| 0 <= j < child.len() ==> has_name(merge_libraries_spec(parent, child), (#[trigger] child[j]).name@),
{
    lemma_append_new_names(merge_parent_libs(parent, child), child);
}

/// Every parent library whose `group:artifact` the child does not provide is
/// present, by full name, after merging.
pub proof fn law_parent_libraries_kept(parent: Seq<Library>, child: Seq<Library>)
    ensures
        forall|j: int|
            0 <= j < parent.len() && !has_ga(child, lib_ga(#[trigger] parent[j])) ==> has_name(
                merge_libraries_spec(parent, child),
                parent[j].name@,
            ),
{
    let mp = merge_parent_libs(parent, child);
    lemma_merge_parent_libs(parent, child);
    lemma_append_new_names(mp, child);
    let m = merge_libraries_spec(parent, child);
    assert forall|j: int| 0 <= j < parent.len() && !has_ga(child, lib_ga(#[trigger] parent[j])) implies has_name(m, parent[j].name@) by {
        let k = choose|k: int| 0 <= k < mp.len() && (#[trigger] mp[k]).name@ == parent[j].name@;
        assert(m[k] == mp[k]);
    }
}

/// Each merged library is a library of the child, or a library of the parent
/// whose `group:artifact` the child does not provide: the child's version of
/// a library always wins.
pub proof fn law_child_version_wins(parent: Seq<Library>, child: Seq<Library>)
    ensures
        forall|i: int|
            0 <= i < merge_libraries_spec(parent, child).len() ==> (exists|j: int|
                0 <= j < child.len() && #[trigger] merge_libraries_spec(parent, child)[i] == child[j])
                || (exists|j: int|
                0 <= j < parent.len() && merge_libraries_spec(parent, child)[i] == parent[j]
                    && !has_ga(child, lib_ga(parent[j]))),
{
    let mp = merge_parent_libs(parent, child);
    lemma_merge_parent_libs(parent, child);
    lemma_append_new_names(mp, child);
    let m = merge_libraries_spec(parent, child);
    assert forall|i: int| 0 <= i < m.len() implies (exists|j: int|
        0 <= j < child.len() && #[trigger] m[i] == child[j]) || (exists|j: int|
        0 <= j < parent.len() && m[i] == parent[j] && !has_ga(child, lib_ga(parent[j]))) by {
        if i < mp.len() {
            assert(m[i] == mp[i]);
        }
    }
}

} // verus!
