//! The plan of a vanilla install: which files to download in which stage,
//! and which native jars to extract afterwards.
//!
//! The stages run in order: the client jar and the libraries, then the
//! assets, then the native extraction. Running them is the caller's work.

use vstd::prelude::*;
use crate::model::arguments::{rules_allow_spec, EvalContext};
use crate::model::assets::{asset_relative_path, two_byte_prefix_ok, utf8_len, AssetIndex, AssetObject};
use crate::model::library::Library;
use crate::model::version::ResolvedManifest;
use crate::paths::path_join;
use crate::text::{string_of, sviews, to_chars};
use crate::vanilla::library::{
    excludes_of, has_main_download, has_old_native, is_new_format_native_spec, library_artifacts,
    old_native_info, ArtifactKind, LibraryArtifact,
};
use crate::vanilla::paths::InstallPaths;

verus! {

/// One file to download.
#[derive(Debug, Clone)]
pub struct DownloadJob {
    pub label: String,
    pub url: String,
    pub target: String,
    pub sha1: Option<String>,
    /// Share of the install's progress.
    pub weight: u64,
}

/// A native jar to extract into the natives directory.
#[derive(Debug, Clone)]
pub struct NativeRef {
    pub jar: String,
    /// Entry-name prefixes skipped while extracting.
    pub excludes: Vec<String>,
}

/// What a vanilla install does, stage by stage.
#[derive(Debug, Clone)]
pub struct InstallPlan {
    /// The client jar, then the files of every library.
    pub core: Vec<DownloadJob>,
    /// Every asset object.
    pub assets: Vec<DownloadJob>,
    /// The native jars among the library files, in order.
    pub natives: Vec<NativeRef>,
}

/// Weight of the client jar download.
pub const CLIENT_WEIGHT: u64 = 50;
/// Weight of one library file download.
pub const LIBRARY_WEIGHT: u64 = 5;
/// Weight of one asset object download.
pub const ASSET_WEIGHT: u64 = 1;

// ───────────────────────────── specs ─────────────────────────────

/// A job as plain values: label, URL, target, SHA-1, weight.
pub type JobView = (Seq<char>, Seq<char>, Seq<char>, Option<Seq<char>>, u64);

/// The plain values of a job.
pub open spec fn job_view(j: DownloadJob) -> JobView {
    (j.label@, j.url@, j.target@, match j.sha1 {
        Some(s) => Some(s@),
        None => None,
    }, j.weight)
}

/// The plain values of jobs.
pub open spec fn job_views(js: Seq<DownloadJob>) -> Seq<JobView> {
    js.map_values(|j: DownloadJob| job_view(j))
}

/// A native reference as plain values: jar and excludes.
pub open spec fn native_view(n: NativeRef) -> (Seq<char>, Seq<Seq<char>>) {
    (n.jar@, sviews(n.excludes@))
}

/// The plain values of native references.
pub open spec fn native_views(ns: Seq<NativeRef>) -> Seq<(Seq<char>, Seq<Seq<char>>)> {
    ns.map_values(|n: NativeRef| native_view(n))
}

/// The download jobs of one library under `root`.
pub open spec fn lib_jobs(lib: Library, ctx: EvalContext, root: Seq<char>) -> Seq<JobView> {
    if !rules_allow_spec(lib.rules@, ctx) {
        Seq::empty()
    } else {
        let label = "library "@ + lib.name@;
        let main = lib.downloads->0.artifact->0;
        let old = old_native_info(lib, ctx);
        (if has_main_download(lib) {
            seq![(label, main.url@, path_join(root, main.path@), Some(main.sha1@), LIBRARY_WEIGHT)]
        } else {
            Seq::empty()
        }) + (if has_old_native(lib, ctx) {
            seq![(label, old.url@, path_join(root, old.path@), Some(old.sha1@), LIBRARY_WEIGHT)]
        } else {
            Seq::empty()
        })
    }
}

/// The native jars of one library under `root`.
pub open spec fn lib_natives(lib: Library, ctx: EvalContext, root: Seq<char>) -> Seq<(Seq<char>, Seq<Seq<char>>)> {
    if !rules_allow_spec(lib.rules@, ctx) {
        Seq::empty()
    } else {
        let ex = sviews(excludes_of(lib));
        let main = lib.downloads->0.artifact->0;
        let old = old_native_info(lib, ctx);
        (if has_main_download(lib) && is_new_format_native_spec(lib.name@) {
            seq![(path_join(root, main.path@), ex)]
        } else {
            Seq::empty()
        }) + (if has_old_native(lib, ctx) {
            seq![(path_join(root, old.path@), ex)]
        } else {
            Seq::empty()
        })
    }
}

/// The download jobs of all libraries, in order.
pub open spec fn libs_jobs(libs: Seq<Library>, ctx: EvalContext, root: Seq<char>) -> Seq<JobView>
    decreases libs.len(),
{
    if libs.len() == 0 {
        Seq::empty()
    } else {
        libs_jobs(libs.drop_last(), ctx, root) + lib_jobs(libs.last(), ctx, root)
    }
}

/// The native jars of all libraries, in order.
pub open spec fn libs_natives(libs: Seq<Library>, ctx: EvalContext, root: Seq<char>) -> Seq<
    (Seq<char>, Seq<Seq<char>>),
>
    decreases libs.len(),
{
    if libs.len() == 0 {
        Seq::empty()
    } else {
        libs_natives(libs.drop_last(), ctx, root) + lib_natives(libs.last(), ctx, root)
    }
}

/// The client jar job, when the manifest has a client download.
pub open spec fn client_jobs(m: ResolvedManifest, paths: InstallPaths) -> Seq<JobView> {
    match m.downloads.client {
        Some(c) => seq![
            ("client.jar "@ + m.id@, c.url@, path_join(paths.version_dir@, paths.version_id@ + ".jar"@), Some(c.sha1@), CLIENT_WEIGHT),
        ],
        None => Seq::empty(),
    }
}

/// How many characters of `s` make up its first `n` bytes, or `-1` when
/// byte `n` does not fall on a character boundary within `s`.
pub open spec fn byte_prefix_chars(s: Seq<char>, n: int) -> int
    decreases s.len(),
{
    if n == 0 {
        0
    } else if n < 0 || s.len() == 0 {
        -1
    } else {
        let r = byte_prefix_chars(s.drop_first(), n - utf8_len(s[0]));
        if r < 0 { -1 } else { r + 1 }
    }
}

/// A hash that can be addressed and labelled: its first two and first
/// eight bytes end on character boundaries.
pub open spec fn hash_ok(hash: Seq<char>) -> bool {
    two_byte_prefix_ok(hash) && byte_prefix_chars(hash, 8) >= 0
}

/// The job of one asset object.
pub open spec fn asset_job(obj: AssetObject, paths: InstallPaths) -> JobView {
    (
        "asset "@ + obj.hash@.take(byte_prefix_chars(obj.hash@, 8)),
        "https://resources.download.minecraft.net/"@ + asset_relative_path(obj.hash@),
        path_join(path_join(paths.assets_dir@, "objects"@), asset_relative_path(obj.hash@)),
        Some(obj.hash@),
        ASSET_WEIGHT,
    )
}

/// The index is a map in name order (names strictly ascending), and every
/// object of it can be addressed and labelled.
pub open spec fn index_ok(index: AssetIndex) -> bool {
    &&& forall|i: int, j: int|
        0 <= i < j < index.objects@.len() ==> crate::loader::neoforge::str_lt(
            (#[trigger] index.objects@[i]).0@,
            (#[trigger] index.objects@[j]).0@,
        )
    &&& forall|i: int| 0 <= i < index.objects@.len() ==> hash_ok((#[trigger] index.objects@[i]).1.hash@)
}

// ───────────────────────────── exec ─────────────────────────────

/// The number of characters in the first `n` bytes of `s`.
fn byte_prefix_len(s: &[char], n: usize) -> (r: Option<usize>)
    ensures
        r matches Some(k) ==> byte_prefix_chars(s@, n as int) == k && k <= s@.len(),
        r is None ==> byte_prefix_chars(s@, n as int) < 0,
{
    let mut k: usize = 0;
    let mut left: usize = n;
    assert(s@.skip(0) == s@);
    while left > 0 && k < s.len()
        invariant
            k <= s@.len(),
            left <= n,
            byte_prefix_chars(s@, n as int) == (if byte_prefix_chars(s@.skip(k as int), left as int) < 0 {
                -1
            } else {
                byte_prefix_chars(s@.skip(k as int), left as int) + k
            }),
        decreases s@.len() - k,
    {
        let c = s[k] as u32;
        let w: usize = if c < 0x80 {
            1
        } else if c < 0x800 {
            2
        } else if c < 0x10000 {
            3
        } else {
            4
        };
        assert(w == utf8_len(s@[k as int]));
        assert(s@.skip(k as int)[0] == s@[k as int]);
        assert(s@.skip(k as int).drop_first() == s@.skip(k + 1));
        if w > left {
            assert(byte_prefix_chars(s@.skip(k + 1), left - w) < 0);
            return None;
        }
        left = left - w;
        k = k + 1;
    }
    if left > 0 {
        return None;
    }
    Some(k)
}

/// The job of one asset object.
fn asset_download(obj: &AssetObject, paths: &InstallPaths) -> (j: DownloadJob)
    requires
        hash_ok(obj.hash@),
    ensures
        job_view(j) == asset_job(*obj, *paths),
{
    let hv = to_chars(obj.hash.as_str());
    let k = match byte_prefix_len(hv.as_slice(), 8) {
        Some(k) => k,
        None => 0,
    };
    let mut label = "asset ".to_string();
    label.append(string_of(hv.as_slice(), 0, k).as_str());
    assert(hv@.subrange(0, k as int) == obj.hash@.take(k as int));
    DownloadJob {
        label,
        url: obj.official_url(),
        target: paths.asset_object(obj),
        sha1: Some(obj.hash.clone()),
        weight: ASSET_WEIGHT,
    }
}

/// The download jobs and native jars of one library.
fn library_jobs(
    lib: &Library,
    ctx: &EvalContext,
    root: &str,
    jobs: &mut Vec<DownloadJob>,
    natives: &mut Vec<NativeRef>,
)
    requires
        crate::model::arguments::context_ok(*ctx),
        crate::vanilla::library::library_maps_ok(*lib),
    ensures
        job_views(final(jobs)@) == job_views(old(jobs)@) + lib_jobs(*lib, *ctx, root@),
        native_views(final(natives)@) == native_views(old(natives)@) + lib_natives(*lib, *ctx, root@),
{
    let arts = library_artifacts(lib, ctx, root);
    let ghost j0 = job_views(jobs@);
    let ghost n0 = native_views(natives@);
    let ghost m: int = if has_main_download(*lib) { 1 } else { 0 };
    let mut i: usize = 0;
    while i < arts.len()
        invariant
            i <= arts@.len(),
            forall|t: int| 0 <= t < i ==> #[trigger] job_views(jobs@)[j0.len() + t] == (
                "library "@ + lib.name@,
                arts@[t].url@,
                arts@[t].target@,
                Some(arts@[t].sha1@),
                LIBRARY_WEIGHT,
            ),
            job_views(jobs@).len() == j0.len() + i,
            job_views(jobs@).take(j0.len() as int) == j0,
            native_views(natives@) == n0 + native_views_of(arts@.take(i as int)),
        decreases arts@.len() - i,
    {
        let a = &arts[i];
        let mut label = "library ".to_string();
        label.append(lib.name.as_str());
        let ghost jb = jobs@;
        jobs.push(
            DownloadJob {
                label,
                url: a.url.clone(),
                target: a.target.clone(),
                sha1: Some(a.sha1.clone()),
                weight: LIBRARY_WEIGHT,
            },
        );
        assert(job_views(jobs@) == job_views(jb).push(job_view(jobs@.last())));
        assert forall|t: int| 0 <= t < i + 1 implies #[trigger] job_views(jobs@)[j0.len() + t] == (
            "library "@ + lib.name@,
            arts@[t].url@,
            arts@[t].target@,
            Some(arts@[t].sha1@),
            LIBRARY_WEIGHT,
        ) by {
            if t < i {
                assert(job_views(jobs@)[j0.len() + t] == job_views(jb)[j0.len() + t]);
            }
        }
        assert(job_views(jobs@).take(j0.len() as int) == job_views(jb).take(j0.len() as int));
        let ghost nb = native_views(natives@);
        assert(arts@.take(i + 1).drop_last() == arts@.take(i as int));
        assert(arts@.take(i + 1).last() == arts@[i as int]);
        match &a.kind {
            ArtifactKind::Native { excludes } => {
                natives.push(NativeRef { jar: a.target.clone(), excludes: clone_strings(excludes) });
                assert(native_views(natives@) == nb.push(native_views(natives@).last()));
            },
            ArtifactKind::Library => {},
        }
        i = i + 1;
    }
    proof {
        assert(arts@.take(arts@.len() as int) == arts@);
        let jn = job_views(jobs@);
        assert(jn == j0 + lib_jobs(*lib, *ctx, root@)) by {
            let lj = lib_jobs(*lib, *ctx, root@);
            assert(lj.len() == arts@.len());
            assert forall|t: int| 0 <= t < lj.len() implies jn[j0.len() + t] == lj[t] by {
                if rules_allow_spec(lib.rules@, *ctx) && has_main_download(*lib) && t == 0 {
                } else {
                }
            }
            assert forall|t: int| 0 <= t < jn.len() implies jn[t] == (j0 + lj)[t] by {
                if t < j0.len() {
                    assert(jn.take(j0.len() as int)[t] == jn[t]);
                } else {
                    assert(jn[j0.len() + (t - j0.len())] == lj[t - j0.len()]);
                }
            }
        }
        assert(native_views_of(arts@) == lib_natives(*lib, *ctx, root@)) by {
            lemma_native_views_of(arts@, *lib, *ctx, root@, m);
        }
    }
}

/// The native jars among library artifacts, as plain values.
pub open spec fn native_views_of(arts: Seq<LibraryArtifact>) -> Seq<(Seq<char>, Seq<Seq<char>>)>
    decreases arts.len(),
{
    if arts.len() == 0 {
        Seq::empty()
    } else {
        native_views_of(arts.drop_last()) + art_native(arts.last())
    }
}

/// The native jar an artifact is, if it is one.
pub open spec fn art_native(a: LibraryArtifact) -> Seq<(Seq<char>, Seq<Seq<char>>)> {
    match a.kind {
        ArtifactKind::Native { excludes } => seq![(a.target@, sviews(excludes@))],
        ArtifactKind::Library => Seq::empty(),
    }
}

proof fn lemma_native_views_of(arts: Seq<LibraryArtifact>, lib: Library, ctx: EvalContext, root: Seq<char>, m: int)
    requires
        m == (if has_main_download(lib) { 1int } else { 0int }),
        !rules_allow_spec(lib.rules@, ctx) ==> arts.len() == 0,
        rules_allow_spec(lib.rules@, ctx) ==> {
            let n: int = if has_old_native(lib, ctx) { 1 } else { 0 };
            &&& arts.len() == m + n
            &&& has_main_download(lib) ==> {
                &&& arts[0].target@ == path_join(root, lib.downloads->0.artifact->0.path@)
                &&& if is_new_format_native_spec(lib.name@) {
                    arts[0].kind matches ArtifactKind::Native { excludes } && excludes@ == excludes_of(lib)
                } else {
                    arts[0].kind is Library
                }
            }
            &&& has_old_native(lib, ctx) ==> {
                &&& arts[m].target@ == path_join(root, old_native_info(lib, ctx).path@)
                &&& arts[m].kind matches ArtifactKind::Native { excludes } && excludes@ == excludes_of(lib)
            }
        },
    ensures
        native_views_of(arts) == lib_natives(lib, ctx, root),
{
    let e = Seq::<(Seq<char>, Seq<Seq<char>>)>::empty();
    if !rules_allow_spec(lib.rules@, ctx) {
        assert(native_views_of(arts) == e);
        return;
    }
    let ex = sviews(excludes_of(lib));
    let main_part: Seq<(Seq<char>, Seq<Seq<char>>)> = if has_main_download(lib) && is_new_format_native_spec(lib.name@) {
        seq![(path_join(root, lib.downloads->0.artifact->0.path@), ex)]
    } else {
        e
    };
    let old_part: Seq<(Seq<char>, Seq<Seq<char>>)> = if has_old_native(lib, ctx) {
        seq![(path_join(root, old_native_info(lib, ctx).path@), ex)]
    } else {
        e
    };
    assert(lib_natives(lib, ctx, root) == main_part + old_part);
    if has_main_download(lib) {
        assert(art_native(arts[0]) == main_part);
    }
    if has_old_native(lib, ctx) {
        assert(art_native(arts[m]) == old_part);
    }
    if arts.len() == 0 {
        assert(main_part + old_part == e);
    } else if arts.len() == 1 {
        assert(arts.drop_last() == Seq::<LibraryArtifact>::empty());
        assert(native_views_of(Seq::<LibraryArtifact>::empty()) == e);
        assert(arts.last() == arts[0]);
        assert(native_views_of(arts) == e + art_native(arts[0]));
        assert(e + art_native(arts[0]) == art_native(arts[0]));
        if has_main_download(lib) {
            assert(main_part + e == main_part);
        } else {
            assert(e + old_part == old_part);
        }
    } else {
        assert(arts.drop_last().drop_last() == Seq::<LibraryArtifact>::empty());
        assert(arts.drop_last().last() == arts[0]);
        assert(native_views_of(Seq::<LibraryArtifact>::empty()) == e);
        assert(native_views_of(arts.drop_last()) == e + art_native(arts[0]));
        assert(e + art_native(arts[0]) == art_native(arts[0]));
    }
}

/// A copy of a list of strings.
fn clone_strings(v: &Vec<String>) -> (r: Vec<String>)
    ensures
        r@ == v@,
{
    let mut r: Vec<String> = Vec::new();
    let mut i: usize = 0;
    while i < v.len()
        invariant
            i <= v@.len(),
            r@ == v@.take(i as int),
        decreases v@.len() - i,
    {
        r.push(v[i].clone());
        assert(v@.take(i + 1) == v@.take(i as int).push(v@[i as int]));
        i = i + 1;
    }
    assert(v@.take(v@.len() as int) == v@);
    r
}

/// The plan of installing `resolved` at `paths` with the asset index
/// `index`, libraries evaluated in `ctx`: the client jar and library files
/// first, then the assets, then the natives to extract.
pub fn plan_install(
    resolved: &ResolvedManifest,
    paths: &InstallPaths,
    index: &AssetIndex,
    ctx: &EvalContext,
) -> (p: InstallPlan)
    requires
        index_ok(*index),
        crate::model::arguments::context_ok(*ctx),
        crate::vanilla::library::libraries_ok(resolved.libraries@),
    ensures
        job_views(p.core@) == client_jobs(*resolved, *paths) + libs_jobs(
            resolved.libraries@,
            *ctx,
            paths.libraries_dir@,
        ),
        job_views(p.assets@) == index.objects@.map_values(
            |e: (String, AssetObject)| asset_job(e.1, *paths),
        ),
        native_views(p.natives@) == libs_natives(resolved.libraries@, *ctx, paths.libraries_dir@),
{
    let mut core: Vec<DownloadJob> = Vec::new();
    let mut natives: Vec<NativeRef> = Vec::new();
    if let Some(client) = &resolved.downloads.client {
        let mut label = "client.jar ".to_string();
        label.append(resolved.id.as_str());
        core.push(
            DownloadJob {
                label,
                url: client.url.clone(),
                target: paths.client_jar(),
                sha1: Some(client.sha1.clone()),
                weight: CLIENT_WEIGHT,
            },
        );
    }
    assert(job_views(core@) == client_jobs(*resolved, *paths));
    let libs = &resolved.libraries;
    let mut i: usize = 0;
    assert(native_views(natives@) == Seq::<(Seq<char>, Seq<Seq<char>>)>::empty());
    while i < libs.len()
        invariant
            i <= libs@.len(),
            crate::model::arguments::context_ok(*ctx),
            crate::vanilla::library::libraries_ok(resolved.libraries@),
            libs@ == resolved.libraries@,
            job_views(core@) == client_jobs(*resolved, *paths) + libs_jobs(
                libs@.take(i as int),
                *ctx,
                paths.libraries_dir@,
            ),
            native_views(natives@) == libs_natives(libs@.take(i as int), *ctx, paths.libraries_dir@),
        decreases libs@.len() - i,
    {
        library_jobs(&libs[i], ctx, paths.libraries_dir.as_str(), &mut core, &mut natives);
        assert(libs@.take(i + 1).drop_last() == libs@.take(i as int));
        assert(libs@.take(i + 1).last() == libs@[i as int]);
        i = i + 1;
    }
    assert(libs@.take(libs@.len() as int) == libs@);
    let mut assets: Vec<DownloadJob> = Vec::new();
    let mut k: usize = 0;
    while k < index.objects.len()
        invariant
            k <= index.objects@.len(),
            index_ok(*index),
            job_views(assets@) == index.objects@.take(k as int).map_values(
                |e: (String, AssetObject)| asset_job(e.1, *paths),
            ),
        decreases index.objects@.len() - k,
    {
        assert(hash_ok(index.objects@[k as int].1.hash@));
        let ghost before = job_views(assets@);
        assets.push(asset_download(&index.objects[k].1, paths));
        assert(job_views(assets@) == before.push(asset_job(index.objects@[k as int].1, *paths)));
        assert(index.objects@.take(k + 1) == index.objects@.take(k as int).push(index.objects@[k as int]));
        k = k + 1;
    }
    assert(index.objects@.take(k as int) == index.objects@);
    InstallPlan { core, assets, natives }
}


/// An index in strict name order names each asset once: it holds a map.
pub proof fn law_index_names_distinct(index: AssetIndex)
    requires
        index_ok(index),
    ensures
        crate::text::keys_distinct(index.objects@),
{
    assert forall|i: int, j: int| 0 <= i < j < index.objects@.len() implies (#[trigger] index.objects@[i]).0@
        != (#[trigger] index.objects@[j]).0@ by {
        if index.objects@[i].0@ == index.objects@[j].0@ {
            crate::loader::neoforge::lemma_str_lt_irreflexive(index.objects@[i].0@);
        }
    }
}

} // verus!
