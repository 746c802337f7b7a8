//! Expansion of a library entry into the files to download, with natives recognised.

use crate::model::arguments::{rules_allow, rules_allow_spec, EvalContext, OsName};
use crate::model::library::{ArtifactInfo, Library};
use crate::paths::{join_path, path_join};
use crate::text::{find_char, replace_seq};
use vstd::prelude::*;

verus! {

/// One file to download for a library.
#[derive(Debug, Clone)]
pub struct LibraryArtifact {
    pub url: String,
    pub target: String,
    pub sha1: String,
    pub size: u64,
    pub kind: ArtifactKind,
}

/// What a downloaded library file is used for.
#[derive(Debug, Clone)]
pub enum ArtifactKind {
    /// A classpath jar.
    Library,
    /// A native jar, extracted into `natives/` skipping the `excludes` prefixes.
    Native { excludes: Vec<String> },
}

/// The index of the first entry of `s` whose key is `k`, or `-1`.
pub open spec fn key_index<V>(s: Seq<(String, V)>, k: Seq<char>) -> int
    decreases s.len(),
{
    if s.len() == 0 {
        -1
    } else if s[0].0@ == k {
        0
    } else {
        let r = key_index(s.drop_first(), k);
        if r < 0 { -1 } else { r + 1 }
    }
}

proof fn lemma_key_index<V>(s: Seq<(String, V)>, k: Seq<char>, i: int)
    requires
        0 <= i <= s.len(),
        forall|j: int| 0 <= j < i ==> (#[trigger] s[j]).0@ != k,
        i < s.len() ==> s[i].0@ == k,
    ensures
        key_index(s, k) == (if i < s.len() { i } else { -1 }),
    decreases i,
{
    if i > 0 {
        assert forall|j: int| 0 <= j < i - 1 implies (#[trigger] s.drop_first()[j]).0@ != k by {
            assert(s.drop_first()[j] == s[j + 1]);
        }
        lemma_key_index(s.drop_first(), k, i - 1);
    }
}

/// The index of the first entry of `v` whose key is `k`.
pub fn find_key<V>(v: &Vec<(String, V)>, k: &str) -> (r: Option<usize>)
    ensures
        match r {
            Some(i) => i < v@.len() && key_index(v@, k@) == i,
            None => key_index(v@, k@) == -1,
        },
{
    let mut i: usize = 0;
    while i < v.len()
        invariant
            i <= v@.len(),
            forall|j: int| 0 <= j < i ==> (#[trigger] v@[j]).0@ != k@,
        decreases v@.len() - i,
    {
        if crate::text::str_eq(v[i].0.as_str(), k) {
            proof {
                lemma_key_index(v@, k@, i as int);
            }
            return Some(i);
        }
        i = i + 1;
    }
    proof {
        lemma_key_index(v@, k@, v@.len() as int);
    }
    None
}

/// The fourth `:`-separated part of a name, if there is one, starts with `natives-`.
pub open spec fn is_new_format_native_spec(name: Seq<char>) -> bool {
    let i1 = find_char(name, ':');
    let r1 = name.skip(i1 + 1);
    let i2 = find_char(r1, ':');
    let r2 = r1.skip(i2 + 1);
    let i3 = find_char(r2, ':');
    let r3 = r2.skip(i3 + 1);
    i1 >= 0 && i2 >= 0 && i3 >= 0 && crate::text::is_prefix("natives-"@, r3)
}

/// The library name encodes a native classifier (1.19+ format,
/// `group:artifact:version:natives-<os>`).
pub fn is_new_format_native(name: &str) -> (b: bool)
    ensures
        b == is_new_format_native_spec(name@),
{
    let v = crate::text::to_chars(name);
    let ghost s = v@;
    let i1 = match crate::text::find_char_from(v.as_slice(), ':', 0) {
        Some(i) => i,
        None => {
            proof { crate::text::lemma_find_char_is(s, ':', s.len() as int); }
            return false;
        },
    };
    proof { crate::text::lemma_find_char_is(s, ':', i1 as int); }
    assert(i1 < v.len());
    let i2 = match crate::text::find_char_from(v.as_slice(), ':', i1 + 1) {
        Some(i) => i,
        None => {
            proof { crate::text::lemma_find_char_is(s.skip(i1 + 1), ':', s.len() - i1 - 1); }
            return false;
        },
    };
    proof { crate::text::lemma_find_char_is(s.skip(i1 + 1), ':', i2 - i1 - 1); }
    assert(s.skip(i1 + 1).skip(i2 - i1) == s.skip(i2 + 1));
    assert(i2 < v.len());
    let i3 = match crate::text::find_char_from(v.as_slice(), ':', i2 + 1) {
        Some(i) => i,
        None => {
            proof { crate::text::lemma_find_char_is(s.skip(i2 + 1), ':', s.len() - i2 - 1); }
            return false;
        },
    };
    proof { crate::text::lemma_find_char_is(s.skip(i2 + 1), ':', i3 - i2 - 1); }
    assert(s.skip(i2 + 1).skip(i3 - i2) == s.skip(i3 + 1));
    assert(i3 < v.len());
    let rest = crate::text::sub_chars(v.as_slice(), i3 + 1, v.len());
    assert(rest@ == s.skip(i3 + 1));
    let p = crate::text::to_chars("natives-");
    crate::text::starts_with(rest.as_slice(), p.as_slice())
}

/// `"64"` on 64-bit targets, `"32"` otherwise: what `${arch}` expands to in
/// old-format native classifiers.
pub open spec fn arch_bits() -> Seq<char> {
    if usize::BITS == 64 { "64"@ } else { "32"@ }
}

/// The key of `os` in an old-format `natives` map.
pub open spec fn os_key(os: OsName) -> Seq<char> {
    match os {
        OsName::Windows => "windows"@,
        OsName::Linux => "linux"@,
        OsName::Osx => "osx"@,
    }
}

/// `a` is the download of `info` under `root`.
pub open spec fn artifact_of(a: LibraryArtifact, info: ArtifactInfo, root: Seq<char>) -> bool {
    &&& a.url == info.url
    &&& a.target@ == path_join(root, info.path@)
    &&& a.sha1 == info.sha1
    &&& a.size == info.size
}

/// The main artifact of `lib` is downloaded: it exists and has a URL (an
/// empty URL marks a file that an installer processor produces).
pub open spec fn has_main_download(lib: Library) -> bool {
    lib.downloads matches Some(d) && d.artifact matches Some(a) && a.url@.len() > 0
}

/// The classifier selected for `lib` on `ctx`'s OS, with `${arch}` expanded.
pub open spec fn native_classifier(lib: Library, ctx: EvalContext) -> Seq<char> {
    let nm = lib.natives->0@;
    let template = nm[key_index(nm, os_key(ctx.os.name))].1@;
    replace_seq(template, "${arch}"@, arch_bits())
}

/// `lib` has an old-format native file for `ctx`'s OS.
pub open spec fn has_old_native(lib: Library, ctx: EvalContext) -> bool {
    &&& lib.natives is Some
    &&& lib.downloads matches Some(d) && d.classifiers is Some
    &&& key_index(lib.natives->0@, os_key(ctx.os.name)) >= 0
    &&& key_index(lib.downloads->0.classifiers->0@, native_classifier(lib, ctx)) >= 0
}

/// The old-format native file of `lib` for `ctx`'s OS.
pub open spec fn old_native_info(lib: Library, ctx: EvalContext) -> ArtifactInfo {
    let cl = lib.downloads->0.classifiers->0@;
    cl[key_index(cl, native_classifier(lib, ctx))].1
}

/// The extraction excludes of `lib`.
pub open spec fn excludes_of(lib: Library) -> Seq<String> {
    match lib.extract {
        Some(e) => e.exclude@,
        None => Seq::empty(),
    }
}

/// `k` is a native kind with the excludes of `lib`.
pub open spec fn native_kind_of(k: ArtifactKind, lib: Library) -> bool {
    k matches ArtifactKind::Native { excludes } && excludes@ == excludes_of(lib)
}

/// The maps of a library (`natives`, `downloads.classifiers`) name each
/// key once.
pub open spec fn library_maps_ok(lib: Library) -> bool {
    &&& lib.natives matches Some(n) ==> crate::text::keys_distinct(n@)
    &&& lib.downloads matches Some(d) ==> (d.classifiers matches Some(c) ==> crate::text::keys_distinct(c@))
}

/// Every library of `libs` satisfies [`library_maps_ok`].
pub open spec fn libraries_ok(libs: Seq<Library>) -> bool {
    forall|i: int| 0 <= i < libs.len() ==> library_maps_ok(#[trigger] libs[i])
}

/// Expands `library` into the files to download under `libraries_root`.
/// Nothing when its rules refuse it in `ctx`. Otherwise: its main artifact
/// (when it has a non-empty URL), a native when the name encodes a native
/// classifier, else a classpath library; then, for the old format, the
/// classifier that `natives` names for `ctx`'s OS (with `${arch}` expanded),
/// as a native.
pub fn library_artifacts(library: &Library, ctx: &EvalContext, libraries_root: &str) -> (out: Vec<LibraryArtifact>)
    requires
        crate::model::arguments::context_ok(*ctx),
        library_maps_ok(*library),
    ensures
        !rules_allow_spec(library.rules@, *ctx) ==> out@.len() == 0,
        rules_allow_spec(library.rules@, *ctx) ==> {
            let m: int = if has_main_download(*library) { 1 } else { 0 };
            let n: int = if has_old_native(*library, *ctx) { 1 } else { 0 };
            &&& out@.len() == m + n
            &&& has_main_download(*library) ==> {
                &&& artifact_of(out@[0], library.downloads->0.artifact->0, libraries_root@)
                &&& if is_new_format_native_spec(library.name@) {
                    native_kind_of(out@[0].kind, *library)
                } else {
                    out@[0].kind is Library
                }
            }
            &&& has_old_native(*library, *ctx) ==> {
                &&& artifact_of(out@[m], old_native_info(*library, *ctx), libraries_root@)
                &&& native_kind_of(out@[m].kind, *library)
            }
        },
{
    let mut out: Vec<LibraryArtifact> = Vec::new();
    if !rules_allow(&library.rules, ctx) {
        return out;
    }
    let is_new_native = is_new_format_native(library.name.as_str());
    let excludes: Vec<String> = match &library.extract {
        Some(e) => e.exclude.clone(),
        None => Vec::new(),
    };
    assert(excludes@ == excludes_of(*library)) by {
        if let Some(e) = library.extract {
            assert forall|i: int| 0 <= i < excludes@.len() implies excludes@[i] == e.exclude@[i] by {
                assert(cloned::<String>(e.exclude@[i], excludes@[i]));
            }
        }
    }
    if let Some(d) = &library.downloads {
        if let Some(artifact) = &d.artifact {
            if !artifact.url.as_str().is_empty() {
                let kind = if is_new_native {
                    let ex = excludes.clone();
                    assert(ex@ == excludes@) by {
                        assert forall|i: int| 0 <= i < ex@.len() implies ex@[i] == excludes@[i] by {
                            assert(cloned::<String>(excludes@[i], ex@[i]));
                        }
                    }
                    ArtifactKind::Native { excludes: ex }
                } else {
                    ArtifactKind::Library
                };
                out.push(
                    LibraryArtifact {
                        url: artifact.url.clone(),
                        target: join_path(libraries_root, artifact.path.as_str()),
                        sha1: artifact.sha1.clone(),
                        size: artifact.size,
                        kind,
                    },
                );
            }
        }
    }
    if let Some(natives_map) = &library.natives {
        if let Some(d) = &library.downloads {
            if let Some(classifiers) = &d.classifiers {
                let key = match ctx.os.name {
                    OsName::Windows => "windows",
                    OsName::Linux => "linux",
                    OsName::Osx => "osx",
                };
                proof {
                    reveal_strlit("windows");
                    reveal_strlit("linux");
                    reveal_strlit("osx");
                }
                assert(key@ == os_key(ctx.os.name));
                if let Some(ti) = find_key(natives_map, key) {
                    let arch_str = if usize::BITS == 64 { "64" } else { "32" };
                    let tv = crate::text::to_chars(natives_map[ti].1.as_str());
                    let pv = crate::text::to_chars("${arch}");
                    let av = crate::text::to_chars(arch_str);
                    proof {
                        reveal_strlit("${arch}");
                        reveal_strlit("64");
                        reveal_strlit("32");
                    }
                    let cv = crate::text::replace_chars(tv.as_slice(), pv.as_slice(), av.as_slice());
                    let classifier = crate::text::from_chars(cv.as_slice());
                    if let Some(ci) = find_key(classifiers, classifier.as_str()) {
                        let art = &classifiers[ci].1;
                        out.push(
                            LibraryArtifact {
                                url: art.url.clone(),
                                target: join_path(libraries_root, art.path.as_str()),
                                sha1: art.sha1.clone(),
                                size: art.size,
                                kind: ArtifactKind::Native { excludes },
                            },
                        );
                    }
                }
            }
        }
    }
    out
}


/// In a list of distinct keys (a map, such as `natives` or `classifiers`),
/// looking up an entry's key finds that entry, whatever the order.
pub proof fn law_key_index_distinct<V>(s: Seq<(String, V)>, i: int)
    requires
        crate::text::keys_distinct(s),
        0 <= i < s.len(),
    ensures
        key_index(s, s[i].0@) == i,
{
    lemma_key_index(s, s[i].0@, i);
}


/// An old-format library is given its native file for the OS it runs on:
/// the `natives` entry named by Mojang's key of that OS (`windows`, `linux`,
/// `osx`), with `${arch}` expanded, picks the classifier file.
pub proof fn law_old_native_by_os_name(lib: Library, ctx: EvalContext, i: int, j: int)
    requires
        library_maps_ok(lib),
        lib.natives matches Some(n) && 0 <= i < n@.len() && {
            let k = n@[i].0@;
            ||| ctx.os.name == OsName::Windows && k == "windows"@
            ||| ctx.os.name == OsName::Linux && k == "linux"@
            ||| ctx.os.name == OsName::Osx && k == "osx"@
        },
        lib.downloads matches Some(d) && d.classifiers matches Some(cl) && 0 <= j < cl@.len()
            && cl@[j].0@ == replace_seq(lib.natives->0@[i].1@, "${arch}"@, arch_bits()),
    ensures
        has_old_native(lib, ctx),
        native_classifier(lib, ctx) == replace_seq(lib.natives->0@[i].1@, "${arch}"@, arch_bits()),
        old_native_info(lib, ctx) == lib.downloads->0.classifiers->0@[j].1,
{
    let n = lib.natives->0@;
    let cl = lib.downloads->0.classifiers->0@;
    law_key_index_distinct(n, i);
    assert(os_key(ctx.os.name) == n[i].0@);
    law_key_index_distinct(cl, j);
}

} // verus!
