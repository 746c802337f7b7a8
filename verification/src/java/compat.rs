//! Choosing a Java runtime for a manifest.

use super::model::{Arch, JavaRuntime, JavaSource};
use crate::model::version::ResolvedManifest;
use vstd::prelude::*;

verus! {

/// The Java major version a manifest asks for; 8 when it states 0.
pub fn required_java_major(manifest: &ResolvedManifest) -> (m: u8)
    ensures
        m == (if manifest.java_version.major_version == 0 { 8 } else { manifest.java_version.major_version }),
{
    let m = manifest.java_version.major_version;
    if m == 0 {
        8
    } else {
        m
    }
}

/// Preference among sources of equal major version (lower is preferred):
/// JavaHome, Adoptium, Registry, Path, Manual, then every other source.
pub open spec fn source_rank(s: JavaSource) -> u8 {
    match s {
        JavaSource::JavaHome => 0,
        JavaSource::Adoptium => 1,
        JavaSource::Registry => 2,
        JavaSource::Path => 3,
        JavaSource::Manual => 4,
        _ => 5,
    }
}

/// Preference among sources of equal major version:
/// JavaHome, Adoptium, Registry, Path, Manual, then every other source.
pub fn source_priority(s: JavaSource) -> (p: u8)
    ensures
        p == source_rank(s),
{
    match s {
        JavaSource::JavaHome => 0,
        JavaSource::Adoptium => 1,
        JavaSource::Registry => 2,
        JavaSource::Path => 3,
        JavaSource::Manual => 4,
        _ => 5,
    }
}

/// 0 when a runtime's architecture is that of the running process, else 1.
pub open spec fn arch_rank(a: Arch, process: Arch) -> u8 {
    if a == process { 0 } else { 1 }
}

/// `a` is strictly preferred to `b` for requirement `req` on a process of
/// architecture `arch`: closer major version, then the process's
/// architecture, then the better source.
pub open spec fn better(a: JavaRuntime, b: JavaRuntime, req: u8, arch: Arch) -> bool {
    let da = a.version_major - req;
    let db = b.version_major - req;
    let xa = arch_rank(a.arch, arch);
    let xb = arch_rank(b.arch, arch);
    ||| da < db
    ||| (da == db && xa < xb)
    ||| (da == db && xa == xb && source_rank(a.source) < source_rank(b.source))
}

/// Index `i` holds the runtime `select_best` returns: it meets the
/// requirement, none is strictly preferred to it, and every eligible one
/// before it is strictly worse.
pub open spec fn is_best(c: Seq<JavaRuntime>, req: u8, arch: Arch, i: int) -> bool {
    &&& 0 <= i < c.len()
    &&& c[i].version_major >= req
    &&& forall|j: int| 0 <= j < c.len() && c[j].version_major >= req ==> !better(c[j], c[i], req, arch)
    &&& forall|j: int| 0 <= j < i && c[j].version_major >= req ==> better(c[i], c[j], req, arch)
}

/// The runtime to use for `required_major` in a process of architecture
/// `process_arch`: among those of at least that major version, the closest
/// one; among those, one of the process's architecture, then the one of
/// the best source (see [`source_rank`]); the first such in order. `None`
/// when no runtime is recent enough.
pub fn select_best(candidates: &[JavaRuntime], required_major: u8, process_arch: Arch) -> (r: Option<
    &JavaRuntime,
>)
    ensures
        r is None <==> forall|j: int| 0 <= j < candidates@.len() ==> candidates@[j].version_major < required_major,
        r matches Some(b) ==> exists|i: int| is_best(candidates@, required_major, process_arch, i) && *b == candidates@[i],
{
    let mut best: Option<usize> = None;
    let mut i: usize = 0;
    while i < candidates.len()
        invariant
            i <= candidates@.len(),
            best is None ==> forall|j: int| 0 <= j < i ==> candidates@[j].version_major < required_major,
            best matches Some(b) ==> b < i && is_best(candidates@.take(i as int), required_major, process_arch, b as int),
        decreases candidates@.len() - i,
    {
        let c = &candidates[i];
        let ghost ci = candidates@.take(i as int);
        let ghost cn = candidates@.take(i + 1);
        assert forall|j: int| 0 <= j < i implies cn[j] == ci[j] by {}
        if c.version_major >= required_major {
            match best {
                None => {
                    best = Some(i);
                },
                Some(b) => {
                    let cb = &candidates[b];
                    let dc = c.version_major - required_major;
                    let db = cb.version_major - required_major;
                    let xc: u8 = if c.arch == process_arch { 0 } else { 1 };
                    let xb: u8 = if cb.arch == process_arch { 0 } else { 1 };
                    if dc < db || (dc == db && xc < xb) || (dc == db && xc == xb && source_priority(c.source)
                        < source_priority(cb.source)) {
                        best = Some(i);
                        proof {
                            assert forall|j: int| 0 <= j < i + 1 && cn[j].version_major >= required_major implies !better(cn[j], cn[i as int], required_major, process_arch) by {
                                if j < i {
                                    assert(!better(ci[j], ci[b as int], required_major, process_arch));
                                }
                            }
                        }
                    }
                },
            }
        }
        i = i + 1;
    }
    assert(candidates@.take(i as int) == candidates@);
    match best {
        None => None,
        Some(b) => Some(&candidates[b]),
    }
}


/// Among runtimes of the same major version and architecture, the one
/// chosen comes no later in the documented source order than any other:
/// JavaHome, then Adoptium, then Registry, then Path, then Manual, then
/// every other source.
pub proof fn law_select_source_order(c: Seq<JavaRuntime>, req: u8, arch: Arch, i: int, j: int)
    requires
        is_best(c, req, arch, i),
        0 <= j < c.len(),
        c[j].version_major == c[i].version_major,
        c[j].arch == c[i].arch,
    ensures
        c[j].source == JavaSource::JavaHome ==> c[i].source == JavaSource::JavaHome,
        c[j].source == JavaSource::Adoptium ==> (c[i].source == JavaSource::JavaHome || c[i].source
            == JavaSource::Adoptium),
        c[j].source == JavaSource::Registry ==> (c[i].source == JavaSource::JavaHome || c[i].source
            == JavaSource::Adoptium || c[i].source == JavaSource::Registry),
        c[j].source == JavaSource::Path ==> (c[i].source == JavaSource::JavaHome || c[i].source
            == JavaSource::Adoptium || c[i].source == JavaSource::Registry || c[i].source
            == JavaSource::Path),
        c[j].source == JavaSource::Manual ==> (c[i].source == JavaSource::JavaHome || c[i].source
            == JavaSource::Adoptium || c[i].source == JavaSource::Registry || c[i].source
            == JavaSource::Path || c[i].source == JavaSource::Manual),
{
    assert(!better(c[j], c[i], req, arch));
}

/// Among eligible runtimes, the one chosen has the lowest major version,
/// and among those of that version one of the process's architecture
/// whenever there is one.
pub proof fn law_select_closest_then_arch(c: Seq<JavaRuntime>, req: u8, arch: Arch, i: int, j: int)
    requires
        is_best(c, req, arch, i),
        0 <= j < c.len(),
        c[j].version_major >= req,
    ensures
        c[i].version_major <= c[j].version_major,
        c[j].version_major == c[i].version_major && c[j].arch == arch ==> c[i].arch == arch,
{
    assert(!better(c[j], c[i], req, arch));
}

} // verus!
