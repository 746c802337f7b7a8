//! Forge versions and installer URLs.
//!
//! The version list comes from BMCLAPI in ascending build order; callers
//! want the newest build first.

use vstd::prelude::*;
use crate::loader::model::LoaderVersion;

verus! {

/// One Forge build of a Minecraft version, as BMCLAPI lists it.
#[derive(Debug, Clone)]
pub struct ForgeBuildEntry {
    pub build: u64,
    pub mcversion: String,
    pub version: String,
    pub modified: Option<String>,
}

impl ForgeBuildEntry {
    /// A copy of this entry.
    pub fn clone_exact(&self) -> (c: ForgeBuildEntry)
        ensures
            c == *self,
    {
        let modified = match &self.modified {
            Some(m) => Some(m.clone()),
            None => None,
        };
        ForgeBuildEntry {
            build: self.build,
            mcversion: self.mcversion.clone(),
            version: self.version.clone(),
            modified,
        }
    }
}

// ───────────────────────────── specs ─────────────────────────────

/// The entries of `s` with build number `b`, in order.
pub open spec fn with_build(s: Seq<ForgeBuildEntry>, b: u64) -> Seq<ForgeBuildEntry>
    decreases s.len(),
{
    if s.len() == 0 {
        Seq::empty()
    } else {
        let r = with_build(s.drop_last(), b);
        if s.last().build == b {
            r.push(s.last())
        } else {
            r
        }
    }
}

/// Build numbers never grow along `s`.
pub open spec fn builds_non_increasing(s: Seq<ForgeBuildEntry>) -> bool {
    forall|i: int, j: int| 0 <= i < j < s.len() ==> (#[trigger] s[i]).build >= (#[trigger] s[j]).build
}

/// `r` is `s` ordered newest build first, entries with equal builds kept
/// in their order in `s` (a stable sort by descending build).
pub open spec fn newest_first(r: Seq<ForgeBuildEntry>, s: Seq<ForgeBuildEntry>) -> bool {
    &&& builds_non_increasing(r)
    &&& forall|b: u64| #[trigger] with_build(r, b) == with_build(s, b)
}

/// The installer URL of Forge `forge_version` for Minecraft `mc_version`.
pub open spec fn forge_installer_url_spec(mc_version: Seq<char>, forge_version: Seq<char>) -> Seq<
    char,
> {
    let coord = mc_version + "-"@ + forge_version;
    "https://maven.minecraftforge.net/net/minecraftforge/forge/"@ + coord + "/forge-"@ + coord
        + "-installer.jar"@
}

// ───────────────────────────── lemmas ─────────────────────────────

proof fn lemma_with_build_add(a: Seq<ForgeBuildEntry>, c: Seq<ForgeBuildEntry>, b: u64)
    ensures
        with_build(a + c, b) == with_build(a, b) + with_build(c, b),
    decreases c.len(),
{
    if c.len() == 0 {
        assert(a + c == a);
        assert(with_build(a, b) + Seq::<ForgeBuildEntry>::empty() == with_build(a, b));
    } else {
        assert((a + c).drop_last() == a + c.drop_last());
        lemma_with_build_add(a, c.drop_last(), b);
        if c.last().build == b {
            assert(with_build(a, b) + with_build(c.drop_last(), b).push(c.last()) == (with_build(
                a,
                b,
            ) + with_build(c.drop_last(), b)).push(c.last()));
        }
    }
}

proof fn lemma_with_build_none(s: Seq<ForgeBuildEntry>, b: u64)
    requires
        forall|i: int| 0 <= i < s.len() ==> (#[trigger] s[i]).build < b,
    ensures
        with_build(s, b) == Seq::<ForgeBuildEntry>::empty(),
    decreases s.len(),
{
    if s.len() > 0 {
        lemma_with_build_none(s.drop_last(), b);
    }
}

proof fn lemma_insert_keeps_groups(r: Seq<ForgeBuildEntry>, p: int, x: ForgeBuildEntry, b: u64)
    requires
        0 <= p <= r.len(),
        forall|j: int| p <= j < r.len() ==> (#[trigger] r[j]).build < x.build,
    ensures
        with_build(r.insert(p, x), b) == if x.build == b {
            with_build(r, b).push(x)
        } else {
            with_build(r, b)
        },
{
    let lo = r.take(p);
    let hi = r.skip(p);
    assert(r == lo + hi);
    assert(r.insert(p, x) == lo + (seq![x] + hi));
    lemma_with_build_add(lo, seq![x] + hi, b);
    lemma_with_build_add(seq![x], hi, b);
    lemma_with_build_add(lo, hi, b);
    assert(seq![x].drop_last() == Seq::<ForgeBuildEntry>::empty());
    if x.build == b {
        assert forall|i: int| 0 <= i < hi.len() implies (#[trigger] hi[i]).build < b by {
            assert(hi[i] == r[p + i]);
        }
        lemma_with_build_none(hi, b);
        assert(seq![x].last() == x);
        assert(with_build(Seq::<ForgeBuildEntry>::empty(), b) == Seq::<ForgeBuildEntry>::empty());
        assert(Seq::<ForgeBuildEntry>::empty().push(x) == seq![x]);
        assert(with_build(seq![x], b) == seq![x]);
        assert(with_build(lo, b) + (seq![x] + Seq::<ForgeBuildEntry>::empty()) == with_build(
            lo,
            b,
        ).push(x));
        assert(with_build(lo, b) + Seq::<ForgeBuildEntry>::empty() == with_build(lo, b));
    } else {
        assert(seq![x].last() == x);
        assert(with_build(Seq::<ForgeBuildEntry>::empty(), b) == Seq::<ForgeBuildEntry>::empty());
        assert(with_build(seq![x], b) == Seq::<ForgeBuildEntry>::empty());
        assert(Seq::<ForgeBuildEntry>::empty() + with_build(hi, b) == with_build(hi, b));
    }
}

// ───────────────────────────── exec ─────────────────────────────

/// `entries` ordered newest build first, equal builds in their given order.
pub fn sort_newest_first(entries: Vec<ForgeBuildEntry>) -> (r: Vec<ForgeBuildEntry>)
    ensures
        newest_first(r@, entries@),
{
    let mut r: Vec<ForgeBuildEntry> = Vec::new();
    let mut i: usize = 0;
    while i < entries.len()
        invariant
            i <= entries@.len(),
            builds_non_increasing(r@),
            forall|b: u64| #[trigger] with_build(r@, b) == with_build(entries@.take(i as int), b),
        decreases entries@.len() - i,
    {
        let x = entries[i].clone_exact();
        let mut p: usize = 0;
        while p < r.len() && r[p].build >= x.build
            invariant
                p <= r@.len(),
                forall|j: int| 0 <= j < p ==> (#[trigger] r@[j]).build >= x.build,
            decreases r@.len() - p,
        {
            p = p + 1;
        }
        proof {
            assert forall|j: int| p <= j < r@.len() implies (#[trigger] r@[j]).build < x.build by {
                if p < r@.len() {
                    assert(r@[p as int].build < x.build);
                    if j > p {
                        assert(r@[p as int].build >= r@[j].build);
                    }
                }
            }
        }
        let ghost r0 = r@;
        r.insert(p, x);
        proof {
            assert(entries@.take(i + 1) == entries@.take(i as int).push(entries@[i as int]));
            assert forall|b: u64| #[trigger] with_build(r@, b) == with_build(entries@.take(i + 1), b) by {
                lemma_insert_keeps_groups(r0, p as int, x, b);
                assert(entries@.take(i + 1).drop_last() == entries@.take(i as int));
                assert(entries@.take(i + 1).last() == x);
                assert(with_build(r0, b) == with_build(entries@.take(i as int), b));
            }
            assert forall|a: int, c: int| 0 <= a < c < r@.len() implies (#[trigger] r@[a]).build >= (
            #[trigger] r@[c]).build by {
                if a < p && c < p {
                    assert(r@[a] == r0[a] && r@[c] == r0[c]);
                } else if a < p && c == p {
                    assert(r@[a] == r0[a]);
                } else if a < p {
                    assert(r@[a] == r0[a] && r@[c] == r0[c - 1]);
                } else if a == p {
                    assert(r@[c] == r0[c - 1]);
                } else {
                    assert(r@[a] == r0[a - 1] && r@[c] == r0[c - 1]);
                }
            }
        }
        i = i + 1;
    }
    assert(entries@.take(entries@.len() as int) == entries@);
    r
}

/// The Forge versions of a build list, newest build first; Forge has no
/// beta channel, so every version is stable.
pub fn versions_newest_first(entries: Vec<ForgeBuildEntry>) -> (r: Vec<LoaderVersion>)
    ensures
        exists|s: Seq<ForgeBuildEntry>|
            newest_first(s, entries@) && r@.len() == s.len() && forall|i: int|
                0 <= i < s.len() ==> (#[trigger] r@[i]).version@ == s[i].version@ && r@[i].stable,
{
    let sorted = sort_newest_first(entries);
    let mut r: Vec<LoaderVersion> = Vec::new();
    let mut i: usize = 0;
    while i < sorted.len()
        invariant
            i <= sorted@.len(),
            r@.len() == i,
            forall|j: int| 0 <= j < i ==> (#[trigger] r@[j]).version@ == sorted@[j].version@ && r@[j].stable,
        decreases sorted@.len() - i,
    {
        let v = sorted[i].version.clone();
        r.push(LoaderVersion { version: v, stable: true });
        i = i + 1;
    }
    r
}

/// Where BMCLAPI lists the Forge builds of `mc_version`.
pub fn versions_url(mc_version: &str) -> (u: String)
    ensures
        u@ == "https://bmclapi2.bangbang93.com/forge/minecraft/"@ + mc_version@,
{
    let mut u = "https://bmclapi2.bangbang93.com/forge/minecraft/".to_string();
    u.append(mc_version);
    u
}

/// The installer URL of Forge `forge_version` for Minecraft `mc_version`,
/// on the official Maven repository.
pub fn forge_installer_url(mc_version: &str, forge_version: &str) -> (u: String)
    ensures
        u@ == forge_installer_url_spec(mc_version@, forge_version@),
{
    let mut coord = mc_version.to_string();
    coord.append("-");
    coord.append(forge_version);
    let mut u = "https://maven.minecraftforge.net/net/minecraftforge/forge/".to_string();
    u.append(coord.as_str());
    u.append("/forge-");
    u.append(coord.as_str());
    u.append("-installer.jar");
    u
}

} // verus!
