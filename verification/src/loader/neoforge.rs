//! NeoForge versions and installer URLs. Installing shares the Forge
//! installer engine; only the version list and the Maven path differ.

use vstd::prelude::*;
use crate::loader::model::LoaderVersion;

verus! {

// ───────────────────────────── specs ─────────────────────────────

/// `a` sorts before `b` in `str` order (code point by code point, a proper
/// prefix first).
pub open spec fn str_lt(a: Seq<char>, b: Seq<char>) -> bool
    decreases a.len(),
{
    if b.len() == 0 {
        false
    } else if a.len() == 0 {
        true
    } else if a[0] != b[0] {
        a[0] < b[0]
    } else {
        str_lt(a.drop_first(), b.drop_first())
    }
}

/// `s` is in descending `str` order.
pub open spec fn descending(s: Seq<String>) -> bool {
    forall|i: int, j: int| 0 <= i < j < s.len() ==> !str_lt((#[trigger] s[i])@, (#[trigger] s[j])@)
}

/// The installer URL of NeoForge `version`.
pub open spec fn neoforge_installer_url_spec(version: Seq<char>) -> Seq<char> {
    "https://maven.neoforged.net/releases/net/neoforged/neoforge/"@ + version + "/neoforge-"@
        + version + "-installer.jar"@
}

// ───────────────────────────── lemmas ─────────────────────────────

/// No string sorts before itself.
pub proof fn lemma_str_lt_irreflexive(a: Seq<char>)
    ensures
        !str_lt(a, a),
    decreases a.len(),
{
    if a.len() > 0 {
        lemma_str_lt_irreflexive(a.drop_first());
    }
}

/// Of two strings, at most one sorts before the other.
pub proof fn lemma_str_lt_asymmetric(a: Seq<char>, b: Seq<char>)
    requires
        str_lt(a, b),
    ensures
        !str_lt(b, a),
    decreases a.len(),
{
    if a.len() > 0 && b.len() > 0 && a[0] == b[0] {
        lemma_str_lt_asymmetric(a.drop_first(), b.drop_first());
    }
}

/// Sorting before is transitive.
pub proof fn lemma_str_lt_transitive(a: Seq<char>, b: Seq<char>, c: Seq<char>)
    requires
        str_lt(a, b),
        str_lt(b, c),
    ensures
        str_lt(a, c),
    decreases a.len(),
{
    if a.len() > 0 && b.len() > 0 && c.len() > 0 && a[0] == b[0] && b[0] == c[0] {
        lemma_str_lt_transitive(a.drop_first(), b.drop_first(), c.drop_first());
    }
}

/// Two strings neither of which sorts before the other are equal.
pub proof fn lemma_str_lt_total(a: Seq<char>, b: Seq<char>)
    requires
        !str_lt(a, b),
        !str_lt(b, a),
    ensures
        a == b,
    decreases a.len(),
{
    if a.len() > 0 && b.len() > 0 {
        if a[0] == b[0] {
            lemma_str_lt_total(a.drop_first(), b.drop_first());
            assert(a == seq![a[0]] + a.drop_first());
            assert(b == seq![b[0]] + b.drop_first());
        }
    }
}

// ───────────────────────────── exec ─────────────────────────────

/// `a` sorts before `b`.
pub fn less(a: &str, b: &str) -> (r: bool)
    ensures
        r == str_lt(a@, b@),
{
    let av = crate::text::to_chars(a);
    let bv = crate::text::to_chars(b);
    let mut i: usize = 0;
    assert(av@.skip(0) == av@ && bv@.skip(0) == bv@);
    while i < av.len() && i < bv.len() && av[i] == bv[i]
        invariant
            i <= av@.len(),
            i <= bv@.len(),
            str_lt(av@, bv@) == str_lt(av@.skip(i as int), bv@.skip(i as int)),
        decreases av@.len() - i,
    {
        assert(av@.skip(i as int).drop_first() == av@.skip(i + 1));
        assert(bv@.skip(i as int).drop_first() == bv@.skip(i + 1));
        i = i + 1;
    }
    if i == bv.len() {
        false
    } else if i == av.len() {
        true
    } else {
        assert(av@.skip(i as int)[0] == av@[i as int]);
        assert(bv@.skip(i as int)[0] == bv@[i as int]);
        av[i] < bv[i]
    }
}

/// `versions` in descending `str` order.
pub fn sort_descending(versions: Vec<String>) -> (r: Vec<String>)
    ensures
        descending(r@),
        r@.to_multiset() == versions@.to_multiset(),
{
    let mut r: Vec<String> = Vec::new();
    let mut i: usize = 0;
    assert(r@ == versions@.take(0));
    while i < versions.len()
        invariant
            i <= versions@.len(),
            descending(r@),
            r@.to_multiset() == versions@.take(i as int).to_multiset(),
        decreases versions@.len() - i,
    {
        let x = versions[i].clone();
        let mut p: usize = 0;
        while p < r.len() && !less(r[p].as_str(), x.as_str())
            invariant
                p <= r@.len(),
                forall|j: int| 0 <= j < p ==> !str_lt((#[trigger] r@[j])@, x@),
            decreases r@.len() - p,
        {
            p = p + 1;
        }
        proof {
            assert forall|j: int| p <= j < r@.len() implies str_lt((#[trigger] r@[j])@, x@) by {
                assert(str_lt(r@[p as int]@, x@));
                if j > p {
                    assert(!str_lt(r@[p as int]@, r@[j]@));
                    if str_lt(r@[j]@, r@[p as int]@) {
                        lemma_str_lt_transitive(r@[j]@, r@[p as int]@, x@);
                    } else {
                        lemma_str_lt_total(r@[j]@, r@[p as int]@);
                    }
                }
            }
        }
        let ghost r0 = r@;
        r.insert(p, x);
        proof {
            vstd::seq_lib::to_multiset_insert(r0, p as int, x);
            assert(versions@.take(i + 1) == versions@.take(i as int).push(versions@[i as int]));
            vstd::seq_lib::to_multiset_build(versions@.take(i as int), versions@[i as int]);
            assert forall|a: int, c: int| 0 <= a < c < r@.len() implies !str_lt(
                (#[trigger] r@[a])@,
                (#[trigger] r@[c])@,
            ) by {
                if a < p && c < p {
                    assert(r@[a] == r0[a] && r@[c] == r0[c]);
                } else if a < p && c == p {
                    assert(r@[a] == r0[a]);
                } else if a < p {
                    assert(r@[a] == r0[a] && r@[c] == r0[c - 1]);
                    if str_lt(r0[a]@, r0[c - 1]@) {
                    }
                } else if a == p {
                    assert(r@[c] == r0[c - 1]);
                    lemma_str_lt_asymmetric(r0[c - 1]@, x@);
                } else {
                    assert(r@[a] == r0[a - 1] && r@[c] == r0[c - 1]);
                }
            }
        }
        i = i + 1;
    }
    assert(versions@.take(versions@.len() as int) == versions@);
    r
}

/// NeoForge versions newest first (descending `str` order), all stable.
pub fn versions_newest_first(versions: Vec<String>) -> (r: Vec<LoaderVersion>)
    ensures
        exists|s: Seq<String>|
            descending(s) && s.to_multiset() == versions@.to_multiset() && r@.len() == s.len()
                && forall|i: int|
                0 <= i < s.len() ==> (#[trigger] r@[i]).version@ == s[i]@ && r@[i].stable,
{
    let sorted = sort_descending(versions);
    let mut r: Vec<LoaderVersion> = Vec::new();
    let mut i: usize = 0;
    while i < sorted.len()
        invariant
            i <= sorted@.len(),
            r@.len() == i,
            forall|j: int| 0 <= j < i ==> (#[trigger] r@[j]).version@ == sorted@[j]@ && r@[j].stable,
        decreases sorted@.len() - i,
    {
        let v = sorted[i].clone();
        r.push(LoaderVersion { version: v, stable: true });
        i = i + 1;
    }
    r
}

/// Where BMCLAPI lists the NeoForge versions of `mc_version`.
pub fn versions_url(mc_version: &str) -> (u: String)
    ensures
        u@ == "https://bmclapi2.bangbang93.com/neoforge/list/"@ + mc_version@,
{
    let mut u = "https://bmclapi2.bangbang93.com/neoforge/list/".to_string();
    u.append(mc_version);
    u
}

/// The installer URL of NeoForge `neoforge_version`.
pub fn neoforge_installer_url(neoforge_version: &str) -> (u: String)
    ensures
        u@ == neoforge_installer_url_spec(neoforge_version@),
{
    let mut u = "https://maven.neoforged.net/releases/net/neoforged/neoforge/".to_string();
    u.append(neoforge_version);
    u.append("/neoforge-");
    u.append(neoforge_version);
    u.append("-installer.jar");
    u
}

} // verus!
