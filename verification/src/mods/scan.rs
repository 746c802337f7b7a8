//! The order of a mods listing: by name, letter case aside, mods with the
//! same name keeping their order. Listing the directory and reading each
//! jar is the caller's work.

use vstd::prelude::*;
use crate::loader::neoforge::{less, lemma_str_lt_irreflexive, lemma_str_lt_total, lemma_str_lt_transitive, str_lt};
use crate::model::mod_entry::ModEntry;

verus! {

/// What `str::to_lowercase` gives (full Unicode lowercasing).
pub uninterp spec fn lowercase_spec(s: Seq<char>) -> Seq<char>;

/// Calls `str::to_lowercase`: the Unicode lowercase of `s`, a function of
/// `s` alone.
#[verifier::external_body]
fn to_lowercase(s: &str) -> (r: String)
    ensures
        r@ == lowercase_spec(s@),
{
    s.to_lowercase()
}

/// What a mod is ordered by: its lowercased name.
pub open spec fn sort_key(e: ModEntry) -> Seq<char> {
    lowercase_spec(e.name@)
}

/// The entries of `s` with sort key `k`, in order.
pub open spec fn with_key(s: Seq<ModEntry>, k: Seq<char>) -> Seq<ModEntry>
    decreases s.len(),
{
    if s.len() == 0 {
        Seq::empty()
    } else {
        let r = with_key(s.drop_last(), k);
        if sort_key(s.last()) == k {
            r.push(s.last())
        } else {
            r
        }
    }
}

/// Sort keys never decrease along `s`.
pub open spec fn keys_ascending(s: Seq<ModEntry>) -> bool {
    forall|i: int, j: int| 0 <= i < j < s.len() ==> !str_lt(sort_key(#[trigger] s[j]), sort_key(#[trigger] s[i]))
}

/// `r` is `s` ordered by sort key, entries with equal keys in their order
/// in `s` (a stable sort).
pub open spec fn sorted_by_name(r: Seq<ModEntry>, s: Seq<ModEntry>) -> bool {
    &&& keys_ascending(r)
    &&& forall|k: Seq<char>| #[trigger] with_key(r, k) == with_key(s, k)
}

proof fn lemma_with_key_add(a: Seq<ModEntry>, c: Seq<ModEntry>, k: Seq<char>)
    ensures
        with_key(a + c, k) == with_key(a, k) + with_key(c, k),
    decreases c.len(),
{
    if c.len() == 0 {
        assert(a + c == a);
        assert(with_key(a, k) + Seq::<ModEntry>::empty() == with_key(a, k));
    } else {
        assert((a + c).drop_last() == a + c.drop_last());
        lemma_with_key_add(a, c.drop_last(), k);
        if sort_key(c.last()) == k {
            assert(with_key(a, k) + with_key(c.drop_last(), k).push(c.last()) == (with_key(a, k)
                + with_key(c.drop_last(), k)).push(c.last()));
        }
    }
}

proof fn lemma_with_key_none(s: Seq<ModEntry>, k: Seq<char>)
    requires
        forall|i: int| 0 <= i < s.len() ==> sort_key(#[trigger] s[i]) != k,
    ensures
        with_key(s, k) == Seq::<ModEntry>::empty(),
    decreases s.len(),
{
    if s.len() > 0 {
        lemma_with_key_none(s.drop_last(), k);
    }
}

proof fn lemma_insert_keeps_keys(r: Seq<ModEntry>, p: int, x: ModEntry, k: Seq<char>)
    requires
        0 <= p <= r.len(),
        forall|j: int| p <= j < r.len() ==> str_lt(sort_key(x), sort_key(#[trigger] r[j])),
    ensures
        with_key(r.insert(p, x), k) == if sort_key(x) == k {
            with_key(r, k).push(x)
        } else {
            with_key(r, k)
        },
{
    let lo = r.take(p);
    let hi = r.skip(p);
    let e = Seq::<ModEntry>::empty();
    assert(r == lo + hi);
    assert(r.insert(p, x) == lo + (seq![x] + hi));
    lemma_with_key_add(lo, seq![x] + hi, k);
    lemma_with_key_add(seq![x], hi, k);
    lemma_with_key_add(lo, hi, k);
    assert(seq![x].drop_last() == e);
    assert(seq![x].last() == x);
    assert(with_key(e, k) == e);
    if sort_key(x) == k {
        assert forall|i: int| 0 <= i < hi.len() implies sort_key(#[trigger] hi[i]) != k by {
            assert(hi[i] == r[p + i]);
            lemma_str_lt_irreflexive(k);
        }
        lemma_with_key_none(hi, k);
        assert(e.push(x) == seq![x]);
        assert(with_key(seq![x], k) == seq![x]);
        assert(with_key(lo, k) + (seq![x] + e) == with_key(lo, k).push(x));
        assert(with_key(lo, k) + e == with_key(lo, k));
    } else {
        assert(with_key(seq![x], k) == e);
        assert(e + with_key(hi, k) == with_key(hi, k));
    }
}

/// `entries` ordered by lowercased name; entries with equal keys keep
/// their order.
pub fn sort_mods(entries: Vec<ModEntry>) -> (r: Vec<ModEntry>)
    ensures
        sorted_by_name(r@, entries@),
{
    let ghost s = entries@;
    let mut rest = entries;
    let n = rest.len();
    let mut r: Vec<ModEntry> = Vec::new();
    let mut rk: Vec<String> = Vec::new();
    let mut i: usize = 0;
    while rest.len() > 0
        invariant
            i <= s.len(),
            s.len() == n,
            rest@ == s.skip(i as int),
            rk@.len() == r@.len(),
            forall|j: int| 0 <= j < r@.len() ==> (#[trigger] rk@[j])@ == sort_key(r@[j]),
            keys_ascending(r@),
            forall|k: Seq<char>| #[trigger] with_key(r@, k) == with_key(s.take(i as int), k),
        decreases rest@.len(),
    {
        let ghost rest0 = rest@;
        let x = rest.remove(0);
        assert(x == s[i as int]);
        assert(rest@ == s.skip(i + 1));
        let kx = to_lowercase(x.name.as_str());
        let mut p: usize = 0;
        while p < r.len() && !less(kx.as_str(), rk[p].as_str())
            invariant
                p <= r@.len(),
                rk@.len() == r@.len(),
                forall|j: int| 0 <= j < p ==> !str_lt(kx@, sort_key(#[trigger] r@[j])),
                forall|j: int| 0 <= j < r@.len() ==> (#[trigger] rk@[j])@ == sort_key(r@[j]),
            decreases r@.len() - p,
        {
            assert(rk@[p as int]@ == sort_key(r@[p as int]));
            p = p + 1;
        }
        proof {
            assert forall|j: int| p <= j < r@.len() implies str_lt(kx@, sort_key(#[trigger] r@[j])) by {
                assert(rk@[p as int]@ == sort_key(r@[p as int]));
                assert(str_lt(kx@, sort_key(r@[p as int])));
                if j > p {
                    assert(!str_lt(sort_key(r@[j]), sort_key(r@[p as int])));
                    if str_lt(sort_key(r@[p as int]), sort_key(r@[j])) {
                        lemma_str_lt_transitive(kx@, sort_key(r@[p as int]), sort_key(r@[j]));
                    } else {
                        lemma_str_lt_total(sort_key(r@[p as int]), sort_key(r@[j]));
                    }
                }
            }
        }
        let ghost r0 = r@;
        let ghost rk0 = rk@;
        r.insert(p, x);
        rk.insert(p, kx);
        proof {
            assert(s.take(i + 1) == s.take(i as int).push(s[i as int]));
            assert forall|k: Seq<char>| #[trigger] with_key(r@, k) == with_key(s.take(i + 1), k) by {
                lemma_insert_keeps_keys(r0, p as int, x, k);
                assert(s.take(i + 1).drop_last() == s.take(i as int));
                assert(s.take(i + 1).last() == x);
                assert(with_key(r0, k) == with_key(s.take(i as int), k));
            }
            assert forall|j: int| 0 <= j < r@.len() implies (#[trigger] rk@[j])@ == sort_key(r@[j]) by {
                if j < p {
                    assert(rk@[j] == rk0[j] && r@[j] == r0[j]);
                } else if j > p {
                    assert(rk@[j] == rk0[j - 1] && r@[j] == r0[j - 1]);
                }
            }
            assert forall|a: int, c: int| 0 <= a < c < r@.len() implies !str_lt(
                sort_key(#[trigger] r@[c]),
                sort_key(#[trigger] r@[a]),
            ) by {
                if a < p && c < p {
                    assert(r@[a] == r0[a] && r@[c] == r0[c]);
                } else if a < p && c == p {
                    assert(r@[a] == r0[a]);
                    if str_lt(sort_key(x), sort_key(r0[a])) {
                    }
                } else if a < p {
                    assert(r@[a] == r0[a] && r@[c] == r0[c - 1]);
                } else if a == p {
                    assert(r@[c] == r0[c - 1]);
                    lemma_str_lt_asymmetric_here(sort_key(x), sort_key(r0[c - 1]));
                } else {
                    assert(r@[a] == r0[a - 1] && r@[c] == r0[c - 1]);
                }
            }
        }
        i = i + 1;
    }
    assert(s.skip(i as int).len() == 0);
    assert(s.take(i as int) == s);
    r
}

proof fn lemma_str_lt_asymmetric_here(a: Seq<char>, b: Seq<char>)
    requires
        str_lt(a, b),
    ensures
        !str_lt(b, a),
{
    crate::loader::neoforge::lemma_str_lt_asymmetric(a, b);
}

} // verus!
