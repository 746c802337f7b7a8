//! The order of a Java scan: candidates found twice are probed once, and
//! the runtimes found are listed newest major version first, then by
//! the order in which `JavaSource` declares sources, then by path.
//!
//! Paths compare as `Path::cmp` does: component by component, a leading
//! root first. Components are the non-empty parts between `/` other than
//! `.`; `..` compares as a name.

use vstd::prelude::*;
use crate::java::model::{JavaRuntime, JavaSource};
use crate::loader::neoforge::{
    lemma_str_lt_asymmetric, lemma_str_lt_irreflexive, lemma_str_lt_total, lemma_str_lt_transitive,
    str_lt,
};
use crate::text::{split_on, split_on_char, views};

verus! {

// ───────────────────────────── specs ─────────────────────────────

/// The named parts, in order: not empty, not `.`.
pub open spec fn named_parts(parts: Seq<Seq<char>>) -> Seq<Seq<char>>
    decreases parts.len(),
{
    if parts.len() == 0 {
        Seq::empty()
    } else {
        let r = named_parts(parts.drop_last());
        let x = parts.last();
        if x.len() == 0 || x == seq!['.'] {
            r
        } else {
            r.push(x)
        }
    }
}

/// The components of a path; the root, if any, is the empty component.
pub open spec fn path_components(p: Seq<char>) -> Seq<Seq<char>> {
    let named = named_parts(split_on(p, '/'));
    if p.len() > 0 && p[0] == '/' {
        seq![Seq::<char>::empty()] + named
    } else {
        named
    }
}

/// Component sequences in lexicographic order.
pub open spec fn comps_lt(a: Seq<Seq<char>>, b: Seq<Seq<char>>) -> bool
    decreases a.len(),
{
    if b.len() == 0 {
        false
    } else if a.len() == 0 {
        true
    } else if a[0] != b[0] {
        str_lt(a[0], b[0])
    } else {
        comps_lt(a.drop_first(), b.drop_first())
    }
}

/// The position of a source in the declaration of [`JavaSource`]: the
/// order in which runtimes of one major version are listed.
pub open spec fn source_ordinal(s: JavaSource) -> u8 {
    match s {
        JavaSource::JavaHome => 0,
        JavaSource::Path => 1,
        JavaSource::Manual => 2,
        JavaSource::Registry => 3,
        JavaSource::Adoptium => 4,
        JavaSource::Microsoft => 5,
        JavaSource::Zulu => 6,
        JavaSource::Liberica => 7,
        JavaSource::MojangJre => 8,
    }
}

/// The position of a source in the declaration of [`JavaSource`].
pub fn source_index(s: JavaSource) -> (i: u8)
    ensures
        i == source_ordinal(s),
{
    match s {
        JavaSource::JavaHome => 0,
        JavaSource::Path => 1,
        JavaSource::Manual => 2,
        JavaSource::Registry => 3,
        JavaSource::Adoptium => 4,
        JavaSource::Microsoft => 5,
        JavaSource::Zulu => 6,
        JavaSource::Liberica => 7,
        JavaSource::MojangJre => 8,
    }
}

/// What a runtime is ordered by.
pub type RuntimeKey = (u8, u8, Seq<Seq<char>>);

/// The ordering key of a runtime: major version, source position, path components.
pub open spec fn runtime_key(r: JavaRuntime) -> RuntimeKey {
    (r.version_major, source_ordinal(r.source), path_components(r.path@))
}

/// `a` is listed before `b`: a newer major version, else a source declared
/// earlier, else an earlier path.
pub open spec fn key_lt(a: RuntimeKey, b: RuntimeKey) -> bool {
    a.0 > b.0 || (a.0 == b.0 && (a.1 < b.1 || (a.1 == b.1 && comps_lt(a.2, b.2))))
}

/// The runtimes of `s` with key `k`, in order.
pub open spec fn with_rkey(s: Seq<JavaRuntime>, k: RuntimeKey) -> Seq<JavaRuntime>
    decreases s.len(),
{
    if s.len() == 0 {
        Seq::empty()
    } else {
        let r = with_rkey(s.drop_last(), k);
        if runtime_key(s.last()) == k {
            r.push(s.last())
        } else {
            r
        }
    }
}

/// No runtime of `s` is listed before one that precedes it.
pub open spec fn runtimes_ordered(s: Seq<JavaRuntime>) -> bool {
    forall|i: int, j: int|
        0 <= i < j < s.len() ==> !key_lt(runtime_key(#[trigger] s[j]), runtime_key(#[trigger] s[i]))
}

/// `r` is `s` in listing order, runtimes with equal keys in their order in
/// `s` (a stable sort).
pub open spec fn listed(r: Seq<JavaRuntime>, s: Seq<JavaRuntime>) -> bool {
    &&& runtimes_ordered(r)
    &&& forall|k: RuntimeKey| #[trigger] with_rkey(r, k) == with_rkey(s, k)
}

/// The candidates of `c` whose path's components no earlier candidate has.
pub open spec fn first_per_path(c: Seq<(String, JavaSource)>) -> Seq<(String, JavaSource)>
    decreases c.len(),
{
    if c.len() == 0 {
        Seq::empty()
    } else {
        let r = first_per_path(c.drop_last());
        if exists|j: int| 0 <= j < c.len() - 1 && path_components(#[trigger] c[j].0@) == path_components(c.last().0@) {
            r
        } else {
            r.push(c.last())
        }
    }
}

// ───────────────────────────── lemmas ─────────────────────────────

proof fn lemma_comps_lt_irreflexive(a: Seq<Seq<char>>)
    ensures
        !comps_lt(a, a),
    decreases a.len(),
{
    if a.len() > 0 {
        lemma_comps_lt_irreflexive(a.drop_first());
    }
}

proof fn lemma_comps_lt_transitive(a: Seq<Seq<char>>, b: Seq<Seq<char>>, c: Seq<Seq<char>>)
    requires
        comps_lt(a, b),
        comps_lt(b, c),
    ensures
        comps_lt(a, c),
    decreases a.len(),
{
    if a.len() > 0 && b.len() > 0 && c.len() > 0 {
        if a[0] == b[0] && b[0] == c[0] {
            lemma_comps_lt_transitive(a.drop_first(), b.drop_first(), c.drop_first());
        } else if a[0] == b[0] {
        } else if b[0] == c[0] {
        } else {
            lemma_str_lt_transitive(a[0], b[0], c[0]);
            if a[0] == c[0] {
                lemma_str_lt_asymmetric(a[0], b[0]);
            }
        }
    }
}

proof fn lemma_comps_lt_total(a: Seq<Seq<char>>, b: Seq<Seq<char>>)
    requires
        !comps_lt(a, b),
        !comps_lt(b, a),
    ensures
        a == b,
    decreases a.len(),
{
    if a.len() > 0 && b.len() > 0 {
        if a[0] == b[0] {
            lemma_comps_lt_total(a.drop_first(), b.drop_first());
            assert(a == seq![a[0]] + a.drop_first());
            assert(b == seq![b[0]] + b.drop_first());
        } else {
            lemma_str_lt_total(a[0], b[0]);
        }
    }
}

proof fn lemma_key_lt_facts(a: RuntimeKey, b: RuntimeKey, c: RuntimeKey)
    ensures
        !key_lt(a, a),
        key_lt(a, b) && key_lt(b, c) ==> key_lt(a, c),
        key_lt(a, b) ==> !key_lt(b, a),
        !key_lt(a, b) && !key_lt(b, a) ==> a == b,
{
    lemma_comps_lt_irreflexive(a.2);
    if key_lt(a, b) && key_lt(b, c) && a.0 == b.0 && b.0 == c.0 && a.1 == b.1 && b.1 == c.1 {
        lemma_comps_lt_transitive(a.2, b.2, c.2);
    }
    if key_lt(a, b) && a.0 == b.0 && a.1 == b.1 && comps_lt(b.2, a.2) {
        lemma_comps_lt_transitive(a.2, b.2, a.2);
    }
    if !key_lt(a, b) && !key_lt(b, a) {
        lemma_comps_lt_total(a.2, b.2);
    }
}

proof fn lemma_with_rkey_add(a: Seq<JavaRuntime>, c: Seq<JavaRuntime>, k: RuntimeKey)
    ensures
        with_rkey(a + c, k) == with_rkey(a, k) + with_rkey(c, k),
    decreases c.len(),
{
    if c.len() == 0 {
        assert(a + c == a);
        assert(with_rkey(a, k) + Seq::<JavaRuntime>::empty() == with_rkey(a, k));
    } else {
        assert((a + c).drop_last() == a + c.drop_last());
        lemma_with_rkey_add(a, c.drop_last(), k);
        if runtime_key(c.last()) == k {
            assert(with_rkey(a, k) + with_rkey(c.drop_last(), k).push(c.last()) == (with_rkey(a, k)
                + with_rkey(c.drop_last(), k)).push(c.last()));
        }
    }
}

proof fn lemma_with_rkey_none(s: Seq<JavaRuntime>, k: RuntimeKey)
    requires
        forall|i: int| 0 <= i < s.len() ==> runtime_key(#[trigger] s[i]) != k,
    ensures
        with_rkey(s, k) == Seq::<JavaRuntime>::empty(),
    decreases s.len(),
{
    if s.len() > 0 {
        lemma_with_rkey_none(s.drop_last(), k);
    }
}

proof fn lemma_insert_keeps_rkeys(r: Seq<JavaRuntime>, p: int, x: JavaRuntime, k: RuntimeKey)
    requires
        0 <= p <= r.len(),
        forall|j: int| p <= j < r.len() ==> key_lt(runtime_key(x), runtime_key(#[trigger] r[j])),
    ensures
        with_rkey(r.insert(p, x), k) == if runtime_key(x) == k {
            with_rkey(r, k).push(x)
        } else {
            with_rkey(r, k)
        },
{
    let lo = r.take(p);
    let hi = r.skip(p);
    let e = Seq::<JavaRuntime>::empty();
    assert(r == lo + hi);
    assert(r.insert(p, x) == lo + (seq![x] + hi));
    lemma_with_rkey_add(lo, seq![x] + hi, k);
    lemma_with_rkey_add(seq![x], hi, k);
    lemma_with_rkey_add(lo, hi, k);
    assert(seq![x].drop_last() == e);
    assert(seq![x].last() == x);
    assert(with_rkey(e, k) == e);
    if runtime_key(x) == k {
        assert forall|i: int| 0 <= i < hi.len() implies runtime_key(#[trigger] hi[i]) != k by {
            assert(hi[i] == r[p + i]);
            lemma_key_lt_facts(k, k, k);
        }
        lemma_with_rkey_none(hi, k);
        assert(e.push(x) == seq![x]);
        assert(with_rkey(seq![x], k) == seq![x]);
        assert(with_rkey(lo, k) + (seq![x] + e) == with_rkey(lo, k).push(x));
        assert(with_rkey(lo, k) + e == with_rkey(lo, k));
    } else {
        assert(with_rkey(seq![x], k) == e);
        assert(e + with_rkey(hi, k) == with_rkey(hi, k));
    }
}

// ───────────────────────────── exec ─────────────────────────────

/// The components of a path (see [`path_components`]).
pub fn components(p: &str) -> (r: Vec<Vec<char>>)
    ensures
        views(r@) == path_components(p@),
{
    let v = crate::text::to_chars(p);
    let parts = split_on_char(v.as_slice(), '/');
    let ghost ps = views(parts@);
    let mut r: Vec<Vec<char>> = Vec::new();
    let rooted = v.len() > 0 && v[0] == '/';
    if rooted {
        r.push(Vec::new());
    }
    let ghost base = views(r@);
    assert(base == (if rooted { seq![Seq::<char>::empty()] } else { Seq::<Seq<char>>::empty() }));
    let mut i: usize = 0;
    while i < parts.len()
        invariant
            i <= parts@.len(),
            ps == views(parts@),
            ps == split_on(p@, '/'),
            base == (if rooted { seq![Seq::<char>::empty()] } else { Seq::<Seq<char>>::empty() }),
            views(r@) == base + named_parts(ps.take(i as int)),
        decreases parts@.len() - i,
    {
        assert(ps.take(i + 1).drop_last() == ps.take(i as int));
        assert(ps.take(i + 1).last() == parts@[i as int]@);
        let part = &parts[i];
        let dot = part.len() == 1 && part[0] == '.';
        assert(dot == (parts@[i as int]@ == seq!['.'])) by {
            if part@.len() == 1 && part@[0] == '.' {
                assert(part@ == seq!['.']);
            }
        }
        if part.len() > 0 && !dot {
            let ghost before = views(r@);
            r.push(crate::text::sub_chars(part.as_slice(), 0, part.len()));
            assert(part@.subrange(0, part@.len() as int) == part@);
            assert(views(r@) == before.push(part@));
            assert(base + named_parts(ps.take(i as int)).push(part@) == (base + named_parts(
                ps.take(i as int),
            )).push(part@));
        }
        i = i + 1;
    }
    assert(ps.take(parts@.len() as int) == ps);
    r
}

/// `a` comes before `b` (see [`comps_lt`]).
fn comps_less(a: &Vec<Vec<char>>, b: &Vec<Vec<char>>) -> (r: bool)
    ensures
        r == comps_lt(views(a@), views(b@)),
{
    let ghost va = views(a@);
    let ghost vb = views(b@);
    let mut i: usize = 0;
    assert(va.skip(0) == va && vb.skip(0) == vb);
    while i < a.len() && i < b.len() && crate::text::chars_eq(a[i].as_slice(), b[i].as_slice())
        invariant
            i <= a@.len(),
            i <= b@.len(),
            va == views(a@),
            vb == views(b@),
            comps_lt(va, vb) == comps_lt(va.skip(i as int), vb.skip(i as int)),
        decreases a@.len() - i,
    {
        assert(va.skip(i as int).drop_first() == va.skip(i + 1));
        assert(vb.skip(i as int).drop_first() == vb.skip(i + 1));
        assert(va.skip(i as int)[0] == va[i as int]);
        assert(vb.skip(i as int)[0] == vb[i as int]);
        i = i + 1;
    }
    if i == b.len() {
        false
    } else if i == a.len() {
        true
    } else {
        assert(va.skip(i as int)[0] == a@[i as int]@);
        assert(vb.skip(i as int)[0] == b@[i as int]@);
        let sa = crate::text::from_chars(a[i].as_slice());
        let sb = crate::text::from_chars(b[i].as_slice());
        crate::loader::neoforge::less(sa.as_str(), sb.as_str())
    }
}

/// `a` comes before `b` (see [`key_lt`]).
fn key_less(a: &(u8, u8, Vec<Vec<char>>), b: &(u8, u8, Vec<Vec<char>>)) -> (r: bool)
    ensures
        r == key_lt((a.0, a.1, views(a.2@)), (b.0, b.1, views(b.2@))),
{
    a.0 > b.0 || (a.0 == b.0 && (a.1 < b.1 || (a.1 == b.1 && comps_less(&a.2, &b.2))))
}

/// The candidates in order, each path (by its components) once, with the
/// source it was first found with.
pub fn dedupe_candidates(c: Vec<(String, JavaSource)>) -> (r: Vec<(String, JavaSource)>)
    ensures
        r@ == first_per_path(c@),
{
    let mut r: Vec<(String, JavaSource)> = Vec::new();
    let mut seen: Vec<Vec<Vec<char>>> = Vec::new();
    let mut i: usize = 0;
    while i < c.len()
        invariant
            i <= c@.len(),
            seen@.len() == i,
            forall|j: int| 0 <= j < i ==> views((#[trigger] seen@[j])@) == path_components(c@[j].0@),
            r@ == first_per_path(c@.take(i as int)),
        decreases c@.len() - i,
    {
        let comps = components(c[i].0.as_str());
        let mut dup = false;
        let mut j: usize = 0;
        while j < i
            invariant
                j <= i,
                seen@.len() == i,
                i < c@.len(),
                views(comps@) == path_components(c@[i as int].0@),
                forall|t: int| 0 <= t < i ==> views((#[trigger] seen@[t])@) == path_components(c@[t].0@),
                dup == exists|t: int| 0 <= t < j && path_components(#[trigger] c@[t].0@) == path_components(
                    c@[i as int].0@,
                ),
            decreases i - j,
        {
            if comps_eq(&seen[j], &comps) {
                dup = true;
            }
            proof {
                assert(views(seen@[j as int]@) == path_components(c@[j as int].0@));
            }
            j = j + 1;
        }
        proof {
            let t = c@.take(i + 1);
            assert(t.drop_last() == c@.take(i as int));
            assert(t.last() == c@[i as int]);
            assert((exists|u: int| 0 <= u < t.len() - 1 && path_components(#[trigger] t[u].0@)
                == path_components(t.last().0@)) == dup) by {
                if dup {
                    let u = choose|u: int| 0 <= u < i && path_components(#[trigger] c@[u].0@) == path_components(
                        c@[i as int].0@,
                    );
                    assert(t[u] == c@[u]);
                }
                if exists|u: int| 0 <= u < t.len() - 1 && path_components(#[trigger] t[u].0@)
                    == path_components(t.last().0@) {
                    let u = choose|u: int| 0 <= u < t.len() - 1 && path_components(#[trigger] t[u].0@)
                        == path_components(t.last().0@);
                    assert(t[u] == c@[u]);
                }
            }
        }
        if !dup {
            r.push((c[i].0.clone(), c[i].1));
        }
        seen.push(comps);
        i = i + 1;
    }
    assert(c@.take(c@.len() as int) == c@);
    r
}

fn comps_eq(a: &Vec<Vec<char>>, b: &Vec<Vec<char>>) -> (r: bool)
    ensures
        r == (views(a@) == views(b@)),
{
    if a.len() != b.len() {
        assert(views(a@).len() != views(b@).len());
        return false;
    }
    let mut i: usize = 0;
    while i < a.len()
        invariant
            i <= a@.len(),
            a@.len() == b@.len(),
            forall|t: int| 0 <= t < i ==> (#[trigger] a@[t])@ == b@[t]@,
        decreases a@.len() - i,
    {
        if !crate::text::chars_eq(a[i].as_slice(), b[i].as_slice()) {
            assert(views(a@)[i as int] != views(b@)[i as int]);
            return false;
        }
        i = i + 1;
    }
    assert(views(a@) =~= views(b@)) by {
        assert forall|t: int| 0 <= t < views(a@).len() implies views(a@)[t] == views(b@)[t] by {
            assert(a@[t]@ == b@[t]@);
        }
    }
    true
}

/// The runtimes in listing order (see [`listed`]).
pub fn order_runtimes(runtimes: Vec<JavaRuntime>) -> (r: Vec<JavaRuntime>)
    ensures
        listed(r@, runtimes@),
{
    let ghost s = runtimes@;
    let mut rest = runtimes;
    let n = rest.len();
    let mut r: Vec<JavaRuntime> = Vec::new();
    let mut keys: Vec<(u8, u8, Vec<Vec<char>>)> = Vec::new();
    let mut i: usize = 0;
    while rest.len() > 0
        invariant
            i <= s.len(),
            s.len() == n,
            rest@ == s.skip(i as int),
            keys@.len() == r@.len(),
            forall|j: int| 0 <= j < r@.len() ==> ((#[trigger] keys@[j]).0, keys@[j].1, views(keys@[j].2@))
                == runtime_key(r@[j]),
            runtimes_ordered(r@),
            forall|k: RuntimeKey| #[trigger] with_rkey(r@, k) == with_rkey(s.take(i as int), k),
        decreases rest@.len(),
    {
        let x = rest.remove(0);
        assert(x == s[i as int]);
        assert(rest@ == s.skip(i + 1));
        let kx = (x.version_major, source_index(x.source), components(x.path.as_str()));
        let ghost gx = runtime_key(x);
        assert((kx.0, kx.1, views(kx.2@)) == gx);
        let mut p: usize = 0;
        while p < r.len() && !key_less(&kx, &keys[p])
            invariant
                p <= r@.len(),
                keys@.len() == r@.len(),
                (kx.0, kx.1, views(kx.2@)) == gx,
                forall|j: int| 0 <= j < p ==> !key_lt(gx, runtime_key(#[trigger] r@[j])),
                forall|j: int| 0 <= j < r@.len() ==> ((#[trigger] keys@[j]).0, keys@[j].1, views(keys@[j].2@))
                    == runtime_key(r@[j]),
            decreases r@.len() - p,
        {
            assert(((keys@[p as int]).0, keys@[p as int].1, views(keys@[p as int].2@)) == runtime_key(r@[p as int]));
            p = p + 1;
        }
        proof {
            assert forall|j: int| p <= j < r@.len() implies key_lt(gx, runtime_key(#[trigger] r@[j])) by {
                assert(((keys@[p as int]).0, keys@[p as int].1, views(keys@[p as int].2@)) == runtime_key(r@[p as int]));
                let kp = runtime_key(r@[p as int]);
                let kj = runtime_key(r@[j]);
                assert(key_lt(gx, kp));
                if j > p {
                    assert(!key_lt(kj, kp));
                    lemma_key_lt_facts(gx, kp, kj);
                    lemma_key_lt_facts(kp, kj, gx);
                }
            }
        }
        let ghost r0 = r@;
        let ghost k0 = keys@;
        r.insert(p, x);
        keys.insert(p, kx);
        proof {
            assert(s.take(i + 1) == s.take(i as int).push(s[i as int]));
            assert forall|k: RuntimeKey| #[trigger] with_rkey(r@, k) == with_rkey(s.take(i + 1), k) by {
                lemma_insert_keeps_rkeys(r0, p as int, x, k);
                assert(s.take(i + 1).drop_last() == s.take(i as int));
                assert(s.take(i + 1).last() == x);
                assert(with_rkey(r0, k) == with_rkey(s.take(i as int), k));
            }
            assert forall|j: int| 0 <= j < r@.len() implies ((#[trigger] keys@[j]).0, keys@[j].1, views(
                keys@[j].2@,
            )) == runtime_key(r@[j]) by {
                if j < p {
                    assert(keys@[j] == k0[j] && r@[j] == r0[j]);
                } else if j > p {
                    assert(keys@[j] == k0[j - 1] && r@[j] == r0[j - 1]);
                }
            }
            assert forall|a: int, c: int| 0 <= a < c < r@.len() implies !key_lt(
                runtime_key(#[trigger] r@[c]),
                runtime_key(#[trigger] r@[a]),
            ) by {
                if a < p && c < p {
                    assert(r@[a] == r0[a] && r@[c] == r0[c]);
                } else if a < p && c == p {
                    assert(r@[a] == r0[a]);
                } else if a < p {
                    assert(r@[a] == r0[a] && r@[c] == r0[c - 1]);
                } else if a == p {
                    assert(r@[c] == r0[c - 1]);
                    lemma_key_lt_facts(gx, runtime_key(r0[c - 1]), gx);
                } else {
                    assert(r@[a] == r0[a - 1] && r@[c] == r0[c - 1]);
                }
            }
        }
        i = i + 1;
    }
    assert(s.skip(i as int).len() == 0);
    assert(s.take(i as int) == s);
    r
}

} // verus!
