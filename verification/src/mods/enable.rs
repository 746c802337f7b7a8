//! Enabling and disabling a mod jar by renaming `x.jar` ↔ `x.jar.disabled`.
//!
//! The rename itself, and the check that its target does not exist yet,
//! are the caller's work.

use vstd::prelude::*;
use crate::errors::Error;
use crate::paths::{last_sep, lemma_last_sep, path_file_name, path_join, with_file_name_spec};
use crate::text::{ends_with, is_suffix, string_of, to_chars};

verus! {

/// A rename of a mod jar; `from == to` when the jar already was in the
/// wanted state.
#[derive(Debug, Clone)]
pub struct ToggleResult {
    pub from: String,
    pub to: String,
    pub now_enabled: bool,
}

/// The path a jar is renamed to, when a rename is due: enabling a
/// `.jar.disabled` drops `.disabled`, disabling a `.jar` appends it.
pub open spec fn toggle_target(jar: Seq<char>, name: Seq<char>, enabled: bool) -> Option<Seq<char>> {
    if enabled && is_suffix(".jar.disabled"@, name) {
        Some(with_file_name_spec(jar, name.take(name.len() - ".disabled"@.len())))
    } else if !enabled && is_suffix(".jar"@, name) {
        Some(with_file_name_spec(jar, name + ".disabled"@))
    } else {
        None
    }
}

/// How the jar at `jar_path` is made enabled or disabled. An error when
/// the path has no file name, or names neither a `.jar` nor a
/// `.jar.disabled`.
pub fn plan_toggle(jar_path: &str, enabled: bool) -> (r: Result<ToggleResult, Error>)
    ensures
        path_file_name(jar_path@) is None ==> (r matches Err(Error::Config(m)) && m@
            == "non-utf8 jar path: "@ + jar_path@),
        path_file_name(jar_path@) matches Some(n) ==> {
            &&& !is_suffix(".jar.disabled"@, n) && !is_suffix(".jar"@, n) ==> (r matches Err(
                Error::Config(m),
            ) && m@ == "not a .jar / .jar.disabled file: "@ + jar_path@)
            &&& (is_suffix(".jar.disabled"@, n) || is_suffix(".jar"@, n)) ==> (r matches Ok(t)
                && t.from@ == jar_path@ && t.now_enabled == enabled && t.to@ == match toggle_target(
                jar_path@,
                n,
                enabled,
            ) {
                Some(p) => p,
                None => jar_path@,
            })
        },
{
    let name = match crate::paths::file_name(jar_path) {
        Some(n) => n,
        None => {
            let mut m = "non-utf8 jar path: ".to_string();
            m.append(jar_path);
            return Err(Error::Config(m));
        },
    };
    let nv = to_chars(name.as_str());
    let dis = to_chars(".jar.disabled");
    let jar = to_chars(".jar");
    let is_disabled = ends_with(nv.as_slice(), dis.as_slice());
    let is_jar = ends_with(nv.as_slice(), jar.as_slice());
    if !is_disabled && !is_jar {
        let mut m = "not a .jar / .jar.disabled file: ".to_string();
        m.append(jar_path);
        return Err(Error::Config(m));
    }
    let to = if enabled && is_disabled {
        let sfx = to_chars(".disabled");
        proof {
            reveal_strlit(".disabled");
            reveal_strlit(".jar.disabled");
        }
        let stem = string_of(nv.as_slice(), 0, nv.len() - sfx.len());
        assert(nv@.take(nv@.len() - sfx@.len()) == nv@.subrange(0, nv@.len() - sfx@.len()));
        crate::paths::with_file_name(jar_path, stem.as_str())
    } else if !enabled && is_jar {
        let mut s = name.clone();
        s.append(".disabled");
        crate::paths::with_file_name(jar_path, s.as_str())
    } else {
        jar_path.to_string()
    };
    Ok(ToggleResult { from: jar_path.to_string(), to, now_enabled: enabled })
}

/// The error of a rename whose target exists.
pub fn target_exists(target: &str) -> (e: Error)
    ensures
        e matches Error::Config(m) && m@ == "target "@ + target@ + " already exists"@,
{
    let mut m = "target ".to_string();
    m.append(target);
    m.append(" already exists");
    Error::Config(m)
}


// ───────────────────────────── laws ─────────────────────────────

/// A path without a trailing `/` and without `//`.
pub open spec fn plain_path(p: Seq<char>) -> bool {
    &&& p.len() > 0 ==> p.last() != '/'
    &&& forall|i: int| 0 < i < p.len() ==> !(#[trigger] p[i] == '/' && p[i - 1] == '/')
}

proof fn lemma_last_sep_props(s: Seq<char>)
    ensures
        -1 <= last_sep(s) < s.len(),
        last_sep(s) >= 0 ==> s[last_sep(s)] == '/',
        forall|j: int| last_sep(s) < j < s.len() ==> s[j] != '/',
    decreases s.len(),
{
    if s.len() > 0 && s.last() != '/' {
        let t = s.drop_last();
        lemma_last_sep_props(t);
        assert forall|j: int| last_sep(s) < j < s.len() implies s[j] != '/' by {
            if j < s.len() - 1 {
                assert(s[j] == t[j]);
            }
        }
    }
}

/// The directory part that [`with_file_name_spec`] keeps.
pub open spec fn parent_part(t: Seq<char>) -> Seq<char> {
    let k = last_sep(t);
    if k < 0 {
        Seq::empty()
    } else if k == 0 {
        seq!['/']
    } else {
        t.take(k)
    }
}

/// Splitting a plain path at its last `/` and joining again gives it back;
/// replacing the name keeps the directory part.
proof fn lemma_rename(p: Seq<char>, m: Seq<char>)
    requires
        plain_path(p),
        p.len() > 0,
        m.len() > 0,
        m.last() != '/',
        forall|i: int| 0 <= i < m.len() ==> m[i] != '/',
    ensures
        crate::text::trim_char_end(p, '/') == p,
        path_join(parent_part(p), p.skip(last_sep(p) + 1)) == p,
        with_file_name_spec(p, m) == path_join(parent_part(p), m),
        crate::text::trim_char_end(with_file_name_spec(p, m), '/') == with_file_name_spec(p, m),
        last_sep(with_file_name_spec(p, m)) == last_sep(p),
        parent_part(with_file_name_spec(p, m)) == parent_part(p),
        with_file_name_spec(p, m).skip(last_sep(p) + 1) == m,
        plain_path(with_file_name_spec(p, m)),
{
    reveal_strlit("/");
    lemma_last_sep_props(p);
    let k = last_sep(p);
    let n = p.skip(k + 1);
    assert(crate::text::trim_char_end(p, '/') == p);
    let q = path_join(parent_part(p), m);
    assert(crate::text::trim_char_end(q, '/') == q) by {
        assert(q.len() > 0 && q.last() == m.last());
    }
    if k < 0 {
        assert(n == p);
        assert(path_join(Seq::empty(), n) == n);
        assert(q == m);
        lemma_last_sep(q, -1);
        assert(q.skip(0) == q);
    } else if k == 0 {
        assert(p == seq!['/'] + n);
        assert(q == seq!['/'] + m);
        lemma_last_sep(q, 0);
        assert(q.skip(1) == m);
        assert(q.take(0) == Seq::<char>::empty());
    } else {
        assert(p[k - 1] != '/') by {
            assert(!(p[k] == '/' && p[k - 1] == '/'));
        }
        assert(p.take(k).last() == p[k - 1]);
        assert(p == p.take(k) + seq!['/'] + n);
        assert(q == p.take(k) + seq!['/'] + m);
        assert forall|j: int| k < j < q.len() implies q[j] != '/' by {
            assert(q[j] == m[j - k - 1]);
        }
        lemma_last_sep(q, k);
        assert(q.take(k) == p.take(k));
        assert(q.skip(k + 1) == m);
    }
    assert(plain_path(q)) by {
        assert(q.last() == m.last());
        assert forall|i: int| 0 < i < q.len() implies !(#[trigger] q[i] == '/' && q[i - 1] == '/') by {
            if k < 0 {
                assert(q == m);
            } else if i > k {
                assert(q[i] == m[i - k - 1]);
            } else if i == k {
                if k > 0 {
                    assert(q[k - 1] == p[k - 1]);
                    assert(!(p[k] == '/' && p[k - 1] == '/'));
                }
            } else {
                assert(q[i] == p[i]);
                assert(q[i - 1] == p[i - 1]);
                assert(!(p[i] == '/' && p[i - 1] == '/'));
            }
        }
    }
}

/// Disabling a `.jar` and then enabling the `.jar.disabled` it became
/// gives back the path it started from (for a path with no trailing or
/// doubled `/`).
pub proof fn law_disable_then_enable(p: Seq<char>)
    requires
        plain_path(p),
        path_file_name(p) matches Some(n) && is_suffix(".jar"@, n),
    ensures
        ({
            let n = path_file_name(p)->0;
            let q = with_file_name_spec(p, n + ".disabled"@);
            &&& toggle_target(p, n, false) == Some(q)
            &&& path_file_name(q) == Some(n + ".disabled"@)
            &&& toggle_target(q, n + ".disabled"@, true) == Some(p)
        }),
{
    reveal_strlit(".disabled");
    reveal_strlit(".jar");
    reveal_strlit(".jar.disabled");
    reveal_strlit("..");
    lemma_last_sep_props(p);
    let k = last_sep(p);
    let n = path_file_name(p)->0;
    assert(n == p.skip(k + 1)) by {
        assert(crate::text::trim_char_end(p, '/') == p) by {
            if p.len() > 0 {
                assert(p.last() != '/');
            }
        }
    }
    assert(p.len() > 0);
    let m = n + ".disabled"@;
    assert forall|i: int| 0 <= i < m.len() implies m[i] != '/' by {
        if i < n.len() {
            assert(m[i] == p[k + 1 + i]);
        } else {
            assert(m[i] == ".disabled"@[i - n.len()]);
        }
    }
    assert(m.last() == 'd');
    lemma_rename(p, m);
    let q = with_file_name_spec(p, m);
    assert(path_file_name(q) == Some(m)) by {
        assert(q.skip(last_sep(q) + 1) == m);
        assert(m.len() != 2);
    }
    assert(is_suffix(".jar.disabled"@, m)) by {
        assert(n.skip(n.len() - 4) == ".jar"@);
        assert(m.skip(m.len() - 13) =~= n.skip(n.len() - 4) + ".disabled"@);
        assert(".jar"@ + ".disabled"@ =~= ".jar.disabled"@);
    }
    assert(m.take(m.len() - ".disabled"@.len()) == n);
    assert forall|i: int| 0 <= i < n.len() implies n[i] != '/' by {
        assert(n[i] == p[k + 1 + i]);
    }
    assert(n.len() >= 4);
    lemma_rename(q, n);
}

} // verus!
