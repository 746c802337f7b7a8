//! Launch-argument assembly: rule filtering, `${placeholder}` substitution,
//! classpath, GC choice and JVM argument de-duplication.

use super::account::AccountInfo;
use super::model::{clone_strings, LaunchInputs, LaunchPlan};
use crate::errors::Error;
use crate::model::arguments::{
    rules_allow, rules_allow_spec, Argument, ArgumentValue, EvalContext, OsName,
};
use crate::model::library::Library;
use crate::model::version::{ResolvedManifest, VersionType};
use crate::paths::path_join;
use crate::text::{
    contains_seq, dec_string, find_char, is_prefix, is_suffix, join_seq, lower_seq,
    replace_seq, sviews, tokens,
};
use crate::vanilla::library::{
    has_main_download, is_new_format_native_spec, library_artifacts, ArtifactKind, LibraryArtifact,
};
use crate::vanilla::paths::InstallPaths;
use vstd::prelude::*;

verus! {

// ───────────────────────── substitution ─────────────────────────

/// `${key}`.
pub open spec fn placeholder(key: Seq<char>) -> Seq<char> {
    "${"@ + key + "}"@
}

/// `s` with each variable's placeholder replaced by its value, the variables
/// taken in order.
pub open spec fn subst_spec(s: Seq<char>, vars: Seq<(Seq<char>, Seq<char>)>) -> Seq<char>
    decreases vars.len(),
{
    if vars.len() == 0 {
        s
    } else {
        replace_seq(subst_spec(s, vars.drop_last()), placeholder(vars.last().0), vars.last().1)
    }
}

/// Replaces each `${key}` of `input` with the value of `key` in `vars`,
/// variable by variable in order; unknown placeholders stay as they are.
pub fn substitute(input: &str, vars: &Vec<(String, String)>) -> (r: String)
    ensures
        r@ == subst_spec(input@, pviews(vars@)),
{
    let mut out = crate::text::to_chars(input);
    let mut i: usize = 0;
    proof {
        reveal_strlit("${");
        reveal_strlit("}");
    }
    while i < vars.len()
        invariant
            i <= vars@.len(),
            out@ == subst_spec(input@, pviews(vars@.take(i as int))),
        decreases vars@.len() - i,
    {
        assert(vars@.take(i + 1).drop_last() == vars@.take(i as int));
        assert(pviews(vars@.take(i + 1)).drop_last() == pviews(vars@.take(i as int)));
        proof {
            reveal_strlit("${");
            reveal_strlit("}");
        }
        let mut pat = "${".to_string();
        pat.append(vars[i].0.as_str());
        pat.append("}");
        let pv = crate::text::to_chars(pat.as_str());
        assert(pv@ == placeholder(vars@[i as int].0@));
        assert(pv@.len() > 0);
        let vv = crate::text::to_chars(vars[i].1.as_str());
        out = crate::text::replace_chars(out.as_slice(), pv.as_slice(), vv.as_slice());
        i = i + 1;
    }
    assert(vars@.take(i as int) == vars@);
    crate::text::from_chars(out.as_slice())
}

// ───────────────────────── flattening ─────────────────────────

/// The raw strings an argument contributes in `ctx`.
pub open spec fn arg_values(a: Argument, ctx: EvalContext) -> Seq<Seq<char>> {
    match a {
        Argument::Plain(s) => seq![s@],
        Argument::Conditional { rules, value } => if rules_allow_spec(rules@, ctx) {
            match value {
                ArgumentValue::Single(s) => seq![s@],
                ArgumentValue::Multi(ss) => sviews(ss@),
            }
        } else {
            Seq::empty()
        },
    }
}

/// The raw strings of an argument list in `ctx`, in order.
pub open spec fn flat_raw(args: Seq<Argument>, ctx: EvalContext) -> Seq<Seq<char>>
    decreases args.len(),
{
    if args.len() == 0 {
        Seq::empty()
    } else {
        flat_raw(args.drop_last(), ctx) + arg_values(args.last(), ctx)
    }
}

/// Each string with the variables substituted.
pub open spec fn subst_all(xs: Seq<Seq<char>>, vars: Seq<(Seq<char>, Seq<char>)>) -> Seq<Seq<char>> {
    xs.map_values(|x: Seq<char>| subst_spec(x, vars))
}

/// Appends to `out` the strings of `args` whose rules allow them in `ctx`,
/// with placeholders substituted from `vars`.
pub fn flatten_args(
    args: &Vec<Argument>,
    ctx: &EvalContext,
    vars: &Vec<(String, String)>,
    out: &mut Vec<String>,
)
    requires
        crate::model::arguments::context_ok(*ctx),
    ensures
        sviews(final(out)@) == sviews(old(out)@) + subst_all(flat_raw(args@, *ctx), pviews(vars@)),
{
    let ghost out0 = sviews(out@);
    let mut i: usize = 0;
    while i < args.len()
        invariant
            i <= args@.len(),
            crate::model::arguments::context_ok(*ctx),
            sviews(out@) == out0 + subst_all(flat_raw(args@.take(i as int), *ctx), pviews(vars@)),
        decreases args@.len() - i,
    {
        let ghost before = sviews(out@);
        assert(args@.take(i + 1).drop_last() == args@.take(i as int));
        assert(args@.take(i + 1).last() == args@[i as int]);
        match &args[i] {
            Argument::Plain(s) => {
                out.push(substitute(s.as_str(), vars));
                assert(sviews(out@) == before + subst_all(arg_values(args@[i as int], *ctx), pviews(vars@)));
            },
            Argument::Conditional { rules, value } => {
                if rules_allow(rules, ctx) {
                    match value {
                        ArgumentValue::Single(s) => {
                            out.push(substitute(s.as_str(), vars));
                            assert(sviews(out@) == before + subst_all(arg_values(args@[i as int], *ctx), pviews(vars@)));
                        },
                        ArgumentValue::Multi(ss) => {
                            let mut k: usize = 0;
                            while k < ss.len()
                                invariant
                                    k <= ss@.len(),
                                    sviews(out@) == before + subst_all(sviews(ss@.take(k as int)), pviews(vars@)),
                                decreases ss@.len() - k,
                            {
                                let ghost b2 = sviews(out@);
                                out.push(substitute(ss[k].as_str(), vars));
                                assert(sviews(ss@.take(k + 1)) == sviews(ss@.take(k as int)).push(ss@[k as int]@));
                                assert(sviews(out@) == b2.push(subst_spec(ss@[k as int]@, pviews(vars@))));
                                assert(subst_all(sviews(ss@.take(k + 1)), pviews(vars@)) == subst_all(sviews(ss@.take(k as int)), pviews(vars@)).push(subst_spec(ss@[k as int]@, pviews(vars@))));
                                k = k + 1;
                            }
                            assert(ss@.take(k as int) == ss@);
                        },
                    }
                } else {
                    assert(arg_values(args@[i as int], *ctx) == Seq::<Seq<char>>::empty());
                    assert(sviews(out@) == before + subst_all(arg_values(args@[i as int], *ctx), pviews(vars@)));
                }
            },
        }
        assert(subst_all(flat_raw(args@.take(i + 1), *ctx), pviews(vars@)) == subst_all(flat_raw(args@.take(i as int), *ctx), pviews(vars@)) + subst_all(arg_values(args@[i as int], *ctx), pviews(vars@)));
        i = i + 1;
    }
    assert(args@.take(i as int) == args@);
}

// ───────────────────────── GC choice ─────────────────────────

/// `-XX:+Use...GC`: a garbage-collector choice.
pub open spec fn is_gc_flag(a: Seq<char>) -> bool {
    is_prefix("-XX:+Use"@, a) && is_suffix("GC"@, a)
}

/// Some argument chooses a garbage collector.
pub open spec fn has_gc_flag(args: Seq<Seq<char>>) -> bool {
    exists|j: int| 0 <= j < args.len() && is_gc_flag(#[trigger] args[j])
}

/// The GC flags added for a Java of major version `major` to arguments
/// `args`: none if they already choose a collector; otherwise generational
/// ZGC on Java 21+, ZGC on 15–20, G1 below.
pub open spec fn gc_injection(args: Seq<Seq<char>>, major: u8) -> Seq<Seq<char>> {
    if has_gc_flag(args) {
        Seq::empty()
    } else if major >= 21 {
        seq!["-XX:+UseZGC"@, "-XX:+ZGenerational"@]
    } else if major >= 15 {
        seq!["-XX:+UseZGC"@]
    } else {
        seq!["-XX:+UseG1GC"@]
    }
}

/// `a` chooses a garbage collector.
fn is_gc_flag_exec(a: &str) -> (b: bool)
    ensures
        b == is_gc_flag(a@),
{
    crate::text::str_starts_with(a, "-XX:+Use") && crate::text::str_ends_with(a, "GC")
}

/// Adds the best garbage collector for `java_major` unless one is chosen
/// already (see [`gc_injection`]).
pub fn inject_gc(jvm: &mut Vec<String>, java_major: u8)
    ensures
        sviews(final(jvm)@) == sviews(old(jvm)@) + gc_injection(sviews(old(jvm)@), java_major),
        has_gc_flag(sviews(old(jvm)@)) ==> final(jvm)@ == old(jvm)@,
{
    let ghost v0 = sviews(jvm@);
    let mut i: usize = 0;
    while i < jvm.len()
        invariant
            i <= jvm@.len(),
            v0 == sviews(jvm@),
            forall|j: int| 0 <= j < i ==> !is_gc_flag(#[trigger] v0[j]),
        decreases jvm@.len() - i,
    {
        if is_gc_flag_exec(jvm[i].as_str()) {
            assert(is_gc_flag(v0[i as int]));
            return;
        }
        i = i + 1;
    }
    if java_major >= 21 {
        jvm.push("-XX:+UseZGC".to_string());
        jvm.push("-XX:+ZGenerational".to_string());
    } else if java_major >= 15 {
        jvm.push("-XX:+UseZGC".to_string());
    } else {
        jvm.push("-XX:+UseG1GC".to_string());
    }
    assert(sviews(jvm@) == v0 + gc_injection(v0, java_major));
}

// ───────────────────────── de-duplication ─────────────────────────

/// The de-duplication class of a JVM argument: `(0, _)` for `--tweakClass`
/// (never de-duplicated), `(1, prefix)` for `-Xmx`/`-Xms`/`-Xss`, `(2, _)`
/// for a GC choice, `(3, key)` for `-D<key>=<value>`, `(4, arg)` otherwise.
pub open spec fn arg_class(a: Seq<char>) -> (int, Seq<char>) {
    if is_prefix("--tweakClass"@, a) {
        (0, Seq::empty())
    } else if is_prefix("-Xmx"@, a) {
        (1, "-Xmx"@)
    } else if is_prefix("-Xms"@, a) {
        (1, "-Xms"@)
    } else if is_prefix("-Xss"@, a) {
        (1, "-Xss"@)
    } else if is_gc_flag(a) {
        (2, Seq::empty())
    } else if is_prefix("-D"@, a) && find_char(a.skip(2), '=') >= 0 {
        (3, a.skip(2).take(find_char(a.skip(2), '=')))
    } else {
        (4, a)
    }
}

/// Argument `i` survives de-duplication: it is a `--tweakClass`, or no
/// earlier argument has its class.
pub open spec fn keep_at(args: Seq<Seq<char>>, i: int) -> bool {
    arg_class(args[i]).0 == 0 || forall|j: int| 0 <= j < i ==> arg_class(#[trigger] args[j]) != arg_class(args[i])
}

/// The arguments that survive de-duplication, in order.
pub open spec fn dedupe_spec(args: Seq<Seq<char>>) -> Seq<Seq<char>>
    decreases args.len(),
{
    if args.len() == 0 {
        Seq::empty()
    } else {
        let prev = dedupe_spec(args.drop_last());
        if keep_at(args, args.len() - 1) {
            prev.push(args.last())
        } else {
            prev
        }
    }
}

/// The de-duplication class of `a` (see [`arg_class`]).
fn arg_class_exec(a: &str) -> (r: (u8, Vec<char>))
    ensures
        (r.0 as int, r.1@) == arg_class(a@),
{
    proof {
        reveal_strlit("-Xmx");
        reveal_strlit("-Xms");
        reveal_strlit("-Xss");
    }
    if crate::text::str_starts_with(a, "--tweakClass") {
        return (0, Vec::new());
    }
    if crate::text::str_starts_with(a, "-Xmx") {
        return (1, crate::text::to_chars("-Xmx"));
    }
    if crate::text::str_starts_with(a, "-Xms") {
        return (1, crate::text::to_chars("-Xms"));
    }
    if crate::text::str_starts_with(a, "-Xss") {
        return (1, crate::text::to_chars("-Xss"));
    }
    if is_gc_flag_exec(a) {
        return (2, Vec::new());
    }
    let v = crate::text::to_chars(a);
    if crate::text::str_starts_with(a, "-D") {
        proof {
            reveal_strlit("-D");
        }
        let ghost rest = v@.skip(2);
        match crate::text::find_char_from(v.as_slice(), '=', 2) {
            Some(e) => {
                proof {
                    crate::text::lemma_find_char_is(rest, '=', e - 2);
                    assert(rest.take(e - 2) == v@.subrange(2, e as int));
                }
                return (3, crate::text::sub_chars(v.as_slice(), 2, e));
            },
            None => {
                proof {
                    crate::text::lemma_find_char_is(rest, '=', rest.len() as int);
                }
            },
        }
    }
    (4, v)
}

/// Two classes are equal.
fn class_eq(a: &(u8, Vec<char>), b: &(u8, Vec<char>)) -> (r: bool)
    ensures
        r == ((a.0 as int, a.1@) == (b.0 as int, b.1@)),
{
    if a.0 != b.0 || a.1.len() != b.1.len() {
        return false;
    }
    let r = crate::text::starts_with(a.1.as_slice(), b.1.as_slice());
    assert(r == (a.1@ == b.1@)) by {
        assert(a.1@.take(b.1@.len() as int) == a.1@);
    }
    r
}

/// Removes repeated JVM arguments, keeping the first of each: equal
/// strings; `-Xmx`/`-Xms`/`-Xss` settings; GC choices; `-D` properties of
/// the same key. `--tweakClass` arguments are all kept.
pub fn dedupe_jvm_args(args: Vec<String>) -> (out: Vec<String>)
    ensures
        sviews(out@) == dedupe_spec(sviews(args@)),
{
    let ghost a = sviews(args@);
    let mut classes: Vec<(u8, Vec<char>)> = Vec::new();
    let mut out: Vec<String> = Vec::new();
    let mut i: usize = 0;
    while i < args.len()
        invariant
            i <= args@.len(),
            a == sviews(args@),
            classes@.len() == i,
            forall|j: int| 0 <= j < i ==> ((#[trigger] classes@[j]).0 as int, classes@[j].1@) == arg_class(a[j]),
            sviews(out@) == dedupe_spec(a.take(i as int)),
        decreases args@.len() - i,
    {
        let c = arg_class_exec(args[i].as_str());
        let mut dup = false;
        if c.0 != 0 {
            let mut j: usize = 0;
            while j < i
                invariant
                    j <= i,
                    classes@.len() == i,
                    dup == exists|k: int| 0 <= k < j && ((#[trigger] classes@[k]).0 as int, classes@[k].1@) == (c.0 as int, c.1@),
                decreases i - j,
            {
                if class_eq(&classes[j], &c) {
                    dup = true;
                }
                j = j + 1;
            }
        }
        let ghost t = a.take(i + 1);
        assert(t.drop_last() == a.take(i as int));
        assert(t.last() == a[i as int]);
        assert(dup == !keep_at(t, i as int)) by {
            if !dup && c.0 != 0 {
                assert forall|j: int| 0 <= j < i implies arg_class(#[trigger] t[j]) != arg_class(t[i as int]) by {
                    assert(t[j] == a[j]);
                    assert(((classes@[j]).0 as int, classes@[j].1@) == arg_class(a[j]));
                    if ((classes@[j]).0 as int, classes@[j].1@) == (c.0 as int, c.1@) {
                        assert(dup);
                    }
                }
            }
            if dup {
                let k = choose|k: int| 0 <= k < i && ((#[trigger] classes@[k]).0 as int, classes@[k].1@) == (c.0 as int, c.1@);
                assert(t[k] == a[k]);
            }
        }
        if !dup {
            out.push(args[i].clone());
        }
        classes.push(c);
        i = i + 1;
    }
    assert(a.take(i as int) == a);
    out
}

// ───────────────────────── classpath ─────────────────────────

/// The classpath jar `lib` contributes in `ctx`, if any: its downloaded main
/// artifact when its rules allow it and it is not a native.
pub open spec fn cp_entry(lib: Library, ctx: EvalContext, root: Seq<char>) -> Seq<Seq<char>> {
    if rules_allow_spec(lib.rules@, ctx) && has_main_download(lib) && !is_new_format_native_spec(lib.name@) {
        seq![path_join(root, lib.downloads->0.artifact->0.path@)]
    } else {
        Seq::empty()
    }
}

/// The classpath jars of the libraries, in order.
pub open spec fn cp_entries(libs: Seq<Library>, ctx: EvalContext, root: Seq<char>) -> Seq<Seq<char>>
    decreases libs.len(),
{
    if libs.len() == 0 {
        Seq::empty()
    } else {
        cp_entries(libs.drop_last(), ctx, root) + cp_entry(libs.last(), ctx, root)
    }
}

/// The targets of the classpath artifacts, in order.
pub open spec fn lib_targets(arts: Seq<LibraryArtifact>) -> Seq<Seq<char>>
    decreases arts.len(),
{
    if arts.len() == 0 {
        Seq::empty()
    } else if arts.last().kind is Library {
        lib_targets(arts.drop_last()).push(arts.last().target@)
    } else {
        lib_targets(arts.drop_last())
    }
}

/// The main class belongs to the module-system bootstrap launcher of
/// modern Forge and NeoForge.
pub open spec fn uses_module_loader_spec(main_class: Seq<char>) -> bool {
    contains_seq(lower_seq(main_class), "bootstraplauncher"@)
}

/// The classpath separator of `os`.
pub open spec fn cp_sep(os: OsName) -> Seq<char> {
    if os == OsName::Windows { ";"@ } else { ":"@ }
}

/// The main class is a `BootstrapLauncher` (case-insensitive).
pub fn uses_module_loader(main_class: &str) -> (b: bool)
    ensures
        b == uses_module_loader_spec(main_class@),
{
    let v = crate::text::to_chars(main_class);
    let l = crate::text::ascii_lowercase(v.as_slice());
    let p = crate::text::to_chars("bootstraplauncher");
    crate::text::contains(l.as_slice(), p.as_slice())
}

/// The client jar path of `paths` (see [`InstallPaths::client_jar`]).
pub open spec fn client_jar_spec(paths: InstallPaths) -> Seq<char> {
    path_join(paths.version_dir@, paths.version_id@ + ".jar"@)
}

/// The classpath entries: library jars, then the client jar unless a
/// module-system bootstrap launcher is the main class.
pub open spec fn classpath_parts(manifest: ResolvedManifest, ctx: EvalContext, paths: InstallPaths) -> Seq<Seq<char>> {
    cp_entries(manifest.libraries@, ctx, paths.libraries_dir@) + if uses_module_loader_spec(manifest.main_class@) {
        Seq::empty()
    } else {
        seq![client_jar_spec(paths)]
    }
}

/// The classpath: every allowed non-native library jar, then the client jar
/// — left out when the main class is a `BootstrapLauncher` (modern
/// Forge/NeoForge, whose patched client is among the libraries) — joined
/// with the class-path separator of `host`, the OS the launcher itself was
/// built for (`;` on Windows, `:` elsewhere), whatever OS `ctx` evaluates
/// the rules for.
pub fn build_classpath(
    manifest: &ResolvedManifest,
    ctx: &EvalContext,
    paths: &InstallPaths,
    host: OsName,
) -> (cp: String)
    requires
        crate::model::arguments::context_ok(*ctx),
        crate::vanilla::library::libraries_ok(manifest.libraries@),
    ensures
        cp@ == join_seq(classpath_parts(*manifest, *ctx, *paths), cp_sep(host)),
{
    let mut entries: Vec<String> = Vec::new();
    let mut i: usize = 0;
    while i < manifest.libraries.len()
        invariant
            i <= manifest.libraries@.len(),
            crate::model::arguments::context_ok(*ctx),
            crate::vanilla::library::libraries_ok(manifest.libraries@),
            sviews(entries@) == cp_entries(manifest.libraries@.take(i as int), *ctx, paths.libraries_dir@),
        decreases manifest.libraries@.len() - i,
    {
        let lib = &manifest.libraries[i];
        let arts = library_artifacts(lib, ctx, paths.libraries_dir.as_str());
        let ghost before = sviews(entries@);
        let mut k: usize = 0;
        while k < arts.len()
            invariant
                k <= arts@.len(),
                sviews(entries@) == before + lib_targets(arts@.take(k as int)),
            decreases arts@.len() - k,
        {
            assert(arts@.take(k + 1).drop_last() == arts@.take(k as int));
            assert(arts@.take(k + 1).last() == arts@[k as int]);
            let ghost e0 = sviews(entries@);
            if matches!(arts[k].kind, ArtifactKind::Library) {
                entries.push(arts[k].target.clone());
                assert(sviews(entries@) == e0.push(arts@[k as int].target@));
            }
            k = k + 1;
        }
        assert(arts@.take(k as int) == arts@);
        proof {
            let t = manifest.libraries@.take(i + 1);
            assert(t.drop_last() == manifest.libraries@.take(i as int));
            assert(t.last() == *lib);
            let e = Seq::<LibraryArtifact>::empty();
            assert(lib_targets(e) == Seq::<Seq<char>>::empty());
            if arts@.len() >= 1 {
                assert(arts@.take(1).drop_last() == e);
                assert(arts@.take(1).last() == arts@[0]);
            }
            if arts@.len() == 2 {
                assert(arts@.drop_last() == arts@.take(1));
                assert(arts@[1].kind is Native);
                assert(lib_targets(arts@) == lib_targets(arts@.take(1)));
            }
            if arts@.len() == 1 && !has_main_download(*lib) {
                assert(arts@[0].kind is Native);
                assert(arts@.take(1) == arts@);
            }
            if arts@.len() == 1 && has_main_download(*lib) {
                assert(arts@.take(1) == arts@);
            }
            assert(lib_targets(arts@) == cp_entry(*lib, *ctx, paths.libraries_dir@));
        }
        i = i + 1;
    }
    assert(manifest.libraries@.take(i as int) == manifest.libraries@);
    let ghost e0 = sviews(entries@);
    if !uses_module_loader(manifest.main_class.as_str()) {
        entries.push(paths.client_jar());
        assert(sviews(entries@) == e0.push(client_jar_spec(*paths)));
    }
    assert(sviews(entries@) == classpath_parts(*manifest, *ctx, *paths));
    let sep = match host {
        OsName::Windows => ";",
        _ => ":",
    };
    proof {
        reveal_strlit(";");
        reveal_strlit(":");
    }
    crate::text::join_strings(&entries, sep)
}


// ───────────────────────── context congruence ─────────────────────────

/// Two contexts agree on everything rules read.
pub open spec fn ctx_equiv(a: EvalContext, b: EvalContext) -> bool {
    a.os.name == b.os.name && a.os.arch@ == b.os.arch@ && a.features@ == b.features@
}

proof fn lemma_fold_allow_equiv(rules: Seq<crate::model::arguments::Rule>, a: EvalContext, b: EvalContext, init: bool)
    requires
        ctx_equiv(a, b),
    ensures
        crate::model::arguments::fold_allow(rules, a, init) == crate::model::arguments::fold_allow(rules, b, init),
    decreases rules.len(),
{
    if rules.len() > 0 {
        lemma_fold_allow_equiv(rules.drop_last(), a, b, init);
        assert(crate::model::arguments::rule_matches(rules.last(), a) == crate::model::arguments::rule_matches(rules.last(), b));
    }
}

proof fn lemma_flat_raw_equiv(args: Seq<Argument>, a: EvalContext, b: EvalContext)
    requires
        ctx_equiv(a, b),
    ensures
        flat_raw(args, a) == flat_raw(args, b),
    decreases args.len(),
{
    if args.len() > 0 {
        lemma_flat_raw_equiv(args.drop_last(), a, b);
        if let Argument::Conditional { rules, value } = args.last() {
            lemma_fold_allow_equiv(rules@, a, b, rules@.len() == 0);
        }
    }
}

proof fn lemma_cp_entries_equiv(libs: Seq<Library>, a: EvalContext, b: EvalContext, root: Seq<char>)
    requires
        ctx_equiv(a, b),
    ensures
        cp_entries(libs, a, root) == cp_entries(libs, b, root),
    decreases libs.len(),
{
    if libs.len() > 0 {
        lemma_cp_entries_equiv(libs.drop_last(), a, b, root);
        lemma_fold_allow_equiv(libs.last().rules@, a, b, libs.last().rules@.len() == 0);
    }
}

// ───────────────────────── placeholders and the plan ─────────────────────────

/// The views of `(key, value)` string pairs.
pub open spec fn pviews(v: Seq<(String, String)>) -> Seq<(Seq<char>, Seq<char>)> {
    v.map_values(|p: (String, String)| (p.0@, p.1@))
}

/// How a version type is written in `${version_type}`: its name in lower case.
pub open spec fn version_type_name(k: VersionType) -> Seq<char> {
    match k {
        VersionType::Release => "release"@,
        VersionType::Snapshot => "snapshot"@,
        VersionType::OldBeta => "oldbeta"@,
        VersionType::OldAlpha => "oldalpha"@,
    }
}

/// The index of the last `/` of `s`, or `-1`.
pub open spec fn last_slash(s: Seq<char>) -> int
    decreases s.len(),
{
    if s.len() == 0 {
        -1
    } else if s.last() == '/' {
        s.len() - 1
    } else {
        last_slash(s.drop_last())
    }
}

/// The last component of a path (what follows its last `/`).
pub open spec fn file_name_of(s: Seq<char>) -> Seq<char> {
    s.skip(last_slash(s) + 1)
}

/// `k` is the last `/` of `s` when `s[k]` is one and none follows it
/// (`-1`: none at all).
pub proof fn lemma_last_slash(s: Seq<char>, k: int)
    requires
        -1 <= k < s.len(),
        k >= 0 ==> s[k] == '/',
        forall|j: int| k < j < s.len() ==> s[j] != '/',
    ensures
        last_slash(s) == k,
    decreases s.len(),
{
    if s.len() > 0 && s.last() != '/' {
        lemma_last_slash(s.drop_last(), k);
    }
}

/// What follows the last `/` of `p`.
fn file_name(p: &str) -> (r: String)
    ensures
        r@ == file_name_of(p@),
{
    let v = crate::text::to_chars(p);
    let mut i: usize = v.len();
    while i > 0 && v[i - 1] != '/'
        invariant
            i <= v@.len(),
            forall|j: int| i <= j < v@.len() ==> v@[j] != '/',
        decreases i,
    {
        i = i - 1;
    }
    proof {
        lemma_last_slash(v@, i - 1);
        assert(v@.skip(i as int) == v@.subrange(i as int, v@.len() as int));
    }
    crate::text::string_of(v.as_slice(), i, v.len())
}

/// The substitution variables of a launch, in order.
pub open spec fn placeholder_pairs(
    manifest: ResolvedManifest,
    paths: InstallPaths,
    account: AccountInfo,
    os: OsName,
    classpath: Seq<char>,
) -> Seq<(Seq<char>, Seq<char>)> {
    seq![
        ("auth_player_name"@, account.username@),
        ("auth_uuid"@, replace_seq(account.uuid@, "-"@, Seq::empty())),
        ("auth_access_token"@, account.access_token@),
        ("auth_session"@, "token:"@ + account.access_token@ + ":0"@),
        ("user_type"@, account.user_type@),
        ("user_properties"@, "{}"@),
        ("auth_player_uuid"@, account.uuid@),
        ("version_name"@, manifest.id@),
        ("version_type"@, version_type_name(manifest.kind)),
        ("game_directory"@, paths.game_dir@),
        ("assets_root"@, paths.assets_dir@),
        ("game_assets"@, paths.assets_dir@),
        ("assets_index_name"@, manifest.asset_index.id@),
        ("natives_directory"@, path_join(paths.version_dir@, "natives"@)),
        ("library_directory"@, paths.libraries_dir@),
        ("classpath"@, classpath),
        ("classpath_separator"@, cp_sep(os)),
        ("launcher_name"@, "Nova-Craft-Launcher"@),
        ("launcher_version"@, "0.1.0"@),
        ("MC_JAR_NAME"@, file_name_of(client_jar_spec(paths))),
        ("clientid"@, Seq::empty()),
        ("auth_xuid"@, Seq::empty()),
    ]
}

fn push_var(v: &mut Vec<(String, String)>, k: &str, val: String)
    ensures
        pviews(final(v)@) == pviews(old(v)@).push((k@, val@)),
{
    v.push((k.to_string(), val));
    assert(pviews(v@) == pviews(old(v)@).push((k@, val@)));
}

/// The substitution variables of a launch: account, version, directories,
/// classpath, launcher identity, the client jar's file name for
/// `${MC_JAR_NAME}`, and empty online-only values (see [`placeholder_pairs`]).
/// `os` is the OS the launcher was built for; `${classpath_separator}` is
/// its separator.
pub fn build_placeholders(
    manifest: &ResolvedManifest,
    paths: &InstallPaths,
    account: &AccountInfo,
    os: OsName,
    classpath: &str,
) -> (vars: Vec<(String, String)>)
    ensures
        pviews(vars@) == placeholder_pairs(*manifest, *paths, *account, os, classpath@),
{
    let mut vars: Vec<(String, String)> = Vec::new();
    push_var(&mut vars, "auth_player_name", account.username.clone());
    let uv = crate::text::to_chars(account.uuid.as_str());
    let dash = crate::text::to_chars("-");
    let nothing: Vec<char> = Vec::new();
    proof {
        reveal_strlit("-");
    }
    let plain_uuid = crate::text::replace_chars(uv.as_slice(), dash.as_slice(), nothing.as_slice());
    push_var(&mut vars, "auth_uuid", crate::text::from_chars(plain_uuid.as_slice()));
    push_var(&mut vars, "auth_access_token", account.access_token.clone());
    let mut session = "token:".to_string();
    session.append(account.access_token.as_str());
    session.append(":0");
    push_var(&mut vars, "auth_session", session);
    push_var(&mut vars, "user_type", account.user_type.clone());
    push_var(&mut vars, "user_properties", "{}".to_string());
    push_var(&mut vars, "auth_player_uuid", account.uuid.clone());
    push_var(&mut vars, "version_name", manifest.id.clone());
    let vt = match manifest.kind {
        VersionType::Release => "release",
        VersionType::Snapshot => "snapshot",
        VersionType::OldBeta => "oldbeta",
        VersionType::OldAlpha => "oldalpha",
    };
    push_var(&mut vars, "version_type", vt.to_string());
    push_var(&mut vars, "game_directory", paths.game_dir.clone());
    push_var(&mut vars, "assets_root", paths.assets_dir.clone());
    push_var(&mut vars, "game_assets", paths.assets_dir.clone());
    push_var(&mut vars, "assets_index_name", manifest.asset_index.id.clone());
    push_var(&mut vars, "natives_directory", paths.natives_dir());
    push_var(&mut vars, "library_directory", paths.libraries_dir.clone());
    push_var(&mut vars, "classpath", classpath.to_string());
    let sep = match os {
        OsName::Windows => ";",
        _ => ":",
    };
    push_var(&mut vars, "classpath_separator", sep.to_string());
    push_var(&mut vars, "launcher_name", "Nova-Craft-Launcher".to_string());
    push_var(&mut vars, "launcher_version", "0.1.0".to_string());
    let jar = paths.client_jar();
    push_var(&mut vars, "MC_JAR_NAME", file_name(jar.as_str()));
    push_var(&mut vars, "clientid", String::new());
    push_var(&mut vars, "auth_xuid", String::new());
    assert(pviews(vars@) =~= placeholder_pairs(*manifest, *paths, *account, os, classpath@));
    vars
}

/// The evaluation context of a launch.
pub open spec fn launch_ctx(inputs: LaunchInputs) -> EvalContext {
    EvalContext { os: inputs.os, features: inputs.features }
}

/// The classpath of a launch.
pub open spec fn launch_classpath(inputs: LaunchInputs) -> Seq<char> {
    join_seq(classpath_parts(*inputs.manifest, launch_ctx(inputs), *inputs.paths), cp_sep(inputs.os.name))
}

/// The substitution variables of a launch.
pub open spec fn launch_vars(inputs: LaunchInputs) -> Seq<(Seq<char>, Seq<char>)> {
    placeholder_pairs(*inputs.manifest, *inputs.paths, *inputs.account, inputs.os.name, launch_classpath(inputs))
}

/// The JVM arguments before GC choice and user extras: heap bounds, the
/// manifest's JVM arguments, the log4j lookup fix.
pub open spec fn jvm_base(inputs: LaunchInputs, vars: Seq<(Seq<char>, Seq<char>)>) -> Seq<Seq<char>> {
    seq![
        "-Xms"@ + dec_string(inputs.memory.min_mb as nat) + "M"@,
        "-Xmx"@ + dec_string(inputs.memory.max_mb as nat) + "M"@,
    ] + subst_all(flat_raw(inputs.manifest.arguments.jvm@, launch_ctx(inputs)), vars) + seq![
        "-Dlog4j2.formatMsgNoLookups=true"@,
    ]
}

/// The launcher's own JVM arguments: [`jvm_base`] and the GC choice.
pub open spec fn jvm_defaults(inputs: LaunchInputs, vars: Seq<(Seq<char>, Seq<char>)>) -> Seq<Seq<char>> {
    let base = jvm_base(inputs, vars);
    base + gc_injection(base, inputs.java.version_major)
}

/// A heap setting, GC choice or `-D` property that one of `extras` sets
/// too (same de-duplication class).
pub open spec fn overridden(a: Seq<char>, extras: Seq<Seq<char>>) -> bool {
    &&& 1 <= arg_class(a).0 <= 3
    &&& exists|j: int| 0 <= j < extras.len() && arg_class(#[trigger] extras[j]) == arg_class(a)
}

/// The arguments of `d` that `extras` do not override, in order.
pub open spec fn without_overridden(d: Seq<Seq<char>>, extras: Seq<Seq<char>>) -> Seq<Seq<char>>
    decreases d.len(),
{
    if d.len() == 0 {
        Seq::empty()
    } else {
        let p = without_overridden(d.drop_last(), extras);
        if overridden(d.last(), extras) {
            p
        } else {
            p.push(d.last())
        }
    }
}

/// The JVM arguments of a launch before de-duplication: the launcher's
/// own, less those the user's extras override, then the user's extras.
pub open spec fn jvm_all(inputs: LaunchInputs, vars: Seq<(Seq<char>, Seq<char>)>) -> Seq<Seq<char>> {
    let extras = sviews(inputs.jvm_args_extra@);
    without_overridden(jvm_defaults(inputs, vars), extras) + extras
}

/// `defaults` less the arguments that `extras` override (see [`overridden`]).
fn drop_overridden(defaults: Vec<String>, extras: &Vec<String>) -> (r: Vec<String>)
    ensures
        sviews(r@) == without_overridden(sviews(defaults@), sviews(extras@)),
{
    let ghost e = sviews(extras@);
    let ghost d = sviews(defaults@);
    let mut ec: Vec<(u8, Vec<char>)> = Vec::new();
    let mut k: usize = 0;
    while k < extras.len()
        invariant
            k <= extras@.len(),
            e == sviews(extras@),
            ec@.len() == k,
            forall|j: int| 0 <= j < k ==> ((#[trigger] ec@[j]).0 as int, ec@[j].1@) == arg_class(e[j]),
        decreases extras@.len() - k,
    {
        ec.push(arg_class_exec(extras[k].as_str()));
        k = k + 1;
    }
    let mut r: Vec<String> = Vec::new();
    let mut i: usize = 0;
    while i < defaults.len()
        invariant
            i <= defaults@.len(),
            d == sviews(defaults@),
            e == sviews(extras@),
            ec@.len() == e.len(),
            forall|j: int| 0 <= j < e.len() ==> ((#[trigger] ec@[j]).0 as int, ec@[j].1@) == arg_class(e[j]),
            sviews(r@) == without_overridden(d.take(i as int), e),
        decreases defaults@.len() - i,
    {
        let c = arg_class_exec(defaults[i].as_str());
        let mut hit = false;
        if 1 <= c.0 && c.0 <= 3 {
            let mut j: usize = 0;
            while j < ec.len()
                invariant
                    j <= ec@.len(),
                    ec@.len() == e.len(),
                    hit == exists|q: int| 0 <= q < j && ((#[trigger] ec@[q]).0 as int, ec@[q].1@) == (c.0 as int, c.1@),
                decreases ec@.len() - j,
            {
                if class_eq(&ec[j], &c) {
                    hit = true;
                }
                j = j + 1;
            }
        }
        let ghost t = d.take(i + 1);
        assert(t.drop_last() == d.take(i as int));
        assert(t.last() == d[i as int]);
        assert(hit == overridden(d[i as int], e)) by {
            if hit {
                let q = choose|q: int| 0 <= q < ec@.len() && ((#[trigger] ec@[q]).0 as int, ec@[q].1@) == (c.0 as int, c.1@);
                assert(arg_class(e[q]) == arg_class(d[i as int]));
            }
            if overridden(d[i as int], e) {
                let q = choose|q: int| 0 <= q < e.len() && arg_class(#[trigger] e[q]) == arg_class(d[i as int]);
                assert(((ec@[q]).0 as int, ec@[q].1@) == (c.0 as int, c.1@));
            }
        }
        if !hit {
            r.push(defaults[i].clone());
        }
        i = i + 1;
    }
    assert(d.take(i as int) == d);
    r
}

/// The game arguments of a launch: the legacy command line's tokens, the
/// manifest's game arguments, the user's extras.
pub open spec fn game_all(inputs: LaunchInputs, vars: Seq<(Seq<char>, Seq<char>)>) -> Seq<Seq<char>> {
    let legacy = match inputs.manifest.minecraft_arguments {
        Some(l) => subst_all(tokens(l@), vars),
        None => Seq::empty(),
    };
    legacy + subst_all(flat_raw(inputs.manifest.arguments.game@, launch_ctx(inputs)), vars)
        + sviews(inputs.game_args_extra@)
}

/// Clones a feature list.
fn clone_features(v: &Vec<(String, bool)>) -> (r: Vec<(String, bool)>)
    ensures
        r@ == v@,
{
    let mut r: Vec<(String, bool)> = Vec::new();
    let mut i: usize = 0;
    while i < v.len()
        invariant
            i <= v@.len(),
            r@ == v@.take(i as int),
        decreases v@.len() - i,
    {
        r.push((v[i].0.clone(), v[i].1));
        i = i + 1;
        assert(r@ == v@.take(i as int));
    }
    assert(v@.take(i as int) == v@);
    r
}

/// `prefix + decimal(n) + "M"`.
fn heap_flag(prefix: &str, n: u32) -> (s: String)
    ensures
        s@ == prefix@ + dec_string(n as nat) + "M"@,
{
    let mut s = prefix.to_string();
    let d = crate::text::decimal(n);
    s.append(d.as_str());
    s.append("M");
    s
}

/// Plans a launch. JVM arguments: heap bounds, the manifest's JVM arguments
/// allowed in the launch context, the log4j lookup fix, the best GC for the
/// Java version unless one is chosen — less the heap settings, GC choice
/// and `-D` properties that the user's extras set too — then the user's
/// extras; all de-duplicated, first wins, so the user's setting prevails. Game arguments: the legacy command line's
/// tokens, the manifest's allowed game arguments, the user's extras.
/// Placeholders are substituted from [`placeholder_pairs`].
pub fn build_plan(inputs: &LaunchInputs) -> (r: Result<LaunchPlan, Error>)
    requires
        crate::text::keys_distinct(inputs.features@),
        crate::vanilla::library::libraries_ok(inputs.manifest.libraries@),
    ensures
        r matches Ok(plan) && {
            let vars = launch_vars(*inputs);
            &&& sviews(plan.jvm_args@) == dedupe_spec(jvm_all(*inputs, vars))
            &&& sviews(plan.game_args@) == game_all(*inputs, vars)
            &&& plan.java_path == inputs.java.path
            &&& plan.main_class == inputs.manifest.main_class
            &&& plan.working_dir == inputs.paths.game_dir
        },
{
    let manifest = inputs.manifest;
    let os = EvalContext { os: inputs.os.clone_exact(), features: clone_features(&inputs.features) };
    let ctx = &os;
    assert(ctx_equiv(*ctx, launch_ctx(*inputs)));
    let classpath = build_classpath(manifest, ctx, inputs.paths, inputs.os.name);
    proof {
        lemma_cp_entries_equiv(manifest.libraries@, *ctx, launch_ctx(*inputs), inputs.paths.libraries_dir@);
        lemma_flat_raw_equiv(manifest.arguments.jvm@, *ctx, launch_ctx(*inputs));
        lemma_flat_raw_equiv(manifest.arguments.game@, *ctx, launch_ctx(*inputs));
    }
    assert(classpath@ == launch_classpath(*inputs));
    let vars = build_placeholders(manifest, inputs.paths, inputs.account, inputs.os.name, classpath.as_str());
    let mut jvm: Vec<String> = Vec::new();
    jvm.push(heap_flag("-Xms", inputs.memory.min_mb));
    jvm.push(heap_flag("-Xmx", inputs.memory.max_mb));
    let ghost j0 = sviews(jvm@);
    assert(j0 == seq![
        "-Xms"@ + dec_string(inputs.memory.min_mb as nat) + "M"@,
        "-Xmx"@ + dec_string(inputs.memory.max_mb as nat) + "M"@,
    ]);
    flatten_args(&manifest.arguments.jvm, ctx, &vars, &mut jvm);
    let ghost j0b = sviews(jvm@);
    assert(j0b == j0 + subst_all(flat_raw(inputs.manifest.arguments.jvm@, launch_ctx(*inputs)), pviews(vars@)));
    jvm.push("-Dlog4j2.formatMsgNoLookups=true".to_string());
    let ghost base = sviews(jvm@);
    assert(base == j0b.push("-Dlog4j2.formatMsgNoLookups=true"@));
    assert(base == jvm_base(*inputs, pviews(vars@)));
    inject_gc(&mut jvm, inputs.java.version_major);
    assert(sviews(jvm@) == jvm_defaults(*inputs, pviews(vars@)));
    let mut jvm = drop_overridden(jvm, &inputs.jvm_args_extra);
    let mut extra = clone_strings(&inputs.jvm_args_extra);
    jvm.append(&mut extra);
    assert(sviews(jvm@) == jvm_all(*inputs, pviews(vars@)));
    let jvm_args = dedupe_jvm_args(jvm);
    let mut game: Vec<String> = Vec::new();
    if let Some(legacy) = &manifest.minecraft_arguments {
        let lv = crate::text::to_chars(legacy.as_str());
        let toks = crate::text::split_whitespace_chars(lv.as_slice());
        let mut i: usize = 0;
        while i < toks.len()
            invariant
                i <= toks@.len(),
                crate::text::views(toks@) == tokens(legacy@),
                sviews(game@) == subst_all(crate::text::views(toks@).take(i as int), pviews(vars@)),
            decreases toks@.len() - i,
        {
            let t = crate::text::from_chars(toks[i].as_slice());
            let ghost g0 = sviews(game@);
            game.push(substitute(t.as_str(), &vars));
            assert(crate::text::views(toks@).take(i + 1) == crate::text::views(toks@).take(i as int).push(toks@[i as int]@));
            assert(sviews(game@) == g0.push(subst_spec(toks@[i as int]@, pviews(vars@))));
            i = i + 1;
        }
        assert(crate::text::views(toks@).take(i as int) == tokens(legacy@));
    }
    let ghost g0 = sviews(game@);
    flatten_args(&manifest.arguments.game, ctx, &vars, &mut game);
    let mut gextra = clone_strings(&inputs.game_args_extra);
    game.append(&mut gextra);
    assert(sviews(game@) == game_all(*inputs, pviews(vars@)));
    Ok(
        LaunchPlan {
            java_path: inputs.java.path.clone(),
            jvm_args,
            main_class: manifest.main_class.clone(),
            game_args: game,
            working_dir: inputs.paths.game_dir.clone(),
        },
    )
}


// ───────────────────────────── laws ─────────────────────────────

/// No two arguments of `s` share a de-duplication class, class 0 aside.
pub open spec fn classes_distinct(s: Seq<Seq<char>>) -> bool {
    forall|i: int, k: int|
        0 <= i < k < s.len() ==> arg_class(#[trigger] s[k]).0 == 0 || arg_class(#[trigger] s[i])
            != arg_class(s[k])
}

proof fn lemma_dedupe_subset(a: Seq<Seq<char>>)
    ensures
        forall|i: int| 0 <= i < dedupe_spec(a).len() ==> a.contains(#[trigger] dedupe_spec(a)[i]),
    decreases a.len(),
{
    if a.len() > 0 {
        let prev = dedupe_spec(a.drop_last());
        lemma_dedupe_subset(a.drop_last());
        assert forall|i: int| 0 <= i < dedupe_spec(a).len() implies a.contains(#[trigger] dedupe_spec(a)[i]) by {
            if i < prev.len() {
                assert(dedupe_spec(a)[i] == prev[i]);
                let j = choose|j: int| 0 <= j < a.drop_last().len() && a.drop_last()[j] == prev[i];
                assert(a[j] == prev[i]);
            } else {
                assert(dedupe_spec(a)[i] == a.last());
                assert(a[a.len() - 1] == a.last());
            }
        }
    }
}

proof fn lemma_dedupe_distinct(a: Seq<Seq<char>>)
    ensures
        classes_distinct(dedupe_spec(a)),
    decreases a.len(),
{
    if a.len() > 0 {
        let prev = dedupe_spec(a.drop_last());
        lemma_dedupe_distinct(a.drop_last());
        lemma_dedupe_subset(a.drop_last());
        if keep_at(a, a.len() - 1) {
            let d = prev.push(a.last());
            assert forall|i: int, k: int| 0 <= i < k < d.len() implies arg_class(#[trigger] d[k]).0 == 0
                || arg_class(#[trigger] d[i]) != arg_class(d[k]) by {
                if k < prev.len() {
                    assert(d[k] == prev[k] && d[i] == prev[i]);
                } else {
                    assert(d[k] == a.last());
                    assert(d[i] == prev[i]);
                    assert(a.drop_last().contains(prev[i]));
                    let j = choose|j: int| 0 <= j < a.drop_last().len() && a.drop_last()[j] == prev[i];
                    assert(a[j] == prev[i]);
                }
            }
        }
    }
}

proof fn lemma_dedupe_fixed(s: Seq<Seq<char>>)
    requires
        classes_distinct(s),
    ensures
        dedupe_spec(s) == s,
    decreases s.len(),
{
    if s.len() > 0 {
        assert(classes_distinct(s.drop_last())) by {
            assert forall|i: int, k: int| 0 <= i < k < s.drop_last().len() implies arg_class(
                #[trigger] s.drop_last()[k],
            ).0 == 0 || arg_class(#[trigger] s.drop_last()[i]) != arg_class(s.drop_last()[k]) by {
                assert(s.drop_last()[k] == s[k] && s.drop_last()[i] == s[i]);
            }
        }
        lemma_dedupe_fixed(s.drop_last());
        assert(keep_at(s, s.len() - 1)) by {
            if arg_class(s[s.len() - 1]).0 != 0 {
                assert forall|j: int| 0 <= j < s.len() - 1 implies arg_class(#[trigger] s[j]) != arg_class(
                    s[s.len() - 1],
                ) by {
                    assert(arg_class(s[s.len() - 1]).0 == 0 || arg_class(s[j]) != arg_class(s[s.len() - 1]));
                }
            }
        }
        assert(s.drop_last().push(s.last()) == s);
    }
}

/// De-duplicating JVM arguments twice gives what de-duplicating once gives.
pub proof fn law_dedupe_idempotent(args: Seq<Seq<char>>)
    ensures
        dedupe_spec(dedupe_spec(args)) == dedupe_spec(args),
{
    lemma_dedupe_distinct(args);
    lemma_dedupe_fixed(dedupe_spec(args));
}

/// Text that contains no `${` is left unchanged by substitution, whatever
/// the variables.
pub proof fn law_substitute_plain(s: Seq<char>, vars: Seq<(Seq<char>, Seq<char>)>)
    requires
        !contains_seq(s, "${"@),
    ensures
        subst_spec(s, vars) == s,
    decreases vars.len(),
{
    if vars.len() > 0 {
        law_substitute_plain(s, vars.drop_last());
        let p = placeholder(vars.last().0);
        assert(!contains_seq(s, p)) by {
            reveal_strlit("${");
            reveal_strlit("}");
            if contains_seq(s, p) {
                let i = choose|i: int| crate::text::occurs_at(s, p, i);
                assert(s.subrange(i, i + 2) == p.subrange(0, 2));
                assert(p.subrange(0, 2) == "${"@);
                assert(crate::text::occurs_at(s, "${"@, i));
            }
        }
        crate::text::lemma_replace_absent(s, p, vars.last().1);
    }
}


/// Some argument of `s` has de-duplication class `c`.
pub open spec fn has_class(s: Seq<Seq<char>>, c: (int, Seq<char>)) -> bool {
    exists|i: int| 0 <= i < s.len() && arg_class(#[trigger] s[i]) == c
}

/// Exactly one argument of `s` has de-duplication class `c`.
pub open spec fn one_of_class(s: Seq<Seq<char>>, c: (int, Seq<char>)) -> bool {
    &&& has_class(s, c)
    &&& forall|i: int, k: int|
        0 <= i < s.len() && 0 <= k < s.len() && arg_class(#[trigger] s[i]) == c && arg_class(#[trigger] s[k]) == c
            ==> i == k
}

proof fn lemma_not_prefix_at(p: Seq<char>, s: Seq<char>, k: int)
    requires
        0 <= k < p.len(),
        k < s.len(),
        p[k] != s[k],
    ensures
        !is_prefix(p, s),
{
    if is_prefix(p, s) {
        assert(s.take(p.len() as int)[k] == s[k]);
    }
}

proof fn lemma_dedupe_prefix(s: Seq<Seq<char>>, m: int)
    requires
        0 <= m <= s.len(),
    ensures
        dedupe_spec(s.take(m)).len() <= dedupe_spec(s).len(),
        dedupe_spec(s).take(dedupe_spec(s.take(m)).len() as int) == dedupe_spec(s.take(m)),
    decreases s.len(),
{
    if m < s.len() {
        lemma_dedupe_prefix(s.drop_last(), m);
        assert(s.drop_last().take(m) == s.take(m));
        let prev = dedupe_spec(s.drop_last());
        let n = dedupe_spec(s.take(m)).len() as int;
        assert(dedupe_spec(s).take(n) == prev.take(n));
    } else {
        assert(s.take(m) == s);
    }
}

proof fn lemma_dedupe_keeps(s: Seq<Seq<char>>, i: int)
    requires
        0 <= i < s.len(),
        keep_at(s, i),
    ensures
        dedupe_spec(s).contains(s[i]),
    decreases s.len(),
{
    let prev = dedupe_spec(s.drop_last());
    if i == s.len() - 1 {
        assert(dedupe_spec(s) == prev.push(s[i]));
        assert(dedupe_spec(s)[prev.len() as int] == s[i]);
    } else {
        let t = s.drop_last();
        assert(keep_at(t, i)) by {
            assert forall|j: int| 0 <= j < i implies t[j] == s[j] by {}
        }
        lemma_dedupe_keeps(t, i);
        let k = choose|k: int| 0 <= k < prev.len() && prev[k] == s[i];
        assert(dedupe_spec(s)[k] == prev[k]);
    }
}

proof fn lemma_dedupe_has_class(s: Seq<Seq<char>>, c: (int, Seq<char>))
    requires
        c.0 != 0,
        has_class(s, c),
    ensures
        has_class(dedupe_spec(s), c),
    decreases s.len(),
{
    let t = s.drop_last();
    let prev = dedupe_spec(t);
    if has_class(t, c) {
        lemma_dedupe_has_class(t, c);
        let k = choose|k: int| 0 <= k < prev.len() && arg_class(#[trigger] prev[k]) == c;
        assert(dedupe_spec(s)[k] == prev[k]);
    } else {
        let i = choose|i: int| 0 <= i < s.len() && arg_class(#[trigger] s[i]) == c;
        if i < s.len() - 1 {
            assert(t[i] == s[i]);
        }
        assert(i == s.len() - 1);
        assert(keep_at(s, i)) by {
            assert forall|j: int| 0 <= j < i implies arg_class(#[trigger] s[j]) != arg_class(s[i]) by {
                assert(t[j] == s[j]);
            }
        }
        assert(dedupe_spec(s) == prev.push(s[i]));
        assert(dedupe_spec(s)[prev.len() as int] == s[i]);
    }
}

proof fn lemma_dedupe_one_of_class(s: Seq<Seq<char>>, c: (int, Seq<char>))
    requires
        c.0 != 0,
        has_class(s, c),
    ensures
        one_of_class(dedupe_spec(s), c),
{
    lemma_dedupe_has_class(s, c);
    lemma_dedupe_distinct(s);
    let r = dedupe_spec(s);
    assert forall|i: int, k: int|
        0 <= i < r.len() && 0 <= k < r.len() && arg_class(#[trigger] r[i]) == c && arg_class(#[trigger] r[k]) == c
        implies i == k by {
        if i < k {
            assert(arg_class(r[k]).0 == 0 || arg_class(r[i]) != arg_class(r[k]));
        } else if k < i {
            assert(arg_class(r[i]).0 == 0 || arg_class(r[k]) != arg_class(r[i]));
        }
    }
}

proof fn lemma_without_props(d: Seq<Seq<char>>, e: Seq<Seq<char>>)
    ensures
        forall|i: int| 0 <= i < without_overridden(d, e).len() ==> !overridden(#[trigger] without_overridden(d, e)[i], e),
        forall|i: int| 0 <= i < d.len() && !overridden(#[trigger] d[i], e) ==> without_overridden(d, e).contains(d[i]),
    decreases d.len(),
{
    if d.len() > 0 {
        let t = d.drop_last();
        let p = without_overridden(t, e);
        lemma_without_props(t, e);
        let w = without_overridden(d, e);
        assert forall|i: int| 0 <= i < w.len() implies !overridden(#[trigger] w[i], e) by {
            if i < p.len() {
                assert(w[i] == p[i]);
            }
        }
        assert forall|i: int| 0 <= i < d.len() && !overridden(#[trigger] d[i], e) implies w.contains(d[i]) by {
            if i < d.len() - 1 {
                assert(t[i] == d[i]);
                let k = choose|k: int| 0 <= k < p.len() && p[k] == t[i];
                assert(w[k] == p[k]);
            } else {
                assert(w[p.len() as int] == d[i]);
            }
        }
    }
}

proof fn lemma_without_prefix(d: Seq<Seq<char>>, e: Seq<Seq<char>>, m: int)
    requires
        0 <= m <= d.len(),
    ensures
        without_overridden(d.take(m), e).len() <= without_overridden(d, e).len(),
        without_overridden(d, e).take(without_overridden(d.take(m), e).len() as int) == without_overridden(d.take(m), e),
    decreases d.len(),
{
    if m < d.len() {
        lemma_without_prefix(d.drop_last(), e, m);
        assert(d.drop_last().take(m) == d.take(m));
        let prev = without_overridden(d.drop_last(), e);
        let n = without_overridden(d.take(m), e).len() as int;
        assert(without_overridden(d, e).take(n) == prev.take(n));
    } else {
        assert(d.take(m) == d);
    }
}

/// A class that the launcher's own arguments hold is held by the arguments
/// of a launch, whether or not the user's extras override it.
proof fn lemma_all_has_class(d: Seq<Seq<char>>, e: Seq<Seq<char>>, c: (int, Seq<char>))
    requires
        1 <= c.0 <= 3,
        has_class(d, c),
    ensures
        has_class(without_overridden(d, e) + e, c),
{
    let w = without_overridden(d, e);
    let a = w + e;
    if has_class(e, c) {
        let j = choose|j: int| 0 <= j < e.len() && arg_class(#[trigger] e[j]) == c;
        assert(a[w.len() + j] == e[j]);
    } else {
        let i = choose|i: int| 0 <= i < d.len() && arg_class(#[trigger] d[i]) == c;
        assert(!overridden(d[i], e));
        lemma_without_props(d, e);
        let k = choose|k: int| 0 <= k < w.len() && w[k] == d[i];
        assert(a[k] == w[k]);
    }
}

proof fn lemma_gc_flag_class(a: Seq<char>)
    requires
        is_gc_flag(a),
    ensures
        arg_class(a) == (2int, Seq::<char>::empty()),
{
    reveal_strlit("-XX:+Use");
    reveal_strlit("--tweakClass");
    reveal_strlit("-Xmx");
    reveal_strlit("-Xms");
    reveal_strlit("-Xss");
    assert(a.take(8)[1] == a[1] && a.take(8)[2] == a[2]);
    lemma_not_prefix_at("--tweakClass"@, a, 1);
    lemma_not_prefix_at("-Xmx"@, a, 2);
    lemma_not_prefix_at("-Xms"@, a, 2);
    lemma_not_prefix_at("-Xss"@, a, 2);
}

/// The class of the log4j lookup fix: the `-D` property
/// `log4j2.formatMsgNoLookups`.
proof fn lemma_log4j_class()
    ensures
        arg_class("-Dlog4j2.formatMsgNoLookups=true"@) == (3int, "log4j2.formatMsgNoLookups"@),
{
    let a = "-Dlog4j2.formatMsgNoLookups=true"@;
    reveal_strlit("-Dlog4j2.formatMsgNoLookups=true");
    reveal_strlit("log4j2.formatMsgNoLookups");
    reveal_strlit("-XX:+Use");
    reveal_strlit("--tweakClass");
    reveal_strlit("-Xmx");
    reveal_strlit("-Xms");
    reveal_strlit("-Xss");
    reveal_strlit("-D");
    lemma_not_prefix_at("--tweakClass"@, a, 1);
    lemma_not_prefix_at("-Xmx"@, a, 1);
    lemma_not_prefix_at("-Xms"@, a, 1);
    lemma_not_prefix_at("-Xss"@, a, 1);
    lemma_not_prefix_at("-XX:+Use"@, a, 1);
    assert(a.take(2) =~= "-D"@);
    let rest = a.skip(2);
    crate::text::lemma_find_char_is(rest, '=', 25);
    assert(rest.take(25) =~= "log4j2.formatMsgNoLookups"@);
}

proof fn lemma_heap_classes(min_mb: u32, max_mb: u32)
    ensures
        arg_class("-Xms"@ + dec_string(min_mb as nat) + "M"@) == (1int, "-Xms"@),
        arg_class("-Xmx"@ + dec_string(max_mb as nat) + "M"@) == (1int, "-Xmx"@),
{
    reveal_strlit("--tweakClass");
    reveal_strlit("-Xmx");
    reveal_strlit("-Xms");
    let a = "-Xms"@ + dec_string(min_mb as nat) + "M"@;
    let b = "-Xmx"@ + dec_string(max_mb as nat) + "M"@;
    lemma_not_prefix_at("--tweakClass"@, a, 1);
    lemma_not_prefix_at("-Xmx"@, a, 3);
    assert(a.take(4) =~= "-Xms"@);
    lemma_not_prefix_at("--tweakClass"@, b, 1);
    assert(b.take(4) =~= "-Xmx"@);
}

/// The JVM arguments of a launch, as [`build_plan`] returns them (for
/// `vars` the launch's variables): de-duplicating them again changes
/// nothing; exactly one chooses a garbage collector and exactly one sets
/// `log4j2.formatMsgNoLookups`; and unless the user's extras set the heap
/// bounds themselves, the first two are `-Xms<min>M` and `-Xmx<max>M`.
pub proof fn law_launch_jvm_args(inputs: LaunchInputs, vars: Seq<(Seq<char>, Seq<char>)>)
    ensures
        ({
            let r = dedupe_spec(jvm_all(inputs, vars));
            let e = sviews(inputs.jvm_args_extra@);
            &&& dedupe_spec(r) == r
            &&& one_of_class(r, (2int, Seq::<char>::empty()))
            &&& one_of_class(r, (3int, "log4j2.formatMsgNoLookups"@))
            &&& !has_class(e, (1int, "-Xms"@)) && !has_class(e, (1int, "-Xmx"@)) ==> {
                &&& r.len() >= 2
                &&& r[0] == "-Xms"@ + dec_string(inputs.memory.min_mb as nat) + "M"@
                &&& r[1] == "-Xmx"@ + dec_string(inputs.memory.max_mb as nat) + "M"@
            }
        }),
{
    let d = jvm_defaults(inputs, vars);
    let e = sviews(inputs.jvm_args_extra@);
    let w = without_overridden(d, e);
    let s = w + e;
    let r = dedupe_spec(s);
    law_dedupe_idempotent(s);
    let base = jvm_base(inputs, vars);
    // A GC choice is among the launcher's arguments.
    assert(has_class(d, (2int, Seq::<char>::empty()))) by {
        reveal_strlit("-XX:+Use");
        reveal_strlit("GC");
        reveal_strlit("-XX:+UseZGC");
        reveal_strlit("-XX:+UseG1GC");
        if has_gc_flag(base) {
            let j = choose|j: int| 0 <= j < base.len() && is_gc_flag(#[trigger] base[j]);
            lemma_gc_flag_class(base[j]);
            assert(d[j] == base[j]);
        } else {
            let g = d[base.len() as int];
            assert(g == gc_injection(base, inputs.java.version_major)[0]);
            assert(g.take(8) =~= "-XX:+Use"@);
            assert(g.skip(g.len() - 2) =~= "GC"@);
            lemma_gc_flag_class(g);
        }
    }
    lemma_all_has_class(d, e, (2int, Seq::<char>::empty()));
    lemma_dedupe_one_of_class(s, (2int, Seq::<char>::empty()));
    // The log4j fix is among the launcher's arguments.
    assert(has_class(d, (3int, "log4j2.formatMsgNoLookups"@))) by {
        lemma_log4j_class();
        assert(d[base.len() - 1] == base[base.len() - 1]);
    }
    lemma_all_has_class(d, e, (3int, "log4j2.formatMsgNoLookups"@));
    lemma_dedupe_one_of_class(s, (3int, "log4j2.formatMsgNoLookups"@));
    // The heap bounds lead unless the user sets them.
    if !has_class(e, (1int, "-Xms"@)) && !has_class(e, (1int, "-Xmx"@)) {
        lemma_heap_classes(inputs.memory.min_mb, inputs.memory.max_mb);
        reveal_strlit("-Xms");
        reveal_strlit("-Xmx");
        assert(d[0] == base[0] && d[1] == base[1]);
        assert(!overridden(d[0], e));
        assert(!overridden(d[1], e));
        lemma_without_prefix(d, e, 2);
        let d2 = d.take(2);
        assert(d2.drop_last() == d.take(1));
        assert(d.take(1).drop_last() == Seq::<Seq<char>>::empty());
        assert(without_overridden(Seq::<Seq<char>>::empty(), e) == Seq::<Seq<char>>::empty());
        assert(d.take(1).last() == d[0]);
        assert(without_overridden(d.take(1), e) == Seq::<Seq<char>>::empty().push(d[0]));
        assert(Seq::<Seq<char>>::empty().push(d[0]) == seq![d[0]]);
        assert(d2.last() == d[1]);
        assert(without_overridden(d2, e) == seq![d[0]].push(d[1]));
        assert(without_overridden(d2, e) == seq![d[0], d[1]]);
        assert(w.take(2) == d2);
        assert(s.take(2) == d2);
        lemma_dedupe_prefix(s, 2);
        assert(d2.drop_last() == seq![d[0]]);
        assert(keep_at(d2, 1)) by {
            assert(d2[0] == d[0] && d2[1] == d[1]);
            assert("-Xms"@[3] != "-Xmx"@[3]);
            assert(arg_class(d2[0]) != arg_class(d2[1]));
        }
        assert(dedupe_spec(seq![d[0]]) == seq![d[0]]) by {
            let one = seq![d[0]];
            assert(one.drop_last() == Seq::<Seq<char>>::empty());
            assert(dedupe_spec(Seq::<Seq<char>>::empty()) == Seq::<Seq<char>>::empty());
            assert(keep_at(one, 0));
            assert(one.last() == d[0]);
            assert(Seq::<Seq<char>>::empty().push(d[0]) == one);
        }
        assert(dedupe_spec(d2) == seq![d[0], d[1]]);
        assert(r.take(2) == d2);
        assert(r[0] == r.take(2)[0]);
        assert(r[1] == r.take(2)[1]);
    }
}

/// A heap setting, GC choice or `-D` property that the user's JVM extras
/// set prevails in a launch's JVM arguments: the first extra of its class
/// is kept, and it is the only argument of that class.
pub proof fn law_user_jvm_flag_wins(inputs: LaunchInputs, vars: Seq<(Seq<char>, Seq<char>)>, j: int)
    requires
        0 <= j < inputs.jvm_args_extra@.len(),
        1 <= arg_class(inputs.jvm_args_extra@[j]@).0 <= 3,
        forall|i: int| 0 <= i < j ==> arg_class(#[trigger] inputs.jvm_args_extra@[i]@) != arg_class(inputs.jvm_args_extra@[j]@),
    ensures
        ({
            let r = dedupe_spec(jvm_all(inputs, vars));
            let x = inputs.jvm_args_extra@[j]@;
            &&& r.contains(x)
            &&& forall|i: int| 0 <= i < r.len() && arg_class(#[trigger] r[i]) == arg_class(x) ==> r[i] == x
        }),
{
    let d = jvm_defaults(inputs, vars);
    let e = sviews(inputs.jvm_args_extra@);
    let w = without_overridden(d, e);
    let s = w + e;
    let x = e[j];
    let c = arg_class(x);
    lemma_without_props(d, e);
    let p = w.len() + j;
    assert(s[p] == x);
    assert(keep_at(s, p)) by {
        assert forall|q: int| 0 <= q < p implies arg_class(#[trigger] s[q]) != c by {
            if q < w.len() {
                assert(s[q] == w[q]);
                assert(!overridden(w[q], e));
                if arg_class(w[q]) == c {
                    assert(arg_class(e[j]) == arg_class(w[q]));
                }
            } else {
                assert(s[q] == e[q - w.len()]);
                assert(e[q - w.len()] == inputs.jvm_args_extra@[q - w.len()]@);
            }
        }
    }
    lemma_dedupe_keeps(s, p);
    lemma_dedupe_distinct(s);
    let r = dedupe_spec(s);
    let k = choose|k: int| 0 <= k < r.len() && r[k] == x;
    assert forall|i: int| 0 <= i < r.len() && arg_class(#[trigger] r[i]) == c implies r[i] == x by {
        if i < k {
            assert(arg_class(r[k]).0 == 0 || arg_class(r[i]) != arg_class(r[k]));
        } else if k < i {
            assert(arg_class(r[i]).0 == 0 || arg_class(r[k]) != arg_class(r[i]));
        }
    }
}


/// The launch variables name each directory of the install: the natives
/// directory is the version's `natives` directory, where the install plan's
/// natives are extracted (`InstallPaths::natives_dir`); the game, assets
/// and library directories are the instance's and the shared ones; the
/// class path is the one given. No other variable has these names.
pub proof fn law_launch_directories(
    manifest: ResolvedManifest,
    paths: InstallPaths,
    account: AccountInfo,
    os: OsName,
    classpath: Seq<char>,
)
    ensures
        ({
            let v = placeholder_pairs(manifest, paths, account, os, classpath);
            &&& exists|i: int| 0 <= i < v.len() && (#[trigger] v[i]).0 == "natives_directory"@
            &&& forall|i: int| 0 <= i < v.len() && (#[trigger] v[i]).0 == "natives_directory"@ ==> v[i].1
                == path_join(paths.version_dir@, "natives"@)
            &&& forall|i: int| 0 <= i < v.len() && (#[trigger] v[i]).0 == "game_directory"@ ==> v[i].1
                == paths.game_dir@
            &&& forall|i: int| 0 <= i < v.len() && (#[trigger] v[i]).0 == "library_directory"@ ==> v[i].1
                == paths.libraries_dir@
            &&& forall|i: int| 0 <= i < v.len() && (#[trigger] v[i]).0 == "assets_root"@ ==> v[i].1
                == paths.assets_dir@
            &&& forall|i: int| 0 <= i < v.len() && (#[trigger] v[i]).0 == "classpath"@ ==> v[i].1 == classpath
        }),
{
    reveal_strlit("auth_player_name");
    reveal_strlit("auth_uuid");
    reveal_strlit("auth_access_token");
    reveal_strlit("auth_session");
    reveal_strlit("user_type");
    reveal_strlit("user_properties");
    reveal_strlit("auth_player_uuid");
    reveal_strlit("version_name");
    reveal_strlit("version_type");
    reveal_strlit("game_directory");
    reveal_strlit("assets_root");
    reveal_strlit("game_assets");
    reveal_strlit("assets_index_name");
    reveal_strlit("natives_directory");
    reveal_strlit("library_directory");
    reveal_strlit("classpath");
    reveal_strlit("classpath_separator");
    reveal_strlit("launcher_name");
    reveal_strlit("launcher_version");
    reveal_strlit("MC_JAR_NAME");
    reveal_strlit("clientid");
    reveal_strlit("auth_xuid");
    let v = placeholder_pairs(manifest, paths, account, os, classpath);
    assert(v.len() == 22);
    assert(v[13].0 == "natives_directory"@);
    assert forall|i: int| 0 <= i < v.len() implies {
        &&& (#[trigger] v[i]).0 == "natives_directory"@ ==> i == 13
        &&& v[i].0 == "game_directory"@ ==> i == 9
        &&& v[i].0 == "assets_root"@ ==> i == 10
        &&& v[i].0 == "library_directory"@ ==> i == 14
        &&& v[i].0 == "classpath"@ ==> i == 15
    } by {
        if i == 0 {
            assert(v[0].0 == "auth_player_name"@);
            assert(v[0].0.len() != "natives_directory"@.len());
            assert(v[0].0.len() != "game_directory"@.len());
            assert(v[0].0.len() != "assets_root"@.len());
            assert(v[0].0.len() != "library_directory"@.len());
            assert(v[0].0.len() != "classpath"@.len());
        } else if i == 1 {
            assert(v[1].0 == "auth_uuid"@);
            assert(v[1].0.len() != "natives_directory"@.len());
            assert(v[1].0.len() != "game_directory"@.len());
            assert(v[1].0.len() != "assets_root"@.len());
            assert(v[1].0.len() != "library_directory"@.len());
            assert(v[1].0[0] != "classpath"@[0]);
        } else if i == 2 {
            assert(v[2].0 == "auth_access_token"@);
            assert(v[2].0[0] != "natives_directory"@[0]);
            assert(v[2].0.len() != "game_directory"@.len());
            assert(v[2].0.len() != "assets_root"@.len());
            assert(v[2].0[0] != "library_directory"@[0]);
            assert(v[2].0.len() != "classpath"@.len());
        } else if i == 3 {
            assert(v[3].0 == "auth_session"@);
            assert(v[3].0.len() != "natives_directory"@.len());
            assert(v[3].0.len() != "game_directory"@.len());
            assert(v[3].0.len() != "assets_root"@.len());
            assert(v[3].0.len() != "library_directory"@.len());
            assert(v[3].0.len() != "classpath"@.len());
        } else if i == 4 {
            assert(v[4].0 == "user_type"@);
            assert(v[4].0.len() != "natives_directory"@.len());
            assert(v[4].0.len() != "game_directory"@.len());
            assert(v[4].0.len() != "assets_root"@.len());
            assert(v[4].0.len() != "library_directory"@.len());
            assert(v[4].0[0] != "classpath"@[0]);
        } else if i == 5 {
            assert(v[5].0 == "user_properties"@);
            assert(v[5].0.len() != "natives_directory"@.len());
            assert(v[5].0.len() != "game_directory"@.len());
            assert(v[5].0.len() != "assets_root"@.len());
            assert(v[5].0.len() != "library_directory"@.len());
            assert(v[5].0.len() != "classpath"@.len());
        } else if i == 6 {
            assert(v[6].0 == "auth_player_uuid"@);
            assert(v[6].0.len() != "natives_directory"@.len());
            assert(v[6].0.len() != "game_directory"@.len());
            assert(v[6].0.len() != "assets_root"@.len());
            assert(v[6].0.len() != "library_directory"@.len());
            assert(v[6].0.len() != "classpath"@.len());
        } else if i == 7 {
            assert(v[7].0 == "version_name"@);
            assert(v[7].0.len() != "natives_directory"@.len());
            assert(v[7].0.len() != "game_directory"@.len());
            assert(v[7].0.len() != "assets_root"@.len());
            assert(v[7].0.len() != "library_directory"@.len());
            assert(v[7].0.len() != "classpath"@.len());
        } else if i == 8 {
            assert(v[8].0 == "version_type"@);
            assert(v[8].0.len() != "natives_directory"@.len());
            assert(v[8].0.len() != "game_directory"@.len());
            assert(v[8].0.len() != "assets_root"@.len());
            assert(v[8].0.len() != "library_directory"@.len());
            assert(v[8].0.len() != "classpath"@.len());
        } else if i == 9 {
            assert(v[9].0 == "game_directory"@);
            assert(v[9].0.len() != "natives_directory"@.len());
            assert(v[9].0.len() != "assets_root"@.len());
            assert(v[9].0.len() != "library_directory"@.len());
            assert(v[9].0.len() != "classpath"@.len());
        } else if i == 10 {
            assert(v[10].0 == "assets_root"@);
            assert(v[10].0.len() != "natives_directory"@.len());
            assert(v[10].0.len() != "game_directory"@.len());
            assert(v[10].0.len() != "library_directory"@.len());
            assert(v[10].0.len() != "classpath"@.len());
        } else if i == 11 {
            assert(v[11].0 == "game_assets"@);
            assert(v[11].0.len() != "natives_directory"@.len());
            assert(v[11].0.len() != "game_directory"@.len());
            assert(v[11].0[0] != "assets_root"@[0]);
            assert(v[11].0.len() != "library_directory"@.len());
            assert(v[11].0.len() != "classpath"@.len());
        } else if i == 12 {
            assert(v[12].0 == "assets_index_name"@);
            assert(v[12].0[0] != "natives_directory"@[0]);
            assert(v[12].0.len() != "game_directory"@.len());
            assert(v[12].0.len() != "assets_root"@.len());
            assert(v[12].0[0] != "library_directory"@[0]);
            assert(v[12].0.len() != "classpath"@.len());
        } else if i == 13 {
            assert(v[13].0 == "natives_directory"@);
            assert(v[13].0.len() != "game_directory"@.len());
            assert(v[13].0.len() != "assets_root"@.len());
            assert(v[13].0[0] != "library_directory"@[0]);
            assert(v[13].0.len() != "classpath"@.len());
        } else if i == 14 {
            assert(v[14].0 == "library_directory"@);
            assert(v[14].0[0] != "natives_directory"@[0]);
            assert(v[14].0.len() != "game_directory"@.len());
            assert(v[14].0.len() != "assets_root"@.len());
            assert(v[14].0.len() != "classpath"@.len());
        } else if i == 15 {
            assert(v[15].0 == "classpath"@);
            assert(v[15].0.len() != "natives_directory"@.len());
            assert(v[15].0.len() != "game_directory"@.len());
            assert(v[15].0.len() != "assets_root"@.len());
            assert(v[15].0.len() != "library_directory"@.len());
        } else if i == 16 {
            assert(v[16].0 == "classpath_separator"@);
            assert(v[16].0.len() != "natives_directory"@.len());
            assert(v[16].0.len() != "game_directory"@.len());
            assert(v[16].0.len() != "assets_root"@.len());
            assert(v[16].0.len() != "library_directory"@.len());
            assert(v[16].0.len() != "classpath"@.len());
        } else if i == 17 {
            assert(v[17].0 == "launcher_name"@);
            assert(v[17].0.len() != "natives_directory"@.len());
            assert(v[17].0.len() != "game_directory"@.len());
            assert(v[17].0.len() != "assets_root"@.len());
            assert(v[17].0.len() != "library_directory"@.len());
            assert(v[17].0.len() != "classpath"@.len());
        } else if i == 18 {
            assert(v[18].0 == "launcher_version"@);
            assert(v[18].0.len() != "natives_directory"@.len());
            assert(v[18].0.len() != "game_directory"@.len());
            assert(v[18].0.len() != "assets_root"@.len());
            assert(v[18].0.len() != "library_directory"@.len());
            assert(v[18].0.len() != "classpath"@.len());
        } else if i == 19 {
            assert(v[19].0 == "MC_JAR_NAME"@);
            assert(v[19].0.len() != "natives_directory"@.len());
            assert(v[19].0.len() != "game_directory"@.len());
            assert(v[19].0[0] != "assets_root"@[0]);
            assert(v[19].0.len() != "library_directory"@.len());
            assert(v[19].0.len() != "classpath"@.len());
        } else if i == 20 {
            assert(v[20].0 == "clientid"@);
            assert(v[20].0.len() != "natives_directory"@.len());
            assert(v[20].0.len() != "game_directory"@.len());
            assert(v[20].0.len() != "assets_root"@.len());
            assert(v[20].0.len() != "library_directory"@.len());
            assert(v[20].0.len() != "classpath"@.len());
        } else if i == 21 {
            assert(v[21].0 == "auth_xuid"@);
            assert(v[21].0.len() != "natives_directory"@.len());
            assert(v[21].0.len() != "game_directory"@.len());
            assert(v[21].0.len() != "assets_root"@.len());
            assert(v[21].0.len() != "library_directory"@.len());
            assert(v[21].0[0] != "classpath"@[0]);
        }
    }
}


/// The GC flags added to JVM arguments: none when an argument already
/// chooses a collector (`-XX:+Use…GC`); otherwise generational ZGC from
/// Java 21, ZGC for Java 15 to 20, G1 below.
pub proof fn law_gc_choice(args: Seq<Seq<char>>, major: u8)
    ensures
        (exists|j: int| 0 <= j < args.len() && is_prefix("-XX:+Use"@, #[trigger] args[j]) && is_suffix("GC"@, args[j]))
            ==> gc_injection(args, major) == Seq::<Seq<char>>::empty(),
        !(exists|j: int| 0 <= j < args.len() && is_prefix("-XX:+Use"@, #[trigger] args[j]) && is_suffix("GC"@, args[j])) ==> {
            &&& major >= 21 ==> gc_injection(args, major) == seq!["-XX:+UseZGC"@, "-XX:+ZGenerational"@]
            &&& 15 <= major < 21 ==> gc_injection(args, major) == seq!["-XX:+UseZGC"@]
            &&& major < 15 ==> gc_injection(args, major) == seq!["-XX:+UseG1GC"@]
        },
{
    if exists|j: int| 0 <= j < args.len() && is_prefix("-XX:+Use"@, #[trigger] args[j]) && is_suffix("GC"@, args[j]) {
        let j = choose|j: int| 0 <= j < args.len() && is_prefix("-XX:+Use"@, #[trigger] args[j]) && is_suffix("GC"@, args[j]);
        assert(is_gc_flag(args[j]));
    }
}

/// De-duplication keeps every `--tweakClass` argument.
pub proof fn law_dedupe_keeps_tweak_class(args: Seq<Seq<char>>, i: int)
    requires
        0 <= i < args.len(),
        is_prefix("--tweakClass"@, args[i]),
    ensures
        dedupe_spec(args).contains(args[i]),
{
    assert(arg_class(args[i]).0 == 0);
    lemma_dedupe_keeps(args, i);
}

/// De-duplication keeps the first `-Xmx` setting and no other.
pub proof fn law_dedupe_first_xmx(args: Seq<Seq<char>>, i: int)
    requires
        0 <= i < args.len(),
        is_prefix("-Xmx"@, args[i]),
        forall|j: int| 0 <= j < i ==> !is_prefix("-Xmx"@, #[trigger] args[j]),
    ensures
        dedupe_spec(args).contains(args[i]),
        forall|k: int| 0 <= k < dedupe_spec(args).len() && is_prefix("-Xmx"@, #[trigger] dedupe_spec(args)[k])
            ==> dedupe_spec(args)[k] == args[i],
{
    reveal_strlit("--tweakClass");
    reveal_strlit("-Xmx");
    let c = (1int, "-Xmx"@);
    assert forall|s: Seq<char>| is_prefix("-Xmx"@, s) implies arg_class(s) == c by {
        assert(s.take(4)[1] == s[1]);
        lemma_not_prefix_at("--tweakClass"@, s, 1);
    }
    assert forall|s: Seq<char>| arg_class(s) == c implies is_prefix("-Xmx"@, s) by {
        if !is_prefix("-Xmx"@, s) {
            assert("-Xmx"@ != "-Xms"@ && "-Xmx"@ != "-Xss"@) by {
                reveal_strlit("-Xms");
                reveal_strlit("-Xss");
                assert("-Xmx"@[2] != "-Xms"@[2]);
                assert("-Xmx"@[2] != "-Xss"@[2]);
            }
        }
    }
    assert(keep_at(args, i)) by {
        assert forall|j: int| 0 <= j < i implies arg_class(#[trigger] args[j]) != arg_class(args[i]) by {
            assert(!is_prefix("-Xmx"@, args[j]));
        }
    }
    lemma_dedupe_keeps(args, i);
    lemma_dedupe_distinct(args);
    let r = dedupe_spec(args);
    let k0 = choose|k: int| 0 <= k < r.len() && r[k] == args[i];
    assert forall|k: int| 0 <= k < r.len() && is_prefix("-Xmx"@, #[trigger] r[k]) implies r[k] == args[i] by {
        if k < k0 {
            assert(arg_class(r[k0]).0 == 0 || arg_class(r[k]) != arg_class(r[k0]));
        } else if k0 < k {
            assert(arg_class(r[k]).0 == 0 || arg_class(r[k0]) != arg_class(r[k]));
        }
    }
}

} // verus!
