//! What a processor run needs: its class path, its resolved arguments, the
//! main class named by its jar's manifest, and its command line.

use vstd::prelude::*;
use crate::errors::Error;
use crate::launch::args::cp_sep;
use crate::loader::forge::profile::{
    maven_coord_to_path, maven_path, resolve_spec, resolve_token, DataEntry, Processor,
    RESOLVE_DEPTH,
};
use crate::model::arguments::OsName;
use crate::text::{
    from_chars, is_prefix, join_seq, join_strings, lines_spec, split_lines, starts_with, str_eq,
    sub_chars, sviews, to_chars, trim, trim_chars, views,
};

verus! {

// ───────────────────────────── specs ─────────────────────────────

/// The entries of `s` without repeats, each where it first occurs.
pub open spec fn distinct_first(s: Seq<Seq<char>>) -> Seq<Seq<char>>
    decreases s.len(),
{
    if s.len() == 0 {
        Seq::empty()
    } else {
        let r = distinct_first(s.drop_last());
        if r.contains(s.last()) {
            r
        } else {
            r.push(s.last())
        }
    }
}

/// The Maven coordinates of a processor's class path: its jar first.
pub open spec fn processor_coords(p: Processor) -> Seq<Seq<char>> {
    seq![p.jar@] + sviews(p.classpath@)
}

/// The paths of `coords` under `root`.
pub open spec fn coord_paths(coords: Seq<Seq<char>>, root: Seq<char>) -> Seq<Seq<char>> {
    coords.map_values(|c: Seq<char>| maven_path(root, c))
}

/// A processor's class path: the paths of its jar and class path, each once.
pub open spec fn processor_classpath(p: Processor, root: Seq<char>) -> Seq<Seq<char>> {
    distinct_first(coord_paths(processor_coords(p), root))
}

/// `r` with `p` in front of its success value.
pub open spec fn prepend(p: Seq<Seq<char>>, r: Result<Seq<Seq<char>>, Seq<char>>) -> Result<
    Seq<Seq<char>>,
    Seq<char>,
> {
    match r {
        Ok(x) => Ok(p + x),
        Err(m) => Err(m),
    }
}

/// Every argument resolved in order; the first failure is the outcome.
pub open spec fn resolve_all(
    args: Seq<Seq<char>>,
    data: Seq<(String, DataEntry)>,
    root: Seq<char>,
) -> Result<Seq<Seq<char>>, Seq<char>>
    decreases args.len(),
{
    if args.len() == 0 {
        Ok(Seq::empty())
    } else {
        match resolve_spec(args[0], data, root, RESOLVE_DEPTH as nat) {
            Err(m) => Err(m),
            Ok(v) => prepend(seq![v], resolve_all(args.drop_first(), data, root)),
        }
    }
}

/// Manifest lines with continuation lines (those starting with a space)
/// appended, without that space, to the line before them.
pub open spec fn fold_manifest_lines(ls: Seq<Seq<char>>) -> Seq<Seq<char>>
    decreases ls.len(),
{
    if ls.len() == 0 {
        Seq::empty()
    } else {
        let j = fold_manifest_lines(ls.drop_last());
        let raw = ls.last();
        if raw.len() > 0 && raw[0] == ' ' && j.len() > 0 {
            j.update(j.len() - 1, j.last() + raw.skip(1))
        } else {
            j.push(raw)
        }
    }
}

/// The trimmed value of the first `Main-Class:` line.
pub open spec fn main_class_in(ls: Seq<Seq<char>>) -> Option<Seq<char>>
    decreases ls.len(),
{
    if ls.len() == 0 {
        None
    } else if is_prefix("Main-Class:"@, ls[0]) {
        Some(trim(ls[0].skip("Main-Class:"@.len() as int)))
    } else {
        main_class_in(ls.drop_first())
    }
}

/// The `Main-Class` of a `META-INF/MANIFEST.MF` text.
pub open spec fn manifest_main_class(content: Seq<char>) -> Option<Seq<char>> {
    main_class_in(fold_manifest_lines(lines_spec(content)))
}

/// The command line that runs a processor after the `java` executable.
pub open spec fn processor_command_spec(
    classpath: Seq<Seq<char>>,
    os: OsName,
    main_class: Seq<char>,
    args: Seq<Seq<char>>,
) -> Seq<Seq<char>> {
    seq!["-cp"@, join_seq(classpath, cp_sep(os)), main_class] + args
}

// ───────────────────────────── exec ─────────────────────────────

/// `s` is one of the strings of `v`.
pub fn contains_string(v: &Vec<String>, s: &str) -> (b: bool)
    ensures
        b == sviews(v@).contains(s@),
{
    let mut i: usize = 0;
    while i < v.len()
        invariant
            i <= v@.len(),
            forall|j: int| 0 <= j < i ==> (#[trigger] v@[j])@ != s@,
        decreases v@.len() - i,
    {
        if str_eq(v[i].as_str(), s) {
            assert(sviews(v@)[i as int] == s@);
            return true;
        }
        i = i + 1;
    }
    assert forall|j: int| 0 <= j < sviews(v@).len() implies sviews(v@)[j] != s@ by {
        assert(sviews(v@)[j] == v@[j]@);
    }
    false
}

/// The processor's class path: the paths of its jar and of its class-path
/// coordinates under `libraries_root`, each path once, in first order.
pub fn build_processor_classpath(processor: &Processor, libraries_root: &str) -> (r: Vec<String>)
    ensures
        sviews(r@) == processor_classpath(*processor, libraries_root@),
{
    let ghost coords = processor_coords(*processor);
    let ghost all = coord_paths(coords, libraries_root@);
    let mut paths: Vec<String> = Vec::new();
    let n = processor.classpath.len();
    let first = maven_coord_to_path(libraries_root, processor.jar.as_str());
    paths.push(first);
    assert(all.take(1) == seq![first@]);
    assert(distinct_first(all.take(1)) == seq![first@]) by {
        assert(all.take(1).drop_last() == Seq::<Seq<char>>::empty());
        assert(distinct_first(Seq::<Seq<char>>::empty()) == Seq::<Seq<char>>::empty());
        assert(!Seq::<Seq<char>>::empty().contains(first@));
        assert(Seq::<Seq<char>>::empty().push(first@) == seq![first@]);
    }
    assert(sviews(paths@) == seq![first@]);
    let mut i: usize = 0;
    while i < n
        invariant
            i <= n,
            n == processor.classpath@.len(),
            coords == processor_coords(*processor),
            all == coord_paths(coords, libraries_root@),
            all.len() == n + 1,
            sviews(paths@) == distinct_first(all.take(i + 1)),
        decreases n - i,
    {
        let coord: &str = processor.classpath[i].as_str();
        assert(coord@ == coords[i + 1]) by {
            assert(sviews(processor.classpath@)[i as int] == processor.classpath@[i as int]@);
        }
        let p = maven_coord_to_path(libraries_root, coord);
        assert(all.take(i + 2).drop_last() == all.take(i + 1));
        assert(all.take(i + 2).last() == p@);
        if !contains_string(&paths, p.as_str()) {
            let ghost before = sviews(paths@);
            paths.push(p);
            assert(sviews(paths@) == before.push(p@));
        }
        i = i + 1;
    }
    assert(all.take(n + 1) == all);
    paths
}

/// Every argument of the processor resolved (see [`resolve_token`]); the
/// first failing one is the error.
pub fn resolve_processor_args(
    processor: &Processor,
    data: &Vec<(String, DataEntry)>,
    libraries_root: &str,
) -> (r: Result<Vec<String>, Error>)
    requires
        crate::text::keys_distinct(data@),
    ensures
        match r {
            Ok(v) => resolve_all(sviews(processor.args@), data@, libraries_root@) == Ok::<
                Seq<Seq<char>>,
                Seq<char>,
            >(sviews(v@)),
            Err(e) => resolve_all(sviews(processor.args@), data@, libraries_root@) is Err && (e matches Error::Config(m)
                && m@ == resolve_all(sviews(processor.args@), data@, libraries_root@)->Err_0),
        },
{
    let ghost a = sviews(processor.args@);
    let mut out: Vec<String> = Vec::new();
    let mut i: usize = 0;
    assert(a.skip(0) == a);
    assert(sviews(out@) == Seq::<Seq<char>>::empty());
    assert(Seq::<Seq<char>>::empty() + a == a);
    while i < processor.args.len()
        invariant
            i <= processor.args@.len(),
            a == sviews(processor.args@),
            crate::text::keys_distinct(data@),
            resolve_all(a, data@, libraries_root@) == prepend(
                sviews(out@),
                resolve_all(a.skip(i as int), data@, libraries_root@),
            ),
        decreases processor.args@.len() - i,
    {
        let ghost t = a.skip(i as int);
        assert(t[0] == processor.args@[i as int]@);
        assert(t.drop_first() == a.skip(i + 1));
        match resolve_token(processor.args[i].as_str(), data, libraries_root) {
            Err(e) => {
                return Err(e);
            },
            Ok(v) => {
                let ghost before = sviews(out@);
                out.push(v);
                assert(sviews(out@) == before.push(v@));
                assert(before + seq![v@] == before.push(v@));
                proof {
                    let rest = resolve_all(a.skip(i + 1), data@, libraries_root@);
                    if rest is Ok {
                        let x = rest->Ok_0;
                        assert(before + (seq![v@] + x) == before.push(v@) + x);
                    }
                }
            },
        }
        i = i + 1;
    }
    assert(a.skip(i as int) == Seq::<Seq<char>>::empty());
    assert(sviews(out@) + Seq::<Seq<char>>::empty() == sviews(out@));
    Ok(out)
}

/// The `Main-Class` of a jar manifest's text: continuation lines are joined
/// first, then the first `Main-Class:` line gives the trimmed value.
pub fn parse_manifest_main_class(content: &str) -> (r: Option<String>)
    ensures
        r matches Some(s) ==> manifest_main_class(content@) == Some(s@),
        r is None ==> manifest_main_class(content@) is None,
{
    let chars = to_chars(content);
    let lines = split_lines(chars.as_slice());
    let ghost ls = views(lines@);
    let mut joined: Vec<Vec<char>> = Vec::new();
    let mut i: usize = 0;
    while i < lines.len()
        invariant
            i <= lines@.len(),
            ls == views(lines@),
            views(joined@) == fold_manifest_lines(ls.take(i as int)),
        decreases lines@.len() - i,
    {
        assert(ls.take(i + 1).drop_last() == ls.take(i as int));
        assert(ls.take(i + 1).last() == lines@[i as int]@);
        let raw = &lines[i];
        if raw.len() > 0 && raw[0] == ' ' && joined.len() > 0 {
            let ghost j0 = views(joined@);
            let mut last = joined.pop().unwrap();
            assert(last@ == j0.last());
            let mut k: usize = 1;
            while k < raw.len()
                invariant
                    1 <= k <= raw@.len(),
                    last@ == j0.last() + raw@.subrange(1, k as int),
                decreases raw@.len() - k,
            {
                last.push(raw[k]);
                k = k + 1;
            }
            assert(raw@.subrange(1, raw@.len() as int) == raw@.skip(1));
            let ghost jpop = views(joined@);
            joined.push(last);
            assert(jpop == j0.drop_last());
            assert(views(joined@) == j0.update(j0.len() - 1, j0.last() + raw@.skip(1)));
        } else {
            let ghost j0 = views(joined@);
            joined.push(sub_chars(raw.as_slice(), 0, raw.len()));
            assert(raw@.subrange(0, raw@.len() as int) == raw@);
            assert(views(joined@) == j0.push(raw@));
        }
        i = i + 1;
    }
    assert(ls.take(lines@.len() as int) == ls);
    let key = to_chars("Main-Class:");
    let ghost js = views(joined@);
    assert(js == fold_manifest_lines(lines_spec(content@)));
    let mut m: usize = 0;
    assert(js.skip(0) == js);
    while m < joined.len()
        invariant
            m <= joined@.len(),
            js == views(joined@),
            js == fold_manifest_lines(lines_spec(content@)),
            key@ == "Main-Class:"@,
            main_class_in(js.skip(m as int)) == main_class_in(js),
        decreases joined@.len() - m,
    {
        assert(js.skip(m as int)[0] == joined@[m as int]@);
        if starts_with(joined[m].as_slice(), key.as_slice()) {
            let rest = sub_chars(joined[m].as_slice(), key.len(), joined[m].len());
            assert(rest@ == joined@[m as int]@.skip("Main-Class:"@.len() as int));
            let v = trim_chars(rest.as_slice());
            assert(main_class_in(js.skip(m as int)) == Some(trim(rest@)));
            let res = from_chars(v.as_slice());
            assert(main_class_in(js) == Some(res@));
            assert(manifest_main_class(content@) == Some(res@));
            return Some(res);
        }
        assert(js.skip(m as int).drop_first() == js.skip(m + 1));
        m = m + 1;
    }
    assert(js.skip(m as int).len() == 0);
    None
}

/// The arguments that follow `java` when running a processor:
/// `-cp <class path> <main class> <args...>`, the class path joined with
/// the separator of `os`, the OS the launcher was built for.
pub fn processor_command(
    classpath: &Vec<String>,
    os: OsName,
    main_class: &str,
    args: &Vec<String>,
) -> (r: Vec<String>)
    ensures
        sviews(r@) == processor_command_spec(sviews(classpath@), os, main_class@, sviews(args@)),
{
    let sep = match os {
        OsName::Windows => ";",
        _ => ":",
    };
    let mut r: Vec<String> = Vec::new();
    r.push("-cp".to_string());
    r.push(join_strings(classpath, sep));
    r.push(main_class.to_string());
    let mut i: usize = 0;
    while i < args.len()
        invariant
            i <= args@.len(),
            sviews(r@) == seq!["-cp"@, join_seq(sviews(classpath@), cp_sep(os)), main_class@]
                + sviews(args@).take(i as int),
        decreases args@.len() - i,
    {
        let ghost before = sviews(r@);
        r.push(args[i].clone());
        assert(sviews(r@) == before.push(args@[i as int]@));
        assert(sviews(args@).take(i + 1) == sviews(args@).take(i as int).push(args@[i as int]@));
        i = i + 1;
    }
    assert(sviews(args@).take(args@.len() as int) == sviews(args@));
    r
}


// ───────────────────────────── laws ─────────────────────────────

proof fn lemma_distinct_first(s: Seq<Seq<char>>)
    ensures
        forall|i: int, j: int| 0 <= i < j < distinct_first(s).len() ==> distinct_first(s)[i] != distinct_first(s)[j],
        forall|x: Seq<char>| s.contains(x) <==> distinct_first(s).contains(x),
    decreases s.len(),
{
    if s.len() > 0 {
        let r = distinct_first(s.drop_last());
        lemma_distinct_first(s.drop_last());
        assert forall|x: Seq<char>| s.contains(x) <==> distinct_first(s).contains(x) by {
            if s.contains(x) {
                let k = choose|k: int| 0 <= k < s.len() && s[k] == x;
                if k < s.len() - 1 {
                    assert(s.drop_last()[k] == x);
                    assert(s.drop_last().contains(x));
                    let m = choose|m: int| 0 <= m < r.len() && r[m] == x;
                    if !r.contains(s.last()) {
                        assert(r.push(s.last())[m] == x);
                    }
                } else {
                    if !r.contains(s.last()) {
                        assert(r.push(s.last())[r.len() as int] == x);
                    }
                }
            }
            if distinct_first(s).contains(x) {
                let m = choose|m: int| 0 <= m < distinct_first(s).len() && distinct_first(s)[m] == x;
                if m < r.len() {
                    if !r.contains(s.last()) {
                        assert(r.push(s.last())[m] == r[m]);
                    }
                    assert(r.contains(x));
                    assert(s.drop_last().contains(x));
                    let k = choose|k: int| 0 <= k < s.drop_last().len() && s.drop_last()[k] == x;
                    assert(s[k] == x);
                } else {
                    assert(x == s.last());
                    assert(s[s.len() - 1] == x);
                }
            }
        }
    }
}

/// A processor's class path names no path twice, and names exactly the
/// paths of its jar and its class-path coordinates.
pub proof fn law_processor_classpath(p: Processor, root: Seq<char>)
    ensures
        forall|i: int, j: int| 0 <= i < j < processor_classpath(p, root).len() ==> processor_classpath(p, root)[i]
            != processor_classpath(p, root)[j],
        forall|x: Seq<char>| coord_paths(processor_coords(p), root).contains(x) <==> processor_classpath(p, root).contains(x),
{
    lemma_distinct_first(coord_paths(processor_coords(p), root));
}

} // verus!
