//! Crash reports: the summary of one `crash-reports/crash-*.txt` file.
//!
//! Finding the newest file on disk is the caller's business; this module
//! turns a file's path and contents into a [`CrashReport`].

use vstd::prelude::*;
use crate::text::{
    contains, contains_seq, ends_with, from_chars, is_prefix, is_suffix, lines_spec, split_lines,
    starts_with, sub_chars, sviews, to_chars, trim, trim_chars, views,
};
use crate::paths::{file_name, path_file_name};

verus! {

/// A quick diagnosis of what made the game crash.
#[derive(Debug, Clone, Copy, PartialEq, Eq, Structural)]
pub enum CrashCategory {
    OutOfMemory,
    NoClassDef,
    ModuleResolution,
    Mixin,
    NativeCrash,
    GpuDriver,
    Unknown,
}

/// The summary of one crash report.
#[derive(Debug, Clone)]
pub struct CrashReport {
    pub file_path: String,
    /// The timestamp embedded in the file name (`crash-<ts>-client.txt`).
    pub timestamp: Option<String>,
    /// The text of the first `Description:` line.
    pub description: Option<String>,
    /// The first lines of the report.
    pub head_lines: Vec<String>,
    pub category: CrashCategory,
}

/// How many lines of the report are kept in `head_lines`.
pub const HEAD_LINES_MAX: usize = 80;

/// How many characters of the report are searched by [`classify`].
pub const CLASSIFY_WINDOW: usize = 4096;

// ───────────────────────────── specs ─────────────────────────────

/// `s` with `p` removed from its front as often as it occurs there
/// (`str::trim_start_matches` with a string pattern).
pub open spec fn strip_prefix_all(s: Seq<char>, p: Seq<char>) -> Seq<char>
    decreases s.len(),
{
    if p.len() > 0 && is_prefix(p, s) {
        strip_prefix_all(s.skip(p.len() as int), p)
    } else {
        s
    }
}

/// `s` with `p` removed from its end as often as it occurs there
/// (`str::trim_end_matches` with a string pattern).
pub open spec fn strip_suffix_all(s: Seq<char>, p: Seq<char>) -> Seq<char>
    decreases s.len(),
{
    if p.len() > 0 && is_suffix(p, s) {
        strip_suffix_all(s.take(s.len() - p.len()), p)
    } else {
        s
    }
}

/// The timestamp in a crash report's file name.
pub open spec fn timestamp_of(name: Seq<char>) -> Seq<char> {
    strip_suffix_all(
        strip_suffix_all(
            strip_suffix_all(strip_prefix_all(name, "crash-"@), ".txt"@),
            "-client"@,
        ),
        "-server"@,
    )
}

/// The description on the first line that, trimmed, starts with
/// `Description:`; the rest of that line, trimmed.
pub open spec fn description_of(lines: Seq<Seq<char>>) -> Option<Seq<char>>
    decreases lines.len(),
{
    if lines.len() == 0 {
        None
    } else {
        let t = trim(lines[0]);
        if is_prefix("Description:"@, t) {
            Some(trim(t.skip("Description:"@.len() as int)))
        } else {
            description_of(lines.drop_first())
        }
    }
}

/// The category that the searched head of a report falls under: the first
/// rule whose markers occur in it decides.
pub open spec fn category_of(h: Seq<char>) -> CrashCategory {
    if contains_seq(h, "OutOfMemoryError"@) || contains_seq(h, "Java heap space"@) {
        CrashCategory::OutOfMemory
    } else if contains_seq(h, "NoClassDefFoundError"@) || contains_seq(
        h,
        "ClassNotFoundException"@,
    ) {
        CrashCategory::NoClassDef
    } else if contains_seq(h, "java.lang.module.ResolutionException"@) {
        CrashCategory::ModuleResolution
    } else if contains_seq(h, "MixinTransformerError"@) || contains_seq(
        h,
        "InvalidMixinException"@,
    ) || contains_seq(h, "Mixin apply failed"@) {
        CrashCategory::Mixin
    } else if contains_seq(h, "# A fatal error has been detected by the Java Runtime"@)
        || contains_seq(h, "EXCEPTION_ACCESS_VIOLATION"@) {
        CrashCategory::NativeCrash
    } else if contains_seq(h, "Pixel format not accelerated"@) || (contains_seq(h, "OpenGL"@) && (
    contains_seq(h, "not supported"@) || contains_seq(h, "Failed to initialize"@))) {
        CrashCategory::GpuDriver
    } else {
        CrashCategory::Unknown
    }
}

/// The part of a report that [`classify`] searches.
pub open spec fn classify_window(content: Seq<char>) -> Seq<char> {
    if content.len() <= CLASSIFY_WINDOW {
        content
    } else {
        content.take(CLASSIFY_WINDOW as int)
    }
}

/// The number of head lines kept of `n` lines.
pub open spec fn head_count(n: nat) -> nat {
    if n <= HEAD_LINES_MAX {
        n
    } else {
        HEAD_LINES_MAX as nat
    }
}

// ───────────────────────────── exec ─────────────────────────────

fn has(h: &[char], pat: &str) -> (b: bool)
    ensures
        b == contains_seq(h@, pat@),
{
    let p = to_chars(pat);
    contains(h, p.as_slice())
}

/// The category of a report, from its first 4096 characters.
pub fn classify(content: &str) -> (c: CrashCategory)
    ensures
        c == category_of(classify_window(content@)),
{
    let all = to_chars(content);
    let n = if all.len() <= CLASSIFY_WINDOW { all.len() } else { CLASSIFY_WINDOW };
    let head = sub_chars(all.as_slice(), 0, n);
    assert(head@ == classify_window(content@));
    let h = head.as_slice();
    if has(h, "OutOfMemoryError") || has(h, "Java heap space") {
        return CrashCategory::OutOfMemory;
    }
    if has(h, "NoClassDefFoundError") || has(h, "ClassNotFoundException") {
        return CrashCategory::NoClassDef;
    }
    if has(h, "java.lang.module.ResolutionException") {
        return CrashCategory::ModuleResolution;
    }
    if has(h, "MixinTransformerError") || has(h, "InvalidMixinException") || has(
        h,
        "Mixin apply failed",
    ) {
        return CrashCategory::Mixin;
    }
    if has(h, "# A fatal error has been detected by the Java Runtime") || has(
        h,
        "EXCEPTION_ACCESS_VIOLATION",
    ) {
        return CrashCategory::NativeCrash;
    }
    if has(h, "Pixel format not accelerated") || (has(h, "OpenGL") && (has(h, "not supported")
        || has(h, "Failed to initialize"))) {
        return CrashCategory::GpuDriver;
    }
    CrashCategory::Unknown
}

/// `s` with every leading `p` removed.
fn strip_prefix_all_exec(s: Vec<char>, p: &str) -> (r: Vec<char>)
    ensures
        r@ == strip_prefix_all(s@, p@),
    decreases s@.len(),
{
    let pv = to_chars(p);
    if pv.len() > 0 && starts_with(s.as_slice(), pv.as_slice()) {
        let rest = sub_chars(s.as_slice(), pv.len(), s.len());
        assert(rest@ == s@.skip(p@.len() as int));
        strip_prefix_all_exec(rest, p)
    } else {
        s
    }
}

/// `s` with every trailing `p` removed.
fn strip_suffix_all_exec(s: Vec<char>, p: &str) -> (r: Vec<char>)
    ensures
        r@ == strip_suffix_all(s@, p@),
    decreases s@.len(),
{
    let pv = to_chars(p);
    if pv.len() > 0 && ends_with(s.as_slice(), pv.as_slice()) {
        let rest = sub_chars(s.as_slice(), 0, s.len() - pv.len());
        assert(rest@ == s@.take(s@.len() - p@.len()));
        strip_suffix_all_exec(rest, p)
    } else {
        s
    }
}

/// The description of a report, from its lines.
fn find_description(lines: &Vec<Vec<char>>) -> (r: Option<String>)
    ensures
        r matches Some(s) ==> description_of(views(lines@)) == Some(s@),
        r is None ==> description_of(views(lines@)) is None,
{
    let key = to_chars("Description:");
    let mut i: usize = 0;
    assert(views(lines@).skip(0) == views(lines@));
    while i < lines.len()
        invariant
            i <= lines@.len(),
            key@ == "Description:"@,
            description_of(views(lines@).skip(i as int)) == description_of(views(lines@)),
        decreases lines@.len() - i,
    {
        let ghost rest = views(lines@).skip(i as int);
        assert(rest[0] == lines@[i as int]@);
        let t = trim_chars(lines[i].as_slice());
        if starts_with(t.as_slice(), key.as_slice()) {
            let tail = sub_chars(t.as_slice(), key.len(), t.len());
            assert(tail@ == t@.skip("Description:"@.len() as int));
            let d = trim_chars(tail.as_slice());
            return Some(from_chars(d.as_slice()));
        }
        assert(rest.drop_first() == views(lines@).skip(i + 1));
        i = i + 1;
    }
    assert(views(lines@).skip(i as int).len() == 0);
    None
}

/// The first `HEAD_LINES_MAX` lines, as strings.
fn head_of(lines: &Vec<Vec<char>>) -> (r: Vec<String>)
    ensures
        sviews(r@) == views(lines@).take(head_count(lines@.len()) as int),
{
    let n = if lines.len() <= HEAD_LINES_MAX { lines.len() } else { HEAD_LINES_MAX };
    let mut r: Vec<String> = Vec::new();
    let mut i: usize = 0;
    while i < n
        invariant
            i <= n <= lines@.len(),
            n == head_count(lines@.len()),
            sviews(r@) == views(lines@).take(i as int),
        decreases n - i,
    {
        let s = from_chars(lines[i].as_slice());
        let ghost r0 = sviews(r@);
        r.push(s);
        assert(sviews(r@) == r0.push(s@));
        assert(views(lines@).take(i + 1) == views(lines@).take(i as int).push(lines@[i as int]@));
        i = i + 1;
    }
    r
}

/// The summary of the crash report at `path` whose text is `content`.
pub fn parse_crash_report(path: String, content: &str) -> (r: CrashReport)
    ensures
        r.file_path@ == path@,
        r.timestamp matches Some(t) ==> path_file_name(path@) matches Some(n) && t@
            == timestamp_of(n),
        r.timestamp is None <==> path_file_name(path@) is None,
        r.description matches Some(d) ==> description_of(lines_spec(content@)) == Some(d@),
        r.description is None <==> description_of(lines_spec(content@)) is None,
        sviews(r.head_lines@) == lines_spec(content@).take(
            head_count(lines_spec(content@).len()) as int,
        ),
        r.category == category_of(classify_window(content@)),
{
    let chars = to_chars(content);
    let lines = split_lines(chars.as_slice());
    let description = find_description(&lines);
    let head_lines = head_of(&lines);
    let timestamp = match file_name(path.as_str()) {
        Some(name) => {
            let a = strip_prefix_all_exec(to_chars(name.as_str()), "crash-");
            let b = strip_suffix_all_exec(a, ".txt");
            let c = strip_suffix_all_exec(b, "-client");
            let d = strip_suffix_all_exec(c, "-server");
            Some(from_chars(d.as_slice()))
        },
        None => None,
    };
    let category = classify(content);
    CrashReport { file_path: path, timestamp, description, head_lines, category }
}


/// The category of a report follows the markers in its first 4096
/// characters, checked in this order: `OutOfMemoryError` or
/// `Java heap space`; `NoClassDefFoundError` or `ClassNotFoundException`;
/// `java.lang.module.ResolutionException`; a Mixin failure; a fatal JVM
/// error; an OpenGL / pixel-format failure; else unknown.
pub proof fn law_crash_markers(content: Seq<char>)
    ensures
        ({
            let h = classify_window(content);
            let oom = contains_seq(h, "OutOfMemoryError"@) || contains_seq(h, "Java heap space"@);
            let ncd = contains_seq(h, "NoClassDefFoundError"@) || contains_seq(h, "ClassNotFoundException"@);
            let res = contains_seq(h, "java.lang.module.ResolutionException"@);
            let mix = contains_seq(h, "MixinTransformerError"@) || contains_seq(h, "InvalidMixinException"@)
                || contains_seq(h, "Mixin apply failed"@);
            let jvm = contains_seq(h, "# A fatal error has been detected by the Java Runtime"@) || contains_seq(
                h,
                "EXCEPTION_ACCESS_VIOLATION"@,
            );
            let gpu = contains_seq(h, "Pixel format not accelerated"@) || (contains_seq(h, "OpenGL"@) && (
            contains_seq(h, "not supported"@) || contains_seq(h, "Failed to initialize"@)));
            let c = category_of(h);
            &&& content.len() <= 4096 ==> h == content
            &&& content.len() > 4096 ==> h == content.take(4096)
            &&& oom ==> c == CrashCategory::OutOfMemory
            &&& !oom && ncd ==> c == CrashCategory::NoClassDef
            &&& !oom && !ncd && res ==> c == CrashCategory::ModuleResolution
            &&& !oom && !ncd && !res && mix ==> c == CrashCategory::Mixin
            &&& !oom && !ncd && !res && !mix && jvm ==> c == CrashCategory::NativeCrash
            &&& !oom && !ncd && !res && !mix && !jvm && gpu ==> c == CrashCategory::GpuDriver
            &&& !oom && !ncd && !res && !mix && !jvm && !gpu ==> c == CrashCategory::Unknown
        }),
{
}

} // verus!
