//! Parsing what a Java runtime says of itself: its version string and
//! `java -version` output; building a runtime record from a `release` file.

use super::model::{Arch, JavaRuntime, JavaSource};
use super::release::{arch_of, opt_view, ReleaseInfo};
use crate::errors::Error;
use crate::text::{
    before_first, contains_seq, find_char, first_token, is_prefix, lines_spec, parse_u8_spec,
    trim,
};
use vstd::prelude::*;

verus! {

/// A separator of version components: `.`, `_`, `-` or `+`.
pub open spec fn is_version_sep(c: char) -> bool {
    c == '.' || c == '_' || c == '-' || c == '+'
}

/// The index of the first separator of `s`, or its length.
pub open spec fn sep_index(s: Seq<char>) -> int
    decreases s.len(),
{
    if s.len() == 0 {
        0
    } else if is_version_sep(s[0]) {
        0
    } else {
        1 + sep_index(s.drop_first())
    }
}

proof fn lemma_sep_index(s: Seq<char>, k: int)
    requires
        0 <= k <= s.len(),
        forall|j: int| 0 <= j < k ==> !is_version_sep(s[j]),
        k < s.len() ==> is_version_sep(s[k]),
    ensures
        sep_index(s) == k,
    decreases k,
{
    if k > 0 {
        lemma_sep_index(s.drop_first(), k - 1);
    }
}

/// The major version of a Java version string: a leading `1.` is dropped,
/// then the first component is read as a `u8`; 0 when that fails.
pub open spec fn major_of(v: Seq<char>) -> u8 {
    let st = if is_prefix("1."@, v) { v.skip(2) } else { v };
    match parse_u8_spec(st.take(sep_index(st))) {
        Some(m) => m,
        None => 0,
    }
}

/// The major version of a Java version string
/// (`1.8.0_312` → 8, `21.0.2` → 21, `9` → 9; 0 when unreadable).
pub fn parse_major(version: &str) -> (m: u8)
    ensures
        m == major_of(version@),
{
    let v = crate::text::to_chars(version);
    let pre = crate::text::to_chars("1.");
    proof {
        reveal_strlit("1.");
    }
    let start: usize = if crate::text::starts_with(v.as_slice(), pre.as_slice()) { 2 } else { 0 };
    let ghost st = if is_prefix("1."@, version@) { version@.skip(2) } else { version@ };
    assert(st == v@.skip(start as int));
    let mut end = start;
    while end < v.len() && !(v[end] == '.' || v[end] == '_' || v[end] == '-' || v[end] == '+')
        invariant
            start <= end <= v@.len(),
            forall|j: int| start <= j < end ==> !is_version_sep(v@[j]),
        decreases v@.len() - end,
    {
        end = end + 1;
    }
    proof {
        assert forall|j: int| 0 <= j < end - start implies !is_version_sep(st[j]) by {
            assert(st[j] == v@[j + start]);
        }
        if end < v.len() {
            assert(st[end - start] == v@[end as int]);
        }
        lemma_sep_index(st, end - start);
        assert(st.take(end - start) == v@.subrange(start as int, end as int));
    }
    let tok = crate::text::sub_chars(v.as_slice(), start, end);
    match crate::text::parse_u8_digits(tok.as_slice()) {
        Some(m) => m,
        None => 0,
    }
}

/// The text between the first two `"` of `line`, if it has two.
pub open spec fn quoted_of(line: Seq<char>) -> Option<Seq<char>> {
    let i = find_char(line, '"');
    if i < 0 {
        None
    } else {
        let rest = line.skip(i + 1);
        let j = find_char(rest, '"');
        if j < 0 {
            None
        } else {
            Some(rest.take(j))
        }
    }
}

/// The text between the first two `"` of `line`.
pub fn extract_quoted(line: &str) -> (r: Option<String>)
    ensures
        opt_view(r) == quoted_of(line@),
{
    let v = crate::text::to_chars(line);
    match crate::text::find_char_from(v.as_slice(), '"', 0) {
        None => {
            proof {
                crate::text::lemma_find_char_is(v@, '"', v@.len() as int);
            }
            None
        },
        Some(i) => {
            proof {
                crate::text::lemma_find_char_is(v@, '"', i as int);
            }
            assert(i < v.len());
            let ghost rest = v@.skip(i + 1);
            match crate::text::find_char_from(v.as_slice(), '"', i + 1) {
                None => {
                    proof {
                        crate::text::lemma_find_char_is(rest, '"', rest.len() as int);
                    }
                    None
                },
                Some(j) => {
                    proof {
                        crate::text::lemma_find_char_is(rest, '"', j - i - 1);
                        assert(rest.take(j - i - 1) == v@.subrange(i + 1, j as int));
                    }
                    Some(crate::text::string_of(v.as_slice(), i + 1, j))
                },
            }
        },
    }
}

/// What `java -version` output says of the runtime.
#[derive(Debug, Clone)]
pub struct ParsedVersion {
    pub major: u8,
    pub full: String,
    pub vendor: String,
    pub arch: Arch,
}

/// The vendor named by `java -version` output: the second line up to
/// ` Runtime Environment`, trimmed, when that is not empty; else the first
/// word of the first line; else `Unknown`.
pub open spec fn vendor_of(lines: Seq<Seq<char>>) -> Seq<char> {
    let from_second = if lines.len() > 1 {
        trim(before_first(lines[1], " Runtime Environment"@))
    } else {
        Seq::empty()
    };
    if from_second.len() > 0 {
        from_second
    } else {
        match first_token(lines[0]) {
            Some(t) => t,
            None => "Unknown"@,
        }
    }
}

/// The architecture named by the third line of `java -version` output.
pub open spec fn output_arch_of(lines: Seq<Seq<char>>) -> Arch {
    if lines.len() > 2 {
        let l = lines[2];
        if contains_seq(l, "64-Bit"@) {
            Arch::X64
        } else if contains_seq(l, "32-Bit"@) {
            Arch::X86
        } else if contains_seq(l, "aarch64"@) {
            Arch::Arm64
        } else {
            Arch::Other
        }
    } else {
        Arch::Other
    }
}

/// Parses `java -version` output. Fails on empty output, and when the first
/// line has no quoted version; otherwise the version is the quoted text of
/// the first line, the vendor comes from the second line (see
/// [`vendor_of`]) and the architecture from the third.
pub fn parse_java_version_output(output: &str) -> (r: Result<ParsedVersion, Error>)
    ensures
        lines_spec(output@).len() == 0 ==> (r matches Err(Error::Task(m)) && m@ == "empty -version output"@),
        lines_spec(output@).len() > 0 && quoted_of(lines_spec(output@)[0]) is None ==> (r matches Err(Error::Task(m))
            && m@ == "cannot parse version line: "@ + lines_spec(output@)[0]),
        r is Ok <==> lines_spec(output@).len() > 0 && quoted_of(lines_spec(output@)[0]) is Some,
        r matches Ok(p) ==> {
            let ls = lines_spec(output@);
            &&& p.full@ == quoted_of(ls[0])->0
            &&& p.major == major_of(p.full@)
            &&& p.vendor@ == vendor_of(ls)
            &&& p.arch == output_arch_of(ls)
        },
{
    let ov = crate::text::to_chars(output);
    let lines = crate::text::split_lines(ov.as_slice());
    let ghost ls = lines_spec(output@);
    assert(lines@.len() == ls.len());
    if lines.len() == 0 {
        return Err(Error::Task("empty -version output".to_string()));
    }
    assert(lines@[0]@ == ls[0]);
    let first = crate::text::from_chars(lines[0].as_slice());
    let full = match extract_quoted(first.as_str()) {
        Some(f) => f,
        None => {
            let mut m = "cannot parse version line: ".to_string();
            m.append(first.as_str());
            return Err(Error::Task(m));
        },
    };
    let major = parse_major(full.as_str());
    let mut from_second: Vec<char> = Vec::new();
    if lines.len() > 1 {
        assert(lines@[1]@ == ls[1]);
        let pat = crate::text::to_chars(" Runtime Environment");
        let piece = crate::text::before_first_chars(lines[1].as_slice(), pat.as_slice());
        from_second = crate::text::trim_chars(piece.as_slice());
    }
    let vendor = if from_second.len() > 0 {
        crate::text::from_chars(from_second.as_slice())
    } else {
        match crate::text::first_token_chars(lines[0].as_slice()) {
            Some(t) => crate::text::from_chars(t.as_slice()),
            None => "Unknown".to_string(),
        }
    };
    let arch = if lines.len() > 2 {
        assert(lines@[2]@ == ls[2]);
        let l = lines[2].as_slice();
        let p64 = crate::text::to_chars("64-Bit");
        let p32 = crate::text::to_chars("32-Bit");
        let parm = crate::text::to_chars("aarch64");
        if crate::text::contains(l, p64.as_slice()) {
            Arch::X64
        } else if crate::text::contains(l, p32.as_slice()) {
            Arch::X86
        } else if crate::text::contains(l, parm.as_slice()) {
            Arch::Arm64
        } else {
            Arch::Other
        }
    } else {
        Arch::Other
    };
    Ok(ParsedVersion { major, full, vendor, arch })
}

/// The runtime described by the `release` file of the JDK of `java_path`:
/// `None` when the file names no `JAVA_VERSION`; the vendor defaults to
/// `Unknown`; the source is `Manual`, for the caller to replace.
pub fn runtime_from_release(java_path: String, info: ReleaseInfo) -> (r: Option<JavaRuntime>)
    ensures
        info.java_version is None ==> r is None,
        info.java_version matches Some(v) ==> r matches Some(rt) && rt.path == java_path
            && rt.version_full == v && rt.version_major == major_of(v@) && rt.vendor@ == (
        match info.vendor {
            Some(x) => x@,
            None => "Unknown"@,
        }) && rt.arch == arch_of(opt_view(info.os_arch)) && rt.source == JavaSource::Manual,
{
    let arch = info.arch();
    let full = match info.java_version {
        Some(f) => f,
        None => {
            return None;
        },
    };
    let major = parse_major(full.as_str());
    let vendor = match info.vendor {
        Some(v) => v,
        None => "Unknown".to_string(),
    };
    Some(
        JavaRuntime {
            path: java_path,
            version_major: major,
            version_full: full,
            vendor,
            arch,
            source: JavaSource::Manual,
        },
    )
}

} // verus!
