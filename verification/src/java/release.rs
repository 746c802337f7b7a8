//! The `release` file of a JDK: `KEY="value"` lines.

use super::model::Arch;
use crate::text::{find_char, lines_spec, trim, trim_char_end, trim_char_start};
use vstd::prelude::*;

verus! {

/// What a `release` file says of its JDK.
#[derive(Debug, Clone)]
pub struct ReleaseInfo {
    pub java_version: Option<String>,
    pub vendor: Option<String>,
    pub os_arch: Option<String>,
}

/// The view of an optional string.
pub open spec fn opt_view(o: Option<String>) -> Option<Seq<char>> {
    match o {
        Some(s) => Some(s@),
        None => None,
    }
}

/// The architecture that an `OS_ARCH` value names.
pub open spec fn arch_of(a: Option<Seq<char>>) -> Arch {
    match a {
        Some(s) => if s == "x86_64"@ || s == "amd64"@ {
            Arch::X64
        } else if s == "x86"@ || s == "i386"@ || s == "i686"@ {
            Arch::X86
        } else if s == "aarch64"@ || s == "arm64"@ {
            Arch::Arm64
        } else {
            Arch::Other
        },
        None => Arch::Other,
    }
}

impl ReleaseInfo {
    /// The architecture named by `OS_ARCH`.
    pub fn arch(&self) -> (a: Arch)
        ensures
            a == arch_of(opt_view(self.os_arch)),
    {
        match &self.os_arch {
            Some(s) => {
                let s = s.as_str();
                proof {
                    reveal_strlit("x86_64");
                    reveal_strlit("amd64");
                    reveal_strlit("x86");
                    reveal_strlit("i386");
                    reveal_strlit("i686");
                    reveal_strlit("aarch64");
                    reveal_strlit("arm64");
                }
                if crate::text::str_eq(s, "x86_64") || crate::text::str_eq(s, "amd64") {
                    Arch::X64
                } else if crate::text::str_eq(s, "x86") || crate::text::str_eq(s, "i386")
                    || crate::text::str_eq(s, "i686") {
                    Arch::X86
                } else if crate::text::str_eq(s, "aarch64") || crate::text::str_eq(s, "arm64") {
                    Arch::Arm64
                } else {
                    Arch::Other
                }
            },
            None => Arch::Other,
        }
    }
}

/// The `(JAVA_VERSION, IMPLEMENTOR, OS_ARCH)` values set by `lines`: each
/// non-blank line not starting with `#` and holding `=` is split at its first
/// `=`; key and value are trimmed, the value also of surrounding `"`; a
/// later line wins.
pub open spec fn release_fold(lines: Seq<Seq<char>>) -> (Option<Seq<char>>, Option<Seq<char>>, Option<Seq<char>>)
    decreases lines.len(),
{
    if lines.len() == 0 {
        (None, None, None)
    } else {
        let prev = release_fold(lines.drop_last());
        let t = trim(lines.last());
        if t.len() == 0 || t[0] == '#' {
            prev
        } else {
            let i = find_char(t, '=');
            if i < 0 {
                prev
            } else {
                let k = trim(t.take(i));
                let v = trim_char_end(trim_char_start(trim(t.skip(i + 1)), '"'), '"');
                if k == "JAVA_VERSION"@ {
                    (Some(v), prev.1, prev.2)
                } else if k == "IMPLEMENTOR"@ {
                    (prev.0, Some(v), prev.2)
                } else if k == "OS_ARCH"@ {
                    (prev.0, prev.1, Some(v))
                } else {
                    prev
                }
            }
        }
    }
}

/// Parses the content of a `release` file (see [`release_fold`]).
pub fn parse_release_content(content: &str) -> (info: ReleaseInfo)
    ensures
        (opt_view(info.java_version), opt_view(info.vendor), opt_view(info.os_arch))
            == release_fold(lines_spec(content@)),
{
    let cv = crate::text::to_chars(content);
    let lines = crate::text::split_lines(cv.as_slice());
    let ghost ls = lines_spec(content@);
    let mut info = ReleaseInfo { java_version: None, vendor: None, os_arch: None };
    let mut n: usize = 0;
    while n < lines.len()
        invariant
            n <= lines@.len(),
            crate::text::views(lines@) == ls,
            (opt_view(info.java_version), opt_view(info.vendor), opt_view(info.os_arch))
                == release_fold(ls.take(n as int)),
        decreases lines@.len() - n,
    {
        assert(ls.take(n + 1).drop_last() == ls.take(n as int));
        assert(ls.take(n + 1).last() == lines@[n as int]@);
        let line = crate::text::trim_chars(lines[n].as_slice());
        if line.len() == 0 || line[0] == '#' {
            n = n + 1;
            continue;
        }
        match crate::text::find_char_from(line.as_slice(), '=', 0) {
            None => {
                proof {
                    crate::text::lemma_find_char_is(line@, '=', line@.len() as int);
                }
            },
            Some(i) => {
                proof {
                    crate::text::lemma_find_char_is(line@, '=', i as int);
                }
                let kraw = crate::text::sub_chars(line.as_slice(), 0, i);
                assert(kraw@ == line@.take(i as int));
                let k = crate::text::trim_chars(kraw.as_slice());
                let vraw = crate::text::sub_chars(line.as_slice(), i + 1, line.len());
                assert(vraw@ == line@.skip(i + 1));
                let vt = crate::text::trim_chars(vraw.as_slice());
                let v = crate::text::trim_matches_char(vt.as_slice(), '"');
                let ks = crate::text::from_chars(k.as_slice());
                let vs = crate::text::from_chars(v.as_slice());
                proof {
                    reveal_strlit("JAVA_VERSION");
                    reveal_strlit("IMPLEMENTOR");
                    reveal_strlit("OS_ARCH");
                }
                if crate::text::str_eq(ks.as_str(), "JAVA_VERSION") {
                    info.java_version = Some(vs);
                } else if crate::text::str_eq(ks.as_str(), "IMPLEMENTOR") {
                    info.vendor = Some(vs);
                } else if crate::text::str_eq(ks.as_str(), "OS_ARCH") {
                    info.os_arch = Some(vs);
                }
            },
        }
        n = n + 1;
    }
    assert(ls.take(n as int) == ls);
    info
}


/// The architecture a `release` file's `OS_ARCH` names: `x86_64` or
/// `amd64` is x64; `x86`, `i386` or `i686` is x86; `aarch64` or `arm64`
/// is ARM64; any other value, or none, is other.
pub proof fn law_release_arch(s: Seq<char>)
    ensures
        s == "x86_64"@ || s == "amd64"@ ==> arch_of(Some(s)) == Arch::X64,
        s == "x86"@ || s == "i386"@ || s == "i686"@ ==> arch_of(Some(s)) == Arch::X86,
        s == "aarch64"@ || s == "arm64"@ ==> arch_of(Some(s)) == Arch::Arm64,
        s != "x86_64"@ && s != "amd64"@ && s != "x86"@ && s != "i386"@ && s != "i686"@ && s != "aarch64"@
            && s != "arm64"@ ==> arch_of(Some(s)) == Arch::Other,
        arch_of(None) == Arch::Other,
{
    reveal_strlit("x86_64");
    reveal_strlit("amd64");
    reveal_strlit("x86");
    reveal_strlit("i386");
    reveal_strlit("i686");
    reveal_strlit("aarch64");
    reveal_strlit("arm64");
    assert("x86_64"@.len() != "amd64"@.len());
    assert("x86_64"@ != "amd64"@);
    assert("x86_64"@.len() != "x86"@.len());
    assert("x86_64"@ != "x86"@);
    assert("x86_64"@.len() != "i386"@.len());
    assert("x86_64"@ != "i386"@);
    assert("x86_64"@.len() != "i686"@.len());
    assert("x86_64"@ != "i686"@);
    assert("x86_64"@.len() != "aarch64"@.len());
    assert("x86_64"@ != "aarch64"@);
    assert("x86_64"@.len() != "arm64"@.len());
    assert("x86_64"@ != "arm64"@);
    assert("amd64"@.len() != "x86"@.len());
    assert("amd64"@ != "x86"@);
    assert("amd64"@.len() != "i386"@.len());
    assert("amd64"@ != "i386"@);
    assert("amd64"@.len() != "i686"@.len());
    assert("amd64"@ != "i686"@);
    assert("amd64"@.len() != "aarch64"@.len());
    assert("amd64"@ != "aarch64"@);
    assert("amd64"@[1] != "arm64"@[1]);
    assert("amd64"@ != "arm64"@);
    assert("x86"@.len() != "i386"@.len());
    assert("x86"@ != "i386"@);
    assert("x86"@.len() != "i686"@.len());
    assert("x86"@ != "i686"@);
    assert("x86"@.len() != "aarch64"@.len());
    assert("x86"@ != "aarch64"@);
    assert("x86"@.len() != "arm64"@.len());
    assert("x86"@ != "arm64"@);
    assert("i386"@[1] != "i686"@[1]);
    assert("i386"@ != "i686"@);
    assert("i386"@.len() != "aarch64"@.len());
    assert("i386"@ != "aarch64"@);
    assert("i386"@.len() != "arm64"@.len());
    assert("i386"@ != "arm64"@);
    assert("i686"@.len() != "aarch64"@.len());
    assert("i686"@ != "aarch64"@);
    assert("i686"@.len() != "arm64"@.len());
    assert("i686"@ != "arm64"@);
    assert("aarch64"@.len() != "arm64"@.len());
    assert("aarch64"@ != "arm64"@);
}

} // verus!
