//! Where vendors install Java, per operating system.

use super::model::JavaSource;
use crate::model::arguments::OsName;
use vstd::prelude::*;

verus! {

/// The file name of the Java executable on `os`.
pub fn exe_name(os: OsName) -> (n: &'static str)
    ensures
        os == OsName::Windows ==> n@ == "java.exe"@,
        os != OsName::Windows ==> n@ == "java"@,
{
    proof {
        reveal_strlit("java.exe");
        reveal_strlit("java");
    }
    match os {
        OsName::Windows => "java.exe",
        _ => "java",
    }
}

/// Vendor installation roots on `os`, with the source each one stands for:
/// nine Windows directories (Adoptium, Microsoft, Zulu, Liberica, Oracle),
/// three Linux ones, one macOS one.
pub fn well_known_roots(os: OsName) -> (v: Vec<(String, JavaSource)>)
    ensures
        os == OsName::Windows ==> v@.len() == 9 && v@[0].0@ == "C:\\Program Files\\Eclipse Adoptium"@
            && v@[0].1 == JavaSource::Adoptium && v@[3].1 == JavaSource::Microsoft && v@[4].1
            == JavaSource::Zulu && v@[6].1 == JavaSource::Liberica && v@[8].1 == JavaSource::Registry,
        os == OsName::Linux ==> v@.len() == 3 && v@[0].0@ == "/usr/lib/jvm"@ && v@[1].0@ == "/usr/java"@
            && v@[2].0@ == "/opt"@ && forall|i: int| 0 <= i < 3 ==> (#[trigger] v@[i]).1 == JavaSource::Registry,
        os == OsName::Osx ==> v@.len() == 1 && v@[0].0@ == "/Library/Java/JavaVirtualMachines"@
            && v@[0].1 == JavaSource::Registry,
{
    let mut out: Vec<(String, JavaSource)> = Vec::new();
    match os {
        OsName::Windows => {
            out.push(("C:\\Program Files\\Eclipse Adoptium".to_string(), JavaSource::Adoptium));
            out.push(("C:\\Program Files (x86)\\Eclipse Adoptium".to_string(), JavaSource::Adoptium));
            out.push(("C:\\Program Files\\Eclipse Foundation".to_string(), JavaSource::Adoptium));
            out.push(("C:\\Program Files\\Microsoft".to_string(), JavaSource::Microsoft));
            out.push(("C:\\Program Files\\Zulu".to_string(), JavaSource::Zulu));
            out.push(("C:\\Program Files (x86)\\Zulu".to_string(), JavaSource::Zulu));
            out.push(("C:\\Program Files\\BellSoft".to_string(), JavaSource::Liberica));
            out.push(("C:\\Program Files\\Java".to_string(), JavaSource::Registry));
            out.push(("C:\\Program Files (x86)\\Java".to_string(), JavaSource::Registry));
        },
        OsName::Linux => {
            out.push(("/usr/lib/jvm".to_string(), JavaSource::Registry));
            out.push(("/usr/java".to_string(), JavaSource::Registry));
            out.push(("/opt".to_string(), JavaSource::Registry));
        },
        OsName::Osx => {
            out.push(("/Library/Java/JavaVirtualMachines".to_string(), JavaSource::Registry));
        },
    }
    out
}

/// The registry keys (under `HKEY_LOCAL_MACHINE`) whose version subkeys hold
/// a `JavaHome` value, with the source each one stands for.
pub fn registry_java_keys() -> (v: Vec<(String, JavaSource)>)
    ensures
        v@.len() == 10,
        forall|i: int| 0 <= i < 4 ==> (#[trigger] v@[i]).1 == JavaSource::Registry,
        forall|i: int| 4 <= i < 7 ==> (#[trigger] v@[i]).1 == JavaSource::Adoptium,
        v@[7].1 == JavaSource::Zulu,
        v@[8].1 == JavaSource::Liberica,
        v@[9].1 == JavaSource::Microsoft,
{
    let mut out: Vec<(String, JavaSource)> = Vec::new();
    out.push(("SOFTWARE\\JavaSoft\\Java Runtime Environment".to_string(), JavaSource::Registry));
    out.push(("SOFTWARE\\JavaSoft\\Java Development Kit".to_string(), JavaSource::Registry));
    out.push(("SOFTWARE\\JavaSoft\\JDK".to_string(), JavaSource::Registry));
    out.push(("SOFTWARE\\JavaSoft\\JRE".to_string(), JavaSource::Registry));
    out.push(("SOFTWARE\\Eclipse Adoptium\\JDK".to_string(), JavaSource::Adoptium));
    out.push(("SOFTWARE\\Eclipse Adoptium\\JRE".to_string(), JavaSource::Adoptium));
    out.push(("SOFTWARE\\Eclipse Foundation\\JDK".to_string(), JavaSource::Adoptium));
    out.push(("SOFTWARE\\Azul Systems\\Zulu".to_string(), JavaSource::Zulu));
    out.push(("SOFTWARE\\BellSoft\\Liberica".to_string(), JavaSource::Liberica));
    out.push(("SOFTWARE\\Microsoft\\JDK".to_string(), JavaSource::Microsoft));
    out
}

} // verus!
