//! A Java runtime found on the machine.

use vstd::prelude::*;

verus! {

/// One Java runtime.
#[derive(Debug, Clone)]
pub struct JavaRuntime {
    /// Full path of the `java` executable.
    pub path: String,
    /// Major version: 8, 11, 17, 21, ...
    pub version_major: u8,
    /// Full version string, such as `21.0.2` or `1.8.0_312`.
    pub version_full: String,
    pub vendor: String,
    pub arch: Arch,
    pub source: JavaSource,
}

/// CPU architecture of a runtime.
#[derive(Debug, Clone, Copy, PartialEq, Eq, Structural)]
pub enum Arch {
    X64,
    X86,
    Arm64,
    Other,
}

/// How a runtime was found.
#[derive(Debug, Clone, Copy, PartialEq, Eq, Structural)]
pub enum JavaSource {
    JavaHome,
    Path,
    Manual,
    Registry,
    Adoptium,
    Microsoft,
    Zulu,
    Liberica,
    MojangJre,
}

} // verus!
