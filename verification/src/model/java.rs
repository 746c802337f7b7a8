//! The `javaVersion` requirement of a version JSON.

use vstd::prelude::*;

verus! {

/// The `javaVersion` field (present since 1.17).
#[derive(Debug, Clone)]
pub struct JavaVersionRequirement {
    /// Mojang's runtime component name, such as `java-runtime-delta`.
    pub component: String,
    pub major_version: u8,
}

impl JavaVersionRequirement {
    /// The requirement assumed when a manifest has none: any component, Java 8.
    pub fn default_requirement() -> (r: JavaVersionRequirement)
        ensures
            r.component@.len() == 0,
            r.major_version == 8,
    {
        JavaVersionRequirement { component: String::new(), major_version: 8 }
    }

    /// A Java of major version `candidate_major` satisfies this requirement:
    /// it is at least the required major version.
    pub fn is_satisfied_by(&self, candidate_major: u8) -> (b: bool)
        ensures
            b == (candidate_major >= self.major_version),
    {
        candidate_major >= self.major_version
    }
}

impl Default for JavaVersionRequirement {
    fn default() -> (r: JavaVersionRequirement)
        ensures
            r.component@.len() == 0,
            r.major_version == 8,
    {
        Self::default_requirement()
    }
}

} // verus!
