//! Inputs and output of launch planning.

use super::account::AccountInfo;
use crate::java::model::JavaRuntime;
use crate::model::arguments::OsContext;
use crate::model::version::ResolvedManifest;
use crate::text::sviews;
use crate::vanilla::paths::InstallPaths;
use vstd::prelude::*;

verus! {

/// JVM heap bounds, in MiB.
#[derive(Debug, Clone, Copy)]
pub struct MemorySpec {
    pub min_mb: u32,
    pub max_mb: u32,
}

impl Default for MemorySpec {
    fn default() -> (m: MemorySpec)
        ensures
            m.min_mb == 512,
            m.max_mb == 2048,
    {
        MemorySpec { min_mb: 512, max_mb: 2048 }
    }
}

/// Everything launch planning reads. Planning holds no state: the caller owns it all.
pub struct LaunchInputs<'a> {
    pub manifest: &'a ResolvedManifest,
    pub paths: &'a InstallPaths,
    pub java: &'a JavaRuntime,
    pub account: &'a AccountInfo,
    /// The operating system the launcher runs on, the one it was built for:
    /// rules are evaluated for it and its class-path separator is used.
    pub os: OsContext,
    pub memory: MemorySpec,
    pub jvm_args_extra: Vec<String>,
    pub game_args_extra: Vec<String>,
    /// Launch features, such as `is_demo_user`, as `(name, value)` pairs.
    pub features: Vec<(String, bool)>,
}

/// A planned launch: the command line and the working directory.
#[derive(Debug, Clone)]
pub struct LaunchPlan {
    pub java_path: String,
    pub jvm_args: Vec<String>,
    pub main_class: String,
    pub game_args: Vec<String>,
    pub working_dir: String,
}

/// Clones a vector of strings.
pub fn clone_strings(v: &Vec<String>) -> (r: Vec<String>)
    ensures
        r@ == v@,
{
    let mut r: Vec<String> = Vec::new();
    let mut i: usize = 0;
    while i < v.len()
        invariant
            i <= v@.len(),
            r@ == v@.take(i as int),
        decreases v@.len() - i,
    {
        r.push(v[i].clone());
        i = i + 1;
        assert(r@ == v@.take(i as int));
    }
    assert(v@.take(i as int) == v@);
    r
}

impl LaunchPlan {
    /// The command line after the Java path: JVM arguments, main class, game arguments.
    pub fn full_args(&self) -> (v: Vec<String>)
        ensures
            v@ == self.jvm_args@ + seq![self.main_class] + self.game_args@,
            sviews(v@) == sviews(self.jvm_args@) + seq![self.main_class@] + sviews(self.game_args@),
    {
        let mut out = clone_strings(&self.jvm_args);
        out.push(self.main_class.clone());
        let mut g = clone_strings(&self.game_args);
        out.append(&mut g);
        assert(sviews(out@) == sviews(self.jvm_args@) + seq![self.main_class@] + sviews(self.game_args@));
        out
    }
}

} // verus!
