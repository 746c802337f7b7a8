//! Mod metadata records.

use vstd::prelude::*;

verus! {

/// Mod loaders.
#[derive(Debug, Clone, Copy, PartialEq, Eq, Structural)]
pub enum LoaderKind {
    Forge,
    Fabric,
    NeoForge,
}

/// Where a mod runs.
#[derive(Debug, Clone, Copy, PartialEq, Eq, Structural)]
pub enum Side {
    Client,
    Server,
    Both,
}

impl Default for Side {
    fn default() -> (s: Side)
        ensures
            s == Side::Both,
    {
        Side::Both
    }
}

/// One recognised mod.
#[derive(Debug, Clone)]
pub struct ModEntry {
    pub file_path: String,
    pub enabled: bool,
    /// The loader whose manifest was recognised first.
    pub loader: LoaderKind,
    pub mod_id: String,
    pub name: String,
    pub version: String,
    /// The Minecraft version range, in the loader's own syntax.
    pub mc_version_range: Option<String>,
    pub dependencies: Vec<ModDep>,
    pub authors: Vec<String>,
    pub description: Option<String>,
    pub side: Side,
}

/// A dependency a mod declares.
#[derive(Debug, Clone)]
pub struct ModDep {
    pub mod_id: String,
    /// The version range, in the loader's own syntax.
    pub version_range: Option<String>,
    pub mandatory: bool,
    pub side: Side,
}

} // verus!
