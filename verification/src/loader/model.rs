//! Records shared by the loaders.

use vstd::prelude::*;

verus! {

/// One loader version offered for a Minecraft version.
#[derive(Debug, Clone)]
pub struct LoaderVersion {
    pub version: String,
    pub stable: bool,
}

/// What installing a loader produced.
#[derive(Debug, Clone)]
pub struct LoaderInstallResult {
    pub merged_version_id: String,
    pub main_class: String,
}

} // verus!
