//! Libraries listed by a Forge or NeoForge `install_profile.json`.

use crate::model::library::ArtifactInfo;
use vstd::prelude::*;

verus! {

/// A library needed while installing; unlike a version library it has no rules.
#[derive(Debug, Clone)]
pub struct ProfileLibrary {
    pub name: String,
    pub downloads: Option<ProfileLibraryDownloads>,
    pub url: Option<String>,
}

/// Download records of a [`ProfileLibrary`].
#[derive(Debug, Clone)]
pub struct ProfileLibraryDownloads {
    pub artifact: Option<ArtifactInfo>,
}

} // verus!
