//! Data model of version manifests, libraries, assets and mods.

pub mod arguments;
pub mod assets;
pub mod java;
pub mod library;
pub mod mod_entry;
pub mod version;
