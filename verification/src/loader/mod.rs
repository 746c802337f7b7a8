//! Mod loaders: Fabric, Forge and NeoForge.

pub mod fabric;
pub mod forge;
pub mod model;
pub mod neoforge;
pub mod profile_lib;
