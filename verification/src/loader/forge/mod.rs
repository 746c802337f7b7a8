//! Forge: installer URLs, `install_profile.json` tokens and processors.

pub mod api;
pub mod install;
pub mod processor;
pub mod profile;
