//! Verified core of a Minecraft launcher: version manifests, rule
//! evaluation, launch-argument assembly, Java selection and loader helpers.

pub mod config;
pub mod errors;
pub mod java;
pub mod launch;
pub mod loader;
pub mod model;
pub mod mods;
pub mod net;
pub mod paths;
pub mod progress;
pub mod task;
pub mod text;
pub mod vanilla;
