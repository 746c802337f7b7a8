//! Vanilla Minecraft: per-install paths and library artifact expansion.

pub mod install;
pub mod library;
pub mod manifest;
pub mod paths;
