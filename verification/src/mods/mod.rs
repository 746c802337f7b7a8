//! Mods: reading mod metadata, enabling and disabling mod jars, and the
//! order of a mods listing.

pub mod enable;
pub mod parse;
pub mod scan;
