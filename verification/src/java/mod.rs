//! Java runtimes: the runtime model, selection for a manifest, memory
//! recommendation, `release` file and `java -version` parsing.

pub mod compat;
pub mod dirs;
pub mod memory;
pub mod model;
pub mod order;
pub mod release;
pub mod scan;
