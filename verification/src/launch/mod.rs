//! Launching: offline accounts, launch-argument assembly, crash reports.

pub mod account;
pub mod args;
pub mod crash;
pub mod model;
pub mod output;
