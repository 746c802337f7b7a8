//! Memory recommendation from the machine's total memory, the loader and the mod count.

use vstd::prelude::*;

verus! {

/// Declares `sysinfo::System` so that it can be held by verified code.
#[verifier::external_type_specification]
#[verifier::external_body]
pub struct ExSystem(sysinfo::System);

/// Calls `sysinfo::System::new`: a system handle with nothing loaded yet.
/// Nothing is stated of the handle.
#[verifier::external_body]
fn system_new() -> (s: sysinfo::System) {
    sysinfo::System::new()
}

/// Calls `sysinfo::System::refresh_memory`, which reloads the memory
/// figures of the machine. Nothing is stated of them.
#[verifier::external_body]
fn system_refresh_memory(s: &mut sysinfo::System) {
    s.refresh_memory()
}

/// Calls `sysinfo::System::total_memory`: the machine's RAM in bytes, as
/// last refreshed. The value depends on the machine, so nothing is stated.
#[verifier::external_body]
fn system_total_memory(s: &sysinfo::System) -> (bytes: u64) {
    s.total_memory()
}

/// A memory recommendation, in MiB.
#[derive(Debug, Clone, Copy)]
pub struct MemoryRecommendation {
    pub min_mb: u32,
    pub max_mb: u32,
    /// Total memory of the machine.
    pub system_total_mb: u64,
}

/// `a * b`, saturated at `u32::MAX`.
pub open spec fn sat_mul_u32(a: u32, b: u32) -> u32 {
    if a * b > u32::MAX { u32::MAX } else { (a * b) as u32 }
}

/// `a + b`, saturated at `u32::MAX`.
pub open spec fn sat_add_u32(a: u32, b: u32) -> u32 {
    if a + b > u32::MAX { u32::MAX } else { (a + b) as u32 }
}

/// The recommended `-Xmx`: 1024 MiB (2048 with a loader) plus 8 MiB per
/// mod (the count taken modulo 2^32, sums saturating), at most half the
/// machine's memory, at least 1024 MiB.
pub open spec fn recommended_max(has_loader: bool, mod_count: usize, total_mb: u64) -> u32 {
    let base: u32 = if has_loader { 2048 } else { 1024 };
    let suggested = sat_add_u32(base, sat_mul_u32(mod_count as u32, 8));
    let cap: u32 = if total_mb / 2 > u32::MAX as u64 { u32::MAX } else { (total_mb / 2) as u32 };
    let capped = if suggested < cap { suggested } else { cap };
    if capped > 1024 { capped } else { 1024 }
}

/// The recommended `-Xms`: a quarter of `-Xmx`, at least 256 MiB.
pub open spec fn recommended_min(max_mb: u32) -> u32 {
    if max_mb / 4 > 256 { max_mb / 4 } else { 256 }
}

/// Recommends memory for a machine with `total_mb` MiB (see
/// [`recommended_max`] and [`recommended_min`]).
pub fn recommend_memory_for(has_loader: bool, mod_count: usize, total_mb: u64) -> (r: MemoryRecommendation)
    ensures
        r.max_mb == recommended_max(has_loader, mod_count, total_mb),
        r.min_mb == recommended_min(r.max_mb),
        r.system_total_mb == total_mb,
{
    let base: u32 = if has_loader { 2048 } else { 1024 };
    let count = mod_count as u32;
    let mods_extra: u32 = if count > u32::MAX / 8 { u32::MAX } else { count * 8 };
    let suggested: u32 = if mods_extra > u32::MAX - base { u32::MAX } else { base + mods_extra };
    let half = total_mb / 2;
    let cap: u32 = if half > u32::MAX as u64 { u32::MAX } else { half as u32 };
    let capped = if suggested < cap { suggested } else { cap };
    let max_mb = if capped > 1024 { capped } else { 1024 };
    let min_mb = if max_mb / 4 > 256 { max_mb / 4 } else { 256 };
    MemoryRecommendation { min_mb, max_mb, system_total_mb: total_mb }
}

/// A byte count in whole MiB, rounded down.
pub open spec fn mib_of(bytes: u64) -> int {
    bytes as int / 1048576
}

/// The machine's total memory in whole MiB: the byte count sysinfo reports,
/// divided by 2^20 and rounded down. Which byte count that is depends on the
/// machine and is not stated.
pub fn read_system_total_mb() -> (mb: u64)
    ensures
        exists|bytes: u64| mb as int == #[trigger] mib_of(bytes),
{
    let mut sys = system_new();
    system_refresh_memory(&mut sys);
    let bytes = system_total_memory(&sys);
    let mb = bytes / (1024 * 1024);
    assert(mb as int == mib_of(bytes));
    mb
}

/// Recommends memory for this machine (see [`recommend_memory_for`]).
pub fn recommend_memory(has_loader: bool, mod_count: usize) -> (r: MemoryRecommendation)
    ensures
        r.max_mb == recommended_max(has_loader, mod_count, r.system_total_mb),
        r.min_mb == recommended_min(r.max_mb),
        r.max_mb >= 1024,
        r.min_mb >= 256,
        r.min_mb <= r.max_mb,
{
    let total = read_system_total_mb();
    recommend_memory_for(has_loader, mod_count, total)
}

/// For a given machine, a loader and more mods never lower the recommended
/// maximum; every recommendation lies within `256 <= min <= max` and `max >= 1024`.
pub proof fn law_memory_monotone(loader_a: bool, mods_a: usize, loader_b: bool, mods_b: usize, total_mb: u64)
    requires
        loader_a ==> loader_b,
        mods_a as u32 <= mods_b as u32,
    ensures
        recommended_max(loader_a, mods_a, total_mb) <= recommended_max(loader_b, mods_b, total_mb),
        recommended_max(loader_a, mods_a, total_mb) >= 1024,
        256 <= recommended_min(recommended_max(loader_a, mods_a, total_mb)) <= recommended_max(loader_a, mods_a, total_mb),
{
    let a = mods_a as u32;
    let b = mods_b as u32;
    assert(a * 8 <= b * 8) by (nonlinear_arith) requires a <= b;
}

} // verus!
