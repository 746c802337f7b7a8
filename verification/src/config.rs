//! The launcher's global configuration.

use vstd::prelude::*;

verus! {

/// Launcher configuration (stored in `PathLayout::config_file`).
#[derive(Debug, Clone)]
pub struct AppConfig {
    /// Mirror selection policy.
    pub mirror_policy: MirrorPolicy,
    /// Global limit of concurrent downloads.
    pub max_concurrent_downloads: usize,
    /// UI language.
    pub ui_locale: String,
}

impl Default for AppConfig {
    fn default() -> (c: AppConfig)
        ensures
            c.mirror_policy == MirrorPolicy::Auto,
            c.max_concurrent_downloads == 16,
            c.ui_locale@ == "zh-CN"@,
    {
        AppConfig {
            mirror_policy: MirrorPolicy::Auto,
            max_concurrent_downloads: 16,
            ui_locale: "zh-CN".to_string(),
        }
    }
}

/// Mirror selection policy.
#[derive(Debug, Clone, Copy, PartialEq, Eq, Structural)]
pub enum MirrorPolicy {
    /// BMCLAPI first, official source as fallback.
    Auto,
    /// Official source only.
    Official,
    /// BMCLAPI only.
    Bmclapi,
}

} // verus!
