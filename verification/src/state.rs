//! What the launcher remembers between starts, and what the interface gets
//! before its first paint.

use vstd::prelude::*;

use crate::config::LauncherConfig;
use crate::settings::{
    GameWindowSettings, InstanceSettings, JavaMode, LauncherBehavior, MemorySettings, Settings,
};
use crate::text::{eq_chars, from_chars, opt_view, to_chars, trim, trim_chars};

verus! {

pub struct BootstrapPaths {
    pub launcher_dir: String,
    pub logs_dir: String,
    pub game_root: String,
}

/// The data directory the panel announced, to keep when it is new: trimmed,
/// not blank, and not the one already kept.
pub fn remembered_directory(announced: Option<&str>, current: Option<&str>) -> (r: Option<String>)
    ensures
        opt_view(r) == match announced {
            Some(a) => {
                let d = trim(a@);
                if d.len() > 0 && match current {
                    Some(c) => c@ != d,
                    None => true,
                } {
                    Some(d)
                } else {
                    None
                }
            },
            None => None,
        },
{
    match announced {
        Some(a) => {
            let d = trim_chars(&to_chars(a));
            if d.len() == 0 {
                return None;
            }
            match current {
                Some(c) => if eq_chars(&to_chars(c), &d) {
                    None
                } else {
                    Some(from_chars(&d))
                },
                None => Some(from_chars(&d)),
            }
        },
        None => None,
    }
}

/// The data directory the game root is named after: the one the panel last
/// announced, else the configured one.
pub fn data_directory(resolved: &Option<String>, configured: &str) -> (r: String)
    ensures
        r@ == match resolved {
            Some(d) => d@,
            None => configured@,
        },
{
    match resolved {
        Some(d) => d.clone(),
        None => configured.to_owned(),
    }
}

/// Settings back to the configuration's defaults, keeping the selected
/// account and instance and the data directory the panel announced.
pub fn reset_settings(config: &LauncherConfig, current: Settings) -> (r: Settings)
    ensures
        r.selected_account == current.selected_account,
        r.selected_instance == current.selected_instance,
        r.resolved_data_directory == current.resolved_data_directory,
        r.download_concurrency == config.downloads.default_concurrency,
        r.memory == (MemorySettings {
            min_mb: config.memory.default_min_mb,
            max_mb: config.memory.default_max_mb,
        }),
        r.game_window == (GameWindowSettings {
            width: Some(config.game_window.default_width),
            height: Some(config.game_window.default_height),
            fullscreen: false,
        }),
        r.server_status_refresh_seconds == config.server_status.refresh_seconds,
        r.install_path is None,
        r.launcher_behavior == LauncherBehavior::Stay,
        r.java.mode == JavaMode::Auto && r.java.path is None,
        r.jvm_args@.len() == 0,
        !r.intel_enabled_mac,
        r.instances.wf() && r.instances.view() == Map::<Seq<char>, InstanceSettings>::empty(),
        r.ui.theme@ == "dark"@ && !r.ui.reduce_motion,
        r.check_updates_on_startup,
{
    let mut fresh = Settings::from_config(config);
    fresh.selected_account = current.selected_account;
    fresh.selected_instance = current.selected_instance;
    fresh.resolved_data_directory = current.resolved_data_directory;
    fresh
}

} // verus!
