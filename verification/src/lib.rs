//! Verified core of the LuuxCraft launcher.

pub mod text;
pub mod util;
pub mod error;
pub mod json;
pub mod paths;
pub mod client_config;
pub mod config;
pub mod desktop;
pub mod dev_pack;
pub mod update;
pub mod settings;
pub mod java;
pub mod models;
pub mod skins;
pub mod accounts;
pub mod sessions;
pub mod auth;
pub mod api;
pub mod launch;
pub mod game;
pub mod instances;
pub mod updater;
pub mod status;
pub mod system;
pub mod state;
pub mod branding;
pub mod provisioning;
