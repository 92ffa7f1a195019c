//! The machine, and the folders and links the launcher opens on it.

use vstd::prelude::*;

use crate::error::{is_error, AppError};
use crate::models::{is_web_url, web_url};
use crate::text::{eq_chars, from_chars, slice, spec_starts_with, starts_with, to_chars};

verus! {

pub struct SystemInfo {
    pub total_memory_mb: Option<u64>,
    pub platform: String,
    pub arch: String,
    pub launcher_version: String,
    /// Where `accounts.json` lives.
    pub accounts_file: String,
    pub debug: bool,
}

/// The machine's memory in MiB; none when it reports nothing.
pub fn memory_mb(total_bytes: u64) -> (r: Option<u64>)
    ensures
        r == if total_bytes > 0 {
            Some((total_bytes / 1048576) as u64)
        } else {
            None::<u64>
        },
{
    if total_bytes > 0 {
        Some(total_bytes / 1048576)
    } else {
        None
    }
}

/// A launcher folder the interface can open.
pub enum FolderTarget {
    Logs,
    GameLogs,
    GameRoot,
    LauncherData,
    /// `instance:<id>`.
    Instance(String),
}

/// Reads `logs`, `gameLogs`, `gameRoot`, `launcherData` or `instance:<id>`.
pub fn folder_target(target: &str) -> (r: Result<FolderTarget, AppError>)
    ensures
        match r {
            Ok(FolderTarget::Logs) => target@ == "logs"@,
            Ok(FolderTarget::GameLogs) => target@ == "gameLogs"@,
            Ok(FolderTarget::GameRoot) => target@ == "gameRoot"@,
            Ok(FolderTarget::LauncherData) => target@ == "launcherData"@,
            Ok(FolderTarget::Instance(id)) => target@ == "instance:"@ + id@ && target@ != "logs"@
                && target@ != "gameLogs"@ && target@ != "gameRoot"@ && target@ != "launcherData"@,
            Err(e) => is_error(e, "invalid_argument"@, "unknown folder"@) && target@ != "logs"@
                && target@ != "gameLogs"@ && target@ != "gameRoot"@ && target@ != "launcherData"@
                && !spec_starts_with(target@, "instance:"@),
        },
{
    let t = to_chars(target);
    if eq_chars(&t, &to_chars("logs")) {
        return Ok(FolderTarget::Logs);
    }
    if eq_chars(&t, &to_chars("gameLogs")) {
        return Ok(FolderTarget::GameLogs);
    }
    if eq_chars(&t, &to_chars("gameRoot")) {
        return Ok(FolderTarget::GameRoot);
    }
    if eq_chars(&t, &to_chars("launcherData")) {
        return Ok(FolderTarget::LauncherData);
    }
    let prefix = to_chars("instance:");
    if starts_with(&t, &prefix) {
        let n = t.len();
        let id = slice(&t, prefix.len(), n);
        assert(t@ =~= prefix@ + id@);
        return Ok(FolderTarget::Instance(from_chars(&id)));
    }
    Err(AppError::new("invalid_argument", "unknown folder"))
}

/// Only web links are handed to the system.
pub fn check_external_url(url: &str) -> (r: Result<(), AppError>)
    ensures
        r is Ok <==> web_url(url@),
        r matches Err(e) ==> is_error(e, "invalid_argument"@, "only http(s) links can be opened"@),
{
    if !is_web_url(url) {
        return Err(AppError::new("invalid_argument", "only http(s) links can be opened"));
    }
    Ok(())
}

} // verus!
