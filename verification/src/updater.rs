//! The launcher's own updates: which endpoints are asked, and what the
//! interface is told while an update installs.

use vstd::prelude::*;

use crate::error::{is_error, AppError};
use crate::text::string_views;

verus! {

pub struct UpdateInfo {
    pub version: String,
    pub current_version: String,
    pub body: Option<String>,
    pub date: Option<String>,
}

pub struct UpdateCheck {
    /// `false` when no endpoint is configured.
    pub configured: bool,
    pub update: Option<UpdateInfo>,
}

pub enum UpdateEvent {
    Started { content_length: Option<u64> },
    Progress { downloaded: u64, content_length: Option<u64> },
    Finished,
    Installed,
}

/// The panel's endpoints win over the built-in ones, so a release can be
/// redirected without shipping a new launcher.
pub fn configured_endpoints(panel: Option<Vec<String>>, builtin: &Vec<String>) -> (r: Vec<String>)
    ensures
        r@ == match panel {
            Some(p) => if p@.len() > 0 {
                p@
            } else {
                builtin@
            },
            None => builtin@,
        },
{
    match panel {
        Some(p) => if p.len() > 0 {
            p
        } else {
            crate::settings::clone_strings(builtin)
        },
        None => crate::settings::clone_strings(builtin),
    }
}

/// An update is not installed under a running game.
pub fn check_can_install(game_running: bool) -> (r: Result<(), AppError>)
    ensures
        r is Err <==> game_running,
        r matches Err(e) ==> is_error(
            e,
            "game_running"@,
            "close the game before updating the launcher"@,
        ),
{
    if game_running {
        return Err(AppError::new("game_running", "close the game before updating the launcher"));
    }
    Ok(())
}

impl UpdateCheck {
    /// What a check answers: without an endpoint, updates are not configured
    /// and nothing is looked for.
    pub fn of(endpoints_configured: bool, found: Option<UpdateInfo>) -> (r: UpdateCheck)
        ensures
            r.configured == endpoints_configured,
            r.update == if endpoints_configured {
                found
            } else {
                None::<UpdateInfo>
            },
    {
        if endpoints_configured {
            UpdateCheck { configured: true, update: found }
        } else {
            UpdateCheck { configured: false, update: None }
        }
    }
}

/// Installing needs an update to install.
pub fn require_update<T>(found: Option<T>) -> (r: Result<T, AppError>)
    ensures
        match found {
            Some(u) => r == Ok::<T, AppError>(u),
            None => r matches Err(e) && is_error(e, "update_failed"@, "no update available"@),
        },
{
    match found {
        Some(u) => Ok(u),
        None => Err(AppError::new("update_failed", "no update available")),
    }
}

/// Counts the bytes of an update download, for the progress events.
pub struct DownloadProgress {
    pub downloaded: u64,
    pub started: bool,
}

impl DownloadProgress {
    pub fn new() -> (r: DownloadProgress)
        ensures
            r.downloaded == 0,
            !r.started,
    {
        DownloadProgress { downloaded: 0, started: false }
    }

    /// The events for a received chunk: `Started` before the first one, then
    /// the running total.
    pub fn on_chunk(&mut self, chunk: usize, content_length: Option<u64>) -> (r: Vec<UpdateEvent>)
        requires
            old(self).downloaded + chunk <= u64::MAX,
        ensures
            final(self).started,
            final(self).downloaded == old(self).downloaded + chunk,
            r@.len() == if old(self).started {
                1int
            } else {
                2int
            },
            !old(self).started ==> r@[0] == (UpdateEvent::Started { content_length }),
            r@.last() == (UpdateEvent::Progress {
                downloaded: final(self).downloaded,
                content_length,
            }),
    {
        let mut events: Vec<UpdateEvent> = Vec::new();
        if !self.started {
            self.started = true;
            events.push(UpdateEvent::Started { content_length });
        }
        self.downloaded = self.downloaded + chunk as u64;
        events.push(UpdateEvent::Progress { downloaded: self.downloaded, content_length });
        events
    }
}

} // verus!
