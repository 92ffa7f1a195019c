//! Server status: which server is pinged, and what the interface is shown.

use vstd::prelude::*;

use crate::error::{is_error, AppError};
use crate::text::{from_chars, spec_is_whitespace, to_chars, trim, trim_chars};

verus! {

pub struct ServerStatusDto {
    pub online: bool,
    pub host: String,
    pub port: u16,
    pub players: u64,
    pub max_players: u64,
    pub latency_ms: Option<u64>,
    pub version: Option<String>,
    pub description: Option<String>,
    pub favicon: Option<String>,
    pub sample: Vec<String>,
    pub error: Option<String>,
    pub checked_at: u64,
}

/// The ping timeout: the configured one, within 0.5 s and 15 s.
pub open spec fn ping_timeout(timeout_ms: u64) -> u64 {
    if timeout_ms < 500 {
        500
    } else if timeout_ms > 15000 {
        15000
    } else {
        timeout_ms
    }
}

/// The server to ping: a trimmed host without whitespace, the given port or
/// `default_port`, and the timeout.
pub fn server_target(host: &str, port: Option<u16>, default_port: u16, timeout_ms: u64) -> (r: Result<
    (String, u16, u64),
    AppError,
>)
    ensures
        r is Ok <==> (trim(host@).len() > 0 && forall|i: int|
            0 <= i < trim(host@).len() ==> !spec_is_whitespace(#[trigger] trim(host@)[i])),
        r matches Err(e) ==> is_error(e, "server_invalid"@, "invalid server host"@),
        r matches Ok((h, p, t)) ==> h@ == trim(host@) && p == match port {
            Some(p) => p,
            None => default_port,
        } && t == ping_timeout(timeout_ms),
{
    let h = trim_chars(&to_chars(host));
    let mut i: usize = 0;
    while i < h.len()
        invariant
            i <= h@.len(),
            h@ == trim(host@),
            forall|k: int| 0 <= k < i ==> !spec_is_whitespace(#[trigger] h@[k]),
        decreases h@.len() - i,
    {
        if crate::text::is_whitespace(h[i]) {
            return Err(AppError::new("server_invalid", "invalid server host"));
        }
        i += 1;
    }
    if h.len() == 0 {
        return Err(AppError::new("server_invalid", "invalid server host"));
    }
    let p = match port {
        Some(p) => p,
        None => default_port,
    };
    let t = if timeout_ms < 500 {
        500
    } else if timeout_ms > 15000 {
        15000
    } else {
        timeout_ms
    };
    Ok((from_chars(&h), p, t))
}

/// What an unreachable server shows: offline, with the reason.
pub fn offline_status(host: String, port: u16, error: String, checked_at: u64) -> (r: ServerStatusDto)
    ensures
        !r.online,
        r.host == host,
        r.port == port,
        r.players == 0,
        r.max_players == 0,
        r.latency_ms is None,
        r.version is None,
        r.description is None,
        r.favicon is None,
        r.sample@.len() == 0,
        r.error == Some(error),
        r.checked_at == checked_at,
{
    ServerStatusDto {
        online: false,
        host,
        port,
        players: 0,
        max_players: 0,
        latency_ms: None,
        version: None,
        description: None,
        favicon: None,
        sample: Vec::new(),
        error: Some(error),
        checked_at,
    }
}

/// What an answering server shows; an empty version is none.
pub fn answered_status(
    host: String,
    port: u16,
    error: bool,
    players: u64,
    max_players: u64,
    latency_ms: u64,
    version: String,
    description: Option<String>,
    favicon: Option<String>,
    sample: Vec<String>,
    checked_at: u64,
) -> (r: ServerStatusDto)
    ensures
        r.online == !error,
        r.host == host,
        r.port == port,
        r.players == players,
        r.max_players == max_players,
        r.latency_ms == Some(latency_ms),
        r.version == (if version@.len() > 0 {
            Some(version)
        } else {
            None
        }),
        r.description == description,
        r.favicon == favicon,
        r.sample == sample,
        r.error is None,
        r.checked_at == checked_at,
{
    let version = if version.as_str().is_empty() {
        None
    } else {
        Some(version)
    };
    ServerStatusDto {
        online: !error,
        host,
        port,
        players,
        max_players,
        latency_ms: Some(latency_ms),
        version,
        description,
        favicon,
        sample,
        error: None,
        checked_at,
    }
}

} // verus!
