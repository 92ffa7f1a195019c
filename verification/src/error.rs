//! One error type for every command.
//!
//! The frontend only sees a stable `code` (translated into a readable message)
//! plus a `message`/`details` pair meant for the logs and the "technical
//! details" disclosure. Secrets never go through here.

use vstd::prelude::*;

use crate::text::{
    contains, dec_chars, dec_seq, from_chars, lower_seq, push_all, push_str, spec_contains,
    take_chars, take_prefix, to_ascii_lowercase, to_chars,
};

verus! {

pub struct AppError {
    pub code: String,
    pub message: String,
    pub details: Option<String>,
}

pub type AppResult<T> = Result<T, AppError>;

/// An error carrying `code` and `message`, without details.
pub open spec fn is_error(e: AppError, code: Seq<char>, message: Seq<char>) -> bool {
    e.code@ == code && e.message@ == message && e.details is None
}

/// Text of an error: `[code] message (details)`, or `[code] message`.
pub open spec fn error_text(code: Seq<char>, message: Seq<char>, details: Option<Seq<char>>) -> Seq<
    char,
> {
    match details {
        Some(d) => "["@ + code + "] "@ + message + " ("@ + d + ")"@,
        None => "["@ + code + "] "@ + message,
    }
}

impl AppError {
    pub fn new(code: &str, message: &str) -> (e: Self)
        ensures
            is_error(e, code@, message@),
    {
        AppError { code: code.to_owned(), message: message.to_owned(), details: None }
    }

    pub fn with_details(self, details: &str) -> (e: Self)
        ensures
            e.code == self.code,
            e.message == self.message,
            e.details matches Some(d) && d@ == details@,
    {
        AppError { code: self.code, message: self.message, details: Some(details.to_owned()) }
    }

    pub fn unknown(message: &str) -> (e: Self)
        ensures
            is_error(e, "unknown"@, message@),
    {
        Self::new("unknown", message)
    }

    /// A file-system failure, described by its text.
    pub fn io(text: &str) -> (e: Self)
        ensures
            is_error(e, "io"@, text@),
    {
        Self::new("io", text)
    }

    /// A document that is not the JSON expected, described by the reader's text.
    pub fn invalid_json(text: &str) -> (e: Self)
        ensures
            is_error(e, "api_invalid"@, "invalid json: "@ + text@),
    {
        let mut m = to_chars("invalid json: ");
        push_str(&mut m, text);
        let message = from_chars(&m);
        Self::new("api_invalid", message.as_str())
    }

    pub fn cancelled() -> (e: Self)
        ensures
            is_error(e, "cancelled"@, "operation cancelled"@),
    {
        Self::new("cancelled", "operation cancelled")
    }

    /// What `Display` writes.
    pub fn text(&self) -> (r: String)
        ensures
            r@ == error_text(
                self.code@,
                self.message@,
                match self.details {
                    Some(d) => Some(d@),
                    None => None,
                },
            ),
    {
        let mut v: Vec<char> = Vec::new();
        push_str(&mut v, "[");
        push_str(&mut v, self.code.as_str());
        push_str(&mut v, "] ");
        push_str(&mut v, self.message.as_str());
        match &self.details {
            Some(d) => {
                push_str(&mut v, " (");
                push_str(&mut v, d.as_str());
                push_str(&mut v, ")");
            },
            None => {},
        }
        from_chars(&v)
    }
}

/// `text` when it has at most `max` characters, else its first `max`
/// characters followed by an ellipsis.
pub open spec fn truncated(text: Seq<char>, max: nat) -> Seq<char> {
    if text.len() <= max {
        text
    } else {
        take_chars(text, max) + "…"@
    }
}

pub fn truncate(text: &str, max: usize) -> (r: String)
    ensures
        r@ == truncated(text@, max as nat),
{
    let chars = to_chars(text);
    if chars.len() <= max {
        text.to_owned()
    } else {
        let mut cut = take_prefix(&chars, max);
        push_str(&mut cut, "…");
        from_chars(&cut)
    }
}


// ── What the libraries' failures mean ──────────────────────────────────────

/// An HTTP answer with a failing status: a server error is an unavailable
/// service, a 404 a missing resource, anything else an invalid answer.
pub open spec fn status_code(status: u16) -> Seq<char> {
    if status >= 500 {
        "api_unavailable"@
    } else if status == 404 {
        "api_not_found"@
    } else {
        "api_invalid"@
    }
}

pub fn status_failure(status: u16, url: &str) -> (e: AppError)
    ensures
        is_error(
            e,
            status_code(status),
            "unexpected status "@ + dec_seq(status as nat) + " for "@ + url@,
        ),
{
    let code = if status >= 500 {
        "api_unavailable"
    } else if status == 404 {
        "api_not_found"
    } else {
        "api_invalid"
    };
    let mut m = to_chars("unexpected status ");
    let digits = dec_chars(status as u64);
    push_all(&mut m, &digits);
    push_str(&mut m, " for ");
    push_str(&mut m, url);
    let message = from_chars(&m);
    AppError::new(code, message.as_str())
}

/// The code of a failed request: a timeout, a connection that could not be
/// made or sent, an answer that could not be decoded.
pub fn transport_code(timeout: bool, connect: bool, request: bool, decode: bool) -> (r: &'static str)
    ensures
        r@ == if timeout {
            "timeout"@
        } else if connect || request {
            "network"@
        } else if decode {
            "api_invalid"@
        } else {
            "network"@
        },
{
    if timeout {
        "timeout"
    } else if connect || request {
        "network"
    } else if decode {
        "api_invalid"
    } else {
        "network"
    }
}

/// A refusal from Microsoft: a grant that is invalid or expired means the
/// session is over; anything else is a denial.
pub fn microsoft_refusal(text: &str) -> (e: AppError)
    ensures
        is_error(
            e,
            if spec_contains(text@, "invalid_grant"@) || spec_contains(text@, "expired"@) {
                "auth_expired"@
            } else {
                "auth_denied"@
            },
            text@,
        ),
{
    let t = to_chars(text);
    let expired = contains(&t, &to_chars("invalid_grant")) || contains(&t, &to_chars("expired"));
    AppError::new(
        if expired {
            "auth_expired"
        } else {
            "auth_denied"
        },
        text,
    )
}

/// What an AZauth rejection reason says, read case-insensitively.
pub open spec fn azauth_code(reason: Seq<char>) -> Seq<char> {
    let r = lower_seq(reason);
    if spec_contains(r, "2fa"@) || spec_contains(r, "code"@) {
        "auth_otp_invalid"@
    } else if spec_contains(r, "ban"@) {
        "auth_banned"@
    } else if spec_contains(r, "credential"@) || spec_contains(r, "password"@) {
        "auth_invalid_credentials"@
    } else if spec_contains(r, "token"@) {
        "auth_expired"@
    } else {
        "auth_denied"@
    }
}

/// An AZauth rejection: the code from its reason, its message (or the
/// reason), and the reason as details.
pub fn azauth_rejection(reason: &str, message: Option<String>) -> (e: AppError)
    ensures
        e.code@ == azauth_code(reason@),
        e.message@ == match message {
            Some(m) => m@,
            None => reason@,
        },
        e.details matches Some(d) && d@ == reason@,
{
    let r = to_ascii_lowercase(&to_chars(reason));
    let code = if contains(&r, &to_chars("2fa")) || contains(&r, &to_chars("code")) {
        "auth_otp_invalid"
    } else if contains(&r, &to_chars("ban")) {
        "auth_banned"
    } else if contains(&r, &to_chars("credential")) || contains(&r, &to_chars("password")) {
        "auth_invalid_credentials"
    } else if contains(&r, &to_chars("token")) {
        "auth_expired"
    } else {
        "auth_denied"
    };
    let shown = match message {
        Some(m) => m,
        None => reason.to_owned(),
    };
    AppError::new(code, shown.as_str()).with_details(reason)
}

/// An AZauth answer that is none of the expected ones: its status, and the
/// start of its body as details.
pub fn azauth_unexpected(status: u16, body: &str) -> (e: AppError)
    ensures
        e.code@ == "api_invalid"@,
        e.message@ == "unexpected AZauth response (status "@ + dec_seq(status as nat) + ")"@,
        e.details matches Some(d) && d@ == truncated(body@, 300),
{
    let mut m = to_chars("unexpected AZauth response (status ");
    let digits = dec_chars(status as u64);
    push_all(&mut m, &digits);
    push_str(&mut m, ")");
    let message = from_chars(&m);
    let details = truncate(body, 300);
    AppError::new("api_invalid", message.as_str()).with_details(details.as_str())
}

/// A refusal from a Yggdrasil server: one that says "invalid" (any case)
/// rejects the credentials.
pub fn yggdrasil_refusal(text: &str) -> (e: AppError)
    ensures
        is_error(
            e,
            if spec_contains(lower_seq(text@), "invalid"@) {
                "auth_invalid_credentials"@
            } else {
                "auth_denied"@
            },
            text@,
        ),
{
    let lowered = to_ascii_lowercase(&to_chars(text));
    AppError::new(
        if contains(&lowered, &to_chars("invalid")) {
            "auth_invalid_credentials"
        } else {
            "auth_denied"
        },
        text,
    )
}

/// A download that kept failing: how many attempts, and what failed last.
pub fn download_failure(url: &str, attempts: u32, source: &str) -> (e: AppError)
    ensures
        e.code@ == "download_failed"@,
        e.message@ == "download failed after "@ + dec_seq(attempts as nat) + " attempts"@,
        e.details matches Some(d) && d@ == url@ + ": "@ + source@,
{
    let mut m = to_chars("download failed after ");
    let digits = dec_chars(attempts as u64);
    push_all(&mut m, &digits);
    push_str(&mut m, " attempts");
    let message = from_chars(&m);
    let mut d = to_chars(url);
    push_str(&mut d, ": ");
    push_str(&mut d, source);
    let details = from_chars(&d);
    AppError::new("download_failed", message.as_str()).with_details(details.as_str())
}

/// Java could not be started: the reason the system gave, and the Java
/// executable that was tried.
pub fn spawn_failure(reason: &str, java: &str) -> (e: AppError)
    ensures
        e.code@ == "launch_failed"@,
        e.message@ == "could not start Java: "@ + reason@,
        e.details matches Some(d) && d@ == java@,
{
    let mut m = to_chars("could not start Java: ");
    push_str(&mut m, reason);
    let message = from_chars(&m);
    AppError::new("launch_failed", message.as_str()).with_details(java)
}

/// A server that did not answer the ping in time.
pub fn server_timeout(address: &str) -> (e: AppError)
    ensures
        is_error(e, "server_unreachable"@, "timeout reaching "@ + address@),
{
    let mut m = to_chars("timeout reaching ");
    push_str(&mut m, address);
    let message = from_chars(&m);
    AppError::new("server_unreachable", message.as_str())
}

/// A Minecraft version the manifest does not know.
pub fn version_not_found(version: &str) -> (e: AppError)
    ensures
        is_error(e, "instance_invalid"@, "Minecraft "@ + version@ + " not found"@),
{
    let mut m = to_chars("Minecraft ");
    push_str(&mut m, version);
    push_str(&mut m, " not found");
    let message = from_chars(&m);
    AppError::new("instance_invalid", message.as_str())
}

/// The instance's file list could not be fetched.
pub fn custom_files_unavailable(url: &str, status: u16) -> (e: AppError)
    ensures
        e.code@ == "api_unavailable"@,
        e.message@ == "instance files unavailable (status "@ + dec_seq(status as nat) + ")"@,
        e.details matches Some(d) && d@ == url@,
{
    let mut m = to_chars("instance files unavailable (status ");
    let digits = dec_chars(status as u64);
    push_all(&mut m, &digits);
    push_str(&mut m, ")");
    let message = from_chars(&m);
    AppError::new("api_unavailable", message.as_str()).with_details(url)
}

/// A mod loader the launch library does not know.
pub fn unknown_loader(name: &str) -> (e: AppError)
    ensures
        is_error(e, "instance_invalid"@, "unknown loader "@ + name@),
{
    let mut m = to_chars("unknown loader ");
    push_str(&mut m, name);
    let message = from_chars(&m);
    AppError::new("instance_invalid", message.as_str())
}

} // verus!
