//! Sign-in decisions: which methods the panel enables, which usernames an
//! offline account may take, which Azure application ids a Microsoft session
//! is renewed under, and what a failed renewal means for the account.
//!
//! A refresh token belongs to the Azure application that issued it. Each
//! account remembers the id its session was obtained under, and renewal tries
//! it first, before the panel's current id and the official launcher's.

use vstd::prelude::*;

use crate::accounts::{
    position_of, summary_of, summary_view, upserted, flagged, AccountKind, AccountRecord,
    AccountStore, AccountSummary, StoredAccount,
};
use crate::error::{is_error, AppError};
use crate::models::{auth_view, AuthMode, AuthModel};
use crate::text::{
    eq_chars, from_chars, opt_view, spec_is_ascii_alphanumeric, string_views, to_chars, trim,
    trim_chars,
};

verus! {

/// Where a Microsoft sign-in in its window stands.
#[derive(Clone, Copy, PartialEq, Eq, Debug, Structural)]
pub enum AuthEvent {
    /// The login window is open, waiting for the user.
    WindowOpened,
    /// The code came back, the account is being resolved.
    Waiting,
}

/// The answer to an AZauth sign-in: the account, or a request for the
/// two-factor code.
pub enum AzAuthOutcome {
    SignedIn { account: Box<crate::accounts::AccountSummary> },
    OtpRequired,
}

/// Sign-in methods enabled for this launcher, from the panel configuration
/// plus the optional Yggdrasil server.
pub struct AuthMethods {
    pub microsoft: bool,
    pub azauth: Option<String>,
    pub offline: bool,
    pub yggdrasil: Option<String>,
}

/// The panel's authentication mode turns on exactly one method; the
/// Yggdrasil server, when there is one, adds its own.
pub fn methods_for(auth: &AuthMode, yggdrasil: Option<String>) -> (r: AuthMethods)
    ensures
        r.microsoft == (auth_view(*auth) == AuthModel::Microsoft),
        r.offline == (auth_view(*auth) == AuthModel::Offline),
        opt_view(r.azauth) == match auth_view(*auth) {
            AuthModel::AzAuth { url } => Some(url),
            _ => None,
        },
        opt_view(r.yggdrasil) == opt_view(yggdrasil),
{
    let mut methods = AuthMethods { microsoft: false, azauth: None, offline: false, yggdrasil };
    match auth {
        AuthMode::Microsoft => methods.microsoft = true,
        AuthMode::Offline => methods.offline = true,
        AuthMode::AzAuth { url } => methods.azauth = Some(url.clone()),
    }
    methods
}

/// The Yggdrasil-compatible server: the panel's if it publishes one, the
/// configured one otherwise.
pub fn yggdrasil_server(panel: Option<String>, configured: Option<String>) -> (r: Option<String>)
    ensures
        opt_view(r) == match panel {
            Some(p) => Some(p@),
            None => opt_view(configured),
        },
{
    match panel {
        Some(p) => Some(p),
        None => configured,
    }
}

/// The application id the panel publishes, trimmed; a blank one is none.
pub fn panel_client_id(client_id: Option<String>) -> (r: Option<String>)
    ensures
        opt_view(r) == match client_id {
            Some(id) => if trim(id@).len() > 0 {
                Some(trim(id@))
            } else {
                None
            },
            None => None,
        },
{
    match client_id {
        Some(id) => {
            let t = trim_chars(&to_chars(id.as_str()));
            if t.len() > 0 {
                Some(from_chars(&t))
            } else {
                None
            }
        },
        None => None,
    }
}

/// The non-blank ids, trimmed, each kept once, in their first order.
pub open spec fn distinct_ids(s: Seq<Seq<char>>) -> Seq<Seq<char>>
    decreases s.len(),
{
    if s.len() == 0 {
        s
    } else {
        let prev = distinct_ids(s.drop_last());
        let t = trim(s.last());
        if t.len() > 0 && !prev.contains(t) {
            prev.push(t)
        } else {
            prev
        }
    }
}

pub open spec fn present(ids: Seq<Option<String>>) -> Seq<Seq<char>>
    decreases ids.len(),
{
    if ids.len() == 0 {
        Seq::empty()
    } else {
        match ids.last() {
            Some(id) => present(ids.drop_last()).push(id@),
            None => present(ids.drop_last()),
        }
    }
}

fn push_distinct(ids: &mut Vec<String>, candidate: &str)
    ensures
        string_views(final(ids)@) == ({
            let prev = string_views(old(ids)@);
            let t = trim(candidate@);
            if t.len() > 0 && !prev.contains(t) {
                prev.push(t)
            } else {
                prev
            }
        }),
{
    let t = trim_chars(&to_chars(candidate));
    if t.len() == 0 {
        return;
    }
    let mut i: usize = 0;
    while i < ids.len()
        invariant
            i <= ids@.len(),
            ids@ == old(ids)@,
            t@ == trim(candidate@),
            t@.len() > 0,
            forall|k: int| 0 <= k < i ==> ids@[k]@ != t@,
        decreases ids@.len() - i,
    {
        if eq_chars(&to_chars(ids[i].as_str()), &t) {
            assert(string_views(ids@)[i as int] == t@);
            assert(string_views(ids@).contains(t@));
            return;
        }
        i += 1;
    }
    assert(!string_views(ids@).contains(t@)) by {
        if string_views(ids@).contains(t@) {
            let k = choose|k: int| 0 <= k < string_views(ids@).len() && string_views(ids@)[k] == t@;
            assert(ids@[k]@ == t@);
        }
    }
    let ghost before = string_views(ids@);
    ids.push(from_chars(&t));
    assert(string_views(ids@) =~= before.push(t@));
}

/// The application ids a Microsoft session may have been issued under, most
/// likely first: the one recorded on the account, the panel's current one,
/// then the official launcher's. Without duplicates.
pub fn refresh_client_ids(
    account_client_id: Option<String>,
    panel_client_id: Option<String>,
    default_id: &str,
) -> (r: Vec<String>)
    ensures
        string_views(r@) == distinct_ids(
            present(seq![account_client_id, panel_client_id]).push(default_id@),
        ),
{
    let ghost s1 = seq![account_client_id];
    let ghost s2 = seq![account_client_id, panel_client_id];
    assert(s2.drop_last() =~= s1);
    assert(s1.drop_last() =~= Seq::<Option<String>>::empty());
    assert(s1.last() == account_client_id);
    assert(s2.last() == panel_client_id);
    assert(present(s1.drop_last()) =~= Seq::<Seq<char>>::empty());
    let mut ids: Vec<String> = Vec::new();
    let ghost mut done: Seq<Seq<char>> = Seq::empty();
    assert(string_views(ids@) =~= distinct_ids(done));
    match &account_client_id {
        Some(id) => {
            push_distinct(&mut ids, id.as_str());
            proof {
                assert(done.push(id@).drop_last() =~= done);
                done = done.push(id@);
            }
        },
        None => {},
    }
    assert(done =~= present(s1)) by {
        match account_client_id {
            Some(id) => {},
            None => {},
        }
    }
    assert(string_views(ids@) == distinct_ids(done));
    match &panel_client_id {
        Some(id) => {
            push_distinct(&mut ids, id.as_str());
            proof {
                assert(done.push(id@).drop_last() =~= done);
                done = done.push(id@);
            }
        },
        None => {},
    }
    assert(done =~= present(s2)) by {
        match panel_client_id {
            Some(id) => {},
            None => {},
        }
    }
    assert(string_views(ids@) == distinct_ids(done));
    push_distinct(&mut ids, default_id);
    proof {
        assert(done.push(default_id@).drop_last() =~= done);
    }
    ids
}

/// Whether a name may be an offline account: 3 to 16 ASCII letters, digits
/// or underscores.
pub open spec fn username_ok(name: Seq<char>) -> bool {
    3 <= name.len() <= 16 && forall|i: int|
        0 <= i < name.len() ==> spec_is_ascii_alphanumeric(name[i]) || name[i] == '_'
}

pub fn is_valid_username(username: &str) -> (r: bool)
    ensures
        r == username_ok(username@),
{
    let v = to_chars(username);
    if v.len() < 3 || v.len() > 16 {
        return false;
    }
    let mut i: usize = 0;
    while i < v.len()
        invariant
            i <= v@.len(),
            v@ == username@,
            forall|k: int| 0 <= k < i ==> spec_is_ascii_alphanumeric(v@[k]) || v@[k] == '_',
        decreases v@.len() - i,
    {
        if !(crate::text::is_ascii_alphanumeric(v[i]) || v[i] == '_') {
            return false;
        }
        i += 1;
    }
    true
}

/// The name of a new offline account: refused when the panel does not
/// enable offline accounts, or when the trimmed name is not valid.
pub fn offline_username(offline_enabled: bool, username: &str) -> (r: Result<String, AppError>)
    ensures
        match r {
            Ok(name) => offline_enabled && username_ok(trim(username@)) && name@ == trim(
                username@,
            ),
            Err(e) => if !offline_enabled {
                is_error(e, "auth_method_disabled"@, "offline accounts are not enabled"@)
            } else {
                !username_ok(trim(username@)) && is_error(
                    e,
                    "auth_invalid_username"@,
                    "username must be 3 to 16 letters, digits or underscores"@,
                )
            },
        },
{
    if !offline_enabled {
        return Err(AppError::new("auth_method_disabled", "offline accounts are not enabled"));
    }
    let name = from_chars(&trim_chars(&to_chars(username)));
    if !is_valid_username(name.as_str()) {
        return Err(
            AppError::new(
                "auth_invalid_username",
                "username must be 3 to 16 letters, digits or underscores",
            ),
        );
    }
    Ok(name)
}

/// The name a Yggdrasil sign-in is attempted with: refused without a
/// server, and without a name or a password.
pub fn yggdrasil_username(has_server: bool, username: &str, password: &str) -> (r: Result<
    String,
    AppError,
>)
    ensures
        match r {
            Ok(name) => has_server && trim(username@).len() > 0 && password@.len() > 0 && name@
                == trim(username@),
            Err(e) => if !has_server {
                is_error(e, "auth_method_disabled"@, "no Yggdrasil server is configured"@)
            } else {
                (trim(username@).len() == 0 || password@.len() == 0) && is_error(
                    e,
                    "auth_invalid_credentials"@,
                    "username and password are required"@,
                )
            },
        },
{
    if !has_server {
        return Err(AppError::new("auth_method_disabled", "no Yggdrasil server is configured"));
    }
    let name = trim_chars(&to_chars(username));
    if name.len() == 0 || password.is_empty() {
        return Err(
            AppError::new("auth_invalid_credentials", "username and password are required"),
        );
    }
    Ok(from_chars(&name))
}

/// Whether the official launcher's own configuration signs in for this id:
/// a blank id, or the official one.
pub fn uses_default_application(client_id: &str, default_id: &str) -> (r: bool)
    ensures
        r == (trim(client_id@).len() == 0 || trim(client_id@) == default_id@),
{
    let t = trim_chars(&to_chars(client_id));
    t.len() == 0 || eq_chars(&t, &to_chars(default_id))
}

/// An authentication refusal moves on to the next application id; any other
/// failure says nothing about the session and stops there.
pub fn refusal_moves_on(code: &str) -> (r: bool)
    ensures
        r == (code@ == "auth_expired"@ || code@ == "auth_denied"@),
{
    let c = to_chars(code);
    eq_chars(&c, &to_chars("auth_expired")) || eq_chars(&c, &to_chars("auth_denied"))
}

pub open spec fn transient(code: Seq<char>) -> bool {
    code == "network"@ || code == "timeout"@ || code == "api_unavailable"@
}

/// What a failed renewal means: a network problem keeps the stored session
/// usable (`None`); anything else expires it, and the caller marks the
/// account as needing a new sign-in.
pub fn renewal_failure(failure: &AppError) -> (r: Option<AppError>)
    ensures
        match r {
            None => transient(failure.code@),
            Some(e) => {
                &&& !transient(failure.code@)
                &&& e.code@ == "auth_expired"@
                &&& e.message@ == failure.message@
                &&& e.details matches Some(d) && d@ == failure.code@
            },
        },
{
    let c = to_chars(failure.code.as_str());
    if eq_chars(&c, &to_chars("network")) || eq_chars(&c, &to_chars("timeout")) || eq_chars(
        &c,
        &to_chars("api_unavailable"),
    ) {
        return None;
    }
    Some(
        AppError::new("auth_expired", failure.message.as_str()).with_details(
            failure.code.as_str(),
        ),
    )
}


/// Microsoft sign-in only when the panel enables it.
pub fn check_microsoft_enabled(enabled: bool) -> (r: Result<(), AppError>)
    ensures
        enabled <==> r is Ok,
        r matches Err(e) ==> is_error(e, "auth_method_disabled"@, "Microsoft sign-in is not enabled"@),
{
    if !enabled {
        return Err(AppError::new("auth_method_disabled", "Microsoft sign-in is not enabled"));
    }
    Ok(())
}

/// What an AZauth sign-in is attempted with.
pub struct AzAuthAttempt {
    pub site: String,
    /// The e-mail, trimmed.
    pub email: String,
    /// The one-time code, trimmed; a blank one is none.
    pub code: Option<String>,
}

/// Refused when the panel enables no AZauth site, and without an e-mail or
/// a password.
pub fn azauth_attempt(site: Option<String>, email: &str, password: &str, code: Option<String>) -> (r:
    Result<AzAuthAttempt, AppError>)
    ensures
        match r {
            Ok(a) => site == Some(a.site) && trim(email@).len() > 0 && password@.len() > 0
                && a.email@ == trim(email@) && opt_view(a.code) == match code {
                Some(c) => if trim(c@).len() > 0 {
                    Some(trim(c@))
                } else {
                    None
                },
                None => None,
            },
            Err(e) => if site is None {
                is_error(e, "auth_method_disabled"@, "AZauth sign-in is not enabled"@)
            } else {
                (trim(email@).len() == 0 || password@.len() == 0) && is_error(
                    e,
                    "auth_invalid_credentials"@,
                    "email and password are required"@,
                )
            },
        },
{
    let site = match site {
        Some(s) => s,
        None => return Err(AppError::new("auth_method_disabled", "AZauth sign-in is not enabled")),
    };
    let email = trim_chars(&to_chars(email));
    if email.len() == 0 || password.is_empty() {
        return Err(AppError::new("auth_invalid_credentials", "email and password are required"));
    }
    let code = match code {
        Some(c) => {
            let t = trim_chars(&to_chars(c.as_str()));
            if t.len() > 0 {
                Some(from_chars(&t))
            } else {
                None
            }
        },
        None => None,
    };
    Ok(AzAuthAttempt { site, email: from_chars(&email), code })
}

/// The selected account once `removed` is gone: unchanged, unless it was
/// the removed one.
pub fn selection_after_removal(selected: Option<String>, removed: &str) -> (r: Option<String>)
    ensures
        r == match selected {
            Some(s) => if s@ == removed@ {
                None
            } else {
                Some(s)
            },
            None => None::<String>,
        },
{
    match selected {
        Some(s) => if eq_chars(&to_chars(s.as_str()), &to_chars(removed)) {
            None
        } else {
            Some(s)
        },
        None => None,
    }
}

// ── Renewing a session ──────────────────────────────────────────────────────

/// How a stored session is renewed before it is used.
pub enum Renewal {
    /// Use the stored session as it is.
    Keep,
    /// Renew the Microsoft session, under `refresh_client_ids`.
    Microsoft,
    /// Verify the session with this AZauth site.
    AzAuth(String),
}

/// Offline and Yggdrasil sessions are used as they are. A Microsoft session
/// that does not remember its application id has only the panel's to go on:
/// without the panel, it is kept rather than risk a false "expired" under the
/// official id. An AZauth session is verified when the site is known (kept
/// while offline).
pub fn renewal_for(
    kind: crate::accounts::AccountKind,
    has_client_id: bool,
    panel_known: bool,
    azauth_site: Option<String>,
) -> (r: Renewal)
    ensures
        match kind {
            crate::accounts::AccountKind::Microsoft => if !has_client_id && !panel_known {
                r is Keep
            } else {
                r is Microsoft
            },
            crate::accounts::AccountKind::AzAuth => match azauth_site {
                Some(site) => r == Renewal::AzAuth(site),
                None => r is Keep,
            },
            _ => r is Keep,
        },
{
    match kind {
        crate::accounts::AccountKind::Microsoft => if !has_client_id && !panel_known {
            Renewal::Keep
        } else {
            Renewal::Microsoft
        },
        crate::accounts::AccountKind::AzAuth => match azauth_site {
            Some(site) => Renewal::AzAuth(site),
            None => Renewal::Keep,
        },
        _ => Renewal::Keep,
    }
}

/// The account a renewal starts from: the stored account of this uuid and
/// its kind, or `account_unknown` when none is stored.
pub fn renewal_subject<'a, A>(
    store: &'a AccountStore<A>,
    uuid: &str,
) -> (r: Result<(&'a A, AccountKind), AppError>)
    ensures
        position_of(store.entries(), uuid@) < 0 ==> (r matches Err(e) && is_error(
            e,
            "account_unknown"@,
            "unknown account"@,
        )),
        position_of(store.entries(), uuid@) >= 0 ==> (r matches Ok(found) && {
            let stored = store.entries()[position_of(store.entries(), uuid@)];
            &&& *found.0 == stored.account
            &&& found.1 == AccountKind::spec_of(stored.record.kind, stored.record.online)
        }),
{
    let summary = match store.get(uuid) {
        Some(s) => s,
        None => {
            return Err(AppError::new("account_unknown", "unknown account"));
        },
    };
    match store.load_account(uuid) {
        Ok(account) => Ok((account, summary.kind)),
        Err(e) => Err(e),
    }
}

/// What a renewal that was attempted leaves: a fresh session is stored and
/// its summary given (`Some`); a network problem keeps the stored session
/// (`None`, nothing changed); any other failure marks the account as needing
/// a new sign-in and answers `auth_expired` with the failure's message, and
/// its code as details.
pub fn finish_renewal<A>(
    store: &mut AccountStore<A>,
    uuid: &str,
    outcome: Result<(A, AccountRecord), AppError>,
    now: u64,
) -> (r: Result<Option<AccountSummary>, AppError>)
    ensures
        match outcome {
            Ok(fresh) => {
                &&& final(store).entries() == upserted(old(store).entries(), fresh.0, fresh.1, now)
                &&& r matches Ok(Some(s)) && summary_view(s) == summary_of(
                    StoredAccount {
                        account: fresh.0,
                        record: fresh.1,
                        added_at: if position_of(old(store).entries(), fresh.1.uuid@) >= 0 {
                            old(store).entries()[position_of(
                                old(store).entries(),
                                fresh.1.uuid@,
                            )].added_at
                        } else {
                            now
                        },
                        needs_reauth: false,
                    },
                )
            },
            Err(f) => if transient(f.code@) {
                &&& final(store).entries() == old(store).entries()
                &&& r == Ok::<Option<AccountSummary>, AppError>(None)
            } else {
                &&& final(store).entries() == flagged(old(store).entries(), uuid@, true)
                &&& r matches Err(e) && e.code@ == "auth_expired"@ && e.message@ == f.message@
                    && (e.details matches Some(d) && d@ == f.code@)
            },
        },
{
    match outcome {
        Ok((account, record)) => {
            let summary = store.upsert(account, record, now);
            Ok(Some(summary))
        },
        Err(failure) => match renewal_failure(&failure) {
            None => Ok(None),
            Some(expired) => {
                store.set_needs_reauth(uuid, true);
                Err(expired)
            },
        },
    }
}

/// Renewal under application ids taken in turn: a refusal moves on to the
/// next id and the first one is remembered; any other failure stops there.
pub struct Refusals {
    first: Option<AppError>,
}

impl Refusals {
    pub closed spec fn first(&self) -> Option<AppError> {
        self.first
    }

    pub fn new() -> (r: Refusals)
        ensures
            r.first() is None,
    {
        Refusals { first: None }
    }

    /// A renewal under one id failed: `Some` is the error to stop with,
    /// `None` means to try the next id.
    pub fn failed(&mut self, failure: AppError) -> (r: Option<AppError>)
        ensures
            failure.code@ == "auth_expired"@ || failure.code@ == "auth_denied"@ ==> r is None
                && final(self).first() == match old(self).first() {
                Some(e) => Some(e),
                None => Some(failure),
            },
            !(failure.code@ == "auth_expired"@ || failure.code@ == "auth_denied"@) ==> r == Some(
                failure,
            ) && final(self).first() == old(self).first(),
    {
        if !refusal_moves_on(failure.code.as_str()) {
            return Some(failure);
        }
        if self.first.is_none() {
            self.first = Some(failure);
        }
        None
    }

    /// Every id refused: the first refusal, or, with no id at all, an
    /// expired session.
    pub fn exhausted(self) -> (r: AppError)
        ensures
            match self.first() {
                Some(e) => r == e,
                None => is_error(r, "auth_expired"@, "no application id to renew the session with"@),
            },
    {
        match self.first {
            Some(e) => e,
            None => AppError::new("auth_expired", "no application id to renew the session with"),
        }
    }
}

/// A renewed session records the application id it was renewed under when
/// the token changed.
pub fn records_client_id(old_token: &str, new_token: &str) -> (r: bool)
    ensures
        r == (old_token@ != new_token@),
{
    !eq_chars(&to_chars(old_token), &to_chars(new_token))
}

/// A username is 3 to 16 characters, each an ASCII letter (`a`-`z`,
/// `A`-`Z`), an ASCII digit (`0`-`9`) or `_`; any such name is valid, and
/// no other.
pub proof fn law_usernames(name: Seq<char>)
    ensures
        username_ok(name) <==> (3 <= name.len() <= 16 && forall|i: int|
            0 <= i < name.len() ==> {
                let u = #[trigger] name[i] as u32;
                (0x61 <= u <= 0x7a) || (0x41 <= u <= 0x5a) || (0x30 <= u <= 0x39) || name[i] == '_'
            }),
{
}

} // verus!
