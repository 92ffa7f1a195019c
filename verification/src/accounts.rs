//! Multi-account store.
//!
//! Each entry keeps the full account of the authentication library (tokens
//! included, opaque here: the type parameter `A`) beside an `AccountRecord`,
//! the plain values the launcher reads from it, and the launcher's own
//! bookkeeping. Nothing sensitive ever reaches the interface: it only gets
//! `AccountSummary` values, built from the record.

use vstd::prelude::*;

use crate::error::{is_error, AppError};
use crate::text::{copy_opt, eq_chars, from_chars, opt_view, to_chars, to_lowercase, unicode_lower};

verus! {

pub const FORMAT_VERSION: u32 = 1;

#[derive(Clone, Copy, PartialEq, Eq, Debug, Structural)]
pub enum AccountKind {
    Microsoft,
    AzAuth,
    Offline,
    Yggdrasil,
}

/// The account types the authentication library records.
#[derive(Clone, Copy, PartialEq, Eq, Debug, Structural)]
pub enum AccountType {
    Xbox,
    AzAuth,
    Mojang,
}

/// A skin of the account's Minecraft profile.
pub struct ProfileSkin {
    pub url: String,
    pub state: Option<String>,
    pub variant: Option<String>,
    /// AZauth sites embed the skin as a data URL.
    pub base64: Option<String>,
}

/// A cape of the account's Minecraft profile.
pub struct ProfileCape {
    pub id: Option<String>,
    pub url: String,
    pub state: Option<String>,
    pub alias: Option<String>,
}

/// AZauth site information, as recorded on the account.
pub struct UserInfo {
    pub banned: Option<bool>,
    /// The balance, as the decimal text the site sent.
    pub money: Option<String>,
    /// The role, as JSON text.
    pub role: Option<String>,
    pub verified: Option<bool>,
}

/// What the launcher reads from a stored account.
pub struct AccountRecord {
    pub uuid: String,
    pub name: String,
    pub kind: AccountType,
    pub online: Option<bool>,
    /// Minecraft token expiry (unix millis).
    pub access_token_expires_in: Option<u64>,
    pub skins: Vec<ProfileSkin>,
    pub capes: Vec<ProfileCape>,
    pub gamertag: Option<String>,
    /// Name of the game ownership the Xbox sign-in found, as written by `Debug`.
    pub ownership: String,
    pub user_info: Option<UserInfo>,
}

/// AZauth site information (money, role, ...).
pub struct AccountExtra {
    pub banned: Option<bool>,
    pub money: Option<String>,
    pub role: Option<String>,
    pub verified: Option<bool>,
}

/// What the interface is allowed to know about an account.
pub struct AccountSummary {
    pub uuid: String,
    pub name: String,
    pub kind: AccountKind,
    pub online: bool,
    pub skin_url: Option<String>,
    /// `CLASSIC` or `SLIM` for Microsoft accounts.
    pub skin_variant: Option<String>,
    /// AZauth sites embed the skin as a data URL.
    pub skin_data_url: Option<String>,
    pub cape_url: Option<String>,
    pub cape_alias: Option<String>,
    /// Minecraft token expiry (unix millis) for Microsoft accounts.
    pub expires_at: Option<u64>,
    /// The stored session could not be renewed: the user must sign in again.
    pub needs_reauth: bool,
    pub added_at: u64,
    pub gamertag: Option<String>,
    pub ownership: Option<String>,
    pub extra: Option<AccountExtra>,
}

/// One entry of `accounts.json`: the full account plus launcher bookkeeping.
pub struct StoredAccount<A> {
    pub account: A,
    pub record: AccountRecord,
    pub added_at: u64,
    pub needs_reauth: bool,
}

impl AccountKind {
    /// The kind of account a record describes: an Xbox sign-in is Microsoft;
    /// a Mojang-type account is Yggdrasil when online, offline otherwise.
    pub open spec fn spec_of(kind: AccountType, online: Option<bool>) -> AccountKind {
        match kind {
            AccountType::Xbox => AccountKind::Microsoft,
            AccountType::AzAuth => AccountKind::AzAuth,
            AccountType::Mojang => if online == Some(true) {
                AccountKind::Yggdrasil
            } else {
                AccountKind::Offline
            },
        }
    }

    pub fn of(account: &AccountRecord) -> (r: AccountKind)
        ensures
            r == AccountKind::spec_of(account.kind, account.online),
    {
        match account.kind {
            AccountType::Xbox => AccountKind::Microsoft,
            AccountType::AzAuth => AccountKind::AzAuth,
            AccountType::Mojang => match account.online {
                Some(true) => AccountKind::Yggdrasil,
                _ => AccountKind::Offline,
            },
        }
    }
}

// ── Summaries ───────────────────────────────────────────────────────────────

pub struct ExtraModel {
    pub banned: Option<bool>,
    pub money: Option<Seq<char>>,
    pub role: Option<Seq<char>>,
    pub verified: Option<bool>,
}

pub struct SummaryModel {
    pub uuid: Seq<char>,
    pub name: Seq<char>,
    pub kind: AccountKind,
    pub online: bool,
    pub skin_url: Option<Seq<char>>,
    pub skin_variant: Option<Seq<char>>,
    pub skin_data_url: Option<Seq<char>>,
    pub cape_url: Option<Seq<char>>,
    pub cape_alias: Option<Seq<char>>,
    pub expires_at: Option<u64>,
    pub needs_reauth: bool,
    pub added_at: u64,
    pub gamertag: Option<Seq<char>>,
    pub ownership: Option<Seq<char>>,
    pub extra: Option<ExtraModel>,
}

pub open spec fn summary_view(s: AccountSummary) -> SummaryModel {
    SummaryModel {
        uuid: s.uuid@,
        name: s.name@,
        kind: s.kind,
        online: s.online,
        skin_url: opt_view(s.skin_url),
        skin_variant: opt_view(s.skin_variant),
        skin_data_url: opt_view(s.skin_data_url),
        cape_url: opt_view(s.cape_url),
        cape_alias: opt_view(s.cape_alias),
        expires_at: s.expires_at,
        needs_reauth: s.needs_reauth,
        added_at: s.added_at,
        gamertag: opt_view(s.gamertag),
        ownership: opt_view(s.ownership),
        extra: match s.extra {
            Some(e) => Some(
                ExtraModel {
                    banned: e.banned,
                    money: opt_view(e.money),
                    role: opt_view(e.role),
                    verified: e.verified,
                },
            ),
            None => None,
        },
    }
}

pub open spec fn summary_views(v: Seq<AccountSummary>) -> Seq<SummaryModel> {
    v.map_values(|s: AccountSummary| summary_view(s))
}

pub open spec fn is_active(state: Option<String>) -> bool {
    opt_view(state) == Some("ACTIVE"@)
}

/// Index of the first skin marked active.
pub open spec fn first_active_skin(skins: Seq<ProfileSkin>) -> int
    decreases skins.len(),
{
    if skins.len() == 0 {
        -1
    } else if is_active(skins.last().state) && first_active_skin(skins.drop_last()) < 0 {
        skins.len() - 1
    } else {
        first_active_skin(skins.drop_last())
    }
}

/// Index of the first cape marked active.
pub open spec fn first_active_cape(capes: Seq<ProfileCape>) -> int
    decreases capes.len(),
{
    if capes.len() == 0 {
        -1
    } else if is_active(capes.last().state) && first_active_cape(capes.drop_last()) < 0 {
        capes.len() - 1
    } else {
        first_active_cape(capes.drop_last())
    }
}

/// The skin shown for an account: the active one, else the first one.
pub open spec fn shown_skin(skins: Seq<ProfileSkin>) -> Option<ProfileSkin> {
    if first_active_skin(skins) >= 0 {
        Some(skins[first_active_skin(skins)])
    } else if skins.len() > 0 {
        Some(skins[0])
    } else {
        None
    }
}

pub open spec fn worn_cape(capes: Seq<ProfileCape>) -> Option<ProfileCape> {
    if first_active_cape(capes) >= 0 {
        Some(capes[first_active_cape(capes)])
    } else {
        None
    }
}

/// The summary of a stored account.
pub open spec fn summary_of<A>(stored: StoredAccount<A>) -> SummaryModel {
    let r = stored.record;
    let skin = shown_skin(r.skins@);
    let cape = worn_cape(r.capes@);
    SummaryModel {
        uuid: r.uuid@,
        name: r.name@,
        kind: AccountKind::spec_of(r.kind, r.online),
        online: r.online != Some(false),
        skin_url: match skin {
            Some(s) => if s.url@.len() > 0 {
                Some(s.url@)
            } else {
                None
            },
            None => None,
        },
        skin_variant: match skin {
            Some(s) => opt_view(s.variant),
            None => None,
        },
        skin_data_url: match skin {
            Some(s) => opt_view(s.base64),
            None => None,
        },
        cape_url: match cape {
            Some(c) => Some(c.url@),
            None => None,
        },
        cape_alias: match cape {
            Some(c) => opt_view(c.alias),
            None => None,
        },
        expires_at: r.access_token_expires_in,
        needs_reauth: stored.needs_reauth,
        added_at: stored.added_at,
        gamertag: opt_view(r.gamertag),
        ownership: match r.kind {
            AccountType::Xbox => Some(unicode_lower(r.ownership@)),
            _ => None,
        },
        extra: match r.user_info {
            Some(i) => Some(
                ExtraModel {
                    banned: i.banned,
                    money: opt_view(i.money),
                    role: opt_view(i.role),
                    verified: i.verified,
                },
            ),
            None => None,
        },
    }
}

fn state_is_active(state: &Option<String>) -> (r: bool)
    ensures
        r == is_active(*state),
{
    match state {
        Some(s) => eq_chars(&to_chars(s.as_str()), &to_chars("ACTIVE")),
        None => false,
    }
}

fn active_skin_index(skins: &Vec<ProfileSkin>) -> (r: Option<usize>)
    ensures
        match r {
            Some(i) => i == first_active_skin(skins@) && i < skins@.len(),
            None => first_active_skin(skins@) < 0,
        },
{
    let mut i: usize = 0;
    while i < skins.len()
        invariant
            i <= skins@.len(),
            first_active_skin(skins@.take(i as int)) < 0,
        decreases skins@.len() - i,
    {
        assert(skins@.take(i + 1).drop_last() =~= skins@.take(i as int));
        if state_is_active(&skins[i].state) {
            proof {
                lemma_first_active_skin_prefix(skins@, i as int);
            }
            return Some(i);
        }
        i += 1;
    }
    assert(skins@.take(i as int) =~= skins@);
    None
}

proof fn lemma_first_active_skin_prefix(skins: Seq<ProfileSkin>, i: int)
    requires
        0 <= i < skins.len(),
        first_active_skin(skins.take(i)) < 0,
        is_active(skins[i].state),
    ensures
        first_active_skin(skins) == i,
    decreases skins.len(),
{
    if i < skins.len() - 1 {
        assert(skins.drop_last().take(i) =~= skins.take(i));
        lemma_first_active_skin_prefix(skins.drop_last(), i);
    } else {
        assert(skins.drop_last() =~= skins.take(i));
    }
}

proof fn lemma_first_active_cape_prefix(capes: Seq<ProfileCape>, i: int)
    requires
        0 <= i < capes.len(),
        first_active_cape(capes.take(i)) < 0,
        is_active(capes[i].state),
    ensures
        first_active_cape(capes) == i,
    decreases capes.len(),
{
    if i < capes.len() - 1 {
        assert(capes.drop_last().take(i) =~= capes.take(i));
        lemma_first_active_cape_prefix(capes.drop_last(), i);
    } else {
        assert(capes.drop_last() =~= capes.take(i));
    }
}

fn active_cape_index(capes: &Vec<ProfileCape>) -> (r: Option<usize>)
    ensures
        match r {
            Some(i) => i == first_active_cape(capes@) && i < capes@.len(),
            None => first_active_cape(capes@) < 0,
        },
{
    let mut i: usize = 0;
    while i < capes.len()
        invariant
            i <= capes@.len(),
            first_active_cape(capes@.take(i as int)) < 0,
        decreases capes@.len() - i,
    {
        assert(capes@.take(i + 1).drop_last() =~= capes@.take(i as int));
        if state_is_active(&capes[i].state) {
            proof {
                lemma_first_active_cape_prefix(capes@, i as int);
            }
            return Some(i);
        }
        i += 1;
    }
    assert(capes@.take(i as int) =~= capes@);
    None
}

/// The id of the cape the account wears, if it has one.
pub fn active_cape_id(record: &AccountRecord) -> (r: Option<String>)
    ensures
        opt_view(r) == match worn_cape(record.capes@) {
            Some(c) => opt_view(c.id),
            None => None,
        },
{
    worn_cape_id(&record.capes)
}

/// The id of the cape worn among a profile's capes, if one is.
pub fn worn_cape_id(capes: &Vec<ProfileCape>) -> (r: Option<String>)
    ensures
        opt_view(r) == match worn_cape(capes@) {
            Some(c) => opt_view(c.id),
            None => None,
        },
{
    match active_cape_index(capes) {
        Some(i) => copy_opt(&capes[i].id),
        None => None,
    }
}

impl AccountSummary {
    pub fn from_stored<A>(stored: &StoredAccount<A>) -> (r: AccountSummary)
        ensures
            summary_view(r) == summary_of(*stored),
    {
        let record = &stored.record;
        let skin: Option<&ProfileSkin> = match active_skin_index(&record.skins) {
            Some(i) => Some(&record.skins[i]),
            None => if record.skins.len() > 0 {
                Some(&record.skins[0])
            } else {
                None
            },
        };
        let cape: Option<&ProfileCape> = match active_cape_index(&record.capes) {
            Some(i) => Some(&record.capes[i]),
            None => None,
        };
        let skin_url = match skin {
            Some(s) => if !s.url.as_str().is_empty() {
                Some(s.url.clone())
            } else {
                None
            },
            None => None,
        };
        AccountSummary {
            uuid: record.uuid.clone(),
            name: record.name.clone(),
            kind: AccountKind::of(record),
            online: match record.online {
                Some(false) => false,
                _ => true,
            },
            skin_url,
            skin_variant: match skin {
                Some(s) => copy_opt(&s.variant),
                None => None,
            },
            skin_data_url: match skin {
                Some(s) => copy_opt(&s.base64),
                None => None,
            },
            cape_url: match cape {
                Some(c) => Some(c.url.clone()),
                None => None,
            },
            cape_alias: match cape {
                Some(c) => copy_opt(&c.alias),
                None => None,
            },
            expires_at: record.access_token_expires_in,
            needs_reauth: stored.needs_reauth,
            added_at: stored.added_at,
            gamertag: copy_opt(&record.gamertag),
            ownership: match record.kind {
                AccountType::Xbox => Some(from_chars(&to_lowercase(record.ownership.as_str()))),
                _ => None,
            },
            extra: match &record.user_info {
                Some(i) => Some(
                    AccountExtra {
                        banned: i.banned,
                        money: copy_opt(&i.money),
                        role: copy_opt(&i.role),
                        verified: i.verified,
                    },
                ),
                None => None,
            },
        }
    }
}

// ── The store ───────────────────────────────────────────────────────────────

/// Index of the first stored account with this uuid, or -1.
pub open spec fn position_of<A>(entries: Seq<StoredAccount<A>>, uuid: Seq<char>) -> int
    decreases entries.len(),
{
    if entries.len() == 0 {
        -1
    } else if entries[0].record.uuid@ == uuid {
        0
    } else {
        let k = position_of(entries.drop_first(), uuid);
        if k < 0 {
            -1
        } else {
            k + 1
        }
    }
}

pub proof fn lemma_position_of<A>(entries: Seq<StoredAccount<A>>, uuid: Seq<char>, j: int)
    requires
        0 <= j <= entries.len(),
        forall|k: int| 0 <= k < j ==> entries[k].record.uuid@ != uuid,
    ensures
        j < entries.len() && entries[j].record.uuid@ == uuid ==> position_of(entries, uuid) == j,
        j == entries.len() ==> position_of(entries, uuid) == -1,
    decreases j,
{
    if j > 0 {
        lemma_position_of(entries.drop_first(), uuid, j - 1);
    } else if entries.len() > 0 {
        if entries[0].record.uuid@ != uuid {
        }
    }
}

pub proof fn lemma_position_bounds<A>(entries: Seq<StoredAccount<A>>, uuid: Seq<char>)
    ensures
        -1 <= position_of(entries, uuid) < entries.len(),
        position_of(entries, uuid) >= 0 ==> entries[position_of(entries, uuid)].record.uuid@ == uuid,
        position_of(entries, uuid) >= 0 ==> forall|k: int|
            0 <= k < position_of(entries, uuid) ==> entries[k].record.uuid@ != uuid,
        position_of(entries, uuid) < 0 ==> forall|k: int|
            0 <= k < entries.len() ==> entries[k].record.uuid@ != uuid,
    decreases entries.len(),
{
    if entries.len() > 0 {
        lemma_position_bounds(entries.drop_first(), uuid);
        let t = entries.drop_first();
        assert forall|k: int| 1 <= k < entries.len() implies entries[k] == t[k - 1] by {}
    }
}

/// The entries once `account` is stored: it replaces the first entry with
/// the same uuid, keeping the date that entry was added, or comes last,
/// added `now`. A stored session is never marked as needing a sign-in.
pub open spec fn upserted<A>(
    entries: Seq<StoredAccount<A>>,
    account: A,
    record: AccountRecord,
    now: u64,
) -> Seq<StoredAccount<A>> {
    let p = position_of(entries, record.uuid@);
    if p >= 0 {
        entries.update(
            p,
            StoredAccount { account, record, added_at: entries[p].added_at, needs_reauth: false },
        )
    } else {
        entries.push(StoredAccount { account, record, added_at: now, needs_reauth: false })
    }
}

/// The entries without any account of this uuid, in order.
pub open spec fn without_uuid<A>(entries: Seq<StoredAccount<A>>, uuid: Seq<char>) -> Seq<
    StoredAccount<A>,
>
    decreases entries.len(),
{
    if entries.len() == 0 {
        entries
    } else {
        let prev = without_uuid(entries.drop_last(), uuid);
        if entries.last().record.uuid@ == uuid {
            prev
        } else {
            prev.push(entries.last())
        }
    }
}

/// The entries once the first account of this uuid has its flag set.
pub open spec fn flagged<A>(entries: Seq<StoredAccount<A>>, uuid: Seq<char>, needs_reauth: bool) -> Seq<
    StoredAccount<A>,
> {
    let p = position_of(entries, uuid);
    if p >= 0 {
        entries.update(
            p,
            StoredAccount {
                account: entries[p].account,
                record: entries[p].record,
                added_at: entries[p].added_at,
                needs_reauth,
            },
        )
    } else {
        entries
    }
}

/// The accounts of one client, in the order they were added.
pub struct AccountStore<A> {
    accounts: Vec<StoredAccount<A>>,
}

impl<A> AccountStore<A> {
    pub closed spec fn entries(&self) -> Seq<StoredAccount<A>> {
        self.accounts@
    }

    /// A store holding what `accounts.json` held.
    pub fn new(accounts: Vec<StoredAccount<A>>) -> (s: Self)
        ensures
            s.entries() == accounts@,
    {
        AccountStore { accounts }
    }

    /// The entries, as they are written to `accounts.json`.
    pub fn stored(&self) -> (r: &Vec<StoredAccount<A>>)
        ensures
            r@ == self.entries(),
    {
        &self.accounts
    }

    fn find(&self, uuid: &str) -> (r: Option<usize>)
        ensures
            match r {
                Some(p) => p == position_of(self.entries(), uuid@) && p < self.entries().len(),
                None => position_of(self.entries(), uuid@) < 0,
            },
    {
        let wanted = to_chars(uuid);
        let mut i: usize = 0;
        while i < self.accounts.len()
            invariant
                i <= self.accounts@.len(),
                wanted@ == uuid@,
                forall|k: int| 0 <= k < i ==> self.accounts@[k].record.uuid@ != uuid@,
            decreases self.accounts@.len() - i,
        {
            if eq_chars(&to_chars(self.accounts[i].record.uuid.as_str()), &wanted) {
                proof {
                    lemma_position_of(self.accounts@, uuid@, i as int);
                }
                return Some(i);
            }
            i += 1;
        }
        proof {
            lemma_position_of(self.accounts@, uuid@, i as int);
        }
        None
    }

    pub fn list(&self) -> (r: Vec<AccountSummary>)
        ensures
            summary_views(r@) == self.entries().map_values(|e: StoredAccount<A>| summary_of(e)),
    {
        let mut r: Vec<AccountSummary> = Vec::new();
        let mut i: usize = 0;
        while i < self.accounts.len()
            invariant
                i <= self.accounts@.len(),
                summary_views(r@) == self.accounts@.take(i as int).map_values(
                    |e: StoredAccount<A>| summary_of(e),
                ),
            decreases self.accounts@.len() - i,
        {
            let ghost before = r@;
            let s = AccountSummary::from_stored(&self.accounts[i]);
            r.push(s);
            assert(r@ =~= before.push(s));
            assert(summary_views(r@) =~= summary_views(before).push(summary_view(s)));
            assert(self.accounts@.take(i + 1) =~= self.accounts@.take(i as int).push(
                self.accounts@[i as int],
            ));
            i += 1;
            assert(summary_views(r@) =~= self.accounts@.take(i as int).map_values(
                |e: StoredAccount<A>| summary_of(e),
            ));
        }
        assert(self.accounts@.take(i as int) =~= self.accounts@);
        r
    }

    pub fn get(&self, uuid: &str) -> (r: Option<AccountSummary>)
        ensures
            match r {
                Some(s) => position_of(self.entries(), uuid@) >= 0 && summary_view(s)
                    == summary_of(self.entries()[position_of(self.entries(), uuid@)]),
                None => position_of(self.entries(), uuid@) < 0,
            },
    {
        match self.find(uuid) {
            Some(p) => Some(AccountSummary::from_stored(&self.accounts[p])),
            None => None,
        }
    }

    /// Stores (or replaces) an account, `now` being the current time.
    pub fn upsert(&mut self, account: A, record: AccountRecord, now: u64) -> (r: AccountSummary)
        ensures
            final(self).entries() == upserted(old(self).entries(), account, record, now),
            summary_view(r) == summary_of(
                final(self).entries()[position_of(old(self).entries(), record.uuid@)],
            ) || (position_of(old(self).entries(), record.uuid@) < 0 && summary_view(r)
                == summary_of(final(self).entries().last())),
            summary_view(r) == summary_of(
                (StoredAccount {
                    account,
                    record,
                    added_at: if position_of(old(self).entries(), record.uuid@) >= 0 {
                        old(self).entries()[position_of(old(self).entries(), record.uuid@)].added_at
                    } else {
                        now
                    },
                    needs_reauth: false,
                }),
            ),
    {
        let existing = self.find(record.uuid.as_str());
        let added_at = match existing {
            Some(p) => self.accounts[p].added_at,
            None => now,
        };
        let stored = StoredAccount { account, record, added_at, needs_reauth: false };
        let summary = AccountSummary::from_stored(&stored);
        match existing {
            Some(p) => {
                self.accounts.set(p, stored);
            },
            None => {
                self.accounts.push(stored);
            },
        }
        summary
    }

    pub fn remove(&mut self, uuid: &str)
        ensures
            final(self).entries() == without_uuid(old(self).entries(), uuid@),
    {
        let ghost all = self.accounts@;
        let wanted = to_chars(uuid);
        let mut rest: Vec<StoredAccount<A>> = Vec::new();
        std::mem::swap(&mut rest, &mut self.accounts);
        let n = rest.len();
        let mut i: usize = 0;
        while i < n
            invariant
                i <= n == all.len(),
                wanted@ == uuid@,
                rest@ == all.skip(i as int),
                self.accounts@ == without_uuid(all.take(i as int), uuid@),
            decreases n - i,
        {
            assert(all.take(i + 1).drop_last() =~= all.take(i as int));
            assert(all.skip(i + 1) =~= all.skip(i as int).remove(0));
            let entry = rest.remove(0);
            if !eq_chars(&to_chars(entry.record.uuid.as_str()), &wanted) {
                self.accounts.push(entry);
            }
            i += 1;
        }
        assert(all.take(i as int) =~= all);
    }

    /// The full account (with tokens), for internal use only.
    pub fn load_account(&self, uuid: &str) -> (r: Result<&A, AppError>)
        ensures
            match r {
                Ok(a) => position_of(self.entries(), uuid@) >= 0 && *a == self.entries()[position_of(
                    self.entries(),
                    uuid@,
                )].account,
                Err(e) => position_of(self.entries(), uuid@) < 0 && is_error(
                    e,
                    "auth_expired"@,
                    "the stored session is missing, please sign in again"@,
                ),
            },
    {
        match self.find(uuid) {
            Some(p) => Ok(&self.accounts[p].account),
            None => Err(
                AppError::new("auth_expired", "the stored session is missing, please sign in again"),
            ),
        }
    }

    pub fn set_needs_reauth(&mut self, uuid: &str, needs_reauth: bool)
        ensures
            final(self).entries() == flagged(old(self).entries(), uuid@, needs_reauth),
    {
        match self.find(uuid) {
            Some(p) => {
                let mut entry = self.accounts.remove(p);
                entry.needs_reauth = needs_reauth;
                self.accounts.insert(p, entry);
                assert(self.accounts@ =~= flagged(old(self).entries(), uuid@, needs_reauth));
            },
            None => {},
        }
    }
}

// ── Laws of the store ───────────────────────────────────────────────────────

/// The entry a lookup by uuid finds.
pub open spec fn lookup<A>(entries: Seq<StoredAccount<A>>, uuid: Seq<char>) -> Option<
    StoredAccount<A>,
> {
    if position_of(entries, uuid) >= 0 {
        Some(entries[position_of(entries, uuid)])
    } else {
        None
    }
}

proof fn lemma_lookup_push<A>(s: Seq<StoredAccount<A>>, x: StoredAccount<A>, uuid: Seq<char>)
    ensures
        lookup(s.push(x), uuid) == if lookup(s, uuid) is Some {
            lookup(s, uuid)
        } else if x.record.uuid@ == uuid {
            Some(x)
        } else {
            None
        },
{
    let t = s.push(x);
    lemma_position_bounds(s, uuid);
    let q = position_of(s, uuid);
    if q >= 0 {
        assert forall|k: int| 0 <= k < q implies t[k].record.uuid@ != uuid by {
            assert(t[k] == s[k]);
        }
        lemma_position_of(t, uuid, q);
    } else {
        assert forall|k: int| 0 <= k < s.len() implies t[k].record.uuid@ != uuid by {
            assert(t[k] == s[k]);
        }
        lemma_position_of(t, uuid, s.len() as int);
        if x.record.uuid@ != uuid {
            assert forall|k: int| 0 <= k < t.len() implies t[k].record.uuid@ != uuid by {}
            lemma_position_of(t, uuid, t.len() as int);
        }
    }
}

/// A read after a write gives back the write: once an account is stored, a
/// lookup of its uuid finds it, not marked as needing a sign-in, with the
/// date its uuid was first added (or `now` for a new one).
pub proof fn law_upsert_then_lookup<A>(
    entries: Seq<StoredAccount<A>>,
    account: A,
    record: AccountRecord,
    now: u64,
)
    ensures
        lookup(upserted(entries, account, record, now), record.uuid@) == Some(
            StoredAccount {
                account,
                record,
                added_at: match lookup(entries, record.uuid@) {
                    Some(e) => e.added_at,
                    None => now,
                },
                needs_reauth: false,
            },
        ),
{
    let e = upserted(entries, account, record, now);
    let u = record.uuid@;
    lemma_position_bounds(entries, u);
    let p = position_of(entries, u);
    if p >= 0 {
        assert forall|k: int| 0 <= k < p implies e[k].record.uuid@ != u by {
            assert(e[k] == entries[k]);
        }
        lemma_position_of(e, u, p);
    } else {
        assert forall|k: int| 0 <= k < entries.len() implies e[k].record.uuid@ != u by {
            assert(e[k] == entries[k]);
        }
        lemma_position_of(e, u, entries.len() as int);
    }
}

/// Storing an account leaves the lookups of every other uuid unchanged.
pub proof fn law_upsert_keeps_others<A>(
    entries: Seq<StoredAccount<A>>,
    account: A,
    record: AccountRecord,
    now: u64,
    uuid: Seq<char>,
)
    requires
        uuid != record.uuid@,
    ensures
        lookup(upserted(entries, account, record, now), uuid) == lookup(entries, uuid),
{
    let u = record.uuid@;
    lemma_position_bounds(entries, u);
    let p = position_of(entries, u);
    if p >= 0 {
        let e = upserted(entries, account, record, now);
        lemma_position_bounds(entries, uuid);
        let q = position_of(entries, uuid);
        if q >= 0 {
            assert forall|k: int| 0 <= k < q implies e[k].record.uuid@ != uuid by {
                if k != p {
                    assert(e[k] == entries[k]);
                }
            }
            assert(q != p);
            lemma_position_of(e, uuid, q);
        } else {
            assert forall|k: int| 0 <= k < e.len() implies e[k].record.uuid@ != uuid by {
                if k != p {
                    assert(e[k] == entries[k]);
                }
            }
            lemma_position_of(e, uuid, e.len() as int);
        }
    } else {
        lemma_lookup_push(
            entries,
            StoredAccount { account, record, added_at: now, needs_reauth: false },
            uuid,
        );
    }
}

proof fn lemma_without_uuid_misses<A>(entries: Seq<StoredAccount<A>>, uuid: Seq<char>)
    ensures
        forall|k: int|
            0 <= k < without_uuid(entries, uuid).len() ==> (#[trigger] without_uuid(
                entries,
                uuid,
            )[k]).record.uuid@ != uuid,
    decreases entries.len(),
{
    if entries.len() > 0 {
        lemma_without_uuid_misses(entries.drop_last(), uuid);
    }
}

/// Once an account is removed, a lookup of its uuid finds nothing.
pub proof fn law_remove_then_lookup<A>(entries: Seq<StoredAccount<A>>, uuid: Seq<char>)
    ensures
        lookup(without_uuid(entries, uuid), uuid) is None,
{
    lemma_without_uuid_misses(entries, uuid);
    lemma_position_of(without_uuid(entries, uuid), uuid, without_uuid(entries, uuid).len() as int);
}

/// No two entries share a uuid.
pub open spec fn uuids_distinct<A>(entries: Seq<StoredAccount<A>>) -> bool {
    forall|a: int, b: int|
        0 <= a < b < entries.len() ==> #[trigger] entries[a].record.uuid@ != #[trigger] entries[
            b
        ].record.uuid@
}

/// Storing an account never gives one uuid two entries: it replaces the
/// entry that has it, or adds one.
pub proof fn law_upsert_keeps_one_entry_per_uuid<A>(
    entries: Seq<StoredAccount<A>>,
    account: A,
    record: AccountRecord,
    now: u64,
)
    requires
        uuids_distinct(entries),
    ensures
        uuids_distinct(upserted(entries, account, record, now)),
{
    lemma_position_bounds(entries, record.uuid@);
    let r = upserted(entries, account, record, now);
    let p = position_of(entries, record.uuid@);
    assert forall|a: int, b: int| 0 <= a < b < r.len() implies #[trigger] r[a].record.uuid@
        != #[trigger] r[b].record.uuid@ by {
        if p >= 0 {
            assert(r[a].record.uuid@ == entries[a].record.uuid@);
            assert(r[b].record.uuid@ == entries[b].record.uuid@);
        } else if b < entries.len() {
            assert(r[a] == entries[a] && r[b] == entries[b]);
        } else {
            assert(r[a] == entries[a]);
        }
    }
}

/// Removing an account leaves the lookups of every other uuid unchanged.
pub proof fn law_remove_keeps_others<A>(
    entries: Seq<StoredAccount<A>>,
    removed: Seq<char>,
    uuid: Seq<char>,
)
    requires
        uuid != removed,
    ensures
        lookup(without_uuid(entries, removed), uuid) == lookup(entries, uuid),
    decreases entries.len(),
{
    if entries.len() > 0 {
        let s = entries.drop_last();
        let x = entries.last();
        law_remove_keeps_others(s, removed, uuid);
        assert(s.push(x) =~= entries);
        lemma_lookup_push(s, x, uuid);
        if x.record.uuid@ != removed {
            lemma_lookup_push(without_uuid(s, removed), x, uuid);
        }
    }
}

/// Marking an account changes its flag and nothing else a lookup sees.
pub proof fn law_flag_then_lookup<A>(
    entries: Seq<StoredAccount<A>>,
    uuid: Seq<char>,
    needs_reauth: bool,
    other: Seq<char>,
)
    ensures
        lookup(flagged(entries, uuid, needs_reauth), uuid) == match lookup(entries, uuid) {
            Some(e) => Some(
                StoredAccount {
                    account: e.account,
                    record: e.record,
                    added_at: e.added_at,
                    needs_reauth,
                },
            ),
            None => None,
        },
        other != uuid ==> lookup(flagged(entries, uuid, needs_reauth), other) == lookup(
            entries,
            other,
        ),
{
    lemma_position_bounds(entries, uuid);
    lemma_position_bounds(entries, other);
    let p = position_of(entries, uuid);
    if p >= 0 {
        let e = flagged(entries, uuid, needs_reauth);
        assert forall|k: int| 0 <= k < p implies e[k].record.uuid@ != uuid by {
            assert(e[k] == entries[k]);
        }
        lemma_position_of(e, uuid, p);
        if other != uuid {
            let q = position_of(entries, other);
            if q >= 0 {
                assert forall|k: int| 0 <= k < q implies e[k].record.uuid@ != other by {
                    if k != p {
                        assert(e[k] == entries[k]);
                    }
                }
                lemma_position_of(e, other, q);
            } else {
                assert forall|k: int| 0 <= k < e.len() implies e[k].record.uuid@ != other by {
                    if k != p {
                        assert(e[k] == entries[k]);
                    }
                }
                lemma_position_of(e, other, e.len() as int);
            }
        }
    }
}

} // verus!
