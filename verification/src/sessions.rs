//! Automatic session renewal: when an account is due, and whether a pass
//! changed anything the interface shows.
//!
//! Microsoft accounts are renewed through their refresh token before the
//! Minecraft token expires, AZauth sessions are re-verified periodically, and
//! every account gets one renewal pass per run so the profile is up to date.

use vstd::prelude::*;

use crate::accounts::{summary_view, summary_views, AccountExtra, AccountKind, AccountSummary};
use crate::text::{eq_chars, opt_view, to_chars};

verus! {

/// A Microsoft session is renewed once it expires within this window.
pub const EXPIRY_MARGIN_SECS: u64 = 1800;
/// Never attempt two renewals of the same account closer than this.
pub const MIN_ATTEMPT_INTERVAL_SECS: u64 = 900;
/// AZauth announces no expiry: re-verify on this cadence.
pub const AZAUTH_INTERVAL_SECS: u64 = 21600;

pub open spec fn sat_sub(a: u64, b: u64) -> u64 {
    if a >= b {
        (a - b) as u64
    } else {
        0
    }
}

pub open spec fn sat_add(a: u64, b: u64) -> u64 {
    if a + b <= u64::MAX {
        (a + b) as u64
    } else {
        u64::MAX
    }
}

/// Whether an account should be renewed at `now`, its last attempt in this
/// run being `last_attempt`.
pub open spec fn due(
    kind: AccountKind,
    expires_at: Option<u64>,
    needs_reauth: bool,
    last_attempt: Option<u64>,
    now: u64,
) -> bool {
    if needs_reauth && last_attempt is Some {
        false
    } else if last_attempt matches Some(last) && sat_sub(now, last) < MIN_ATTEMPT_INTERVAL_SECS {
        false
    } else {
        match kind {
            AccountKind::Microsoft => match (last_attempt, expires_at) {
                (None, _) => true,
                (Some(_), Some(millis)) => sat_add(now, EXPIRY_MARGIN_SECS) >= millis / 1000,
                (Some(_), None) => true,
            },
            AccountKind::AzAuth => match last_attempt {
                None => true,
                Some(last) => sat_sub(now, last) >= AZAUTH_INTERVAL_SECS,
            },
            AccountKind::Offline | AccountKind::Yggdrasil => false,
        }
    }
}

/// Whether an account should be renewed now.
///
/// A session marked as expired gets one more try per run, no more: the mark
/// may date from a start where the application that issued the session was
/// not known, and this start may know it.
pub fn is_due(account: &AccountSummary, last_attempt: Option<u64>, now: u64) -> (r: bool)
    ensures
        r == due(account.kind, account.expires_at, account.needs_reauth, last_attempt, now),
{
    if account.needs_reauth && last_attempt.is_some() {
        return false;
    }
    if let Some(last) = last_attempt {
        if now.saturating_sub(last) < MIN_ATTEMPT_INTERVAL_SECS {
            return false;
        }
    }
    match account.kind {
        AccountKind::Microsoft => match (last_attempt, account.expires_at) {
            (None, _) => true,
            (Some(_), Some(millis)) => now.saturating_add(EXPIRY_MARGIN_SECS) >= millis / 1000,
            (Some(_), None) => true,
        },
        AccountKind::AzAuth => match last_attempt {
            None => true,
            Some(last) => now.saturating_sub(last) >= AZAUTH_INTERVAL_SECS,
        },
        AccountKind::Offline | AccountKind::Yggdrasil => false,
    }
}

fn same_text(a: &Option<String>, b: &Option<String>) -> (r: bool)
    ensures
        r == (opt_view(*a) == opt_view(*b)),
{
    match (a, b) {
        (Some(x), Some(y)) => eq_chars(&to_chars(x.as_str()), &to_chars(y.as_str())),
        (None, None) => true,
        _ => false,
    }
}

fn same_extra(a: &Option<AccountExtra>, b: &Option<AccountExtra>) -> (r: bool)
    ensures
        r == ((match *a {
            Some(e) => Some((e.banned, opt_view(e.money), opt_view(e.role), e.verified)),
            None => None,
        }) == (match *b {
            Some(e) => Some((e.banned, opt_view(e.money), opt_view(e.role), e.verified)),
            None => None,
        })),
{
    match (a, b) {
        (Some(x), Some(y)) => x.banned == y.banned && same_text(&x.money, &y.money) && same_text(
            &x.role,
            &y.role,
        ) && x.verified == y.verified,
        (None, None) => true,
        _ => false,
    }
}

/// Whether two summaries show the same thing.
pub fn same_summary(a: &AccountSummary, b: &AccountSummary) -> (r: bool)
    ensures
        r == (summary_view(*a) == summary_view(*b)),
{
    let r = eq_chars(&to_chars(a.uuid.as_str()), &to_chars(b.uuid.as_str())) && eq_chars(
        &to_chars(a.name.as_str()),
        &to_chars(b.name.as_str()),
    ) && a.kind == b.kind && a.online == b.online && same_text(&a.skin_url, &b.skin_url)
        && same_text(&a.skin_variant, &b.skin_variant) && same_text(
        &a.skin_data_url,
        &b.skin_data_url,
    ) && same_text(&a.cape_url, &b.cape_url) && same_text(&a.cape_alias, &b.cape_alias)
        && a.expires_at == b.expires_at && a.needs_reauth == b.needs_reauth && a.added_at
        == b.added_at && same_text(&a.gamertag, &b.gamertag) && same_text(
        &a.ownership,
        &b.ownership,
    ) && same_extra(&a.extra, &b.extra);
    proof {
        if !r {
            assert(summary_view(*a) != summary_view(*b)) by {
                if summary_view(*a) == summary_view(*b) {
                    assert(summary_view(*a).extra == summary_view(*b).extra);
                }
            }
        }
    }
    r
}

/// Whether a renewal pass changed anything the interface shows: a new
/// expiry, a renamed profile, a new skin or cape, a session that now needs a
/// sign-in, an account more or less.
pub fn summaries_differ(before: &[AccountSummary], after: &[AccountSummary]) -> (r: bool)
    ensures
        r == (summary_views(before@) != summary_views(after@)),
{
    if before.len() != after.len() {
        assert(summary_views(before@).len() != summary_views(after@).len());
        return true;
    }
    let mut i: usize = 0;
    while i < before.len()
        invariant
            i <= before@.len(),
            before@.len() == after@.len(),
            forall|k: int| 0 <= k < i ==> summary_view(before@[k]) == summary_view(after@[k]),
        decreases before@.len() - i,
    {
        if !same_summary(&before[i], &after[i]) {
            assert(summary_views(before@)[i as int] != summary_views(after@)[i as int]);
            return true;
        }
        i += 1;
    }
    assert(summary_views(before@) =~= summary_views(after@));
    false
}

// ── Attempts of a run ───────────────────────────────────────────────────────

/// The last attempt recorded for `uuid`: the latest entry with that id.
pub open spec fn last_attempt_of(entries: Seq<(String, u64)>, uuid: Seq<char>) -> Option<u64>
    decreases entries.len(),
{
    if entries.len() == 0 {
        None
    } else if entries.last().0@ == uuid {
        Some(entries.last().1)
    } else {
        last_attempt_of(entries.drop_last(), uuid)
    }
}

/// Whether one of the accounts has this id.
pub open spec fn listed(accounts: Seq<AccountSummary>, uuid: Seq<char>) -> bool {
    exists|i: int| 0 <= i < accounts.len() && #[trigger] accounts[i].uuid@ == uuid
}

/// When each account was last tried during this run.
pub struct Attempts {
    entries: Vec<(String, u64)>,
}

proof fn lemma_last_set(before: Seq<(String, u64)>, after: Seq<(String, u64)>, p: int, k: Seq<char>)
    requires
        0 <= p < before.len(),
        after.len() == before.len(),
        after[p].0@ == before[p].0@,
        forall|i: int| 0 <= i < before.len() && i != p ==> after[i] == before[i],
        forall|i: int| p < i < before.len() ==> before[i].0@ != before[p].0@,
    ensures
        k == before[p].0@ ==> last_attempt_of(after, k) == Some(after[p].1),
        k != before[p].0@ ==> last_attempt_of(after, k) == last_attempt_of(before, k),
    decreases before.len(),
{
    if p < before.len() - 1 {
        assert(after.last() == before.last());
        lemma_last_set(before.drop_last(), after.drop_last(), p, k);
    } else {
        assert(after.drop_last() =~= before.drop_last());
    }
}

proof fn lemma_last_at(e: Seq<(String, u64)>, p: int, uuid: Seq<char>)
    requires
        0 <= p < e.len(),
        e[p].0@ == uuid,
        forall|i: int| p < i < e.len() ==> e[i].0@ != uuid,
    ensures
        last_attempt_of(e, uuid) == Some(e[p].1),
    decreases e.len(),
{
    if p < e.len() - 1 {
        lemma_last_at(e.drop_last(), p, uuid);
    }
}

impl Attempts {
    pub closed spec fn last_of(&self, uuid: Seq<char>) -> Option<u64> {
        last_attempt_of(self.entries@, uuid)
    }

    pub fn new() -> (r: Attempts)
        ensures
            forall|uuid: Seq<char>| #[trigger] r.last_of(uuid) is None,
    {
        Attempts { entries: Vec::new() }
    }

    fn position(&self, uuid: &str) -> (r: Option<usize>)
        ensures
            match r {
                Some(p) => p < self.entries@.len() && self.entries@[p as int].0@ == uuid@
                    && forall|i: int| p < i < self.entries@.len() ==> self.entries@[i].0@ != uuid@,
                None => last_attempt_of(self.entries@, uuid@) is None,
            },
    {
        let key = to_chars(uuid);
        let mut k: usize = self.entries.len();
        assert(self.entries@.take(k as int) =~= self.entries@);
        while k > 0
            invariant
                k <= self.entries@.len(),
                key@ == uuid@,
                forall|i: int| k <= i < self.entries@.len() ==> self.entries@[i].0@ != uuid@,
                last_attempt_of(self.entries@, uuid@) == last_attempt_of(
                    self.entries@.take(k as int),
                    uuid@,
                ),
            decreases k,
        {
            assert(self.entries@.take(k as int).drop_last() =~= self.entries@.take(k - 1));
            if eq_chars(&to_chars(self.entries[k - 1].0.as_str()), &key) {
                return Some(k - 1);
            }
            k -= 1;
        }
        None
    }

    /// The last attempt on an account in this run.
    pub fn last(&self, uuid: &str) -> (r: Option<u64>)
        ensures
            r == self.last_of(uuid@),
    {
        match self.position(uuid) {
            Some(p) => {
                proof {
                    lemma_last_at(self.entries@, p as int, uuid@);
                }
                Some(self.entries[p].1)
            },
            None => None,
        }
    }

    /// Records an attempt on an account.
    pub fn record(&mut self, uuid: &str, now: u64)
        ensures
            final(self).last_of(uuid@) == Some(now),
            forall|k: Seq<char>| k != uuid@ ==> #[trigger] final(self).last_of(k) == old(self).last_of(k),
    {
        let ghost before = self.entries@;
        match self.position(uuid) {
            Some(p) => {
                let held = self.entries[p].0.clone();
                self.entries.set(p, (held, now));
                proof {
                    assert forall|k: Seq<char>| k != uuid@ implies #[trigger] last_attempt_of(
                        self.entries@,
                        k,
                    ) == last_attempt_of(before, k) by {
                        lemma_last_set(before, self.entries@, p as int, k);
                    }
                    lemma_last_set(before, self.entries@, p as int, uuid@);
                }
            },
            None => {
                self.entries.push((uuid.to_owned(), now));
                assert(self.entries@.drop_last() =~= before);
            },
        }
    }

    /// Forgets the accounts that are gone.
    pub fn retain_present(&mut self, accounts: &[AccountSummary])
        ensures
            forall|k: Seq<char>| #[trigger] final(self).last_of(k) == if listed(accounts@, k) {
                old(self).last_of(k)
            } else {
                None
            },
    {
        let ghost before = self.entries@;
        let mut kept: Vec<(String, u64)> = Vec::new();
        let mut i: usize = 0;
        while i < self.entries.len()
            invariant
                i <= before.len(),
                self.entries@ == before,
                forall|k: Seq<char>| #[trigger] last_attempt_of(kept@, k) == if listed(accounts@, k) {
                    last_attempt_of(before.take(i as int), k)
                } else {
                    None
                },
            decreases before.len() - i,
        {
            let key = to_chars(self.entries[i].0.as_str());
            let mut present = false;
            let mut j: usize = 0;
            while j < accounts.len()
                invariant
                    j <= accounts@.len(),
                    i < before.len(),
                    key@ == before[i as int].0@,
                    present <==> exists|t: int| 0 <= t < j && #[trigger] accounts@[t].uuid@ == key@,
                decreases accounts@.len() - j,
            {
                if eq_chars(&to_chars(accounts[j].uuid.as_str()), &key) {
                    present = true;
                }
                j += 1;
            }
            let ghost old_kept = kept@;
            assert(before.take(i + 1).drop_last() =~= before.take(i as int));
            if present {
                kept.push((self.entries[i].0.clone(), self.entries[i].1));
                assert(kept@.drop_last() =~= old_kept);
            }
            assert forall|k: Seq<char>| #[trigger] last_attempt_of(kept@, k) == if listed(accounts@, k) {
                last_attempt_of(before.take(i + 1), k)
            } else {
                None
            } by {
                let t = before.take(i + 1);
                assert(t.last() == before[i as int]);
                assert(t.drop_last() =~= before.take(i as int));
                assert(present == listed(accounts@, key@));
                assert(last_attempt_of(t, k) == if before[i as int].0@ == k {
                    Some(before[i as int].1)
                } else {
                    last_attempt_of(before.take(i as int), k)
                });
                assert(last_attempt_of(old_kept, k) == if listed(accounts@, k) {
                    last_attempt_of(before.take(i as int), k)
                } else {
                    None
                });
                if present {
                    assert(kept@.last() == before[i as int]);
                    assert(kept@.drop_last() =~= old_kept);
                    assert(last_attempt_of(kept@, k) == if before[i as int].0@ == k {
                        Some(before[i as int].1)
                    } else {
                        last_attempt_of(old_kept, k)
                    });
                } else {
                    assert(kept@ == old_kept);
                }
            }
            i += 1;
        }
        assert(before.take(i as int) =~= before);
        self.entries = kept;
    }
}

// ── Laws ────────────────────────────────────────────────────────────────────

/// Two renewals of one account are never attempted closer than the minimum
/// interval.
pub proof fn law_renewals_are_throttled(
    kind: AccountKind,
    expires_at: Option<u64>,
    needs_reauth: bool,
    last: u64,
    now: u64,
)
    requires
        last <= now,
    ensures
        due(kind, expires_at, needs_reauth, Some(last), now) ==> now - last
            >= MIN_ATTEMPT_INTERVAL_SECS,
{
}

/// A session marked as needing a sign-in gets one try per run, no more.
pub proof fn law_one_try_per_run(kind: AccountKind, expires_at: Option<u64>, last: u64, now: u64)
    ensures
        !due(kind, expires_at, true, Some(last), now),
{
}

/// Local accounts (offline, Yggdrasil) are never renewed.
pub proof fn law_local_accounts_never_renewed(
    expires_at: Option<u64>,
    needs_reauth: bool,
    last_attempt: Option<u64>,
    now: u64,
)
    ensures
        !due(AccountKind::Offline, expires_at, needs_reauth, last_attempt, now),
        !due(AccountKind::Yggdrasil, expires_at, needs_reauth, last_attempt, now),
{
}

/// Every session that can be renewed gets a first pass in each run.
pub proof fn law_first_pass(expires_at: Option<u64>, needs_reauth: bool, now: u64)
    ensures
        due(AccountKind::Microsoft, expires_at, needs_reauth, None, now),
        due(AccountKind::AzAuth, expires_at, needs_reauth, None, now),
{
}

} // verus!
