use luuxcraft_launcher::accounts::{AccountKind, AccountSummary};
use luuxcraft_launcher::sessions::{is_due, summaries_differ, Attempts, AZAUTH_INTERVAL_SECS};

fn account(kind: AccountKind, expires_at: Option<u64>, needs_reauth: bool) -> AccountSummary {
    AccountSummary {
        uuid: "uuid".into(),
        name: "Luuxis".into(),
        kind,
        online: true,
        skin_url: None,
        skin_variant: None,
        skin_data_url: None,
        cape_url: None,
        cape_alias: None,
        expires_at,
        needs_reauth,
        added_at: 0,
        gamertag: None,
        ownership: None,
        extra: None,
    }
}

const NOW: u64 = 1_800_000_000;

#[test]
fn microsoft_is_renewed_once_then_before_expiry() {
    let far = Some((NOW + 20 * 3600) * 1000);
    let soon = Some((NOW + 10 * 60) * 1000);
    assert!(is_due(&account(AccountKind::Microsoft, far, false), None, NOW));
    let long_ago = Some(NOW - 3600);
    assert!(!is_due(&account(AccountKind::Microsoft, far, false), long_ago, NOW));
    assert!(is_due(&account(AccountKind::Microsoft, soon, false), long_ago, NOW));
    assert!(is_due(&account(AccountKind::Microsoft, None, false), long_ago, NOW));
}

#[test]
fn renewals_are_throttled() {
    let soon = Some((NOW + 60) * 1000);
    let just_now = Some(NOW - 60);
    assert!(!is_due(&account(AccountKind::Microsoft, soon, false), just_now, NOW));
}

#[test]
fn expired_sessions_get_one_try_per_run() {
    let soon = Some((NOW + 60) * 1000);
    assert!(is_due(&account(AccountKind::Microsoft, soon, true), None, NOW));
    assert!(!is_due(&account(AccountKind::Microsoft, soon, true), Some(NOW - 24 * 3600), NOW));
    assert!(!is_due(&account(AccountKind::AzAuth, None, true), Some(NOW - 24 * 3600), NOW));
}

#[test]
fn azauth_is_verified_on_its_own_cadence() {
    assert!(is_due(&account(AccountKind::AzAuth, None, false), None, NOW));
    assert!(!is_due(&account(AccountKind::AzAuth, None, false), Some(NOW - 3600), NOW));
    assert!(is_due(
        &account(AccountKind::AzAuth, None, false),
        Some(NOW - AZAUTH_INTERVAL_SECS),
        NOW
    ));
}

#[test]
fn local_accounts_are_never_renewed() {
    assert!(!is_due(&account(AccountKind::Offline, None, false), None, NOW));
    assert!(!is_due(&account(AccountKind::Yggdrasil, None, false), None, NOW));
}

#[test]
fn an_attempt_in_the_future_does_not_underflow() {
    assert!(!is_due(&account(AccountKind::AzAuth, None, false), Some(NOW + 10), NOW));
    assert!(is_due(&account(AccountKind::Microsoft, Some(u64::MAX), false), Some(0), u64::MAX));
}

#[test]
fn only_visible_changes_are_pushed() {
    let before = vec![account(AccountKind::Microsoft, Some(1), false)];
    let same = vec![account(AccountKind::Microsoft, Some(1), false)];
    let later = vec![account(AccountKind::Microsoft, Some(2), false)];
    let expired = vec![account(AccountKind::Microsoft, Some(1), true)];
    assert!(!summaries_differ(&before, &same));
    assert!(summaries_differ(&before, &later));
    assert!(summaries_differ(&before, &expired));
    assert!(summaries_differ(&before, &[]));
}

#[test]
fn attempts_are_remembered_per_account_and_forgotten_when_it_leaves() {
    let mut attempts = Attempts::new();
    assert_eq!(attempts.last("a"), None);
    attempts.record("a", 10);
    attempts.record("b", 20);
    attempts.record("a", 30);
    assert_eq!(attempts.last("a"), Some(30));
    assert_eq!(attempts.last("b"), Some(20));
    let mut still_here = account(AccountKind::Microsoft, None, false);
    still_here.uuid = "b".into();
    attempts.retain_present(&[still_here]);
    assert_eq!(attempts.last("a"), None);
    assert_eq!(attempts.last("b"), Some(20));
}
