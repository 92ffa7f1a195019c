use luuxcraft_launcher::accounts::AccountKind;
use luuxcraft_launcher::auth::{
    azauth_attempt, check_microsoft_enabled, records_client_id, renewal_for,
    selection_after_removal, Refusals, Renewal,
    is_valid_username, methods_for, offline_username, panel_client_id, refresh_client_ids,
    refusal_moves_on, renewal_failure, uses_default_application, yggdrasil_server,
    yggdrasil_username,
};
use luuxcraft_launcher::error::AppError;
use luuxcraft_launcher::models::AuthMode;

#[test]
fn validates_usernames() {
    assert!(is_valid_username("Luuxis"));
    assert!(is_valid_username("a_b_c"));
    assert!(!is_valid_username("ab"));
    assert!(!is_valid_username("with space"));
    assert!(!is_valid_username("waytoolongusername_"));
}

#[test]
fn renewal_tries_the_recorded_id_first_without_duplicates() {
    let ids = refresh_client_ids(Some(" panel ".into()), Some("panel".into()), "official");
    assert_eq!(ids, vec!["panel", "official"]);
    let ids = refresh_client_ids(None, Some("  ".into()), "official");
    assert_eq!(ids, vec!["official"]);
    let ids = refresh_client_ids(Some("old".into()), Some("new".into()), "official");
    assert_eq!(ids, vec!["old", "new", "official"]);
}

#[test]
fn one_method_per_panel_mode() {
    let m = methods_for(&AuthMode::Microsoft, None);
    assert!(m.microsoft && !m.offline && m.azauth.is_none());
    let m = methods_for(&AuthMode::Offline, Some("https://y".into()));
    assert!(!m.microsoft && m.offline);
    assert_eq!(m.yggdrasil.as_deref(), Some("https://y"));
    let m = methods_for(&AuthMode::AzAuth { url: "https://site".into() }, None);
    assert_eq!(m.azauth.as_deref(), Some("https://site"));
    assert_eq!(yggdrasil_server(None, Some("b".into())).as_deref(), Some("b"));
    assert_eq!(yggdrasil_server(Some("a".into()), Some("b".into())).as_deref(), Some("a"));
    assert_eq!(panel_client_id(Some("  x ".into())).as_deref(), Some("x"));
    assert_eq!(panel_client_id(Some("  ".into())), None);
}

#[test]
fn offline_names_are_checked_after_trimming() {
    assert_eq!(offline_username(true, "  Steve ").ok().as_deref(), Some("Steve"));
    assert_eq!(offline_username(true, "a b").err().unwrap().code, "auth_invalid_username");
    assert_eq!(offline_username(false, "Steve").err().unwrap().code, "auth_method_disabled");
    assert_eq!(yggdrasil_username(true, " u ", "p").ok().as_deref(), Some("u"));
    assert_eq!(yggdrasil_username(true, "u", "").err().unwrap().code, "auth_invalid_credentials");
    assert_eq!(yggdrasil_username(false, "u", "p").err().unwrap().code, "auth_method_disabled");
}

#[test]
fn only_refusals_move_on_and_network_errors_keep_the_session() {
    assert!(refusal_moves_on("auth_expired"));
    assert!(refusal_moves_on("auth_denied"));
    assert!(!refusal_moves_on("network"));
    assert!(renewal_failure(&AppError::new("timeout", "slow")).is_none());
    let expired = renewal_failure(&AppError::new("auth_denied", "refused")).unwrap();
    assert_eq!(expired.code, "auth_expired");
    assert_eq!(expired.message, "refused");
    assert_eq!(expired.details.as_deref(), Some("auth_denied"));
    assert!(uses_default_application("  ", "official"));
    assert!(uses_default_application(" official ", "official"));
    assert!(!uses_default_application("panel", "official"));
}

#[test]
fn microsoft_sign_in_needs_the_panel_to_enable_it() {
    assert!(check_microsoft_enabled(true).is_ok());
    assert_eq!(check_microsoft_enabled(false).err().unwrap().code, "auth_method_disabled");
}

#[test]
fn azauth_needs_a_site_an_email_and_a_password() {
    let site = Some("https://site.example".to_string());
    let attempt = azauth_attempt(site.clone(), "  joueur@example.org ", "pw", Some(" 123456 ".into())).ok().unwrap();
    assert_eq!(attempt.site, "https://site.example");
    assert_eq!(attempt.email, "joueur@example.org");
    assert_eq!(attempt.code.as_deref(), Some("123456"));
    assert!(azauth_attempt(site.clone(), "a@b", "pw", Some("  ".into())).ok().unwrap().code.is_none());
    assert_eq!(azauth_attempt(None, "a@b", "pw", None).err().unwrap().code, "auth_method_disabled");
    assert_eq!(azauth_attempt(site.clone(), "  ", "pw", None).err().unwrap().code, "auth_invalid_credentials");
    assert_eq!(azauth_attempt(site, "a@b", "", None).err().unwrap().message, "email and password are required");
}

#[test]
fn removing_the_selected_account_clears_the_selection() {
    assert_eq!(selection_after_removal(Some("u1".into()), "u1"), None);
    assert_eq!(selection_after_removal(Some("u2".into()), "u1").as_deref(), Some("u2"));
    assert_eq!(selection_after_removal(None, "u1"), None);
}

#[test]
fn each_kind_of_session_is_renewed_its_own_way() {
    assert!(matches!(renewal_for(AccountKind::Offline, true, true, None), Renewal::Keep));
    assert!(matches!(renewal_for(AccountKind::Yggdrasil, true, true, None), Renewal::Keep));
    assert!(matches!(renewal_for(AccountKind::Microsoft, false, false, None), Renewal::Keep));
    assert!(matches!(renewal_for(AccountKind::Microsoft, true, false, None), Renewal::Microsoft));
    assert!(matches!(renewal_for(AccountKind::Microsoft, false, true, None), Renewal::Microsoft));
    match renewal_for(AccountKind::AzAuth, false, false, Some("https://s".into())) {
        Renewal::AzAuth(site) => assert_eq!(site, "https://s"),
        _ => panic!("an AZauth session is verified with its site"),
    }
    assert!(matches!(renewal_for(AccountKind::AzAuth, false, false, None), Renewal::Keep));
}

#[test]
fn renewal_moves_past_refusals_and_reports_the_first() {
    let mut refusals = Refusals::new();
    assert!(refusals.failed(AppError::new("auth_denied", "first")).is_none());
    assert!(refusals.failed(AppError::new("auth_expired", "second")).is_none());
    let stop = refusals.failed(AppError::new("network", "down")).unwrap();
    assert_eq!(stop.code, "network");
    let last = refusals.exhausted();
    assert_eq!(last.code, "auth_denied");
    assert_eq!(last.message, "first");
    let none = Refusals::new().exhausted();
    assert_eq!(none.code, "auth_expired");
    assert_eq!(none.message, "no application id to renew the session with");
    assert!(records_client_id("old", "new"));
    assert!(!records_client_id("same", "same"));
}
