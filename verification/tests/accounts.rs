use luuxcraft_launcher::auth::{finish_renewal, renewal_subject};
use luuxcraft_launcher::error::AppError;
use luuxcraft_launcher::models::is_web_url;
use luuxcraft_launcher::skins::{
    cape_change_needed, cached_texture_usable, check_skin_changeable, texture_cache_files,
    textures_fetched, CapeOption, SkinData,
};
use luuxcraft_launcher::accounts::{
    active_cape_id, worn_cape_id, AccountKind, AccountRecord, AccountStore, AccountSummary, AccountType,
    ProfileCape, ProfileSkin, StoredAccount, UserInfo,
};

fn record(uuid: &str, name: &str, kind: AccountType, online: Option<bool>) -> AccountRecord {
    AccountRecord {
        uuid: uuid.into(),
        name: name.into(),
        kind,
        online,
        access_token_expires_in: Some(42),
        skins: Vec::new(),
        capes: Vec::new(),
        gamertag: None,
        ownership: "GamePass".into(),
        user_info: None,
    }
}

#[test]
fn the_kind_follows_the_sign_in() {
    assert_eq!(AccountKind::of(&record("u", "n", AccountType::Xbox, None)), AccountKind::Microsoft);
    assert_eq!(AccountKind::of(&record("u", "n", AccountType::AzAuth, None)), AccountKind::AzAuth);
    assert_eq!(AccountKind::of(&record("u", "n", AccountType::Mojang, Some(true))), AccountKind::Yggdrasil);
    assert_eq!(AccountKind::of(&record("u", "n", AccountType::Mojang, None)), AccountKind::Offline);
}

#[test]
fn a_summary_shows_the_active_skin_and_cape() {
    let mut r = record("u", "Steve", AccountType::Xbox, None);
    r.skins = vec![
        ProfileSkin { url: "https://a".into(), state: None, variant: Some("CLASSIC".into()), base64: None },
        ProfileSkin { url: "https://b".into(), state: Some("ACTIVE".into()), variant: Some("SLIM".into()), base64: None },
    ];
    r.capes = vec![
        ProfileCape { id: Some("c1".into()), url: "https://c1".into(), state: None, alias: None },
        ProfileCape { id: Some("c2".into()), url: "https://c2".into(), state: Some("ACTIVE".into()), alias: Some("Migrator".into()) },
    ];
    r.user_info = Some(UserInfo { banned: Some(false), money: Some("12.5".into()), role: None, verified: None });
    assert_eq!(active_cape_id(&r).as_deref(), Some("c2"));
    let stored = StoredAccount { account: (), record: r, added_at: 7, needs_reauth: true };
    let summary = AccountSummary::from_stored(&stored);
    assert_eq!(summary.skin_url.as_deref(), Some("https://b"));
    assert_eq!(summary.skin_variant.as_deref(), Some("SLIM"));
    assert_eq!(summary.cape_url.as_deref(), Some("https://c2"));
    assert_eq!(summary.cape_alias.as_deref(), Some("Migrator"));
    assert_eq!(summary.ownership.as_deref(), Some("gamepass"));
    assert!(summary.online);
    assert!(summary.needs_reauth);
    assert_eq!(summary.added_at, 7);
    assert_eq!(summary.expires_at, Some(42));
    assert_eq!(summary.extra.unwrap().money.as_deref(), Some("12.5"));
}

#[test]
fn without_an_active_skin_the_first_one_is_shown() {
    let mut r = record("u", "Steve", AccountType::Mojang, Some(false));
    r.skins = vec![ProfileSkin { url: String::new(), state: None, variant: None, base64: Some("data:x".into()) }];
    let summary = AccountSummary::from_stored(&StoredAccount { account: (), record: r, added_at: 0, needs_reauth: false });
    assert_eq!(summary.skin_url, None);
    assert_eq!(summary.skin_data_url.as_deref(), Some("data:x"));
    assert_eq!(summary.ownership, None);
    assert!(!summary.online);
    assert_eq!(summary.kind, AccountKind::Offline);
}

#[test]
fn a_stored_account_reads_back() {
    let mut store: AccountStore<&str> = AccountStore::new(Vec::new());
    let summary = store.upsert("tokens-1", record("u1", "One", AccountType::Mojang, None), 100);
    assert_eq!(summary.added_at, 100);
    assert!(!summary.needs_reauth);
    assert_eq!(store.list().len(), 1);
    assert_eq!(*store.load_account("u1").ok().unwrap(), "tokens-1");

    store.set_needs_reauth("u1", true);
    assert!(store.get("u1").unwrap().needs_reauth);

    let again = store.upsert("tokens-2", record("u1", "Renamed", AccountType::Mojang, None), 200);
    assert_eq!(again.added_at, 100);
    assert!(!again.needs_reauth);
    assert_eq!(store.get("u1").unwrap().name, "Renamed");
    assert_eq!(*store.load_account("u1").ok().unwrap(), "tokens-2");
    assert_eq!(store.list().len(), 1);

    store.upsert("tokens-3", record("u2", "Two", AccountType::Mojang, None), 300);
    store.remove("u1");
    assert!(store.get("u1").is_none());
    let error = store.load_account("u1").err().unwrap();
    assert_eq!(error.code, "auth_expired");
    assert_eq!(store.get("u2").unwrap().name, "Two");
    assert_eq!(store.stored().len(), 1);
}


fn summary_of(r: AccountRecord) -> AccountSummary {
    AccountSummary::from_stored(&StoredAccount { account: (), record: r, added_at: 0, needs_reauth: false })
}

#[test]
fn the_skin_viewer_gets_textures_by_kind() {
    let mut r = record("u", "Steve", AccountType::Xbox, None);
    r.skins = vec![ProfileSkin { url: "https://s".into(), state: Some("ACTIVE".into()), variant: Some("SLIM".into()), base64: None }];
    let microsoft = SkinData::of(&summary_of(r), Some("data:skin".into()), Some("data:cape".into()));
    assert_eq!(microsoft.model, "slim");
    assert_eq!(microsoft.skin.as_deref(), Some("data:skin"));
    assert_eq!(microsoft.cape.as_deref(), Some("data:cape"));
    assert!(microsoft.can_change);
    assert_eq!(microsoft.source, AccountKind::Microsoft);

    let mut a = record("a", "Alex", AccountType::AzAuth, None);
    a.skins = vec![ProfileSkin { url: String::new(), state: None, variant: None, base64: Some("data:az".into()) }];
    let azauth = SkinData::of(&summary_of(a), Some("ignored".into()), Some("ignored".into()));
    assert_eq!(azauth.skin.as_deref(), Some("data:az"));
    assert!(azauth.cape.is_none());
    assert!(!azauth.can_change);
    assert_eq!(azauth.model, "auto");

    let offline = SkinData::of(&summary_of(record("o", "Off", AccountType::Mojang, None)), Some("x".into()), None);
    assert!(offline.skin.is_none() && offline.cape.is_none());
    assert!(textures_fetched(AccountKind::Microsoft) && !textures_fetched(AccountKind::AzAuth));
}

#[test]
fn only_microsoft_accounts_change_their_skin() {
    assert!(check_skin_changeable(AccountKind::Microsoft).is_ok());
    let refused = check_skin_changeable(AccountKind::Offline).err().unwrap();
    assert_eq!(refused.code, "skin_not_supported");
}

#[test]
fn capes_are_offered_with_the_worn_one_marked() {
    let worn = CapeOption::of("c1".into(), Some("Migrator".into()), "data:c".into(), Some("ACTIVE"));
    assert!(worn.active);
    assert!(!CapeOption::of("c2".into(), None, "data:c".into(), Some("INACTIVE")).active);
    assert!(!CapeOption::of("c3".into(), None, "data:c".into(), None).active);
    let capes = vec![
        ProfileCape { id: Some("c1".into()), url: "https://c1".into(), state: None, alias: None },
        ProfileCape { id: Some("c2".into()), url: "https://c2".into(), state: Some("ACTIVE".into()), alias: None },
    ];
    assert_eq!(worn_cape_id(&capes).as_deref(), Some("c2"));
    assert_eq!(worn_cape_id(&Vec::new()), None);
    assert!(!cape_change_needed(&Some("c2".into()), &Some("c2".into())));
    assert!(cape_change_needed(&Some("c2".into()), &None));
    assert!(!cape_change_needed(&None, &None));
}

#[test]
fn textures_are_cached_by_address() {
    assert!(is_web_url("https://textures.minecraft.net/x") && is_web_url("http://x"));
    assert!(!is_web_url("data:image/png;base64,AAAA"));
    let (png, url) = texture_cache_files("/data/skins/cache", "u-1", "skin");
    assert_eq!(png, "/data/skins/cache/u-1-skin.png");
    assert_eq!(url, "/data/skins/cache/u-1-skin.url");
    assert!(cached_texture_usable(false, "https://a", "https://a", 10));
    assert!(!cached_texture_usable(true, "https://a", "https://a", 10));
    assert!(!cached_texture_usable(false, "https://a", "https://b", 10));
    assert!(!cached_texture_usable(false, "https://a", "https://a", 0));
}

#[test]
fn renewing_goes_through_the_store() {

    let mut store: AccountStore<&str> = AccountStore::new(Vec::new());
    let unknown = renewal_subject(&store, "u1").err().unwrap();
    assert_eq!(unknown.code, "account_unknown");
    assert_eq!(unknown.message, "unknown account");

    store.upsert("tokens-1", record("u1", "One", AccountType::Xbox, None), 100);
    let (account, kind) = renewal_subject(&store, "u1").ok().unwrap();
    assert_eq!(*account, "tokens-1");
    assert_eq!(kind, AccountKind::Microsoft);

    let kept = finish_renewal(&mut store, "u1", Err(AppError::new("network", "offline")), 150);
    assert!(kept.ok().unwrap().is_none());
    assert!(!store.get("u1").unwrap().needs_reauth);

    let fresh = finish_renewal(&mut store, "u1", Ok(("tokens-2", record("u1", "One", AccountType::Xbox, None))), 200);
    let summary = fresh.ok().unwrap().unwrap();
    assert_eq!(summary.added_at, 100);
    assert_eq!(*store.load_account("u1").ok().unwrap(), "tokens-2");

    let expired = finish_renewal(&mut store, "u1", Err(AppError::new("auth_denied", "token revoked")), 300)
        .err()
        .unwrap();
    assert_eq!(expired.code, "auth_expired");
    assert_eq!(expired.message, "token revoked");
    assert_eq!(expired.details.as_deref(), Some("auth_denied"));
    assert!(store.get("u1").unwrap().needs_reauth);
}
