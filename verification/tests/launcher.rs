use luuxcraft_launcher::launch::check_run;
use luuxcraft_launcher::api::{
    articles_from, combine_snapshot, config_from, instances_from, read_answer, LuuxCraftApi,
    RemoteSnapshot,
};
use luuxcraft_launcher::branding::plausible_icon;
use luuxcraft_launcher::client_config::{appimage_path, enclosing_bundle, ClientConfig};
use luuxcraft_launcher::config::LauncherConfig;
use luuxcraft_launcher::desktop::{entry_path, needs_refresh, Stamp};
use luuxcraft_launcher::error::AppError;
use luuxcraft_launcher::instances::{client_jar_path, game_dir_path, InstanceStatus};
use luuxcraft_launcher::json::Json;
use luuxcraft_launcher::launch::{
    account_for, check_not_running, check_whitelist, unknown_instance, LaunchMode, LaunchPlan,
};
use luuxcraft_launcher::models::{Instance, Link, RemoteConfig};
use luuxcraft_launcher::settings::{InstanceSettings, JavaMode, LauncherBehavior, MemorySettings, Settings};
use luuxcraft_launcher::state::{data_directory, remembered_directory, reset_settings};
use luuxcraft_launcher::status::{answered_status, offline_status, server_target};
use luuxcraft_launcher::system::{check_external_url, folder_target, memory_mb, FolderTarget};
use luuxcraft_launcher::updater::{
    check_can_install, configured_endpoints, require_update, DownloadProgress, UpdateCheck, UpdateEvent, UpdateInfo,
};
use luuxcraft_launcher::util::unix_now;

fn json(text: &str) -> Json {
    Json::parse(text.as_bytes()).expect("valid JSON")
}

fn instances(text: &str) -> Vec<Instance> {
    Instance::list_from_value(json(text)).ok().unwrap()
}

fn config(text: &str) -> RemoteConfig {
    RemoteConfig::from_value(json(text)).ok().unwrap()
}

#[test]
fn answers_are_read_by_status_and_shape() {
    assert!(read_answer(200, br#"{"a": 1}"#).is_ok());
    let refused = read_answer(404, br#"{"a": 1}"#).err().unwrap();
    assert_eq!(refused.code, "api_not_found");
    assert_eq!(refused.message, "status 404");
    let failure = read_answer(200, br#"{"success": false, "message": "nope"}"#).err().unwrap();
    assert_eq!(failure.code, "api_error");
    assert_eq!(failure.message, "nope");
    let html = read_answer(502, b"<html>").err().unwrap();
    assert_eq!(html.code, "api_unavailable");
    assert!(html.message.starts_with("status 502: "));
    assert_eq!(read_answer(429, b"x").err().unwrap().code, "api_rate_limited");
    assert_eq!(read_answer(600, b"{}").err().unwrap().code, "api_invalid");
}

fn snapshot(stale_links: usize) -> RemoteSnapshot {
    RemoteSnapshot {
        config: config("{}"),
        instances: instances(r#"[{"name": "cached", "version": "1.0"}]"#),
        articles: Vec::new(),
        links: (0..stale_links)
            .map(|i| Link { label: format!("l{i}"), url: "https://x".into(), icon: None, order: None })
            .collect(),
        partial_errors: Vec::new(),
        fetched_at: 5,
        stale: false,
    }
}

#[test]
fn a_missing_config_serves_the_cache_as_stale() {
    let (served, fresh) = combine_snapshot(
        Err(AppError::new("network", "down")),
        Ok(Vec::new()),
        Ok(Vec::new()),
        Some(snapshot(1)),
        Vec::new(),
        99,
    )
    .ok()
    .unwrap();
    assert!(!fresh);
    assert!(served.stale);
    assert_eq!(served.fetched_at, 5);
    assert_eq!(served.partial_errors[0].part, "config");
    assert_eq!(served.partial_errors[0].code, "network");
    let error = combine_snapshot(
        Err(AppError::new("network", "down")),
        Ok(Vec::new()),
        Ok(Vec::new()),
        None,
        Vec::new(),
        99,
    )
    .err()
    .unwrap();
    assert_eq!(error.code, "network");
}

#[test]
fn optional_parts_fall_back_and_are_recorded() {
    let (s, fresh) = combine_snapshot(
        Ok(config(r#"{"links": ["https://a.example"]}"#)),
        Err(AppError::new("timeout", "slow")),
        Err(AppError::new("api_invalid", "bad")),
        Some(snapshot(0)),
        Vec::new(),
        99,
    )
    .ok()
    .unwrap();
    assert!(fresh);
    assert!(!s.stale);
    assert_eq!(s.fetched_at, 99);
    assert_eq!(s.instances[0].name, "cached");
    assert!(s.articles.is_empty());
    let parts: Vec<&str> = s.partial_errors.iter().map(|p| p.part.as_str()).collect();
    assert_eq!(parts, vec!["instances", "articles"]);
    assert_eq!(s.links[0].url, "https://a.example");
    assert_eq!(s.config.links.len(), 1);
    assert!(s.instance("instance-0").is_some());
    assert!(s.instance("other").is_none());
    let fallback = vec![Link { label: "site".into(), url: "https://site".into(), icon: None, order: None }];
    let (s, _) = combine_snapshot(Ok(config("{}")), Ok(Vec::new()), Ok(Vec::new()), None, fallback, 1)
        .ok()
        .unwrap();
    assert_eq!(s.links[0].label, "site");
    assert!(s.partial_errors.is_empty());
}

#[test]
fn a_run_checks_the_game_the_account_and_the_whitelist() {
    assert_eq!(check_not_running(LaunchMode::Launch, true).err().unwrap().code, "game_running");
    assert!(check_not_running(LaunchMode::Install, true).is_ok());
    assert_eq!(unknown_instance("x").message, "unknown instance x");
    assert_eq!(account_for(LaunchMode::Launch, None, false, None).err().unwrap().code, "account_required");
    let maintenance = account_for(LaunchMode::Launch, Some("u".into()), true, None).err().unwrap();
    assert_eq!(maintenance.code, "maintenance");
    assert_eq!(maintenance.message, "the server is under maintenance");
    assert_eq!(account_for(LaunchMode::Launch, Some("u".into()), false, None).ok().unwrap(), Some("u".into()));
    assert_eq!(account_for(LaunchMode::Install, None, true, None).ok().unwrap(), None);
    let closed = &instances(r#"[{"name": "a", "version": "1", "whitelist": ["Steve"], "whitelistActive": true}]"#)[0];
    assert!(check_whitelist(LaunchMode::Launch, closed, "Steve").is_ok());
    assert_eq!(check_whitelist(LaunchMode::Launch, closed, "Alex").err().unwrap().code, "instance_whitelisted");
    assert!(check_whitelist(LaunchMode::Install, closed, "Alex").is_ok());
}

#[test]
fn the_plan_follows_the_instance_and_the_settings() {
    let config = LauncherConfig::from_client(&ClientConfig::sample());
    let mut settings = Settings::from_config(&config);
    settings.jvm_args = vec!["-Dglobal".into(), " ".into()];
    settings.launcher_behavior = LauncherBehavior::Bound;
    let list = instances(
        r#"[{"id": "abc", "name": "a", "loader": {"minecraft_version": " 1.20.1 ", "loader_type": " Forge ", "loader_version": "47.2"},
             "jvm_args": ["-Dinstance"], "java": {"version": "17"}}]"#,
    );
    let plan = LaunchPlan::of(&settings, &list[0], true).ok().unwrap();
    assert_eq!(plan.version, "1.20.1");
    assert_eq!(plan.loader.as_deref(), Some("forge"));
    assert_eq!(plan.loader_build, "47.2");
    assert_eq!(plan.jvm_args, vec!["-Dinstance".to_owned(), "-Dglobal".to_owned()]);
    assert_eq!(plan.java_version.as_deref(), Some("17"));
    assert_eq!(plan.memory_min, format!("{}M", config.memory.default_min_mb));
    assert!(!plan.detached);
    assert!(plan.ignore_log4j);

    settings.instances.insert(
        "abc".into(),
        InstanceSettings {
            memory: Some(MemorySettings { min_mb: 2048, max_mb: 6144 }),
            java: None,
            jvm_args: Some(Vec::new()),
        },
    );
    settings.java.mode = JavaMode::Custom;
    settings.java.path = Some("/opt/java".into());
    let plan = LaunchPlan::of(&settings, &list[0], true).ok().unwrap();
    assert_eq!(plan.memory_max, "6144M");
    assert_eq!(plan.jvm_args, vec!["-Dinstance".to_owned()]);
    assert_eq!(plan.java_path.as_deref(), Some("/opt/java"));
    assert_eq!(plan.java_version, None);

    let mcp = instances(r#"[{"name": "m", "loader": {"minecraft_version": "1.6.4", "loader_type": "MCP", "mcp_file": "m.jar"}}]"#);
    let plan = LaunchPlan::of(&settings, &mcp[0], false).ok().unwrap();
    assert_eq!(plan.loader, None);
    assert_eq!(plan.mcp.as_deref(), Some("m.jar"));
}

#[test]
fn instance_files_live_under_the_root() {
    assert_eq!(client_jar_path("/g", " 1.20.1 "), "/g/versions/1.20.1/1.20.1.jar");
    assert_eq!(game_dir_path("/g", "abc"), "/g/instances/abc");
    let list = instances(r#"[{"id": "abc", "name": "a", "version": "1"}]"#);
    let status = InstanceStatus::of(&list[0], "/g", true, false);
    assert_eq!(status.game_dir, "/g/instances/abc");
    assert!(status.installed && !status.has_game_dir);
}

#[test]
fn updates_come_from_the_panel_first() {
    let builtin = vec!["https://builtin".to_owned()];
    assert_eq!(configured_endpoints(Some(vec!["https://panel".into()]), &builtin), vec!["https://panel"]);
    assert_eq!(configured_endpoints(Some(Vec::new()), &builtin), builtin);
    assert_eq!(configured_endpoints(None, &builtin), builtin);
    assert_eq!(check_can_install(true).err().unwrap().code, "game_running");
    let mut progress = DownloadProgress::new();
    let first = progress.on_chunk(10, Some(30));
    assert!(matches!(first[0], UpdateEvent::Started { content_length: Some(30) }));
    assert!(matches!(first[1], UpdateEvent::Progress { downloaded: 10, .. }));
    let second = progress.on_chunk(5, Some(30));
    assert_eq!(second.len(), 1);
    assert!(matches!(second[0], UpdateEvent::Progress { downloaded: 15, .. }));
}

#[test]
fn a_server_is_pinged_only_at_a_real_host() {
    let (host, port, timeout) = server_target("  play.example ", None, 25565, 100_000).ok().unwrap();
    assert_eq!(host, "play.example");
    assert_eq!(port, 25565);
    assert_eq!(timeout, 15_000);
    assert_eq!(server_target("a b", Some(1), 25565, 1000).err().unwrap().code, "server_invalid");
    assert!(server_target("   ", Some(1), 25565, 1000).is_err());
    let off = offline_status("h".into(), 1, "refused".into(), 7);
    assert!(!off.online && off.error.as_deref() == Some("refused"));
    let on = answered_status("h".into(), 1, false, 3, 10, 42, String::new(), None, None, vec![], 7);
    assert!(on.online && on.version.is_none() && on.latency_ms == Some(42));
}

#[test]
fn folders_and_links_are_checked() {
    assert!(matches!(folder_target("logs"), Ok(FolderTarget::Logs)));
    match folder_target("instance:abc") {
        Ok(FolderTarget::Instance(id)) => assert_eq!(id, "abc"),
        _ => panic!("an instance folder"),
    }
    assert_eq!(folder_target("../x").err().unwrap().code, "invalid_argument");
    assert!(check_external_url("https://x").is_ok());
    assert!(check_external_url("file:///etc/passwd").is_err());
    assert_eq!(memory_mb(8 * 1024 * 1024 * 1024), Some(8192));
    assert_eq!(memory_mb(0), None);
    assert!(plausible_icon(1));
    assert!(!plausible_icon(0));
    assert!(!plausible_icon(8 * 1024 * 1024 + 1));
}

#[test]
fn the_data_directory_is_remembered_once() {
    assert_eq!(remembered_directory(Some(" luuxis "), None).as_deref(), Some("luuxis"));
    assert_eq!(remembered_directory(Some("luuxis"), Some("luuxis")), None);
    assert_eq!(remembered_directory(Some("  "), None), None);
    assert_eq!(data_directory(&Some("panel".into()), "built-in"), "panel");
    assert_eq!(data_directory(&None, "built-in"), "built-in");
    let config = LauncherConfig::from_client(&ClientConfig::sample());
    let mut settings = Settings::from_config(&config);
    settings.selected_account = Some("u".into());
    settings.download_concurrency = 1;
    let reset = reset_settings(&config, settings);
    assert_eq!(reset.selected_account.as_deref(), Some("u"));
    assert_eq!(reset.download_concurrency, config.downloads.default_concurrency);
}

#[test]
fn the_desktop_entry_is_rewritten_only_when_it_changed() {
    let stamp = || Stamp { app_id: "a".into(), name: "n".into(), command: "\"/x\"".into(), icon_bytes: 3 };
    assert!(needs_refresh(None, &stamp()));
    assert!(!needs_refresh(Some(&stamp()), &stamp()));
    let mut other = stamp();
    other.icon_bytes = 4;
    assert!(needs_refresh(Some(&other), &stamp()));
    assert_eq!(entry_path("/d/applications", "a.b"), "/d/applications/a.b.desktop");
}

#[test]
fn the_pack_is_looked_for_where_the_engine_is() {
    assert_eq!(appimage_path(Some("/opt/a.AppImage".into())).as_deref(), Some("/opt/a.AppImage"));
    assert_eq!(appimage_path(Some("a.AppImage".into())), None);
    assert_eq!(
        enclosing_bundle("/Applications/Mon Serveur.app/Contents/MacOS/launcher").as_deref(),
        Some("/Applications/Mon Serveur.app")
    );
    assert_eq!(enclosing_bundle("/opt/a/engine/launcher"), None);
    let candidates = vec![("/a/client".to_owned(), false), ("/b/client".to_owned(), true)];
    assert_eq!(ClientConfig::resolve(Some("/a/e/x"), &candidates).unwrap(), "/b/client");
    let missing = vec![("/a/client".to_owned(), false), ("/b/client".to_owned(), false)];
    assert_eq!(
        ClientConfig::resolve(Some("/a/e/x"), &missing).unwrap_err(),
        "no client_config.json found next to /a/e/x; looked in: /a/client, /b/client"
    );
    assert!(ClientConfig::resolve(None, &candidates).is_err());
}

#[test]
fn the_clock_reads_after_the_epoch() {
    assert!(unix_now() > 1_600_000_000);
}

#[test]
fn the_panel_routes_hang_off_the_user_api() {
    let client = ClientConfig::sample();
    let mut config = LauncherConfig::from_client(&client);
    let base = config.user_api_url();
    let api = LuuxCraftApi::new(&config);
    assert_eq!(api.config_url(), format!("{base}/config"));
    assert_eq!(api.articles_url(5), format!("{base}/articles?limit=5"));
    assert_eq!(api.instances_url(), format!("{base}/instances"));
    assert_eq!(api.timeout_seconds(), 15);
    config.api.timeout_seconds = 1;
    assert_eq!(LuuxCraftApi::new(&config).timeout_seconds(), 3);
    config.api.timeout_seconds = 1000;
    assert_eq!(LuuxCraftApi::new(&config).timeout_seconds(), 120);
}

#[test]
fn answers_of_the_wrong_shape_are_invalid() {
    let refused = config_from(json("[]")).err().unwrap();
    assert_eq!(refused.code, "api_invalid");
    assert_eq!(refused.message, "config is not a JSON object");
    assert!(config_from(json(r#"{"maintenance": false}"#)).is_ok());
    assert_eq!(articles_from(json("3")).err().unwrap().message, "articles response is not a list");
    assert_eq!(articles_from(json("[]")).ok().unwrap().len(), 0);
    assert_eq!(instances_from(json("3")).err().unwrap().code, "api_invalid");
    assert_eq!(instances_from(json(r#"{"a": {"name": "A", "loader": {"minecraft_version": "1.20.1", "loader_type": "fabric"}}}"#)).ok().unwrap().len(), 1);
}

fn update_info(version: &str) -> UpdateInfo {
    UpdateInfo {
        version: version.to_string(),
        current_version: "0.1.0".to_string(),
        body: Some("notes".to_string()),
        date: None,
    }
}

#[test]
fn update_check_reports_nothing_without_endpoints() {
    let unconfigured = UpdateCheck::of(false, Some(update_info("0.2.0")));
    assert!(!unconfigured.configured);
    assert!(unconfigured.update.is_none());
    let configured = UpdateCheck::of(true, Some(update_info("0.2.0")));
    assert!(configured.configured);
    assert_eq!(configured.update.unwrap().version, "0.2.0");
    assert!(UpdateCheck::of(true, None).update.is_none());
}

#[test]
fn installing_needs_an_update() {
    assert_eq!(require_update(Some(7u32)).ok(), Some(7));
    let refused = require_update::<u32>(None).err().unwrap();
    assert_eq!(refused.code, "update_failed");
    assert_eq!(refused.message, "no update available");
}

#[test]
fn an_unknown_loader_is_refused() {
    let config = LauncherConfig::from_client(&ClientConfig::sample());
    let settings = Settings::from_config(&config);
    let list = instances(
        r#"[{"id": "abc", "name": "a", "loader": {"minecraft_version": "1.20.1", "loader_type": " Quilted ", "loader_version": "1"}}]"#,
    );
    let refused = LaunchPlan::of(&settings, &list[0], false).err().unwrap();
    assert_eq!(refused.code, "instance_invalid");
    assert_eq!(refused.message, "unknown loader type quilted");
    assert_eq!(LaunchPlan::of(&settings, &list[0], true).ok().unwrap().loader.as_deref(), Some("quilted"));
}

#[test]
fn a_run_checks_in_order() {
    let mut snap = snapshot(0);
    snap.instances = instances(r#"[{"id": "abc", "name": "a", "version": "1.0"}]"#);
    let running = check_run(LaunchMode::Launch, true, &snap, "nope", None).err().unwrap();
    assert_eq!(running.code, "game_running");
    let unknown = check_run(LaunchMode::Launch, false, &snap, "nope", None).err().unwrap();
    assert_eq!(unknown.message, "unknown instance nope");
    let no_account = check_run(LaunchMode::Launch, false, &snap, "abc", None).err().unwrap();
    assert_eq!(no_account.code, "account_required");
    snap.config.maintenance = true;
    let closed = check_run(LaunchMode::Launch, false, &snap, "abc", Some("u".into())).err().unwrap();
    assert_eq!(closed.code, "maintenance");
    assert_eq!(closed.message, "the server is under maintenance");
    let (instance, account) = check_run(LaunchMode::Install, true, &snap, "abc", None).ok().unwrap();
    assert_eq!(instance.id, "abc");
    assert_eq!(account, None);
    snap.config.maintenance = false;
    let (_, account) = check_run(LaunchMode::Launch, false, &snap, "abc", Some("u".into())).ok().unwrap();
    assert_eq!(account.as_deref(), Some("u"));
}
