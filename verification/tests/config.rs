use luuxcraft_launcher::client_config::ClientConfig;
use luuxcraft_launcher::config::{
    sanitize_dir_name, updater_endpoints_for, LauncherConfig, Paths,
};

#[test]
fn the_client_pack_decides_the_panel_and_the_tenant() {
    let client = ClientConfig::sample();
    let config = LauncherConfig::from_client(&client);
    assert_eq!(config.user_id, client.tenant_id);
    assert_eq!(config.slug, client.slug);
    assert_eq!(config.api.base_url, "https://luuxcraft.fr/api");
    assert!(config.user_api_url().ends_with(&client.tenant_id));
    assert!(config.downloads.max_concurrency <= 30);
}

#[test]
fn the_updater_follows_the_panel_of_the_pack() {
    let mut client = ClientConfig::sample();
    client.api_base_url = "https://autre-panel.fr/api".into();
    let config = LauncherConfig::from_client(&client);
    assert!(
        config
            .updater
            .endpoints
            .iter()
            .all(|endpoint| endpoint.starts_with("https://autre-panel.fr/api/")),
        "updates must follow the panel: {:?}",
        config.updater.endpoints
    );
}

#[test]
fn updater_endpoints_keep_the_plugin_placeholders() {
    let endpoints = updater_endpoints_for("https://luuxcraft.fr/api");
    assert_eq!(
        endpoints,
        vec!["https://luuxcraft.fr/api/launcher/update/{{target}}/{{arch}}/{{current_version}}"]
    );
}

#[test]
fn directory_names_are_sanitized() {
    assert_eq!(sanitize_dir_name("luuxis"), "luuxis");
    assert_eq!(sanitize_dir_name("../evil"), "evil");
    assert_eq!(sanitize_dir_name("  "), "luuxcraft");
    assert_eq!(sanitize_dir_name("a/b:c"), "abc");
}

#[test]
fn the_user_api_ends_with_the_tenant() {
    let config = LauncherConfig::from_client(&ClientConfig::sample());
    assert_eq!(
        config.user_api_url(),
        "https://luuxcraft.fr/api/user/00000000-0000-4000-8000-000000000001"
    );
}

#[test]
fn the_paths_of_a_tenant_stay_under_its_root() {
    let paths = Paths::for_tenant("/home/j/.local/share/luuxcraft/mon-serveur", "/home/j/.local/share");
    assert!(paths.accounts_file().starts_with("/home/j/.local/share/luuxcraft/mon-serveur/"));
    assert!(paths.accounts_file().ends_with("accounts.json"));
    assert!(paths.settings_file().ends_with("settings.json"));
}

#[test]
fn dir_names_never_climb_out() {
    assert_eq!(sanitize_dir_name(". .. ."), "luuxcraft");
    assert_eq!(sanitize_dir_name(".."), "luuxcraft");
    assert_eq!(sanitize_dir_name(" .mc. "), "mc");
    assert_eq!(sanitize_dir_name(". game data ."), "game data");
    assert_eq!(sanitize_dir_name(". . ."), "luuxcraft");
    assert_eq!(sanitize_dir_name("a. "), "a");
    assert_eq!(sanitize_dir_name(". .a"), ".a");
}
