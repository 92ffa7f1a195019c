use luuxcraft_launcher::client_config::{
    RawClientConfig, RawWindow,
    external_pack_dirs, install_key, is_plain_file_name, macos_installs_dir, pack_dir_candidates,
    ClientConfig, INSTALL_KEY_LENGTH,
};

const VALID: &str = r#"{
        "schema": 1,
        "tenant_id": "00000000-0000-4000-8000-000000000001",
        "slug": "mon-serveur",
        "display_name": "Mon Serveur",
        "api_base_url": "https://panel.example/api",
        "window": { "title": "Mon Serveur", "icon": "icon.png" },
        "updated_at": "2026-09-16T10:00:00.000Z"
    }"#;

fn parse(json: &str) -> Result<ClientConfig, String> {
    ClientConfig::parse(json.as_bytes(), "/opt/mon-serveur/client")
}

#[test]
fn reads_the_contract_shape() {
    let client = parse(VALID).expect("valid client pack");
    assert_eq!(client.tenant_id, "00000000-0000-4000-8000-000000000001");
    assert_eq!(client.slug, "mon-serveur");
    assert_eq!(client.display_name, "Mon Serveur");
    assert_eq!(client.api_base_url, "https://panel.example/api");
    assert_eq!(client.window.title, "Mon Serveur");
    assert_eq!(client.icon_path(), "/opt/mon-serveur/client/icon.png");
}

#[test]
fn the_window_block_is_optional() {
    let client = parse(
        r#"{"schema":1,"tenant_id":"abc","slug":"a","display_name":"Mon Serveur",
                "api_base_url":"https://a.fr/api"}"#,
    )
    .expect("valid client pack");
    assert_eq!(client.window.title, "Mon Serveur");
    assert_eq!(client.window.icon, "icon.png");
}

#[test]
fn a_trailing_slash_is_dropped_from_the_api_base() {
    let client = parse(&VALID.replace("https://panel.example/api", "https://panel.example/api/"))
        .expect("valid client pack");
    assert_eq!(client.api_base_url, "https://panel.example/api");
}

#[test]
fn client_config_plain_http_is_refused() {
    assert!(parse(&VALID.replace("https://panel", "http://panel")).is_err());
}

#[test]
fn an_unknown_schema_is_refused() {
    assert!(parse(&VALID.replace("\"schema\": 1", "\"schema\": 2")).is_err());
}

#[test]
fn a_slug_that_would_escape_its_parent_is_refused() {
    for slug in ["../etc", "Mon Serveur", "mon/serveur", "-abc", "abc-", ""] {
        assert!(
            parse(&VALID.replace("\"mon-serveur\"", &format!("\"{slug}\""))).is_err(),
            "slug {slug:?} must be refused",
        );
    }
}

#[test]
fn a_tenant_id_that_would_escape_the_url_is_refused() {
    assert!(parse(&VALID.replace("00000000-0000-4000-8000-000000000001", "../admin")).is_err());
}

#[test]
fn an_icon_outside_the_pack_is_refused() {
    for icon in ["../../secret.png", "/etc/passwd", "C:\\secret.png", ".."] {
        assert!(
            parse(&VALID.replace("\"icon.png\"", &format!("{icon:?}"))).is_err(),
            "icon {icon:?} must be refused",
        );
    }
}

#[test]
fn a_client_id_key_is_never_read_as_the_tenant() {
    let client = parse(
        r#"{"schema":1,"client_id":"azure-app-id","tenant_id":"abc","slug":"a",
                "display_name":"A","api_base_url":"https://a.fr/api"}"#,
    )
    .expect("valid client pack");
    assert_eq!(client.tenant_id, "abc");
}

#[test]
fn the_pack_sits_next_to_the_engine_directory() {
    let candidates = pack_dir_candidates("/opt/mon-serveur/engine/launcher");
    assert_eq!(candidates[0], "/opt/mon-serveur/client");
}

#[test]
fn the_mac_bundle_keeps_its_pack_in_resources() {
    let candidates =
        pack_dir_candidates("/Users/joueur/Applications/Mon Serveur.app/Contents/MacOS/launcher");
    assert!(candidates.contains(
        &"/Users/joueur/Applications/Mon Serveur.app/Contents/Resources/client".to_owned()
    ));
}

#[test]
fn a_binary_at_the_filesystem_root_has_no_candidate_above_it() {
    assert_eq!(pack_dir_candidates("/launcher"), vec!["/client".to_owned()]);
}

#[test]
fn the_install_key_matches_the_install_script() {
    assert_eq!(
        install_key("/Users/joueur/Applications/Mon Serveur.app"),
        "684af76fda7ae69dc815782b11099716",
    );
    assert_eq!(install_key("/a").len(), INSTALL_KEY_LENGTH);
}

#[test]
fn two_bundles_never_share_a_key() {
    let a = install_key("/Users/j/Applications/Serveur A.app");
    let b = install_key("/Users/j/Applications/Serveur B.app");
    assert_ne!(a, b);
}

#[test]
fn candidates_follow_the_documented_order() {
    assert_eq!(
        pack_dir_candidates("/opt/a/engine/launcher"),
        vec![
            "/opt/a/client".to_owned(),
            "/opt/a/Resources/client".to_owned(),
            "/opt/client".to_owned(),
            "/opt/a/engine/client".to_owned(),
        ]
    );
}

#[test]
fn plain_file_names_only() {
    assert!(is_plain_file_name("icon.png"));
    assert!(!is_plain_file_name(""));
    assert!(!is_plain_file_name("."));
    assert!(!is_plain_file_name(".."));
    assert!(!is_plain_file_name("a/b.png"));
    assert!(!is_plain_file_name("a\\b.png"));
    assert!(!is_plain_file_name("C:b.png"));
}

#[test]
fn a_pack_that_is_not_json_is_refused() {
    assert!(parse("not json").is_err());
    assert!(parse("[1, 2]").is_err());
}

#[test]
fn the_sample_pack_points_at_the_central_panel() {
    let sample = ClientConfig::sample();
    assert_eq!(sample.api_base_url, "https://luuxcraft.fr/api");
    assert_eq!(sample.icon_path(), "/tmp/luuxcraft-sample-client/icon.png");
}

#[test]
fn macos_installs_live_under_application_support() {
    assert_eq!(
        macos_installs_dir("/Users/joueur"),
        "/Users/joueur/Library/Application Support/luuxcraft/installs"
    );
}

#[test]
fn the_bundle_keyed_install_comes_first_then_a_lone_registered_one() {
    let installs = "/Users/joueur/Library/Application Support/luuxcraft/installs";
    let exe = "/Applications/Mon Serveur.app/Contents/MacOS/engine";
    let keyed = format!("{installs}/{}", install_key("/Applications/Mon Serveur.app"));
    let one = vec!["/elsewhere/only".to_string()];
    assert_eq!(external_pack_dirs(installs, exe, &one), vec![keyed.clone(), "/elsewhere/only".to_string()]);
    let two = vec!["/a".to_string(), "/b".to_string()];
    assert_eq!(external_pack_dirs(installs, exe, &two), vec![keyed]);
    assert!(external_pack_dirs(installs, "/usr/bin/engine", &two).is_empty());
    assert_eq!(external_pack_dirs(installs, "/usr/bin/engine", &one), one);
}

#[test]
fn an_oversized_or_broken_pack_names_its_file() {
    assert!(ClientConfig::check_size("/c/client_config.json", 65536).is_ok());
    assert_eq!(
        ClientConfig::check_size("/c/client_config.json", 70000).err().unwrap(),
        "/c/client_config.json is 70000 bytes, which is not a client configuration"
    );
    let refused = ClientConfig::parse_file("/c/client_config.json", b"\"pack\"", "/c").err().unwrap();
    assert_eq!(refused, "/c/client_config.json: the client pack is not a JSON object or array");
    let short = ClientConfig::parse_file("/c/client_config.json", b"[]", "/c").err().unwrap();
    assert_eq!(short, "/c/client_config.json: schema is missing");
    let slug = ClientConfig::parse_file("/c/f.json", VALID.replace("mon-serveur", "Mon Serveur").as_bytes(), "/c");
    assert_eq!(
        slug.err().unwrap(),
        "/c/f.json: slug must be lowercase [a-z0-9-] without leading or trailing dash"
    );
    assert!(ClientConfig::parse_file("/c/f.json", VALID.as_bytes(), "/c").is_ok());
}

#[test]
fn refusals_name_the_value_refused() {
    assert_eq!(
        parse(&VALID.replace("\"schema\": 1", "\"schema\": 2")).err().unwrap(),
        "unsupported schema 2, this engine reads 1"
    );
    assert_eq!(
        parse(&VALID.replace("https://panel.example/api", "http://panel.example/api")).err().unwrap(),
        "api_base_url must use https: http://panel.example/api"
    );
    assert_eq!(
        parse(&VALID.replace("\"icon.png\"", "\"../icon.png\"")).err().unwrap(),
        "window.icon must be a plain file name: ../icon.png"
    );
}

#[test]
fn the_array_form_reads_as_the_derive_reads_it() {
    let full = r#"[1, " 00000000-0000-4000-8000-000000000001 ", "mon-serveur", "Mon Serveur",
        "https://panel.example/api/", ["Titre", null], "2026-09-16T10:00:00.000Z"]"#;
    let client = parse(full).expect("array form");
    assert_eq!(client.tenant_id, "00000000-0000-4000-8000-000000000001");
    assert_eq!(client.api_base_url, "https://panel.example/api");
    assert_eq!(client.window.title, "Titre");
    assert_eq!(client.window.icon, "icon.png");
    assert_eq!(client.updated_at.as_deref(), Some("2026-09-16T10:00:00.000Z"));
    let short = r#"[1, "tenant", "mon-serveur", "Mon Serveur", "https://panel.example/api"]"#;
    let client = parse(short).expect("the last two members may be left out");
    assert_eq!(client.window.title, "Mon Serveur");
    assert_eq!(client.updated_at, None);
    assert_eq!(parse(r#"[1, "tenant"]"#).err().unwrap(), "slug is missing");
    assert_eq!(
        parse(r#"[1, "t", "s", "n", "https://a", null, null, "extra"]"#).err().unwrap(),
        "the client pack has more than 7 members"
    );
    assert_eq!(
        parse(r#"[1, "t", "s", "n", "https://a", ["a", "b", "c"]]"#).err().unwrap(),
        "window is not an object"
    );
}

#[test]
fn checked_members_give_the_pack() {
    let raw = RawClientConfig {
        schema: 1,
        tenant_id: "tenant".into(),
        slug: "mon-serveur".into(),
        display_name: " Mon Serveur ".into(),
        api_base_url: "https://panel.example/api".into(),
        window: Some(RawWindow { title: None, icon: Some(" logo.png ".into()) }),
        updated_at: None,
    };
    let client = ClientConfig::from_raw(raw, "/opt/c").ok().unwrap();
    assert_eq!(client.display_name, "Mon Serveur");
    assert_eq!(client.window.title, "Mon Serveur");
    assert_eq!(client.window.icon, "logo.png");
    assert_eq!(client.dir, "/opt/c");
}
