use luuxcraft_launcher::json::Json;
use luuxcraft_launcher::models::{
    is_web_url, parse_memory_mb, ApiFailure, Article, AuthMode, Instance, Link, RemoteConfig,
};

fn json(text: &str) -> Json {
    Json::parse(text.as_bytes()).expect("valid JSON")
}

fn member<'a>(fields: &'a [(String, Json)], key: &str) -> Option<&'a Json> {
    fields.iter().find(|(name, _)| name == key).map(|(_, value)| value)
}

#[test]
fn parses_real_config() {
    let config = RemoteConfig::from_value(json(
        r#"{
            "maintenance": false,
            "maintenance_message": "Le serveur est en maintenance",
            "dataDirectory": "luuxis",
            "online": true,
            "client_id": "13f589e1",
            "socialLinks": []
        }"#,
    ))
    .expect("valid config");
    assert!(!config.maintenance);
    assert_eq!(config.data_directory.as_deref(), Some("luuxis"));
    assert!(matches!(config.auth, AuthMode::Microsoft));
    assert_eq!(config.client_id.as_deref(), Some("13f589e1"));
    assert!(config.links.is_empty());
    assert!(config.brand.is_none());
    assert!(config.updater_endpoints.is_empty());
    assert!(config.yggdrasil.is_none());
}

#[test]
fn reads_the_optional_launcher_blocks() {
    let config = RemoteConfig::from_value(json(
        r#"{
            "online": true,
            "brand": {
                "name": "LuuxCraft",
                "wordmark": { "prefix": "Luux", "suffix": "Craft" },
                "subtitle": "Launcher",
                "website": "https://luuxcraft.fr"
            },
            "updater": { "endpoints": ["https://luuxcraft.fr/launcher/latest.json", "http://insecure"] },
            "yggdrasil": "https://auth.luuxcraft.fr",
            "modules": { "news": true, "skins": false }
        }"#,
    ))
    .expect("valid config");
    let brand = config.brand.expect("brand");
    assert_eq!(brand.name.as_deref(), Some("LuuxCraft"));
    assert_eq!(brand.prefix.as_deref(), Some("Luux"));
    assert_eq!(brand.suffix.as_deref(), Some("Craft"));
    assert_eq!(brand.website.as_deref(), Some("https://luuxcraft.fr"));
    assert_eq!(config.updater_endpoints, vec!["https://luuxcraft.fr/launcher/latest.json"]);
    assert_eq!(config.yggdrasil.as_deref(), Some("https://auth.luuxcraft.fr"));
    assert!(matches!(member(&config.modules, "skins"), Some(Json::Bool(false))));
    assert!(config.extra.is_empty());
}

#[test]
fn accepts_a_flat_brand_and_a_single_updater_url() {
    let config = RemoteConfig::from_value(json(
        r#"{
            "brand": { "prefix": "Mon", "suffix": "Serveur" },
            "updater": "https://example.com/latest.json"
        }"#,
    ))
    .expect("valid config");
    let brand = config.brand.expect("brand");
    assert_eq!(brand.prefix.as_deref(), Some("Mon"));
    assert_eq!(brand.name, None);
    assert_eq!(config.updater_endpoints, vec!["https://example.com/latest.json"]);
}

#[test]
fn online_string_is_azauth() {
    let config = RemoteConfig::from_value(json(r#"{ "online": "https://site.example" }"#))
        .expect("valid config");
    match config.auth {
        AuthMode::AzAuth { url } => assert_eq!(url, "https://site.example"),
        _ => panic!("AZauth expected"),
    }
    let offline = RemoteConfig::from_value(json(r#"{ "online": false, "unknown": 1 }"#))
        .expect("valid config");
    assert!(matches!(offline.auth, AuthMode::Offline));
    match member(&offline.extra, "unknown") {
        Some(Json::Number(n)) => assert_eq!(n.int, Some(1)),
        _ => panic!("the unknown member is kept"),
    }
}

#[test]
fn links_accept_many_shapes() {
    let links = Link::list_from_value(&json(
        r#"[
            { "name": "Discord", "url": "https://discord.gg/x", "icon": "discord", "order": 2 },
            { "label": "Shop", "link": "https://shop.example", "order": 1 },
            "https://youtube.com/@x",
            { "url": "javascript:alert(1)" }
        ]"#,
    ));
    assert_eq!(links.len(), 3);
    assert_eq!(links[0].label, "Shop");
    assert_eq!(links[1].icon.as_deref(), Some("discord"));
    assert_eq!(links[2].label, "https://youtube.com/@x");
}

#[test]
fn parses_real_articles() {
    let articles = Article::list_from_value(json(
        r#"[
            {"id":77,"title":"salut","content":"<h1>hello</h1>","author":"André","publish_date":"2026-07-03T09:03:00.000Z"}
        ]"#,
    ))
    .expect("a list");
    assert_eq!(articles[0].id, "77");
    assert_eq!(articles[0].author.as_deref(), Some("André"));
    assert_eq!(articles[0].published_at.as_deref(), Some("2026-07-03T09:03:00.000Z"));
}

#[test]
fn parses_real_instances() {
    let instances = Instance::list_from_value(json(
        r#"{
            "2442be4f": {"name":"Shalltcraft","url":"https://luuxcraft.fr/api/user/x/instance/2442be4f","loader":{"minecraft_version":"1.21.1","loader_type":"neoforge","loader_version":"21.1.250","mcp_file":null},"verify":false,"ignored":["logs","options.txt"],"whitelist":[],"whitelistActive":false,"status":{"nameServer":"Shalltcraft","ip":"91.197.6.218","port":25638}},
            "18a8136c": {"name":"MITE 1.6.4","url":"https://x/instance/18a8136c","loader":{"minecraft_version":"1.6.4","loader_type":"mcp","loader_version":"none","mcp_file":"minecraft.jar"},"verify":false,"ignored":[],"whitelist":["Luuxis"],"whitelistActive":true,"status":{"nameServer":"","ip":"","port":null}},
            "legacy": {"name":"Old","url":"https://x/instance/legacy","loadder":{"minecraft_version":"1.12.2","loadder_type":"forge","loadder_version":"latest"}},
            "off": {"name":"Off","enabled":false,"loader":{"minecraft_version":"1.0"}}
        }"#,
    ))
    .expect("instances");
    assert_eq!(instances.len(), 3);
    let mite = instances.iter().find(|i| i.name == "MITE 1.6.4").unwrap();
    assert_eq!(mite.loader.kind, "mcp");
    assert_eq!(mite.loader.version, "latest");
    assert_eq!(mite.loader.mcp_file.as_deref(), Some("minecraft.jar"));
    assert!(mite.server.is_none());
    assert!(mite.allows(Some("Luuxis")));
    assert!(!mite.allows(Some("Steve")));
    let shallt = instances.iter().find(|i| i.name == "Shalltcraft").unwrap();
    assert_eq!(shallt.server.as_ref().unwrap().port, Some(25638));
    assert_eq!(shallt.ignored.len(), 2);
    let legacy = instances.iter().find(|i| i.name == "Old").unwrap();
    assert_eq!(legacy.loader.kind, "forge");
    assert_eq!(legacy.minecraft_version, "1.12.2");
}

#[test]
fn memory_values_are_normalized() {
    assert_eq!(parse_memory_mb(&json("\"4G\"")), Some(4096));
    assert_eq!(parse_memory_mb(&json("\"2048M\"")), Some(2048));
    assert_eq!(parse_memory_mb(&json("6")), Some(6144));
    assert_eq!(parse_memory_mb(&json("3072")), Some(3072));
}

#[test]
fn detects_api_failures() {
    assert_eq!(
        ApiFailure::detect(&json(r#"{"success": false, "message": "nope"}"#)),
        Some("nope".into())
    );
    assert_eq!(ApiFailure::detect(&json(r#"{"maintenance": false}"#)), None);
    assert_eq!(ApiFailure::detect(&json("[]")), None);
}

#[test]
fn a_failure_without_message_is_unknown() {
    assert_eq!(
        ApiFailure::detect(&json(r#"{"status": "error"}"#)),
        Some("unknown API error".into())
    );
    assert_eq!(ApiFailure::detect(&json(r#"{"success": "no"}"#)), None);
    assert_eq!(ApiFailure::detect(&json("[false]")), Some("unknown API error".into()));
    assert_eq!(ApiFailure::detect(&json("\"text\"")), None);
}

#[test]
fn a_config_must_be_an_object() {
    assert_eq!(
        RemoteConfig::from_value(json("[]")).err(),
        Some("config is not a JSON object".to_owned())
    );
}

#[test]
fn offline_words_and_urls_decide_the_auth_mode() {
    for word in ["false", "0", "Offline", " crack "] {
        let config = RemoteConfig::from_value(json(&format!("{{\"online\": \"{word}\"}}"))).unwrap();
        assert!(matches!(config.auth, AuthMode::Offline), "{word}");
    }
    let config = RemoteConfig::from_value(json(r#"{"online": "yes"}"#)).unwrap();
    assert!(matches!(config.auth, AuthMode::Microsoft));
    let config = RemoteConfig::from_value(json(r#"{"online": null}"#)).unwrap();
    assert!(matches!(config.auth, AuthMode::Microsoft));
}

#[test]
fn only_https_updater_endpoints_are_kept() {
    let config = RemoteConfig::from_value(json(
        r#"{"updater": {"urls": []}, "updaterEndpoints": ["http://a", "https://b"]}"#,
    ))
    .unwrap();
    assert_eq!(config.updater_endpoints, vec!["https://b"]);
    let config = RemoteConfig::from_value(json(r#"{"updater": "  http://plain  "}"#)).unwrap();
    assert!(config.updater_endpoints.is_empty());
}

#[test]
fn articles_come_from_a_list_or_a_wrapper() {
    let wrapped = Article::list_from_value(json(
        r#"{"data": [{"title": "b", "order": 2}, {"title": "a", "order": 1}, {"body": "no title"}, {"title": "c"}]}"#,
    ))
    .unwrap();
    let titles: Vec<&str> = wrapped.iter().map(|a| a.title.as_str()).collect();
    assert_eq!(titles, vec!["a", "b", "c"]);
    assert_eq!(wrapped[2].id, "article-3");
    assert_eq!(wrapped[0].content, "");
    assert_eq!(
        Article::list_from_value(json(r#"{"articles": 1, "data": []}"#)).err(),
        Some("articles response is not a list".to_owned())
    );
    assert!(Article::list_from_value(json("3")).is_err());
}

#[test]
fn instances_are_sorted_by_order_then_name() {
    let instances = Instance::list_from_value(json(
        r#"[
            {"name": "beta", "version": "1.20"},
            {"name": "Alpha", "version": "1.20"},
            {"name": "first", "version": "1.20", "order": 1},
            {"version": "1.20", "disabled": true},
            {"name": "none"}
        ]"#,
    ))
    .unwrap();
    let names: Vec<&str> = instances.iter().map(|i| i.name.as_str()).collect();
    assert_eq!(names, vec!["first", "Alpha", "beta"]);
    assert_eq!(instances[0].id, "instance-2");
    assert_eq!(instances[0].loader.kind, "none");
    assert_eq!(instances[0].loader.version, "latest");
    assert!(Instance::list_from_value(json("\"x\"")).is_err());
}

#[test]
fn web_urls_are_http_or_https() {
    assert!(is_web_url("https://a"));
    assert!(is_web_url("http://a"));
    assert!(!is_web_url("ftp://a"));
    assert!(!is_web_url(" https://a"));
}
