use luuxcraft_launcher::client_config::ClientConfig;
use luuxcraft_launcher::config::LauncherConfig;
use luuxcraft_launcher::json::{merge, Json, JsonNumber};
use luuxcraft_launcher::settings::{
    sanitize_memory, validate_incoming, InstanceMap, InstanceSettings, JavaMode, MemorySettings,
    Settings, MIN_MEMORY_MB, MIN_WINDOW_SIZE,
};

fn config() -> LauncherConfig {
    LauncherConfig::from_client(&ClientConfig::sample())
}

#[test]
fn sanitize_clamps_values() {
    let config = config();
    let mut settings = Settings::from_config(&config);
    settings.download_concurrency = 500;
    settings.memory = MemorySettings { min_mb: 9000, max_mb: 100 };
    settings.game_window.width = Some(10);
    settings.sanitize(&config, Some(8192));
    assert_eq!(settings.download_concurrency, 30);
    assert_eq!(settings.memory.max_mb, MIN_MEMORY_MB);
    assert_eq!(settings.memory.min_mb, MIN_MEMORY_MB);
    assert_eq!(settings.game_window.width, Some(MIN_WINDOW_SIZE));
}

#[test]
fn instance_overrides_win() {
    let config = config();
    let mut settings = Settings::from_config(&config);
    settings.instances.insert(
        "abc".into(),
        InstanceSettings {
            memory: Some(MemorySettings { min_mb: 2048, max_mb: 6144 }),
            java: None,
            jvm_args: None,
        },
    );
    assert_eq!(settings.for_instance("abc").memory.max_mb, 6144);
    assert_eq!(settings.for_instance("other").memory.max_mb, config.memory.default_max_mb);
}

#[test]
fn the_heap_leaves_a_gigabyte_to_the_machine() {
    let memory = sanitize_memory(MemorySettings { min_mb: 1024, max_mb: 16384 }, Some(8192));
    assert_eq!(memory, MemorySettings { min_mb: 1024, max_mb: 7168 });
    let memory = sanitize_memory(MemorySettings { min_mb: 1024, max_mb: 16384 }, Some(1000));
    assert_eq!(memory, MemorySettings { min_mb: 512, max_mb: 512 });
    let memory = sanitize_memory(MemorySettings { min_mb: 4096, max_mb: 2048 }, None);
    assert_eq!(memory, MemorySettings { min_mb: 2048, max_mb: 2048 });
}

#[test]
fn a_blank_custom_java_falls_back_to_auto() {
    let config = config();
    let mut settings = Settings::from_config(&config);
    settings.java.mode = JavaMode::Custom;
    settings.java.path = Some("   ".into());
    settings.ui.theme = "neon".into();
    settings.jvm_args = vec!["-Xss1M".into(), "  ".into()];
    settings.install_path = Some(" ".into());
    settings.server_status_refresh_seconds = 1;
    settings.sanitize(&config, None);
    assert_eq!(settings.java.mode, JavaMode::Auto);
    assert_eq!(settings.java.path, None);
    assert_eq!(settings.ui.theme, "dark");
    assert_eq!(settings.jvm_args, vec!["-Xss1M".to_owned()]);
    assert_eq!(settings.install_path, None);
    assert_eq!(settings.server_status_refresh_seconds, 10);
}

#[test]
fn incoming_settings_are_checked() {
    let config = config();
    let mut settings = Settings::from_config(&config);
    assert!(validate_incoming(&settings, false, false).is_ok());
    settings.install_path = Some("relative/path".into());
    assert_eq!(validate_incoming(&settings, false, false).err().unwrap().code, "settings_invalid");
    settings.install_path = Some("/games".into());
    settings.java.mode = JavaMode::Custom;
    settings.java.path = Some("/usr/bin/java".into());
    assert_eq!(validate_incoming(&settings, false, false).err().unwrap().code, "java_missing");
    assert!(validate_incoming(&settings, true, false).is_ok());
    settings.memory = MemorySettings { min_mb: 4096, max_mb: 1024 };
    assert_eq!(validate_incoming(&settings, true, false).err().unwrap().code, "settings_invalid");
}

#[test]
fn the_instance_map_reads_back_what_was_written() {
    let mut map = InstanceMap::new();
    assert_eq!(map.len(), 0);
    assert!(map.insert("a".into(), InstanceSettings { memory: None, java: None, jvm_args: None }).is_none());
    assert!(map
        .insert(
            "a".into(),
            InstanceSettings {
                memory: Some(MemorySettings { min_mb: 1, max_mb: 2 }),
                java: None,
                jvm_args: None,
            }
        )
        .is_some());
    assert_eq!(map.len(), 1);
    assert_eq!(map.get("a").unwrap().memory, Some(MemorySettings { min_mb: 1, max_mb: 2 }));
    assert!(map.get("b").is_none());
}

fn number(n: u64) -> Json {
    Json::Number(JsonNumber { text: n.to_string(), int: Some(n as i64), uint: Some(n) })
}

fn object(members: Vec<(&str, Json)>) -> Json {
    Json::Object(members.into_iter().map(|(k, v)| (k.to_string(), v)).collect())
}

fn member<'a>(j: &'a Json, name: &str) -> Option<&'a Json> {
    match j {
        Json::Object(fields) => fields.iter().find(|(k, _)| k == name).map(|(_, v)| v),
        _ => None,
    }
}

fn number_of(j: Option<&Json>) -> Option<u64> {
    match j {
        Some(Json::Number(n)) => n.uint,
        _ => None,
    }
}

#[test]
fn merge_keeps_defaults_for_missing_keys() {
    let config = config();
    let defaults = object(vec![
        ("downloadConcurrency", number(config.downloads.default_concurrency as u64)),
        (
            "memory",
            object(vec![
                ("minMb", number(config.memory.default_min_mb)),
                ("maxMb", number(config.memory.default_max_mb)),
            ]),
        ),
    ]);
    let stored = object(vec![
        ("memory", object(vec![("maxMb", number(8192))])),
        ("unknownKey", number(1)),
    ]);
    let merged = merge(defaults, stored);
    let memory = member(&merged, "memory");
    assert_eq!(number_of(memory.and_then(|m| member(m, "maxMb"))), Some(8192));
    assert_eq!(
        number_of(memory.and_then(|m| member(m, "minMb"))),
        Some(config.memory.default_min_mb)
    );
    assert_eq!(
        number_of(member(&merged, "downloadConcurrency")),
        Some(config.downloads.default_concurrency as u64)
    );
    assert_eq!(number_of(member(&merged, "unknownKey")), Some(1));
}

#[test]
fn a_stored_scalar_replaces_a_default_object() {
    let defaults = object(vec![("ui", object(vec![("theme", Json::String("dark".to_string()))]))]);
    let stored = object(vec![("ui", Json::Null)]);
    let merged = merge(defaults, stored);
    assert!(matches!(member(&merged, "ui"), Some(Json::Null)));
    let replaced = merge(Json::Bool(true), object(vec![("a", number(2))]));
    assert_eq!(number_of(member(&replaced, "a")), Some(2));
}

#[test]
fn install_paths_follow_the_target_rules() {
    let config = config();
    let mut settings = Settings::from_config(&config);
    for accepted in ["C:\\Games", "d:/games", "\\\\server\\share\\games"] {
        settings.install_path = Some(accepted.into());
        assert!(validate_incoming(&settings, false, true).is_ok(), "{accepted}");
    }
    for refused in ["C:Games", "\\Games", "/games", "\\\\server", "\\\\server\\"] {
        settings.install_path = Some(refused.into());
        assert_eq!(validate_incoming(&settings, false, true).err().unwrap().code, "settings_invalid", "{refused}");
    }
    settings.install_path = Some("C:\\Games".into());
    assert_eq!(validate_incoming(&settings, false, false).err().unwrap().code, "settings_invalid");
}
