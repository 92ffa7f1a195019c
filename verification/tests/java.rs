use luuxcraft_launcher::java::{
    executable_name, first_seen, java_candidates, java_home_candidate, java_homes_under, java_roots,
    parse_properties, required_major, sort_installs, JavaInstall, JavaRequirement,
};

#[test]
fn parses_show_settings_output() {
    let text = "Property settings:\n    java.home = /opt/jdk-21\n    java.vendor = Eclipse Adoptium\n    java.version = 21.0.6\n    os.arch = aarch64\nopenjdk version \"21.0.6\" 2025-01-21 LTS\n";
    let install = parse_properties(text, "/opt/jdk-21/bin/java", "java", false).unwrap();
    assert_eq!(install.major, 21);
    assert_eq!(install.vendor, "Eclipse Adoptium");
    assert_eq!(install.arch, "aarch64");
}

#[test]
fn falls_back_to_version_banner() {
    let text = "java version \"1.8.0_392\"\nJava(TM) SE Runtime Environment\n";
    let install = parse_properties(text, "/x/bin/java", "java", false).unwrap();
    assert_eq!(install.major, 8);
    assert!(parse_properties("nothing here", "/x", "java", false).is_none());
}

#[test]
fn a_bare_java_resolves_to_its_home() {
    let text = "    java.home = /opt/jdk-21\n    java.version = 21.0.6\n";
    assert_eq!(
        java_home_candidate(text, "java", "java"),
        Some("/opt/jdk-21/bin/java".to_owned())
    );
    assert_eq!(java_home_candidate(text, "/usr/bin/java", "java"), None);
    let install = parse_properties(text, "java", "java", true).unwrap();
    assert_eq!(install.path, "/opt/jdk-21/bin/java");
    let install = parse_properties(text, "java", "java", false).unwrap();
    assert_eq!(install.path, "java");
    assert_eq!(install.vendor, "unknown");
}

#[test]
fn the_executable_is_named_per_platform() {
    assert_eq!(executable_name("windows"), "java.exe");
    assert_eq!(executable_name("linux"), "java");
}

fn strings(v: &[&str]) -> Vec<String> {
    v.iter().map(|s| s.to_string()).collect()
}

#[test]
fn each_os_has_its_installation_roots() {
    assert_eq!(
        java_roots("linux", Some("/home/joueur"), &Vec::new()),
        strings(&[
            "/usr/lib/jvm",
            "/usr/lib64/jvm",
            "/opt/java",
            "/home/joueur/.sdkman/candidates/java",
            "/home/joueur/.jdks",
        ])
    );
    assert_eq!(java_roots("linux", None, &Vec::new()).len(), 3);
    assert_eq!(
        java_roots("macos", Some("/Users/joueur"), &Vec::new()),
        strings(&[
            "/Library/Java/JavaVirtualMachines",
            "/Users/joueur/Library/Java/JavaVirtualMachines",
            "/opt/homebrew/opt",
            "/usr/local/opt",
        ])
    );
    let windows = java_roots("windows", None, &strings(&["C:/Program Files", "D:/Apps"]));
    assert_eq!(windows.len(), 16);
    assert_eq!(windows[0], "C:/Program Files/Java");
    assert_eq!(windows[1], "C:/Program Files/Eclipse Adoptium");
    assert_eq!(windows[15], "D:/Apps/AdoptOpenJDK");
}

#[test]
fn homebrew_roots_keep_only_openjdk_formulas() {
    let children = strings(&["/opt/homebrew/opt/openjdk@17", "/opt/homebrew/opt/git"]);
    assert_eq!(
        java_homes_under("macos", "/opt/homebrew/opt", &children),
        strings(&["/opt/homebrew/opt/openjdk@17/libexec/openjdk.jdk"])
    );
    assert_eq!(java_homes_under("linux", "/opt/homebrew/opt", &children), children);
    let jvms = strings(&["/usr/lib/jvm/java-17"]);
    assert_eq!(java_homes_under("macos", "/Library/Java/JavaVirtualMachines", &jvms), jvms);
}

#[test]
fn candidates_come_custom_first_then_java_home_then_path() {
    let system = strings(&["/usr/lib/jvm/java-17/bin/java"]);
    let managed = strings(&["/data/runtime/java-21/bin/java"]);
    let all = java_candidates(Some("/custom/java"), Some("/opt/jdk"), "java", &system, &managed);
    let shown: Vec<(&str, &str)> = all.iter().map(|(p, s)| (p.as_str(), *s)).collect();
    assert_eq!(
        shown,
        vec![
            ("/custom/java", "custom"),
            ("/opt/jdk/bin/java", "javaHome"),
            ("java", "path"),
            ("/usr/lib/jvm/java-17/bin/java", "system"),
            ("/data/runtime/java-21/bin/java", "managed"),
        ]
    );
    assert_eq!(java_candidates(None, None, "java.exe", &Vec::new(), &Vec::new()).len(), 1);
}

#[test]
fn a_runtime_reached_twice_is_probed_once() {
    let keys = strings(&["/a", "/b", "/a", "/c", "/b"]);
    assert_eq!(first_seen(&keys), vec![true, true, false, true, false]);
}

fn install(path: &str, major: u32) -> JavaInstall {
    JavaInstall {
        path: path.to_string(),
        version: major.to_string(),
        major,
        vendor: "v".to_string(),
        arch: "x".to_string(),
        source: String::new(),
        managed: false,
    }
}

#[test]
fn installs_are_listed_newest_first_then_by_path() {
    let sorted = sort_installs(vec![install("/b", 17), install("/c", 21), install("/a", 17), install("/z", 8)]);
    let order: Vec<(&str, u32)> = sorted.iter().map(|i| (i.path.as_str(), i.major)).collect();
    assert_eq!(order, vec![("/c", 21), ("/a", 17), ("/b", 17), ("/z", 8)]);
    let managed = install("/r", 21).found("managed");
    assert!(managed.managed);
    assert_eq!(managed.source, "managed");
    let system = install("/s", 21).found("system");
    assert!(!system.managed);
}

#[test]
fn probe_failures_name_the_executable() {
    let missing = luuxcraft_launcher::java::probe_failure("/opt/jdk/bin/java", " did not answer");
    assert_eq!(missing.code, "java_missing");
    assert_eq!(missing.message, "/opt/jdk/bin/java did not answer");
    let other = luuxcraft_launcher::java::not_a_runtime("/usr/bin/true");
    assert_eq!(other.code, "java_incompatible");
    assert_eq!(other.message, "/usr/bin/true is not a usable Java runtime");
}

fn forced(java: Option<&str>) -> luuxcraft_launcher::models::Instance {
    let java_member = match java {
        Some(v) => format!(r#", "java_version": "{v}""#),
        None => String::new(),
    };
    let text = format!(
        r#"[{{"id": "survie", "name": "Survie", "loader": {{"minecraft_version": "1.20.1", "loader_type": "fabric"}}{java_member}}}]"#
    );
    let json = luuxcraft_launcher::json::Json::parse(text.as_bytes()).expect("valid JSON");
    luuxcraft_launcher::models::Instance::list_from_value(json).ok().unwrap().remove(0)
}

#[test]
fn the_panel_may_force_the_java_version() {
    let instance = forced(Some("17"));
    let from_panel = JavaRequirement::from_panel("survie", &instance).unwrap();
    assert_eq!(from_panel.major, 17);
    assert_eq!(from_panel.source, "panel");
    assert_eq!(from_panel.minecraft_version, "1.20.1");
    let free = forced(None);
    assert!(JavaRequirement::from_panel("survie", &free).is_none());
    let from_mojang = JavaRequirement::from_manifest("survie", &free, required_major(Some(21)));
    assert_eq!(from_mojang.major, 21);
    assert_eq!(from_mojang.source, "mojang");
    assert_eq!(required_major(None), 8);
}

#[test]
fn paths_are_ordered_by_component() {
    let sorted = sort_installs(vec![install("/opt/jdk-17/bin/java", 17), install("/opt/jdk/bin/java", 17)]);
    let paths: Vec<&str> = sorted.iter().map(|i| i.path.as_str()).collect();
    assert_eq!(paths, vec!["/opt/jdk/bin/java", "/opt/jdk-17/bin/java"]);
    let mut std_order = vec![std::path::PathBuf::from("/opt/jdk-17/bin/java"), std::path::PathBuf::from("/opt/jdk/bin/java")];
    std_order.sort();
    assert_eq!(std_order[0].to_str().unwrap(), paths[0]);
}
