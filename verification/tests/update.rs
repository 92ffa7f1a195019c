use luuxcraft_launcher::update::{after_install, after_move_aside};
use luuxcraft_launcher::update::{
    normalize, origin_of, panel_os, plan_update, same_origin, staging_dir, verify_download,
    Engine, Manifest, UpdatePlan,
};
use luuxcraft_launcher::update::{
    check_announced_size, check_status, check_engine_format, is_engine_entry, manifest_url, MAX_ENGINE_BYTES,
};

#[test]
fn formats_are_matched_whatever_the_separator() {
    assert_eq!(normalize("exe-zip"), "exezip");
    assert_eq!(normalize("app-tar-gz"), "apptargz");
    assert_eq!(normalize("AppImage"), "appimage");
}

#[test]
fn the_origin_is_read_without_its_path() {
    assert_eq!(origin_of("https://panel.fr/api").unwrap(), "https://panel.fr");
    assert_eq!(origin_of("https://panel.fr:8443/api/v1").unwrap(), "https://panel.fr:8443");
    assert!(origin_of("panel.fr/api").is_err());
    assert!(origin_of("https:///api").is_err());
}

#[test]
fn a_lookalike_host_is_not_the_panel() {
    let origin = "https://panel.fr";
    assert!(same_origin("https://panel.fr/api/v1/engine/1.0.0", origin));
    assert!(!same_origin("https://panel.fr.evil.example/x", origin));
    assert!(!same_origin("https://evil.example/x", origin));
    assert!(!same_origin("https://panel.fr", origin));
}

#[test]
fn the_panel_os_vocabulary_is_one_of_three() {
    for os in ["windows", "macos", "linux", "android", ""] {
        assert!(["windows", "macos", "linux"].contains(&panel_os(os)));
    }
    assert_eq!(panel_os("windows"), "windows");
    assert_eq!(panel_os("macos"), "macos");
    assert_eq!(panel_os("freebsd"), "linux");
}

fn manifest(schema: u32, version: &str, url: &str, sha: &str) -> Manifest {
    Manifest {
        schema,
        engine: Engine {
            version: version.to_owned(),
            url: url.to_owned(),
            sha256: sha.to_owned(),
            format: "appimage".to_owned(),
        },
    }
}

#[test]
fn a_manifest_is_installed_only_from_the_panel() {
    let digest = "a".repeat(64);
    let ok = manifest(1, "2.0.0", "https://panel.fr/engine/2.0.0", &digest);
    assert!(matches!(plan_update(&ok, "1.0.0", "https://panel.fr/api", false), Ok(UpdatePlan::Install)));
    assert!(matches!(plan_update(&ok, "2.0.0", "https://panel.fr/api", false), Ok(UpdatePlan::UpToDate)));
    assert!(plan_update(&ok, "1.0.0", "https://panel.fr/api", true).is_err());
    let elsewhere = manifest(1, "2.0.0", "https://evil.fr/engine", &digest);
    assert!(plan_update(&elsewhere, "1.0.0", "https://panel.fr/api", false).is_err());
    let short = manifest(1, "2.0.0", "https://panel.fr/engine", "abc");
    assert!(plan_update(&short, "1.0.0", "https://panel.fr/api", false).is_err());
    let schema = manifest(2, "2.0.0", "https://panel.fr/engine", &digest);
    assert!(plan_update(&schema, "1.0.0", "https://panel.fr/api", false).is_err());
}

#[test]
fn a_download_must_match_its_digest() {
    let sha_of_abc = "ba7816bf8f01cfea414140de5dae2223b00361a396177a9cb410ff61f20015ad";
    assert!(verify_download(b"abc", sha_of_abc).is_ok());
    assert!(verify_download(b"abc", &sha_of_abc.to_ascii_uppercase()).is_ok());
    assert!(verify_download(b"abd", sha_of_abc).is_err());
}

#[test]
fn the_staging_directory_sits_beside_the_engine_directory() {
    assert_eq!(staging_dir("/opt/a/engine/launcher").unwrap(), "/opt/a/.tmp");
    assert!(staging_dir("/launcher").is_err());
}

#[test]
fn the_manifest_is_asked_for_this_machine() {
    assert_eq!(
        manifest_url("https://panel.example/api/", "t-1", "macos", "aarch64"),
        "https://panel.example/api/v1/launchers/t-1/manifest?os=macos&arch=aarch64"
    );
    assert_eq!(
        manifest_url("https://panel.example/api", "t-1", "freebsd", "x86_64"),
        "https://panel.example/api/v1/launchers/t-1/manifest?os=linux&arch=x86_64"
    );
}

#[test]
fn an_oversized_download_is_refused_before_reading() {
    assert!(check_announced_size(None).is_ok());
    assert!(check_announced_size(Some(MAX_ENGINE_BYTES)).is_ok());
    assert_eq!(
        check_announced_size(Some(MAX_ENGINE_BYTES + 1)).err().unwrap(),
        format!("engine announces {} bytes", MAX_ENGINE_BYTES + 1)
    );
}

#[test]
fn each_os_expects_its_packaging() {
    assert!(check_engine_format("windows", "exe-zip").is_ok());
    assert!(check_engine_format("linux", "AppImage").is_ok());
    assert!(check_engine_format("macos", "app.tar.gz").is_ok());
    assert_eq!(
        check_engine_format("linux", "exe-zip").err().unwrap(),
        "unsupported engine format exe-zip"
    );
}

#[test]
fn only_plain_exe_entries_are_extracted() {
    assert!(is_engine_entry("LuuxCraft.EXE"));
    assert!(!is_engine_entry("../evil.exe"));
    assert!(!is_engine_entry("dir/engine.exe"));
    assert!(!is_engine_entry("dir\\engine.exe"));
    assert!(!is_engine_entry("readme.txt"));
}

#[test]
fn a_refused_manifest_says_why() {
    let digest = "a".repeat(64);
    let ok = manifest(1, "2.0.0", "https://panel.fr/engine/2.0.0", &digest);
    assert_eq!(plan_update(&ok, "1.0.0", "https://panel.fr/api", true).err().unwrap(), "the game is running");
    let elsewhere = manifest(1, "2.0.0", "https://panel.fr.evil.example/engine", &digest);
    assert_eq!(
        plan_update(&elsewhere, "1.0.0", "https://panel.fr/api", false).err().unwrap(),
        "engine url outside https://panel.fr"
    );
    let short = manifest(1, "2.0.0", "https://panel.fr/engine", "abc");
    assert_eq!(
        plan_update(&short, "1.0.0", "https://panel.fr/api", false).err().unwrap(),
        "engine sha256 is not a digest"
    );
    let schema = manifest(2, "2.0.0", "https://panel.fr/engine", &digest);
    assert_eq!(
        plan_update(&schema, "1.0.0", "https://panel.fr/api", false).err().unwrap(),
        "unsupported manifest schema 2"
    );
    assert_eq!(plan_update(&ok, "1.0.0", "panel", false).err().unwrap(), "not an absolute url: panel");
    assert_eq!(verify_download(b"abd", &digest).err().unwrap(), "downloaded engine does not match its digest");
    assert_eq!(staging_dir("engine").err().unwrap(), "the engine is not inside an installation directory");
}

#[test]
fn only_a_successful_answer_is_read() {
    assert!(check_status("download", 200).is_ok());
    assert!(check_status("download", 299).is_ok());
    assert_eq!(check_status("download", 404).err().unwrap(), "download answered 404");
    assert_eq!(check_status("manifest", 503).err().unwrap(), "manifest answered 503");
    assert_eq!(check_status("download", 199).err().unwrap(), "download answered 199");
}

#[test]
fn a_failed_swap_puts_the_old_engine_back() {
    assert!(after_move_aside(Ok(())).is_ok());
    assert_eq!(
        after_move_aside(Err("denied".into())).err().unwrap(),
        "cannot move the old engine aside: denied"
    );
    let done = after_install(true, Ok(()));
    assert!(!done.put_back && done.clear_aside && done.result.is_ok());
    let failed = after_install(true, Err("busy".into()));
    assert!(failed.put_back && !failed.clear_aside);
    assert_eq!(failed.result.err().unwrap(), "cannot install the new engine: busy");
    assert!(!after_install(false, Err("busy".into())).put_back);
}
