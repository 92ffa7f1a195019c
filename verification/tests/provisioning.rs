use base64::Engine;
use luuxcraft_launcher::provisioning::{
    app_bundle_sibling_dir, footer_offset, normalize, pairing_candidate, parse_blob,
    parse_blob_file, parse_persisted, pick_source, MAX_BLOB_FILE_BYTES, Provisioning, ProvisioningSource, ProvisioningStatus, FOOTER_SIZE, MAGIC,
};

fn blob(payload: &str) -> Vec<u8> {
    let encoded = base64::engine::general_purpose::URL_SAFE_NO_PAD.encode(payload.as_bytes());
    let body = format!("{MAGIC}{encoded}");
    let mut text = body.clone();
    text.push_str(&".".repeat(FOOTER_SIZE as usize - body.len()));
    text.into_bytes()
}

#[test]
fn reads_a_well_formed_blob() {
    let bytes = blob(r#"{"v":1,"apiUrl":"https://luuxcraft.fr/api","key":"abc-def-ghi"}"#);
    let parsed = parse_blob(&bytes).expect("blob is readable");
    assert_eq!(parsed.api_url, "https://luuxcraft.fr/api");
    assert_eq!(parsed.key, "abc-def-ghi");
}

#[test]
fn trailing_slash_is_dropped() {
    let bytes = blob(r#"{"v":1,"apiUrl":"https://luuxcraft.fr/api/","key":"abc"}"#);
    assert_eq!(parse_blob(&bytes).unwrap().api_url, "https://luuxcraft.fr/api");
}

#[test]
fn provisioning_plain_http_is_refused() {
    let bytes = blob(r#"{"v":1,"apiUrl":"http://luuxcraft.fr/api","key":"abc"}"#);
    assert!(parse_blob(&bytes).is_none());
}

#[test]
fn a_key_that_would_escape_the_url_is_refused() {
    let bytes = blob(r#"{"v":1,"apiUrl":"https://luuxcraft.fr/api","key":"../admin"}"#);
    assert!(parse_blob(&bytes).is_none());
}

#[test]
fn an_unknown_version_is_refused() {
    let bytes = blob(r#"{"v":2,"apiUrl":"https://luuxcraft.fr/api","key":"abc"}"#);
    assert!(parse_blob(&bytes).is_none());
}

#[test]
fn bytes_without_the_magic_are_ignored() {
    assert!(parse_blob(b"not a provisioning blob at all").is_none());
}

#[test]
fn the_magic_is_found_even_when_not_at_offset_zero() {
    let mut bytes = b"\0\0\0\0".to_vec();
    bytes.extend_from_slice(&blob(r#"{"v":1,"apiUrl":"https://a.fr/api","key":"k"}"#));
    assert_eq!(parse_blob(&bytes).unwrap().key, "k");
}

#[test]
fn binary_noise_before_the_block_is_skipped() {
    let mut bytes = vec![0xff, 0xfe, 0x00, 0x80, 0x90];
    bytes.extend_from_slice(&blob(r#"{"v":1,"apiUrl":"https://a.fr/api","key":"k"}"#));
    assert_eq!(parse_blob(&bytes).unwrap().key, "k");
}

#[test]
fn a_utf16le_blob_file_is_still_readable() {
    let ascii = blob(r#"{"v":1,"apiUrl":"https://a.fr/api","key":"k"}"#);
    let utf16: Vec<u8> = ascii.iter().flat_map(|byte| [*byte, 0]).collect();
    assert_eq!(parse_blob(&utf16).unwrap().key, "k");
}

#[test]
fn app_bundle_sibling_dir_is_three_levels_above_the_executable() {
    let exe = "/Users/joueur/Downloads/LuuxCraft Launcher.app/Contents/MacOS/luuxcraft-launcher";
    assert_eq!(app_bundle_sibling_dir(exe), Some("/Users/joueur/Downloads".to_owned()));
}

#[test]
fn app_bundle_sibling_dir_is_none_for_a_path_too_shallow_to_be_a_bundle() {
    assert_eq!(app_bundle_sibling_dir("/binary"), None);
    assert_eq!(app_bundle_sibling_dir("/a/binary"), None);
}

#[test]
fn app_bundle_sibling_reads_plain_json_like_the_persisted_copy() {
    let found = parse_persisted(br#"{"apiUrl":"https://luuxcraft.fr/api","key":"abc-def-ghi"}"#)
        .expect("readable");
    assert_eq!(found.api_url, "https://luuxcraft.fr/api");
    assert_eq!(found.key, "abc-def-ghi");
}

#[test]
fn a_pair_is_validated_and_normalized() {
    let p = normalize("  https://a.fr/api//  ", " key_1 ").unwrap();
    assert_eq!(p.api_url, "https://a.fr/api");
    assert_eq!(p.key, "key_1");
    assert!(normalize("https://", "k").is_none());
    assert!(normalize("https://a", "").is_none());
    assert!(normalize("https://a", &"k".repeat(129)).is_none());
    assert!(normalize("https://a", &"k".repeat(128)).is_some());
    assert_eq!(
        pairing_candidate("https://a.fr/api", "bad code").err().unwrap().code,
        "provisioning_invalid"
    );
}

#[test]
fn an_array_payload_needs_all_three_items() {
    let bytes = blob(r#"[1, "https://a.fr/api", "k"]"#);
    assert_eq!(parse_blob(&bytes).unwrap().key, "k");
    assert!(parse_blob(&blob(r#"[1, "https://a.fr/api"]"#)).is_none());
    assert!(parse_blob(&blob(r#"{"v":1,"apiUrl":null,"key":"k"}"#)).is_none());
    assert!(parse_persisted(br#"{"apiUrl":"https://a.fr/api"}"#).is_none());
}

fn prov(key: &str) -> Provisioning {
    Provisioning { api_url: "https://a.fr/api".into(), key: key.into() }
}

#[test]
fn fresh_sources_win_over_the_persisted_copy() {
    let (p, source, persist) = pick_source(None, Some(prov("i")), None, Some(prov("p"))).unwrap();
    assert_eq!(p.key, "i");
    assert_eq!(source, ProvisioningSource::Installer);
    assert!(persist);
    let (p, source, persist) = pick_source(None, None, None, Some(prov("p"))).unwrap();
    assert_eq!(p.key, "p");
    assert_eq!(source, ProvisioningSource::Persisted);
    assert!(!persist);
    assert!(pick_source(None, None, None, None).is_none());
    let status = ProvisioningStatus::of(false, None, "https://a".into(), "k".into());
    assert_eq!(status.key, None);
}

#[test]
fn an_oversized_blob_file_is_not_read() {
    let good = blob(r#"{"v":1,"apiUrl":"https://luuxcraft.fr/api","key":"abc"}"#);
    assert!(parse_blob_file(&good).is_some());
    let mut big = vec![b' '; MAX_BLOB_FILE_BYTES];
    big.extend_from_slice(&good);
    assert!(parse_blob(&big).is_some());
    assert!(parse_blob_file(&big).is_none());
}

#[test]
fn the_footer_is_the_last_block_of_a_longer_file() {
    assert_eq!(footer_offset(FOOTER_SIZE), None);
    assert_eq!(footer_offset(100), None);
    assert_eq!(footer_offset(FOOTER_SIZE + 1), Some(1));
    assert_eq!(footer_offset(10_000), Some(10_000 - FOOTER_SIZE));
}
