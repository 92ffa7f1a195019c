use luuxcraft_launcher::skins::{
    check_id, chosen_name, clean_cape_id, clean_name, data_url, decode_data_url, is_png,
    library_add, library_remove, library_update, multipart_body, new_id, newest_first,
    normalize_variant, png_size, profile_refusal, skin_model, validate_skin_png, LibraryEntry,
    LibrarySkin,
};

fn png_header(width: u32, height: u32) -> Vec<u8> {
    let mut bytes = b"\x89PNG\r\n\x1a\n".to_vec();
    bytes.extend_from_slice(&13u32.to_be_bytes());
    bytes.extend_from_slice(b"IHDR");
    bytes.extend_from_slice(&width.to_be_bytes());
    bytes.extend_from_slice(&height.to_be_bytes());
    bytes.extend_from_slice(&[8, 6, 0, 0, 0]);
    bytes
}

const NOW: u64 = 1_700_000_000;

#[test]
fn accepts_both_skin_layouts_only() {
    assert!(validate_skin_png(&png_header(64, 64)).is_ok());
    assert!(validate_skin_png(&png_header(64, 32)).is_ok());
    let wrong = validate_skin_png(&png_header(128, 128)).unwrap_err();
    assert_eq!(wrong.code, "skin_invalid");
    assert_eq!(validate_skin_png(b"not a png at all").unwrap_err().code, "skin_invalid");
}

#[test]
fn normalizes_the_variant() {
    assert_eq!(normalize_variant(Some("SLIM")), "slim");
    assert_eq!(normalize_variant(Some(" slim ")), "slim");
    assert_eq!(normalize_variant(Some("classic")), "classic");
    assert_eq!(normalize_variant(Some("whatever")), "classic");
    assert_eq!(normalize_variant(None), "classic");
}

#[test]
fn rejects_ids_that_are_not_ours() {
    assert!(check_id("1a2b3c").is_ok());
    assert!(check_id("../../etc/passwd").is_err());
    assert!(check_id("").is_err());
    assert!(check_id("a/b").is_err());
}

#[test]
fn builds_a_multipart_body_minecraft_accepts() {
    let body = multipart_body("BOUND", "slim", b"PNG-data");
    let text = String::from_utf8(body).expect("ascii body");
    assert!(text.starts_with("--BOUND\r\nContent-Disposition: form-data; name=\"variant\""));
    assert!(text.contains("\r\n\r\nslim\r\n"));
    assert!(text.contains("name=\"file\"; filename=\"skin.png\""));
    assert!(text.contains("Content-Type: image/png\r\n\r\nPNG-data\r\n"));
    assert!(text.ends_with("--BOUND--\r\n"));
}

#[test]
fn keeps_names_printable_and_short() {
    assert_eq!(clean_name("  Pirate  "), "Pirate");
    assert_eq!(clean_name(""), "Skin");
    assert_eq!(clean_name("a\nb"), "ab");
    assert_eq!(clean_name(&"x".repeat(80)).chars().count(), 40);
}

fn skin(id: &str) -> LibrarySkin {
    LibrarySkin {
        id: id.to_owned(),
        name: "One".into(),
        variant: "classic".into(),
        cape_id: None,
        added_at: 0,
    }
}

#[test]
fn generates_ids_that_do_not_collide() {
    let first = new_id(&[], NOW);
    let taken = vec![skin(&first)];
    assert_ne!(new_id(&taken, NOW), first);
}

#[test]
fn keeps_only_cape_ids_mojang_could_have_issued() {
    assert_eq!(clean_cape_id(Some("1981aad3".into())).as_deref(), Some("1981aad3"));
    assert_eq!(
        clean_cape_id(Some("9ad0b5f6-9f89-4eb2-9f3a-1d0b36d4d8f5".into())).as_deref(),
        Some("9ad0b5f6-9f89-4eb2-9f3a-1d0b36d4d8f5")
    );
    assert_eq!(clean_cape_id(Some("../../etc".into())), None);
    assert_eq!(clean_cape_id(Some(String::new())), None);
    assert_eq!(clean_cape_id(None), None);
}

#[test]
fn ids_are_the_hex_time_then_a_hex_suffix() {
    assert_eq!(new_id(&[], 255), "ff");
    assert_eq!(new_id(&[skin("ff")], 255), "ff1");
    assert_eq!(new_id(&[skin("ff1"), skin("ff")], 255), "ff2");
    assert_eq!(new_id(&[skin("ff1")], 255), "ff");
}

#[test]
fn the_size_is_read_from_ihdr() {
    assert!(is_png(&png_header(1, 1)));
    assert!(!is_png(b"\x89PNG"));
    assert_eq!(png_size(&png_header(64, 32)), Some((64, 32)));
    let mut broken = png_header(64, 64);
    broken[12] = b'X';
    assert_eq!(png_size(&broken), None);
    let message = validate_skin_png(&png_header(128, 64)).unwrap_err().message;
    assert_eq!(message, "a skin must be 64×64 (or 64×32), this one is 128×64");
    let mut huge = png_header(64, 64);
    huge.resize(512 * 1024 + 1, 0);
    assert_eq!(
        validate_skin_png(&huge).unwrap_err().message,
        "this file is too large to be a Minecraft skin"
    );
}

#[test]
fn data_urls_round_trip() {
    let png = png_header(64, 64);
    let url = data_url(&png);
    assert!(url.starts_with("data:image/png;base64,iVBORw0KGgo"));
    assert_eq!(decode_data_url(&url), Some(png));
    assert_eq!(decode_data_url("data:image/png;base64,bm90IGEgcG5n"), None);
    assert_eq!(decode_data_url("no marker"), None);
    assert_eq!(decode_data_url("data:image/png;base64,@@@"), None);
}

#[test]
fn refusals_are_explained_by_status() {
    let (error, refused) = profile_refusal(401, "nope");
    assert_eq!(error.code, "auth_expired");
    assert!(refused);
    assert_eq!(error.details.as_deref(), Some("nope"));
    assert_eq!(profile_refusal(413, "").0.code, "skin_invalid");
    assert_eq!(profile_refusal(400, "").0.code, "skin_rejected");
    assert_eq!(profile_refusal(429, "").0.code, "api_rate_limited");
    assert_eq!(profile_refusal(503, "").0.code, "api_unavailable");
    let (other, refused) = profile_refusal(302, &"y".repeat(400));
    assert_eq!(other.code, "api_invalid");
    assert_eq!(other.message, "unexpected status 302");
    assert!(!refused);
    assert_eq!(other.details.unwrap().chars().count(), 301);
}

#[test]
fn the_viewer_model_follows_the_variant() {
    assert_eq!(skin_model(Some("SLIM")), "slim");
    assert_eq!(skin_model(Some("CLASSIC")), "default");
    assert_eq!(skin_model(Some("slim")), "auto");
    assert_eq!(skin_model(None), "auto");
}

fn entry(id: &str, added_at: u64) -> LibraryEntry {
    LibraryEntry::new(
        LibrarySkin {
            id: id.to_owned(),
            name: id.to_owned(),
            variant: "classic".into(),
            cape_id: None,
            added_at,
        },
        String::new(),
    )
}

#[test]
fn the_library_lists_the_newest_first() {
    let sorted = newest_first(vec![entry("a", 1), entry("b", 3), entry("c", 1), entry("d", 2)]);
    let ids: Vec<&str> = sorted.iter().map(|e| e.id.as_str()).collect();
    assert_eq!(ids, vec!["b", "d", "a", "c"]);
}

#[test]
fn the_library_is_edited_in_place() {
    let mut library = Vec::new();
    let added = library_add(&mut library, &png_header(64, 64), "  Pirate ", Some("ALEX"), Some("bad/cape".into()), 255)
        .ok()
        .unwrap();
    assert_eq!(added.id, "ff");
    assert_eq!(added.name, "Pirate");
    assert_eq!(added.variant, "slim");
    assert_eq!(added.cape_id, None);
    assert_eq!(library.len(), 1);
    assert!(library_add(&mut library, b"junk", "x", None, None, 255).is_err());
    assert_eq!(library.len(), 1);

    let updated = library_update(&mut library, "ff", "", "classic", Some("abc-1".into())).ok().unwrap();
    assert_eq!(updated.name, "Skin");
    assert_eq!(library[0].cape_id.as_deref(), Some("abc-1"));
    assert_eq!(library_update(&mut library, "00", "a", "slim", None).err().unwrap().code, "skin_unknown");

    assert!(!library_remove(&mut library, "00"));
    assert!(library_remove(&mut library, "ff"));
    assert!(library.is_empty());
}

#[test]
fn a_full_library_refuses_more() {
    let mut library: Vec<LibrarySkin> = (0..200).map(|i| skin(&format!("s{i}"))).collect();
    let error = library_add(&mut library, &png_header(64, 64), "x", None, None, 1).err().unwrap();
    assert_eq!(error.code, "skin_library_full");
    assert_eq!(error.message, "the library holds at most 200 skins");
}

#[test]
fn a_blank_name_falls_back() {
    assert_eq!(chosen_name(Some("  ".into()), "file".into()), "file");
    assert_eq!(chosen_name(Some("Mine".into()), "file".into()), "Mine");
    assert_eq!(chosen_name(None, "file".into()), "file");
}

#[test]
fn a_data_url_carries_standard_base64() {
    assert_eq!(data_url(&[0x89, b'P', b'N', b'G']), "data:image/png;base64,iVBORw==");
    assert_eq!(decode_data_url("data:image/png;base64,iVBORw=="), None);
}
