use luuxcraft_launcher::desktop::{
    applications_dir, data_home, entry_contents, entry_name, hicolor_dir, icon_path,
    png_dimensions, quote_exec, stamp_path,
};

#[test]
fn hicolor_picks_the_nearest_standard_size() {
    assert_eq!(hicolor_dir(64, 64), "64x64");
    assert_eq!(hicolor_dir(100, 100), "96x96");
    assert_eq!(hicolor_dir(300, 300), "256x256");
    assert_eq!(hicolor_dir(1024, 1024), "512x512");
}

#[test]
fn hicolor_uses_the_longest_side() {
    assert_eq!(hicolor_dir(128, 32), "128x128");
}

#[test]
fn exec_survives_a_hostile_path() {
    assert_eq!(
        quote_exec("/home/joueur/Mes Téléchargements/Mon Serveur.AppImage"),
        "\"/home/joueur/Mes Téléchargements/Mon Serveur.AppImage\"",
    );
    assert_eq!(
        quote_exec("/tmp/a\"b$c`d\\e.AppImage"),
        "\"/tmp/a\\\"b\\$c\\`d\\\\e.AppImage\"",
    );
}

#[test]
fn a_name_cannot_inject_another_key() {
    assert_eq!(entry_name("Mon Serveur\nExec=/bin/sh"), "Mon ServeurExec=/bin/sh");
    assert_eq!(entry_name("  Mon Serveur  "), "Mon Serveur");
    assert_eq!(entry_name("\u{0}\u{7}"), "");
}

#[test]
fn the_entry_carries_the_client_name_and_its_own_icon() {
    let entry = entry_contents("Mon Serveur", "\"/opt/a.AppImage\"", "fr.test.app.abc", true, Some("launcher"));
    assert!(entry.starts_with("[Desktop Entry]\n"));
    assert!(entry.contains("\nName=Mon Serveur\n"));
    assert!(entry.contains("\nExec=\"/opt/a.AppImage\"\n"));
    assert!(entry.contains("\nIcon=fr.test.app.abc\n"));
    assert!(entry.contains("\nStartupWMClass=launcher\n"));
    assert!(entry.contains("\nCategories=Game;\n"));
}

#[test]
fn no_icon_key_without_an_icon() {
    let entry = entry_contents("Mon Serveur", "\"/opt/a.AppImage\"", "fr.test.app", false, None);
    assert!(!entry.contains("Icon="));
    assert!(!entry.contains("StartupWMClass="));
}

#[test]
fn png_dimensions_are_read_from_the_header() {
    let mut png = vec![0x89, 0x50, 0x4e, 0x47, 0x0d, 0x0a, 0x1a, 0x0a];
    png.extend_from_slice(&[0, 0, 0, 13]);
    png.extend_from_slice(b"IHDR");
    png.extend_from_slice(&512u32.to_be_bytes());
    png.extend_from_slice(&256u32.to_be_bytes());
    assert_eq!(png_dimensions(&png), Some((512, 256)));
}

#[test]
fn anything_that_is_not_a_png_is_refused() {
    assert_eq!(png_dimensions(b"GIF89a"), None);
    assert_eq!(png_dimensions(&[]), None);
}

#[test]
fn the_whole_entry_is_written_in_order() {
    assert_eq!(
        entry_contents("A", "\"/a\"", "x.y", true, Some("w")),
        "[Desktop Entry]\nType=Application\nVersion=1.5\nName=A\nExec=\"/a\"\nIcon=x.y\nTerminal=false\nCategories=Game;\nStartupWMClass=w\nStartupNotify=true\n"
    );
}

#[test]
fn xdg_locations_follow_the_specification() {
    assert_eq!(data_home(Some("/x/share"), Some("/home/j")), Some("/x/share".to_owned()));
    assert_eq!(data_home(Some("relative"), Some("/home/j")), Some("/home/j/.local/share".to_owned()));
    assert_eq!(data_home(None, Some("relative")), None);
    assert_eq!(data_home(None, None), None);
    assert_eq!(applications_dir("/d"), "/d/applications");
    assert_eq!(icon_path("/d", "64x64", "a.b"), "/d/icons/hicolor/64x64/apps/a.b.png");
    assert_eq!(stamp_path("/l"), "/l/desktop-entry.json");
}
