use luuxcraft_launcher::client_config::CLIENT_CONFIG_FILE;
use luuxcraft_launcher::dev_pack::{fetched, is_pairing_code, is_uuid, Request, DEFAULT_PANEL};

const TENANT: &str = "00000000-0000-4000-8000-000000000001";

fn parse(args: &[&str]) -> Result<Option<Request>, String> {
    let args: Vec<String> = args.iter().map(|arg| (*arg).to_owned()).collect();
    Request::parse(&args, None, None)
}

fn same(found: Result<Option<Request>, String>, tenant: &str, panel: &str) -> bool {
    match found {
        Ok(Some(request)) => request.tenant_id == tenant && request.panel == panel,
        _ => false,
    }
}

#[test]
fn without_the_flag_nothing_is_requested() {
    assert!(matches!(parse(&[]), Ok(None)));
    assert!(matches!(parse(&["--api-url=https://a.fr"]), Ok(None)));
}

#[test]
fn the_flag_takes_both_spellings() {
    assert!(same(parse(&[&format!("--tenant-id={TENANT}")]), TENANT, DEFAULT_PANEL));
    assert!(same(parse(&["--tenant-id", TENANT]), TENANT, DEFAULT_PANEL));
    assert!(same(parse(&[&format!("--tenant_id={TENANT}")]), TENANT, DEFAULT_PANEL));
}

#[test]
fn underscores_in_a_flag_name_are_dashes() {
    let request = parse(&[&format!("--tenant-id={TENANT}"), "--api_url=https://a_b.example/api"])
        .expect("valid request")
        .expect("a request");
    assert_eq!(request.panel, "https://a_b.example");
}

#[test]
fn the_panel_is_an_origin_even_when_given_as_an_api_base() {
    for panel in [
        "https://panel.example",
        "https://panel.example/",
        "https://panel.example/api",
        "https://panel.example/api/",
    ] {
        let request = parse(&[&format!("--tenant-id={TENANT}"), &format!("--api-url={panel}")])
            .expect("valid request")
            .expect("a request");
        assert_eq!(request.panel, "https://panel.example", "from {panel}");
        assert_eq!(
            request.file_url(CLIENT_CONFIG_FILE),
            format!("https://panel.example/api/v1/launchers/{TENANT}/pack/client_config.json"),
        );
    }
}

#[test]
fn a_local_panel_in_plain_http_is_accepted() {
    let request = parse(&[&format!("--tenant-id={TENANT}"), "--api-url=http://localhost:8080/"])
        .expect("valid request")
        .expect("a request");
    assert_eq!(request.panel, "http://localhost:8080");
    for panel in ["localhost:8080", "ftp://panel.example", "http://", "https://"] {
        assert!(
            parse(&[&format!("--tenant-id={TENANT}"), &format!("--api-url={panel}")]).is_err(),
            "{panel} must be refused",
        );
    }
}

#[test]
fn a_tenant_that_is_not_a_uuid_is_refused() {
    assert!(parse(&["--tenant-id=../admin"]).is_err());
    assert!(parse(&["--tenant-id="]).is_err());
    assert!(parse(&["--tenant-id"]).is_err());
    assert!(parse(&["--tenant-id=00000000-0000-4000-8000-00000000000g"]).is_err());
}

#[test]
fn the_pairing_code_is_named_when_given_by_mistake() {
    let error = parse(&["--tenant-id=mt1-lno-1ib"]).err().expect("refused");
    assert!(error.contains("pairing code"), "{error}");
    assert!(is_pairing_code("mt1-lno-1ib"));
    assert!(!is_pairing_code("mt1-lno-1ibx"));
}

#[test]
fn an_uppercase_uuid_is_lowercased() {
    let request = parse(&[&format!("--tenant-id={}", TENANT.to_ascii_uppercase())])
        .expect("valid request")
        .expect("a request");
    assert_eq!(request.tenant_id, TENANT);
}

#[test]
fn the_environment_stands_in_for_the_flags() {
    let request = Request::parse(
        &[],
        Some(TENANT.to_owned()),
        Some("https://env.example/".to_owned()),
    )
    .expect("valid request")
    .expect("a request");
    assert_eq!(request.tenant_id, TENANT);
    assert_eq!(request.panel, "https://env.example");
}

#[test]
fn the_flags_win_over_the_environment() {
    let request = Request::parse(&[format!("--tenant-id={TENANT}")], Some("other".to_owned()), None)
        .expect("valid request")
        .expect("a request");
    assert_eq!(request.tenant_id, TENANT);
}

#[test]
fn uuids_have_the_canonical_shape() {
    assert!(is_uuid(TENANT));
    assert!(!is_uuid("00000000000040008000000000000001"));
    assert!(!is_uuid("00000000-0000-4000-8000-00000000000"));
}

#[test]
fn a_refused_request_says_what_is_wrong() {
    assert_eq!(parse(&["--tenant-id"]).err().unwrap(), "--tenant-id expects a value");
    assert_eq!(parse(&["--api-url"]).err().unwrap(), "--api-url expects a value");
    assert_eq!(
        parse(&["--tenant-id=Nope"]).err().unwrap(),
        "--tenant-id must be a users.id UUID, got \"nope\""
    );
    assert_eq!(
        parse(&["--tenant-id=00000000-0000-4000-8000-000000000001", "--api-url=ftp://x"])
            .err()
            .unwrap(),
        "--api-url must be an http(s) origin: \"ftp://x\""
    );
}

#[test]
fn the_panel_answer_for_a_pack_file() {
    let url = "https://panel.fr/f";
    assert_eq!(fetched(url, 200, b"{}").unwrap(), Some(b"{}".to_vec()));
    assert_eq!(fetched(url, 404, br#"{"message": "no such file"}"#).unwrap(), None);
    assert_eq!(
        fetched(url, 403, br#"{"message": "subscription expired"}"#).err().unwrap(),
        "https://panel.fr/f answered 403: subscription expired"
    );
    assert_eq!(
        fetched(url, 404, b"<html>").err().unwrap(),
        "https://panel.fr/f answered 404 without a panel error: does this panel serve launcher packs?"
    );
    let big = vec![0u8; 8 * 1024 * 1024 + 1];
    assert_eq!(
        fetched(url, 200, &big).err().unwrap(),
        "https://panel.fr/f is 8388609 bytes, which is not a pack file"
    );
}

#[test]
fn refused_values_are_quoted_as_debug_writes_them() {
    assert_eq!(
        parse(&[&format!("--tenant-id={TENANT}"), "--api-url=ftp://panel.example/api"]).err().unwrap(),
        "--api-url must be an http(s) origin: \"ftp://panel.example\""
    );
    assert_eq!(
        parse(&["--tenant-id=a\"b\\c"]).err().unwrap(),
        "--tenant-id must be a users.id UUID, got \"a\\\"b\\\\c\""
    );
}
