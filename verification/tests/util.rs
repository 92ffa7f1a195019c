use luuxcraft_launcher::util::{java_major, redact};

#[test]
fn redacts_long_secrets_only() {
    let secrets = vec!["supersecrettoken".to_owned(), "ab".to_owned()];
    assert_eq!(redact("token=supersecrettoken ab", &secrets), "token=???????? ab");
}

#[test]
fn parses_java_majors() {
    assert_eq!(java_major("1.8.0_392"), Some(8));
    assert_eq!(java_major("17.0.9"), Some(17));
    assert_eq!(java_major("21"), Some(21));
    assert_eq!(java_major("21.0.6+7-LTS"), Some(21));
    assert_eq!(java_major("garbage"), None);
}

#[test]
fn every_occurrence_of_a_secret_is_hidden() {
    let secrets = vec!["0123456789".to_owned()];
    assert_eq!(redact("a0123456789b0123456789", &secrets), "a????????b????????");
    assert_eq!(java_major(" 11.0.2 "), Some(11));
    assert_eq!(java_major("1."), None);
}

#[test]
fn redaction_leaves_no_secret_behind() {
    let secrets = vec!["token-abcdefgh".to_string(), "abcdefgh-refresh".to_string()];
    let line = "auth token-abcdefgh-refresh then abcdefgh-refresh and token-abcdefgh";
    let redacted = redact(line, &secrets);
    assert!(!redacted.contains("token-abcdefgh"));
    assert!(!redacted.contains("abcdefgh-refresh"));
    assert!(redacted.starts_with("auth ????????"));
}
