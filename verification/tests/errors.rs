use luuxcraft_launcher::error::{
    azauth_rejection, azauth_unexpected, custom_files_unavailable, download_failure,
    microsoft_refusal, server_timeout, status_failure, transport_code, unknown_loader,
    version_not_found, yggdrasil_refusal, AppError,
};

#[test]
fn failing_statuses_are_told_apart() {
    let down = status_failure(503, "https://p/api");
    assert_eq!(down.code, "api_unavailable");
    assert_eq!(down.message, "unexpected status 503 for https://p/api");
    assert_eq!(status_failure(404, "u").code, "api_not_found");
    assert_eq!(status_failure(400, "u").code, "api_invalid");
}

#[test]
fn failed_requests_are_classified() {
    assert_eq!(transport_code(true, true, false, false), "timeout");
    assert_eq!(transport_code(false, true, false, false), "network");
    assert_eq!(transport_code(false, false, true, true), "network");
    assert_eq!(transport_code(false, false, false, true), "api_invalid");
    assert_eq!(transport_code(false, false, false, false), "network");
}

#[test]
fn microsoft_and_yggdrasil_refusals_are_read_from_their_text() {
    assert_eq!(microsoft_refusal("invalid_grant: refresh token revoked").code, "auth_expired");
    assert_eq!(microsoft_refusal("the token has expired").code, "auth_expired");
    assert_eq!(microsoft_refusal("access_denied").code, "auth_denied");
    assert_eq!(yggdrasil_refusal("Invalid credentials.").code, "auth_invalid_credentials");
    assert_eq!(yggdrasil_refusal("Forbidden").code, "auth_denied");
}

#[test]
fn azauth_reasons_pick_the_code() {
    let otp = azauth_rejection("invalid_2FA", Some("Bad code".into()));
    assert_eq!(otp.code, "auth_otp_invalid");
    assert_eq!(otp.message, "Bad code");
    assert_eq!(otp.details.as_deref(), Some("invalid_2FA"));
    assert_eq!(azauth_rejection("user_banned", None).code, "auth_banned");
    assert_eq!(azauth_rejection("invalid_credentials", None).code, "auth_invalid_credentials");
    assert_eq!(azauth_rejection("invalid_token", None).code, "auth_expired");
    let other = azauth_rejection("nope", None);
    assert_eq!(other.code, "auth_denied");
    assert_eq!(other.message, "nope");
    let odd = azauth_unexpected(502, &"x".repeat(400));
    assert_eq!(odd.message, "unexpected AZauth response (status 502)");
    assert_eq!(odd.details.unwrap().chars().count(), 301);
}

#[test]
fn launch_failures_say_what_failed() {
    let failed: AppError = download_failure("https://f", 3, "reset");
    assert_eq!(failed.code, "download_failed");
    assert_eq!(failed.message, "download failed after 3 attempts");
    assert_eq!(failed.details.as_deref(), Some("https://f: reset"));
    assert_eq!(server_timeout("mc.example:25565").message, "timeout reaching mc.example:25565");
    assert_eq!(version_not_found("9.9").message, "Minecraft 9.9 not found");
    let files = custom_files_unavailable("https://f/list", 500);
    assert_eq!(files.message, "instance files unavailable (status 500)");
    assert_eq!(files.details.as_deref(), Some("https://f/list"));
    assert_eq!(unknown_loader("quilt").message, "unknown loader quilt");
}

#[test]
fn a_failed_spawn_names_java() {
    let error = luuxcraft_launcher::error::spawn_failure("No such file or directory (os error 2)", "/opt/java/bin/java");
    assert_eq!(error.code, "launch_failed");
    assert_eq!(error.message, "could not start Java: No such file or directory (os error 2)");
    assert_eq!(error.details.as_deref(), Some("/opt/java/bin/java"));
}
