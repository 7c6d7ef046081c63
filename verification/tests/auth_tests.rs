use rclaim::auth::{auth_token_or_default, is_valid_client, sanitize};

#[test]
fn test_is_valid_client() {
    let secret = auth_token_or_default(Some("test_token".to_string()));
    assert!(is_valid_client(Some("test_token"), &secret).is_ok());
    assert!(is_valid_client(Some("wrong_token"), &secret).is_err());
    assert!(is_valid_client(None, &secret).is_err());
}

#[test]
fn test_sanitize() {
    assert_eq!(sanitize("Hello ⚔ World #123"), "Hello ⚔ World #123");
    assert_eq!(
        sanitize("<script>alert('xss')</script>"),
        "scriptalertxssscript"
    );
    assert_eq!(sanitize("Test@!%"), "Test");
    assert_eq!(sanitize("⚔ Location #1"), "⚔ Location #1");
    assert_eq!(sanitize(""), "", "Empty input should return empty string");
    assert_eq!(
        sanitize("😀⚔#test"),
        "⚔#test",
        "Unicode emojis should be filtered out"
    );
    assert_eq!(sanitize("X1"), "X1", "Coordinate X1 should be preserved");
    assert_eq!(sanitize("Y2"), "Y2", "Coordinate Y2 should be preserved");
    let long_input = "a".repeat(1000) + "⚔#";
    assert_eq!(
        sanitize(&long_input),
        "a".repeat(1000) + "⚔#",
        "Long input should be handled correctly"
    );
}

#[test]
fn sanitize_strips_script_markup() {
    assert_eq!(sanitize("<script>alert('x')</script>"), "scriptalertxscript");
}

#[test]
fn default_secret_is_placeholder() {
    let secret = auth_token_or_default(None);
    assert_eq!(secret, "test_token");
    assert!(is_valid_client(Some("test_token"), &secret).is_ok());
}

#[test]
fn missing_credential_is_unauthorized() {
    let err = is_valid_client(None, "s3cret").unwrap_err();
    assert!(matches!(err, rclaim::types::AppError::Unauthorized));
}
