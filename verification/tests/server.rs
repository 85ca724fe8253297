use contextx::server::is_authorized;

const TOKEN: &str = "secret-token";

#[test]
fn accepts_matching_bearer_token() {
    assert!(is_authorized(Some("Bearer secret-token"), TOKEN));
}

#[test]
fn accepts_bearer_token_with_trailing_whitespace() {
    assert!(is_authorized(Some("Bearer secret-token  "), TOKEN));
}

#[test]
fn rejects_missing_header() {
    assert!(!is_authorized(None, TOKEN));
}

#[test]
fn rejects_wrong_token() {
    assert!(!is_authorized(Some("Bearer wrong-token"), TOKEN));
}

#[test]
fn rejects_token_without_bearer_prefix() {
    assert!(!is_authorized(Some("secret-token"), TOKEN));
}

#[test]
fn rejects_case_mismatched_scheme() {
    assert!(!is_authorized(Some("bearer secret-token"), TOKEN));
}

#[test]
fn rejects_prefix_of_expected_token() {
    assert!(!is_authorized(Some("Bearer secret"), TOKEN));
}

#[test]
fn rejects_longer_token_than_expected() {
    assert!(!is_authorized(Some("Bearer secret-token-2"), TOKEN));
}

#[test]
fn accepts_token_with_whitespace_after_scheme() {
    assert!(is_authorized(Some("Bearer \t secret-token\n"), TOKEN));
}

#[test]
fn compares_non_ascii_tokens() {
    assert!(is_authorized(Some("Bearer トークン"), "トークン"));
    assert!(!is_authorized(Some("Bearer トークン"), "トークソ"));
}
