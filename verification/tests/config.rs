use contextx::config::{
    parse_allowed_hosts, parse_auth_token, AppConfig, ConfigError, DEFAULT_ALLOWED_HOSTS,
    DEFAULT_BIND_ADDR,
};

#[test]
fn parses_default_allowed_hosts() {
    assert_eq!(
        parse_allowed_hosts(DEFAULT_ALLOWED_HOSTS),
        ["localhost", "127.0.0.1", "::1"]
    );
}

#[test]
fn trims_and_skips_empty_allowed_hosts() {
    assert_eq!(
        parse_allowed_hosts(" example.hf.space , ,localhost, "),
        ["example.hf.space", "localhost"]
    );
}

#[test]
fn treats_blank_auth_token_as_unset() {
    assert!(parse_auth_token(String::new()).is_none());
    assert!(parse_auth_token("   ".to_owned()).is_none());
}

#[test]
fn trims_surrounding_whitespace_from_auth_token() {
    assert_eq!(
        parse_auth_token("  secret-token\n".to_owned()).as_deref(),
        Some("secret-token")
    );
}

#[test]
fn allowed_hosts_of_empty_setting_is_empty() {
    assert!(parse_allowed_hosts("").is_empty());
    assert!(parse_allowed_hosts(" , ,\t").is_empty());
}

#[test]
fn allowed_hosts_trim_unicode_whitespace() {
    assert_eq!(
        parse_allowed_hosts("\u{3000}a.example\u{a0},b"),
        ["a.example", "b"]
    );
}

#[test]
fn clean_hosts_never_hold_commas_or_blanks() {
    for host in parse_allowed_hosts(" x , y,,\n z ,") {
        assert!(!host.is_empty());
        assert_eq!(host.trim(), host);
        assert!(!host.contains(','));
    }
}

fn some(s: &str) -> Option<String> {
    Some(s.to_owned())
}

#[test]
fn loads_config_with_defaults() {
    let config = AppConfig::from_env_values(
        some("key"),
        some("https://up.example/v1/responses"),
        some("deep-key"),
        some("https://deep.example/v1/chat/completions"),
        None,
        None,
        None,
    )
    .unwrap();
    assert_eq!(config.api_key, "key");
    assert_eq!(config.upstream_url, "https://up.example/v1/responses");
    assert_eq!(config.deep_api_key, "deep-key");
    assert_eq!(config.deep_upstream_url, "https://deep.example/v1/chat/completions");
    assert_eq!(config.bind_addr, DEFAULT_BIND_ADDR);
    assert_eq!(config.allowed_hosts, ["localhost", "127.0.0.1", "::1"]);
    assert!(config.auth_token.is_none());
}

#[test]
fn loads_config_with_explicit_values() {
    let config = AppConfig::from_env_values(
        some("key"),
        some("u"),
        some("dk"),
        some("du"),
        some("127.0.0.1:8080"),
        some("a.example, b.example"),
        some("  token  "),
    )
    .unwrap();
    assert_eq!(config.bind_addr, "127.0.0.1:8080");
    assert_eq!(config.allowed_hosts, ["a.example", "b.example"]);
    assert_eq!(config.auth_token.as_deref(), Some("token"));
}

#[test]
fn blank_auth_token_setting_disables_auth() {
    let config =
        AppConfig::from_env_values(some("k"), some("u"), some("dk"), some("du"), None, None, some(" "))
            .unwrap();
    assert!(config.auth_token.is_none());
}

fn missing(result: Result<AppConfig, ConfigError>) -> &'static str {
    match result {
        Err(ConfigError::MissingVariable(name)) => name,
        Ok(_) => panic!("expected a missing variable"),
    }
}

#[test]
fn reports_first_missing_variable() {
    assert_eq!(
        missing(AppConfig::from_env_values(None, None, None, None, None, None, None)),
        "GROK_API_KEY"
    );
    assert_eq!(
        missing(AppConfig::from_env_values(some("k"), None, None, None, None, None, None)),
        "GROK_UPSTREAM_URL"
    );
    assert_eq!(
        missing(AppConfig::from_env_values(some("k"), some("u"), None, some("du"), None, None, None)),
        "GROK_DEEP_API_KEY"
    );
    assert_eq!(
        missing(AppConfig::from_env_values(some("k"), some("u"), some("dk"), None, None, None, None)),
        "GROK_DEEP_UPSTREAM_URL"
    );
}

#[test]
fn missing_variable_message_names_it() {
    assert_eq!(
        ConfigError::MissingVariable("GROK_API_KEY").message(),
        "必須の環境変数 `GROK_API_KEY` が設定されていません"
    );
}
