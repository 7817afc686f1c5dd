use cargo_promote::domain::PromoteError;
use cargo_promote::infra::token::{env_var_name, resolve_token};

#[test]
fn env_var_name_upper_cases_and_replaces_hyphens() {
    assert_eq!(env_var_name("my-repo"), "CARGO_REGISTRIES_MY_REPO_TOKEN");
    assert_eq!(env_var_name("cratebox"), "CARGO_REGISTRIES_CRATEBOX_TOKEN");
}

#[test]
fn resolve_from_env_var() {
    let r = resolve_token("cratebox", Some("test-token-123".to_string()), None, None, "/nonexistent");
    assert_eq!(r.unwrap().as_deref(), Some("test-token-123"));
}

#[test]
fn resolve_crates_io_fallback_env() {
    let r = resolve_token("crates-io", None, Some("crates-io-token".to_string()), None, "/nonexistent");
    assert_eq!(r.unwrap().as_deref(), Some("crates-io-token"));
    let other = resolve_token("mybox", None, Some("crates-io-token".to_string()), None, "/nonexistent");
    assert_eq!(other.unwrap(), None);
}

#[test]
fn resolve_none_when_no_token() {
    let r = resolve_token("nonexistent", None, None, None, "/nonexistent");
    assert!(r.unwrap().is_none());
}

#[test]
fn resolve_from_credentials_file() {
    let file = "[registries.myrepo]\ntoken = \"file-token-456\"\n".to_string();
    let r = resolve_token("myrepo", None, None, Some(Ok(file)), "credentials.toml");
    assert_eq!(r.unwrap().as_deref(), Some("file-token-456"));
}

#[test]
fn env_var_takes_precedence_over_file() {
    let file = "[registries.precedence]\ntoken = \"file-token\"\n".to_string();
    let r = resolve_token("precedence", Some("env-token".to_string()), None, Some(Ok(file)), "c.toml");
    assert_eq!(r.unwrap().as_deref(), Some("env-token"));
}

#[test]
fn empty_env_value_falls_through_to_file() {
    let file = "[registries.r]\ntoken = \"from-file\"\n".to_string();
    let r = resolve_token("r", Some(String::new()), None, Some(Ok(file)), "c.toml");
    assert_eq!(r.unwrap().as_deref(), Some("from-file"));
}

#[test]
fn unreadable_or_invalid_credentials_fail() {
    let read = resolve_token("r", None, None, Some(Err(PromoteError::Other("cannot read".to_string()))), "c.toml");
    assert_eq!(read.unwrap_err().message(), "cannot read");
    let bad = resolve_token("r", None, None, Some(Ok("[registries\n".to_string())), "c.toml");
    assert!(bad.unwrap_err().message().starts_with("invalid TOML in c.toml: "));
}
