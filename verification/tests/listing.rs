use cargo_promote::domain::{PromoteError, Registry};
use cargo_promote::infra::git::{ff_status_at, ff_status_from_base};
use cargo_promote::domain::traits::FfStatus;
use cargo_promote::infra::listing::{
    crates_list_url, found_status, gitea_crates, github_crates, require_api_url,
};

fn reg() -> Registry {
    Registry::new("box").with_api_url("http://h/api/packages/joe/cargo")
}

#[test]
fn gitea_listing_reads_crates_with_defaults() {
    let body = br#"{"crates":[{"name":"foo","max_version":"1.0.0"},{"name":"bar"}]}"#;
    let crates = gitea_crates(&reg(), body).unwrap();
    assert_eq!(crates.len(), 2);
    assert_eq!(crates[0].name, "foo");
    assert_eq!(crates[0].max_version, "1.0.0");
    assert_eq!(crates[1].max_version, "?");
}

#[test]
fn gitea_listing_errors_name_the_registry() {
    match gitea_crates(&reg(), br#"{"other":[]}"#) {
        Err(PromoteError::QueryFailed { registry, reason }) => {
            assert_eq!(registry, "box");
            assert_eq!(reason, "unexpected response format");
        }
        other => panic!("expected QueryFailed, got {other:?}"),
    }
    match gitea_crates(&reg(), b"not json") {
        Err(PromoteError::QueryFailed { reason, .. }) => assert!(reason.starts_with("invalid JSON: ")),
        other => panic!("expected QueryFailed, got {other:?}"),
    }
}

#[test]
fn github_listing_is_a_top_level_array() {
    let crates = github_crates(&reg(), br#"[{"name":"pkg","version":"0.2.0"}]"#).unwrap();
    assert_eq!(crates[0].name, "pkg");
    assert_eq!(crates[0].max_version, "0.2.0");
    match github_crates(&reg(), br#"{"name":"pkg"}"#) {
        Err(PromoteError::QueryFailed { reason, .. }) => {
            assert_eq!(reason, "expected JSON array from GitHub packages API")
        }
        other => panic!("expected QueryFailed, got {other:?}"),
    }
}

#[test]
fn api_url_is_required_for_listing() {
    let no_api = Registry::new("plain");
    match require_api_url(&no_api, "no api_url configured") {
        Err(PromoteError::QueryFailed { registry, reason }) => {
            assert_eq!(registry, "plain");
            assert_eq!(reason, "no api_url configured");
        }
        other => panic!("expected QueryFailed, got {other:?}"),
    }
    assert_eq!(require_api_url(&reg(), "x").unwrap(), "http://h/api/packages/joe/cargo");
    assert_eq!(crates_list_url("http://h"), "http://h/api/v1/crates");
}

#[test]
fn only_http_200_means_found() {
    assert!(found_status("200\n"));
    assert!(!found_status("404"));
}

#[test]
fn fast_forward_classification() {
    let a = "abc".to_string();
    assert_eq!(ff_status_at(&a, "abc"), Some(FfStatus::InSync));
    assert_eq!(ff_status_at(&a, "def"), None);
    assert_eq!(ff_status_from_base(&"def".to_string(), "def"), FfStatus::Promotable);
    assert_eq!(ff_status_from_base(&"base".to_string(), "def"), FfStatus::Diverged);
}
