use cargo_promote::config::Config;
use cargo_promote::domain::version::BumpLevel;
use cargo_promote::domain::Registry;

#[test]
fn default_config_has_two_stage_default_pipeline() {
    let cfg = Config::default_config(None, None);
    let p = cfg.pipeline(None).expect("default pipeline should exist");
    assert_eq!(p.stages.len(), 2);
    assert_eq!(p.stages[0].registry.name, "cratebox");
    assert_eq!(p.stages[1].registry.name, "crates-io");
}

#[test]
fn default_config_builds_the_cratebox_api_url() {
    let cfg = Config::default_config(None, None);
    let cratebox = cfg.registry("cratebox").unwrap();
    assert_eq!(
        cratebox.api_url.as_deref(),
        Some("http://100.105.75.7:3000/api/packages/joe/cargo")
    );
    let custom = Config::default_config(Some("http://h:1"), Some("ann"));
    assert_eq!(
        custom.registry("cratebox").unwrap().api_url.as_deref(),
        Some("http://h:1/api/packages/ann/cargo")
    );
    assert!(cfg.registry("crates-io").unwrap().confirm);
}

#[test]
fn parse_custom_config() {
    let toml = r#"
[registries.staging]
cargo_name = "my-staging"
api_url = "http://localhost:3000/api/packages/joe/cargo"
confirm = false

[registries.prod]
confirm = true

[pipelines.default]
stages = ["staging", "prod"]

[pipelines.staging-only]
stages = ["staging"]
"#;
    let cfg = Config::from_toml(toml).expect("should parse");
    assert_eq!(cfg.pipelines.len(), 2);

    let default = cfg.pipeline(None).unwrap();
    assert_eq!(default.stages.len(), 2);
    assert_eq!(
        default.stages[0].registry.cargo_name.as_deref(),
        Some("my-staging")
    );
    assert!(default.stages[1].registry.confirm);
    assert!(default.stages[1].registry.cargo_name.is_none());

    let staging = cfg.pipeline(Some("staging-only")).unwrap();
    assert_eq!(staging.stages.len(), 1);
}

#[test]
fn unknown_registry_in_pipeline_errors() {
    let toml = r#"
[pipelines.bad]
stages = ["nonexistent"]
"#;
    let result = Config::from_toml(toml);
    assert!(result.is_err());
    let msg = result.unwrap_err().message();
    assert!(
        msg.contains("nonexistent"),
        "error should name the registry: {msg}"
    );
}

#[test]
fn empty_config_is_valid() {
    let cfg = Config::from_toml("").expect("empty config should parse");
    assert!(cfg.pipelines.is_empty());
    assert!(cfg.registries.is_empty());
    assert!(cfg.autobump.is_none());
}

#[test]
fn autobump_parses_from_config() {
    let toml = r#"autobump = "patch""#;
    let cfg = Config::from_toml(toml).expect("should parse");
    assert_eq!(cfg.autobump, Some(BumpLevel::Patch));
}

#[test]
fn autobump_minor() {
    let toml = r#"autobump = "minor""#;
    let cfg = Config::from_toml(toml).expect("should parse");
    assert_eq!(cfg.autobump, Some(BumpLevel::Minor));
}

#[test]
fn autobump_invalid_errors() {
    let toml = r#"autobump = "bogus""#;
    let result = Config::from_toml(toml);
    assert!(result.is_err());
}

#[test]
fn conformance_c2_empty_toml_is_valid() {
    let cfg = Config::from_toml("").expect("C2: empty TOML must parse");
    assert!(cfg.pipelines.is_empty(), "C2: no pipelines in empty config");
    assert!(
        cfg.registries.is_empty(),
        "C2: no registries in empty config"
    );
}

#[test]
fn conformance_c3_unknown_registry_in_pipeline_errors() {
    let toml = r#"
[pipelines.bad]
stages = ["ghost"]
"#;
    let result = Config::from_toml(toml);
    assert!(result.is_err(), "C3: must error on unknown registry");
    let msg = result.unwrap_err().message();
    assert!(
        msg.contains("ghost"),
        "C3: error must name the unknown registry, got: {msg}"
    );
}

#[test]
fn conformance_c4_custom_config_round_trip() {
    let toml = r#"
[registries.alpha]
cargo_name = "alpha-reg"
api_url = "http://alpha.local/api"
confirm = false

[registries.beta]
cargo_name = "beta-reg"
confirm = true

[pipelines.default]
stages = ["alpha", "beta"]

[pipelines.alpha-only]
stages = ["alpha"]
"#;
    let cfg = Config::from_toml(toml).expect("C4: should parse");

    let alpha = cfg.registry("alpha").expect("C4: alpha must exist");
    assert_eq!(alpha.cargo_name.as_deref(), Some("alpha-reg"));
    assert_eq!(alpha.api_url.as_deref(), Some("http://alpha.local/api"));
    assert!(!alpha.confirm);

    let beta = cfg.registry("beta").expect("C4: beta must exist");
    assert!(beta.confirm);

    assert_eq!(cfg.pipelines.len(), 2);

    let default = cfg.pipeline(None).expect("C4: default pipeline must exist");
    assert_eq!(default.stages.len(), 2);
    assert_eq!(default.stages[0].registry.name, "alpha");
    assert_eq!(default.stages[1].registry.name, "beta");

    let alpha_only = cfg
        .pipeline(Some("alpha-only"))
        .expect("C4: alpha-only pipeline must exist");
    assert_eq!(alpha_only.stages.len(), 1);
}

#[test]
fn conformance_c5_pipeline_none_returns_default() {
    let cfg = Config::default_config(None, None);
    let by_none = cfg.pipeline(None);
    let by_name = cfg.pipeline(Some("default"));

    assert!(by_none.is_some(), "C5: pipeline(None) must return Some");
    assert_eq!(
        by_none.unwrap().name,
        by_name.unwrap().name,
        "C5: pipeline(None) must match pipeline('default')"
    );
}

#[test]
fn package_overrides_decide_autobump_and_publishing() {
    let toml = r#"
autobump = "patch"

[packages.core]
autobump = "major"

[packages.tool]
publish = false
"#;
    let cfg = Config::from_toml(toml).unwrap();
    assert_eq!(cfg.autobump_for("core"), Some(BumpLevel::Major));
    assert_eq!(cfg.autobump_for("other"), Some(BumpLevel::Patch));
    assert!(cfg.publish_disabled("tool"));
    assert!(!cfg.publish_disabled("core"));
}

#[test]
fn promote_toml_registries_win_over_discovered_ones() {
    let mut cfg = Config::from_toml("[registries.staging]\napi_url = \"http://explicit:3000/\"\nconfirm = true\n").unwrap();
    cfg.merge_discovered(vec![
        Registry::new("staging").with_api_url("http://discovered:3000/"),
        Registry::new("mybox"),
    ]);
    let staging = cfg.registry("staging").unwrap();
    assert_eq!(staging.api_url.as_deref(), Some("http://explicit:3000/"));
    assert!(staging.confirm);
    assert!(cfg.registry("mybox").is_some());
}

#[test]
fn unknown_registry_message_names_pipeline_and_registry() {
    let err = Config::from_toml("[pipelines.bad]\nstages = [\"ghost\"]\n").unwrap_err();
    assert_eq!(err.message(), "pipeline 'bad' references unknown registry 'ghost'");
}

#[test]
fn invalid_autobump_message() {
    let err = Config::from_toml("autobump = \"bogus\"").unwrap_err();
    assert_eq!(err.message(), "invalid autobump value");
}

#[test]
fn forge_section_is_read() {
    let toml = r#"
[forge]
type = "gitea"
url = "http://git.local:3000"
owner = "joe"
repo = "tools"
token_env = "GITEA_TOKEN"
"#;
    let cfg = Config::from_toml(toml).unwrap();
    let forge = cfg.gitea_forge().unwrap().unwrap();
    assert_eq!(forge.url, "http://git.local:3000");
    assert_eq!(forge.owner, "joe");
    assert_eq!(forge.repo, "tools");
    assert_eq!(forge.token_env, "GITEA_TOKEN");
}

#[test]
fn no_forge_section_means_no_forge() {
    let cfg = Config::from_toml("").unwrap();
    assert!(cfg.gitea_forge().unwrap().is_none());
}

#[test]
fn unsupported_forge_type_is_refused() {
    let toml = r#"
[forge]
type = "gitlab"
url = "http://gl"
owner = "o"
repo = "r"
token_env = "T"
"#;
    let cfg = Config::from_toml(toml).unwrap();
    let err = cfg.gitea_forge().unwrap_err();
    assert_eq!(err.message(), "unsupported forge type 'gitlab'");
}

#[test]
fn incomplete_forge_section_is_invalid() {
    let err = Config::from_toml("[forge]\ntype = \"gitea\"\n").unwrap_err();
    assert_eq!(err.message(), "invalid promote.toml");
}

#[test]
fn load_adds_discovered_registries_under_promote_toml() {
    let toml = "[registries.staging]\napi_url = \"http://explicit:3000/\"\n";
    let cfg = Config::load(
        Some(toml),
        None,
        None,
        vec![
            Registry::new("staging").with_api_url("http://discovered:3000/"),
            Registry::new("mybox").with_api_url("http://first/"),
            Registry::new("mybox").with_api_url("http://second/"),
        ],
    )
    .unwrap();
    assert_eq!(cfg.registry("staging").unwrap().api_url.as_deref(), Some("http://explicit:3000/"));
    assert_eq!(cfg.registry("mybox").unwrap().api_url.as_deref(), Some("http://first/"));
}

#[test]
fn load_without_promote_toml_uses_the_defaults() {
    let cfg = Config::load(None, Some("http://r:1"), Some("amy"), vec![]).unwrap();
    assert_eq!(
        cfg.registry("cratebox").unwrap().api_url.as_deref(),
        Some("http://r:1/api/packages/amy/cargo")
    );
    assert!(Config::load(Some("autobump = \"bogus\""), None, None, vec![]).is_err());
}
