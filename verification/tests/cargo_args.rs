use cargo_promote::domain::{publish_args, PublishOpts, Registry};

#[test]
fn publish_args_name_the_registry_even_without_cargo_name() {
    let args = publish_args(&Registry::new("cratebox"), &PublishOpts::default());
    assert_eq!(args, vec!["publish", "--registry", "cratebox"]);
}

#[test]
fn publish_args_prefer_the_cargo_name_and_add_flags() {
    let mut registry = Registry::new("staging");
    registry.cargo_name = Some("staging-box".to_string());
    let opts = PublishOpts { allow_dirty: true, dry_run: true, skip_confirm: false, force: false };
    let args = publish_args(&registry, &opts);
    assert_eq!(
        args,
        vec!["publish", "--registry", "staging-box", "--allow-dirty", "--dry-run"]
    );
}

#[test]
fn publish_args_dry_run_only() {
    let opts = PublishOpts { allow_dirty: false, dry_run: true, skip_confirm: true, force: true };
    let args = publish_args(&Registry::new("crates-io"), &opts);
    assert_eq!(args, vec!["publish", "--registry", "crates-io", "--dry-run"]);
}

#[test]
fn without_cargo_name_publishes_under_the_display_name() {
    let registry = Registry::new("crates-io").without_cargo_name();
    assert_eq!(registry.cargo_name, None);
    assert_eq!(registry.publish_name(), "crates-io");
}

#[test]
fn with_confirm_keeps_the_rest() {
    let registry = Registry::new("prod").with_api_url("http://p/").with_confirm();
    assert!(registry.confirm);
    assert_eq!(registry.name, "prod");
    assert_eq!(registry.cargo_name.as_deref(), Some("prod"));
    assert_eq!(registry.api_url.as_deref(), Some("http://p/"));
}
