use cargo_promote::domain::depgraph::read_package_version;

const PATH: &str = "repo/Cargo.toml";

#[test]
fn cargo_toml_without_version_line_returns_error() {
    let result = read_package_version("[package]\nname = \"foo\"\n", PATH);
    assert!(result.is_err());
    let msg = result.unwrap_err().message();
    assert!(msg.contains("[package].version"), "unexpected message: {msg}");
}

#[test]
fn malformed_version_line_no_quotes_is_invalid_toml() {
    // `version = 1.0.0` without quotes is not valid TOML, so this must
    // fail with a parse error rather than succeed with a wrong value.
    let result = read_package_version("[package]\nname = \"foo\"\nversion = 1.0.0\n", PATH);
    assert!(result.is_err());
    assert!(result.unwrap_err().message().starts_with("failed to parse repo/Cargo.toml: "));
}

#[test]
fn version_line_without_spaces_around_equals_still_parses() {
    let result = read_package_version("[package]\nname=\"foo\"\nversion=\"1.0.0\"\n", PATH).unwrap();
    assert_eq!(result, "1.0.0");
}

#[test]
fn picks_package_version_not_dependency_version() {
    let result = read_package_version(
        r#"
[package]
name = "foo"
version = "2.3.4"

[dependencies.bar]
path = "../bar"
version = "9.9.9"
"#,
        PATH,
    )
    .unwrap();
    assert_eq!(
        result, "2.3.4",
        "must pick [package].version, not a nested dependency version"
    );
}

#[test]
fn valid_simple_cargo_toml_parses() {
    let result = read_package_version("[package]\nname = \"foo\"\nversion = \"0.1.5\"\n", PATH).unwrap();
    assert_eq!(result, "0.1.5");
}
