use cargo_promote::domain::local_manifest::LocalManifest;
use cargo_promote::domain::manifest::{
    describe_manifest, manifest_for, read_member_info, resolve_crate, ManifestDescription,
};
use cargo_promote::domain::version::{bump_manifest_version, BumpLevel, Version};
use std::path::{Path, PathBuf};

/// This crate's own manifest.
const OWN_MANIFEST: &str = "[package]\nname = \"cargo-promote\"\nversion = \"0.1.0\"\nedition = \"2021\"\npublish = false\n\n[dependencies]\nsemver = \"=1.0.28\"\n";

#[test]
fn resolve_crate_reads_own_manifest() {
    let krate = resolve_crate(None, None, Ok(OWN_MANIFEST.to_string())).expect("should read own Cargo.toml");
    assert_eq!(krate.name, "cargo-promote");
    assert!(!krate.version.is_empty());
}

#[test]
fn resolve_crate_with_package_override() {
    let krate = resolve_crate(None, Some("custom-pkg"), Ok(OWN_MANIFEST.to_string()))
        .expect("should succeed with package name");
    assert_eq!(krate.name, "custom-pkg");
}

#[test]
fn describe_manifest_single_crate() {
    let root = LocalManifest::try_new(Path::new("Cargo.toml"), OWN_MANIFEST.to_string());
    let desc = describe_manifest(root, &vec![]).expect("should describe own manifest");
    match desc {
        ManifestDescription::Single(info) => {
            assert_eq!(info.name, "cargo-promote");
        }
        ManifestDescription::Workspace(_) => {
            panic!("expected Single, got Workspace")
        }
    }
}

#[test]
fn manifest_for_defaults_to_cwd() {
    let p = manifest_for(None);
    assert_eq!(p, PathBuf::from("Cargo.toml"));
}

#[test]
fn manifest_for_joins_the_crate_directory() {
    assert_eq!(manifest_for(Some(Path::new("crates/core"))), PathBuf::from("crates/core/Cargo.toml"));
}

#[test]
fn resolve_crate_defaults_version_and_needs_a_name() {
    let k = resolve_crate(None, None, Ok("[package]\nname = \"bare\"\n".to_string())).unwrap();
    assert_eq!(k.version, "0.0.0");
    let err = resolve_crate(None, None, Ok("[workspace]\nmembers = []\n".to_string())).unwrap_err();
    assert_eq!(err.message(), "missing package.name");
    let bad = resolve_crate(None, None, Ok("[package\n".to_string())).unwrap_err();
    assert!(bad.message().starts_with("invalid TOML in "));
}

#[test]
fn describe_workspace_lists_readable_members() {
    let root = LocalManifest::try_new(
        Path::new("Cargo.toml"),
        "[workspace]\nmembers = [\"a\", \"b\"]\n".to_string(),
    );
    let a = LocalManifest::try_new(Path::new("a/Cargo.toml"), "[package]\nname = \"a\"\nversion = \"1.0.0\"\n".to_string());
    let b = LocalManifest::try_new(Path::new("b/Cargo.toml"), "[package\n".to_string());
    match describe_manifest(root, &vec![a, b]).unwrap() {
        ManifestDescription::Workspace(infos) => {
            assert_eq!(infos.len(), 1);
            assert_eq!(infos[0].name, "a");
            assert_eq!(infos[0].version, "1.0.0");
        }
        ManifestDescription::Single(_) => panic!("expected Workspace"),
    }
}

#[test]
fn member_without_version_reads_question_mark() {
    let m = LocalManifest::try_new(Path::new("m/Cargo.toml"), "[package]\nname = \"m\"\n".to_string());
    let info = read_member_info(&m).unwrap();
    assert_eq!(info.version, "?");
}

#[test]
fn workspace_members_lists_string_entries() {
    let m = LocalManifest::try_new(
        Path::new("Cargo.toml"),
        "[workspace]\nmembers = [\"a\", 3, \"c\"]\n".to_string(),
    )
    .unwrap();
    assert_eq!(m.workspace_members(), Some(vec!["a".to_string(), "c".to_string()]));
}

#[test]
fn version_is_inherited_detects_workspace_true() {
    let m = LocalManifest::try_new(
        Path::new("Cargo.toml"),
        "[package]\nname = \"child\"\nversion.workspace = true\n".to_string(),
    )
    .unwrap();
    assert!(m.version_is_inherited());
}

#[test]
fn version_is_inherited_false_for_string() {
    let m = LocalManifest::try_new(
        Path::new("Cargo.toml"),
        "[package]\nname = \"foo\"\nversion = \"0.1.0\"\n".to_string(),
    )
    .unwrap();
    assert!(!m.version_is_inherited());
}

#[test]
fn bump_manifest_version_round_trip() {
    let mut m = LocalManifest::try_new(
        Path::new("Cargo.toml"),
        "[package]\nname = \"test-crate\"\nversion = \"0.1.0\"\nedition = \"2024\"\n".to_string(),
    )
    .unwrap();
    let (old, new) = bump_manifest_version(&mut m, BumpLevel::Patch).unwrap();
    assert_eq!(old, Version::new(0, 1, 0));
    assert_eq!(new, Version::new(0, 1, 1));
    assert!(m.text.contains("version = \"0.1.1\""));
    assert!(m.text.contains("name = \"test-crate\""));
    assert!(m.text.contains("edition = \"2024\""));
}

#[test]
fn bump_manifest_workspace_inherited_version() {
    let mut m = LocalManifest::try_new(
        Path::new("Cargo.toml"),
        "[package]\nname = \"child\"\nversion.workspace = true\n\n[workspace.package]\nversion = \"1.0.0\"\n\n[workspace]\nmembers = []\n".to_string(),
    )
    .unwrap();
    let (old, new) = bump_manifest_version(&mut m, BumpLevel::Patch).unwrap();
    assert_eq!(old, Version::new(1, 0, 0));
    assert_eq!(new, Version::new(1, 0, 1));
    assert!(m.text.contains("version = \"1.0.1\""));
}

#[test]
fn bump_manifest_reports_what_is_missing() {
    let mut none = LocalManifest::try_new(Path::new("Cargo.toml"), "[package]\nname = \"x\"\n".to_string()).unwrap();
    assert_eq!(
        bump_manifest_version(&mut none, BumpLevel::Patch).unwrap_err().message(),
        "no [package].version in Cargo.toml"
    );
    let mut bad = LocalManifest::try_new(Path::new("Cargo.toml"), "[package]\nversion = \"one\"\n".to_string()).unwrap();
    assert_eq!(
        bump_manifest_version(&mut bad, BumpLevel::Patch).unwrap_err().message(),
        "invalid semver: one"
    );
    assert_eq!(bad.text, "[package]\nversion = \"one\"\n");
}
