use cargo_promote::domain::version::{bump_version, BumpLevel, Version};
use std::str::FromStr;

#[test]
fn bump_patch() {
    let v = Version::new(1, 2, 3);
    assert_eq!(bump_version(&v, BumpLevel::Patch), Version::new(1, 2, 4));
}

#[test]
fn bump_minor() {
    let v = Version::new(1, 2, 3);
    assert_eq!(bump_version(&v, BumpLevel::Minor), Version::new(1, 3, 0));
}

#[test]
fn bump_major() {
    let v = Version::new(1, 2, 3);
    assert_eq!(bump_version(&v, BumpLevel::Major), Version::new(2, 0, 0));
}

#[test]
fn bump_patch_strips_prerelease() {
    let v = Version::parse("1.0.0-alpha.1").unwrap();
    assert_eq!(bump_version(&v, BumpLevel::Patch), Version::new(1, 0, 0));
}

#[test]
fn bump_level_from_str() {
    assert_eq!(BumpLevel::from_str("patch").unwrap(), BumpLevel::Patch);
    assert_eq!(BumpLevel::from_str("minor").unwrap(), BumpLevel::Minor);
    assert_eq!(BumpLevel::from_str("major").unwrap(), BumpLevel::Major);
    assert!(BumpLevel::from_str("bogus").is_err());
}

#[test]
fn unknown_bump_level_names_the_word() {
    assert_eq!(
        BumpLevel::from_str("bogus").unwrap_err().message(),
        "unknown bump level 'bogus', expected patch|minor|major"
    );
}

#[test]
fn bump_drops_build_metadata_and_prints_semver_text() {
    let v = Version::parse("1.2.3+build.7").unwrap();
    let b = bump_version(&v, BumpLevel::Minor);
    assert_eq!(b.to_text(), "1.3.0");
    assert_eq!(Version::parse("2.0.0-rc.1").unwrap().to_text(), "2.0.0-rc.1");
}

#[test]
fn bumped_version_ranks_above_the_old_one() {
    let v = Version::parse("1.0.0-alpha.1").unwrap();
    for level in [BumpLevel::Patch, BumpLevel::Minor, BumpLevel::Major] {
        let b = bump_version(&v, level);
        let old = semver::Version::parse(&v.to_text()).unwrap();
        let new = semver::Version::parse(&b.to_text()).unwrap();
        assert!(new > old);
    }
}
