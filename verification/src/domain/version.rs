//! Semantic versions and version bumps.

use std::str::FromStr;
use vstd::prelude::*;

use super::local_manifest::{
    spec_version_inherited, spec_workspace_version, str_at, version_path, workspace_version_path,
    LocalManifest,
};
use super::PromoteError;
use crate::toml_doc::toml_edit_set_text;
use crate::text::{cat, cat3, decimal, decimal_string, owned};

verus! {

/// Which component to bump.
#[derive(Debug, Clone, Copy, PartialEq, Eq, Structural)]
pub enum BumpLevel {
    Patch,
    Minor,
    Major,
}

/// The level a configuration word names, if any.
pub open spec fn spec_level_of(s: Seq<char>) -> Option<BumpLevel> {
    if s == "patch"@ {
        Some(BumpLevel::Patch)
    } else if s == "minor"@ {
        Some(BumpLevel::Minor)
    } else if s == "major"@ {
        Some(BumpLevel::Major)
    } else {
        None
    }
}

impl BumpLevel {
    /// Reads `patch`, `minor` or `major`; anything else is an
    /// [`PromoteError::UnknownBumpLevel`] naming the word.
    pub fn parse(s: &str) -> (r: Result<BumpLevel, PromoteError>)
        ensures
            spec_level_of(s@) matches Some(l) ==> r == Ok::<BumpLevel, PromoteError>(l),
            spec_level_of(s@) is None ==> (r matches Err(PromoteError::UnknownBumpLevel { level })
                && level@ == s@),
    {
        let t = owned(s);
        let p = owned("patch");
        let mi = owned("minor");
        let ma = owned("major");
        if t == p {
            Ok(BumpLevel::Patch)
        } else if t == mi {
            Ok(BumpLevel::Minor)
        } else if t == ma {
            Ok(BumpLevel::Major)
        } else {
            Err(PromoteError::UnknownBumpLevel { level: t })
        }
    }
}

impl FromStr for BumpLevel {
    type Err = PromoteError;

    fn from_str(s: &str) -> (r: Result<BumpLevel, PromoteError>)
        ensures
            spec_level_of(s@) matches Some(l) ==> r == Ok::<BumpLevel, PromoteError>(l),
            spec_level_of(s@) is None ==> (r matches Err(PromoteError::UnknownBumpLevel { level })
                && level@ == s@),
    {
        BumpLevel::parse(s)
    }
}

/// A semantic version: numeric core plus pre-release and build text.
#[derive(Debug, PartialEq, Eq)]
pub struct Version {
    pub major: u64,
    pub minor: u64,
    pub patch: u64,
    /// Pre-release identifiers (without the leading `-`), empty if none.
    pub pre: String,
    /// Build metadata (without the leading `+`), empty if none.
    pub build: String,
}

/// The mathematical content of a [`Version`].
pub struct VersionView {
    pub major: u64,
    pub minor: u64,
    pub patch: u64,
    pub pre: Seq<char>,
    pub build: Seq<char>,
}

impl View for Version {
    type V = VersionView;

    open spec fn view(&self) -> VersionView {
        VersionView {
            major: self.major,
            minor: self.minor,
            patch: self.patch,
            pre: self.pre@,
            build: self.build@,
        }
    }
}

/// What `semver::Version::parse` yields for a text: `None` where it
/// reports an error.
pub uninterp spec fn semver_parsed(text: Seq<char>) -> Option<VersionView>;

/// `semver::Error`, carried through opaquely.
#[verifier::external_type_specification]
#[verifier::external_body]
pub struct ExSemverError(semver::Error);

/// Parses a version with `semver::Version::parse` and copies its fields.
/// The contract claims only that the outcome is the one
/// [`semver_parsed`] names for the text.
#[verifier::external_body]
fn semver_parse(text: &str) -> (r: Result<Version, semver::Error>)
    ensures
        r is Ok <==> semver_parsed(text@) is Some,
        r matches Ok(v) ==> semver_parsed(text@) == Some(v@),
{
    match semver::Version::parse(text) {
        Ok(v) => Ok(
            Version {
                major: v.major,
                minor: v.minor,
                patch: v.patch,
                pre: v.pre.as_str().to_owned(),
                build: v.build.as_str().to_owned(),
            },
        ),
        Err(e) => Err(e),
    }
}

/// Text of a version as semver's `Display` writes it:
/// `major.minor.patch`, then `-pre` and `+build` when present.
pub open spec fn version_text(v: VersionView) -> Seq<char> {
    let core = decimal(v.major as nat) + "."@ + decimal(v.minor as nat) + "."@ + decimal(
        v.patch as nat,
    );
    let with_pre = if v.pre.len() > 0 {
        core + "-"@ + v.pre
    } else {
        core
    };
    if v.build.len() > 0 {
        with_pre + "+"@ + v.build
    } else {
        with_pre
    }
}

impl Clone for Version {
    fn clone(&self) -> (r: Self)
        ensures
            r@ == self@,
    {
        Version {
            major: self.major,
            minor: self.minor,
            patch: self.patch,
            pre: self.pre.clone(),
            build: self.build.clone(),
        }
    }
}

impl Version {
    /// A release version `major.minor.patch` without pre-release or build.
    pub fn new(major: u64, minor: u64, patch: u64) -> (r: Version)
        ensures
            r@ == (VersionView { major, minor, patch, pre: Seq::empty(), build: Seq::empty() }),
    {
        Version { major, minor, patch, pre: String::new(), build: String::new() }
    }

    /// Parses semver text; an invalid text is reported as
    /// `invalid semver: <text>`.
    pub fn parse(text: &str) -> (r: Result<Version, PromoteError>)
        ensures
            semver_parsed(text@) matches Some(v) ==> (r matches Ok(w) && w@ == v),
            semver_parsed(text@) is None ==> (r matches Err(PromoteError::Other(m)) && m@
                == "invalid semver: "@ + text@),
    {
        match semver_parse(text) {
            Ok(v) => Ok(v),
            Err(_) => Err(PromoteError::Other(cat("invalid semver: ", text))),
        }
    }

    /// The version as text (semver's `Display`).
    pub fn to_text(&self) -> (s: String)
        ensures
            s@ == version_text(self@),
    {
        let mut s = decimal_string(self.major);
        s.append(".");
        let mi = decimal_string(self.minor);
        s.append(mi.as_str());
        s.append(".");
        let pa = decimal_string(self.patch);
        s.append(pa.as_str());
        if self.pre.unicode_len() > 0 {
            s.append("-");
            s.append(self.pre.as_str());
        }
        if self.build.unicode_len() > 0 {
            s.append("+");
            s.append(self.build.as_str());
        }
        s
    }
}

/// The version that `bump_version` produces.
pub open spec fn spec_bump(v: VersionView, level: BumpLevel) -> VersionView {
    match level {
        BumpLevel::Major => VersionView {
            major: (v.major + 1) as u64,
            minor: 0,
            patch: 0,
            pre: Seq::empty(),
            build: Seq::empty(),
        },
        BumpLevel::Minor => VersionView {
            major: v.major,
            minor: (v.minor + 1) as u64,
            patch: 0,
            pre: Seq::empty(),
            build: Seq::empty(),
        },
        BumpLevel::Patch => VersionView {
            major: v.major,
            minor: v.minor,
            patch: if v.pre.len() == 0 {
                (v.patch + 1) as u64
            } else {
                v.patch
            },
            pre: Seq::empty(),
            build: Seq::empty(),
        },
    }
}

/// Whether bumping `v` at `level` stays within the range of `u64`.
pub open spec fn bump_fits(v: VersionView, level: BumpLevel) -> bool {
    match level {
        BumpLevel::Major => v.major < u64::MAX,
        BumpLevel::Minor => v.minor < u64::MAX,
        BumpLevel::Patch => v.pre.len() == 0 ==> v.patch < u64::MAX,
    }
}

/// Increment a semver version by the given level: major and minor bumps
/// reset the lower components, a patch bump of a pre-release only drops
/// the pre-release; pre-release and build metadata are always cleared.
pub fn bump_version(version: &Version, level: BumpLevel) -> (r: Version)
    requires
        bump_fits(version@, level),
    ensures
        r@ == spec_bump(version@, level),
{
    let mut v = version.clone();
    match level {
        BumpLevel::Major => {
            v.major = v.major + 1;
            v.minor = 0;
            v.patch = 0;
        },
        BumpLevel::Minor => {
            v.minor = v.minor + 1;
            v.patch = 0;
        },
        BumpLevel::Patch => {
            if v.pre.unicode_len() == 0 {
                v.patch = v.patch + 1;
            }
        },
    }
    v.pre = String::new();
    v.build = String::new();
    v
}

/// Strict order of the numeric cores `(major, minor, patch)`.
pub open spec fn core_lt(a: VersionView, b: VersionView) -> bool {
    a.major < b.major || (a.major == b.major && a.minor < b.minor) || (a.major == b.major
        && a.minor == b.minor && a.patch < b.patch)
}

/// SemVer precedence, as far as it decides between `a` and a version
/// `b` without pre-release: `b` ranks above `a` when its core is
/// greater, or when the cores agree and `a` is a pre-release.
pub open spec fn ranks_below_release(a: VersionView, b: VersionView) -> bool {
    b.pre.len() == 0 && (core_lt(a, b) || (a.major == b.major && a.minor == b.minor && a.patch
        == b.patch && a.pre.len() > 0))
}

/// A bump always produces a release that ranks strictly above the
/// version it started from.
pub proof fn lemma_bump_ranks_higher(v: VersionView, level: BumpLevel)
    requires
        bump_fits(v, level),
    ensures
        ranks_below_release(v, spec_bump(v, level)),
        spec_bump(v, level).pre.len() == 0,
        spec_bump(v, level).build.len() == 0,
{
}

/// A patch bump gives the next release: a release with the same major
/// and minor that ranks above `v`, and no release with the same major and
/// minor ranks above `v` with a smaller patch number. So a pre-release
/// `x.y.z-pre` bumps to `x.y.z`, and a release `x.y.z` to `x.y.(z+1)`.
pub proof fn lemma_patch_bump_is_next_release(v: VersionView, w: VersionView)
    requires
        bump_fits(v, BumpLevel::Patch),
    ensures
        ranks_below_release(v, spec_bump(v, BumpLevel::Patch)),
        spec_bump(v, BumpLevel::Patch).major == v.major,
        spec_bump(v, BumpLevel::Patch).minor == v.minor,
        spec_bump(v, BumpLevel::Patch).build.len() == 0,
        w.major == v.major && w.minor == v.minor && ranks_below_release(v, w) ==> spec_bump(
            v,
            BumpLevel::Patch,
        ).patch <= w.patch,
{
}

/// Major and minor bumps give the first release of the next major or
/// minor line: every release above `v` in a later line (a greater major,
/// or the same major and a greater minor) is at or above the bumped one.
pub proof fn lemma_line_bumps_start_the_next_line(v: VersionView, w: VersionView)
    requires
        v.major < u64::MAX,
        v.minor < u64::MAX,
    ensures
        spec_bump(v, BumpLevel::Major).major == v.major + 1 && spec_bump(v, BumpLevel::Major).minor
            == 0 && spec_bump(v, BumpLevel::Major).patch == 0,
        spec_bump(v, BumpLevel::Minor).major == v.major && spec_bump(v, BumpLevel::Minor).minor
            == v.minor + 1 && spec_bump(v, BumpLevel::Minor).patch == 0,
        w.pre.len() == 0 && w.major > v.major ==> !core_lt(w, spec_bump(v, BumpLevel::Major)),
        w.pre.len() == 0 && w.major == v.major && w.minor > v.minor ==> !core_lt(
            w,
            spec_bump(v, BumpLevel::Minor),
        ),
{
}

/// What bumping a manifest does, by its text: `None` where it fails.
/// The result is the old version, the new one and the new text.
pub open spec fn spec_manifest_bump(text: Seq<char>, level: BumpLevel) -> Option<
    (VersionView, VersionView, Seq<char>),
> {
    if spec_version_inherited(text) {
        match spec_workspace_version(text) {
            Some(v) => Some(
                (
                    v,
                    spec_bump(v, level),
                    toml_edit_set_text(
                        text,
                        workspace_version_path(),
                        version_text(spec_bump(v, level)),
                    ),
                ),
            ),
            None => None,
        }
    } else {
        match str_at(text, version_path()) {
            Some(s) => match semver_parsed(s) {
                Some(v) => Some(
                    (
                        v,
                        spec_bump(v, level),
                        toml_edit_set_text(text, version_path(), version_text(spec_bump(v, level))),
                    ),
                ),
                None => None,
            },
            None => None,
        }
    }
}

/// The version a bump starts from, where there is one.
pub open spec fn manifest_version(text: Seq<char>) -> Option<VersionView> {
    if spec_version_inherited(text) {
        spec_workspace_version(text)
    } else {
        match str_at(text, version_path()) {
            Some(s) => semver_parsed(s),
            None => None,
        }
    }
}

/// Bump the version in a manifest, preserving formatting: the
/// workspace's `[workspace.package].version` when the package inherits
/// it, else `[package].version`. Returns `(old_version, new_version)`;
/// the text is left as it was on failure.
pub fn bump_manifest_version(manifest: &mut LocalManifest, level: BumpLevel) -> (r: Result<
    (Version, Version),
    PromoteError,
>)
    requires
        manifest_version(old(manifest).text@) matches Some(v) ==> bump_fits(v, level),
    ensures
        final(manifest).path == old(manifest).path,
        spec_manifest_bump(old(manifest).text@, level) matches Some((o, n, t)) ==> (r matches Ok(
            (a, b),
        ) && a@ == o && b@ == n && final(manifest).text@ == t),
        spec_manifest_bump(old(manifest).text@, level) is None ==> r is Err && final(manifest).text
            == old(manifest).text,
        r matches Err(PromoteError::Other(m)) ==> {
            ||| spec_version_inherited(old(manifest).text@) && m@
                == "version.workspace = true but no [workspace.package].version found"@
            ||| !spec_version_inherited(old(manifest).text@) && str_at(
                old(manifest).text@,
                version_path(),
            ) is None && m@ == "no [package].version in Cargo.toml"@
            ||| !spec_version_inherited(old(manifest).text@) && (str_at(
                old(manifest).text@,
                version_path(),
            ) matches Some(s) && m@ == "invalid semver: "@ + s)
        },
        r matches Err(e) ==> e is Other,
{
    if manifest.version_is_inherited() {
        let old = match manifest.get_workspace_version() {
            Some(v) => v,
            None => {
                return Err(
                    PromoteError::Other(
                        owned("version.workspace = true but no [workspace.package].version found"),
                    ),
                );
            },
        };
        let new = bump_version(&old, level);
        manifest.set_workspace_version(&new);
        Ok((old, new))
    } else {
        let version_str = match manifest.package_version() {
            Some(s) => s,
            None => {
                return Err(PromoteError::Other(owned("no [package].version in Cargo.toml")));
            },
        };
        let old = match Version::parse(version_str.as_str()) {
            Ok(v) => v,
            Err(e) => {
                return Err(e);
            },
        };
        let new = bump_version(&old, level);
        manifest.set_package_version(&new);
        Ok((old, new))
    }
}

} // verus!
