//! Which crate a manifest describes.

use std::path::{Path, PathBuf};
use vstd::prelude::*;

use super::local_manifest::{name_path, spec_members, str_at, version_path, LocalManifest};
use super::{as_path, CrateRef, PromoteError};
use crate::text::{has_prefix, owned};
use crate::toml_doc::toml_edit_node_at;

verus! {

/// `Path::join`. Nothing is claimed of the path.
#[verifier::external_body]
fn path_join(base: &Path, rel: &str) -> PathBuf {
    base.join(rel)
}

/// `PathBuf::from`. Nothing is claimed of the path.
#[verifier::external_body]
fn path_from(rel: &str) -> PathBuf {
    PathBuf::from(rel)
}

/// The manifest of a crate directory: `<path>/Cargo.toml`, or
/// `Cargo.toml` in the working directory.
pub fn manifest_for(path: Option<&Path>) -> PathBuf {
    match path {
        Some(p) => path_join(p, "Cargo.toml"),
        None => path_from("Cargo.toml"),
    }
}

/// Name and version of a crate.
#[derive(Debug)]
pub struct MemberInfo {
    pub name: String,
    pub version: String,
}

/// What a manifest describes: one crate or the members of a workspace.
#[derive(Debug)]
pub enum ManifestDescription {
    Single(MemberInfo),
    Workspace(Vec<MemberInfo>),
}

/// A string of the manifest, or a stand-in where it is missing.
pub open spec fn or_default(o: Option<Seq<char>>, d: Seq<char>) -> Seq<char> {
    match o {
        Some(s) => s,
        None => d,
    }
}

/// The crate a manifest text names: `[package].name` and version, `?`
/// for what is missing.
pub open spec fn spec_member_info(text: Seq<char>) -> (Seq<char>, Seq<char>) {
    (or_default(str_at(text, name_path()), "?"@), or_default(str_at(text, version_path()), "?"@))
}

/// The name and version of a member.
pub open spec fn info_view(m: MemberInfo) -> (Seq<char>, Seq<char>) {
    (m.name@, m.version@)
}

/// The names and versions of a list of members.
pub open spec fn infos_view(v: Seq<MemberInfo>) -> Seq<(Seq<char>, Seq<char>)> {
    v.map_values(|i: MemberInfo| info_view(i))
}

/// The members whose manifests could be read, in order.
pub open spec fn member_infos(ms: Seq<Result<LocalManifest, PromoteError>>) -> Seq<
    (Seq<char>, Seq<char>),
>
    decreases ms.len(),
{
    if ms.len() == 0 {
        Seq::empty()
    } else {
        match ms.last() {
            Ok(m) => member_infos(ms.drop_last()).push(spec_member_info(m.text@)),
            Err(_) => member_infos(ms.drop_last()),
        }
    }
}

/// A string, or a stand-in where it is missing.
fn string_or(o: Option<String>, d: &str) -> (r: String)
    ensures
        r@ == or_default(crate::toml_doc::opt_view(o), d@),
{
    match o {
        Some(s) => s,
        None => owned(d),
    }
}

/// The crate a workspace member's manifest names; `None` where the
/// manifest could not be read.
pub fn read_member_info(manifest: &Result<LocalManifest, PromoteError>) -> (r: Option<MemberInfo>)
    ensures
        manifest matches Ok(m) ==> (r matches Some(i) && info_view(i) == spec_member_info(
            m.text@,
        )),
        manifest is Err ==> r is None,
{
    match manifest {
        Ok(m) => Some(
            MemberInfo {
                name: string_or(m.package_name(), "?"),
                version: string_or(m.package_version(), "?"),
            },
        ),
        Err(_) => None,
    }
}

/// Resolve the crate to work on from its manifest (`content`, read from
/// [`manifest_for`]`(path)`): the named package, or the manifest's own
/// `[package].name`; the version is `[package].version`, `0.0.0` where
/// missing.
pub fn resolve_crate(
    path: Option<&Path>,
    package: Option<&str>,
    content: Result<String, PromoteError>,
) -> (r: Result<CrateRef, PromoteError>)
    ensures
        content matches Err(e) ==> r == Err::<CrateRef, PromoteError>(e),
        content matches Ok(t) ==> {
            &&& toml_edit_node_at(t@, Seq::empty()) is Invalid ==> (r matches Err(
                PromoteError::Other(m),
            ) && has_prefix(m@, "invalid TOML in "@))
            &&& !(toml_edit_node_at(t@, Seq::empty()) is Invalid) && package is None && str_at(
                t@,
                name_path(),
            ) is None ==> (r matches Err(PromoteError::Other(m)) && m@ == "missing package.name"@)
            &&& !(toml_edit_node_at(t@, Seq::empty()) is Invalid) && (package is Some || str_at(
                t@,
                name_path(),
            ) is Some) ==> (r matches Ok(k) && k.name@ == or_default(
                crate::config::opt_str_view(package),
                str_at(t@, name_path())->0,
            ) && k.version@ == or_default(str_at(t@, version_path()), "0.0.0"@))
        },
{
    let manifest_path = manifest_for(path);
    let text = match content {
        Ok(t) => t,
        Err(e) => {
            return Err(e);
        },
    };
    let manifest = LocalManifest::try_new(as_path(&manifest_path), text);
    let manifest = match manifest {
        Ok(m) => m,
        Err(e) => {
            return Err(e);
        },
    };
    let name = match package {
        Some(p) => owned(p),
        None => match manifest.package_name() {
            Some(n) => n,
            None => {
                return Err(PromoteError::Other(owned("missing package.name")));
            },
        },
    };
    let version = string_or(manifest.package_version(), "0.0.0");
    Ok(CrateRef { name, version, manifest_path })
}

/// What [`describe_manifest`] answers for a root manifest and the
/// members' manifests.
pub open spec fn description_of(
    root: Result<LocalManifest, PromoteError>,
    members: Seq<Result<LocalManifest, PromoteError>>,
    r: Result<ManifestDescription, PromoteError>,
) -> bool {
    &&& root matches Err(e) ==> r == Err::<ManifestDescription, PromoteError>(e)
    &&& root matches Ok(m) ==> {
        &&& spec_members(m.text@) is Some ==> (r matches Ok(ManifestDescription::Workspace(v))
            && infos_view(v@) == member_infos(members))
        &&& spec_members(m.text@) is None && str_at(m.text@, name_path()) is Some ==> (r matches Ok(
            ManifestDescription::Single(i),
        ) && info_view(i) == spec_member_info(m.text@))
        &&& spec_members(m.text@) is None && str_at(m.text@, name_path()) is None ==> (r matches Ok(
            ManifestDescription::Workspace(v),
        ) && v@.len() == 0)
    }
}

/// Describe the crates of a manifest: the members of a workspace (from
/// their manifests, `members`, in order; unreadable ones are left out),
/// a single crate, or an empty workspace.
pub fn describe_manifest(
    root: Result<LocalManifest, PromoteError>,
    members: &Vec<Result<LocalManifest, PromoteError>>,
) -> (r: Result<ManifestDescription, PromoteError>)
    ensures
        description_of(root, members@, r),
{
    let manifest = match root {
        Ok(m) => m,
        Err(e) => {
            return Err(e);
        },
    };
    if manifest.workspace_members().is_some() {
        let mut infos: Vec<MemberInfo> = Vec::new();
        let mut i: usize = 0;
        while i < members.len()
            invariant
                i <= members@.len(),
                infos_view(infos@) == member_infos(members@.subrange(0, i as int)),
            decreases members@.len() - i,
        {
            let ghost before = infos@;
            assert(members@.subrange(0, i + 1).drop_last() =~= members@.subrange(0, i as int));
            match read_member_info(&members[i]) {
                Some(info) => {
                    let ghost iv = info_view(info);
                    infos.push(info);
                    assert(infos_view(infos@) =~= infos_view(before).push(iv));
                },
                None => {},
            }
            i = i + 1;
        }
        assert(members@.subrange(0, members@.len() as int) =~= members@);
        Ok(ManifestDescription::Workspace(infos))
    } else {
        match manifest.package_name() {
            Some(name) => {
                let version = string_or(manifest.package_version(), "?");
                Ok(ManifestDescription::Single(MemberInfo { name, version }))
            },
            None => Ok(ManifestDescription::Workspace(Vec::new())),
        }
    }
}

} // verus!
