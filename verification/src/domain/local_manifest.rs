//! A crate manifest (`Cargo.toml`) held as text, read and edited with
//! `toml_edit` so that formatting is kept.

use std::path::{Path, PathBuf};
use vstd::prelude::*;

use super::version::{semver_parsed, version_text, Version, VersionView};
use super::PromoteError;
use crate::text::{cat, has_prefix, owned};
use crate::toml_doc::{
    edit_path_ok, opt_view, strs_view, toml_edit_node, toml_edit_node_at, toml_edit_set,
    toml_edit_set_text, NodeView, TomlNode,
};

verus! {

/// `Path::to_path_buf`.
#[verifier::external_body]
pub(crate) fn path_buf(p: &Path) -> PathBuf {
    p.to_path_buf()
}

/// `Path::display`, as text. Nothing is claimed of the text.
#[verifier::external_body]
pub(crate) fn path_text(p: &Path) -> String {
    p.display().to_string()
}

/// The string at `path` of a manifest, if the node there is a string.
pub open spec fn str_at(text: Seq<char>, path: Seq<Seq<char>>) -> Option<Seq<char>> {
    match toml_edit_node_at(text, path) {
        NodeView::Str(s) => Some(s),
        _ => None,
    }
}

/// `[package].name`.
pub open spec fn name_path() -> Seq<Seq<char>> {
    seq!["package"@, "name"@]
}

/// `[package].version`.
pub open spec fn version_path() -> Seq<Seq<char>> {
    seq!["package"@, "version"@]
}

/// `[workspace.package].version`.
pub open spec fn workspace_version_path() -> Seq<Seq<char>> {
    seq!["workspace"@, "package"@, "version"@]
}

/// `[workspace].members`.
pub open spec fn members_path() -> Seq<Seq<char>> {
    seq!["workspace"@, "members"@]
}

/// Whether the package version is `version.workspace = true` (a table
/// or inline table whose `workspace` key is `true`).
pub open spec fn spec_version_inherited(text: Seq<char>) -> bool {
    toml_edit_node_at(text, version_path()) is Table && toml_edit_node_at(
        text,
        version_path().push("workspace"@),
    ) == NodeView::Bool(true)
}

/// The strings among the elements of an array, in order.
pub open spec fn present(a: Seq<Option<Seq<char>>>) -> Seq<Seq<char>>
    decreases a.len(),
{
    if a.len() == 0 {
        Seq::empty()
    } else {
        match a.last() {
            Some(s) => present(a.drop_last()).push(s),
            None => present(a.drop_last()),
        }
    }
}

/// The workspace members: the strings of `[workspace].members` when it
/// is an array.
pub open spec fn spec_members(text: Seq<char>) -> Option<Seq<Seq<char>>> {
    match toml_edit_node_at(text, members_path()) {
        NodeView::Array(a) => Some(present(a)),
        _ => None,
    }
}

/// The workspace version: `[workspace.package].version` when it is a
/// string that semver accepts.
pub open spec fn spec_workspace_version(text: Seq<char>) -> Option<VersionView> {
    match str_at(text, workspace_version_path()) {
        Some(s) => semver_parsed(s),
        None => None,
    }
}

/// The key path of two keys.
fn keys2(a: &str, b: &str) -> (r: Vec<String>)
    ensures
        strs_view(r@) == seq![a@, b@],
{
    let r = vec![owned(a), owned(b)];
    assert(strs_view(r@) =~= seq![a@, b@]);
    r
}

/// The key path of three keys.
fn keys3(a: &str, b: &str, c: &str) -> (r: Vec<String>)
    ensures
        strs_view(r@) == seq![a@, b@, c@],
{
    let r = vec![owned(a), owned(b), owned(c)];
    assert(strs_view(r@) =~= seq![a@, b@, c@]);
    r
}

/// The string at a key path.
fn string_at(text: &str, path: &Vec<String>) -> (r: Option<String>)
    ensures
        opt_view(r) == str_at(text@, strs_view(path@)),
        r is Some && path@.len() > 0 ==> edit_path_ok(text@, strs_view(path@)),
{
    match toml_edit_node(text, path) {
        TomlNode::Str(s) => Some(s),
        _ => None,
    }
}

/// A manifest file: where it lives and its text.
#[derive(Debug)]
pub struct LocalManifest {
    pub path: PathBuf,
    pub text: String,
}

impl LocalManifest {
    /// The manifest at `path` with the given content; fails (`invalid
    /// TOML in <path>`) where `toml_edit` cannot parse it.
    pub fn try_new(path: &Path, content: String) -> (r: Result<Self, PromoteError>)
        ensures
            toml_edit_node_at(content@, Seq::empty()) is Invalid <==> r is Err,
            r matches Ok(m) ==> m.text == content,
            r matches Err(e) ==> (e matches PromoteError::Other(m) && has_prefix(
                m@,
                "invalid TOML in "@,
            )),
    {
        let root: Vec<String> = Vec::new();
        assert(strs_view(root@) =~= Seq::<Seq<char>>::empty());
        match toml_edit_node(content.as_str(), &root) {
            TomlNode::Invalid => {
                let shown = path_text(path);
                let m = cat("invalid TOML in ", shown.as_str());
                proof {
                    reveal_strlit("invalid TOML in ");
                    assert(m@.subrange(0, "invalid TOML in "@.len() as int) =~= "invalid TOML in "@);
                }
                Err(PromoteError::Other(m))
            },
            _ => Ok(LocalManifest { path: path_buf(path), text: content }),
        }
    }

    /// `[package].name`, if it is a string.
    pub fn package_name(&self) -> (r: Option<String>)
        ensures
            opt_view(r) == str_at(self.text@, name_path()),
    {
        string_at(self.text.as_str(), &keys2("package", "name"))
    }

    /// `[package].version`, if it is a string.
    pub fn package_version(&self) -> (r: Option<String>)
        ensures
            opt_view(r) == str_at(self.text@, version_path()),
            r is Some ==> edit_path_ok(self.text@, version_path()),
    {
        string_at(self.text.as_str(), &keys2("package", "version"))
    }

    /// Whether the package version is inherited from the workspace
    /// (`version.workspace = true`).
    pub fn version_is_inherited(&self) -> (r: bool)
        ensures
            r == spec_version_inherited(self.text@),
    {
        match toml_edit_node(self.text.as_str(), &keys2("package", "version")) {
            TomlNode::Table(_) => {
                let p = keys3("package", "version", "workspace");
                assert(strs_view(p@) =~= version_path().push("workspace"@));
                match toml_edit_node(self.text.as_str(), &p) {
                    TomlNode::Bool(b) => b,
                    _ => false,
                }
            },
            _ => false,
        }
    }

    /// `[workspace.package].version`, where semver accepts it.
    pub fn get_workspace_version(&self) -> (r: Option<Version>)
        ensures
            r matches Some(v) ==> spec_workspace_version(self.text@) == Some(v@),
            r is None ==> spec_workspace_version(self.text@) is None,
            r is Some ==> edit_path_ok(self.text@, workspace_version_path()),
    {
        match string_at(self.text.as_str(), &keys3("workspace", "package", "version")) {
            Some(s) => match Version::parse(s.as_str()) {
                Ok(v) => Some(v),
                Err(_) => None,
            },
            None => None,
        }
    }

    /// The workspace members, when `[workspace].members` is an array
    /// (its strings, in order).
    pub fn workspace_members(&self) -> (r: Option<Vec<String>>)
        ensures
            r matches Some(v) ==> spec_members(self.text@) == Some(strs_view(v@)),
            r is None ==> spec_members(self.text@) is None,
    {
        match toml_edit_node(self.text.as_str(), &keys2("workspace", "members")) {
            TomlNode::Array(a) => {
                let ghost av = crate::toml_doc::opts_view(a@);
                let mut r: Vec<String> = Vec::new();
                let mut i: usize = 0;
                while i < a.len()
                    invariant
                        i <= a@.len(),
                        av == crate::toml_doc::opts_view(a@),
                        strs_view(r@) == present(av.subrange(0, i as int)),
                    decreases a@.len() - i,
                {
                    let ghost before = r@;
                    assert(av.subrange(0, i + 1).drop_last() =~= av.subrange(0, i as int));
                    match &a[i] {
                        Some(s) => {
                            r.push(s.clone());
                            assert(strs_view(r@) =~= strs_view(before).push(s@));
                        },
                        None => {},
                    }
                    i = i + 1;
                }
                assert(av.subrange(0, a@.len() as int) =~= av);
                Some(r)
            },
            _ => None,
        }
    }

    /// Sets `[package].version`, keeping the rest of the text.
    pub fn set_package_version(&mut self, version: &Version)
        requires
            edit_path_ok(old(self).text@, version_path()),
        ensures
            final(self).text@ == toml_edit_set_text(
                old(self).text@,
                version_path(),
                version_text(version@),
            ),
            final(self).path == old(self).path,
    {
        let path = keys2("package", "version");
        let v = version.to_text();
        self.text = toml_edit_set(self.text.as_str(), &path, v.as_str());
    }

    /// Sets `[workspace.package].version`, keeping the rest of the text.
    pub fn set_workspace_version(&mut self, version: &Version)
        requires
            edit_path_ok(old(self).text@, workspace_version_path()),
        ensures
            final(self).text@ == toml_edit_set_text(
                old(self).text@,
                workspace_version_path(),
                version_text(version@),
            ),
            final(self).path == old(self).path,
    {
        let path = keys3("workspace", "package", "version");
        let v = version.to_text();
        self.text = toml_edit_set(self.text.as_str(), &path, v.as_str());
    }
}

} // verus!
