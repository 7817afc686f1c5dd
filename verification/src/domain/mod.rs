//! Core domain values: registries, stages, pipelines, crates and errors.

pub mod deferral;
pub mod traits;
pub mod depgraph;
pub mod local_manifest;
pub mod manifest;
pub mod pipeline;
pub mod promote_lock;
pub mod version;

use std::path::{Path, PathBuf};
use vstd::prelude::*;

use crate::text::{cat, cat3, owned};
use version::BumpLevel;

verus! {

/// `std::path::Path`, carried through opaquely.
#[verifier::external_type_specification]
#[verifier::external_body]
pub struct ExPath(Path);

/// `std::path::PathBuf`, carried through opaquely.
#[verifier::external_type_specification]
#[verifier::external_body]
pub struct ExPathBuf(PathBuf);

/// Clones a path (`PathBuf::clone`).
#[verifier::external_body]
pub(crate) fn clone_path(p: &PathBuf) -> (r: PathBuf)
    ensures
        r == *p,
{
    p.clone()
}

/// `PathBuf::as_path`.
#[verifier::external_body]
pub(crate) fn as_path(p: &PathBuf) -> &Path {
    p.as_path()
}

/// Clones an optional string.
pub fn clone_opt_string(s: &Option<String>) -> (r: Option<String>)
    ensures
        r == *s,
{
    match s {
        Some(v) => Some(v.clone()),
        None => None,
    }
}

/// Per-package configuration overrides from `[packages.<name>]`.
#[derive(Debug)]
pub struct PackageOverride {
    pub autobump: Option<BumpLevel>,
    pub pipeline: Option<String>,
    pub publish: Option<bool>,
}

impl Clone for PackageOverride {
    fn clone(&self) -> (r: Self)
        ensures
            r == *self,
    {
        PackageOverride {
            autobump: self.autobump,
            pipeline: clone_opt_string(&self.pipeline),
            publish: self.publish,
        }
    }
}

/// A named cargo registry target.
#[derive(Debug)]
pub struct Registry {
    /// Display name (e.g. "cratebox", "crates-io")
    pub name: String,
    /// Name as known to `cargo publish --registry <cargo_name>`.
    /// `None` means the default registry (crates.io).
    pub cargo_name: Option<String>,
    /// Optional HTTP API URL for querying crate listings.
    pub api_url: Option<String>,
    /// Whether to prompt for confirmation before publishing.
    pub confirm: bool,
}

impl Clone for Registry {
    fn clone(&self) -> (r: Self)
        ensures
            r == *self,
    {
        Registry {
            name: self.name.clone(),
            cargo_name: clone_opt_string(&self.cargo_name),
            api_url: clone_opt_string(&self.api_url),
            confirm: self.confirm,
        }
    }
}

impl Registry {
    /// A registry published to under its own name, without an API URL
    /// and without confirmation.
    pub fn new(name: &str) -> (r: Self)
        ensures
            r.name@ == name@,
            r.cargo_name matches Some(c) && c@ == name@,
            r.api_url is None,
            !r.confirm,
    {
        Registry { cargo_name: Some(owned(name)), name: owned(name), api_url: None, confirm: false }
    }

    /// The same registry with an API URL.
    pub fn with_api_url(self, url: &str) -> (r: Self)
        ensures
            r.name == self.name,
            r.cargo_name == self.cargo_name,
            r.api_url matches Some(u) && u@ == url@,
            r.confirm == self.confirm,
    {
        let mut s = self;
        s.api_url = Some(owned(url));
        s
    }

    /// The same registry, asking for confirmation before publishing.
    pub fn with_confirm(self) -> (r: Self)
        ensures
            r == (Registry { confirm: true, ..self }),
    {
        let mut s = self;
        s.confirm = true;
        s
    }

    /// The same registry without a cargo name: `cargo publish` then names
    /// it by its display name.
    pub fn without_cargo_name(self) -> (r: Self)
        ensures
            r == (Registry { cargo_name: None, ..self }),
    {
        let mut s = self;
        s.cargo_name = None;
        s
    }

    /// The name passed to `cargo publish --registry`: the cargo name when
    /// set, else the display name.
    pub open spec fn spec_publish_name(&self) -> Seq<char> {
        match self.cargo_name {
            Some(c) => c@,
            None => self.name@,
        }
    }

    /// See [`Registry::spec_publish_name`].
    pub fn publish_name(&self) -> (r: &str)
        ensures
            r@ == self.spec_publish_name(),
    {
        match &self.cargo_name {
            Some(c) => c.as_str(),
            None => self.name.as_str(),
        }
    }
}

/// A stage in a promotion pipeline — publish to one registry.
#[derive(Debug)]
pub struct Stage {
    pub registry: Registry,
}

impl Clone for Stage {
    fn clone(&self) -> (r: Self)
        ensures
            r == *self,
    {
        Stage { registry: self.registry.clone() }
    }
}

/// An ordered sequence of stages a crate moves through.
#[derive(Debug)]
pub struct Pipeline {
    pub name: String,
    pub stages: Vec<Stage>,
}

/// Clones a list of stages element by element.
pub fn clone_stages(v: &Vec<Stage>) -> (r: Vec<Stage>)
    ensures
        r@ == v@,
{
    let mut r: Vec<Stage> = Vec::new();
    let mut i: usize = 0;
    while i < v.len()
        invariant
            i <= v@.len(),
            r@ == v@.subrange(0, i as int),
        decreases v@.len() - i,
    {
        r.push(v[i].clone());
        assert(r@ =~= v@.subrange(0, i + 1));
        i = i + 1;
    }
    assert(v@.subrange(0, v@.len() as int) =~= v@);
    r
}

impl Clone for Pipeline {
    fn clone(&self) -> (r: Self)
        ensures
            r.name == self.name,
            r.stages@ == self.stages@,
    {
        Pipeline { name: self.name.clone(), stages: clone_stages(&self.stages) }
    }
}

impl Pipeline {
    /// Whether some stage of the pipeline publishes to registry `name`.
    pub open spec fn has_stage(&self, name: Seq<char>) -> bool {
        exists|i: int| 0 <= i < self.stages@.len() && #[trigger] self.stages@[i].registry.name@ == name
    }

    /// The position of the first stage named `name`.
    pub open spec fn first_stage_index(&self, name: Seq<char>) -> int {
        choose|i: int|
            0 <= i < self.stages@.len() && self.stages@[i].registry.name@ == name && forall|j: int|
                0 <= j < i ==> #[trigger] self.stages@[j].registry.name@ != name
    }

    /// Finds the first stage named `name` (`Iterator::position`).
    pub fn position(&self, name: &str) -> (r: Option<usize>)
        ensures
            r is None <==> !self.has_stage(name@),
            r matches Some(i) ==> {
                &&& i < self.stages@.len()
                &&& self.stages@[i as int].registry.name@ == name@
                &&& forall|j: int| 0 <= j < i ==> #[trigger] self.stages@[j].registry.name@ != name@
                &&& i == self.first_stage_index(name@)
            },
    {
        let mut i: usize = 0;
        while i < self.stages.len()
            invariant
                i <= self.stages@.len(),
                forall|j: int| 0 <= j < i ==> #[trigger] self.stages@[j].registry.name@ != name@,
            decreases self.stages@.len() - i,
        {
            if string_eq(&self.stages[i].registry.name, name) {
                proof {
                    let k = self.first_stage_index(name@);
                    assert(0 <= k < self.stages@.len() && self.stages@[k].registry.name@ == name@
                        && forall|j: int| 0 <= j < k ==> #[trigger] self.stages@[j].registry.name@ != name@) by {
                        assert(0 <= i < self.stages@.len() && self.stages@[i as int].registry.name@ == name@
                            && forall|j: int| 0 <= j < i ==> #[trigger] self.stages@[j].registry.name@ != name@);
                    }
                    if k < i {
                        assert(self.stages@[k].registry.name@ != name@);
                    }
                    if k > i {
                        assert(self.stages@[i as int].registry.name@ != name@);
                    }
                }
                return Some(i);
            }
            i = i + 1;
        }
        None
    }
}

/// Compares a string with a string slice.
pub fn string_eq(a: &String, b: &str) -> (r: bool)
    ensures
        r == (a@ == b@),
{
    let t = owned(b);
    *a == t
}

/// Reference to a specific crate to publish.
#[derive(Debug)]
pub struct CrateRef {
    pub name: String,
    pub version: String,
    pub manifest_path: PathBuf,
}

impl Clone for CrateRef {
    fn clone(&self) -> (r: Self)
        ensures
            r == *self,
    {
        CrateRef {
            name: self.name.clone(),
            version: self.version.clone(),
            manifest_path: clone_path(&self.manifest_path),
        }
    }
}

/// Options that apply to any publish operation.
#[derive(Debug, Clone, Copy)]
pub struct PublishOpts {
    pub allow_dirty: bool,
    pub dry_run: bool,
    pub skip_confirm: bool,
    pub force: bool,
}

impl Default for PublishOpts {
    fn default() -> (r: Self)
        ensures
            !r.allow_dirty && !r.dry_run && !r.skip_confirm && !r.force,
    {
        PublishOpts { allow_dirty: false, dry_run: false, skip_confirm: false, force: false }
    }
}

/// The arguments of `cargo publish` for a registry, without the manifest
/// path: `publish --registry <name>`, then `--allow-dirty` and
/// `--dry-run` where the options ask for them. The registry is always
/// named, so cargo's default registry setting never decides.
pub open spec fn spec_publish_args(registry: Registry, opts: PublishOpts) -> Seq<Seq<char>> {
    seq!["publish"@, "--registry"@, registry.spec_publish_name()] + (if opts.allow_dirty {
        seq!["--allow-dirty"@]
    } else {
        Seq::empty()
    }) + (if opts.dry_run {
        seq!["--dry-run"@]
    } else {
        Seq::empty()
    })
}

/// See [`spec_publish_args`].
pub fn publish_args(registry: &Registry, opts: &PublishOpts) -> (r: Vec<String>)
    ensures
        r@.map_values(|s: String| s@) == spec_publish_args(*registry, *opts),
{
    let mut args: Vec<String> = Vec::new();
    args.push(owned("publish"));
    args.push(owned("--registry"));
    args.push(owned(registry.publish_name()));
    if opts.allow_dirty {
        args.push(owned("--allow-dirty"));
    }
    if opts.dry_run {
        args.push(owned("--dry-run"));
    }
    proof {
        assert(args@.map_values(|s: String| s@) =~= spec_publish_args(*registry, *opts));
    }
    args
}

/// Info about a crate in a registry.
#[derive(Debug)]
pub struct CrateInfo {
    pub name: String,
    pub max_version: String,
}

impl Clone for CrateInfo {
    fn clone(&self) -> (r: Self)
        ensures
            r == *self,
    {
        CrateInfo { name: self.name.clone(), max_version: self.max_version.clone() }
    }
}

/// Errors of promotion workflows.
#[derive(Debug)]
pub enum PromoteError {
    PublishFailed { registry: String, reason: String },
    QueryFailed { registry: String, reason: String },
    StageNotFound { pipeline: String, stage: String },
    NoNextStage { pipeline: String, stage: String },
    RegistryNotFound { name: String },
    PipelineNotFound { name: String },
    BranchPipelineNotConfigured,
    UnknownBumpLevel { level: String },
    Aborted,
    Other(String),
}

impl Clone for PromoteError {
    fn clone(&self) -> (r: Self)
        ensures
            r == *self,
    {
        match self {
            PromoteError::PublishFailed { registry, reason } => PromoteError::PublishFailed {
                registry: registry.clone(),
                reason: reason.clone(),
            },
            PromoteError::QueryFailed { registry, reason } => PromoteError::QueryFailed {
                registry: registry.clone(),
                reason: reason.clone(),
            },
            PromoteError::StageNotFound { pipeline, stage } => PromoteError::StageNotFound {
                pipeline: pipeline.clone(),
                stage: stage.clone(),
            },
            PromoteError::NoNextStage { pipeline, stage } => PromoteError::NoNextStage {
                pipeline: pipeline.clone(),
                stage: stage.clone(),
            },
            PromoteError::RegistryNotFound { name } => PromoteError::RegistryNotFound {
                name: name.clone(),
            },
            PromoteError::PipelineNotFound { name } => PromoteError::PipelineNotFound {
                name: name.clone(),
            },
            PromoteError::BranchPipelineNotConfigured => PromoteError::BranchPipelineNotConfigured,
            PromoteError::UnknownBumpLevel { level } => PromoteError::UnknownBumpLevel {
                level: level.clone(),
            },
            PromoteError::Aborted => PromoteError::Aborted,
            PromoteError::Other(m) => PromoteError::Other(m.clone()),
        }
    }
}

impl PromoteError {
    /// The human-readable message of an error.
    pub open spec fn spec_message(&self) -> Seq<char> {
        match self {
            PromoteError::PublishFailed { registry, reason } => "publish failed for registry '"@
                + registry@ + "': "@ + reason@,
            PromoteError::QueryFailed { registry, reason } => "registry query failed for '"@
                + registry@ + "': "@ + reason@,
            PromoteError::StageNotFound { pipeline, stage } => "pipeline '"@ + pipeline@
                + "' has no stage named '"@ + stage@ + "'"@,
            PromoteError::NoNextStage { pipeline, stage } => "stage '"@ + stage@
                + "' is the last stage in pipeline '"@ + pipeline@ + "' — nothing to promote to"@,
            PromoteError::RegistryNotFound { name } => "registry '"@ + name@
                + "' not found in configuration"@,
            PromoteError::PipelineNotFound { name } => "pipeline '"@ + name@
                + "' not found in configuration"@,
            PromoteError::BranchPipelineNotConfigured => "branch pipeline not configured in promote.toml"@,
            PromoteError::UnknownBumpLevel { level } => "unknown bump level '"@ + level@
                + "', expected patch|minor|major"@,
            PromoteError::Aborted => "user aborted"@,
            PromoteError::Other(m) => m@,
        }
    }

    /// The human-readable message of this error (what `Display` shows).
    pub fn message(&self) -> (s: String)
        ensures
            s@ == self.spec_message(),
    {
        match self {
            PromoteError::PublishFailed { registry, reason } => {
                let a = cat3("publish failed for registry '", registry.as_str(), "': ");
                cat(a.as_str(), reason.as_str())
            },
            PromoteError::QueryFailed { registry, reason } => {
                let a = cat3("registry query failed for '", registry.as_str(), "': ");
                cat(a.as_str(), reason.as_str())
            },
            PromoteError::StageNotFound { pipeline, stage } => {
                let a = cat3("pipeline '", pipeline.as_str(), "' has no stage named '");
                cat3(a.as_str(), stage.as_str(), "'")
            },
            PromoteError::NoNextStage { pipeline, stage } => {
                let a = cat3("stage '", stage.as_str(), "' is the last stage in pipeline '");
                cat3(a.as_str(), pipeline.as_str(), "' — nothing to promote to")
            },
            PromoteError::RegistryNotFound { name } => cat3(
                "registry '",
                name.as_str(),
                "' not found in configuration",
            ),
            PromoteError::PipelineNotFound { name } => cat3(
                "pipeline '",
                name.as_str(),
                "' not found in configuration",
            ),
            PromoteError::BranchPipelineNotConfigured => owned(
                "branch pipeline not configured in promote.toml",
            ),
            PromoteError::UnknownBumpLevel { level } => cat3(
                "unknown bump level '",
                level.as_str(),
                "', expected patch|minor|major",
            ),
            PromoteError::Aborted => owned("user aborted"),
            PromoteError::Other(m) => m.clone(),
        }
    }
}

} // verus!
