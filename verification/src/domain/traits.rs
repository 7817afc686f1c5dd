//! Ports that isolate promotion workflows from external systems.
//!
//! Adapters implement these traits. Each method comes with a spec
//! function naming the answers the implementation can give for given
//! arguments (`r` below); an implementation that does not describe its
//! answers admits every answer. Contracts of the library say what is
//! handed to a port and that what it returns is one of its answers.

use vstd::prelude::*;

use super::deferral::Deferral;
use super::{CrateInfo, CrateRef, Pipeline, PromoteError, PublishOpts, Registry, Stage};

verus! {

/// Port: publish a crate to a registry.
pub trait Publisher {
    /// `r` is an answer to publishing `krate` to `registry` with `opts`.
    open spec fn published(&self, krate: CrateRef, registry: Registry, opts: PublishOpts, r: Result<
        (),
        PromoteError,
    >) -> bool {
        true
    }

    /// Publishes a crate to a registry with the requested options.
    fn publish(&self, krate: &CrateRef, registry: &Registry, opts: &PublishOpts) -> (r: Result<
        (),
        PromoteError,
    >)
        ensures
            self.published(*krate, *registry, *opts, r),
    ;
}

impl<T: Publisher> Publisher for &T {
    open spec fn published(&self, krate: CrateRef, registry: Registry, opts: PublishOpts, r: Result<
        (),
        PromoteError,
    >) -> bool {
        (**self).published(krate, registry, opts, r)
    }

    fn publish(&self, krate: &CrateRef, registry: &Registry, opts: &PublishOpts) -> (r: Result<
        (),
        PromoteError,
    >) {
        (**self).publish(krate, registry, opts)
    }
}

/// Port: query a registry for crate information.
pub trait RegistryQuery {
    /// `r` is an answer to listing `registry`.
    open spec fn listed(&self, registry: Registry, r: Result<Vec<CrateInfo>, PromoteError>) -> bool {
        true
    }

    /// `r` is an answer to asking whether `name@version` is in `registry`.
    open spec fn exists_answer(
        &self,
        registry: Registry,
        name: Seq<char>,
        version: Seq<char>,
        r: Result<bool, PromoteError>,
    ) -> bool {
        true
    }

    /// Lists crates and their latest versions from a registry.
    fn list_crates(&self, registry: &Registry) -> (r: Result<Vec<CrateInfo>, PromoteError>)
        ensures
            self.listed(*registry, r),
    ;

    /// Check whether `name@version` already exists in the registry. A
    /// registry that cannot tell answers `Ok(false)`. Every query says
    /// how it answers, so that the answer is the query's own: a default
    /// body could not be held to an answer that an implementation names.
    fn crate_exists(&self, registry: &Registry, name: &str, version: &str) -> (r: Result<
        bool,
        PromoteError,
    >)
        ensures
            self.exists_answer(*registry, name@, version@, r),
    ;
}

/// Port: perform fast-forward merges between branches.
pub trait BranchMerger {
    /// `r` is an answer to fast-forwarding `target` to `source`.
    open spec fn merged(&self, source: Seq<char>, target: Seq<char>, r: Result<(), PromoteError>) -> bool {
        true
    }

    /// Fast-forwards the target branch to the source branch.
    fn fast_forward(&self, source: &str, target: &str) -> (r: Result<(), PromoteError>)
        ensures
            self.merged(source@, target@, r),
    ;
}

impl<T: BranchMerger> BranchMerger for &T {
    open spec fn merged(&self, source: Seq<char>, target: Seq<char>, r: Result<(), PromoteError>) -> bool {
        (**self).merged(source, target, r)
    }

    fn fast_forward(&self, source: &str, target: &str) -> (r: Result<(), PromoteError>) {
        (**self).fast_forward(source, target)
    }
}

/// Port: push branches and tags to a remote.
pub trait RemotePusher {
    /// `r` is an answer to pushing `branch`.
    open spec fn pushed_branch(&self, branch: Seq<char>, r: Result<(), PromoteError>) -> bool {
        true
    }

    /// `r` is an answer to pushing `tag`.
    open spec fn pushed_tag(&self, tag: Seq<char>, r: Result<(), PromoteError>) -> bool {
        true
    }

    /// Pushes a branch to the configured remote.
    fn push_branch(&self, branch: &str) -> (r: Result<(), PromoteError>)
        ensures
            self.pushed_branch(branch@, r),
    ;

    /// Pushes a tag to the configured remote.
    fn push_tag(&self, tag: &str) -> (r: Result<(), PromoteError>)
        ensures
            self.pushed_tag(tag@, r),
    ;
}

impl<T: RemotePusher> RemotePusher for &T {
    open spec fn pushed_branch(&self, branch: Seq<char>, r: Result<(), PromoteError>) -> bool {
        (**self).pushed_branch(branch, r)
    }

    open spec fn pushed_tag(&self, tag: Seq<char>, r: Result<(), PromoteError>) -> bool {
        (**self).pushed_tag(tag, r)
    }

    fn push_branch(&self, branch: &str) -> (r: Result<(), PromoteError>) {
        (**self).push_branch(branch)
    }

    fn push_tag(&self, tag: &str) -> (r: Result<(), PromoteError>) {
        (**self).push_tag(tag)
    }
}

/// Port: create and manage git tags.
pub trait Tagger {
    /// `r` is an answer to creating tag `name` with `message`.
    open spec fn tagged(&self, name: Seq<char>, message: Seq<char>, r: Result<(), PromoteError>) -> bool {
        true
    }

    /// Creates a tag with the given name and message.
    fn create_tag(&self, name: &str, message: &str) -> (r: Result<(), PromoteError>)
        ensures
            self.tagged(name@, message@, r),
    ;
}

impl<T: Tagger> Tagger for &T {
    open spec fn tagged(&self, name: Seq<char>, message: Seq<char>, r: Result<(), PromoteError>) -> bool {
        (**self).tagged(name, message, r)
    }

    fn create_tag(&self, name: &str, message: &str) -> (r: Result<(), PromoteError>) {
        (**self).create_tag(name, message)
    }
}

/// Port: stage, commit, and push changes to a local repository.
pub trait GitCommitter {
    /// `r` is an answer to staging `files`.
    open spec fn staged(&self, files: Seq<Seq<char>>, r: Result<(), PromoteError>) -> bool {
        true
    }

    /// `r` is an answer to committing with `message`.
    open spec fn committed(&self, message: Seq<char>, r: Result<(), PromoteError>) -> bool {
        true
    }

    /// `r` is an answer to pushing `HEAD`.
    open spec fn pushed_head(&self, r: Result<(), PromoteError>) -> bool {
        true
    }

    /// Stages the given repository-relative paths.
    fn stage(&self, files: &[&str]) -> (r: Result<(), PromoteError>)
        ensures
            self.staged(file_names(files@), r),
    ;

    /// Commits staged changes with the given message.
    fn commit(&self, message: &str) -> (r: Result<(), PromoteError>)
        ensures
            self.committed(message@, r),
    ;

    /// Pushes the current `HEAD` to the configured remote.
    fn push_head(&self) -> (r: Result<(), PromoteError>)
        ensures
            self.pushed_head(r),
    ;
}

/// The texts of a list of file names.
pub open spec fn file_names(files: Seq<&str>) -> Seq<Seq<char>> {
    files.map_values(|f: &str| f@)
}

impl<T: GitCommitter> GitCommitter for &T {
    open spec fn staged(&self, files: Seq<Seq<char>>, r: Result<(), PromoteError>) -> bool {
        (**self).staged(files, r)
    }

    open spec fn committed(&self, message: Seq<char>, r: Result<(), PromoteError>) -> bool {
        (**self).committed(message, r)
    }

    open spec fn pushed_head(&self, r: Result<(), PromoteError>) -> bool {
        (**self).pushed_head(r)
    }

    fn stage(&self, files: &[&str]) -> (r: Result<(), PromoteError>) {
        (**self).stage(files)
    }

    fn commit(&self, message: &str) -> (r: Result<(), PromoteError>) {
        (**self).commit(message)
    }

    fn push_head(&self) -> (r: Result<(), PromoteError>) {
        (**self).push_head()
    }
}

/// Composite port: all local git operations needed by the pipeline.
/// Every type with the four git ports has it.
pub trait GitOps {
    /// See [`BranchMerger::merged`].
    open spec fn ops_merged(&self, source: Seq<char>, target: Seq<char>, r: Result<(), PromoteError>) -> bool {
        true
    }

    /// See [`RemotePusher::pushed_branch`].
    open spec fn ops_pushed_branch(&self, branch: Seq<char>, r: Result<(), PromoteError>) -> bool {
        true
    }

    /// See [`RemotePusher::pushed_tag`].
    open spec fn ops_pushed_tag(&self, tag: Seq<char>, r: Result<(), PromoteError>) -> bool {
        true
    }

    /// See [`Tagger::tagged`].
    open spec fn ops_tagged(&self, name: Seq<char>, message: Seq<char>, r: Result<(), PromoteError>) -> bool {
        true
    }

    /// See [`GitCommitter::staged`].
    open spec fn ops_staged(&self, files: Seq<Seq<char>>, r: Result<(), PromoteError>) -> bool {
        true
    }

    /// See [`GitCommitter::committed`].
    open spec fn ops_committed(&self, message: Seq<char>, r: Result<(), PromoteError>) -> bool {
        true
    }

    /// See [`GitCommitter::pushed_head`].
    open spec fn ops_pushed_head(&self, r: Result<(), PromoteError>) -> bool {
        true
    }

    /// See [`BranchMerger::fast_forward`].
    fn fast_forward(&self, source: &str, target: &str) -> (r: Result<(), PromoteError>)
        ensures
            self.ops_merged(source@, target@, r),
    ;

    /// See [`RemotePusher::push_branch`].
    fn push_branch(&self, branch: &str) -> (r: Result<(), PromoteError>)
        ensures
            self.ops_pushed_branch(branch@, r),
    ;

    /// See [`RemotePusher::push_tag`].
    fn push_tag(&self, tag: &str) -> (r: Result<(), PromoteError>)
        ensures
            self.ops_pushed_tag(tag@, r),
    ;

    /// See [`Tagger::create_tag`].
    fn create_tag(&self, name: &str, message: &str) -> (r: Result<(), PromoteError>)
        ensures
            self.ops_tagged(name@, message@, r),
    ;

    /// See [`GitCommitter::stage`].
    fn stage(&self, files: &[&str]) -> (r: Result<(), PromoteError>)
        ensures
            self.ops_staged(file_names(files@), r),
    ;

    /// See [`GitCommitter::commit`].
    fn commit(&self, message: &str) -> (r: Result<(), PromoteError>)
        ensures
            self.ops_committed(message@, r),
    ;

    /// See [`GitCommitter::push_head`].
    fn push_head(&self) -> (r: Result<(), PromoteError>)
        ensures
            self.ops_pushed_head(r),
    ;
}

impl<T: BranchMerger + RemotePusher + Tagger + GitCommitter> GitOps for T {
    open spec fn ops_merged(&self, source: Seq<char>, target: Seq<char>, r: Result<(), PromoteError>) -> bool {
        BranchMerger::merged(self, source, target, r)
    }

    open spec fn ops_pushed_branch(&self, branch: Seq<char>, r: Result<(), PromoteError>) -> bool {
        RemotePusher::pushed_branch(self, branch, r)
    }

    open spec fn ops_pushed_tag(&self, tag: Seq<char>, r: Result<(), PromoteError>) -> bool {
        RemotePusher::pushed_tag(self, tag, r)
    }

    open spec fn ops_tagged(&self, name: Seq<char>, message: Seq<char>, r: Result<(), PromoteError>) -> bool {
        Tagger::tagged(self, name, message, r)
    }

    open spec fn ops_staged(&self, files: Seq<Seq<char>>, r: Result<(), PromoteError>) -> bool {
        GitCommitter::staged(self, files, r)
    }

    open spec fn ops_committed(&self, message: Seq<char>, r: Result<(), PromoteError>) -> bool {
        GitCommitter::committed(self, message, r)
    }

    open spec fn ops_pushed_head(&self, r: Result<(), PromoteError>) -> bool {
        GitCommitter::pushed_head(self, r)
    }

    fn fast_forward(&self, source: &str, target: &str) -> (r: Result<(), PromoteError>) {
        BranchMerger::fast_forward(self, source, target)
    }

    fn push_branch(&self, branch: &str) -> (r: Result<(), PromoteError>) {
        RemotePusher::push_branch(self, branch)
    }

    fn push_tag(&self, tag: &str) -> (r: Result<(), PromoteError>) {
        RemotePusher::push_tag(self, tag)
    }

    fn create_tag(&self, name: &str, message: &str) -> (r: Result<(), PromoteError>) {
        Tagger::create_tag(self, name, message)
    }

    fn stage(&self, files: &[&str]) -> (r: Result<(), PromoteError>) {
        GitCommitter::stage(self, files)
    }

    fn commit(&self, message: &str) -> (r: Result<(), PromoteError>) {
        GitCommitter::commit(self, message)
    }

    fn push_head(&self) -> (r: Result<(), PromoteError>) {
        GitCommitter::push_head(self)
    }
}

/// The git ports of a [`GitOps`] value, one by one.
pub struct GitPorts<'a> {
    pub git: &'a dyn GitOps,
}

impl<'a> BranchMerger for GitPorts<'a> {
    open spec fn merged(&self, source: Seq<char>, target: Seq<char>, r: Result<(), PromoteError>) -> bool {
        self.git.ops_merged(source, target, r)
    }

    fn fast_forward(&self, source: &str, target: &str) -> (r: Result<(), PromoteError>) {
        self.git.fast_forward(source, target)
    }
}

impl<'a> RemotePusher for GitPorts<'a> {
    open spec fn pushed_branch(&self, branch: Seq<char>, r: Result<(), PromoteError>) -> bool {
        self.git.ops_pushed_branch(branch, r)
    }

    open spec fn pushed_tag(&self, tag: Seq<char>, r: Result<(), PromoteError>) -> bool {
        self.git.ops_pushed_tag(tag, r)
    }

    fn push_branch(&self, branch: &str) -> (r: Result<(), PromoteError>) {
        self.git.push_branch(branch)
    }

    fn push_tag(&self, tag: &str) -> (r: Result<(), PromoteError>) {
        self.git.push_tag(tag)
    }
}

impl<'a> Tagger for GitPorts<'a> {
    open spec fn tagged(&self, name: Seq<char>, message: Seq<char>, r: Result<(), PromoteError>) -> bool {
        self.git.ops_tagged(name, message, r)
    }

    fn create_tag(&self, name: &str, message: &str) -> (r: Result<(), PromoteError>) {
        self.git.create_tag(name, message)
    }
}

impl<'a> GitCommitter for GitPorts<'a> {
    open spec fn staged(&self, files: Seq<Seq<char>>, r: Result<(), PromoteError>) -> bool {
        self.git.ops_staged(files, r)
    }

    open spec fn committed(&self, message: Seq<char>, r: Result<(), PromoteError>) -> bool {
        self.git.ops_committed(message, r)
    }

    open spec fn pushed_head(&self, r: Result<(), PromoteError>) -> bool {
        self.git.ops_pushed_head(r)
    }

    fn stage(&self, files: &[&str]) -> (r: Result<(), PromoteError>) {
        self.git.stage(files)
    }

    fn commit(&self, message: &str) -> (r: Result<(), PromoteError>) {
        self.git.commit(message)
    }

    fn push_head(&self) -> (r: Result<(), PromoteError>) {
        self.git.push_head()
    }
}

/// Port: drive a crate through pipeline stages.
pub trait PipelineRunner {
    /// `r` is an answer to running `stage` for `krate` with `opts`.
    open spec fn stage_ran(&self, krate: CrateRef, stage: Stage, opts: PublishOpts, r: Result<
        (),
        PromoteError,
    >) -> bool {
        true
    }

    /// `r` is an answer to running all of `pipeline` for `krate`.
    open spec fn full_ran(&self, krate: CrateRef, pipeline: Pipeline, opts: PublishOpts, r: Result<
        (),
        PromoteError,
    >) -> bool {
        true
    }

    /// `r` is an answer to promoting `krate` past `current` in `pipeline`.
    open spec fn next_ran(
        &self,
        krate: CrateRef,
        pipeline: Pipeline,
        current: Seq<char>,
        opts: PublishOpts,
        r: Result<(), PromoteError>,
    ) -> bool {
        true
    }

    /// Publishes a crate through one pipeline stage.
    fn run_stage(&self, krate: &CrateRef, stage: &Stage, opts: &PublishOpts) -> (r: Result<
        (),
        PromoteError,
    >)
        ensures
            self.stage_ran(*krate, *stage, *opts, r),
    ;

    /// Runs every pipeline stage in order.
    fn run_full(&self, krate: &CrateRef, pipeline: &Pipeline, opts: &PublishOpts) -> (r: Result<
        (),
        PromoteError,
    >)
        ensures
            self.full_ran(*krate, *pipeline, *opts, r),
    ;

    /// Publishes a crate to the stage after `current_stage`.
    fn promote_next(
        &self,
        krate: &CrateRef,
        pipeline: &Pipeline,
        current_stage: &str,
        opts: &PublishOpts,
    ) -> (r: Result<(), PromoteError>)
        ensures
            self.next_ran(*krate, *pipeline, current_stage@, *opts, r),
    ;
}

/// Port: persist and query deferral tickets.
pub trait DeferralStore {
    /// `r` is an answer to saving `deferral`.
    open spec fn saved(&self, deferral: Deferral, r: Result<(), PromoteError>) -> bool {
        true
    }

    /// `r` is an answer to loading `ticket`.
    open spec fn loaded(&self, ticket: Seq<char>, r: Result<Deferral, PromoteError>) -> bool {
        true
    }

    /// `r` is an answer to listing every ticket.
    open spec fn listed_all(&self, r: Result<Vec<Deferral>, PromoteError>) -> bool {
        true
    }

    /// `r` is an answer to listing the pending tickets.
    open spec fn listed_pending(&self, r: Result<Vec<Deferral>, PromoteError>) -> bool {
        true
    }

    /// Persists a deferral ticket.
    fn save(&self, deferral: &Deferral) -> (r: Result<(), PromoteError>)
        ensures
            self.saved(*deferral, r),
    ;

    /// Loads a deferral ticket by ID.
    fn load(&self, ticket: &str) -> (r: Result<Deferral, PromoteError>)
        ensures
            self.loaded(ticket@, r),
    ;

    /// Lists every stored deferral ticket.
    fn list_all(&self) -> (r: Result<Vec<Deferral>, PromoteError>)
        ensures
            self.listed_all(r),
    ;

    /// Lists stored deferral tickets that are still pending.
    fn list_pending(&self) -> (r: Result<Vec<Deferral>, PromoteError>)
        ensures
            self.listed_pending(r),
    ;
}

/// Port: notify external systems about promotion events.
pub trait Notifier {
    /// `r` is an answer to notifying about `deferral`.
    open spec fn notified(&self, deferral: Deferral, r: Result<(), PromoteError>) -> bool {
        true
    }

    /// Notifies an external system that a promotion was deferred.
    fn on_deferred(&self, deferral: &Deferral) -> (r: Result<(), PromoteError>)
        ensures
            self.notified(*deferral, r),
    ;
}

/// Result of a fast-forward feasibility check.
#[derive(Debug, Clone, Copy, PartialEq, Eq, Structural)]
pub enum FfStatus {
    /// Both refs point to the same commit — nothing to promote.
    InSync,
    /// `to` is a strict ancestor of `from` — FF merge is possible.
    Promotable,
    /// Branches have diverged — FF is not possible.
    Diverged,
}

/// Port: CI-level branch promote operations (fetch, divergence check, FF
/// merge, push).
pub trait CiBranchPromoter {
    /// Fetches the specified branches from a remote.
    fn fetch(&self, remote: &str, branches: &[&str]) -> Result<(), PromoteError>;

    /// Resolve `{remote}/{branch}` to a short (7-char) SHA.
    fn remote_sha(&self, remote: &str, branch: &str) -> Result<String, PromoteError>;

    /// Classifies whether `to` can be fast-forwarded to `from`.
    fn ff_status(&self, remote: &str, from: &str, to: &str) -> Result<FfStatus, PromoteError>;

    /// Checks out `to` and fast-forwards it to `remote/from`.
    fn checkout_and_ff_merge(&self, remote: &str, from: &str, to: &str) -> Result<
        (),
        PromoteError,
    >;

    /// Pushes a branch to the specified remote.
    fn push_branch_to(&self, remote: &str, branch: &str) -> Result<(), PromoteError>;

    /// Pushes all local tags to the specified remote.
    fn push_all_tags_to(&self, remote: &str) -> Result<(), PromoteError>;
}

/// Port: bump the patch version of a package via cargo-rail.
pub trait RailBumper {
    /// Run `cargo rail release run <package> --bump=patch --skip-publish
    /// --yes`. Returns the new version string.
    fn patch_bump(&self, package: &str) -> Result<String, PromoteError>;
}

/// Port: interact with a code forge (Gitea, GitHub, etc.).
pub trait Forge {
    /// `r` is an answer to creating a release.
    open spec fn released(&self, tag: Seq<char>, name: Seq<char>, body: Seq<char>, r: Result<
        (),
        PromoteError,
    >) -> bool {
        true
    }

    /// `r` is an answer to opening a pull request from `head` into `base`.
    open spec fn pr_opened(
        &self,
        title: Seq<char>,
        body: Seq<char>,
        head: Seq<char>,
        base: Seq<char>,
        r: Result<u64, PromoteError>,
    ) -> bool {
        true
    }

    /// `r` is an answer to commenting `body` on pull request `pr`.
    open spec fn commented(&self, pr: u64, body: Seq<char>, r: Result<(), PromoteError>) -> bool {
        true
    }

    /// `r` is an answer to closing pull request `pr`.
    open spec fn closed(&self, pr: u64, r: Result<(), PromoteError>) -> bool {
        true
    }

    /// Create a release on the forge.
    fn create_release(&self, tag: &str, name: &str, body: &str) -> (r: Result<(), PromoteError>)
        ensures
            self.released(tag@, name@, body@, r),
    ;

    /// Create a pull request. Returns the PR number.
    fn create_pr(&self, title: &str, body: &str, head: &str, base: &str) -> (r: Result<
        u64,
        PromoteError,
    >)
        ensures
            self.pr_opened(title@, body@, head@, base@, r),
    ;

    /// Comment on a pull request (or issue).
    fn comment_pr(&self, pr_number: u64, body: &str) -> (r: Result<(), PromoteError>)
        ensures
            self.commented(pr_number, body@, r),
    ;

    /// Close a pull request.
    fn close_pr(&self, pr_number: u64) -> (r: Result<(), PromoteError>)
        ensures
            self.closed(pr_number, r),
    ;
}

/// No-op implementation of `Forge` for when no forge is configured.
pub struct NoopForge;

impl Forge for NoopForge {
    open spec fn released(&self, tag: Seq<char>, name: Seq<char>, body: Seq<char>, r: Result<
        (),
        PromoteError,
    >) -> bool {
        r is Ok
    }

    open spec fn pr_opened(
        &self,
        title: Seq<char>,
        body: Seq<char>,
        head: Seq<char>,
        base: Seq<char>,
        r: Result<u64, PromoteError>,
    ) -> bool {
        r == Ok::<u64, PromoteError>(0)
    }

    open spec fn commented(&self, pr: u64, body: Seq<char>, r: Result<(), PromoteError>) -> bool {
        r is Ok
    }

    open spec fn closed(&self, pr: u64, r: Result<(), PromoteError>) -> bool {
        r is Ok
    }

    fn create_release(&self, tag: &str, name: &str, body: &str) -> (r: Result<(), PromoteError>)
        ensures
            r is Ok,
    {
        Ok(())
    }

    fn create_pr(&self, title: &str, body: &str, head: &str, base: &str) -> (r: Result<
        u64,
        PromoteError,
    >)
        ensures
            r == Ok::<u64, PromoteError>(0),
    {
        Ok(0)
    }

    fn comment_pr(&self, pr_number: u64, body: &str) -> (r: Result<(), PromoteError>)
        ensures
            r is Ok,
    {
        Ok(())
    }

    fn close_pr(&self, pr_number: u64) -> (r: Result<(), PromoteError>)
        ensures
            r is Ok,
    {
        Ok(())
    }
}

} // verus!
