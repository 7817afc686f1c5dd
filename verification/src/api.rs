//! The library API for driving promotion pipelines programmatically.
//!
//! Reading manifests, walking the source tree and reading promote.lock
//! happen before these methods are called; their results come in as
//! arguments, and every decision is taken here.

use std::path::Path;
use vstd::prelude::*;

use crate::config::{opt_str_view, pipeline_key, BranchPipelineConfig, Config};
use crate::domain::deferral::{
    settled_message, settles_to, spec_ticket_id, status_name_exec, Deferral, DeferralKind, DeferralStatus,
};
use crate::domain::pipeline::{
    bump_files, spec_bump_message, spec_release_message, spec_release_tag,     first_index_of, next_stage, no_next_stage_message, unknown_stage_message, BranchPipeline,
};
use crate::domain::local_manifest::LocalManifest;
use crate::domain::manifest::{describe_manifest, description_of, ManifestDescription};
use crate::domain::promote_lock::{mismatch_message, PromoteLock};
use crate::domain::version::{
    bump_fits, bump_manifest_version, manifest_version, spec_manifest_bump, version_text, Version,
};
use crate::domain::traits::{
    BranchMerger, DeferralStore, Forge, GitCommitter, GitOps, GitPorts, NoopForge, Notifier,
    PipelineRunner, RegistryQuery, RemotePusher, Tagger,
};
use crate::domain::depgraph::{is_topo_order, names_along, release_order, topo_sort, CrateNode};
use crate::domain::{
    string_eq, CrateInfo, CrateRef, Pipeline, PromoteError, PublishOpts, Registry, Stage,
};
use crate::text::{cat, cat3, owned};
use crate::toml_doc::strs_view;

verus! {

/// Parameters for `Api::publish`.
#[derive(Debug)]
pub struct PublishParams<'a> {
    pub path: Option<&'a Path>,
    pub package: Option<&'a str>,
    pub allow_dirty: bool,
    pub force: bool,
    pub pipeline: Option<&'a str>,
    pub registry: Option<&'a str>,
}

/// Parameters for `Api::promote`.
#[derive(Debug)]
pub struct PromoteParams<'a> {
    pub path: Option<&'a Path>,
    pub package: Option<&'a str>,
    pub yes: bool,
    pub dry_run: bool,
    pub pipeline: Option<&'a str>,
    pub from: Option<&'a str>,
}

/// Parameters for `Api::ship`.
#[derive(Debug)]
pub struct ShipParams<'a> {
    pub path: Option<&'a Path>,
    pub package: Option<&'a str>,
    pub allow_dirty: bool,
    pub yes: bool,
    pub force: bool,
    pub pipeline: Option<&'a str>,
}

/// Parameters for `Api::publish_all`.
#[derive(Debug)]
pub struct PublishAllParams<'a> {
    pub root: &'a Path,
    pub allow_dirty: bool,
    pub dry_run: bool,
    pub force: bool,
    pub registry: Option<&'a str>,
    pub skip: &'a [&'a str],
}

/// Result of a `publish_all` operation.
#[derive(Debug)]
pub struct PublishAllResult {
    /// Crates in topological publish order.
    pub publish_order: Vec<String>,
    /// Number of successfully published crates.
    pub ok: usize,
    /// Names of crates that failed to publish.
    pub failed: Vec<String>,
    /// Names of crates blocked by path-only dependencies.
    pub blocked: Vec<String>,
}

impl Default for PublishAllResult {
    fn default() -> (r: Self)
        ensures
            r.publish_order@.len() == 0,
            r.ok == 0,
            r.failed@.len() == 0,
            r.blocked@.len() == 0,
    {
        PublishAllResult { publish_order: Vec::new(), ok: 0, failed: Vec::new(), blocked: Vec::new() }
    }
}

/// The message of an error that names what was missing.
pub open spec fn quoted_message(before: Seq<char>, name: Seq<char>, after: Seq<char>) -> Seq<char> {
    before + "'"@ + name + "'"@ + after
}

/// `Other(<before>'<name>'<after>)`.
fn quoted_error(before: &str, name: &str, after: &str) -> (r: PromoteError)
    ensures
        r matches PromoteError::Other(m) && m@ == quoted_message(before@, name@, after@),
{
    let a = cat3(before, "'", name);
    PromoteError::Other(cat3(a.as_str(), "'", after))
}

/// The options `publish` runs a stage with: confirmation is asked, and
/// nothing is a dry run.
pub open spec fn publish_opts(allow_dirty: bool, force: bool) -> PublishOpts {
    PublishOpts { allow_dirty, dry_run: false, skip_confirm: false, force }
}

/// The message when no branch pipeline is configured.
pub open spec fn no_branch_pipeline_message() -> Seq<char> {
    "branch pipeline not configured in promote.toml"@
}

/// The pipeline a crate goes through: the one asked for, else the one
/// its `[packages.<name>]` override names, else `default`.
pub open spec fn pipeline_for(cfg: Config, crate_name: Seq<char>, asked: Option<Seq<char>>) -> Seq<
    char,
> {
    match asked {
        Some(n) => n,
        None => if cfg.packages.has(crate_name) && cfg.packages.value_of(crate_name).pipeline is Some {
            cfg.packages.value_of(crate_name).pipeline->0@
        } else {
            "default"@
        },
    }
}

/// The registry a command targets when none is named.
pub open spec fn registry_or_default(name: Option<&str>) -> Seq<char> {
    match name {
        Some(n) => n@,
        None => "cratebox"@,
    }
}

/// If autobump applies to the crate (its override, else the global
/// setting), bump its manifest (`manifest`, read from the crate's
/// manifest path) and return the crate at the new version together with
/// the manifest to write back and the version it had; otherwise the
/// crate as it is.
pub fn maybe_autobump(
    krate: CrateRef,
    cfg: &Config,
    manifest: Result<LocalManifest, PromoteError>,
) -> (r: Result<(CrateRef, Option<(LocalManifest, Version)>), PromoteError>)
    requires
        manifest matches Ok(m) ==> (cfg.spec_autobump_for(krate.name@) matches Some(l) ==> (
        manifest_version(m.text@) matches Some(v) ==> bump_fits(v, l))),
    ensures
        cfg.spec_autobump_for(krate.name@) is None ==> (r matches Ok((k, w)) && k == krate
            && w is None),
        cfg.spec_autobump_for(krate.name@) is Some && manifest is Err ==> r == Err::<
            (CrateRef, Option<(LocalManifest, Version)>),
            PromoteError,
        >(manifest->Err_0),
        cfg.spec_autobump_for(krate.name@) is Some && manifest is Ok ==> match spec_manifest_bump(
            manifest->Ok_0.text@,
            cfg.spec_autobump_for(krate.name@)->0,
        ) {
            Some((o, n, t)) => (r matches Ok((k, w)) && k.name == krate.name && k.manifest_path
                == krate.manifest_path && k.version@ == version_text(n) && (w matches Some((m2, old))
                && m2.text@ == t && m2.path == manifest->Ok_0.path && old@ == o)),
            None => r is Err,
        },
{
    let level = match cfg.autobump_for(krate.name.as_str()) {
        Some(l) => l,
        None => {
            return Ok((krate, None));
        },
    };
    let mut m = match manifest {
        Ok(m) => m,
        Err(e) => {
            return Err(e);
        },
    };
    let (old, new) = match bump_manifest_version(&mut m, level) {
        Ok(p) => p,
        Err(e) => {
            return Err(e);
        },
    };
    let CrateRef { name, version: _, manifest_path } = krate;
    Ok((CrateRef { name, version: new.to_text(), manifest_path }, Some((m, old))))
}

/// Library API for driving promotion pipelines programmatically.
pub struct Api {
    config: Config,
    engine: Box<dyn PipelineRunner>,
    registry_query: Box<dyn RegistryQuery>,
    notifier: Box<dyn Notifier>,
    /// The forge given to the builder; none means the no-op forge.
    forge: Option<Box<dyn Forge>>,
    git: Box<dyn GitOps>,
    deferral_store: Box<dyn DeferralStore>,
}

/// Builder for `Api` with injectable dependencies.
pub struct ApiBuilder {
    config: Option<Config>,
    engine: Option<Box<dyn PipelineRunner>>,
    registry_query: Option<Box<dyn RegistryQuery>>,
    notifier: Option<Box<dyn Notifier>>,
    forge: Option<Box<dyn Forge>>,
    git: Option<Box<dyn GitOps>>,
    deferral_store: Option<Box<dyn DeferralStore>>,
}

/// Which parts of an [`ApiBuilder`] have been set.
pub struct BuilderParts {
    pub config: bool,
    pub engine: bool,
    pub registry_query: bool,
    pub notifier: bool,
    pub forge: bool,
    pub git: bool,
    pub deferral_store: bool,
}

/// The required parts not set, in the order `build` checks them.
pub open spec fn missing_parts(p: BuilderParts) -> Seq<Seq<char>> {
    let a: Seq<Seq<char>> = if p.config { Seq::empty() } else { seq!["config"@] };
    let b: Seq<Seq<char>> = if p.engine { Seq::empty() } else { seq!["engine"@] };
    let c: Seq<Seq<char>> = if p.registry_query { Seq::empty() } else { seq!["registry_query"@] };
    let d: Seq<Seq<char>> = if p.notifier { Seq::empty() } else { seq!["notifier"@] };
    let e: Seq<Seq<char>> = if p.git { Seq::empty() } else { seq!["git"@] };
    let f: Seq<Seq<char>> = if p.deferral_store { Seq::empty() } else { seq!["deferral_store"@] };
    a + b + c + d + e + f
}

impl Default for ApiBuilder {
    fn default() -> (r: Self)
        ensures
            r.spec_config() is None,
            r.parts() == (BuilderParts {
                config: false,
                engine: false,
                registry_query: false,
                notifier: false,
                forge: false,
                git: false,
                deferral_store: false,
            }),
    {
        ApiBuilder {
            config: None,
            engine: None,
            registry_query: None,
            notifier: None,
            forge: None,
            git: None,
            deferral_store: None,
        }
    }
}

impl ApiBuilder {
    /// The configuration set so far.
    pub closed spec fn spec_config(self) -> Option<Config> {
        self.config
    }

    /// Which parts have been set.
    pub closed spec fn parts(self) -> BuilderParts {
        BuilderParts {
            config: self.config is Some,
            engine: self.engine is Some,
            registry_query: self.registry_query is Some,
            notifier: self.notifier is Some,
            forge: self.forge is Some,
            git: self.git is Some,
            deferral_store: self.deferral_store is Some,
        }
    }

    pub fn config(self, config: Config) -> (r: Self)
        ensures
            r.spec_config() == Some(config),
            r.parts() == (BuilderParts { config: true, ..self.parts() }),
    {
        let mut b = self;
        b.config = Some(config);
        b
    }

    pub fn engine(self, engine: Box<dyn PipelineRunner>) -> (r: Self)
        ensures
            r.spec_config() == self.spec_config(),
            r.parts() == (BuilderParts { engine: true, ..self.parts() }),
    {
        let mut b = self;
        b.engine = Some(engine);
        b
    }

    pub fn registry_query(self, query: Box<dyn RegistryQuery>) -> (r: Self)
        ensures
            r.spec_config() == self.spec_config(),
            r.parts() == (BuilderParts { registry_query: true, ..self.parts() }),
    {
        let mut b = self;
        b.registry_query = Some(query);
        b
    }

    pub fn notifier(self, notifier: Box<dyn Notifier>) -> (r: Self)
        ensures
            r.spec_config() == self.spec_config(),
            r.parts() == (BuilderParts { notifier: true, ..self.parts() }),
    {
        let mut b = self;
        b.notifier = Some(notifier);
        b
    }

    pub fn forge(self, forge: Box<dyn Forge>) -> (r: Self)
        ensures
            r.spec_config() == self.spec_config(),
            r.parts() == (BuilderParts { forge: true, ..self.parts() }),
    {
        let mut b = self;
        b.forge = Some(forge);
        b
    }

    pub fn git(self, git: Box<dyn GitOps>) -> (r: Self)
        ensures
            r.spec_config() == self.spec_config(),
            r.parts() == (BuilderParts { git: true, ..self.parts() }),
    {
        let mut b = self;
        b.git = Some(git);
        b
    }

    pub fn deferral_store(self, store: Box<dyn DeferralStore>) -> (r: Self)
        ensures
            r.spec_config() == self.spec_config(),
            r.parts() == (BuilderParts { deferral_store: true, ..self.parts() }),
    {
        let mut b = self;
        b.deferral_store = Some(store);
        b
    }

    /// Builds the API; fails naming the first required part not set
    /// (`<part> required`). Without a forge, `NoopForge` is used.
    pub fn build(self) -> (r: Result<Api, PromoteError>)
        ensures
            missing_parts(self.parts()).len() == 0 <==> r is Ok,
            r matches Ok(api) ==> Some(api.cfg()) == self.spec_config(),
            r is Ok && !self.parts().forge ==> forall|
                t: Seq<char>,
                b: Seq<char>,
                h: Seq<char>,
                base: Seq<char>,
                x: Result<u64, PromoteError>,
            | #[trigger] r->Ok_0.pr_opened(t, b, h, base, x) == (x == Ok::<u64, PromoteError>(0)),
            r matches Err(e) ==> (e matches PromoteError::Other(m) && m@ == missing_parts(
                self.parts(),
            )[0] + " required"@),
    {
        proof {
            reveal_strlit("config");
            reveal_strlit("engine");
            reveal_strlit("registry_query");
            reveal_strlit("notifier");
            reveal_strlit("git");
            reveal_strlit("deferral_store");
            reveal_strlit(" required");
            reveal_strlit("config required");
            reveal_strlit("engine required");
            reveal_strlit("registry_query required");
            reveal_strlit("notifier required");
            reveal_strlit("git required");
            reveal_strlit("deferral_store required");
        }
        let ghost before = self.parts();
        let ApiBuilder { config, engine, registry_query, notifier, forge, git, deferral_store } =
            self;
        let config = match config {
            Some(c) => c,
            None => {
                return Err(PromoteError::Other(owned("config required")));
            },
        };
        let engine = match engine {
            Some(e) => e,
            None => {
                return Err(PromoteError::Other(owned("engine required")));
            },
        };
        let registry_query = match registry_query {
            Some(q) => q,
            None => {
                return Err(PromoteError::Other(owned("registry_query required")));
            },
        };
        let notifier = match notifier {
            Some(n) => n,
            None => {
                return Err(PromoteError::Other(owned("notifier required")));
            },
        };
        let git = match git {
            Some(g) => g,
            None => {
                return Err(PromoteError::Other(owned("git required")));
            },
        };
        let deferral_store = match deferral_store {
            Some(s) => s,
            None => {
                return Err(PromoteError::Other(owned("deferral_store required")));
            },
        };
        Ok(Api { config, engine, registry_query, notifier, forge, git, deferral_store })
    }
}

impl Api {
    /// The configuration the API runs with.
    pub closed spec fn cfg(&self) -> Config {
        self.config
    }

    /// `r` is an answer of the pipeline runner to running `stage`.
    pub closed spec fn stage_ran(&self, krate: CrateRef, stage: Stage, opts: PublishOpts, r: Result<(), PromoteError>) -> bool {
        self.engine.stage_ran(krate, stage, opts, r)
    }

    /// `r` is an answer of the pipeline runner to running a whole pipeline.
    pub closed spec fn full_ran(&self, krate: CrateRef, pipeline: Pipeline, opts: PublishOpts, r: Result<(), PromoteError>) -> bool {
        self.engine.full_ran(krate, pipeline, opts, r)
    }

    /// `r` is an answer of the pipeline runner to promoting past `current`.
    pub closed spec fn next_ran(
        &self,
        krate: CrateRef,
        pipeline: Pipeline,
        current: Seq<char>,
        opts: PublishOpts,
        r: Result<(), PromoteError>,
    ) -> bool {
        self.engine.next_ran(krate, pipeline, current, opts, r)
    }

    /// `r` is an answer of the registry query to listing `registry`.
    pub closed spec fn listed(&self, registry: Registry, r: Result<Vec<CrateInfo>, PromoteError>) -> bool {
        self.registry_query.listed(registry, r)
    }

    /// `r` is an answer of git to fast-forwarding `target` to `source`.
    pub closed spec fn git_merged(&self, source: Seq<char>, target: Seq<char>, r: Result<(), PromoteError>) -> bool {
        self.git.ops_merged(source, target, r)
    }

    /// `r` is an answer of git to pushing `branch`.
    pub closed spec fn git_pushed_branch(&self, branch: Seq<char>, r: Result<(), PromoteError>) -> bool {
        self.git.ops_pushed_branch(branch, r)
    }

    /// `r` is an answer of git to pushing `tag`.
    pub closed spec fn git_pushed_tag(&self, tag: Seq<char>, r: Result<(), PromoteError>) -> bool {
        self.git.ops_pushed_tag(tag, r)
    }

    /// `r` is an answer of git to creating tag `name` with `message`.
    pub closed spec fn git_tagged(&self, name: Seq<char>, message: Seq<char>, r: Result<(), PromoteError>) -> bool {
        self.git.ops_tagged(name, message, r)
    }

    /// `r` is an answer of git to staging `files`.
    pub closed spec fn git_staged(&self, files: Seq<Seq<char>>, r: Result<(), PromoteError>) -> bool {
        self.git.ops_staged(files, r)
    }

    /// `r` is an answer of git to committing with `message`.
    pub closed spec fn git_committed(&self, message: Seq<char>, r: Result<(), PromoteError>) -> bool {
        self.git.ops_committed(message, r)
    }

    /// `r` is an answer of git to pushing `HEAD`.
    pub closed spec fn git_pushed_head(&self, r: Result<(), PromoteError>) -> bool {
        self.git.ops_pushed_head(r)
    }

    /// What branching `from` into `to` answers: the fast-forward's error,
    /// else what pushing `to` answers.
    pub open spec fn merge_push(&self, from: Seq<char>, to: Seq<char>, r: Result<(), PromoteError>) -> bool {
        exists|m: Result<(), PromoteError>|
            #[trigger] self.git_merged(from, to, m) && (m is Err ==> r == m) && (m is Ok
                ==> self.git_pushed_branch(to, r))
    }

    /// `r` is an answer of the forge to commenting on pull request `pr`.
    pub closed spec fn pr_commented(&self, pr: u64, body: Seq<char>, r: Result<(), PromoteError>) -> bool {
        match self.forge {
            Some(f) => f.commented(pr, body, r),
            None => NoopForge.commented(pr, body, r),
        }
    }

    /// `r` is an answer of the forge to closing pull request `pr`.
    pub closed spec fn pr_closed(&self, pr: u64, r: Result<(), PromoteError>) -> bool {
        match self.forge {
            Some(f) => f.closed(pr, r),
            None => NoopForge.closed(pr, r),
        }
    }

    /// Opens a pull request on the forge.
    fn forge_create_pr(&self, title: &str, body: &str, head: &str, base: &str) -> (r: Result<
        u64,
        PromoteError,
    >)
        ensures
            self.pr_opened(title@, body@, head@, base@, r),
    {
        match &self.forge {
            Some(f) => f.create_pr(title, body, head, base),
            None => NoopForge.create_pr(title, body, head, base),
        }
    }

    /// Comments on a pull request on the forge.
    fn forge_comment_pr(&self, pr: u64, body: &str) -> (r: Result<(), PromoteError>)
        ensures
            self.pr_commented(pr, body@, r),
    {
        match &self.forge {
            Some(f) => f.comment_pr(pr, body),
            None => NoopForge.comment_pr(pr, body),
        }
    }

    /// Closes a pull request on the forge.
    fn forge_close_pr(&self, pr: u64) -> (r: Result<(), PromoteError>)
        ensures
            self.pr_closed(pr, r),
    {
        match &self.forge {
            Some(f) => f.close_pr(pr),
            None => NoopForge.close_pr(pr),
        }
    }

    /// Filing the new ticket `d`: its PR number is what the forge answered
    /// to opening a PR (titled `title`, body `body_prefix` and the ticket,
    /// from `head` into `base`); it is saved, and only once saved is the
    /// notification sent. The answer is the save's error, else the
    /// notifier's, else the ticket.
    pub open spec fn files_ticket(
        &self,
        d: Deferral,
        title: Seq<char>,
        body_prefix: Seq<char>,
        head: Seq<char>,
        base: Seq<char>,
        r: Result<Deferral, PromoteError>,
    ) -> bool {
        &&& exists|answer: Result<u64, PromoteError>|
            #[trigger] self.pr_opened(title, body_prefix + d.ticket@, head, base, answer)
                && d.pr_number == spec_pr_number(answer)
        &&& exists|sv: Result<(), PromoteError>|
            #[trigger] self.saved(d, sv) && (sv is Err ==> r == Err::<Deferral, PromoteError>(
                sv->Err_0,
            )) && (sv is Ok ==> exists|nv: Result<(), PromoteError>|
                #[trigger] self.notified(d, nv) && (nv is Err ==> r == Err::<Deferral, PromoteError>(
                    nv->Err_0,
                )) && (nv is Ok ==> r == Ok::<Deferral, PromoteError>(d)))
    }

    /// Saving the settled form `x` of `d`: the save's error, else `x`.
    pub open spec fn saves_settled(
        &self,
        d: Deferral,
        target: DeferralStatus,
        reason: Seq<char>,
        r: Result<Deferral, PromoteError>,
    ) -> bool {
        exists|x: Deferral, sv: Result<(), PromoteError>|
            settles_to(d, x, target, reason) && #[trigger] self.saved(x, sv) && (sv is Err ==> r
                == Err::<Deferral, PromoteError>(sv->Err_0)) && (sv is Ok ==> r == Ok::<
                Deferral,
                PromoteError,
            >(x))
    }

    /// The end of confirming `d`: its PR, if any, gets the comment
    /// `Confirmed: <reason>` and is closed (whatever the forge answers),
    /// then the confirmed ticket is saved.
    pub open spec fn confirm_tail(&self, d: Deferral, reason: Seq<char>, r: Result<Deferral, PromoteError>) -> bool {
        &&& d.pr_number is Some ==> exists|c: Result<(), PromoteError>, k: Result<(), PromoteError>|
            #[trigger] self.pr_commented(d.pr_number->0, "Confirmed: "@ + reason, c)
                && #[trigger] self.pr_closed(d.pr_number->0, k)
        &&& self.saves_settled(d, DeferralStatus::Confirmed, reason, r)
    }

    /// The runner was handed the crate of `node` (its name, version and
    /// manifest) with `stage` and `opts`, and answered `r`.
    pub open spec fn ran_crate(&self, node: CrateNode, stage: Stage, opts: PublishOpts, r: Result<
        (),
        PromoteError,
    >) -> bool {
        exists|k: CrateRef|
            k.name@ == node.name@ && k.version@ == node.version@ && k.manifest_path
                == node.manifest_path && #[trigger] self.stage_ran(k, stage, opts, r)
    }

    /// What confirming the loaded ticket `d` (asked for as `ticket`)
    /// answers: a settled ticket is refused; a branch ticket needs the
    /// branch pipeline, the lock and the current hash, equal hashes and a
    /// next stage, and then the fast-forward and push of that stage, whose
    /// error is the answer; after that the PR, if any, is commented on and
    /// closed and the confirmed ticket saved.
    pub open spec fn confirmed_outcome(
        &self,
        ticket: Seq<char>,
        d: Deferral,
        reason: Seq<char>,
        lock: Result<PromoteLock, PromoteError>,
        current_hash: Result<String, PromoteError>,
        r: Result<Deferral, PromoteError>,
    ) -> bool {
        let stages = strs_view(self.cfg().branch_pipeline->0.stages@);
        &&& d.status != DeferralStatus::Pending ==> (r matches Err(PromoteError::Other(m)) && m@
            == settled_message(ticket, d.status))
        &&& d.status == DeferralStatus::Pending && d.kind == DeferralKind::Branch
            && self.cfg().branch_pipeline is None ==> (r matches Err(PromoteError::Other(m)) && m@
            == no_branch_pipeline_message())
        &&& d.status == DeferralStatus::Pending && d.kind == DeferralKind::Branch
            && self.cfg().branch_pipeline is Some && lock is Err ==> r == Err::<Deferral, PromoteError>(
            lock->Err_0,
        )
        &&& d.status == DeferralStatus::Pending && d.kind == DeferralKind::Branch
            && self.cfg().branch_pipeline is Some && lock is Ok && current_hash is Err ==> r == Err::<
            Deferral,
            PromoteError,
        >(current_hash->Err_0)
        &&& d.status == DeferralStatus::Pending && d.kind == DeferralKind::Branch
            && self.cfg().branch_pipeline is Some && lock is Ok && current_hash is Ok
            && lock->Ok_0.source_hash@ != current_hash->Ok_0@ ==> (r matches Err(
            PromoteError::Other(m),
        ) && m@ == mismatch_message(lock->Ok_0.source_hash@, current_hash->Ok_0@))
        &&& d.status == DeferralStatus::Pending && d.kind == DeferralKind::Branch
            && self.cfg().branch_pipeline is Some && lock is Ok && current_hash is Ok
            && lock->Ok_0.source_hash@ == current_hash->Ok_0@ && !stages.contains(d.from_stage@)
            ==> (r matches Err(PromoteError::Other(m)) && m@ == unknown_stage_message(
            "unknown stage "@,
            d.from_stage@,
            ""@,
        ))
        &&& d.status == DeferralStatus::Pending && d.kind == DeferralKind::Branch
            && self.cfg().branch_pipeline is Some && lock is Ok && current_hash is Ok
            && lock->Ok_0.source_hash@ == current_hash->Ok_0@ && stages.contains(d.from_stage@)
            && first_index_of(stages, d.from_stage@) + 1 == stages.len() ==> (r matches Err(
            PromoteError::Other(m),
        ) && m@ == no_next_stage_message(d.from_stage@))
        &&& d.status == DeferralStatus::Pending && d.kind != DeferralKind::Branch
            ==> self.confirm_tail(d, reason, r)
        &&& d.status == DeferralStatus::Pending && d.kind == DeferralKind::Branch
            && self.cfg().branch_pipeline is Some && lock is Ok && current_hash is Ok
            && lock->Ok_0.source_hash@ == current_hash->Ok_0@ && stages.contains(d.from_stage@)
            && first_index_of(stages, d.from_stage@) + 1 < stages.len()
            ==> exists|b: Result<(), PromoteError>|
            #[trigger] self.merge_push(
                d.from_stage@,
                stages[first_index_of(stages, d.from_stage@) + 1],
                b,
            ) && (b is Err ==> r == Err::<Deferral, PromoteError>(b->Err_0)) && (b is Ok
                ==> self.confirm_tail(d, reason, r))
    }

    /// What rejecting the loaded ticket `d` answers: a settled ticket is
    /// refused; otherwise the rejected ticket is saved.
    pub open spec fn rejected_outcome(&self, d: Deferral, reason: Seq<char>, r: Result<
        Deferral,
        PromoteError,
    >) -> bool {
        &&& d.status != DeferralStatus::Pending ==> (r matches Err(PromoteError::Other(m)) && m@
            == settled_message(d.ticket@, d.status))
        &&& d.status == DeferralStatus::Pending ==> self.saves_settled(
            d,
            DeferralStatus::Rejected,
            reason,
            r,
        )
    }

    /// `r` is an answer of the store to loading `ticket`.
    pub closed spec fn store_loaded(&self, ticket: Seq<char>, r: Result<Deferral, PromoteError>) -> bool {
        self.deferral_store.loaded(ticket, r)
    }

    /// `r` is an answer of the store to saving `d`.
    pub closed spec fn saved(&self, d: Deferral, r: Result<(), PromoteError>) -> bool {
        self.deferral_store.saved(d, r)
    }

    /// `r` is an answer of the store to listing every ticket.
    pub closed spec fn listed_all(&self, r: Result<Vec<Deferral>, PromoteError>) -> bool {
        self.deferral_store.listed_all(r)
    }

    /// `r` is an answer of the store to listing the pending tickets.
    pub closed spec fn listed_pending(&self, r: Result<Vec<Deferral>, PromoteError>) -> bool {
        self.deferral_store.listed_pending(r)
    }

    /// `r` is an answer of the notifier about `d`.
    pub closed spec fn notified(&self, d: Deferral, r: Result<(), PromoteError>) -> bool {
        self.notifier.notified(d, r)
    }

    /// `r` is an answer of the forge to opening a pull request.
    pub closed spec fn pr_opened(
        &self,
        title: Seq<char>,
        body: Seq<char>,
        head: Seq<char>,
        base: Seq<char>,
        r: Result<u64, PromoteError>,
    ) -> bool {
        match self.forge {
            Some(f) => f.pr_opened(title, body, head, base, r),
            None => NoopForge.pr_opened(title, body, head, base, r),
        }
    }

    /// Return a builder for full dependency injection.
    pub fn builder() -> (r: ApiBuilder)
        ensures
            r.spec_config() is None,
            missing_parts(r.parts()).len() == 6,
    {
        let b = ApiBuilder::default();
        proof {
            reveal_strlit("config");
        }
        b
    }

    /// Describe local crate versions (see [`describe_manifest`]).
    pub fn status(
        root: Result<LocalManifest, PromoteError>,
        members: &Vec<Result<LocalManifest, PromoteError>>,
    ) -> (r: Result<ManifestDescription, PromoteError>)
        ensures
            description_of(root, members@, r),
    {
        describe_manifest(root, members)
    }

    /// Access the loaded configuration.
    pub fn config(&self) -> (r: &Config)
        ensures
            *r == self.cfg(),
    {
        &self.config
    }

    /// Best-effort PR creation: `None` when the forge answers `0` (a
    /// no-op forge) or fails; a forge error never blocks a deferral.
    fn try_create_pr(&self, title: &str, body: &str, head: &str, base: &str) -> (r: Option<u64>)
        ensures
            r != Some(0u64),
            exists|answer: Result<u64, PromoteError>|
                #[trigger] self.pr_opened(title@, body@, head@, base@, answer) && r == spec_pr_number(
                    answer,
                ),
    {
        let answer = self.forge_create_pr(title, body, head, base);
        assert(self.pr_opened(title@, body@, head@, base@, answer));
        pr_number_of(answer)
    }

    /// The pipeline named `name` (`default` when none is named).
    fn resolve_pipeline(&self, name: Option<&str>) -> (r: Result<&Pipeline, PromoteError>)
        ensures
            self.cfg().pipelines.has(pipeline_key(opt_str_view(name))) ==> r == Ok::<
                &Pipeline,
                PromoteError,
            >(&self.cfg().pipelines.value_of(pipeline_key(opt_str_view(name)))),
            !self.cfg().pipelines.has(pipeline_key(opt_str_view(name))) ==> (r matches Err(
                PromoteError::Other(m),
            ) && m@ == quoted_message("pipeline "@, pipeline_key(opt_str_view(name)), " not found"@)),
    {
        match self.config.pipeline(name) {
            Some(p) => Ok(p),
            None => {
                let key = match name {
                    Some(n) => n,
                    None => "default",
                };
                Err(quoted_error("pipeline ", key, " not found"))
            },
        }
    }

    /// The pipeline a crate goes through: the one asked for, else the
    /// one its package override names, else `default`.
    fn pipeline_for_crate(&self, crate_name: &str, asked: Option<&str>) -> (r: Result<
        &Pipeline,
        PromoteError,
    >)
        ensures
            ({
                let key = pipeline_for(self.cfg(), crate_name@, opt_str_view(asked));
                &&& self.cfg().pipelines.has(key) ==> r == Ok::<&Pipeline, PromoteError>(
                    &self.cfg().pipelines.value_of(key),
                )
                &&& !self.cfg().pipelines.has(key) ==> (r matches Err(PromoteError::Other(m)) && m@
                    == quoted_message("pipeline "@, key, " not found"@))
            }),
    {
        match asked {
            Some(n) => self.resolve_pipeline(Some(n)),
            None => match self.config.package_override(crate_name) {
                Some(o) => match &o.pipeline {
                    Some(p) => self.resolve_pipeline(Some(p.as_str())),
                    None => self.resolve_pipeline(None),
                },
                None => self.resolve_pipeline(None),
            },
        }
    }

    /// The branch pipeline, or the error when none is configured.
    pub fn branch_config(&self) -> (r: Result<&BranchPipelineConfig, PromoteError>)
        ensures
            self.cfg().branch_pipeline matches Some(b) ==> r == Ok::<
                &BranchPipelineConfig,
                PromoteError,
            >(&b),
            self.cfg().branch_pipeline is None ==> (r matches Err(PromoteError::Other(m)) && m@
                == no_branch_pipeline_message()),
    {
        match &self.config.branch_pipeline {
            Some(b) => Ok(b),
            None => Err(PromoteError::Other(owned("branch pipeline not configured in promote.toml"))),
        }
    }

    /// Publish a crate (already resolved, and bumped where autobump
    /// applies) to the first stage of a pipeline, or to a named registry.
    pub fn publish(&self, krate: &CrateRef, params: &PublishParams<'_>) -> (r: Result<
        (),
        PromoteError,
    >)
        ensures
            params.registry is Some && !self.cfg().registries.has(params.registry->0@) ==> (r matches Err(
                PromoteError::Other(m),
            ) && m@ == quoted_message("unknown registry "@, params.registry->0@, ""@)),
            params.registry is None && !self.cfg().pipelines.has(
                pipeline_for(self.cfg(), krate.name@, opt_str_view(params.pipeline)),
            ) ==> (r matches Err(PromoteError::Other(m)) && m@ == quoted_message(
                "pipeline "@,
                pipeline_for(self.cfg(), krate.name@, opt_str_view(params.pipeline)),
                " not found"@,
            )),
            params.registry is None && self.cfg().pipelines.has(
                pipeline_for(self.cfg(), krate.name@, opt_str_view(params.pipeline)),
            ) && self.cfg().pipelines.value_of(
                pipeline_for(self.cfg(), krate.name@, opt_str_view(params.pipeline)),
            ).stages@.len() == 0 ==> (r matches Err(PromoteError::Other(m)) && m@
                == "pipeline has no stages"@),
            params.registry is Some && self.cfg().registries.has(params.registry->0@)
                ==> self.stage_ran(
                *krate,
                Stage { registry: self.cfg().registries.value_of(params.registry->0@) },
                publish_opts(params.allow_dirty, params.force),
                r,
            ),
            params.registry is None && self.cfg().pipelines.has(
                pipeline_for(self.cfg(), krate.name@, opt_str_view(params.pipeline)),
            ) && self.cfg().pipelines.value_of(
                pipeline_for(self.cfg(), krate.name@, opt_str_view(params.pipeline)),
            ).stages@.len() > 0 ==> self.stage_ran(
                *krate,
                self.cfg().pipelines.value_of(
                    pipeline_for(self.cfg(), krate.name@, opt_str_view(params.pipeline)),
                ).stages@[0],
                publish_opts(params.allow_dirty, params.force),
                r,
            ),
    {
        let opts = PublishOpts {
            allow_dirty: params.allow_dirty,
            dry_run: false,
            skip_confirm: false,
            force: params.force,
        };
        match params.registry {
            Some(reg_name) => {
                match self.config.registry(reg_name) {
                    Some(reg) => {
                        let stage = Stage { registry: reg.clone() };
                        self.engine.run_stage(krate, &stage, &opts)
                    },
                    None => Err(quoted_error("unknown registry ", reg_name, "")),
                }
            },
            None => {
                let pl = match self.pipeline_for_crate(krate.name.as_str(), params.pipeline) {
                    Ok(p) => p,
                    Err(e) => {
                        return Err(e);
                    },
                };
                if pl.stages.len() == 0 {
                    return Err(PromoteError::Other(owned("pipeline has no stages")));
                }
                self.engine.run_stage(krate, &pl.stages[0], &opts)
            },
        }
    }

    /// Promote a crate from one pipeline stage (by default the first) to
    /// the next.
    pub fn promote(&self, krate: &CrateRef, params: &PromoteParams<'_>) -> (r: Result<
        (),
        PromoteError,
    >)
        requires
            params.from is None && self.cfg().pipelines.has(
                pipeline_for(self.cfg(), krate.name@, opt_str_view(params.pipeline)),
            ) ==> self.cfg().pipelines.value_of(
                pipeline_for(self.cfg(), krate.name@, opt_str_view(params.pipeline)),
            ).stages@.len() > 0,
        ensures
            !self.cfg().pipelines.has(pipeline_for(self.cfg(), krate.name@, opt_str_view(params.pipeline))) ==> (r matches Err(
                PromoteError::Other(m),
            ) && m@ == quoted_message(
                "pipeline "@,
                pipeline_for(self.cfg(), krate.name@, opt_str_view(params.pipeline)),
                " not found"@,
            )),
            ({
                let pl = self.cfg().pipelines.value_of(
                    pipeline_for(self.cfg(), krate.name@, opt_str_view(params.pipeline)),
                );
                let from = match params.from {
                    Some(f) => f@,
                    None => pl.stages@[0].registry.name@,
                };
                self.cfg().pipelines.has(
                    pipeline_for(self.cfg(), krate.name@, opt_str_view(params.pipeline)),
                ) ==> self.next_ran(
                    *krate,
                    pl,
                    from,
                    PublishOpts {
                        allow_dirty: false,
                        dry_run: params.dry_run,
                        skip_confirm: params.yes,
                        force: false,
                    },
                    r,
                )
            }),
    {
        let opts = PublishOpts {
            allow_dirty: false,
            dry_run: params.dry_run,
            skip_confirm: params.yes,
            force: false,
        };
        let pl = match self.pipeline_for_crate(krate.name.as_str(), params.pipeline) {
            Ok(p) => p,
            Err(e) => {
                return Err(e);
            },
        };
        let from_stage = match params.from {
            Some(f) => f,
            None => pl.stages[0].registry.name.as_str(),
        };
        self.engine.promote_next(krate, pl, from_stage, &opts)
    }

    /// Run all stages of a pipeline sequentially.
    pub fn ship(&self, krate: &CrateRef, params: &ShipParams<'_>) -> (r: Result<(), PromoteError>)
        ensures
            !self.cfg().pipelines.has(pipeline_for(self.cfg(), krate.name@, opt_str_view(params.pipeline))) ==> (r matches Err(
                PromoteError::Other(m),
            ) && m@ == quoted_message(
                "pipeline "@,
                pipeline_for(self.cfg(), krate.name@, opt_str_view(params.pipeline)),
                " not found"@,
            )),
            self.cfg().pipelines.has(pipeline_for(self.cfg(), krate.name@, opt_str_view(params.pipeline)))
                ==> self.full_ran(
                *krate,
                self.cfg().pipelines.value_of(
                    pipeline_for(self.cfg(), krate.name@, opt_str_view(params.pipeline)),
                ),
                PublishOpts {
                    allow_dirty: params.allow_dirty,
                    dry_run: false,
                    skip_confirm: params.yes,
                    force: params.force,
                },
                r,
            ),
    {
        let opts = PublishOpts {
            allow_dirty: params.allow_dirty,
            dry_run: false,
            skip_confirm: params.yes,
            force: params.force,
        };
        let pl = match self.pipeline_for_crate(krate.name.as_str(), params.pipeline) {
            Ok(p) => p,
            Err(e) => {
                return Err(e);
            },
        };
        self.engine.run_full(krate, pl, &opts)
    }

    /// List crates in a registry (`cratebox` by default).
    pub fn list(&self, registry: Option<&str>) -> (r: Result<Vec<CrateInfo>, PromoteError>)
        ensures
            !self.cfg().registries.has(registry_or_default(registry)) ==> (r matches Err(
                PromoteError::Other(m),
            ) && m@ == quoted_message("unknown registry "@, registry_or_default(registry), ""@)),
            self.cfg().registries.has(registry_or_default(registry)) ==> self.listed(
                self.cfg().registries.value_of(registry_or_default(registry)),
                r,
            ),
    {
        let reg_name = match registry {
            Some(n) => n,
            None => "cratebox",
        };
        match self.config.registry(reg_name) {
            Some(reg) => self.registry_query.list_crates(reg),
            None => Err(quoted_error("unknown registry ", reg_name, "")),
        }
    }

    /// Commit and push a version bump of `krate` to `new_version` (the
    /// manifest and promote.lock are written by then). Needs a branch
    /// pipeline.
    pub fn bump(&self, krate: &CrateRef, new_version: &str) -> (r: Result<(), PromoteError>)
        ensures
            self.cfg().branch_pipeline is None ==> (r matches Err(PromoteError::Other(m)) && m@
                == no_branch_pipeline_message()),
            self.cfg().branch_pipeline is Some ==> exists|st: Result<(), PromoteError>|
                #[trigger] self.git_staged(bump_files(), st) && (st is Err ==> r == st) && (st is Ok
                    ==> exists|c: Result<(), PromoteError>|
                    #[trigger] self.git_committed(spec_bump_message(krate.name@, new_version@), c)
                        && (c is Err ==> r == c) && (c is Ok ==> self.git_pushed_head(r))),
    {
        match self.branch_config() {
            Ok(_) => {},
            Err(e) => {
                return Err(e);
            },
        }
        let ports = GitPorts { git: &*self.git };
        let r = BranchPipeline::bump(krate, new_version, &ports);
        proof {
            let msg = spec_bump_message(krate.name@, new_version@);
            let st = choose|st: Result<(), PromoteError>|
                #[trigger] ports.staged(bump_files(), st) && (st is Err ==> r == st) && (st is Ok
                    ==> exists|c: Result<(), PromoteError>|
                    #[trigger] ports.committed(msg, c) && (c is Err ==> r == c) && (c is Ok
                        ==> ports.pushed_head(r)));
            assert(self.git_staged(bump_files(), st));
            if st is Ok {
                let c = choose|c: Result<(), PromoteError>|
                    #[trigger] ports.committed(msg, c) && (c is Err ==> r == c) && (c is Ok
                        ==> ports.pushed_head(r));
                assert(self.git_committed(msg, c));
                if c is Ok {
                    assert(self.git_pushed_head(r));
                }
            }
        }
        r
    }

    /// Branch from one stage to the next, or to a given target stage,
    /// once the lock's source hash is checked against the current one.
    pub fn branch(
        &self,
        from: &str,
        to: Option<&str>,
        lock: &Result<PromoteLock, PromoteError>,
        current_hash: &Result<String, PromoteError>,
    ) -> (r: Result<(), PromoteError>)
        ensures
            self.cfg().branch_pipeline is None ==> (r matches Err(PromoteError::Other(m)) && m@
                == no_branch_pipeline_message()),
            self.cfg().branch_pipeline is Some && to is None && !strs_view(
                self.cfg().branch_pipeline->0.stages@,
            ).contains(from@) ==> (r matches Err(PromoteError::Other(m)) && m@
                == unknown_stage_message("unknown stage "@, from@, ""@)),
            self.cfg().branch_pipeline is Some && to is None && strs_view(
                self.cfg().branch_pipeline->0.stages@,
            ).contains(from@) && first_index_of(strs_view(self.cfg().branch_pipeline->0.stages@), from@) + 1
                == self.cfg().branch_pipeline->0.stages@.len() ==> (r matches Err(PromoteError::Other(m)) && m@
                == no_next_stage_message(from@)),
            self.cfg().branch_pipeline is Some && (lock is Err || current_hash is Err) && (to is Some
                || (strs_view(self.cfg().branch_pipeline->0.stages@).contains(from@) && first_index_of(
                strs_view(self.cfg().branch_pipeline->0.stages@),
                from@,
            ) + 1 < self.cfg().branch_pipeline->0.stages@.len()))
                ==> r is Err,
            ({
                let stages = strs_view(self.cfg().branch_pipeline->0.stages@);
                self.cfg().branch_pipeline is Some && lock is Ok && current_hash is Ok
                    && lock->Ok_0.source_hash@ != current_hash->Ok_0@ && (to is Some || (
                    stages.contains(from@) && first_index_of(stages, from@) + 1 < stages.len()))
                    ==> (r matches Err(PromoteError::Other(m)) && m@ == mismatch_message(
                    lock->Ok_0.source_hash@,
                    current_hash->Ok_0@,
                ))
            }),
            self.cfg().branch_pipeline is Some && to is Some && lock is Ok && current_hash is Ok
                && lock->Ok_0.source_hash@ == current_hash->Ok_0@ ==> self.merge_push(
                from@,
                to->0@,
                r,
            ),
            ({
                let stages = strs_view(self.cfg().branch_pipeline->0.stages@);
                self.cfg().branch_pipeline is Some && to is None && lock is Ok && current_hash is Ok
                    && lock->Ok_0.source_hash@ == current_hash->Ok_0@ && stages.contains(from@)
                    && first_index_of(stages, from@) + 1 < stages.len() ==> self.merge_push(
                    from@,
                    stages[first_index_of(stages, from@) + 1],
                    r,
                )
            }),
    {
        let cfg = match self.branch_config() {
            Ok(c) => c,
            Err(e) => {
                return Err(e);
            },
        };
        let ports = GitPorts { git: &*self.git };
        let ghost names = strs_view(cfg.stages@);
        match to {
            Some(target) => {
                let stages = vec![owned(from), owned(target)];
                proof {
                    assert(strs_view(stages@)[0] == from@);
                    assert(strs_view(stages@)[1] == target@);
                    assert(strs_view(stages@).contains(from@));
                    assert(first_index_of(strs_view(stages@), from@) == 0);
                }
                let r = BranchPipeline::branch(&stages, from, &ports, &ports, lock, current_hash);
                proof {
                    if lock is Ok && current_hash is Ok && lock->Ok_0.source_hash@
                        == current_hash->Ok_0@ {
                        let m = choose|m: Result<(), PromoteError>|
                            #[trigger] ports.merged(from@, target@, m) && (m is Err ==> r == m) && (
                            m is Ok ==> ports.pushed_branch(target@, r));
                        assert(self.git_merged(from@, target@, m));
                    }
                }
                r
            },
            None => {
                let r = BranchPipeline::branch(&cfg.stages, from, &ports, &ports, lock, current_hash);
                proof {
                    if lock is Ok && current_hash is Ok && lock->Ok_0.source_hash@
                        == current_hash->Ok_0@ && names.contains(from@) && first_index_of(names, from@)
                        + 1 < names.len() {
                        let t = names[first_index_of(names, from@) + 1];
                        let m = choose|m: Result<(), PromoteError>|
                            #[trigger] ports.merged(from@, t, m) && (m is Err ==> r == m) && (m is Ok
                                ==> ports.pushed_branch(t, r));
                        assert(self.git_merged(from@, t, m));
                    }
                }
                r
            },
        }
    }

    /// Tag the release branch with a version tag.
    pub fn branch_tag(&self, krate: &CrateRef) -> (r: Result<(), PromoteError>)
        ensures
            self.cfg().branch_pipeline is None ==> (r matches Err(PromoteError::Other(m)) && m@
                == no_branch_pipeline_message()),
            self.cfg().branch_pipeline is Some ==> exists|t: Result<(), PromoteError>|
                #[trigger] self.git_tagged(
                    spec_release_tag(krate.version@),
                    spec_release_message(krate.name@, krate.version@),
                    t,
                ) && (t is Err ==> r == t) && (t is Ok ==> self.git_pushed_tag(
                    spec_release_tag(krate.version@),
                    r,
                )),
    {
        let cfg = match self.branch_config() {
            Ok(c) => c,
            Err(e) => {
                return Err(e);
            },
        };
        let ports = GitPorts { git: &*self.git };
        let r = BranchPipeline::publish(krate, cfg.release_branch.as_str(), &ports, &ports);
        proof {
            let tag = spec_release_tag(krate.version@);
            let msg = spec_release_message(krate.name@, krate.version@);
            let t = choose|t: Result<(), PromoteError>|
                #[trigger] ports.tagged(tag, msg, t) && (t is Err ==> r == t) && (t is Ok
                    ==> ports.pushed_tag(tag, r));
            assert(self.git_tagged(tag, msg, t));
        }
        r
    }

    /// Defer a crate's promotion to the next pipeline stage: records a
    /// pending ticket (with the current source hash), opens a PR where a
    /// forge is configured, and fires a notification.
    pub fn defer_to(
        &self,
        krate: &CrateRef,
        from: &str,
        pipeline: Option<&str>,
        source_hash: Result<String, PromoteError>,
    ) -> (r: Result<Deferral, PromoteError>)
        ensures
            ({
                let key = pipeline_for(self.cfg(), krate.name@, opt_str_view(pipeline));
                let pl = self.cfg().pipelines.value_of(key);
                &&& !self.cfg().pipelines.has(key) ==> (r matches Err(PromoteError::Other(m)) && m@
                    == quoted_message("pipeline "@, key, " not found"@))
                &&& self.cfg().pipelines.has(key) && !pl.has_stage(from@) ==> (r matches Err(
                    PromoteError::Other(m),
                ) && m@ == quoted_message("unknown stage "@, from@, " in pipeline"@))
                &&& self.cfg().pipelines.has(key) && pl.has_stage(from@) && pl.first_stage_index(
                    from@,
                ) + 1 == pl.stages@.len() ==> (r matches Err(PromoteError::Other(m)) && m@
                    == no_next_stage_message(from@))
                &&& self.cfg().pipelines.has(key) && pl.has_stage(from@) && pl.first_stage_index(
                    from@,
                ) + 1 < pl.stages@.len() && source_hash is Err ==> r == Err::<Deferral, PromoteError>(
                    source_hash->Err_0,
                )
                &&& r matches Ok(d) ==> {
                    &&& self.cfg().pipelines.has(key) && pl.has_stage(from@)
                    &&& pl.first_stage_index(from@) + 1 < pl.stages@.len()
                    &&& pending_record(
                        d,
                        krate,
                        from@,
                        pl.stages@[pl.first_stage_index(from@) + 1].registry.name@,
                        DeferralKind::Registry,
                    )
                    &&& source_hash == Ok::<String, PromoteError>(d.source_hash)
                }
                &&& self.cfg().pipelines.has(key) && pl.has_stage(from@) && pl.first_stage_index(
                    from@,
                ) + 1 < pl.stages@.len() && source_hash is Ok ==> exists|d: Deferral|
                    pending_record(d, krate, from@, pl.stages@[pl.first_stage_index(from@) + 1].registry.name@, DeferralKind::Registry)
                        && d.source_hash == source_hash->Ok_0 && #[trigger] self.files_ticket(
                        d,
                        spec_pr_title(krate.name@, krate.version@, ""@, from@, pl.stages@[pl.first_stage_index(from@) + 1].registry.name@),
                        "Deferred promotion ticket: "@,
                        from@,
                        pl.stages@[pl.first_stage_index(from@) + 1].registry.name@,
                        r,
                    )
            }),
    {
        let pl = match self.pipeline_for_crate(krate.name.as_str(), pipeline) {
            Ok(p) => p,
            Err(e) => {
                return Err(e);
            },
        };
        let from_idx = match pl.position(from) {
            Some(i) => i,
            None => {
                return Err(quoted_error("unknown stage ", from, " in pipeline"));
            },
        };
        if from_idx >= pl.stages.len() - 1 {
            return Err(PromoteError::Other(cat3("no next stage after '", from, "'")));
        }
        let to_stage = &pl.stages[from_idx + 1];
        let source_hash = match source_hash {
            Ok(h) => h,
            Err(e) => {
                return Err(e);
            },
        };
        let ticket = Deferral::ticket_id(krate.name.as_str());
        let title = pr_title(krate, "", from, to_stage.registry.name.as_str());
        let body = cat("Deferred promotion ticket: ", ticket.as_str());
        let ghost body_prefix = "Deferred promotion ticket: "@;
        let ghost base = to_stage.registry.name@;
        let pr_number = self.try_create_pr(
            title.as_str(),
            body.as_str(),
            from,
            to_stage.registry.name.as_str(),
        );
        let deferral = pending_deferral(
            ticket,
            krate,
            from,
            to_stage.registry.name.as_str(),
            DeferralKind::Registry,
            source_hash,
            pr_number,
        );
        let sv = self.deferral_store.save(&deferral);
        assert(self.saved(deferral, sv));
        match sv {
            Ok(()) => {},
            Err(e) => {
                assert(self.files_ticket(deferral, title@, body_prefix, from@, base, Err(e)));
                return Err(e);
            },
        }
        let nv = self.notifier.on_deferred(&deferral);
        assert(self.notified(deferral, nv));
        let r = match nv {
            Ok(()) => Ok(deferral),
            Err(e) => Err(e),
        };
        assert(self.files_ticket(deferral, title@, body_prefix, from@, base, r));
        r
    }

    /// Defer a branch promotion (merge from one stage branch to the
    /// next), after checking the promote.lock hash against the current
    /// one.
    pub fn defer_branch(
        &self,
        krate: &CrateRef,
        from: &str,
        lock: Result<PromoteLock, PromoteError>,
        current_hash: Result<String, PromoteError>,
    ) -> (r: Result<Deferral, PromoteError>)
        ensures
            self.cfg().branch_pipeline is None ==> (r matches Err(PromoteError::Other(m)) && m@
                == no_branch_pipeline_message()),
            ({
                let stages = strs_view(self.cfg().branch_pipeline->0.stages@);
                &&& self.cfg().branch_pipeline is Some && !stages.contains(from@) ==> (r matches Err(
                    PromoteError::Other(m),
                ) && m@ == quoted_message("unknown branch stage "@, from@, ""@))
                &&& self.cfg().branch_pipeline is Some && stages.contains(from@) && first_index_of(
                    stages,
                    from@,
                ) + 1 == stages.len() ==> (r matches Err(PromoteError::Other(m)) && m@
                    == no_next_stage_message(from@))
                &&& self.cfg().branch_pipeline is Some && stages.contains(from@) && first_index_of(
                    stages,
                    from@,
                ) + 1 < stages.len() ==> match (lock, current_hash) {
                    (Err(e), _) => r == Err::<Deferral, PromoteError>(e),
                    (Ok(_), Err(e)) => r == Err::<Deferral, PromoteError>(e),
                    (Ok(l), Ok(h)) => l.source_hash@ != h@ ==> (r matches Err(
                        PromoteError::Other(m),
                    ) && m@ == mismatch_message(l.source_hash@, h@)),
                }
                &&& r matches Ok(d) ==> {
                    &&& self.cfg().branch_pipeline is Some && stages.contains(from@)
                    &&& first_index_of(stages, from@) + 1 < stages.len()
                    &&& pending_record(
                        d,
                        krate,
                        from@,
                        stages[first_index_of(stages, from@) + 1],
                        DeferralKind::Branch,
                    )
                    &&& lock matches Ok(l) && l.source_hash == d.source_hash
                    &&& current_hash matches Ok(h) && h@ == d.source_hash@
                }
                &&& self.cfg().branch_pipeline is Some && stages.contains(from@) && first_index_of(
                    stages,
                    from@,
                ) + 1 < stages.len() && lock is Ok && current_hash is Ok
                    && lock->Ok_0.source_hash@ == current_hash->Ok_0@ ==> exists|d: Deferral|
                    pending_record(d, krate, from@, stages[first_index_of(stages, from@) + 1], DeferralKind::Branch)
                        && d.source_hash == lock->Ok_0.source_hash && #[trigger] self.files_ticket(
                        d,
                        spec_pr_title(krate.name@, krate.version@, "branch "@, from@, stages[first_index_of(stages, from@) + 1]),
                        "Deferred branch promotion ticket: "@,
                        from@,
                        stages[first_index_of(stages, from@) + 1],
                        r,
                    )
            }),
    {
        let cfg = match self.branch_config() {
            Ok(c) => c,
            Err(e) => {
                return Err(e);
            },
        };
        let to_stage = match next_stage(&cfg.stages, from, "unknown branch stage ", "") {
            Ok(s) => s,
            Err(e) => {
                return Err(e);
            },
        };
        proof {
            let names = strs_view(cfg.stages@);
            assert(names[first_index_of(names, from@) + 1] == to_stage@);
        }
        let lock = match lock {
            Ok(l) => l,
            Err(e) => {
                return Err(e);
            },
        };
        let current = match current_hash {
            Ok(h) => h,
            Err(e) => {
                return Err(e);
            },
        };
        match lock.verify_hash(current.as_str()) {
            Ok(()) => {},
            Err(e) => {
                return Err(e);
            },
        }
        let ticket = Deferral::ticket_id(krate.name.as_str());
        let title = pr_title(krate, "branch ", from, to_stage.as_str());
        let body = cat("Deferred branch promotion ticket: ", ticket.as_str());
        let ghost body_prefix = "Deferred branch promotion ticket: "@;
        let ghost base = to_stage@;
        let pr_number = self.try_create_pr(title.as_str(), body.as_str(), from, to_stage.as_str());
        let deferral = pending_deferral(
            ticket,
            krate,
            from,
            to_stage.as_str(),
            DeferralKind::Branch,
            lock.source_hash.clone(),
            pr_number,
        );
        let sv = self.deferral_store.save(&deferral);
        assert(self.saved(deferral, sv));
        match sv {
            Ok(()) => {},
            Err(e) => {
                assert(self.files_ticket(deferral, title@, body_prefix, from@, base, Err(e)));
                return Err(e);
            },
        }
        let nv = self.notifier.on_deferred(&deferral);
        assert(self.notified(deferral, nv));
        let r = match nv {
            Ok(()) => Ok(deferral),
            Err(e) => Err(e),
        };
        assert(self.files_ticket(deferral, title@, body_prefix, from@, base, r));
        r
    }

    /// Confirm a pending deferral. For a branch deferral the merge and
    /// push are carried out first (after re-checking the lock's hash); the
    /// ticket is only marked confirmed once they succeed, so a failed
    /// merge leaves it pending. An associated PR gets a comment and is
    /// closed, best-effort. What follows loading the ticket is
    /// [`Api::confirm_loaded`].
    pub fn confirm_deferral(
        &self,
        ticket: &str,
        reason: &str,
        lock: &Result<PromoteLock, PromoteError>,
        current_hash: &Result<String, PromoteError>,
    ) -> (r: Result<Deferral, PromoteError>)
        ensures
            r matches Ok(d) ==> {
                &&& d.status == DeferralStatus::Confirmed
                &&& d.reason@ == reason@
                &&& d.kind == DeferralKind::Branch ==> {
                    &&& self.cfg().branch_pipeline is Some
                    &&& lock matches Ok(l) && current_hash matches Ok(h) && l.source_hash@ == h@
                }
            },
            exists|loaded: Result<Deferral, PromoteError>|
                #[trigger] self.store_loaded(ticket@, loaded) && (loaded is Err ==> r == Err::<
                    Deferral,
                    PromoteError,
                >(loaded->Err_0)) && (loaded is Ok ==> self.confirmed_outcome(
                    ticket@,
                    loaded->Ok_0,
                    reason@,
                    *lock,
                    *current_hash,
                    r,
                )),
    {
        let loaded = self.deferral_store.load(ticket);
        assert(self.store_loaded(ticket@, loaded));
        let d = match loaded {
            Ok(d) => d,
            Err(e) => {
                return Err(e);
            },
        };
        self.confirm_loaded(ticket, d, reason, lock, current_hash)
    }

    /// Confirm the deferral `d` loaded for `ticket`: refused unless it is
    /// pending; a branch deferral needs the branch pipeline, a lock whose
    /// hash is the current one, and a successful merge and push of its
    /// stage. Then the PR, if any, is commented on and closed
    /// (best-effort), and the confirmed ticket is saved and returned.
    pub fn confirm_loaded(
        &self,
        ticket: &str,
        d: Deferral,
        reason: &str,
        lock: &Result<PromoteLock, PromoteError>,
        current_hash: &Result<String, PromoteError>,
    ) -> (r: Result<Deferral, PromoteError>)
        ensures
            self.confirmed_outcome(ticket@, d, reason@, *lock, *current_hash, r),
            r matches Ok(x) ==> {
                &&& settles_to(d, x, DeferralStatus::Confirmed, reason@)
                &&& d.kind == DeferralKind::Branch ==> {
                    &&& self.cfg().branch_pipeline is Some
                    &&& lock matches Ok(l) && current_hash matches Ok(h) && l.source_hash@ == h@
                }
            },
    {
        if d.status != DeferralStatus::Pending {
            let a = cat3("deferral '", ticket, "' is already ");
            return Err(PromoteError::Other(cat(a.as_str(), status_name_exec(d.status))));
        }
        if d.kind == DeferralKind::Branch {
            let cfg = match self.branch_config() {
                Ok(c) => c,
                Err(e) => {
                    return Err(e);
                },
            };
            let l = match lock {
                Ok(l) => l,
                Err(e) => {
                    return Err(e.clone());
                },
            };
            let h = match current_hash {
                Ok(h) => h,
                Err(e) => {
                    return Err(e.clone());
                },
            };
            match l.verify_hash(h.as_str()) {
                Ok(()) => {},
                Err(e) => {
                    return Err(e);
                },
            }
            let ports = GitPorts { git: &*self.git };
            let merged = BranchPipeline::branch(
                &cfg.stages,
                d.from_stage.as_str(),
                &ports,
                &ports,
                lock,
                current_hash,
            );
            proof {
                let names = strs_view(cfg.stages@);
                if names.contains(d.from_stage@) && first_index_of(names, d.from_stage@) + 1
                    < names.len() {
                    let t = names[first_index_of(names, d.from_stage@) + 1];
                    let m = choose|m: Result<(), PromoteError>|
                        #[trigger] ports.merged(d.from_stage@, t, m) && (m is Err ==> merged == m)
                            && (m is Ok ==> ports.pushed_branch(t, merged));
                    assert(self.git_merged(d.from_stage@, t, m));
                    assert(self.merge_push(d.from_stage@, t, merged));
                }
            }
            match merged {
                Ok(()) => {},
                Err(e) => {
                    return Err(e);
                },
            }
        }
        let ghost d0 = d;
        if let Some(pr) = d.pr_number {
            let comment = cat("Confirmed: ", reason);
            let c = self.forge_comment_pr(pr, comment.as_str());
            let k = self.forge_close_pr(pr);
            assert(self.pr_commented(pr, "Confirmed: "@ + reason@, c));
            assert(self.pr_closed(pr, k));
        }
        let d2 = match d.into_confirmed(reason) {
            Ok(x) => x,
            Err(e) => {
                return Err(e);
            },
        };
        let sv = self.deferral_store.save(&d2);
        assert(self.saved(d2, sv));
        let r = match sv {
            Ok(()) => Ok(d2),
            Err(e) => Err(e),
        };
        assert(self.saves_settled(d0, DeferralStatus::Confirmed, reason@, r));
        r
    }

    /// Whether `name` is published by `publish_all`: a publishable node
    /// has that name and no path-only dependency, and its override does
    /// not turn publishing off.
    fn is_cleared(&self, p: &Vec<CrateNode>, name: &String) -> (r: bool)
        ensures
            r == cleared(self.cfg(), p@, name@),
    {
        let mut found = false;
        let mut i: usize = 0;
        while i < p.len()
            invariant
                i <= p@.len(),
                found == exists|j: int|
                    0 <= j < i && (#[trigger] p@[j]).name@ == name@ && p@[j].path_only_deps@.len()
                        == 0,
            decreases p@.len() - i,
        {
            if string_eq(&p[i].name, name.as_str()) && p[i].path_only_deps.len() == 0 {
                found = true;
            }
            i = i + 1;
        }
        found && !self.config.publish_disabled(name.as_str())
    }

    /// The names of `order` that `publish_all` publishes, in order.
    fn cleared_of(&self, p: &Vec<CrateNode>, order: &Vec<String>) -> (r: Vec<String>)
        ensures
            strs_view(r@) == cleared_order(self.cfg(), p@, strs_view(order@)),
    {
        let ghost names = strs_view(order@);
        let mut r: Vec<String> = Vec::new();
        let mut i: usize = 0;
        while i < order.len()
            invariant
                i <= order@.len(),
                names == strs_view(order@),
                strs_view(r@) == cleared_order(self.cfg(), p@, names.subrange(0, i as int)),
            decreases order@.len() - i,
        {
            let ghost before = r@;
            assert(names.subrange(0, i + 1).drop_last() =~= names.subrange(0, i as int));
            if self.is_cleared(p, &order[i]) {
                r.push(order[i].clone());
                assert(strs_view(r@) =~= strs_view(before).push(names[i as int]));
            }
            i = i + 1;
        }
        assert(names.subrange(0, order@.len() as int) =~= names);
        r
    }

    /// Publish all crates of a workspace tree (`nodes`, as scanned) in
    /// dependency order to one registry (`cratebox` by default). Crates
    /// with `publish = false` are left out; those with path-only
    /// dependencies are reported as blocked and not published, nor are
    /// those whose override turns publishing off. A dry run only plans.
    /// A failed publish is recorded and the rest go on.
    pub fn publish_all(&self, nodes: Vec<CrateNode>, params: &PublishAllParams<'_>) -> (r: Result<
        PublishAllResult,
        PromoteError,
    >)
        ensures
            ({
                let p = publishable_nodes(nodes@);
                let reg = registry_or_default(params.registry);
                &&& (forall|perm: Seq<usize>| !is_topo_order(p, perm)) ==> r is Err
                &&& (exists|perm: Seq<usize>| is_topo_order(p, perm)) && (params.dry_run
                    || self.cfg().registries.has(reg)) ==> r is Ok
                &&& (exists|perm: Seq<usize>| is_topo_order(p, perm)) && !params.dry_run
                    && !self.cfg().registries.has(reg) ==> (r matches Err(PromoteError::Other(m))
                    && m@ == quoted_message("unknown registry "@, reg, ""@))
                &&& r matches Ok(res) ==> {
                    &&& strs_view(res.publish_order@) == cleared_order(
                        self.cfg(),
                        p,
                        names_along(p, release_order(p)),
                    )
                    &&& exists|perm: Seq<usize>|
                        is_topo_order(p, perm) && strs_view(res.publish_order@) == cleared_order(
                            self.cfg(),
                            p,
                            names_along(p, perm),
                        )
                    &&& strs_view(res.blocked@) == blocked_names(p)
                    &&& params.dry_run ==> res.ok == 0 && res.failed@.len() == 0
                    &&& !params.dry_run ==> res.ok + res.failed@.len() == res.publish_order@.len()
                    &&& forall|k: int|
                        0 <= k < res.failed@.len() ==> strs_view(res.publish_order@).contains(
                            #[trigger] res.failed@[k]@,
                        )
                    &&& !params.dry_run ==> exists|outs: Seq<Result<(), PromoteError>>|
                        #[trigger] outs.len() == res.publish_order@.len() && res.ok == ok_upto(
                            outs,
                            outs.len() as int,
                        ) && strs_view(res.failed@) == failed_upto(
                            strs_view(res.publish_order@),
                            outs,
                            outs.len() as int,
                        ) && forall|k: int|
                            0 <= k < outs.len() ==> #[trigger] self.ran_crate(
                                last_node(nodes@, strs_view(res.publish_order@)[k]),
                                Stage { registry: self.cfg().registries.value_of(reg) },
                                publish_all_opts(params.allow_dirty, params.force),
                                outs[k],
                            )
                }
            }),
    {
        let ghost all = nodes@;
        let (refs, publishable) = split_publishable(nodes);
        let order = match topo_sort(publishable.as_slice()) {
            Ok(o) => o,
            Err(e) => {
                return Err(e);
            },
        };
        proof {
            assert(strs_view(order@) =~= order@.map_values(|s: String| s@));
        }
        let blocked = blocked_of(&publishable);
        let publish_order = self.cleared_of(&publishable, &order);
        if params.dry_run {
            return Ok(
                PublishAllResult { publish_order, ok: 0, failed: Vec::new(), blocked },
            );
        }
        let reg_name = match params.registry {
            Some(n) => n,
            None => "cratebox",
        };
        let reg = match self.config.registry(reg_name) {
            Some(r) => r,
            None => {
                return Err(quoted_error("unknown registry ", reg_name, ""));
            },
        };
        let stage = Stage { registry: reg.clone() };
        let opts = PublishOpts {
            allow_dirty: params.allow_dirty,
            dry_run: false,
            skip_confirm: true,
            force: params.force,
        };
        let ghost names = strs_view(publish_order@);
        proof {
            lemma_publishable_from(all);
            lemma_cleared_members(self.cfg(), publishable@, strs_view(order@));
        }
        let mut ok: usize = 0;
        let mut failed: Vec<String> = Vec::new();
        let mut i: usize = 0;
        let ghost mut outs: Seq<Result<(), PromoteError>> = Seq::empty();
        while i < publish_order.len()
            invariant
                i <= publish_order@.len(),
                outs.len() == i,
                ok == ok_upto(outs, i as int),
                strs_view(failed@) == failed_upto(names, outs, i as int),
                forall|k: int|
                    0 <= k < i ==> #[trigger] self.ran_crate(
                        last_node(all, names[k]),
                        stage,
                        opts,
                        outs[k],
                    ),
                stage == (Stage { registry: self.cfg().registries.value_of(registry_or_default(params.registry)) }),
                opts == publish_all_opts(params.allow_dirty, params.force),
                forall|j: int|
                    0 <= j < all.len() ==> (#[trigger] refs@[j]).version == all[j].version
                        && refs@[j].manifest_path == all[j].manifest_path,
                names == strs_view(publish_order@),
                names == cleared_order(self.cfg(), publishable@, strs_view(order@)),
                ok + failed@.len() == i,
                forall|k: int| 0 <= k < failed@.len() ==> names.contains(#[trigger] failed@[k]@),
                forall|k: int| 0 <= k < names.len() ==> cleared(self.cfg(), publishable@, #[trigger] names[k]),
                publishable@ == publishable_nodes(all),
                refs@.len() == all.len(),
                forall|j: int| 0 <= j < all.len() ==> (#[trigger] refs@[j]).name == all[j].name,
                forall|j: int|
                    0 <= j < publishable_nodes(all).len() ==> exists|x: int|
                        0 <= x < all.len() && all[x] == #[trigger] publishable_nodes(all)[j],
            decreases publish_order@.len() - i,
        {
            let name = &publish_order[i];
            let idx = match find_last_ref(&refs, name) {
                Some(j) => j,
                None => {
                    proof {
                        assert(cleared(self.cfg(), publishable@, names[i as int]));
                        let j = choose|j: int|
                            0 <= j < publishable@.len() && publishable@[j].name@ == names[i as int]
                                && publishable@[j].path_only_deps@.len() == 0;
                        let x = choose|x: int| 0 <= x < all.len() && all[x] == publishable_nodes(all)[j];
                        assert(refs@[x].name@ == name@);
                    }
                    return Ok(
                        PublishAllResult { publish_order, ok, failed, blocked },
                    );
                },
            };
            let krate = CrateRef {
                name: refs[idx].name.clone(),
                version: refs[idx].version.clone(),
                manifest_path: crate::domain::clone_path(&refs[idx].manifest_path),
            };
            let out = self.engine.run_stage(&krate, &stage, &opts);
            proof {
                let gi = i as int;
                let j = idx as int;
                assert(refs@[j].name@ == names[gi]);
                assert(all[j].name@ == names[gi]);
                assert forall|k: int| j < k < all.len() implies #[trigger] all[k].name@ != names[gi] by {
                    assert(refs@[k].name == all[k].name);
                }
                let lj = choose|lj: int|
                    0 <= lj < all.len() && all[lj].name@ == names[gi] && forall|k: int|
                        lj < k < all.len() ==> #[trigger] all[k].name@ != names[gi];
                if lj < j {
                    assert(all[j].name@ != names[gi]);
                }
                if j < lj {
                    assert(all[lj].name@ != names[gi]);
                }
                assert(last_node(all, names[gi]) == all[j]);
                assert(self.stage_ran(krate, stage, opts, out));
                assert(self.ran_crate(last_node(all, names[gi]), stage, opts, out));
                let outs2 = outs.push(out);
                assert(ok_upto(outs2, gi) == ok_upto(outs, gi)) by {
                    lemma_upto_prefix(names, outs, outs2, gi);
                }
                assert(failed_upto(names, outs2, gi) == failed_upto(names, outs, gi)) by {
                    lemma_upto_prefix(names, outs, outs2, gi);
                }
                outs = outs2;
            }
            match out {
                Ok(()) => {
                    ok = ok + 1;
                },
                Err(_) => {
                    let ghost before = failed@;
                    failed.push(name.clone());
                    proof {
                        assert(strs_view(failed@) =~= strs_view(before).push(name@));
                        assert(names[i as int] == name@);
                        assert forall|k: int| 0 <= k < failed@.len() implies names.contains(
                            #[trigger] failed@[k]@,
                        ) by {
                            if k < before.len() {
                                assert(failed@[k] == before[k]);
                            }
                        }
                    }
                },
            }
            i = i + 1;
        }
        Ok(PublishAllResult { publish_order, ok, failed, blocked })
    }

    /// Reject a pending deferral. No side effects beyond the status
    /// update. What follows loading the ticket is [`Api::reject_loaded`].
    pub fn reject_deferral(&self, ticket: &str, reason: &str) -> (r: Result<Deferral, PromoteError>)
        ensures
            r matches Ok(d) ==> d.status == DeferralStatus::Rejected && d.reason@ == reason@,
            exists|loaded: Result<Deferral, PromoteError>|
                #[trigger] self.store_loaded(ticket@, loaded) && (loaded is Err ==> r == Err::<
                    Deferral,
                    PromoteError,
                >(loaded->Err_0)) && (loaded is Ok ==> self.rejected_outcome(
                    loaded->Ok_0,
                    reason@,
                    r,
                )),
    {
        let loaded = self.deferral_store.load(ticket);
        assert(self.store_loaded(ticket@, loaded));
        let d = match loaded {
            Ok(d) => d,
            Err(e) => {
                return Err(e);
            },
        };
        self.reject_loaded(d, reason)
    }

    /// Reject the loaded deferral `d`: refused unless it is pending; the
    /// rejected ticket is then saved and returned.
    pub fn reject_loaded(&self, d: Deferral, reason: &str) -> (r: Result<Deferral, PromoteError>)
        ensures
            r matches Ok(x) ==> settles_to(d, x, DeferralStatus::Rejected, reason@),
            self.rejected_outcome(d, reason@, r),
    {
        let ghost d0 = d;
        let d2 = match d.into_rejected(reason) {
            Ok(x) => x,
            Err(e) => {
                return Err(e);
            },
        };
        let sv = self.deferral_store.save(&d2);
        assert(self.saved(d2, sv));
        let r = match sv {
            Ok(()) => Ok(d2),
            Err(e) => Err(e),
        };
        assert(settles_to(d0, d2, DeferralStatus::Rejected, reason@));
        assert(self.saves_settled(d0, DeferralStatus::Rejected, reason@, r));
        r
    }

    /// List all deferrals, or only the pending ones.
    pub fn deferrals(&self, pending_only: bool) -> (r: Result<Vec<Deferral>, PromoteError>)
        ensures
            pending_only ==> self.listed_pending(r),
            !pending_only ==> self.listed_all(r),
    {
        if pending_only {
            self.deferral_store.list_pending()
        } else {
            self.deferral_store.list_all()
        }
    }
}

/// The options `publish_all` publishes each crate with: no
/// confirmation is asked, and nothing is a dry run.
pub open spec fn publish_all_opts(allow_dirty: bool, force: bool) -> PublishOpts {
    PublishOpts { allow_dirty, dry_run: false, skip_confirm: true, force }
}

/// The last node named `name`.
pub open spec fn last_node(nodes: Seq<CrateNode>, name: Seq<char>) -> CrateNode {
    nodes[choose|j: int|
        0 <= j < nodes.len() && nodes[j].name@ == name && forall|k: int|
            j < k < nodes.len() ==> #[trigger] nodes[k].name@ != name]
}

/// The counts over the first `n` answers do not depend on later ones.
proof fn lemma_upto_prefix(
    names: Seq<Seq<char>>,
    a: Seq<Result<(), PromoteError>>,
    b: Seq<Result<(), PromoteError>>,
    n: int,
)
    requires
        0 <= n <= a.len(),
        n <= b.len(),
        forall|k: int| 0 <= k < n ==> a[k] == b[k],
    ensures
        ok_upto(a, n) == ok_upto(b, n),
        failed_upto(names, a, n) == failed_upto(names, b, n),
    decreases n,
{
    if n > 0 {
        lemma_upto_prefix(names, a, b, n - 1);
    }
}

/// How many of the first `n` answers succeeded.
pub open spec fn ok_upto(outs: Seq<Result<(), PromoteError>>, n: int) -> nat
    decreases n,
{
    if n <= 0 {
        0
    } else if outs[n - 1] is Ok {
        ok_upto(outs, n - 1) + 1
    } else {
        ok_upto(outs, n - 1)
    }
}

/// The names among the first `n` whose answer is an error, in order.
pub open spec fn failed_upto(names: Seq<Seq<char>>, outs: Seq<Result<(), PromoteError>>, n: int) -> Seq<
    Seq<char>,
>
    decreases n,
{
    if n <= 0 {
        Seq::empty()
    } else if outs[n - 1] is Err {
        failed_upto(names, outs, n - 1).push(names[n - 1])
    } else {
        failed_upto(names, outs, n - 1)
    }
}

/// The nodes that may be published (not `publish = false`), in order.
pub open spec fn publishable_nodes(nodes: Seq<CrateNode>) -> Seq<CrateNode>
    decreases nodes.len(),
{
    if nodes.len() == 0 {
        Seq::empty()
    } else {
        let rest = publishable_nodes(nodes.drop_last());
        if nodes.last().unpublishable {
            rest
        } else {
            rest.push(nodes.last())
        }
    }
}

/// The names of the nodes with path-only dependencies, in order.
pub open spec fn blocked_names(p: Seq<CrateNode>) -> Seq<Seq<char>>
    decreases p.len(),
{
    if p.len() == 0 {
        Seq::empty()
    } else {
        let rest = blocked_names(p.drop_last());
        if p.last().path_only_deps@.len() > 0 {
            rest.push(p.last().name@)
        } else {
            rest
        }
    }
}

/// Whether `publish_all` publishes the crate `name`: a publishable node
/// has that name and no path-only dependency, and the crate's override
/// does not turn publishing off.
pub open spec fn cleared(cfg: Config, p: Seq<CrateNode>, name: Seq<char>) -> bool {
    &&& exists|j: int|
        0 <= j < p.len() && (#[trigger] p[j]).name@ == name && p[j].path_only_deps@.len() == 0
    &&& !cfg.spec_publish_disabled(name)
}

/// The names of `names` that `publish_all` publishes, in order.
pub open spec fn cleared_order(cfg: Config, p: Seq<CrateNode>, names: Seq<Seq<char>>) -> Seq<
    Seq<char>,
>
    decreases names.len(),
{
    if names.len() == 0 {
        Seq::empty()
    } else {
        let rest = cleared_order(cfg, p, names.drop_last());
        if cleared(cfg, p, names.last()) {
            rest.push(names.last())
        } else {
            rest
        }
    }
}

/// `publish_all` publishes only cleared crates: every name of the
/// publish order belongs to a publishable crate without path-only
/// dependencies whose override does not turn publishing off.
pub proof fn lemma_publish_order_is_cleared(
    cfg: Config,
    nodes: Seq<CrateNode>,
    perm: Seq<usize>,
    k: int,
)
    requires
        is_topo_order(publishable_nodes(nodes), perm),
        0 <= k < cleared_order(cfg, publishable_nodes(nodes), names_along(
            publishable_nodes(nodes),
            perm,
        )).len(),
    ensures
        ({
            let p = publishable_nodes(nodes);
            let name = cleared_order(cfg, p, names_along(p, perm))[k];
            &&& !cfg.spec_publish_disabled(name)
            &&& exists|j: int|
                0 <= j < p.len() && (#[trigger] p[j]).name@ == name && p[j].path_only_deps@.len()
                    == 0 && !p[j].unpublishable
        }),
{
    let p = publishable_nodes(nodes);
    lemma_cleared_members(cfg, p, names_along(p, perm));
    lemma_publishable_are_publishable(nodes);
    let name = cleared_order(cfg, p, names_along(p, perm))[k];
    assert(cleared(cfg, p, name));
    let j = choose|j: int|
        0 <= j < p.len() && (#[trigger] p[j]).name@ == name && p[j].path_only_deps@.len() == 0;
    assert(!p[j].unpublishable);
}

proof fn lemma_publishable_are_publishable(nodes: Seq<CrateNode>)
    ensures
        forall|j: int|
            0 <= j < publishable_nodes(nodes).len() ==> !(#[trigger] publishable_nodes(nodes)[j]).unpublishable,
    decreases nodes.len(),
{
    if nodes.len() > 0 {
        let init = nodes.drop_last();
        lemma_publishable_are_publishable(init);
        assert forall|j: int| 0 <= j < publishable_nodes(nodes).len() implies !(
        #[trigger] publishable_nodes(nodes)[j]).unpublishable by {
            if j < publishable_nodes(init).len() {
                assert(publishable_nodes(nodes)[j] == publishable_nodes(init)[j]);
            }
        }
    }
}

proof fn lemma_cleared_members(cfg: Config, p: Seq<CrateNode>, names: Seq<Seq<char>>)
    ensures
        forall|k: int|
            0 <= k < cleared_order(cfg, p, names).len() ==> cleared(
                cfg,
                p,
                #[trigger] cleared_order(cfg, p, names)[k],
            ),
    decreases names.len(),
{
    if names.len() > 0 {
        let init = names.drop_last();
        lemma_cleared_members(cfg, p, init);
        let out = cleared_order(cfg, p, names);
        assert forall|k: int| 0 <= k < out.len() implies cleared(cfg, p, #[trigger] out[k]) by {
            if k < cleared_order(cfg, p, init).len() {
                assert(out[k] == cleared_order(cfg, p, init)[k]);
            }
        }
    }
}

proof fn lemma_publishable_from(nodes: Seq<CrateNode>)
    ensures
        forall|j: int|
            0 <= j < publishable_nodes(nodes).len() ==> exists|x: int|
                0 <= x < nodes.len() && nodes[x] == #[trigger] publishable_nodes(nodes)[j],
    decreases nodes.len(),
{
    if nodes.len() > 0 {
        let init = nodes.drop_last();
        lemma_publishable_from(init);
        assert forall|j: int| 0 <= j < publishable_nodes(nodes).len() implies exists|x: int|
            0 <= x < nodes.len() && nodes[x] == #[trigger] publishable_nodes(nodes)[j] by {
            if j < publishable_nodes(init).len() {
                let x = choose|x: int| 0 <= x < init.len() && init[x] == publishable_nodes(init)[j];
                assert(nodes[x] == init[x]);
            } else {
                assert(nodes[nodes.len() - 1] == publishable_nodes(nodes)[j]);
            }
        }
    }
}

/// Splits the scanned nodes into the crates they name (for every node)
/// and the publishable nodes themselves.
fn split_publishable(nodes: Vec<CrateNode>) -> (r: (Vec<CrateRef>, Vec<CrateNode>))
    ensures
        r.0@.len() == nodes@.len(),
        forall|j: int|
            0 <= j < nodes@.len() ==> (#[trigger] r.0@[j]).name == nodes@[j].name && r.0@[j].version
                == nodes@[j].version && r.0@[j].manifest_path == nodes@[j].manifest_path,
        r.1@ == publishable_nodes(nodes@),
{
    let ghost all = nodes@;
    let mut rest = nodes;
    let mut refs: Vec<CrateRef> = Vec::new();
    let mut publishable: Vec<CrateNode> = Vec::new();
    let ghost mut i: int = 0;
    while rest.len() > 0
        invariant
            0 <= i <= all.len(),
            rest@ == all.subrange(i, all.len() as int),
            refs@.len() == i,
            forall|j: int|
                0 <= j < i ==> (#[trigger] refs@[j]).name == all[j].name && refs@[j].version
                    == all[j].version && refs@[j].manifest_path == all[j].manifest_path,
            publishable@ == publishable_nodes(all.subrange(0, i)),
        decreases rest@.len(),
    {
        let n = rest.remove(0);
        assert(all[i] == n);
        assert(all.subrange(0, i + 1).drop_last() =~= all.subrange(0, i));
        refs.push(
            CrateRef {
                name: n.name.clone(),
                version: n.version.clone(),
                manifest_path: crate::domain::clone_path(&n.manifest_path),
            },
        );
        if !n.unpublishable {
            publishable.push(n);
        }
        proof {
            i = i + 1;
            assert(rest@ =~= all.subrange(i, all.len() as int));
        }
    }
    assert(all.subrange(0, all.len() as int) =~= all);
    (refs, publishable)
}

/// The names of the nodes with path-only dependencies.
fn blocked_of(p: &Vec<CrateNode>) -> (r: Vec<String>)
    ensures
        strs_view(r@) == blocked_names(p@),
{
    let mut r: Vec<String> = Vec::new();
    let mut i: usize = 0;
    while i < p.len()
        invariant
            i <= p@.len(),
            strs_view(r@) == blocked_names(p@.subrange(0, i as int)),
        decreases p@.len() - i,
    {
        let ghost before = r@;
        assert(p@.subrange(0, i + 1).drop_last() =~= p@.subrange(0, i as int));
        if p[i].path_only_deps.len() > 0 {
            r.push(p[i].name.clone());
            assert(strs_view(r@) =~= strs_view(before).push(p@[i as int].name@));
        }
        i = i + 1;
    }
    assert(p@.subrange(0, p@.len() as int) =~= p@);
    r
}

/// The last crate named `name` (what a name-keyed hash map built from
/// the crates in order answers).
fn find_last_ref(refs: &Vec<CrateRef>, name: &String) -> (r: Option<usize>)
    ensures
        r matches Some(j) ==> j < refs@.len() && refs@[j as int].name@ == name@ && forall|k: int|
            j < k < refs@.len() ==> (#[trigger] refs@[k]).name@ != name@,
        r is None ==> forall|j: int| 0 <= j < refs@.len() ==> (#[trigger] refs@[j]).name@ != name@,
{
    let mut i = refs.len();
    while i > 0
        invariant
            i <= refs@.len(),
            forall|j: int| i <= j < refs@.len() ==> (#[trigger] refs@[j]).name@ != name@,
        decreases i,
    {
        if string_eq(&refs[i - 1].name, name.as_str()) {
            return Some(i - 1);
        }
        i = i - 1;
    }
    None
}

/// A freshly deferred ticket for `krate`, from `from` to `to`.
pub open spec fn pending_record(
    d: Deferral,
    krate: &CrateRef,
    from: Seq<char>,
    to: Seq<char>,
    kind: DeferralKind,
) -> bool {
    &&& exists|ts: Seq<char>| d.ticket@ == spec_ticket_id(ts, krate.name@)
    &&& d.crate_name@ == krate.name@
    &&& d.version@ == krate.version@
    &&& d.from_stage@ == from
    &&& d.to_stage@ == to
    &&& d.status == DeferralStatus::Pending
    &&& d.kind == kind
    &&& d.command@.len() == 0
    &&& d.reason@ == Seq::<char>::empty()
    &&& d.pr_number != Some(0u64)
}

/// Builds a pending ticket.
fn pending_deferral(
    ticket: String,
    krate: &CrateRef,
    from: &str,
    to: &str,
    kind: DeferralKind,
    source_hash: String,
    pr_number: Option<u64>,
) -> (r: Deferral)
    requires
        exists|ts: Seq<char>| ticket@ == spec_ticket_id(ts, krate.name@),
        pr_number != Some(0u64),
    ensures
        pending_record(r, krate, from@, to@, kind),
        r.source_hash == source_hash,
        r.ticket == ticket,
        r.pr_number == pr_number,
{
    Deferral {
        ticket,
        crate_name: krate.name.clone(),
        version: krate.version.clone(),
        from_stage: owned(from),
        to_stage: owned(to),
        status: DeferralStatus::Pending,
        kind,
        deferred_at: crate::domain::deferral::local_now("%Y%m%d.%H%M%S"),
        source_hash,
        command: Vec::new(),
        reason: String::new(),
        pr_number,
    }
}

/// The title of a promotion PR: `promote: <name> v<version> <what><from>
/// -> <to>`.
pub open spec fn spec_pr_title(
    name: Seq<char>,
    version: Seq<char>,
    what: Seq<char>,
    from: Seq<char>,
    to: Seq<char>,
) -> Seq<char> {
    "promote: "@ + name + " v"@ + version + " "@ + what + from + " -> "@ + to
}

/// See [`spec_pr_title`].
fn pr_title(krate: &CrateRef, what: &str, from: &str, to: &str) -> (r: String)
    ensures
        r@ == spec_pr_title(krate.name@, krate.version@, what@, from@, to@),
{
    let a = cat3("promote: ", krate.name.as_str(), " v");
    let b = cat3(a.as_str(), krate.version.as_str(), " ");
    let c = cat3(b.as_str(), what, from);
    cat3(c.as_str(), " -> ", to)
}

/// The PR number of a forge's answer: none for `0` or an error.
pub open spec fn spec_pr_number(answer: Result<u64, PromoteError>) -> Option<u64> {
    match answer {
        Ok(n) => if n == 0 { None } else { Some(n) },
        Err(_) => None,
    }
}

/// See [`spec_pr_number`].
pub fn pr_number_of(answer: Result<u64, PromoteError>) -> (r: Option<u64>)
    ensures
        r == spec_pr_number(answer),
{
    match answer {
        Ok(0) => None,
        Ok(n) => Some(n),
        Err(_) => None,
    }
}

} // verus!
