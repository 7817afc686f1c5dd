//! Driving a crate through registry stages and git branch stages.

use vstd::prelude::*;

use super::promote_lock::{mismatch_message, PromoteLock};
use super::traits::{
    file_names, BranchMerger, GitCommitter, PipelineRunner, Publisher, RegistryQuery, RemotePusher, Tagger,
};
use super::{string_eq, CrateInfo, CrateRef, Pipeline, PromoteError, PublishOpts, Registry, Stage};
use crate::text::{cat, cat3, owned};
use crate::toml_doc::strs_view;

verus! {

/// Whether publishing to `stage` must first be confirmed: the registry
/// asks for it and neither `--yes` nor a dry run is in effect.
pub open spec fn needs_confirmation(stage: Stage, opts: PublishOpts) -> bool {
    stage.registry.confirm && !opts.skip_confirm && !opts.dry_run
}

/// The question put to the confirmer before publishing.
pub open spec fn spec_confirm_prompt(name: Seq<char>, version: Seq<char>, registry: Seq<char>) -> Seq<
    char,
> {
    "About to publish "@ + name + " v"@ + version + " to '"@ + registry + "'. Continue?"@
}

/// The confirmer answers no to every question.
pub open spec fn refuses_all<C: Fn(&str) -> bool>(confirmer: C) -> bool {
    forall|s: &str, b: bool| call_ensures(confirmer, (s,), b) ==> !b
}

/// What `run_stage` does once it knows whether the version is already in
/// the registry.
#[derive(Debug, Clone, Copy, PartialEq, Eq, Structural)]
pub enum StageStep {
    /// The version is already there and `--force` is not set.
    Skip,
    /// Ask the confirmer; publish if it agrees, abort otherwise.
    Confirm,
    /// Publish straight away.
    Publish,
}

/// See [`stage_step`].
pub open spec fn spec_stage_step(stage: Stage, opts: PublishOpts, already_published: bool) -> StageStep {
    if !opts.force && already_published {
        StageStep::Skip
    } else if needs_confirmation(stage, opts) {
        StageStep::Confirm
    } else {
        StageStep::Publish
    }
}

/// The step for a stage, given whether the version is already published.
pub fn stage_step(stage: &Stage, opts: &PublishOpts, already_published: bool) -> (r: StageStep)
    ensures
        r == spec_stage_step(*stage, *opts, already_published),
{
    if !opts.force && already_published {
        StageStep::Skip
    } else if stage.registry.confirm && !opts.skip_confirm && !opts.dry_run {
        StageStep::Confirm
    } else {
        StageStep::Publish
    }
}

/// The confirmation prompt for publishing `krate` to `stage`.
pub fn confirm_prompt(krate: &CrateRef, stage: &Stage) -> (r: String)
    ensures
        r@ == spec_confirm_prompt(krate.name@, krate.version@, stage.registry.name@),
{
    let a = cat3("About to publish ", krate.name.as_str(), " v");
    let b = cat3(a.as_str(), krate.version.as_str(), " to '");
    cat3(b.as_str(), stage.registry.name.as_str(), "'. Continue?")
}

/// Drives a crate through pipeline stages.
pub struct PipelineEngine<P: Publisher, Q: RegistryQuery, C: Fn(&str) -> bool> {
    publisher: P,
    registry_query: Q,
    confirmer: C,
}

impl<P: Publisher, C: Fn(&str) -> bool> PipelineEngine<P, NullRegistryQuery, C> {
    /// An engine that never finds a version already published, so it
    /// publishes to every stage unless the confirmer refuses.
    pub fn new(publisher: P, confirmer: C) -> (r: Self)
        requires
            forall|s: &str| call_requires(confirmer, (s,)),
        ensures
            r.confirmer() == confirmer,
            r.publisher() == publisher,
    {
        PipelineEngine { publisher, registry_query: NullRegistryQuery, confirmer }
    }
}

impl<P: Publisher, Q: RegistryQuery, C: Fn(&str) -> bool> PipelineEngine<P, Q, C> {
    #[verifier::type_invariant]
    spec fn confirmer_total(self) -> bool {
        forall|s: &str| call_requires(self.confirmer, (s,))
    }

    /// The confirmer asked before publishing to a stage that needs it.
    pub closed spec fn confirmer(self) -> C {
        self.confirmer
    }

    /// The publisher the engine publishes through.
    pub closed spec fn publisher(self) -> P {
        self.publisher
    }

    /// The query asked whether a version is already published.
    pub closed spec fn query(self) -> Q {
        self.registry_query
    }

    /// What running a stage answers once the registry's answer `q` is
    /// known: skip, or ask the confirmer the prompt and publish if it
    /// agrees (`Aborted` if not), or publish straight away. Publishing
    /// hands the crate, the stage's registry and the options unchanged to
    /// the publisher and answers what it answers.
    pub open spec fn stage_after(
        self,
        krate: CrateRef,
        stage: Stage,
        opts: PublishOpts,
        q: Result<bool, PromoteError>,
        r: Result<(), PromoteError>,
    ) -> bool {
        match spec_stage_step(stage, opts, q == Ok::<bool, PromoteError>(true)) {
            StageStep::Skip => r == Ok::<(), PromoteError>(()),
            StageStep::Publish => self.publisher().published(krate, stage.registry, opts, r),
            StageStep::Confirm => exists|s: &str, b: bool|
                s@ == spec_confirm_prompt(krate.name@, krate.version@, stage.registry.name@)
                    && #[trigger] call_ensures(self.confirmer(), (s,), b) && (if b {
                    self.publisher().published(krate, stage.registry, opts, r)
                } else {
                    r == Err::<(), PromoteError>(PromoteError::Aborted)
                }),
        }
    }

    /// What running a stage answers: without `--force` the registry is
    /// asked whether the version is there (an error counts as not there);
    /// with it, nobody is asked.
    pub open spec fn stage_outcome(self, krate: CrateRef, stage: Stage, opts: PublishOpts, r: Result<
        (),
        PromoteError,
    >) -> bool {
        exists|q: Result<bool, PromoteError>|
            {
                &&& opts.force ==> q == Ok::<bool, PromoteError>(false)
                &&& !opts.force ==> self.query().exists_answer(
                    stage.registry,
                    krate.name@,
                    krate.version@,
                    q,
                )
                &&& #[trigger] self.stage_after(krate, stage, opts, q, r)
            }
    }

    /// What running `stages[i..]` in order answers: the first stage's
    /// error, else what the rest answers; `Ok` when none is left.
    pub open spec fn stages_outcome(
        self,
        krate: CrateRef,
        stages: Seq<Stage>,
        i: int,
        opts: PublishOpts,
        r: Result<(), PromoteError>,
    ) -> bool
        decreases stages.len() - i,
    {
        if i >= stages.len() || i < 0 {
            r == Ok::<(), PromoteError>(())
        } else {
            exists|r0: Result<(), PromoteError>|
                #[trigger] self.stage_outcome(krate, stages[i], opts, r0) && (r0 is Err ==> r == r0)
                    && (r0 is Ok ==> self.stages_outcome(krate, stages, i + 1, opts, r))
        }
    }

    /// What promoting past `current` answers: the two stage errors, else
    /// what running the stage after `current` answers.
    pub open spec fn next_outcome(
        self,
        krate: CrateRef,
        pipeline: Pipeline,
        current: Seq<char>,
        opts: PublishOpts,
        r: Result<(), PromoteError>,
    ) -> bool {
        &&& !pipeline.has_stage(current) ==> (r matches Err(
            PromoteError::StageNotFound { pipeline: p, stage: s },
        ) && p@ == pipeline.name@ && s@ == current)
        &&& pipeline.has_stage(current) && pipeline.first_stage_index(current) + 1
            == pipeline.stages@.len() ==> (r matches Err(
            PromoteError::NoNextStage { pipeline: p, stage: s },
        ) && p@ == pipeline.name@ && s@ == current)
        &&& pipeline.has_stage(current) && pipeline.first_stage_index(current) + 1
            < pipeline.stages@.len() ==> self.stage_outcome(
            krate,
            pipeline.stages@[pipeline.first_stage_index(current) + 1],
            opts,
            r,
        )
    }

    /// Construct with an explicit registry query.
    pub fn with_query(publisher: P, registry_query: Q, confirmer: C) -> (r: Self)
        requires
            forall|s: &str| call_requires(confirmer, (s,)),
        ensures
            r.confirmer() == confirmer,
            r.publisher() == publisher,
            r.query() == registry_query,
    {
        PipelineEngine { publisher, registry_query, confirmer }
    }

    /// Publish to a single stage: skip a version the registry already has
    /// (unless forced), ask the confirmer where the stage needs it, then
    /// publish. A refusal never reaches the publisher.
    pub fn run_stage(&self, krate: &CrateRef, stage: &Stage, opts: &PublishOpts) -> (r: Result<
        (),
        PromoteError,
    >)
        ensures
            opts.force && needs_confirmation(*stage, *opts) && (forall|s: &str, b: bool|
                call_ensures(self.confirmer(), (s,), b) ==> !b) ==> r == Err::<(), PromoteError>(
                PromoteError::Aborted,
            ),
            needs_confirmation(*stage, *opts) && (forall|s: &str, b: bool|
                call_ensures(self.confirmer(), (s,), b) ==> !b) ==> (r is Ok || r == Err::<
                (),
                PromoteError,
            >(PromoteError::Aborted)),
            self.stage_outcome(*krate, *stage, *opts, r),
    {
        proof {
            use_type_invariant(self);
        }
        let mut q: Result<bool, PromoteError> = Ok(false);
        if !opts.force {
            q = self.registry_query.crate_exists(
                &stage.registry,
                krate.name.as_str(),
                krate.version.as_str(),
            );
        }
        let already = match q {
            Ok(true) => true,
            _ => false,
        };
        let r = match stage_step(stage, opts, already) {
            StageStep::Skip => Ok(()),
            StageStep::Confirm => {
                let prompt = confirm_prompt(krate, stage);
                let question = prompt.as_str();
                let approved = (self.confirmer)(question);
                assert(call_ensures(self.confirmer, (question,), approved));
                assert(self.confirmer() == self.confirmer);
                let r = if approved {
                    self.publisher.publish(krate, &stage.registry, opts)
                } else {
                    Err(PromoteError::Aborted)
                };
                assert(self.stage_after(*krate, *stage, *opts, q, r));
                r
            },
            StageStep::Publish => self.publisher.publish(krate, &stage.registry, opts),
        };
        assert(self.stage_after(*krate, *stage, *opts, q, r));
        r
    }

    /// Run all stages in the pipeline sequentially, stopping at the first
    /// failure. With `--force` and a confirmer that refuses, the run stops
    /// with an error at the first stage that needs confirmation (with
    /// `Aborted` when that is the first stage); without `--force`, a
    /// refused run of stages that all need confirmation either completes
    /// or is `Aborted`.
    pub fn run_full(&self, krate: &CrateRef, pipeline: &Pipeline, opts: &PublishOpts) -> (r: Result<
        (),
        PromoteError,
    >)
        ensures
            pipeline.stages@.len() == 0 ==> r is Ok,
            opts.force && refuses_all(self.confirmer()) && (exists|i: int|
                0 <= i < pipeline.stages@.len() && needs_confirmation(
                    #[trigger] pipeline.stages@[i],
                    *opts,
                )) ==> r is Err,
            opts.force && refuses_all(self.confirmer()) && pipeline.stages@.len() > 0
                && needs_confirmation(pipeline.stages@[0], *opts) ==> r == Err::<(), PromoteError>(
                PromoteError::Aborted,
            ),
            refuses_all(self.confirmer()) && (forall|i: int|
                0 <= i < pipeline.stages@.len() ==> needs_confirmation(
                    #[trigger] pipeline.stages@[i],
                    *opts,
                )) ==> (r is Ok || r == Err::<(), PromoteError>(PromoteError::Aborted)),
            self.stages_outcome(*krate, pipeline.stages@, 0, *opts, r),
    {
        let ghost st = pipeline.stages@;
        let mut i: usize = 0;
        while i < pipeline.stages.len()
            invariant
                i <= pipeline.stages@.len(),
                st == pipeline.stages@,
                opts.force && refuses_all(self.confirmer()) ==> forall|j: int|
                    0 <= j < i ==> !needs_confirmation(#[trigger] pipeline.stages@[j], *opts),
                forall|x: Result<(), PromoteError>|
                    #[trigger] self.stages_outcome(*krate, st, i as int, *opts, x)
                        ==> self.stages_outcome(*krate, st, 0, *opts, x),
            decreases pipeline.stages@.len() - i,
        {
            let step = self.run_stage(krate, &pipeline.stages[i], opts);
            let ghost gi = i as int;
            if let Err(e) = step {
                proof {
                    assert(self.stage_outcome(*krate, st[gi], *opts, step));
                    assert(self.stages_outcome(*krate, st, gi, *opts, step));
                }
                return Err(e);
            }
            proof {
                assert forall|x: Result<(), PromoteError>|
                    #[trigger] self.stages_outcome(*krate, st, gi + 1, *opts, x)
                        implies self.stages_outcome(*krate, st, 0, *opts, x) by {
                    assert(self.stage_outcome(*krate, st[gi], *opts, step));
                    assert(self.stages_outcome(*krate, st, gi, *opts, x));
                }
            }
            i = i + 1;
        }
        proof {
            assert(self.stages_outcome(*krate, st, i as int, *opts, Ok::<(), PromoteError>(())));
        }
        Ok(())
    }

    /// Advance from `current_stage` to the next stage in the pipeline.
    pub fn promote_next(
        &self,
        krate: &CrateRef,
        pipeline: &Pipeline,
        current_stage: &str,
        opts: &PublishOpts,
    ) -> (r: Result<(), PromoteError>)
        ensures
            !pipeline.has_stage(current_stage@) ==> (r matches Err(
                PromoteError::StageNotFound { pipeline: p, stage: s },
            ) && p@ == pipeline.name@ && s@ == current_stage@),
            pipeline.has_stage(current_stage@) && pipeline.first_stage_index(current_stage@) + 1
                == pipeline.stages@.len() ==> (r matches Err(
                PromoteError::NoNextStage { pipeline: p, stage: s },
            ) && p@ == pipeline.name@ && s@ == current_stage@),
            self.next_outcome(*krate, *pipeline, current_stage@, *opts, r),
    {
        let idx = match pipeline.position(current_stage) {
            Some(i) => i,
            None => {
                return Err(
                    PromoteError::StageNotFound {
                        pipeline: pipeline.name.clone(),
                        stage: owned(current_stage),
                    },
                );
            },
        };
        if idx >= pipeline.stages.len() - 1 {
            return Err(
                PromoteError::NoNextStage {
                    pipeline: pipeline.name.clone(),
                    stage: owned(current_stage),
                },
            );
        }
        self.run_stage(krate, &pipeline.stages[idx + 1], opts)
    }
}

impl<P: Publisher, Q: RegistryQuery, C: Fn(&str) -> bool> PipelineRunner for PipelineEngine<P, Q, C> {
    open spec fn stage_ran(&self, krate: CrateRef, stage: Stage, opts: PublishOpts, r: Result<
        (),
        PromoteError,
    >) -> bool {
        self.stage_outcome(krate, stage, opts, r)
    }

    open spec fn full_ran(&self, krate: CrateRef, pipeline: Pipeline, opts: PublishOpts, r: Result<
        (),
        PromoteError,
    >) -> bool {
        self.stages_outcome(krate, pipeline.stages@, 0, opts, r)
    }

    open spec fn next_ran(
        &self,
        krate: CrateRef,
        pipeline: Pipeline,
        current: Seq<char>,
        opts: PublishOpts,
        r: Result<(), PromoteError>,
    ) -> bool {
        self.next_outcome(krate, pipeline, current, opts, r)
    }

    fn run_stage(&self, krate: &CrateRef, stage: &Stage, opts: &PublishOpts) -> (r: Result<
        (),
        PromoteError,
    >)
        ensures
            opts.force && needs_confirmation(*stage, *opts) && refuses_all(self.confirmer()) ==> r
                == Err::<(), PromoteError>(PromoteError::Aborted),
            needs_confirmation(*stage, *opts) && refuses_all(self.confirmer()) ==> (r is Ok || r
                == Err::<(), PromoteError>(PromoteError::Aborted)),
    {
        PipelineEngine::run_stage(self, krate, stage, opts)
    }

    fn run_full(&self, krate: &CrateRef, pipeline: &Pipeline, opts: &PublishOpts) -> (r: Result<
        (),
        PromoteError,
    >)
        ensures
            pipeline.stages@.len() == 0 ==> r is Ok,
            opts.force && refuses_all(self.confirmer()) && (exists|i: int|
                0 <= i < pipeline.stages@.len() && needs_confirmation(
                    #[trigger] pipeline.stages@[i],
                    *opts,
                )) ==> r is Err,
            opts.force && refuses_all(self.confirmer()) && pipeline.stages@.len() > 0
                && needs_confirmation(pipeline.stages@[0], *opts) ==> r == Err::<(), PromoteError>(
                PromoteError::Aborted,
            ),
            refuses_all(self.confirmer()) && (forall|i: int|
                0 <= i < pipeline.stages@.len() ==> needs_confirmation(
                    #[trigger] pipeline.stages@[i],
                    *opts,
                )) ==> (r is Ok || r == Err::<(), PromoteError>(PromoteError::Aborted)),
    {
        PipelineEngine::run_full(self, krate, pipeline, opts)
    }

    fn promote_next(
        &self,
        krate: &CrateRef,
        pipeline: &Pipeline,
        current_stage: &str,
        opts: &PublishOpts,
    ) -> (r: Result<(), PromoteError>)
        ensures
            !pipeline.has_stage(current_stage@) ==> (r matches Err(
                PromoteError::StageNotFound { pipeline: p, stage: s },
            ) && p@ == pipeline.name@ && s@ == current_stage@),
            pipeline.has_stage(current_stage@) && pipeline.first_stage_index(current_stage@) + 1
                == pipeline.stages@.len() ==> (r matches Err(
                PromoteError::NoNextStage { pipeline: p, stage: s },
            ) && p@ == pipeline.name@ && s@ == current_stage@),
    {
        PipelineEngine::promote_next(self, krate, pipeline, current_stage, opts)
    }
}

/// A no-op registry query: lists nothing and never finds a version.
pub struct NullRegistryQuery;

impl RegistryQuery for NullRegistryQuery {
    open spec fn exists_answer(
        &self,
        registry: Registry,
        name: Seq<char>,
        version: Seq<char>,
        r: Result<bool, PromoteError>,
    ) -> bool {
        r == Ok::<bool, PromoteError>(false)
    }

    open spec fn listed(&self, registry: Registry, r: Result<Vec<CrateInfo>, PromoteError>) -> bool {
        r matches Ok(v) && v@.len() == 0
    }

    fn list_crates(&self, registry: &Registry) -> (r: Result<Vec<CrateInfo>, PromoteError>)
        ensures
            r matches Ok(v) && v@.len() == 0,
    {
        Ok(Vec::new())
    }

    fn crate_exists(&self, registry: &Registry, name: &str, version: &str) -> (r: Result<
        bool,
        PromoteError,
    >)
        ensures
            r == Ok::<bool, PromoteError>(false),
    {
        Ok(false)
    }
}

/// The position of the first occurrence of `name` in `names`.
pub open spec fn first_index_of(names: Seq<Seq<char>>, name: Seq<char>) -> int {
    choose|i: int|
        0 <= i < names.len() && names[i] == name && forall|j: int|
            0 <= j < i ==> #[trigger] names[j] != name
}

/// Finds the first occurrence of `name` (`Iterator::position`).
pub fn position_of(names: &Vec<String>, name: &str) -> (r: Option<usize>)
    ensures
        r is None <==> !strs_view(names@).contains(name@),
        r matches Some(i) ==> {
            &&& i < names@.len()
            &&& names@[i as int]@ == name@
            &&& i == first_index_of(strs_view(names@), name@)
        },
{
    let ghost v = strs_view(names@);
    let mut i: usize = 0;
    while i < names.len()
        invariant
            i <= names@.len(),
            v == strs_view(names@),
            forall|j: int| 0 <= j < i ==> #[trigger] v[j] != name@,
        decreases names@.len() - i,
    {
        if string_eq(&names[i], name) {
            proof {
                assert(v[i as int] == name@);
                let k = first_index_of(v, name@);
                assert(0 <= k < v.len() && v[k] == name@ && forall|j: int|
                    0 <= j < k ==> #[trigger] v[j] != name@);
                if k < i {
                    assert(v[k] != name@);
                }
                if k > i {
                    assert(v[i as int] != name@);
                }
            }
            return Some(i);
        }
        assert(v[i as int] != name@);
        i = i + 1;
    }
    proof {
        if v.contains(name@) {
            let j = choose|j: int| 0 <= j < v.len() && v[j] == name@;
            assert(v[j] != name@);
        }
    }
    None
}

/// The message for a stage name missing from the branch stages.
pub open spec fn unknown_stage_message(prefix: Seq<char>, stage: Seq<char>, suffix: Seq<char>) -> Seq<
    char,
> {
    prefix + "'"@ + stage + "'"@ + suffix
}

/// The message for the last stage, which has no successor.
pub open spec fn no_next_stage_message(stage: Seq<char>) -> Seq<char> {
    "no next stage after '"@ + stage + "'"@
}

/// The stage after `from` in a list of stage names. A missing name gives
/// `Other(<prefix>'<from>'<suffix>)`, the last name `Other(no next stage
/// after '<from>')`.
pub fn next_stage<'a>(stages: &'a Vec<String>, from: &str, prefix: &str, suffix: &str) -> (r: Result<
    &'a String,
    PromoteError,
>)
    ensures
        !strs_view(stages@).contains(from@) ==> (r matches Err(PromoteError::Other(m)) && m@
            == unknown_stage_message(prefix@, from@, suffix@)),
        strs_view(stages@).contains(from@) && first_index_of(strs_view(stages@), from@) + 1
            == stages@.len() ==> (r matches Err(PromoteError::Other(m)) && m@
            == no_next_stage_message(from@)),
        strs_view(stages@).contains(from@) && first_index_of(strs_view(stages@), from@) + 1
            < stages@.len() ==> r == Ok::<&String, PromoteError>(
            &stages@[first_index_of(strs_view(stages@), from@) + 1],
        ),
        r matches Ok(s) ==> {
            &&& strs_view(stages@).contains(from@)
            &&& first_index_of(strs_view(stages@), from@) + 1 < stages@.len()
            &&& s@ == strs_view(stages@)[first_index_of(strs_view(stages@), from@) + 1]
        },
{
    match position_of(stages, from) {
        None => {
            let a = cat3(prefix, "'", from);
            Err(PromoteError::Other(cat3(a.as_str(), "'", suffix)))
        },
        Some(i) => {
            if i < stages.len() - 1 {
                Ok(&stages[i + 1])
            } else {
                Err(PromoteError::Other(cat3("no next stage after '", from, "'")))
            }
        },
    }
}

/// The tag a release gets: `v<version>`.
pub open spec fn spec_release_tag(version: Seq<char>) -> Seq<char> {
    "v"@ + version
}

/// The tag message of a release: `Release <name> v<version>`.
pub open spec fn spec_release_message(name: Seq<char>, version: Seq<char>) -> Seq<char> {
    "Release "@ + name + " v"@ + version
}

/// The files a version bump commits.
pub open spec fn bump_files() -> Seq<Seq<char>> {
    seq!["Cargo.toml"@, "promote.lock"@]
}

/// The commit message of a version bump: `bump: <name> v<version>`.
pub open spec fn spec_bump_message(name: Seq<char>, version: Seq<char>) -> Seq<char> {
    "bump: "@ + name + " v"@ + version
}

/// Drives a crate through git branch-based stages.
pub struct BranchPipeline;

impl BranchPipeline {
    /// Commit and push a version bump: stage `Cargo.toml` and
    /// `promote.lock`, commit as `bump: <name> v<new_version>`, push.
    /// The manifest and the lock have been written by then.
    pub fn bump<G: GitCommitter + ?Sized>(krate: &CrateRef, new_version: &str, git: &G) -> (r: Result<
        (),
        PromoteError,
    >)
        ensures
            exists|st: Result<(), PromoteError>|
                #[trigger] git.staged(bump_files(), st) && (st is Err ==> r == st) && (st is Ok
                    ==> exists|c: Result<(), PromoteError>|
                    #[trigger] git.committed(spec_bump_message(krate.name@, new_version@), c) && (
                    c is Err ==> r == c) && (c is Ok ==> git.pushed_head(r))),
    {
        let files: [&str; 2] = ["Cargo.toml", "promote.lock"];
        let fs = files.as_slice();
        assert(file_names(fs@) =~= bump_files());
        let staged = git.stage(fs);
        if let Err(e) = staged {
            return Err(e);
        }
        let message = Self::bump_message(krate, new_version);
        let committed = git.commit(message.as_str());
        if let Err(e) = committed {
            return Err(e);
        }
        let pushed = git.push_head();
        assert(git.committed(spec_bump_message(krate.name@, new_version@), committed));
        pushed
    }

    /// The commit message of a bump.
    pub fn bump_message(krate: &CrateRef, new_version: &str) -> (r: String)
        ensures
            r@ == spec_bump_message(krate.name@, new_version@),
    {
        let a = cat3("bump: ", krate.name.as_str(), " v");
        cat(a.as_str(), new_version)
    }

    /// Branch from one stage to the next, after checking that the source
    /// hash recorded in promote.lock (`lock`) is the current one
    /// (`current_hash`): fast-forward the next branch, then push it.
    pub fn branch<M: BranchMerger + ?Sized, U: RemotePusher + ?Sized>(
        stages: &Vec<String>,
        from_stage: &str,
        merger: &M,
        pusher: &U,
        lock: &Result<PromoteLock, PromoteError>,
        current_hash: &Result<String, PromoteError>,
    ) -> (r: Result<(), PromoteError>)
        ensures
            !strs_view(stages@).contains(from_stage@) ==> (r matches Err(PromoteError::Other(m))
                && m@ == unknown_stage_message("unknown stage "@, from_stage@, ""@)),
            strs_view(stages@).contains(from_stage@) && first_index_of(
                strs_view(stages@),
                from_stage@,
            ) + 1 == stages@.len() ==> (r matches Err(PromoteError::Other(m)) && m@
                == no_next_stage_message(from_stage@)),
            strs_view(stages@).contains(from_stage@) && first_index_of(
                strs_view(stages@),
                from_stage@,
            ) + 1 < stages@.len() ==> match (lock, current_hash) {
                (Err(e), _) => r == Err::<(), PromoteError>(*e),
                (Ok(_), Err(e)) => r == Err::<(), PromoteError>(*e),
                (Ok(l), Ok(h)) => {
                    &&& l.source_hash@ != h@ ==> (r matches Err(PromoteError::Other(m)) && m@
                        == mismatch_message(l.source_hash@, h@))
                    &&& l.source_hash@ == h@ ==> exists|m: Result<(), PromoteError>|
                        #[trigger] merger.merged(
                            from_stage@,
                            strs_view(stages@)[first_index_of(strs_view(stages@), from_stage@) + 1],
                            m,
                        ) && (m is Err ==> r == m) && (m is Ok ==> pusher.pushed_branch(
                            strs_view(stages@)[first_index_of(strs_view(stages@), from_stage@) + 1],
                            r,
                        ))
                },
            },
    {
        let to_stage = match next_stage(stages, from_stage, "unknown stage ", "") {
            Ok(s) => s,
            Err(e) => {
                return Err(e);
            },
        };
        let lock = match lock {
            Ok(l) => l,
            Err(e) => {
                return Err(e.clone());
            },
        };
        let current = match current_hash {
            Ok(h) => h,
            Err(e) => {
                return Err(e.clone());
            },
        };
        let verified = lock.verify_hash(current.as_str());
        if let Err(e) = verified {
            return Err(e);
        }
        let merged = merger.fast_forward(from_stage, to_stage.as_str());
        proof {
            assert(to_stage@ == strs_view(stages@)[first_index_of(strs_view(stages@), from_stage@)
                + 1]);
        }
        assert(merger.merged(from_stage@, to_stage@, merged));
        if let Err(e) = merged {
            return Err(e);
        }
        pusher.push_branch(to_stage.as_str())
    }

    /// The tag of a release.
    pub fn release_tag(krate: &CrateRef) -> (r: String)
        ensures
            r@ == spec_release_tag(krate.version@),
    {
        cat("v", krate.version.as_str())
    }

    /// The tag message of a release.
    pub fn release_message(krate: &CrateRef) -> (r: String)
        ensures
            r@ == spec_release_message(krate.name@, krate.version@),
    {
        let a = cat3("Release ", krate.name.as_str(), " v");
        cat(a.as_str(), krate.version.as_str())
    }

    /// Publish: create the tag `v<version>` with message `Release <name>
    /// v<version>`, then push it.
    pub fn publish<T: Tagger + ?Sized, U: RemotePusher + ?Sized>(
        krate: &CrateRef,
        release_branch: &str,
        tagger: &T,
        pusher: &U,
    ) -> (r: Result<(), PromoteError>)
        ensures
            exists|t: Result<(), PromoteError>|
                #[trigger] tagger.tagged(
                    spec_release_tag(krate.version@),
                    spec_release_message(krate.name@, krate.version@),
                    t,
                ) && (t is Err ==> r == t) && (t is Ok ==> pusher.pushed_tag(
                    spec_release_tag(krate.version@),
                    r,
                )),
    {
        let tag = Self::release_tag(krate);
        let message = Self::release_message(krate);
        let created = tagger.create_tag(tag.as_str(), message.as_str());
        if let Err(e) = created {
            return Err(e);
        }
        let pushed = pusher.push_tag(tag.as_str());
        assert(tagger.tagged(tag@, message@, created));
        pushed
    }
}

} // verus!
