use cargo_promote::domain::pipeline::{confirm_prompt, BranchPipeline, PipelineEngine};
use cargo_promote::domain::promote_lock::PromoteLock;
use cargo_promote::domain::traits::{
    BranchMerger, PipelineRunner, Publisher, RegistryQuery, RemotePusher, Tagger,
};
use cargo_promote::domain::{
    CrateInfo, CrateRef, Pipeline, PromoteError, PublishOpts, Registry, Stage,
};
use std::cell::RefCell;
use std::path::PathBuf;

struct RecordingPublisher {
    published_to: RefCell<Vec<String>>,
}

impl RecordingPublisher {
    fn new() -> Self {
        Self {
            published_to: RefCell::new(Vec::new()),
        }
    }

    fn published(&self) -> Vec<String> {
        self.published_to.borrow().clone()
    }
}

impl Publisher for RecordingPublisher {
    fn publish(
        &self,
        _krate: &CrateRef,
        registry: &Registry,
        _opts: &PublishOpts,
    ) -> Result<(), PromoteError> {
        self.published_to.borrow_mut().push(registry.name.clone());
        Ok(())
    }
}

fn test_crate() -> CrateRef {
    CrateRef {
        name: "test-crate".to_string(),
        version: "0.1.0".to_string(),
        manifest_path: PathBuf::from("Cargo.toml"),
    }
}

fn reg(name: &str, confirm: bool) -> Registry {
    Registry {
        name: name.to_string(),
        cargo_name: Some(name.to_string()),
        api_url: None,
        confirm,
    }
}

fn two_stage_pipeline() -> Pipeline {
    Pipeline {
        name: "default".to_string(),
        stages: vec![
            Stage {
                registry: reg("staging", false),
            },
            Stage {
                registry: reg("production", true),
            },
        ],
    }
}

#[test]
fn run_full_publishes_all_stages_in_order() {
    let pub_ = RecordingPublisher::new();
    let engine = PipelineEngine::new(&pub_, |_| true);
    let opts = PublishOpts {
        skip_confirm: true,
        ..Default::default()
    };

    engine
        .run_full(&test_crate(), &two_stage_pipeline(), &opts)
        .expect("should succeed");

    assert_eq!(pub_.published(), vec!["staging", "production"]);
}

#[test]
fn run_stage_with_confirm_aborts_on_deny() {
    let pub_ = RecordingPublisher::new();
    let engine = PipelineEngine::new(&pub_, |_| false);
    let stage = Stage {
        registry: reg("production", true),
    };

    let result = engine.run_stage(&test_crate(), &stage, &PublishOpts::default());
    assert!(matches!(result, Err(PromoteError::Aborted)));
    assert!(pub_.published().is_empty());
}

#[test]
fn run_stage_skips_confirm_when_flag_set() {
    let pub_ = RecordingPublisher::new();
    let engine = PipelineEngine::new(&pub_, |_| panic!("should not be called"));
    let stage = Stage {
        registry: reg("production", true),
    };
    let opts = PublishOpts {
        skip_confirm: true,
        ..Default::default()
    };

    engine
        .run_stage(&test_crate(), &stage, &opts)
        .expect("should succeed");
    assert_eq!(pub_.published(), vec!["production"]);
}

#[test]
fn promote_next_advances_to_correct_stage() {
    let pub_ = RecordingPublisher::new();
    let engine = PipelineEngine::new(&pub_, |_| true);
    let opts = PublishOpts {
        skip_confirm: true,
        ..Default::default()
    };

    engine
        .promote_next(&test_crate(), &two_stage_pipeline(), "staging", &opts)
        .expect("should succeed");

    assert_eq!(pub_.published(), vec!["production"]);
}

#[test]
fn promote_next_errors_on_unknown_stage() {
    let pub_ = RecordingPublisher::new();
    let engine = PipelineEngine::new(&pub_, |_| true);

    let result = engine.promote_next(
        &test_crate(),
        &two_stage_pipeline(),
        "nonexistent",
        &PublishOpts::default(),
    );
    assert!(matches!(result, Err(PromoteError::StageNotFound { .. })));
}

#[test]
fn pipeline_engine_implements_pipeline_runner() {
    let pub_ = RecordingPublisher::new();
    let engine = PipelineEngine::new(&pub_, |_| true);
    let runner: &dyn PipelineRunner = &engine;
    let opts = PublishOpts {
        skip_confirm: true,
        ..Default::default()
    };
    runner
        .run_stage(
            &test_crate(),
            &Stage {
                registry: reg("staging", false),
            },
            &opts,
        )
        .expect("should succeed via trait object");
    assert_eq!(pub_.published(), vec!["staging"]);
}

#[test]
fn promote_next_errors_on_last_stage() {
    let pub_ = RecordingPublisher::new();
    let engine = PipelineEngine::new(&pub_, |_| true);

    let result = engine.promote_next(
        &test_crate(),
        &two_stage_pipeline(),
        "production",
        &PublishOpts::default(),
    );
    assert!(matches!(result, Err(PromoteError::NoNextStage { .. })));
}

// ── BranchPipeline ──────────────────────────────────────────────

struct MockMerger {
    called: RefCell<Vec<(String, String)>>,
}

impl MockMerger {
    fn new() -> Self {
        Self {
            called: RefCell::new(Vec::new()),
        }
    }
}

impl BranchMerger for MockMerger {
    fn fast_forward(&self, source: &str, target: &str) -> Result<(), PromoteError> {
        self.called
            .borrow_mut()
            .push((source.to_string(), target.to_string()));
        Ok(())
    }
}

struct MockPusher {
    branches: RefCell<Vec<String>>,
    tags: RefCell<Vec<String>>,
}

impl MockPusher {
    fn new() -> Self {
        Self {
            branches: RefCell::new(Vec::new()),
            tags: RefCell::new(Vec::new()),
        }
    }
}

impl RemotePusher for MockPusher {
    fn push_branch(&self, branch: &str) -> Result<(), PromoteError> {
        self.branches.borrow_mut().push(branch.to_string());
        Ok(())
    }
    fn push_tag(&self, tag: &str) -> Result<(), PromoteError> {
        self.tags.borrow_mut().push(tag.to_string());
        Ok(())
    }
}

struct MockTagger {
    tags: RefCell<Vec<(String, String)>>,
}

impl MockTagger {
    fn new() -> Self {
        Self {
            tags: RefCell::new(Vec::new()),
        }
    }
}

impl Tagger for MockTagger {
    fn create_tag(&self, name: &str, message: &str) -> Result<(), PromoteError> {
        self.tags
            .borrow_mut()
            .push((name.to_string(), message.to_string()));
        Ok(())
    }
}

/// The source hash of a tree with `Cargo.toml` and `src/lib.rs`.
fn tree_hash() -> String {
    PromoteLock::compute_source_hash(&vec![
        b"name = \"test\"".to_vec(),
        b"fn main() {}".to_vec(),
    ])
}

fn lock_for(hash: String) -> PromoteLock {
    PromoteLock {
        version: "0.1.0".to_string(),
        source_hash: hash,
        bumped_at: "20260601::120000".to_string(),
        entered_pipeline: "develop".to_string(),
    }
}

#[test]
fn branch_pipeline_branch_merges_to_next_stage() {
    let hash = tree_hash();
    let lock = Ok(lock_for(hash.clone()));
    let stages = vec![
        "develop".to_string(),
        "staging".to_string(),
        "main".to_string(),
    ];
    let merger = MockMerger::new();
    let pusher = MockPusher::new();

    BranchPipeline::branch(&stages, "develop", &merger, &pusher, &lock, &Ok(hash)).unwrap();

    assert_eq!(
        merger.called.borrow().as_slice(),
        &[("develop".to_string(), "staging".to_string())]
    );
    assert_eq!(pusher.branches.borrow().as_slice(), &["staging"]);
}

#[test]
fn branch_pipeline_branch_errors_on_unknown_stage() {
    let stages = vec!["develop".to_string(), "main".to_string()];
    let merger = MockMerger::new();
    let pusher = MockPusher::new();
    let missing: Result<PromoteLock, PromoteError> =
        Err(PromoteError::Other("cannot read promote.lock".to_string()));
    let hash = Ok(tree_hash());

    let result = BranchPipeline::branch(&stages, "nonexistent", &merger, &pusher, &missing, &hash);
    assert!(result.is_err());
    assert!(
        result.unwrap_err().message().contains("nonexistent"),
        "error should mention the unknown stage"
    );
}

#[test]
fn branch_pipeline_branch_errors_on_last_stage() {
    let hash = tree_hash();
    let lock = Ok(lock_for(hash.clone()));
    let stages = vec!["develop".to_string(), "main".to_string()];
    let merger = MockMerger::new();
    let pusher = MockPusher::new();

    let result = BranchPipeline::branch(&stages, "main", &merger, &pusher, &lock, &Ok(hash));
    assert!(result.is_err());
    assert!(result.unwrap_err().message().contains("no next stage"));
}

#[test]
fn branch_pipeline_publish_creates_and_pushes_tag() {
    let krate = test_crate();
    let tagger = MockTagger::new();
    let pusher = MockPusher::new();

    BranchPipeline::publish(&krate, "main", &tagger, &pusher).unwrap();

    assert_eq!(
        tagger.tags.borrow().as_slice(),
        &[("v0.1.0".to_string(), "Release test-crate v0.1.0".to_string())]
    );
    assert_eq!(pusher.tags.borrow().as_slice(), &["v0.1.0"]);
}

#[test]
fn branch_refuses_a_changed_tree_and_does_not_merge() {
    let lock = Ok(lock_for("sha256:abc".to_string()));
    let stages = vec!["develop".to_string(), "main".to_string()];
    let merger = MockMerger::new();
    let pusher = MockPusher::new();

    let result =
        BranchPipeline::branch(&stages, "develop", &merger, &pusher, &lock, &Ok("sha256:def".to_string()));
    assert_eq!(
        result.unwrap_err().message(),
        "source hash mismatch: lock says 'sha256:abc' but current is 'sha256:def'"
    );
    assert!(merger.called.borrow().is_empty());
    assert!(pusher.branches.borrow().is_empty());
}

/// A registry that has every version already.
struct Everything;

impl RegistryQuery for Everything {
    fn list_crates(&self, _r: &Registry) -> Result<Vec<CrateInfo>, PromoteError> {
        Ok(vec![])
    }
    fn crate_exists(&self, _r: &Registry, _n: &str, _v: &str) -> Result<bool, PromoteError> {
        Ok(true)
    }
}

#[test]
fn run_stage_skips_a_version_already_published_unless_forced() {
    let pub_ = RecordingPublisher::new();
    let engine = PipelineEngine::with_query(&pub_, Everything, |_| true);
    let stage = Stage {
        registry: reg("staging", false),
    };
    engine.run_stage(&test_crate(), &stage, &PublishOpts::default()).unwrap();
    assert!(pub_.published().is_empty());
    let forced = PublishOpts {
        force: true,
        ..Default::default()
    };
    engine.run_stage(&test_crate(), &stage, &forced).unwrap();
    assert_eq!(pub_.published(), vec!["staging"]);
}

#[test]
fn confirm_prompt_names_crate_version_and_registry() {
    let prompt = confirm_prompt(&test_crate(), &Stage { registry: reg("production", true) });
    assert_eq!(prompt, "About to publish test-crate v0.1.0 to 'production'. Continue?");
}

#[test]
fn bump_message_names_crate_and_new_version() {
    assert_eq!(
        BranchPipeline::bump_message(&test_crate(), "0.1.1"),
        "bump: test-crate v0.1.1"
    );
}
