use cargo_promote::config::Config;
use cargo_promote::domain::deferral::{Deferral, DeferralKind, DeferralStatus};
use cargo_promote::domain::depgraph::CrateNode;
use cargo_promote::domain::promote_lock::PromoteLock;
use cargo_promote::domain::traits::{
    BranchMerger, DeferralStore, Forge, GitCommitter, Notifier, PipelineRunner, RegistryQuery,
    RemotePusher, Tagger,
};
use cargo_promote::domain::{CrateInfo, CrateRef, Pipeline, PromoteError, PublishOpts, Stage};
use cargo_promote::{Api, PublishAllParams, PublishParams};
use std::cell::RefCell;
use std::path::{Path, PathBuf};
use std::rc::Rc;

#[derive(Default)]
struct Log {
    stages: RefCell<Vec<String>>,
    saved: RefCell<Vec<(String, DeferralStatus)>>,
    merges: RefCell<Vec<(String, String)>>,
    comments: RefCell<Vec<String>>,
}

struct Runner(Rc<Log>, Vec<String>);
impl PipelineRunner for Runner {
    fn run_stage(&self, krate: &CrateRef, stage: &Stage, _o: &PublishOpts) -> Result<(), PromoteError> {
        self.0.stages.borrow_mut().push(format!("{}@{}", krate.name, stage.registry.name));
        if self.1.contains(&krate.name) {
            Err(PromoteError::PublishFailed { registry: stage.registry.name.clone(), reason: "boom".into() })
        } else {
            Ok(())
        }
    }
    fn run_full(&self, k: &CrateRef, p: &Pipeline, o: &PublishOpts) -> Result<(), PromoteError> {
        for s in &p.stages {
            self.run_stage(k, s, o)?;
        }
        Ok(())
    }
    fn promote_next(&self, _k: &CrateRef, _p: &Pipeline, _c: &str, _o: &PublishOpts) -> Result<(), PromoteError> {
        Ok(())
    }
}

struct Query;
impl RegistryQuery for Query {
    fn list_crates(&self, _r: &cargo_promote::domain::Registry) -> Result<Vec<CrateInfo>, PromoteError> {
        Ok(vec![])
    }

    fn crate_exists(&self, _registry: &cargo_promote::domain::Registry, _name: &str, _version: &str) -> Result<bool, PromoteError> {
        Ok(false)
    }
}

struct Quiet;
impl Notifier for Quiet {
    fn on_deferred(&self, _d: &Deferral) -> Result<(), PromoteError> {
        Ok(())
    }
}

struct Git(Rc<Log>);
impl BranchMerger for Git {
    fn fast_forward(&self, s: &str, t: &str) -> Result<(), PromoteError> {
        self.0.merges.borrow_mut().push((s.into(), t.into()));
        Ok(())
    }
}
impl RemotePusher for Git {
    fn push_branch(&self, _b: &str) -> Result<(), PromoteError> {
        Ok(())
    }
    fn push_tag(&self, _t: &str) -> Result<(), PromoteError> {
        Ok(())
    }
}
impl Tagger for Git {
    fn create_tag(&self, _n: &str, _m: &str) -> Result<(), PromoteError> {
        Ok(())
    }
}
impl GitCommitter for Git {
    fn stage(&self, _f: &[&str]) -> Result<(), PromoteError> {
        Ok(())
    }
    fn commit(&self, _m: &str) -> Result<(), PromoteError> {
        Ok(())
    }
    fn push_head(&self) -> Result<(), PromoteError> {
        Ok(())
    }
}

struct Forge7(Rc<Log>);
impl Forge for Forge7 {
    fn create_release(&self, _t: &str, _n: &str, _b: &str) -> Result<(), PromoteError> {
        Ok(())
    }
    fn create_pr(&self, _t: &str, _b: &str, _h: &str, _base: &str) -> Result<u64, PromoteError> {
        Ok(7)
    }
    fn comment_pr(&self, n: u64, b: &str) -> Result<(), PromoteError> {
        self.0.comments.borrow_mut().push(format!("{n}: {b}"));
        Ok(())
    }
    fn close_pr(&self, _n: u64) -> Result<(), PromoteError> {
        Ok(())
    }
}

fn copy(d: &Deferral) -> Deferral {
    Deferral {
        ticket: d.ticket.clone(),
        crate_name: d.crate_name.clone(),
        version: d.version.clone(),
        from_stage: d.from_stage.clone(),
        to_stage: d.to_stage.clone(),
        status: d.status,
        kind: d.kind,
        deferred_at: d.deferred_at.clone(),
        source_hash: d.source_hash.clone(),
        command: d.command.clone(),
        reason: d.reason.clone(),
        pr_number: d.pr_number,
    }
}

struct Store(Rc<Log>, RefCell<Vec<Deferral>>);
impl DeferralStore for Store {
    fn save(&self, d: &Deferral) -> Result<(), PromoteError> {
        self.0.saved.borrow_mut().push((d.ticket.clone(), d.status));
        let mut all = self.1.borrow_mut();
        all.retain(|x| x.ticket != d.ticket);
        all.push(copy(d));
        Ok(())
    }
    fn load(&self, t: &str) -> Result<Deferral, PromoteError> {
        self.1
            .borrow()
            .iter()
            .find(|d| d.ticket == t)
            .map(copy)
            .ok_or_else(|| PromoteError::Other(format!("no ticket {t}")))
    }
    fn list_all(&self) -> Result<Vec<Deferral>, PromoteError> {
        Ok(self.1.borrow().iter().map(copy).collect())
    }
    fn list_pending(&self) -> Result<Vec<Deferral>, PromoteError> {
        Ok(self.1.borrow().iter().filter(|d| d.status == DeferralStatus::Pending).map(copy).collect())
    }
}

fn api(config: Config, failing: Vec<String>) -> (Api, Rc<Log>) {
    let log = Rc::new(Log::default());
    let api = Api::builder()
        .config(config)
        .engine(Box::new(Runner(log.clone(), failing)))
        .registry_query(Box::new(Query))
        .notifier(Box::new(Quiet))
        .forge(Box::new(Forge7(log.clone())))
        .git(Box::new(Git(log.clone())))
        .deferral_store(Box::new(Store(log.clone(), RefCell::new(vec![]))))
        .build()
        .unwrap();
    (api, log)
}

fn node(name: &str, deps: &[&str], unpublishable: bool, path_only: &[&str]) -> CrateNode {
    CrateNode {
        name: name.into(),
        version: "0.1.0".into(),
        manifest_path: PathBuf::from(format!("{name}/Cargo.toml")),
        internal_deps: deps.iter().map(|d| d.to_string()).collect(),
        unpublishable,
        path_only_deps: path_only.iter().map(|d| d.to_string()).collect(),
    }
}

fn krate() -> CrateRef {
    CrateRef { name: "mycrate".into(), version: "0.2.1".into(), manifest_path: PathBuf::from("Cargo.toml") }
}

const BRANCHES: &str = "[pipeline]\nstages = [\"develop\", \"staging\", \"main\"]\nrelease_branch = \"main\"\n";

#[test]
fn builder_names_the_first_missing_part() {
    let err = Api::builder().build().err().unwrap();
    assert_eq!(err.message(), "config required");
    let err = Api::builder().config(Config::default_config(None, None)).build().err().unwrap();
    assert_eq!(err.message(), "engine required");
}

#[test]
fn publish_all_publishes_in_dependency_order_and_reports_the_rest() {
    let cfg = Config::from_toml("[registries.cratebox]\n\n[packages.quiet]\npublish = false\n").unwrap();
    let (api, log) = api(cfg, vec!["lib".to_string()]);
    let nodes = vec![
        node("app", &["lib"], false, &[]),
        node("lib", &["core"], false, &[]),
        node("core", &[], false, &[]),
        node("tool", &[], true, &[]),
        node("wip", &["core"], false, &["core"]),
        node("quiet", &[], false, &[]),
    ];
    let params = PublishAllParams {
        root: Path::new("."),
        allow_dirty: false,
        dry_run: false,
        force: false,
        registry: None,
        skip: &[],
    };
    let res = api.publish_all(nodes, &params).unwrap();
    assert_eq!(res.publish_order, vec!["core", "lib", "app"]);
    assert_eq!(res.blocked, vec!["wip"]);
    assert_eq!(res.ok, 2);
    assert_eq!(res.failed, vec!["lib"]);
    assert_eq!(
        *log.stages.borrow(),
        vec!["core@cratebox", "lib@cratebox", "app@cratebox"]
    );
}

#[test]
fn publish_all_dry_run_only_plans_and_unknown_registry_fails() {
    let (api, log) = api(Config::from_toml("").unwrap(), vec![]);
    let mut params = PublishAllParams {
        root: Path::new("."),
        allow_dirty: false,
        dry_run: true,
        force: false,
        registry: None,
        skip: &[],
    };
    let res = api.publish_all(vec![node("a", &[], false, &[])], &params).unwrap();
    assert_eq!(res.publish_order, vec!["a"]);
    assert_eq!(res.ok, 0);
    assert!(log.stages.borrow().is_empty());
    params.dry_run = false;
    let err = api.publish_all(vec![node("a", &[], false, &[])], &params).err().unwrap();
    assert_eq!(err.message(), "unknown registry 'cratebox'");
}

#[test]
fn publish_goes_to_the_first_stage_or_the_named_registry() {
    let (api, log) = api(Config::default_config(None, None), vec![]);
    let none = PublishParams { path: None, package: None, allow_dirty: false, force: false, pipeline: None, registry: None };
    api.publish(&krate(), &none).unwrap();
    let named = PublishParams { registry: Some("crates-io"), ..none };
    api.publish(&krate(), &named).unwrap();
    assert_eq!(*log.stages.borrow(), vec!["mycrate@cratebox", "mycrate@crates-io"]);
    let bad = PublishParams { registry: Some("nowhere"), ..none };
    assert_eq!(api.publish(&krate(), &bad).unwrap_err().message(), "unknown registry 'nowhere'");
    let missing = PublishParams { pipeline: Some("fast"), ..none };
    assert_eq!(api.publish(&krate(), &missing).unwrap_err().message(), "pipeline 'fast' not found");
}

#[test]
fn defer_to_records_a_pending_ticket_for_the_next_stage() {
    let (api, log) = api(Config::default_config(None, None), vec![]);
    let d = api
        .defer_to(&krate(), "cratebox", None, Ok("sha256:abc".to_string()))
        .unwrap();
    assert_eq!(d.status, DeferralStatus::Pending);
    assert_eq!(d.kind, DeferralKind::Registry);
    assert_eq!(d.to_stage, "crates-io");
    assert_eq!(d.source_hash, "sha256:abc");
    assert_eq!(d.pr_number, Some(7));
    assert!(d.ticket.starts_with("d-") && d.ticket.ends_with("-mycrate"));
    assert_eq!(log.saved.borrow().len(), 1);
    let last = api.defer_to(&krate(), "crates-io", None, Ok("h".to_string())).unwrap_err();
    assert_eq!(last.message(), "no next stage after 'crates-io'");
    let unknown = api.defer_to(&krate(), "elsewhere", None, Ok("h".to_string())).unwrap_err();
    assert_eq!(unknown.message(), "unknown stage 'elsewhere' in pipeline");
}

fn lock(hash: &str) -> PromoteLock {
    PromoteLock {
        version: "0.2.1".into(),
        source_hash: hash.into(),
        bumped_at: "t".into(),
        entered_pipeline: "develop".into(),
    }
}

#[test]
fn branch_deferral_is_confirmed_only_after_the_merge() {
    let (api, log) = api(Config::from_toml(BRANCHES).unwrap(), vec![]);
    let d = api
        .defer_branch(&krate(), "develop", Ok(lock("sha256:1")), Ok("sha256:1".to_string()))
        .unwrap();
    assert_eq!(d.to_stage, "staging");
    assert_eq!(d.kind, DeferralKind::Branch);

    let changed = api.confirm_deferral(&d.ticket, "ok", &Ok(lock("sha256:1")), &Ok("sha256:2".to_string()));
    assert!(changed.is_err());
    assert!(log.merges.borrow().is_empty());
    assert_eq!(api.deferrals(true).unwrap().len(), 1);

    let done = api
        .confirm_deferral(&d.ticket, "ok", &Ok(lock("sha256:1")), &Ok("sha256:1".to_string()))
        .unwrap();
    assert_eq!(done.status, DeferralStatus::Confirmed);
    assert_eq!(*log.merges.borrow(), vec![("develop".to_string(), "staging".to_string())]);
    assert_eq!(*log.comments.borrow(), vec!["7: Confirmed: ok".to_string()]);
    assert!(api.deferrals(true).unwrap().is_empty());

    let again = api.reject_deferral(&d.ticket, "late").unwrap_err();
    assert_eq!(again.message(), format!("deferral '{}' is already Confirmed", d.ticket));
}

#[test]
fn branch_commands_need_a_branch_pipeline() {
    let (api, _log) = api(Config::default_config(None, None), vec![]);
    let err = api.branch("develop", None, &Ok(lock("h")), &Ok("h".to_string())).unwrap_err();
    assert_eq!(err.message(), "branch pipeline not configured in promote.toml");
    assert!(api.branch_tag(&krate()).is_err());
    assert!(api.bump(&krate(), "0.2.2").is_err());
}

#[test]
fn package_override_chooses_the_pipeline() {
    let cfg = Config::from_toml(
        "[registries.staging]\n[registries.prod]\n\n[pipelines.default]\nstages = [\"staging\", \"prod\"]\n\n[pipelines.staging-only]\nstages = [\"staging\"]\n\n[packages.mycrate]\npipeline = \"staging-only\"\n",
    )
    .unwrap();
    let (api, log) = api(cfg, vec![]);
    let params = cargo_promote::ShipParams {
        path: None,
        package: None,
        allow_dirty: false,
        yes: true,
        force: false,
        pipeline: None,
    };
    api.ship(&krate(), &params).unwrap();
    assert_eq!(*log.stages.borrow(), vec!["mycrate@staging"]);
    let explicit = cargo_promote::ShipParams { pipeline: Some("default"), ..params };
    api.ship(&krate(), &explicit).unwrap();
    assert_eq!(*log.stages.borrow(), vec!["mycrate@staging", "mycrate@staging", "mycrate@prod"]);
}

fn ticket(status: DeferralStatus, kind: DeferralKind, from: &str) -> Deferral {
    Deferral {
        ticket: "d-1-mycrate".into(),
        crate_name: "mycrate".into(),
        version: "0.2.1".into(),
        from_stage: from.into(),
        to_stage: "next".into(),
        status,
        kind,
        deferred_at: "1".into(),
        source_hash: "sha256:1".into(),
        command: vec![],
        reason: String::new(),
        pr_number: None,
    }
}

#[test]
fn confirm_loaded_refuses_a_settled_ticket_under_the_asked_name() {
    let (api, log) = api(Config::from_toml(BRANCHES).unwrap(), vec![]);
    let d = ticket(DeferralStatus::Rejected, DeferralKind::Registry, "cratebox");
    let err = api
        .confirm_loaded("asked", d, "ok", &Ok(lock("sha256:1")), &Ok("sha256:1".to_string()))
        .unwrap_err();
    assert_eq!(err.message(), "deferral 'asked' is already Rejected");
    assert!(log.saved.borrow().is_empty());
}

#[test]
fn confirm_loaded_checks_the_branch_stage_after_the_hash() {
    let (api, log) = api(Config::from_toml(BRANCHES).unwrap(), vec![]);
    let last = ticket(DeferralStatus::Pending, DeferralKind::Branch, "main");
    let err = api
        .confirm_loaded("t", last, "ok", &Ok(lock("sha256:1")), &Ok("sha256:1".to_string()))
        .unwrap_err();
    assert_eq!(err.message(), "no next stage after 'main'");
    let stale = ticket(DeferralStatus::Pending, DeferralKind::Branch, "develop");
    assert!(api
        .confirm_loaded("t", stale, "ok", &Ok(lock("sha256:1")), &Ok("sha256:9".to_string()))
        .is_err());
    assert!(log.merges.borrow().is_empty());
}

#[test]
fn confirm_loaded_confirms_and_saves_a_registry_ticket() {
    let (api, log) = api(Config::from_toml(BRANCHES).unwrap(), vec![]);
    let d = ticket(DeferralStatus::Pending, DeferralKind::Registry, "cratebox");
    let done = api
        .confirm_loaded("t", d, "fine", &Err(PromoteError::Other("no lock".into())), &Ok("x".to_string()))
        .unwrap();
    assert_eq!(done.status, DeferralStatus::Confirmed);
    assert_eq!(done.reason, "fine");
    assert_eq!(done.ticket, "d-1-mycrate");
    assert_eq!(*log.saved.borrow(), vec![("d-1-mycrate".to_string(), DeferralStatus::Confirmed)]);
}

#[test]
fn reject_loaded_rejects_only_pending_tickets() {
    let (api, log) = api(Config::from_toml(BRANCHES).unwrap(), vec![]);
    let done = api
        .reject_loaded(ticket(DeferralStatus::Pending, DeferralKind::Registry, "cratebox"), "no")
        .unwrap();
    assert_eq!(done.status, DeferralStatus::Rejected);
    assert_eq!(done.reason, "no");
    let err = api
        .reject_loaded(ticket(DeferralStatus::Confirmed, DeferralKind::Registry, "cratebox"), "no")
        .unwrap_err();
    assert_eq!(err.message(), "deferral 'd-1-mycrate' is already Confirmed");
    assert_eq!(log.saved.borrow().len(), 1);
}
