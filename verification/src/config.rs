//! `promote.toml`: registries, pipelines, the branch pipeline, autobump,
//! per-package overrides and the forge.

use vstd::prelude::*;

use crate::domain::version::{spec_level_of, BumpLevel};
use crate::domain::{clone_opt_string, PackageOverride, Pipeline, PromoteError, Registry, Stage};
use crate::strmap::StrMap;
use crate::text::{cat, cat3, owned, strip_prefix};
use crate::toml_doc::{opt_view, opts_view, strs_view, toml_node, toml_node_at, NodeView, TomlNode};

verus! {

/// Configuration for a branch-based promotion pipeline.
#[derive(Debug)]
pub struct BranchPipelineConfig {
    pub stages: Vec<String>,
    pub release_branch: String,
}

/// The code forge that deferrals open pull requests on (`[forge]`).
#[derive(Debug)]
pub struct ForgeConfig {
    /// `type`: which forge it is.
    pub kind: String,
    pub url: String,
    pub owner: String,
    pub repo: String,
    /// The environment variable that holds the API token.
    pub token_env: String,
}

/// `cfg` is `base` with the `discovered` registries added: every name of
/// `base` keeps its registry, a name only discovered gets the first
/// discovered registry of that name, and nothing else changes.
pub open spec fn merged_from(base: Config, discovered: Seq<Registry>, cfg: Config) -> bool {
    &&& forall|k: Seq<char>|
        cfg.registries.has(k) <==> (base.registries.has(k) || exists|i: int|
            0 <= i < discovered.len() && (#[trigger] discovered[i]).name@ == k)
    &&& forall|k: Seq<char>|
        base.registries.has(k) ==> cfg.registries.value_of(k) == base.registries.value_of(k)
    &&& forall|k: Seq<char>|
        !base.registries.has(k) && cfg.registries.has(k) ==> exists|i: int|
            0 <= i < discovered.len() && (#[trigger] discovered[i]).name@ == k
                && cfg.registries.value_of(k) == discovered[i] && forall|j: int|
                0 <= j < i ==> discovered[j].name@ != k
    &&& cfg.pipelines == base.pipelines
    &&& cfg.branch_pipeline == base.branch_pipeline
    &&& cfg.autobump == base.autobump
    &&& cfg.packages == base.packages
    &&& cfg.forge == base.forge
}

/// A registry asks for confirmation exactly when its table sets
/// `confirm = true`: an absent `confirm` key, like `confirm = false`,
/// leaves it off. This holds of every registry of an accepted
/// `promote.toml`.
pub proof fn lemma_confirm_only_when_set(cfg: Config, t: Seq<char>, k: Seq<char>)
    requires
        accepts(t),
        cfg.describes(t),
        cfg.registries.has(k),
    ensures
        cfg.registries.value_of(k).confirm <==> toml_node_at(t, seq!["registries"@, k, "confirm"@])
            == NodeView::Bool(true),
{
    assert(registry_from(t, k, cfg.registries.value_of(k)));
    assert(registry_keys(t).contains(k));
    let i = choose|i: int| 0 <= i < registry_keys(t).len() && registry_keys(t)[i] == k;
    assert(registry_ok(t, registry_keys(t)[i]));
    assert(at3("registries"@, k, "confirm"@) == seq!["registries"@, k, "confirm"@]);
}

/// Loaded configuration with resolved pipelines.
#[derive(Debug)]
pub struct Config {
    pub registries: StrMap<Registry>,
    pub pipelines: StrMap<Pipeline>,
    pub branch_pipeline: Option<BranchPipelineConfig>,
    pub autobump: Option<BumpLevel>,
    pub packages: StrMap<PackageOverride>,
    pub forge: Option<ForgeConfig>,
}

// ---------------------------------------------------------------------
// Reading typed fields from the document.

/// The node at `path` of the configuration text.
pub open spec fn node(t: Seq<char>, path: Seq<Seq<char>>) -> NodeView {
    toml_node_at(t, path)
}

/// An optional string field: `Some(None)` when absent, `None` when the
/// field has another type.
pub open spec fn opt_str_of(n: NodeView) -> Option<Option<Seq<char>>> {
    match n {
        NodeView::Missing => Some(None),
        NodeView::Str(s) => Some(Some(s)),
        _ => None,
    }
}

/// An optional boolean field: `Some(None)` when absent, `None` when the
/// field has another type.
pub open spec fn opt_bool_of(n: NodeView) -> Option<Option<bool>> {
    match n {
        NodeView::Missing => Some(None),
        NodeView::Bool(b) => Some(Some(b)),
        _ => None,
    }
}

/// The strings held by a list of optional strings.
pub open spec fn unwrap_all(a: Seq<Option<Seq<char>>>) -> Seq<Seq<char>> {
    a.map_values(|o: Option<Seq<char>>| o->0)
}

/// A required list of strings.
pub open spec fn str_list_of(n: NodeView) -> Option<Seq<Seq<char>>> {
    match n {
        NodeView::Array(a) => if forall|i: int| 0 <= i < a.len() ==> (#[trigger] a[i]) is Some {
            Some(unwrap_all(a))
        } else {
            None
        },
        _ => None,
    }
}

/// The keys of an optional table (empty when absent).
pub open spec fn keys_of(n: NodeView) -> Option<Seq<Seq<char>>> {
    match n {
        NodeView::Missing => Some(Seq::empty()),
        NodeView::Table(k) => Some(k),
        _ => None,
    }
}

/// The path `[a, b, c]`.
pub open spec fn at3(a: Seq<char>, b: Seq<char>, c: Seq<char>) -> Seq<Seq<char>> {
    seq![a, b, c]
}

fn path1(a: &str) -> (r: Vec<String>)
    ensures
        strs_view(r@) == seq![a@],
{
    let r = vec![owned(a)];
    assert(strs_view(r@) =~= seq![a@]);
    r
}

fn path2(a: &str, b: &str) -> (r: Vec<String>)
    ensures
        strs_view(r@) == seq![a@, b@],
{
    let r = vec![owned(a), owned(b)];
    assert(strs_view(r@) =~= seq![a@, b@]);
    r
}

fn path3(a: &str, b: &str, c: &str) -> (r: Vec<String>)
    ensures
        strs_view(r@) == at3(a@, b@, c@),
{
    let r = vec![owned(a), owned(b), owned(c)];
    assert(strs_view(r@) =~= at3(a@, b@, c@));
    r
}

fn read_opt_str(n: TomlNode) -> (r: Result<Option<String>, ()>)
    ensures
        opt_str_of(n@) matches Some(o) ==> (r matches Ok(x) && opt_view(x) == o),
        opt_str_of(n@) is None ==> r is Err,
{
    match n {
        TomlNode::Missing => Ok(None),
        TomlNode::Str(s) => Ok(Some(s)),
        _ => Err(()),
    }
}

/// A required string field.
pub open spec fn str_of(n: NodeView) -> Option<Seq<char>> {
    match n {
        NodeView::Str(s) => Some(s),
        _ => None,
    }
}

fn read_str(n: TomlNode) -> (r: Result<String, ()>)
    ensures
        str_of(n@) matches Some(s) ==> (r matches Ok(x) && x@ == s),
        str_of(n@) is None ==> r is Err,
{
    match n {
        TomlNode::Str(s) => Ok(s),
        _ => Err(()),
    }
}

fn read_opt_bool(n: TomlNode) -> (r: Result<Option<bool>, ()>)
    ensures
        opt_bool_of(n@) matches Some(o) ==> r == Ok::<Option<bool>, ()>(o),
        opt_bool_of(n@) is None ==> r is Err,
{
    match n {
        TomlNode::Missing => Ok(None),
        TomlNode::Bool(b) => Ok(Some(b)),
        _ => Err(()),
    }
}

fn read_str_list(n: TomlNode) -> (r: Result<Vec<String>, ()>)
    ensures
        str_list_of(n@) matches Some(l) ==> (r matches Ok(v) && strs_view(v@) == l),
        str_list_of(n@) is None ==> r is Err,
{
    let ghost nv = n@;
    match n {
        TomlNode::Array(a) => {
            let ghost av = opts_view(a@);
            let mut out: Vec<String> = Vec::new();
            let mut i: usize = 0;
            while i < a.len()
                invariant
                    i <= a@.len(),
                    av == opts_view(a@),
                    nv == NodeView::Array(av),
                    nv == n@,
                    forall|j: int| 0 <= j < i ==> (#[trigger] av[j]) is Some,
                    strs_view(out@) == unwrap_all(av.subrange(0, i as int)),
                decreases a@.len() - i,
            {
                let item = &a[i];
                assert(av[i as int] == opt_view(a@[i as int]));
                match item {
                    Some(s) => {
                        let ghost old_out = out@;
                        out.push(s.clone());
                        assert(strs_view(out@) =~= unwrap_all(av.subrange(0, i + 1))) by {
                            assert(strs_view(old_out).len() == i);
                            assert forall|j: int| 0 <= j < i implies #[trigger] strs_view(out@)[j]
                                == strs_view(old_out)[j] by {
                                assert(out@[j] == old_out[j]);
                            }
                        }
                    },
                    None => {
                        assert(av[i as int] is None);
                        assert(str_list_of(nv) is None);
                        return Err(());
                    },
                }
                i = i + 1;
            }
            assert(av.subrange(0, a@.len() as int) =~= av);
            assert(forall|j: int| 0 <= j < av.len() ==> (#[trigger] av[j]) is Some);
            assert(str_list_of(nv) == Some(unwrap_all(av)));
            Ok(out)
        },
        _ => Err(()),
    }
}

fn read_keys(n: TomlNode) -> (r: Result<Vec<String>, ()>)
    requires
        n@ matches NodeView::Table(k) ==> k.no_duplicates(),
    ensures
        r matches Ok(v) ==> strs_view(v@).no_duplicates(),
        keys_of(n@) matches Some(k) ==> (r matches Ok(v) && strs_view(v@) == k),
        keys_of(n@) is None ==> r is Err,
{
    match n {
        TomlNode::Missing => {
            let v: Vec<String> = Vec::new();
            assert(strs_view(v@) =~= Seq::<Seq<char>>::empty());
            Ok(v)
        },
        TomlNode::Table(k) => Ok(k),
        _ => Err(()),
    }
}

// ---------------------------------------------------------------------
// [registries.<name>]

/// `[registries.<k>]` is a table whose fields have the right types.
pub open spec fn registry_ok(t: Seq<char>, k: Seq<char>) -> bool {
    &&& node(t, seq!["registries"@, k]) is Table
    &&& opt_str_of(node(t, at3("registries"@, k, "cargo_name"@))) is Some
    &&& opt_str_of(node(t, at3("registries"@, k, "api_url"@))) is Some
    &&& opt_bool_of(node(t, at3("registries"@, k, "confirm"@))) is Some
}

/// `r` is the registry that `[registries.<k>]` describes.
pub open spec fn registry_from(t: Seq<char>, k: Seq<char>, r: Registry) -> bool {
    &&& r.name@ == k
    &&& opt_view(r.cargo_name) == opt_str_of(node(t, at3("registries"@, k, "cargo_name"@)))->0
    &&& opt_view(r.api_url) == opt_str_of(node(t, at3("registries"@, k, "api_url"@)))->0
    &&& r.confirm == (opt_bool_of(node(t, at3("registries"@, k, "confirm"@)))->0 == Some(true))
}

/// The registry names declared.
pub open spec fn registry_keys(t: Seq<char>) -> Seq<Seq<char>> {
    keys_of(node(t, seq!["registries"@]))->0
}

/// `[registries]` is absent or a table of well-formed registries.
pub open spec fn registries_ok(t: Seq<char>) -> bool {
    &&& keys_of(node(t, seq!["registries"@])) is Some
    &&& forall|i: int| 0 <= i < registry_keys(t).len() ==> registry_ok(t, #[trigger] registry_keys(t)[i])
}

fn read_registry(t: &str, k: &String) -> (r: Result<Registry, ()>)
    ensures
        r is Ok <==> registry_ok(t@, k@),
        r matches Ok(reg) ==> registry_from(t@, k@, reg),
        r matches Ok(reg) ==> (reg.confirm <==> toml_node_at(
            t@,
            seq!["registries"@, k@, "confirm"@],
        ) == NodeView::Bool(true)),
{
    let table = toml_node(t, &path2("registries", k.as_str()));
    match table {
        TomlNode::Table(_) => {},
        _ => return Err(()),
    }
    let cargo_name = read_opt_str(toml_node(t, &path3("registries", k.as_str(), "cargo_name")))?;
    let api_url = read_opt_str(toml_node(t, &path3("registries", k.as_str(), "api_url")))?;
    let confirm = read_opt_bool(toml_node(t, &path3("registries", k.as_str(), "confirm")))?;
    Ok(
        Registry {
            name: k.clone(),
            cargo_name,
            api_url,
            confirm: match confirm {
                Some(true) => true,
                _ => false,
            },
        },
    )
}

fn read_registries(t: &str) -> (r: Result<StrMap<Registry>, ()>)
    ensures
        r is Ok <==> registries_ok(t@),
        r matches Ok(m) ==> (forall|k: Seq<char>| m.has(k) <==> registry_keys(t@).contains(k)),
        r matches Ok(m) ==> (forall|k: Seq<char>| m.has(k) ==> registry_from(t@, k, #[trigger] m.value_of(k))),
{
    let keys = read_keys(toml_node(t, &path1("registries")))?;
    let ghost ks = strs_view(keys@);
    let mut m: StrMap<Registry> = StrMap::new();
    let mut i: usize = 0;
    while i < keys.len()
        invariant
            ks == strs_view(keys@),
            ks == registry_keys(t@),
            keys_of(node(t@, seq!["registries"@])) is Some,
            i <= keys@.len(),
            forall|j: int| 0 <= j < i ==> registry_ok(t@, #[trigger] ks[j]),
            forall|k: Seq<char>| m.has(k) <==> ks.subrange(0, i as int).contains(k),
            forall|k: Seq<char>| m.has(k) ==> registry_from(t@, k, #[trigger] m.value_of(k)),
        decreases keys@.len() - i,
    {
        let reg = read_registry(t, &keys[i]);
        match reg {
            Ok(reg) => {
                assert(ks[i as int] == keys@[i as int]@);
                m.insert(keys[i].clone(), reg);
                proof {
                    let prev = ks.subrange(0, i as int);
                    let next = ks.subrange(0, i + 1);
                    assert forall|k: Seq<char>| m.has(k) <==> next.contains(k) by {
                        if prev.contains(k) {
                            let j = choose|j: int| 0 <= j < prev.len() && prev[j] == k;
                            assert(next[j] == k);
                        }
                        if next.contains(k) && k != ks[i as int] {
                            let j = choose|j: int| 0 <= j < next.len() && next[j] == k;
                            assert(prev[j] == k);
                        }
                        if k == ks[i as int] {
                            assert(next[i as int] == k);
                        }
                    }
                }
            },
            Err(()) => {
                assert(ks[i as int] == keys@[i as int]@);
                return Err(());
            },
        }
        i = i + 1;
    }
    assert(ks.subrange(0, keys@.len() as int) =~= ks);
    Ok(m)
}

// ---------------------------------------------------------------------
// [pipelines.<name>]

/// `[pipelines.<p>]` is a table with a list of stage names.
pub open spec fn pipeline_def_ok(t: Seq<char>, p: Seq<char>) -> bool {
    &&& node(t, seq!["pipelines"@, p]) is Table
    &&& str_list_of(node(t, at3("pipelines"@, p, "stages"@))) is Some
}

/// The stage names of `[pipelines.<p>]`.
pub open spec fn stage_names(t: Seq<char>, p: Seq<char>) -> Seq<Seq<char>> {
    str_list_of(node(t, at3("pipelines"@, p, "stages"@)))->0
}

/// The pipeline names declared.
pub open spec fn pipeline_keys(t: Seq<char>) -> Seq<Seq<char>> {
    keys_of(node(t, seq!["pipelines"@]))->0
}

/// `[pipelines]` is absent or a table of well-formed pipelines.
pub open spec fn pipelines_ok(t: Seq<char>) -> bool {
    &&& keys_of(node(t, seq!["pipelines"@])) is Some
    &&& forall|i: int| 0 <= i < pipeline_keys(t).len() ==> pipeline_def_ok(t, #[trigger] pipeline_keys(t)[i])
}

/// Every stage of every pipeline names a declared registry.
pub open spec fn stages_known(t: Seq<char>) -> bool {
    forall|i: int, j: int|
        0 <= i < pipeline_keys(t).len() && 0 <= j < stage_names(t, pipeline_keys(t)[i]).len()
            ==> registry_keys(t).contains(#[trigger] stage_names(t, #[trigger] pipeline_keys(t)[i])[j])
}

/// `pl` is pipeline `p` with each stage the registry of that name in `regs`.
pub open spec fn pipeline_from(
    t: Seq<char>,
    p: Seq<char>,
    regs: StrMap<Registry>,
    pl: Pipeline,
) -> bool {
    &&& pl.name@ == p
    &&& pl.stages@.len() == stage_names(t, p).len()
    &&& forall|j: int|
        0 <= j < pl.stages@.len() ==> regs.has(stage_names(t, p)[j]) && #[trigger] pl.stages@[j].registry
            == regs.value_of(stage_names(t, p)[j])
}

fn read_pipeline_defs(t: &str) -> (r: Result<Vec<(String, Vec<String>)>, ()>)
    ensures
        r is Ok <==> pipelines_ok(t@),
        r matches Ok(v) ==> names_distinct(v@),
        r matches Ok(v) ==> v@.len() == pipeline_keys(t@).len() && forall|i: int|
            0 <= i < v@.len() ==> (#[trigger] v@[i]).0@ == pipeline_keys(t@)[i] && strs_view(v@[i].1@)
                == stage_names(t@, pipeline_keys(t@)[i]),
{
    let keys = read_keys(toml_node(t, &path1("pipelines")))?;
    let ghost ks = strs_view(keys@);
    let mut out: Vec<(String, Vec<String>)> = Vec::new();
    let mut i: usize = 0;
    while i < keys.len()
        invariant
            ks == strs_view(keys@),
            ks == pipeline_keys(t@),
            ks.no_duplicates(),
            keys_of(node(t@, seq!["pipelines"@])) is Some,
            i <= keys@.len(),
            out@.len() == i,
            forall|j: int| 0 <= j < i ==> pipeline_def_ok(t@, #[trigger] ks[j]),
            forall|j: int|
                0 <= j < i ==> (#[trigger] out@[j]).0@ == ks[j] && strs_view(out@[j].1@) == stage_names(
                    t@,
                    ks[j],
                ),
        decreases keys@.len() - i,
    {
        let k = &keys[i];
        assert(ks[i as int] == k@);
        match toml_node(t, &path2("pipelines", k.as_str())) {
            TomlNode::Table(_) => {},
            _ => return Err(()),
        }
        let stages = read_str_list(toml_node(t, &path3("pipelines", k.as_str(), "stages")))?;
        out.push((k.clone(), stages));
        i = i + 1;
    }
    assert(names_distinct(out@)) by {
        assert forall|a: int, b: int| 0 <= a < b < out@.len() implies (#[trigger] out@[a]).0@ != (#[trigger] out@[b]).0@ by {
            assert(ks[a] != ks[b]);
        }
    }
    Ok(out)
}

/// The pipeline names of `defs` are distinct.
pub open spec fn names_distinct(defs: Seq<(String, Vec<String>)>) -> bool {
    forall|i: int, j: int| 0 <= i < j < defs.len() ==> (#[trigger] defs[i]).0@ != (#[trigger] defs[j]).0@
}

/// `pl` is the pipeline that definition `def` describes over `regs`.
pub open spec fn resolves_to(def: (String, Vec<String>), regs: StrMap<Registry>, pl: Pipeline) -> bool {
    &&& pl.name == def.0
    &&& pl.stages@.len() == def.1@.len()
    &&& forall|j: int|
        0 <= j < pl.stages@.len() ==> regs.has(def.1@[j]@) && #[trigger] pl.stages@[j].registry
            == regs.value_of(def.1@[j]@)
}

/// Every stage name of every definition is a registry of `regs`.
pub open spec fn defs_known(defs: Seq<(String, Vec<String>)>, regs: StrMap<Registry>) -> bool {
    forall|i: int, j: int|
        0 <= i < defs.len() && 0 <= j < defs[i].1@.len() ==> regs.has(#[trigger] defs[i].1@[j]@)
}

/// The message for a stage naming an unknown registry.
pub open spec fn unknown_registry_message(p: Seq<char>, s: Seq<char>) -> Seq<char> {
    "pipeline '"@ + p + "' references unknown registry '"@ + s + "'"@
}

/// Looks up every stage name of every pipeline among the registries.
fn resolve_pipelines(
    defs: &Vec<(String, Vec<String>)>,
    regs: &StrMap<Registry>,
) -> (r: Result<StrMap<Pipeline>, PromoteError>)
    requires
        names_distinct(defs@),
    ensures
        defs_known(defs@, *regs) <==> r is Ok,
        r matches Ok(m) ==> forall|k: Seq<char>|
            m.has(k) <==> exists|i: int| 0 <= i < defs@.len() && (#[trigger] defs@[i]).0@ == k,
        r matches Ok(m) ==> forall|i: int|
            0 <= i < defs@.len() ==> resolves_to(
                #[trigger] defs@[i],
                *regs,
                m.value_of(defs@[i].0@),
            ),
        r matches Err(e) ==> (e matches PromoteError::Other(msg) && exists|i: int, j: int|
            0 <= i < defs@.len() && 0 <= j < defs@[i].1@.len() && !regs.has(
                #[trigger] defs@[i].1@[j]@,
            ) && msg@ == unknown_registry_message(defs@[i].0@, defs@[i].1@[j]@)),
{
    let mut m: StrMap<Pipeline> = StrMap::new();
    let mut i: usize = 0;
    while i < defs.len()
        invariant
            names_distinct(defs@),
            i <= defs@.len(),
            forall|k: Seq<char>|
                m.has(k) <==> exists|ii: int| 0 <= ii < i && (#[trigger] defs@[ii]).0@ == k,
            forall|ii: int| 0 <= ii < i ==> resolves_to(#[trigger] defs@[ii], *regs, m.value_of(defs@[ii].0@)),
        decreases defs@.len() - i,
    {
        let name = &defs[i].0;
        let names = &defs[i].1;
        let mut stages: Vec<Stage> = Vec::new();
        let mut j: usize = 0;
        while j < names.len()
            invariant
                i < defs@.len(),
                names@ == defs@[i as int].1@,
                *name == defs@[i as int].0,
                j <= names@.len(),
                stages@.len() == j,
                forall|jj: int|
                    0 <= jj < j ==> regs.has(names@[jj]@) && #[trigger] stages@[jj].registry
                        == regs.value_of(names@[jj]@),
            decreases names@.len() - j,
        {
            match regs.get(names[j].as_str()) {
                Some(reg) => {
                    stages.push(Stage { registry: reg.clone() });
                },
                None => {
                    let a = cat3("pipeline '", name.as_str(), "' references unknown registry '");
                    let msg = cat3(a.as_str(), names[j].as_str(), "'");
                    assert(!regs.has(defs@[i as int].1@[j as int]@));
                    assert(msg@ == unknown_registry_message(defs@[i as int].0@, defs@[i as int].1@[j as int]@));
                    return Err(PromoteError::Other(msg));
                },
            }
            j = j + 1;
        }
        let ghost old_m = m;
        let pl = Pipeline { name: name.clone(), stages };
        assert(resolves_to(defs@[i as int], *regs, pl));
        m.insert(name.clone(), pl);
        proof {
            assert forall|k: Seq<char>|
                m.has(k) <==> exists|ii: int| 0 <= ii < i + 1 && (#[trigger] defs@[ii]).0@ == k by {
                if k == name@ {
                    assert(defs@[i as int].0@ == k);
                }
                if k != name@ && old_m.has(k) {
                    let ii = choose|ii: int| 0 <= ii < i && (#[trigger] defs@[ii]).0@ == k;
                }
            }
            assert forall|ii: int| 0 <= ii < i + 1 implies resolves_to(
                #[trigger] defs@[ii],
                *regs,
                m.value_of(defs@[ii].0@),
            ) by {
                if ii < i {
                    assert(defs@[ii].0@ != defs@[i as int].0@);
                    assert(old_m.has(defs@[ii].0@));
                }
            }
        }
        i = i + 1;
    }
    assert forall|i: int, j: int|
        0 <= i < defs@.len() && 0 <= j < defs@[i].1@.len() implies regs.has(#[trigger] defs@[i].1@[j]@) by {
        let pl = m.value_of(defs@[i].0@);
        assert(resolves_to(defs@[i], *regs, pl));
        assert(pl.stages@[j].registry == regs.value_of(defs@[i].1@[j]@));
    }
    Ok(m)
}

// ---------------------------------------------------------------------
// [pipeline], autobump, [packages.<name>]

/// `[pipeline]` is absent, or a table with a list of stages and an
/// optional release branch.
pub open spec fn branch_ok(t: Seq<char>) -> bool {
    match node(t, seq!["pipeline"@]) {
        NodeView::Missing => true,
        NodeView::Table(_) => str_list_of(node(t, seq!["pipeline"@, "stages"@])) is Some && opt_str_of(
            node(t, seq!["pipeline"@, "release_branch"@]),
        ) is Some,
        _ => false,
    }
}

/// The release branch: the one given, else the last stage, else empty.
pub open spec fn release_branch_of(stages: Seq<Seq<char>>, given: Option<Seq<char>>) -> Seq<char> {
    match given {
        Some(r) => r,
        None => if stages.len() > 0 {
            stages.last()
        } else {
            Seq::empty()
        },
    }
}

/// `b` is the branch pipeline that `[pipeline]` describes.
pub open spec fn branch_from(t: Seq<char>, b: Option<BranchPipelineConfig>) -> bool {
    match node(t, seq!["pipeline"@]) {
        NodeView::Missing => b is None,
        _ => b matches Some(c) && strs_view(c.stages@) == str_list_of(
            node(t, seq!["pipeline"@, "stages"@]),
        )->0 && c.release_branch@ == release_branch_of(
            str_list_of(node(t, seq!["pipeline"@, "stages"@]))->0,
            opt_str_of(node(t, seq!["pipeline"@, "release_branch"@]))->0,
        ),
    }
}

fn read_branch(t: &str) -> (r: Result<Option<BranchPipelineConfig>, ()>)
    ensures
        r is Ok <==> branch_ok(t@),
        r matches Ok(b) ==> branch_from(t@, b),
{
    match toml_node(t, &path1("pipeline")) {
        TomlNode::Missing => Ok(None),
        TomlNode::Table(_) => {
            let stages = read_str_list(toml_node(t, &path2("pipeline", "stages")))?;
            let given = read_opt_str(toml_node(t, &path2("pipeline", "release_branch")))?;
            let release_branch = match given {
                Some(r) => r,
                None => if stages.len() > 0 {
                    assert(strs_view(stages@).last() == stages@[stages@.len() - 1]@);
                    stages[stages.len() - 1].clone()
                } else {
                    String::new()
                },
            };
            Ok(Some(BranchPipelineConfig { stages, release_branch }))
        },
        _ => Err(()),
    }
}

/// A field of `[forge]`.
pub open spec fn forge_field(t: Seq<char>, f: Seq<char>) -> Option<Seq<char>> {
    str_of(node(t, seq!["forge"@, f]))
}

/// `[forge]` is absent, or a table with `type`, `url`, `owner`, `repo`
/// and `token_env` strings.
pub open spec fn forge_ok(t: Seq<char>) -> bool {
    match node(t, seq!["forge"@]) {
        NodeView::Missing => true,
        NodeView::Table(_) => {
            &&& forge_field(t, "type"@) is Some
            &&& forge_field(t, "url"@) is Some
            &&& forge_field(t, "owner"@) is Some
            &&& forge_field(t, "repo"@) is Some
            &&& forge_field(t, "token_env"@) is Some
        },
        _ => false,
    }
}

/// `f` is the forge that `[forge]` describes.
pub open spec fn forge_from(t: Seq<char>, f: Option<ForgeConfig>) -> bool {
    match node(t, seq!["forge"@]) {
        NodeView::Missing => f is None,
        _ => f matches Some(c) && Some(c.kind@) == forge_field(t, "type"@) && Some(c.url@)
            == forge_field(t, "url"@) && Some(c.owner@) == forge_field(t, "owner"@) && Some(
            c.repo@,
        ) == forge_field(t, "repo"@) && Some(c.token_env@) == forge_field(t, "token_env"@),
    }
}

fn read_forge(t: &str) -> (r: Result<Option<ForgeConfig>, ()>)
    ensures
        r is Ok <==> forge_ok(t@),
        r matches Ok(f) ==> forge_from(t@, f),
{
    match toml_node(t, &path1("forge")) {
        TomlNode::Missing => Ok(None),
        TomlNode::Table(_) => {
            let kind = read_str(toml_node(t, &path2("forge", "type")))?;
            let url = read_str(toml_node(t, &path2("forge", "url")))?;
            let owner = read_str(toml_node(t, &path2("forge", "owner")))?;
            let repo = read_str(toml_node(t, &path2("forge", "repo")))?;
            let token_env = read_str(toml_node(t, &path2("forge", "token_env")))?;
            Ok(Some(ForgeConfig { kind, url, owner, repo, token_env }))
        },
        _ => Err(()),
    }
}

/// The `autobump` word, if given.
pub open spec fn autobump_word(t: Seq<char>) -> Option<Seq<char>> {
    opt_str_of(node(t, seq!["autobump"@]))->0
}

/// The level a possibly absent word names (`None` for no word).
pub open spec fn level_of_word(w: Option<Seq<char>>) -> Option<BumpLevel> {
    match w {
        Some(s) => spec_level_of(s),
        None => None,
    }
}

/// A possibly absent word is absent or names a level.
pub open spec fn word_ok(w: Option<Seq<char>>) -> bool {
    w matches Some(s) ==> spec_level_of(s) is Some
}

fn parse_word(w: &Option<String>) -> (r: Result<Option<BumpLevel>, ()>)
    ensures
        r is Ok <==> word_ok(opt_view(*w)),
        r matches Ok(l) ==> l == level_of_word(opt_view(*w)),
{
    match w {
        Some(s) => match BumpLevel::parse(s.as_str()) {
            Ok(l) => Ok(Some(l)),
            Err(_) => Err(()),
        },
        None => Ok(None),
    }
}

/// `[packages.<k>]` is a table whose fields have the right types.
pub open spec fn package_ok(t: Seq<char>, k: Seq<char>) -> bool {
    &&& node(t, seq!["packages"@, k]) is Table
    &&& opt_str_of(node(t, at3("packages"@, k, "autobump"@))) is Some
    &&& opt_str_of(node(t, at3("packages"@, k, "pipeline"@))) is Some
    &&& opt_bool_of(node(t, at3("packages"@, k, "publish"@))) is Some
}

/// The autobump word of `[packages.<k>]`.
pub open spec fn package_word(t: Seq<char>, k: Seq<char>) -> Option<Seq<char>> {
    opt_str_of(node(t, at3("packages"@, k, "autobump"@)))->0
}

/// `o` is the override that `[packages.<k>]` describes.
pub open spec fn package_from(t: Seq<char>, k: Seq<char>, o: PackageOverride) -> bool {
    &&& o.autobump == level_of_word(package_word(t, k))
    &&& opt_view(o.pipeline) == opt_str_of(node(t, at3("packages"@, k, "pipeline"@)))->0
    &&& o.publish == opt_bool_of(node(t, at3("packages"@, k, "publish"@)))->0
}

/// The package names with overrides.
pub open spec fn package_keys(t: Seq<char>) -> Seq<Seq<char>> {
    keys_of(node(t, seq!["packages"@]))->0
}

/// `[packages]` is absent or a table of well-formed overrides.
pub open spec fn packages_ok(t: Seq<char>) -> bool {
    &&& keys_of(node(t, seq!["packages"@])) is Some
    &&& forall|i: int| 0 <= i < package_keys(t).len() ==> package_ok(t, #[trigger] package_keys(t)[i])
}

/// Every package autobump word names a level.
pub open spec fn package_levels_ok(t: Seq<char>) -> bool {
    forall|i: int| 0 <= i < package_keys(t).len() ==> word_ok(package_word(t, #[trigger] package_keys(t)[i]))
}

/// Reads `[packages.<k>]`: `Err(None)` for a type error, `Err(Some(()))`
/// for an autobump word that names no level.
fn read_package(t: &str, k: &String) -> (r: Result<PackageOverride, Option<()>>)
    ensures
        r is Ok <==> package_ok(t@, k@) && word_ok(package_word(t@, k@)),
        r == Err::<PackageOverride, Option<()>>(None) <==> !package_ok(t@, k@),
        r matches Ok(o) ==> package_from(t@, k@, o),
{
    match toml_node(t, &path2("packages", k.as_str())) {
        TomlNode::Table(_) => {},
        _ => return Err(None),
    }
    let word = match read_opt_str(toml_node(t, &path3("packages", k.as_str(), "autobump"))) {
        Ok(w) => w,
        Err(()) => return Err(None),
    };
    let pipeline = match read_opt_str(toml_node(t, &path3("packages", k.as_str(), "pipeline"))) {
        Ok(p) => p,
        Err(()) => return Err(None),
    };
    let publish = match read_opt_bool(toml_node(t, &path3("packages", k.as_str(), "publish"))) {
        Ok(p) => p,
        Err(()) => return Err(None),
    };
    match parse_word(&word) {
        Ok(autobump) => Ok(PackageOverride { autobump, pipeline, publish }),
        Err(()) => Err(Some(())),
    }
}

fn read_packages(t: &str) -> (r: Result<StrMap<PackageOverride>, Option<()>>)
    ensures
        r is Ok <==> packages_ok(t@) && package_levels_ok(t@),
        r == Err::<StrMap<PackageOverride>, Option<()>>(None) <==> !packages_ok(t@),
        r matches Ok(m) ==> (forall|k: Seq<char>| m.has(k) <==> package_keys(t@).contains(k)),
        r matches Ok(m) ==> (forall|k: Seq<char>| m.has(k) ==> package_from(t@, k, #[trigger] m.value_of(k))),
{
    let keys = match read_keys(toml_node(t, &path1("packages"))) {
        Ok(k) => k,
        Err(()) => return Err(None),
    };
    let ghost ks = strs_view(keys@);
    let mut m: StrMap<PackageOverride> = StrMap::new();
    let mut level_error = false;
    let mut i: usize = 0;
    while i < keys.len()
        invariant
            ks == strs_view(keys@),
            ks == package_keys(t@),
            keys_of(node(t@, seq!["packages"@])) is Some,
            i <= keys@.len(),
            forall|j: int| 0 <= j < i ==> package_ok(t@, #[trigger] ks[j]),
            level_error <==> exists|j: int| 0 <= j < i && !word_ok(package_word(t@, #[trigger] ks[j])),
            forall|k: Seq<char>| m.has(k) <==> (!level_error && ks.subrange(0, i as int).contains(k)),
            forall|k: Seq<char>| m.has(k) ==> package_from(t@, k, #[trigger] m.value_of(k)),
        decreases keys@.len() - i,
    {
        assert(ks[i as int] == keys@[i as int]@);
        match read_package(t, &keys[i]) {
            Ok(o) => {
                if !level_error {
                    m.insert(keys[i].clone(), o);
                }
            },
            Err(Some(())) => {
                level_error = true;
                m = StrMap::new();
            },
            Err(None) => {
                return Err(None);
            },
        }
        proof {
            let prev = ks.subrange(0, i as int);
            let next = ks.subrange(0, i + 1);
            assert forall|k: Seq<char>| prev.contains(k) || k == ks[i as int] <==> next.contains(k) by {
                if prev.contains(k) {
                    let j = choose|j: int| 0 <= j < prev.len() && prev[j] == k;
                    assert(next[j] == k);
                }
                if next.contains(k) && k != ks[i as int] {
                    let j = choose|j: int| 0 <= j < next.len() && next[j] == k;
                    assert(prev[j] == k);
                }
                if k == ks[i as int] {
                    assert(next[i as int] == k);
                }
            }
        }
        i = i + 1;
    }
    assert(ks.subrange(0, keys@.len() as int) =~= ks);
    if level_error {
        return Err(Some(()));
    }
    Ok(m)
}

// ---------------------------------------------------------------------
// The whole file.

/// Every section has the shape its fields require.
pub open spec fn shape_ok(t: Seq<char>) -> bool {
    &&& registries_ok(t)
    &&& pipelines_ok(t)
    &&& branch_ok(t)
    &&& opt_str_of(node(t, seq!["autobump"@])) is Some
    &&& packages_ok(t)
    &&& forge_ok(t)
}

/// The text is a configuration `Config::from_toml` accepts.
pub open spec fn accepts(t: Seq<char>) -> bool {
    &&& shape_ok(t)
    &&& stages_known(t)
    &&& word_ok(autobump_word(t))
    &&& package_levels_ok(t)
}

impl Config {
    /// The configuration is the one text `t` describes.
    pub open spec fn describes(&self, t: Seq<char>) -> bool {
        &&& forall|k: Seq<char>| self.registries.has(k) <==> registry_keys(t).contains(k)
        &&& forall|k: Seq<char>|
            self.registries.has(k) ==> registry_from(t, k, #[trigger] self.registries.value_of(k))
        &&& forall|k: Seq<char>| self.pipelines.has(k) <==> pipeline_keys(t).contains(k)
        &&& forall|k: Seq<char>|
            self.pipelines.has(k) ==> pipeline_from(t, k, self.registries, #[trigger] self.pipelines.value_of(k))
        &&& branch_from(t, self.branch_pipeline)
        &&& self.autobump == level_of_word(autobump_word(t))
        &&& forall|k: Seq<char>| self.packages.has(k) <==> package_keys(t).contains(k)
        &&& forall|k: Seq<char>|
            self.packages.has(k) ==> package_from(t, k, #[trigger] self.packages.value_of(k))
        &&& forge_from(t, self.forge)
    }

    /// Parse from TOML text. A text whose sections do not have the
    /// expected shape is `invalid promote.toml`; a pipeline stage naming
    /// an undeclared registry, or an autobump word other than
    /// patch|minor|major, is refused with its own message.
    pub fn from_toml(content: &str) -> (r: Result<Config, PromoteError>)
        ensures
            accepts(content@) <==> r is Ok,
            r matches Ok(cfg) ==> cfg.describes(content@),
            !shape_ok(content@) ==> (r matches Err(PromoteError::Other(m)) && m@
                == "invalid promote.toml"@),
            shape_ok(content@) && !stages_known(content@) ==> (r matches Err(PromoteError::Other(m))
                && exists|i: int, j: int|
                0 <= i < pipeline_keys(content@).len() && 0 <= j < stage_names(
                    content@,
                    pipeline_keys(content@)[i],
                ).len() && !registry_keys(content@).contains(
                    #[trigger] stage_names(content@, #[trigger] pipeline_keys(content@)[i])[j],
                ) && m@ == unknown_registry_message(
                    pipeline_keys(content@)[i],
                    stage_names(content@, pipeline_keys(content@)[i])[j],
                )),
            shape_ok(content@) && stages_known(content@) && !(word_ok(autobump_word(content@))
                && package_levels_ok(content@)) ==> (r matches Err(PromoteError::Other(m)) && m@
                == "invalid autobump value"@),
    {
        let shape_err = PromoteError::Other(owned("invalid promote.toml"));
        let registries = match read_registries(content) {
            Ok(r) => r,
            Err(()) => return Err(shape_err),
        };
        let defs = match read_pipeline_defs(content) {
            Ok(d) => d,
            Err(()) => return Err(shape_err),
        };
        let branch_pipeline = match read_branch(content) {
            Ok(b) => b,
            Err(()) => return Err(shape_err),
        };
        let word = match read_opt_str(toml_node(content, &path1("autobump"))) {
            Ok(w) => w,
            Err(()) => return Err(shape_err),
        };
        let packages = read_packages(content);
        if let Err(None) = packages {
            return Err(shape_err);
        }
        let forge = match read_forge(content) {
            Ok(f) => f,
            Err(()) => return Err(shape_err),
        };
        proof {
            assert forall|i: int, j: int|
                0 <= i < defs@.len() && 0 <= j < defs@[i].1@.len() implies #[trigger] defs@[i].1@[j]@
                    == stage_names(content@, pipeline_keys(content@)[i])[j] by {
                assert(strs_view(defs@[i].1@)[j] == defs@[i].1@[j]@);
            }
            assert(defs_known(defs@, registries) <==> stages_known(content@)) by {
                if stages_known(content@) {
                    assert forall|i: int, j: int|
                        0 <= i < defs@.len() && 0 <= j < defs@[i].1@.len() implies registries.has(
                            #[trigger] defs@[i].1@[j]@,
                        ) by {
                        assert(strs_view(defs@[i].1@).len() == defs@[i].1@.len());
                        assert(registry_keys(content@).contains(
                            stage_names(content@, pipeline_keys(content@)[i])[j],
                        ));
                    }
                }
                if defs_known(defs@, registries) {
                    assert forall|i: int, j: int|
                        0 <= i < pipeline_keys(content@).len() && 0 <= j < stage_names(
                            content@,
                            pipeline_keys(content@)[i],
                        ).len() implies registry_keys(content@).contains(
                            #[trigger] stage_names(content@, #[trigger] pipeline_keys(content@)[i])[j],
                        ) by {
                        assert(strs_view(defs@[i].1@).len() == defs@[i].1@.len());
                        assert(registries.has(defs@[i].1@[j]@));
                    }
                }
            }
        }
        let pipelines = match resolve_pipelines(&defs, &registries) {
            Ok(p) => p,
            Err(e) => {
                proof {
                    let msg = e->Other_0;
                    let (i, j) = choose|i: int, j: int|
                        0 <= i < defs@.len() && 0 <= j < defs@[i].1@.len() && !registries.has(
                            #[trigger] defs@[i].1@[j]@,
                        ) && msg@ == unknown_registry_message(defs@[i].0@, defs@[i].1@[j]@);
                    assert(strs_view(defs@[i].1@).len() == defs@[i].1@.len());
                    assert(!registry_keys(content@).contains(
                        stage_names(content@, pipeline_keys(content@)[i])[j],
                    ));
                }
                return Err(e);
            },
        };
        let autobump = match parse_word(&word) {
            Ok(l) => l,
            Err(()) => return Err(PromoteError::Other(owned("invalid autobump value"))),
        };
        let packages = match packages {
            Ok(p) => p,
            Err(_) => return Err(PromoteError::Other(owned("invalid autobump value"))),
        };
        let cfg = Config { registries, pipelines, branch_pipeline, autobump, packages, forge };
        proof {
            assert forall|k: Seq<char>| cfg.pipelines.has(k) <==> pipeline_keys(content@).contains(k) by {
                if pipeline_keys(content@).contains(k) {
                    let i = choose|i: int| 0 <= i < pipeline_keys(content@).len() && pipeline_keys(content@)[i] == k;
                    assert(defs@[i].0@ == k);
                }
                if cfg.pipelines.has(k) {
                    let i = choose|i: int| 0 <= i < defs@.len() && (#[trigger] defs@[i]).0@ == k;
                    assert(pipeline_keys(content@)[i] == k);
                }
            }
            assert forall|k: Seq<char>|
                cfg.pipelines.has(k) implies pipeline_from(content@, k, cfg.registries, #[trigger] cfg.pipelines.value_of(k)) by {
                let i = choose|i: int| 0 <= i < defs@.len() && (#[trigger] defs@[i]).0@ == k;
                assert(resolves_to(defs@[i], registries, pipelines.value_of(defs@[i].0@)));
                assert(strs_view(defs@[i].1@).len() == defs@[i].1@.len());
                let pl = pipelines.value_of(k);
                assert forall|j: int| 0 <= j < pl.stages@.len() implies registries.has(stage_names(content@, k)[j])
                    && #[trigger] pl.stages@[j].registry == registries.value_of(stage_names(content@, k)[j]) by {
                    assert(strs_view(defs@[i].1@)[j] == defs@[i].1@[j]@);
                }
            }
        }
        Ok(cfg)
    }
}

// ---------------------------------------------------------------------
// Queries, defaults and discovered registries.

/// The key a pipeline query looks up: the name given, else `default`.
pub open spec fn pipeline_key(name: Option<Seq<char>>) -> Seq<char> {
    match name {
        Some(n) => n,
        None => "default"@,
    }
}

/// The optional view of an optional string slice.
pub open spec fn opt_str_view(o: Option<&str>) -> Option<Seq<char>> {
    match o {
        Some(s) => Some(s@),
        None => None,
    }
}

/// Strip `sparse+` prefix from an index URL to derive the API URL.
pub open spec fn spec_index_to_api_url(index: Seq<char>) -> Seq<char> {
    if crate::text::has_prefix(index, "sparse+"@) {
        index.subrange(7, index.len() as int)
    } else {
        index
    }
}

/// Strip `sparse+` prefix from an index URL to derive the API URL.
pub fn index_to_api_url(index: &str) -> (r: String)
    ensures
        r@ == spec_index_to_api_url(index@),
{
    proof {
        reveal_strlit("sparse+");
    }
    match strip_prefix(index, "sparse+") {
        Some(rest) => {
            assert(index@.subrange(7, index@.len() as int) =~= rest@);
            rest
        },
        None => owned(index),
    }
}

/// The registry a `.cargo/config.toml` entry `[registries.<name>]`
/// stands for.
pub open spec fn discovered_registry(name: Seq<char>, index: Option<Seq<char>>, r: Registry) -> bool {
    &&& r.name@ == name
    &&& opt_view(r.cargo_name) == Some(name)
    &&& opt_view(r.api_url) == match index {
        Some(i) => Some(spec_index_to_api_url(i)),
        None => None,
    }
    &&& !r.confirm
}

/// `[registries.<k>]` of a cargo config is a table with an optional
/// string `index`.
pub open spec fn cargo_entry_ok(t: Seq<char>, k: Seq<char>) -> bool {
    &&& node(t, seq!["registries"@, k]) is Table
    &&& opt_str_of(node(t, at3("registries"@, k, "index"@))) is Some
}

/// The registries a `.cargo/config.toml` text declares, in key order;
/// `None` when the file does not have the expected shape (such a file is
/// skipped).
pub fn registries_in_cargo_config(text: &str) -> (r: Option<Vec<Registry>>)
    ensures
        r is Some <==> (keys_of(node(text@, seq!["registries"@])) is Some && forall|i: int|
            0 <= i < registry_keys(text@).len() ==> cargo_entry_ok(text@, #[trigger] registry_keys(text@)[i])),
        r matches Some(v) ==> v@.len() == registry_keys(text@).len() && forall|i: int|
            0 <= i < v@.len() ==> discovered_registry(
                registry_keys(text@)[i],
                opt_str_of(node(text@, at3("registries"@, registry_keys(text@)[i], "index"@)))->0,
                #[trigger] v@[i],
            ),
{
    let keys = match read_keys(toml_node(text, &path1("registries"))) {
        Ok(k) => k,
        Err(()) => return None,
    };
    let ghost ks = strs_view(keys@);
    let mut out: Vec<Registry> = Vec::new();
    let mut i: usize = 0;
    while i < keys.len()
        invariant
            ks == strs_view(keys@),
            ks == registry_keys(text@),
            keys_of(node(text@, seq!["registries"@])) is Some,
            i <= keys@.len(),
            out@.len() == i,
            forall|j: int| 0 <= j < i ==> cargo_entry_ok(text@, #[trigger] ks[j]),
            forall|j: int|
                0 <= j < i ==> discovered_registry(
                    ks[j],
                    opt_str_of(node(text@, at3("registries"@, ks[j], "index"@)))->0,
                    #[trigger] out@[j],
                ),
        decreases keys@.len() - i,
    {
        let k = &keys[i];
        assert(ks[i as int] == k@);
        match toml_node(text, &path2("registries", k.as_str())) {
            TomlNode::Table(_) => {},
            _ => return None,
        }
        let index = match read_opt_str(toml_node(text, &path3("registries", k.as_str(), "index"))) {
            Ok(x) => x,
            Err(()) => return None,
        };
        let api_url = match &index {
            Some(ix) => Some(index_to_api_url(ix.as_str())),
            None => None,
        };
        out.push(Registry { name: k.clone(), cargo_name: Some(k.clone()), api_url, confirm: false });
        i = i + 1;
    }
    Some(out)
}

/// Adds each registry of `found` under its name unless the name is
/// already present (earlier entries win).
#[verifier::spinoff_prover]
pub fn insert_missing(map: &mut StrMap<Registry>, found: Vec<Registry>)
    ensures
        forall|k: Seq<char>|
            final(map).has(k) <==> (old(map).has(k) || exists|i: int|
                0 <= i < found@.len() && (#[trigger] found@[i]).name@ == k),
        forall|k: Seq<char>| old(map).has(k) ==> final(map).value_of(k) == old(map).value_of(k),
        forall|k: Seq<char>|
            !old(map).has(k) && final(map).has(k) ==> exists|i: int|
                0 <= i < found@.len() && (#[trigger] found@[i]).name@ == k && final(map).value_of(k)
                    == found@[i] && forall|j: int| 0 <= j < i ==> found@[j].name@ != k,
{
    let ghost m0 = *map;
    let ghost mut i: int = 0;
    let mut rest = found;
    let ghost fv = rest@;
    let mut taken: Vec<Registry> = Vec::new();
    while rest.len() > 0
        invariant
            fv == taken@ + rest@,
            i == taken@.len(),
            forall|k: Seq<char>|
                map.has(k) <==> (m0.has(k) || exists|ii: int|
                    0 <= ii < i && (#[trigger] fv[ii]).name@ == k),
            forall|k: Seq<char>| m0.has(k) ==> map.value_of(k) == m0.value_of(k),
            forall|k: Seq<char>|
                !m0.has(k) && map.has(k) ==> exists|ii: int|
                    0 <= ii < i && (#[trigger] fv[ii]).name@ == k && map.value_of(k) == fv[ii]
                        && forall|j: int| 0 <= j < ii ==> fv[j].name@ != k,
        decreases rest@.len(),
    {
        let reg = rest.remove(0);
        assert(fv[i] == reg);
        let ghost before = *map;
        if !map.contains_key(reg.name.as_str()) {
            let name = reg.name.clone();
            let copy = reg.clone();
            map.insert(name, copy);
            proof {
                assert forall|k: Seq<char>|
                    !m0.has(k) && map.has(k) implies exists|ii: int|
                        0 <= ii < i + 1 && (#[trigger] fv[ii]).name@ == k && map.value_of(k) == fv[ii]
                            && forall|j: int| 0 <= j < ii ==> fv[j].name@ != k by {
                    if k != reg.name@ {
                        assert(before.has(k));
                    } else {
                        assert forall|j: int| 0 <= j < i implies fv[j].name@ != k by {
                            if fv[j].name@ == k {
                                assert(before.has(k));
                            }
                        }
                    }
                }
            }
        }
        proof {
            assert forall|k: Seq<char>|
                map.has(k) <==> (m0.has(k) || exists|ii: int|
                    0 <= ii < i + 1 && (#[trigger] fv[ii]).name@ == k) by {
                if k == reg.name@ {
                    assert(fv[i].name@ == k);
                } else if exists|ii: int| 0 <= ii < i + 1 && (#[trigger] fv[ii]).name@ == k {
                    let ii = choose|ii: int| 0 <= ii < i + 1 && (#[trigger] fv[ii]).name@ == k;
                    assert(ii < i);
                }
            }
        }
        taken.push(reg);
        proof {
            i = i + 1;
        }
    }
    assert(fv == taken@);
}

impl Config {
    /// Get a pipeline by name, falling back to "default".
    pub fn pipeline(&self, name: Option<&str>) -> (r: Option<&Pipeline>)
        ensures
            self.pipelines.has(pipeline_key(opt_str_view(name))) ==> r == Some(
                &self.pipelines.value_of(pipeline_key(opt_str_view(name))),
            ),
            !self.pipelines.has(pipeline_key(opt_str_view(name))) ==> r is None,
    {
        let key = match name {
            Some(n) => n,
            None => "default",
        };
        self.pipelines.get(key)
    }

    /// Get a registry by name.
    pub fn registry(&self, name: &str) -> (r: Option<&Registry>)
        ensures
            self.registries.has(name@) ==> r == Some(&self.registries.value_of(name@)),
            !self.registries.has(name@) ==> r is None,
    {
        self.registries.get(name)
    }

    /// The `[packages.<name>]` override for a crate, if any.
    pub fn package_override(&self, name: &str) -> (r: Option<&PackageOverride>)
        ensures
            self.packages.has(name@) ==> r == Some(&self.packages.value_of(name@)),
            !self.packages.has(name@) ==> r is None,
    {
        self.packages.get(name)
    }

    /// The bump level that applies to a crate: its package override when
    /// set, else the global `autobump`.
    pub open spec fn spec_autobump_for(&self, name: Seq<char>) -> Option<BumpLevel> {
        if self.packages.has(name) && self.packages.value_of(name).autobump is Some {
            self.packages.value_of(name).autobump
        } else {
            self.autobump
        }
    }

    /// See [`Config::spec_autobump_for`].
    pub fn autobump_for(&self, name: &str) -> (r: Option<BumpLevel>)
        ensures
            r == self.spec_autobump_for(name@),
    {
        match self.package_override(name) {
            Some(o) => match o.autobump {
                Some(l) => Some(l),
                None => self.autobump,
            },
            None => self.autobump,
        }
    }

    /// Whether a crate's override keeps it out of `publish-all`
    /// (`publish = false`).
    pub open spec fn spec_publish_disabled(&self, name: Seq<char>) -> bool {
        self.packages.has(name) && self.packages.value_of(name).publish == Some(false)
    }

    /// See [`Config::spec_publish_disabled`].
    pub fn publish_disabled(&self, name: &str) -> (r: bool)
        ensures
            r == self.spec_publish_disabled(name@),
    {
        match self.package_override(name) {
            Some(o) => match o.publish {
                Some(false) => true,
                _ => false,
            },
            None => false,
        }
    }

    /// Merge discovered cargo registries into this config. Existing
    /// entries (from promote.toml) take precedence; a new name gets the
    /// first discovered registry of that name.
    pub fn merge_discovered(&mut self, discovered: Vec<Registry>)
        ensures
            forall|k: Seq<char>|
                final(self).registries.has(k) <==> (old(self).registries.has(k) || exists|i: int|
                    0 <= i < discovered@.len() && (#[trigger] discovered@[i]).name@ == k),
            forall|k: Seq<char>|
                old(self).registries.has(k) ==> final(self).registries.value_of(k) == old(
                    self,
                ).registries.value_of(k),
            forall|k: Seq<char>|
                !old(self).registries.has(k) && final(self).registries.has(k) ==> exists|i: int|
                    0 <= i < discovered@.len() && (#[trigger] discovered@[i]).name@ == k
                        && final(self).registries.value_of(k) == discovered@[i] && forall|j: int|
                        0 <= j < i ==> discovered@[j].name@ != k,
            final(self).pipelines == old(self).pipelines,
            final(self).branch_pipeline == old(self).branch_pipeline,
            final(self).autobump == old(self).autobump,
            final(self).packages == old(self).packages,
            final(self).forge == old(self).forge,
            merged_from(*old(self), discovered@, *final(self)),
    {
        insert_missing(&mut self.registries, discovered);
    }

    /// The configuration of a directory: `promote.toml` when there is one
    /// (its text is `promote_toml`), else the built-in defaults for the
    /// registry URL and user given; then the registries cargo knows of
    /// (`discovered`, closest configuration first) are added where
    /// `promote.toml` or the defaults do not name them.
    pub fn load(
        promote_toml: Option<&str>,
        registry_url: Option<&str>,
        registry_user: Option<&str>,
        discovered: Vec<Registry>,
    ) -> (r: Result<Config, PromoteError>)
        ensures
            promote_toml matches Some(t) ==> (accepts(t@) <==> r is Ok),
            promote_toml is Some && r is Ok ==> exists|b: Config|
                b.describes(promote_toml->0@) && #[trigger] merged_from(b, discovered@, r->Ok_0),
            promote_toml is None ==> r is Ok && exists|b: Config|
                b.describes_default(
                    match registry_url {
                        Some(u) => u@,
                        None => "http://100.105.75.7:3000"@,
                    },
                    match registry_user {
                        Some(u) => u@,
                        None => "joe"@,
                    },
                ) && #[trigger] merged_from(b, discovered@, r->Ok_0),
    {
        let mut cfg = match promote_toml {
            Some(t) => match Config::from_toml(t) {
                Ok(c) => c,
                Err(e) => {
                    return Err(e);
                },
            },
            None => Config::default_config(registry_url, registry_user),
        };
        let ghost base = cfg;
        let ghost dv = discovered@;
        cfg.merge_discovered(discovered);
        assert(merged_from(base, dv, cfg));
        let r: Result<Config, PromoteError> = Ok(cfg);
        proof {
            if promote_toml is Some {
                assert(base.describes(promote_toml->0@));
            } else {
                assert(base.describes_default(
                    match registry_url {
                        Some(u) => u@,
                        None => "http://100.105.75.7:3000"@,
                    },
                    match registry_user {
                        Some(u) => u@,
                        None => "joe"@,
                    },
                ));
            }
            assert(merged_from(base, dv, r->Ok_0));
        }
        r
    }

    /// The forge deferrals open pull requests on: none without
    /// `[forge]`, the configured Gitea forge for `type = "gitea"`; other
    /// forge types are refused.
    pub fn gitea_forge(&self) -> (r: Result<Option<&ForgeConfig>, PromoteError>)
        ensures
            self.forge is None ==> r matches Ok(None),
            self.forge is Some && self.forge->0.kind@ == "gitea"@ ==> r == Ok::<
                Option<&ForgeConfig>,
                PromoteError,
            >(Some(&self.forge->0)),
            self.forge is Some && self.forge->0.kind@ != "gitea"@ ==> (r matches Err(
                PromoteError::Other(m),
            ) && m@ == "unsupported forge type '"@ + self.forge->0.kind@ + "'"@),
    {
        match &self.forge {
            None => Ok(None),
            Some(f) => {
                if crate::domain::string_eq(&f.kind, "gitea") {
                    Ok(Some(f))
                } else {
                    Err(PromoteError::Other(cat3("unsupported forge type '", f.kind.as_str(), "'")))
                }
            },
        }
    }

    /// Hardcoded default: cratebox -> crates.io. The cratebox API URL is
    /// `<registry_url>/api/packages/<registry_user>/cargo`, with
    /// `http://100.105.75.7:3000` and `joe` when not given (the
    /// `REGISTRY_URL` and `REGISTRY_USER` environment variables).
    pub fn default_config(registry_url: Option<&str>, registry_user: Option<&str>) -> (r: Config)
        ensures
            r.describes_default(
                match registry_url {
                    Some(u) => u@,
                    None => "http://100.105.75.7:3000"@,
                },
                match registry_user {
                    Some(u) => u@,
                    None => "joe"@,
                },
            ),
    {
        let base_url = match registry_url {
            Some(u) => u,
            None => "http://100.105.75.7:3000",
        };
        let user = match registry_user {
            Some(u) => u,
            None => "joe",
        };
        let a = cat3(base_url, "/api/packages/", user);
        let api = cat(a.as_str(), "/cargo");
        let cratebox = Registry {
            name: owned("cratebox"),
            cargo_name: Some(owned("cratebox")),
            api_url: Some(api),
            confirm: false,
        };
        let crates_io = Registry {
            name: owned("crates-io"),
            cargo_name: None,
            api_url: None,
            confirm: true,
        };
        proof {
            reveal_strlit("cratebox");
            reveal_strlit("crates-io");
        }
        let mut registries: StrMap<Registry> = StrMap::new();
        registries.insert(owned("cratebox"), cratebox.clone());
        assert("cratebox"@.len() != "crates-io"@.len());
        registries.insert(owned("crates-io"), crates_io.clone());
        let stages = vec![Stage { registry: cratebox }, Stage { registry: crates_io }];
        let mut pipelines: StrMap<Pipeline> = StrMap::new();
        pipelines.insert(owned("default"), Pipeline { name: owned("default"), stages });
        let r = Config {
            registries,
            pipelines,
            branch_pipeline: None,
            autobump: None,
            packages: StrMap::new(),
            forge: None,
        };
        assert(r.registries.key_list() == seq!["cratebox"@, "crates-io"@]);
        assert(opt_view(cratebox.api_url) == Some(base_url@ + "/api/packages/"@ + user@ + "/cargo"@));
        r
    }

    /// The built-in configuration for a registry URL and user.
    pub open spec fn describes_default(&self, base_url: Seq<char>, user: Seq<char>) -> bool {
        let cratebox = self.registries.value_of("cratebox"@);
        let crates_io = self.registries.value_of("crates-io"@);
        let default = self.pipelines.value_of("default"@);
        &&& self.registries.key_list() == seq!["cratebox"@, "crates-io"@]
        &&& self.pipelines.key_list() == seq!["default"@]
        &&& self.packages.key_list().len() == 0
        &&& cratebox.name@ == "cratebox"@
        &&& opt_view(cratebox.cargo_name) == Some("cratebox"@)
        &&& opt_view(cratebox.api_url) == Some(base_url + "/api/packages/"@ + user + "/cargo"@)
        &&& !cratebox.confirm
        &&& crates_io.name@ == "crates-io"@
        &&& crates_io.cargo_name is None
        &&& crates_io.api_url is None
        &&& crates_io.confirm
        &&& default.name@ == "default"@
        &&& default.stages@.len() == 2
        &&& default.stages@[0].registry == cratebox
        &&& default.stages@[1].registry == crates_io
        &&& self.branch_pipeline is None
        &&& self.autobump is None
        &&& self.forge is None
    }
}

/// Asking for a pipeline without a name is asking for `default`.
pub proof fn lemma_unnamed_pipeline_is_default(name: Option<Seq<char>>)
    requires
        name is None,
    ensures
        pipeline_key(name) == pipeline_key(Some("default"@)),
{
}

/// In an accepted configuration, every stage of every pipeline is the
/// registry configured under the stage's name.
pub proof fn lemma_stages_are_configured_registries(cfg: Config, t: Seq<char>, p: Seq<char>, j: int)
    requires
        cfg.describes(t),
        cfg.pipelines.has(p),
        0 <= j < cfg.pipelines.value_of(p).stages@.len(),
    ensures
        ({
            let reg = cfg.pipelines.value_of(p).stages@[j].registry;
            cfg.registries.has(reg.name@) && cfg.registries.value_of(reg.name@) == reg
        }),
{
    let pl = cfg.pipelines.value_of(p);
    let n = stage_names(t, p)[j];
    assert(pipeline_from(t, p, cfg.registries, pl));
    assert(pl.stages@[j].registry == cfg.registries.value_of(n));
    assert(registry_from(t, n, cfg.registries.value_of(n)));
}

} // verus!
