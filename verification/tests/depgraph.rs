use cargo_promote::domain::depgraph::{
    build_node, collect_internal_deps, is_skipped_dir, scan_workspace_tree, topo_sort, CrateNode,
};
use std::path::{Path, PathBuf};

fn node(name: &str, deps: &[&str]) -> CrateNode {
    CrateNode {
        name: name.into(),
        version: "0.1.0".into(),
        manifest_path: PathBuf::from(format!("{name}/Cargo.toml")),
        internal_deps: deps.iter().map(|d| d.to_string()).collect(),
        unpublishable: false,
        path_only_deps: vec![],
    }
}

#[test]
fn topo_sort_empty() {
    let order = topo_sort(&[]).unwrap();
    assert!(order.is_empty());
}

#[test]
fn topo_sort_linear() {
    let nodes = vec![
        CrateNode {
            name: "a".into(),
            version: "0.1.0".into(),
            manifest_path: PathBuf::from("a/Cargo.toml"),
            internal_deps: vec!["b".into()],
            unpublishable: false,
            path_only_deps: vec![],
        },
        CrateNode {
            name: "b".into(),
            version: "0.1.0".into(),
            manifest_path: PathBuf::from("b/Cargo.toml"),
            internal_deps: vec![],
            unpublishable: false,
            path_only_deps: vec![],
        },
    ];
    let order = topo_sort(&nodes).unwrap();
    assert_eq!(order, vec!["b", "a"]);
}

#[test]
fn topo_sort_puts_every_crate_after_its_dependencies() {
    let nodes = vec![node("app", &["core", "util"]), node("util", &["core"]), node("core", &[])];
    let order = topo_sort(&nodes).unwrap();
    assert_eq!(order, vec!["core", "util", "app"]);
}

#[test]
fn topo_sort_reports_a_cycle_with_the_crates_left() {
    let nodes = vec![node("a", &["b"]), node("b", &["a"]), node("c", &[])];
    let err = topo_sort(&nodes).unwrap_err();
    assert_eq!(err.message(), "circular dependency detected involving: a, b");
}

#[test]
fn topo_sort_ignores_dependencies_outside_the_graph() {
    let nodes = vec![node("a", &["serde"])];
    assert_eq!(topo_sort(&nodes).unwrap(), vec!["a"]);
}

const APP: &str = "[package]\nname = \"app\"\nversion = \"1.2.0\"\n\n[dependencies]\ncore = { path = \"../core\" }\nutil = { path = \"../util\", version = \"0.3\" }\nserde = \"1\"\n\n[build-dependencies]\ncore = \"0.1\"\n";

#[test]
fn collect_internal_deps_finds_graph_crates_and_path_only_ones() {
    let known = vec!["app".to_string(), "core".to_string(), "util".to_string()];
    let (internal, path_only) = collect_internal_deps(APP, &known);
    assert_eq!(internal, vec!["core", "util", "core"]);
    assert_eq!(path_only, vec!["core"]);
}

#[test]
fn build_node_reads_name_version_and_publish_flag() {
    let known = vec!["app".to_string(), "core".to_string()];
    let n = build_node(Path::new("app/Cargo.toml"), &Some(APP.to_string()), &known).unwrap();
    assert_eq!(n.name, "app");
    assert_eq!(n.version, "1.2.0");
    assert!(!n.unpublishable);
    assert_eq!(n.internal_deps, vec!["core", "core"]);
    assert_eq!(n.path_only_deps, vec!["core"]);

    let private = "[package]\nname = \"tool\"\npublish = false\n";
    let t = build_node(Path::new("tool/Cargo.toml"), &Some(private.to_string()), &known).unwrap();
    assert!(t.unpublishable);
    assert_eq!(t.version, "0.0.0");

    let xtask = "[package]\nname = \"repo-xtask\"\nversion = \"0.1.0\"\n";
    let x = build_node(Path::new("x/Cargo.toml"), &Some(xtask.to_string()), &known).unwrap();
    assert!(x.unpublishable);

    assert!(build_node(Path::new("w/Cargo.toml"), &Some("[workspace]\n".to_string()), &known).is_none());
    assert!(build_node(Path::new("u/Cargo.toml"), &None, &known).is_none());
}

#[test]
fn scan_workspace_tree_resolves_dependencies_across_manifests() {
    let manifests = vec![
        (PathBuf::from("app/Cargo.toml"), Some(APP.to_string())),
        (PathBuf::from("core/Cargo.toml"), Some("[package]\nname = \"core\"\nversion = \"0.1.0\"\n".to_string())),
        (PathBuf::from("broken/Cargo.toml"), None),
    ];
    let nodes = scan_workspace_tree(&manifests);
    let names: Vec<&str> = nodes.iter().map(|n| n.name.as_str()).collect();
    assert_eq!(names, vec!["app", "core"]);
    assert_eq!(nodes[0].internal_deps, vec!["core", "core"]);
    assert_eq!(topo_sort(&nodes).unwrap(), vec!["core", "app"]);
}

#[test]
fn hidden_and_skipped_dirs_are_left_out() {
    assert!(is_skipped_dir(".git", &[]));
    assert!(is_skipped_dir("vendor", &["target", "vendor"]));
    assert!(!is_skipped_dir("core", &["vendor"]));
}

#[test]
fn topo_sort_names_crates_that_depend_on_a_cycle_too() {
    let nodes = vec![
        node("app", &["b"]),
        node("b", &["c"]),
        node("c", &["b"]),
        node("free", &[]),
        node("uses_free", &["free"]),
    ];
    let err = topo_sort(&nodes).unwrap_err();
    assert_eq!(err.message(), "circular dependency detected involving: app, b, c");
}

#[test]
fn topo_sort_releases_roots_in_index_order_then_dependents() {
    let nodes = vec![node("b", &["a"]), node("a", &[]), node("c", &[]), node("d", &["c", "a"])];
    let order = topo_sort(&nodes).unwrap();
    assert_eq!(order, vec!["a", "c", "b", "d"]);
}
