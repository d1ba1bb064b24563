use loam::build_cmd::{Cmd, Error as BuildError};
use loam::clients::Args;
use loam::deps::{all, contract, get_workspace, loam, out_dir, get_target_dir, subcontract, DepKind, Error, Package, PackageExt};

fn package(name: &str, is_contract: bool, deps: &[&str]) -> Package {
    Package {
        name: name.to_string(),
        version: "0.1.0".to_string(),
        manifest_path: format!("/ws/{name}/Cargo.toml"),
        is_contract,
        is_subcontract: false,
        deps: deps.iter().map(|d| d.to_string()).collect(),
        targets_cdylib: true,
        features: vec![],
    }
}

#[test]
fn workspace_order_respects_every_edge() {
    // core is a contract dependency consumed by both middle and app;
    // middle is one consumed by app.
    let core = package("core", true, &[]);
    let middle = package("middle", true, &["core"]);
    let app = package("app", false, &["core", "middle"]);
    let packages = vec![app, middle, core];
    let ws = get_workspace(&packages).expect("acyclic graph sorts");
    assert_eq!(ws.len(), 3);
    let pos = |n: &str| ws.iter().position(|p| p.name == n).unwrap();
    assert!(pos("core") < pos("middle"));
    assert!(pos("core") < pos("app"));
    assert!(pos("middle") < pos("app"));
}

#[test]
fn cyclic_graph_is_refused() {
    // a and b each declare the other as a contract dependency: a cycle.
    let a = package("a", true, &["b"]);
    let b = package("b", true, &["a"]);
    let packages = vec![a, b];
    assert_eq!(get_workspace(&packages).unwrap_err(), Error::Cycle);
}

#[test]
fn contract_and_subcontract_filters() {
    let mut sub = package("sub", false, &[]);
    sub.is_subcontract = true;
    let dep = package("dep", true, &[]);
    let root = package("root", false, &["dep", "sub"]);
    let packages = vec![dep.clone(), sub.clone(), root.clone()];
    let cs = contract(&packages, "/ws/root/Cargo.toml");
    assert_eq!(cs.len(), 1);
    assert_eq!(cs[0].name, "dep");
    let ss = subcontract(&packages, "/ws/root/Cargo.toml");
    assert_eq!(ss.len(), 1);
    assert_eq!(ss[0].name, "sub");
    assert!(dep.is_dep(&DepKind::Contract));
    assert!(!dep.is_dep(&DepKind::Subcontract));
    assert_eq!(DepKind::Contract.as_str(), "contract");
    assert_eq!(DepKind::Subcontract.as_str(), "subcontract");
}

#[test]
fn tree_output_selects_packages() {
    let dep = package("dep", true, &[]);
    let root = package("root", false, &["dep"]);
    let packages = vec![dep, root.clone()];
    let tree = "dep v0.1.0 (/ws/dep)\nroot v0.1.0 (/ws/root)\nmissing v9.9.9\n";
    let resolved = all(tree, &packages, &root);
    // dep is selected by its line, the root's own line is dropped, the
    // unknown line matches nothing, and the root is appended last.
    assert_eq!(resolved.len(), 2);
    assert_eq!(resolved[0].name, "dep");
    assert_eq!(resolved[1].name, "root");
}

#[test]
fn loam_paths_are_deduplicated() {
    let dep = package("dep-pkg", true, &[]);
    let root = package("root", false, &["dep-pkg"]);
    let packages = vec![dep.clone(), dep, root];
    let pairs = loam(&packages, "/ws/root/Cargo.toml", &DepKind::Contract).unwrap();
    // Both copies of dep-pkg map to one pair; the root adds its own.
    assert_eq!(pairs.len(), 2);
    assert_eq!(pairs[0].0, "/ws/dep-pkg/src/lib.rs");
    assert_eq!(pairs[0].1, "dep-pkg0.1.0/loam/dep_pkg");
    assert_eq!(pairs[1].0, "/ws/root/src/lib.rs");
}

#[test]
fn artifact_paths_are_canonical() {
    assert_eq!(get_target_dir("/ws/target"), "/ws/target/loam");
    assert_eq!(out_dir("/ws/target", "my-pkg"), "/ws/target/loam/my_pkg");
}

#[test]
fn list_packages_selects_filters_and_sorts() {
    let cmd = |package: Option<&str>| Cmd {
        list: false,
        manifest_path: "Cargo.toml".to_string(),
        package: package.map(str::to_string),
        profile: None,
        features: None,
        all_features: false,
        no_default_features: false,
        out_dir: None,
        print_commands_only: false,
        build_clients: false,
        build_clients_args: Args { env: None },
    };
    let core = package("core", true, &[]);
    let app = package("app", false, &["core"]);
    let mut tool = package("tool", false, &[]);
    tool.targets_cdylib = false;
    let packages = vec![app, tool, core];

    // Without a selection, every deployable package builds, dependencies
    // first; the non-deployable package is left out.
    let ws = cmd(None).list_packages(&packages).unwrap();
    let names: Vec<&str> = ws.iter().map(|p| p.name.as_str()).collect();
    assert_eq!(names, vec!["core", "app"]);

    // With a selection, the named package and its contract dependencies
    // build, dependencies first.
    let ws = cmd(Some("app")).list_packages(&packages).unwrap();
    let names: Vec<&str> = ws.iter().map(|p| p.name.as_str()).collect();
    assert_eq!(names, vec!["core", "app"]);

    // A name no metadata entry carries is refused by name.
    let err = cmd(Some("missing")).list_packages(&packages).unwrap_err();
    assert_eq!(err, BuildError::PackageNotFound { package: "missing".to_string() });
}
