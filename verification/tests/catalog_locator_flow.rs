use repro_build::catalog::parse_contract_list;
use repro_build::errors::RunError;
use repro_build::flow::{BuildFlow, FlowPhase, ReproFlow, ReproPhase};
use repro_build::locator::{find_wasm_files, FsTree};
use repro_build::packages::{
    cdylib_packages, contract_manifest_path, is_cdylib_package, manifest_requirement, Package,
    Target,
};
use repro_build::strutil::{str_contains, str_eq};

#[test]
fn parses_the_catalog_document() {
    let doc = "contracts = [\"token\", \"liquidity_pool\"]";
    let names = parse_contract_list(doc).unwrap();
    assert_eq!(names, vec!["token", "liquidity_pool"]);
}

#[test]
fn parses_multiline_catalog_with_trailing_comma() {
    let doc = "\ncontracts = [\n    \"account\",\n    \"atomic_swap\",\n    \"timelock\",\n]\n";
    let names = parse_contract_list(doc).unwrap();
    assert_eq!(names, vec!["account", "atomic_swap", "timelock"]);
}

#[test]
fn parses_an_empty_catalog() {
    let names = parse_contract_list("contracts = []").unwrap();
    assert!(names.is_empty());
}

#[test]
fn malformed_catalogs_are_the_config_error() {
    for doc in [
        "",
        "contracts",
        "contract = [\"a\"]",
        "contracts = ",
        "contracts = [\"a\"",
        "contracts = [\"a]",
        "contracts = [a]",
        "contracts = [\"a\" \"b\"]",
        "contracts = [\"a\"] trailing",
        "contracts [\"a\"]",
    ] {
        assert_eq!(parse_contract_list(doc), Err(RunError::ConfigError), "doc: {:?}", doc);
    }
}

fn file(name: &str) -> FsTree {
    FsTree::File { name: name.to_string() }
}

fn dir(name: &str, entries: Vec<FsTree>) -> FsTree {
    FsTree::Dir { name: name.to_string(), entries }
}

#[test]
fn locates_wasm_files_recursively() {
    let root = Some(dir(
        "ignored",
        vec![
            file("token.wasm"),
            file("notes.txt"),
            dir(
                "nested",
                vec![file("pool.wasm"), dir("deeper", vec![file("swap.wasm")]), file("x.rs")],
            ),
            file("other.optimized.wasm"),
        ],
    ));
    let found = find_wasm_files(&root, "scan").unwrap();
    assert_eq!(
        found,
        vec![
            "scan/token.wasm",
            "scan/nested/pool.wasm",
            "scan/nested/deeper/swap.wasm",
            "scan/other.optimized.wasm",
        ]
    );
}

#[test]
fn missing_scan_root_is_the_invalid_directory_error() {
    let err = find_wasm_files(&None, "nowhere").unwrap_err();
    assert_eq!(err, RunError::InvalidDirectoryError);
}

#[test]
fn plain_file_scan_root_is_the_invalid_directory_error() {
    let root = Some(file("token.wasm"));
    let err = find_wasm_files(&root, "scan").unwrap_err();
    assert_eq!(err, RunError::InvalidDirectoryError);
}

fn package(name: &str, crate_types: &[&str]) -> Package {
    Package {
        name: name.to_string(),
        manifest_path: format!("proj/{}/Cargo.toml", name),
        targets: vec![Target {
            name: name.to_string(),
            crate_types: crate_types.iter().map(|s| s.to_string()).collect(),
        }],
    }
}

#[test]
fn keeps_only_packages_with_a_cdylib_target() {
    let pkgs = vec![
        package("token", &["cdylib", "rlib"]),
        package("helper", &["rlib"]),
        package("pool", &["cdylib"]),
        Package { name: "empty".to_string(), manifest_path: "m".to_string(), targets: vec![] },
    ];
    assert!(is_cdylib_package(&pkgs[0]));
    assert!(!is_cdylib_package(&pkgs[1]));
    let kept = cdylib_packages(pkgs);
    let names: Vec<&str> = kept.iter().map(|p| p.name.as_str()).collect();
    assert_eq!(names, vec!["token", "pool"]);
}

#[test]
fn manifest_path_lies_inside_the_contract_directory() {
    assert_eq!(contract_manifest_path("work/examples", "token"), "work/examples/token/Cargo.toml");
}

#[test]
fn missing_manifest_names_the_contract() {
    assert!(manifest_requirement("token", true).is_ok());
    let err = manifest_requirement("token", false).unwrap_err();
    assert_eq!(err, RunError::MissingManifestError { contract: "token".to_string() });
    assert_eq!(err.describe(), "missing manifest for contract token");
}

#[test]
fn missing_manifest_fails_the_run_before_any_other_contract() {
    let catalog = vec!["token".to_string(), "liquidity_pool".to_string()];
    let flow = BuildFlow::new(catalog);
    assert_eq!(flow.current_contract().as_deref(), Some("token"));

    // The first contract's manifest is missing: the run fails at once,
    // naming that contract; no later contract is offered.
    let flow = flow.observe_manifest(false);
    match &flow.phase {
        FlowPhase::Failed { error } => {
            assert_eq!(
                *error,
                RunError::MissingManifestError { contract: "token".to_string() }
            );
        }
        _ => panic!("expected the failed phase"),
    }
    assert!(flow.current_contract().is_none());
}

#[test]
fn build_flow_walks_the_catalog_in_order() {
    let catalog = vec!["a".to_string(), "b".to_string()];
    let flow = BuildFlow::new(catalog);
    assert_eq!(flow.current_contract().as_deref(), Some("a"));
    let flow = flow.observe_manifest(true);
    assert_eq!(flow.current_contract().as_deref(), Some("a"));
    let flow = flow.advance();
    assert_eq!(flow.current_contract().as_deref(), Some("b"));
    let flow = flow.observe_manifest(true).advance();
    assert!(matches!(flow.phase, FlowPhase::Finished));
    assert!(flow.current_contract().is_none());
}

#[test]
fn build_flow_aborts_on_a_pipeline_error() {
    let flow = BuildFlow::new(vec!["a".to_string(), "b".to_string()]);
    let flow = flow.fail(RunError::BuildFailedError { status: 1 });
    assert!(flow.current_contract().is_none());
    assert!(matches!(flow.phase, FlowPhase::Failed { .. }));
}

#[test]
fn empty_catalog_finishes_immediately() {
    let flow = BuildFlow::new(Vec::new());
    assert!(matches!(flow.phase, FlowPhase::Finished));
}

#[test]
fn string_utilities() {
    assert!(str_eq("abc", "abc"));
    assert!(!str_eq("abc", "abd"));
    assert!(!str_eq("abc", "ab"));
    assert!(str_contains("soroban_token_contract.wasm", "token"));
    assert!(!str_contains("soroban_token_contract.wasm", "pool"));
    assert!(str_contains("anything", ""));
}

#[test]
fn repro_flow_checks_artifacts_in_order_and_stops_on_failure() {
    let flow = ReproFlow::new(
        vec!["a.wasm".to_string(), "b.wasm".to_string()],
        "proj".to_string(),
    );
    let cmd = flow.next_command().unwrap();
    assert_eq!(cmd.args[6], "a.wasm");
    assert_eq!(cmd.args[8], "proj");

    let flow = flow.observe_exit(0);
    let cmd = flow.next_command().unwrap();
    assert_eq!(cmd.args[6], "b.wasm");

    // A mismatch: the run aborts carrying the checker's status.
    let flow = flow.observe_exit(5);
    match &flow.phase {
        ReproPhase::Failed { error } => {
            assert_eq!(*error, RunError::ReproduceFailedError { status: 5 });
        }
        _ => panic!("expected the failed phase"),
    }
    assert!(flow.next_command().is_none());
}

#[test]
fn repro_flow_finishes_after_the_last_artifact() {
    let flow = ReproFlow::new(vec!["a.wasm".to_string()], "proj".to_string());
    let flow = flow.observe_exit(0);
    assert!(matches!(flow.phase, ReproPhase::Finished));
    assert!(flow.next_command().is_none());
    let empty = ReproFlow::new(Vec::new(), "proj".to_string());
    assert!(matches!(empty.phase, ReproPhase::Finished));
}
