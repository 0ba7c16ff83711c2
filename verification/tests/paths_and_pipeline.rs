use repro_build::errors::RunError;
use repro_build::paths::{
    expected_artifact_path, has_wasm_extension, join_path, optimized_path, wasm_file_name,
};
use repro_build::pipeline::{
    build_command, build_outcome, clone_command, clone_outcome, optimize_command,
    optimize_outcome, repro_command, reproduce_outcome, PackagePhase, PackageRun,
};
use repro_build::toolchain::{random_toolchain, select_toolchain, toolchain_candidates};

#[test]
fn artifact_name_replaces_hyphens_and_appends_extension() {
    assert_eq!(wasm_file_name("atomic-swap"), "atomic_swap.wasm");
    assert_eq!(wasm_file_name("token"), "token.wasm");
    assert_eq!(wasm_file_name("a-b-c"), "a_b_c.wasm");
}

#[test]
fn artifact_name_derivation_is_deterministic_and_idempotent_on_normal_names() {
    assert_eq!(wasm_file_name("atomic-swap"), wasm_file_name("atomic-swap"));
    // A name already free of hyphens derives to itself plus the extension.
    assert_eq!(wasm_file_name("atomic_swap"), "atomic_swap.wasm");
}

#[test]
fn optimize_path_inserts_the_marker_before_the_extension() {
    assert_eq!(optimized_path("foo.wasm"), "foo.optimized.wasm");
}

#[test]
fn optimize_path_is_not_idempotent_by_design() {
    let once = optimized_path("foo.wasm");
    let twice = optimized_path(&once);
    assert_eq!(twice, "foo.optimized.optimized.wasm");
    assert_ne!(twice, once);
    // Re-applying to the original, not the derived, path is stable.
    assert_eq!(optimized_path("foo.wasm"), once);
}

#[test]
fn optimize_path_without_extension_appends() {
    assert_eq!(optimized_path("foo"), "foo.optimized.wasm");
    assert_eq!(optimized_path("dir.d/foo"), "dir.d/foo.optimized.wasm");
}

#[test]
fn wasm_extension_detection() {
    assert!(has_wasm_extension("a.wasm"));
    assert!(has_wasm_extension("out/b.optimized.wasm"));
    assert!(!has_wasm_extension("a.txt"));
    assert!(!has_wasm_extension("wasm"));
    assert!(!has_wasm_extension(".wasm"));
    assert!(!has_wasm_extension("dir.wasm/file"));
}

#[test]
fn artifact_path_is_name_under_out_dir() {
    assert_eq!(
        expected_artifact_path("work/wasm-output", "atomic-swap"),
        "work/wasm-output/atomic_swap.wasm"
    );
    assert_eq!(join_path("a", "b"), "a/b");
}

#[test]
fn build_command_arguments() {
    let c = build_command("proj/token/Cargo.toml", "token", "out", "1.78.0");
    assert_eq!(c.program, "cargo");
    assert_eq!(c.current_dir.as_deref(), Some("../soroban-cli"));
    assert_eq!(c.env, vec![("RUSTUP_TOOLCHAIN".to_string(), "1.78.0".to_string())]);
    assert_eq!(
        c.args,
        vec![
            "run",
            "contract",
            "build",
            "--manifest-path",
            "proj/token/Cargo.toml",
            "--package",
            "token",
            "--out-dir",
            "out",
        ]
    );
}

#[test]
fn optimize_and_repro_and_clone_command_arguments() {
    let o = optimize_command("out/token.wasm", "out/token.optimized.wasm");
    assert_eq!(
        o.args,
        vec![
            "run",
            "--features",
            "opt",
            "contract",
            "optimize",
            "--wasm",
            "out/token.wasm",
            "--wasm-out",
            "out/token.optimized.wasm",
        ]
    );
    assert!(o.env.is_empty());
    let r = repro_command("out/token.wasm", "proj");
    assert_eq!(
        r.args,
        vec![
            "run", "--features", "opt", "contract", "repro", "--wasm", "out/token.wasm",
            "--repo", "proj",
        ]
    );
    let g = clone_command("https://example.com/repo.git", "work/repo");
    assert_eq!(g.program, "git");
    assert!(g.current_dir.is_none());
    assert_eq!(g.args, vec!["clone", "https://example.com/repo.git", "work/repo"]);
}

#[test]
fn stage_outcomes_carry_the_observed_status() {
    assert!(build_outcome(0).is_ok());
    assert_eq!(build_outcome(1), Err(RunError::BuildFailedError { status: 1 }));
    assert_eq!(build_outcome(101), Err(RunError::BuildFailedError { status: 101 }));
    assert!(optimize_outcome(0).is_ok());
    assert_eq!(optimize_outcome(2), Err(RunError::OptimizeFailedError { status: 2 }));
    assert!(reproduce_outcome(0).is_ok());
    assert_eq!(reproduce_outcome(3), Err(RunError::ReproduceFailedError { status: 3 }));
    assert!(clone_outcome(0).is_ok());
    assert_eq!(clone_outcome(128), Err(RunError::CloneFailedError { status: 128 }));
}

#[test]
fn failed_build_returns_its_status_and_never_reaches_optimize() {
    let run = PackageRun::new(
        "proj/token/Cargo.toml".to_string(),
        "token".to_string(),
        "out".to_string(),
        "1.78.0".to_string(),
    );
    assert!(matches!(&run.phase, PackagePhase::Building { artifact } if artifact == "out/token.wasm"));
    let cmd = run.next_command().unwrap();
    assert_eq!(cmd.args[2], "build");

    // The external build tool exits with status 1.
    let run = run.observe_exit(1);
    match &run.phase {
        PackagePhase::Failed { error } => {
            assert_eq!(*error, RunError::BuildFailedError { status: 1 });
        }
        other => panic!("expected a failed phase, got {:?}", std::mem::discriminant(other)),
    }
    // The optimize stage is never invoked for this package.
    assert!(run.next_command().is_none());
}

#[test]
fn successful_build_then_optimize_completes() {
    let run = PackageRun::new(
        "proj/atomic-swap/Cargo.toml".to_string(),
        "atomic-swap".to_string(),
        "out".to_string(),
        "1.79.0".to_string(),
    );
    let run = run.observe_exit(0);
    match &run.phase {
        PackagePhase::Optimizing { artifact, optimized } => {
            assert_eq!(artifact, "out/atomic_swap.wasm");
            assert_eq!(optimized, "out/atomic_swap.optimized.wasm");
        }
        _ => panic!("expected the optimizing phase"),
    }
    let cmd = run.next_command().unwrap();
    assert_eq!(cmd.args[4], "optimize");
    let run = run.observe_exit(0);
    assert!(matches!(&run.phase, PackagePhase::Complete { .. }));
    assert!(run.next_command().is_none());
}

#[test]
fn failed_optimize_carries_its_status() {
    let run = PackageRun::new(
        "m".to_string(),
        "p".to_string(),
        "o".to_string(),
        "1.77.2".to_string(),
    );
    let run = run.observe_exit(0).observe_exit(7);
    match &run.phase {
        PackagePhase::Failed { error } => {
            assert_eq!(*error, RunError::OptimizeFailedError { status: 7 });
        }
        _ => panic!("expected a failed phase"),
    }
}

#[test]
fn toolchain_selection_stays_inside_the_candidate_set() {
    let candidates = toolchain_candidates();
    assert_eq!(candidates, vec!["1.79.0", "1.78.0", "1.77.2"]);
    for _ in 0..50 {
        let t = random_toolchain();
        assert!(candidates.contains(&t));
    }
    assert!(select_toolchain(&Vec::new()).is_none());
    let one = vec!["9.9.9".to_string()];
    assert_eq!(select_toolchain(&one), Some("9.9.9".to_string()));
}
