use repro_build::errors::RunError;
use repro_build::sort::{known_dependency_pairs, sorted_artifacts, DepPair};

fn strings(v: &[&str]) -> Vec<String> {
    v.iter().map(|s| s.to_string()).collect()
}

fn pos(v: &Vec<String>, needle: &str) -> usize {
    v.iter().position(|p| p.contains(needle)).unwrap()
}

#[test]
fn orders_token_before_liquidity_pool() {
    let paths = strings(&["liquidity_pool.wasm", "token.wasm"]);
    let pairs = vec![
        DepPair { before: "token".to_string(), after: "liquidity_pool".to_string() },
    ];
    let sorted = sorted_artifacts(&paths, &pairs).unwrap();
    assert_eq!(sorted, strings(&["token.wasm", "liquidity_pool.wasm"]));
}

#[test]
fn respects_every_builtin_pair() {
    let paths = strings(&[
        "out/soroban_liquidity_pool_contract.wasm",
        "out/soroban_atomic_multiswap_contract.wasm",
        "out/soroban_cross_contract_b_contract.wasm",
        "out/soroban_token_contract.wasm",
        "out/soroban_atomic_swap_contract.wasm",
        "out/soroban_cross_contract_a_contract.wasm",
        "out/soroban_single_offer_contract.wasm",
    ]);
    let pairs = known_dependency_pairs();
    let sorted = sorted_artifacts(&paths, &pairs).unwrap();
    assert_eq!(sorted.len(), paths.len());
    for p in &paths {
        assert!(sorted.contains(p));
    }
    assert!(
        pos(&sorted, "cross_contract_a") < pos(&sorted, "cross_contract_b")
    );
    assert!(
        pos(&sorted, "atomic_swap") < pos(&sorted, "atomic_multiswap")
    );
    assert!(pos(&sorted, "token") < pos(&sorted, "liquidity_pool"));
}

#[test]
fn pair_with_one_side_absent_adds_no_constraint() {
    let paths = strings(&["b.wasm", "a.wasm"]);
    let pairs = vec![
        DepPair { before: "a.wasm".to_string(), after: "missing".to_string() },
    ];
    let sorted = sorted_artifacts(&paths, &pairs).unwrap();
    assert_eq!(sorted.len(), 2);
    assert!(sorted.contains(&"a.wasm".to_string()));
    assert!(sorted.contains(&"b.wasm".to_string()));
}

#[test]
fn empty_artifact_set_sorts_to_empty() {
    let paths: Vec<String> = Vec::new();
    let sorted = sorted_artifacts(&paths, &known_dependency_pairs()).unwrap();
    assert!(sorted.is_empty());
}

#[test]
fn injected_pair_cycle_is_the_cycle_error() {
    let paths = strings(&["token.wasm", "liquidity_pool.wasm"]);
    let pairs = vec![
        DepPair { before: "token".to_string(), after: "liquidity_pool".to_string() },
        DepPair { before: "liquidity_pool".to_string(), after: "token".to_string() },
    ];
    let err = sorted_artifacts(&paths, &pairs).unwrap_err();
    assert_eq!(err, RunError::DependencyCycleError);
}

#[test]
fn self_cycle_is_the_cycle_error() {
    let paths = strings(&["token.wasm"]);
    let pairs = vec![
        DepPair { before: "token".to_string(), after: "token.wasm".to_string() },
    ];
    let err = sorted_artifacts(&paths, &pairs).unwrap_err();
    assert_eq!(err, RunError::DependencyCycleError);
}

#[test]
fn three_step_cycle_is_detected() {
    let paths = strings(&["a1.wasm", "b2.wasm", "c3.wasm"]);
    let pairs = vec![
        DepPair { before: "a1".to_string(), after: "b2".to_string() },
        DepPair { before: "b2".to_string(), after: "c3".to_string() },
        DepPair { before: "c3".to_string(), after: "a1".to_string() },
    ];
    let err = sorted_artifacts(&paths, &pairs).unwrap_err();
    assert_eq!(err, RunError::DependencyCycleError);
}

#[test]
fn substring_matching_picks_the_last_match() {
    // Two paths contain the key; the edge binds the later one.
    let paths = strings(&["x/token.wasm", "y/token.wasm", "y/liquidity_pool.wasm"]);
    let pairs = vec![
        DepPair { before: "token".to_string(), after: "liquidity_pool".to_string() },
    ];
    let sorted = sorted_artifacts(&paths, &pairs).unwrap();
    let a = sorted.iter().position(|p| p == "y/token.wasm").unwrap();
    let b = sorted.iter().position(|p| p == "y/liquidity_pool.wasm").unwrap();
    assert!(a < b);
}

#[test]
fn builtin_pair_table_contents() {
    let pairs = known_dependency_pairs();
    assert_eq!(pairs.len(), 3);
    assert_eq!(pairs[0].before, "soroban_cross_contract_a_contract");
    assert_eq!(pairs[0].after, "soroban_cross_contract_b_contract");
    assert_eq!(pairs[1].before, "soroban_atomic_swap_contract");
    assert_eq!(pairs[1].after, "soroban_atomic_multiswap_contract");
    assert_eq!(pairs[2].before, "soroban_token_contract");
    assert_eq!(pairs[2].after, "soroban_liquidity_pool_contract");
}
