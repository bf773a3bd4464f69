use ubl_kernel::link::{IntentClass, LinkCommit};
use ubl_kernel::membrane::{atom_hash_well_formed, decide, validate, LedgerState, MembraneError};

fn make_commit(seq: u64, prev_hash: &str, delta: i128, class: IntentClass) -> LinkCommit {
    LinkCommit {
        version: 1,
        container_id: "wallet".to_string(),
        expected_sequence: seq,
        previous_hash: prev_hash.to_string(),
        atom_hash: "a".repeat(64),
        intent_class: class,
        physics_delta: delta,
        pact: None,
        author_pubkey: "pk".to_string(),
        signature: "mock".to_string(),
    }
}

fn make_state(seq: u64, hash: &str, balance: i128) -> LedgerState {
    LedgerState {
        container_id: "wallet".to_string(),
        last_hash: hash.to_string(),
        next_sequence: seq,
        physical_balance: balance,
    }
}

fn reason_of(r: Result<(), MembraneError>) -> String {
    match r {
        Err(MembraneError::PhysicsViolation { reason }) => reason,
        other => panic!("expected a physics violation, got {:?}", other),
    }
}

#[test]
fn test_valid_commit() {
    let state = make_state(1, "genesis", 0);
    let commit = make_commit(1, "genesis", 100, IntentClass::Entropy);
    let result = validate(&commit, &state);
    assert!(result.is_ok());
}

#[test]
fn test_invalid_version() {
    let state = make_state(1, "genesis", 0);
    let mut commit = make_commit(1, "genesis", 0, IntentClass::Observation);
    commit.version = 2;
    let result = validate(&commit, &state);
    assert!(matches!(result, Err(MembraneError::InvalidVersion)));
}

#[test]
fn test_container_mismatch() {
    let mut state = make_state(1, "genesis", 0);
    state.container_id = "wallet_alice".to_string();
    let commit = make_commit(1, "genesis", 0, IntentClass::Observation);
    let result = validate(&commit, &state);
    assert!(matches!(result, Err(MembraneError::InvalidTarget)));
}

#[test]
fn test_reality_drift() {
    let state = make_state(1, "genesis", 0);
    let commit = make_commit(1, "wrong_hash", 0, IntentClass::Observation);
    let result = validate(&commit, &state);
    assert!(matches!(result, Err(MembraneError::RealityDrift)));
}

#[test]
fn test_sequence_mismatch() {
    let state = make_state(1, "genesis", 0);
    let commit = make_commit(5, "genesis", 0, IntentClass::Observation);
    let result = validate(&commit, &state);
    assert!(matches!(result, Err(MembraneError::SequenceMismatch)));
}

#[test]
fn test_conservation_violation() {
    let state = make_state(1, "genesis", 0);
    let commit = make_commit(1, "genesis", -100, IntentClass::Conservation);
    let result = validate(&commit, &state);
    assert!(matches!(result, Err(MembraneError::PhysicsViolation { .. })));
}

#[test]
fn test_observation_with_delta() {
    let state = make_state(1, "genesis", 0);
    let commit = make_commit(1, "genesis", 100, IntentClass::Observation);
    let result = validate(&commit, &state);
    assert!(matches!(result, Err(MembraneError::PhysicsViolation { .. })));
}

#[test]
fn test_entropy_allows_creation() {
    let state = make_state(1, "genesis", 0);
    let commit = make_commit(1, "genesis", 1000, IntentClass::Entropy);
    let result = validate(&commit, &state);
    assert!(result.is_ok());
}

#[test]
fn test_decide_accept() {
    let state = make_state(1, "genesis", 0);
    let commit = make_commit(1, "genesis", 0, IntentClass::Observation);
    let decision = decide(&commit, &state);
    assert!(decision.is_accept());
}

#[test]
fn decide_rejects_with_first_failure() {
    let state = make_state(1, "genesis", 0);
    let commit = make_commit(2, "other", 0, IntentClass::Observation);
    let decision = decide(&commit, &state);
    assert!(!decision.is_accept());
    assert!(matches!(decision, ubl_kernel::membrane::Decision::Reject(MembraneError::RealityDrift)));
}

#[test]
fn observation_reason_is_exact() {
    let state = make_state(1, "0x00", 0);
    let commit = make_commit(1, "0x00", 100, IntentClass::Observation);
    assert_eq!(reason_of(validate(&commit, &state)), "Observation must have delta=0, got 100");
    let commit = make_commit(1, "0x00", -7, IntentClass::Observation);
    assert_eq!(reason_of(validate(&commit, &state)), "Observation must have delta=0, got -7");
}

#[test]
fn conservation_reason_is_exact() {
    let state = make_state(1, "0x00", 0);
    let commit = make_commit(1, "0x00", -100, IntentClass::Conservation);
    assert_eq!(reason_of(validate(&commit, &state)), "Conservation requires balance >= 0, would be -100");
}

#[test]
fn conservation_reason_beyond_i128() {
    let state = make_state(1, "0x00", i128::MIN);
    let commit = make_commit(1, "0x00", i128::MIN, IntentClass::Conservation);
    assert_eq!(
        reason_of(validate(&commit, &state)),
        "Conservation requires balance >= 0, would be -340282366920938463463374607431768211456"
    );
    let state = make_state(1, "0x00", -5);
    let commit = make_commit(1, "0x00", i128::MIN, IntentClass::Conservation);
    assert_eq!(
        reason_of(validate(&commit, &state)),
        "Conservation requires balance >= 0, would be -170141183460469231731687303715884105733"
    );
}

#[test]
fn conservation_to_exactly_zero_passes() {
    let state = make_state(1, "0x00", 100);
    let commit = make_commit(1, "0x00", -100, IntentClass::Conservation);
    assert!(validate(&commit, &state).is_ok());
    let state = make_state(1, "0x00", i128::MAX);
    let commit = make_commit(1, "0x00", i128::MAX, IntentClass::Conservation);
    assert!(validate(&commit, &state).is_ok());
}

#[test]
fn evolution_passes_the_membrane() {
    let state = make_state(1, "0x00", 0);
    let commit = make_commit(1, "0x00", -5, IntentClass::Evolution);
    assert!(validate(&commit, &state).is_ok());
}

#[test]
fn short_atom_hash_is_invalid_signature() {
    let state = make_state(1, "0x00", 0);
    let mut commit = make_commit(1, "0x00", 0, IntentClass::Observation);
    commit.atom_hash = "abc".to_string();
    assert!(matches!(validate(&commit, &state), Err(MembraneError::InvalidSignature)));
    commit.atom_hash = "abcd".to_string();
    assert!(validate(&commit, &state).is_ok());
    commit.atom_hash = "zz".repeat(32);
    assert!(validate(&commit, &state).is_ok());
}

#[test]
fn atom_hash_form() {
    assert!(atom_hash_well_formed(&"a".repeat(64)));
    assert!(atom_hash_well_formed(&"0123456789ABCDEF".repeat(4)));
    assert!(!atom_hash_well_formed(&"g".repeat(64)));
    assert!(!atom_hash_well_formed(&"a".repeat(63)));
    assert!(!atom_hash_well_formed(&"a".repeat(66)));
    assert!(!atom_hash_well_formed(""));
}

#[test]
fn version_is_checked_before_target() {
    let mut state = make_state(1, "0x00", 0);
    state.container_id = "other".to_string();
    let mut commit = make_commit(3, "x", 5, IntentClass::Observation);
    commit.version = 0;
    assert!(matches!(validate(&commit, &state), Err(MembraneError::InvalidVersion)));
}
