use ubl_kernel::pact::{
    Pact, PactError, PactProof, PactRegistry, PactScope, PactSignature, RiskLevel, TimeWindow,
};

fn make_pact(threshold: usize, signers: Vec<&str>) -> Pact {
    Pact {
        pact_id: "pact_test".to_string(),
        version: 1,
        scope: PactScope::Container,
        threshold,
        signers: signers.into_iter().map(|s| s.to_string()).collect(),
        window: TimeWindow { not_before: 0, not_after: i64::MAX },
        risk_level: RiskLevel::L2,
        container_id: Some("test".to_string()),
    }
}

fn sig(pubkey: &str, signature: &str) -> PactSignature {
    PactSignature { pubkey: pubkey.to_string(), signature: signature.to_string() }
}

#[test]
fn test_valid_pact() {
    let mut registry = PactRegistry::new();
    registry.register(make_pact(2, vec!["alice", "bob", "charlie"]));
    let proof = PactProof {
        pact_id: "pact_test".to_string(),
        signatures: vec![
            PactSignature { pubkey: "alice".to_string(), signature: "sig1".to_string() },
            PactSignature { pubkey: "bob".to_string(), signature: "sig2".to_string() },
        ],
    };
    let result = registry.validate(&proof, 0x01, 1000);
    assert!(result.is_ok());
}

#[test]
fn test_insufficient_signatures() {
    let mut registry = PactRegistry::new();
    registry.register(make_pact(3, vec!["alice", "bob", "charlie"]));
    let proof = PactProof {
        pact_id: "pact_test".to_string(),
        signatures: vec![PactSignature { pubkey: "alice".to_string(), signature: "sig1".to_string() }],
    };
    let result = registry.validate(&proof, 0x01, 1000);
    assert!(matches!(result, Err(PactError::InsufficientSignatures { got: 1, need: 3 })));
}

#[test]
fn test_unauthorized_signer() {
    let mut registry = PactRegistry::new();
    registry.register(make_pact(1, vec!["alice", "bob"]));
    let proof = PactProof {
        pact_id: "pact_test".to_string(),
        signatures: vec![PactSignature { pubkey: "eve".to_string(), signature: "sig1".to_string() }],
    };
    let result = registry.validate(&proof, 0x01, 1000);
    assert!(matches!(result, Err(PactError::UnauthorizedSigner(_))));
}

#[test]
fn test_expired_pact() {
    let mut registry = PactRegistry::new();
    let mut pact = make_pact(1, vec!["alice"]);
    pact.window.not_after = 1000;
    registry.register(pact);
    let proof = PactProof {
        pact_id: "pact_test".to_string(),
        signatures: vec![PactSignature { pubkey: "alice".to_string(), signature: "sig1".to_string() }],
    };
    let result = registry.validate(&proof, 0x01, 2000);
    assert!(matches!(result, Err(PactError::PactExpired)));
}

#[test]
fn test_risk_mismatch() {
    let mut registry = PactRegistry::new();
    let mut pact = make_pact(1, vec!["alice"]);
    pact.risk_level = RiskLevel::L1;
    registry.register(pact);
    let proof = PactProof {
        pact_id: "pact_test".to_string(),
        signatures: vec![PactSignature { pubkey: "alice".to_string(), signature: "sig1".to_string() }],
    };
    let result = registry.validate(&proof, 0x01, 1000);
    assert!(matches!(result, Err(PactError::RiskMismatch { .. })));
}

#[test]
fn pact_happy_path_scenario() {
    let mut registry = PactRegistry::new();
    registry.register(make_pact(2, vec!["alice", "bob", "charlie"]));
    let proof = PactProof { pact_id: "pact_test".to_string(), signatures: vec![sig("alice", "a"), sig("bob", "b")] };
    assert_eq!(registry.validate(&proof, 0x01, 1000), Ok(()));
}

#[test]
fn pact_risk_mismatch_scenario() {
    let mut registry = PactRegistry::new();
    let mut pact = make_pact(2, vec!["alice", "bob", "charlie"]);
    pact.risk_level = RiskLevel::L1;
    registry.register(pact);
    let proof = PactProof { pact_id: "pact_test".to_string(), signatures: vec![sig("alice", "a"), sig("bob", "b")] };
    assert_eq!(
        registry.validate(&proof, 0x01, 1000),
        Err(PactError::RiskMismatch { intent: RiskLevel::L2, pact: RiskLevel::L1 })
    );
}

#[test]
fn unknown_pact_is_named() {
    let registry = PactRegistry::new();
    let proof = PactProof { pact_id: "nope".to_string(), signatures: vec![] };
    assert_eq!(registry.validate(&proof, 0x00, 0), Err(PactError::UnknownPact("nope".to_string())));
}

#[test]
fn duplicate_signers_count_once() {
    let mut registry = PactRegistry::new();
    registry.register(make_pact(2, vec!["alice", "bob"]));
    let proof = PactProof {
        pact_id: "pact_test".to_string(),
        signatures: vec![sig("alice", "1"), sig("alice", "2"), sig("alice", "3")],
    };
    assert_eq!(
        registry.validate(&proof, 0x01, 5),
        Err(PactError::InsufficientSignatures { got: 1, need: 2 })
    );
}

#[test]
fn first_unauthorized_signer_is_reported() {
    let mut registry = PactRegistry::new();
    registry.register(make_pact(1, vec!["alice"]));
    let proof = PactProof {
        pact_id: "pact_test".to_string(),
        signatures: vec![sig("alice", "1"), sig("mallory", "2"), sig("eve", "3")],
    };
    assert_eq!(registry.validate(&proof, 0x01, 5), Err(PactError::UnauthorizedSigner("mallory".to_string())));
}

#[test]
fn window_bounds_are_inclusive() {
    let w = TimeWindow { not_before: 10, not_after: 20 };
    assert!(w.is_valid(10));
    assert!(w.is_valid(20));
    assert!(!w.is_valid(9));
    assert!(!w.is_valid(21));
}

#[test]
fn minimum_risk_per_intent_class() {
    assert_eq!(RiskLevel::from_intent_class(0x00), RiskLevel::L0);
    assert_eq!(RiskLevel::from_intent_class(0x01), RiskLevel::L2);
    assert_eq!(RiskLevel::from_intent_class(0x02), RiskLevel::L4);
    assert_eq!(RiskLevel::from_intent_class(0x03), RiskLevel::L5);
    assert_eq!(RiskLevel::from_intent_class(0x09), RiskLevel::L0);
    assert!(RiskLevel::L0.rank() < RiskLevel::L5.rank());
}

#[test]
fn register_replaces_same_id() {
    let mut registry = PactRegistry::new();
    registry.register(make_pact(1, vec!["alice"]));
    registry.register(make_pact(5, vec!["bob"]));
    let p = registry.get("pact_test").unwrap();
    assert_eq!(p.threshold, 5);
    assert!(registry.get("other").is_none());
}
