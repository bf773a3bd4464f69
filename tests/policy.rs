use ubl_kernel::policy::{EvaluationContext, IntentFields, Policy, PolicyError, PolicyVM, TranslationDecision};

fn make_context(intent_type: &str, amount: Option<i64>) -> EvaluationContext {
    EvaluationContext {
        container_id: "test".to_string(),
        actor: "alice".to_string(),
        intent: IntentFields { intent_type: Some(intent_type.to_string()), amount },
        timestamp: 1000,
    }
}

fn make_vm() -> PolicyVM {
    let mut vm = PolicyVM::new();
    vm.register(Policy {
        policy_id: "default".to_string(),
        version: "1.0".to_string(),
        bytecode_hash: "test".to_string(),
        bytecode: vec![],
        description: "Default policy".to_string(),
    });
    vm
}

#[test]
fn test_observe_allows_observation() {
    let vm = make_vm();
    let context = make_context("observe", None);
    let decision = vm.evaluate("default", &context).unwrap();
    match decision {
        TranslationDecision::Allow { intent_class, .. } => {
            assert_eq!(intent_class, 0x00);
        }
        _ => panic!("Expected Allow"),
    }
}

#[test]
fn test_small_transfer_no_pact() {
    let vm = make_vm();
    let context = make_context("transfer", Some(100));
    let decision = vm.evaluate("default", &context).unwrap();
    match decision {
        TranslationDecision::Allow { intent_class, required_pact, .. } => {
            assert_eq!(intent_class, 0x01);
            assert!(required_pact.is_none());
        }
        _ => panic!("Expected Allow"),
    }
}

#[test]
fn test_large_transfer_requires_pact() {
    let vm = make_vm();
    let context = make_context("transfer", Some(20000));
    let decision = vm.evaluate("default", &context).unwrap();
    match decision {
        TranslationDecision::Allow { required_pact, .. } => {
            assert!(required_pact.is_some());
        }
        _ => panic!("Expected Allow with pact"),
    }
}

#[test]
fn test_evolution_requires_l5_pact() {
    let vm = make_vm();
    let context = make_context("evolve", None);
    let decision = vm.evaluate("default", &context).unwrap();
    match decision {
        TranslationDecision::Allow { intent_class, required_pact, .. } => {
            assert_eq!(intent_class, 0x03);
            assert_eq!(required_pact, Some("evolution_l5".to_string()));
        }
        _ => panic!("Expected Allow with L5 pact"),
    }
}

#[test]
fn test_unknown_intent_denies() {
    let vm = make_vm();
    let context = make_context("hack_the_planet", None);
    let decision = vm.evaluate("default", &context).unwrap();
    assert!(matches!(decision, TranslationDecision::Deny { .. }));
}

#[test]
fn unknown_intent_reason_names_it() {
    let vm = make_vm();
    let decision = vm.evaluate("default", &make_context("hack_the_planet", None)).unwrap();
    assert_eq!(decision, TranslationDecision::Deny { reason: "Unknown intent type: hack_the_planet".to_string() });
    let ctx = EvaluationContext {
        container_id: "c".to_string(),
        actor: "a".to_string(),
        intent: IntentFields { intent_type: None, amount: None },
        timestamp: 0,
    };
    let decision = vm.evaluate("default", &ctx).unwrap();
    assert_eq!(decision, TranslationDecision::Deny { reason: "Unknown intent type: unknown".to_string() });
}

#[test]
fn transfer_threshold_is_exclusive() {
    let vm = make_vm();
    match vm.evaluate("default", &make_context("send", Some(10000))).unwrap() {
        TranslationDecision::Allow { required_pact, constraints, .. } => {
            assert!(required_pact.is_none());
            assert!(constraints.is_empty());
        }
        _ => panic!("expected an allow"),
    }
    match vm.evaluate("default", &make_context("send", Some(10001))).unwrap() {
        TranslationDecision::Allow { required_pact, constraints, .. } => {
            assert_eq!(required_pact, Some("high_value_transfer".to_string()));
            assert_eq!(constraints.len(), 1);
            assert_eq!(constraints[0].kind, "max_amount");
            assert_eq!(constraints[0].value, "10000");
        }
        _ => panic!("expected an allow"),
    }
}

#[test]
fn creation_needs_authority_pact() {
    let vm = make_vm();
    match vm.evaluate("default", &make_context("mint", None)).unwrap() {
        TranslationDecision::Allow { intent_class, required_pact, .. } => {
            assert_eq!(intent_class, 0x02);
            assert_eq!(required_pact, Some("creation_authority".to_string()));
        }
        _ => panic!("expected an allow"),
    }
}

#[test]
fn missing_policy_is_reported() {
    let vm = make_vm();
    let r = vm.evaluate("absent", &make_context("read", None));
    assert_eq!(r, Err(PolicyError::PolicyNotFound("absent".to_string())));
}
