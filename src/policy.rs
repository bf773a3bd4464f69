//! The policy VM: registered policies and the rules that turn an intent into
//! an intent class and a pact requirement.
use vstd::prelude::*;

use crate::text::joined;

verus! {

/// Why a policy could not be evaluated.
#[derive(Debug, Clone, PartialEq, Eq)]
pub enum PolicyError {
    PolicyNotFound(String),
    ExecutionFailed(String),
    InvalidBytecode,
    Timeout,
}

/// The outcome of translating an intent.
#[derive(Debug, Clone, PartialEq, Eq)]
pub enum TranslationDecision {
    Allow { intent_class: u8, required_pact: Option<String>, constraints: Vec<Constraint> },
    Deny { reason: String },
}

/// A constraint attached to an allowed translation.
#[derive(Debug, Clone, PartialEq, Eq)]
pub struct Constraint {
    pub kind: String,
    pub value: String,
}

/// A registered policy.
#[derive(Debug, Clone)]
pub struct Policy {
    pub policy_id: String,
    pub version: String,
    pub bytecode_hash: String,
    pub bytecode: Vec<u8>,
    pub description: String,
}

/// The fields of an intent payload that the rules read: its `type`, when it
/// is a string, and its `amount`, when it is an integer.
#[derive(Debug, Clone)]
pub struct IntentFields {
    pub intent_type: Option<String>,
    pub amount: Option<i64>,
}

/// What a policy is evaluated against.
#[derive(Debug, Clone)]
pub struct EvaluationContext {
    pub container_id: String,
    pub actor: String,
    pub intent: IntentFields,
    pub timestamp: i64,
}

/// Amounts above this need a pact to be transferred.
pub const TRANSFER_PACT_THRESHOLD: i64 = 10000;

/// The intent type that the rules see: `"unknown"` where none is given.
pub open spec fn intent_kind(f: IntentFields) -> Seq<char> {
    match f.intent_type {
        Some(t) => t@,
        None => "unknown"@,
    }
}

/// The amount that the rules see: zero where none is given.
pub open spec fn intent_amount(f: IntentFields) -> int {
    match f.amount {
        Some(a) => a as int,
        None => 0,
    }
}

/// `d` allows intent class `class`, with the pact `pact` required (if any)
/// and the single constraint `(kind, value)` (if any).
pub open spec fn allows(
    d: TranslationDecision,
    class: u8,
    pact: Option<Seq<char>>,
    constraint: Option<(Seq<char>, Seq<char>)>,
) -> bool {
    match d {
        TranslationDecision::Allow { intent_class, required_pact, constraints } => {
            &&& intent_class == class
            &&& match (required_pact, pact) {
                (None, None) => true,
                (Some(p), Some(q)) => p@ == q,
                _ => false,
            }
            &&& match constraint {
                None => constraints@.len() == 0,
                Some((k, v)) => constraints@.len() == 1 && constraints[0].kind@ == k && constraints[0].value@
                    == v,
            }
        },
        TranslationDecision::Deny { .. } => false,
    }
}

/// The rule-based translation of an intent of kind `kind` and amount `amount`.
pub open spec fn translation(kind: Seq<char>, amount: int, d: TranslationDecision) -> bool {
    if kind == "observe"@ || kind == "read"@ {
        allows(d, 0, None, None)
    } else if kind == "transfer"@ || kind == "send"@ {
        if amount > TRANSFER_PACT_THRESHOLD {
            allows(d, 1, Some("high_value_transfer"@), Some(("max_amount"@, "10000"@)))
        } else {
            allows(d, 1, None, None)
        }
    } else if kind == "create"@ || kind == "mint"@ {
        allows(d, 2, Some("creation_authority"@), None)
    } else if kind == "evolve"@ || kind == "upgrade"@ {
        allows(d, 3, Some("evolution_l5"@), Some(("risk_level"@, "L5"@)))
    } else {
        d matches TranslationDecision::Deny { reason } && reason@ == "Unknown intent type: "@ + kind
    }
}

fn same_text(a: &str, b: &str) -> (r: bool)
    ensures
        r == (a@ == b@),
{
    a.to_owned() == b.to_owned()
}

fn constraint(kind: &str, value: &str) -> (r: Vec<Constraint>)
    ensures
        r@.len() == 1,
        r[0].kind@ == kind@,
        r[0].value@ == value@,
{
    let mut v: Vec<Constraint> = Vec::new();
    v.push(Constraint { kind: kind.to_owned(), value: value.to_owned() });
    v
}

/// Applies the translation rules to the fields of an intent.
pub fn translate(intent: &IntentFields) -> (r: TranslationDecision)
    ensures
        translation(intent_kind(*intent), intent_amount(*intent), r),
{
    let kind: &str = match &intent.intent_type {
        Some(t) => t.as_str(),
        None => "unknown",
    };
    if same_text(kind, "observe") || same_text(kind, "read") {
        TranslationDecision::Allow { intent_class: 0x00, required_pact: None, constraints: Vec::new() }
    } else if same_text(kind, "transfer") || same_text(kind, "send") {
        let amount: i64 = match intent.amount {
            Some(a) => a,
            None => 0,
        };
        if amount > TRANSFER_PACT_THRESHOLD {
            TranslationDecision::Allow {
                intent_class: 0x01,
                required_pact: Some("high_value_transfer".to_owned()),
                constraints: constraint("max_amount", "10000"),
            }
        } else {
            TranslationDecision::Allow { intent_class: 0x01, required_pact: None, constraints: Vec::new() }
        }
    } else if same_text(kind, "create") || same_text(kind, "mint") {
        TranslationDecision::Allow {
            intent_class: 0x02,
            required_pact: Some("creation_authority".to_owned()),
            constraints: Vec::new(),
        }
    } else if same_text(kind, "evolve") || same_text(kind, "upgrade") {
        TranslationDecision::Allow {
            intent_class: 0x03,
            required_pact: Some("evolution_l5".to_owned()),
            constraints: constraint("risk_level", "L5"),
        }
    } else {
        TranslationDecision::Deny { reason: joined("Unknown intent type: ", kind) }
    }
}

/// The registered policies, at most one per id.
pub struct PolicyVM {
    policies: Vec<Policy>,
}

impl PolicyVM {
    pub closed spec fn wf(&self) -> bool {
        forall|i: int, j: int|
            0 <= i < j < self.policies.len() ==> self.policies[i].policy_id@ != self.policies[j].policy_id@
    }

    /// The ids of the registered policies.
    pub closed spec fn ids(&self) -> Set<Seq<char>> {
        Set::new(|id: Seq<char>| exists|i: int| 0 <= i < self.policies.len() && self.policies[i].policy_id@ == id)
    }

    /// A VM with no policies.
    pub fn new() -> (r: PolicyVM)
        ensures
            r.wf(),
            r.ids() == Set::<Seq<char>>::empty(),
    {
        let r = PolicyVM { policies: Vec::new() };
        assert(r.ids() =~= Set::<Seq<char>>::empty());
        r
    }

    fn position(&self, id: &str) -> (r: Option<usize>)
        ensures
            match r {
                Some(i) => i < self.policies.len() && self.policies[i as int].policy_id@ == id@,
                None => !self.ids().contains(id@),
            },
    {
        let mut i: usize = 0;
        while i < self.policies.len()
            invariant
                i <= self.policies.len(),
                forall|j: int| 0 <= j < i ==> self.policies[j].policy_id@ != id@,
            decreases self.policies.len() - i,
        {
            if same_text(self.policies[i].policy_id.as_str(), id) {
                return Some(i);
            }
            i = i + 1;
        }
        None
    }

    /// Registers `policy`, replacing a policy with the same id.
    pub fn register(&mut self, policy: Policy)
        requires
            old(self).wf(),
        ensures
            final(self).wf(),
            final(self).ids() == old(self).ids().insert(policy.policy_id@),
    {
        let ghost pid = policy.policy_id@;
        let ghost old_self = *self;
        match self.position(policy.policy_id.as_str()) {
            Some(i) => {
                self.policies.set(i, policy);
                assert forall|k: int| 0 <= k < self.policies.len() implies #[trigger] self.policies[k].policy_id@
                    == old_self.policies[k].policy_id@ by {}
                assert forall|id: Seq<char>| #[trigger] self.ids().contains(id) == old_self.ids().insert(pid).contains(
                    id,
                ) by {
                    if old_self.ids().contains(id) {
                        let k = choose|k: int| 0 <= k < old_self.policies.len() && old_self.policies[k].policy_id@ == id;
                        assert(self.policies[k].policy_id@ == id);
                    }
                    if self.ids().contains(id) {
                        let k = choose|k: int| 0 <= k < self.policies.len() && self.policies[k].policy_id@ == id;
                        assert(old_self.policies[k].policy_id@ == id);
                    }
                }
                assert(self.ids() =~= old_self.ids().insert(pid));
            },
            None => {
                self.policies.push(policy);
                assert forall|k: int| 0 <= k < old_self.policies.len() implies #[trigger] self.policies[k]
                    == old_self.policies[k] by {}
                let ghost n = old_self.policies.len() as int;
                assert forall|id: Seq<char>| #[trigger] self.ids().contains(id) == old_self.ids().insert(pid).contains(
                    id,
                ) by {
                    assert(self.policies[n].policy_id@ == pid);
                    if old_self.ids().contains(id) {
                        let k = choose|k: int| 0 <= k < old_self.policies.len() && old_self.policies[k].policy_id@ == id;
                        assert(self.policies[k].policy_id@ == id);
                    }
                    if self.ids().contains(id) && id != pid {
                        let k = choose|k: int| 0 <= k < self.policies.len() && self.policies[k].policy_id@ == id;
                        assert(k != n);
                        assert(old_self.policies[k].policy_id@ == id);
                    }
                }
                assert(self.ids() =~= old_self.ids().insert(pid));
                assert forall|a: int, b: int| 0 <= a < b < self.policies.len() implies self.policies[a].policy_id@
                    != self.policies[b].policy_id@ by {
                    if b == n {
                        assert(old_self.policies[a].policy_id@ == self.policies[a].policy_id@);
                        assert(old_self.ids().contains(self.policies[a].policy_id@));
                    } else {
                        assert(old_self.policies[a].policy_id@ != old_self.policies[b].policy_id@);
                    }
                }
            },
        }
    }

    /// Evaluates policy `policy_id` on `context`: the translation rules
    /// applied to the context's intent, or `PolicyNotFound`.
    pub fn evaluate(&self, policy_id: &str, context: &EvaluationContext) -> (r: Result<TranslationDecision, PolicyError>)
        ensures
            !self.ids().contains(policy_id@) ==> (r matches Err(PolicyError::PolicyNotFound(id)) && id@
                == policy_id@),
            self.ids().contains(policy_id@) ==> (r matches Ok(d) && translation(
                intent_kind(context.intent),
                intent_amount(context.intent),
                d,
            )),
    {
        match self.position(policy_id) {
            None => Err(PolicyError::PolicyNotFound(policy_id.to_owned())),
            Some(_) => Ok(translate(&context.intent)),
        }
    }
}

impl Default for PolicyVM {
    fn default() -> (r: PolicyVM)
        ensures
            r.wf(),
            r.ids() == Set::<Seq<char>>::empty(),
    {
        PolicyVM::new()
    }
}

} // verus!
