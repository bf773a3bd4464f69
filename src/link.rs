//! Intent classes and the link commits that clients submit.
use vstd::prelude::*;

use crate::pact::PactProof;

verus! {

/// What a link does to the physics of its container.
#[derive(Debug, Clone, Copy, PartialEq, Eq, Structural)]
pub enum IntentClass {
    Observation,
    Conservation,
    Entropy,
    Evolution,
}

impl IntentClass {
    /// The one-byte code of the class on the wire.
    pub open spec fn spec_code(self) -> u8 {
        match self {
            IntentClass::Observation => 0,
            IntentClass::Conservation => 1,
            IntentClass::Entropy => 2,
            IntentClass::Evolution => 3,
        }
    }

    pub fn code(&self) -> (r: u8)
        ensures
            r == self.spec_code(),
    {
        match self {
            IntentClass::Observation => 0,
            IntentClass::Conservation => 1,
            IntentClass::Entropy => 2,
            IntentClass::Evolution => 3,
        }
    }
}

/// The intent class with the given name, if it is one.
pub open spec fn class_named(name: Seq<char>) -> Option<IntentClass> {
    if name == "Observation"@ {
        Some(IntentClass::Observation)
    } else if name == "Conservation"@ {
        Some(IntentClass::Conservation)
    } else if name == "Entropy"@ {
        Some(IntentClass::Entropy)
    } else if name == "Evolution"@ {
        Some(IntentClass::Evolution)
    } else {
        None
    }
}

impl IntentClass {
    /// The class named `name`: `"Observation"`, `"Conservation"`, `"Entropy"` or `"Evolution"`.
    pub fn from_name(name: &str) -> (r: Option<IntentClass>)
        ensures
            r == class_named(name@),
    {
        let n = name.to_owned();
        if n == "Observation".to_owned() {
            Some(IntentClass::Observation)
        } else if n == "Conservation".to_owned() {
            Some(IntentClass::Conservation)
        } else if n == "Entropy".to_owned() {
            Some(IntentClass::Entropy)
        } else if n == "Evolution".to_owned() {
            Some(IntentClass::Evolution)
        } else {
            None
        }
    }
}

/// A proposed transition of a container.
#[derive(Debug, Clone)]
pub struct LinkCommit {
    pub version: u8,
    pub container_id: String,
    pub expected_sequence: u64,
    pub previous_hash: String,
    pub atom_hash: String,
    pub intent_class: IntentClass,
    pub physics_delta: i128,
    pub pact: Option<PactProof>,
    pub author_pubkey: String,
    pub signature: String,
}

} // verus!
