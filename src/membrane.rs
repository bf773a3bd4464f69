//! The membrane: a deterministic gate on a link against a snapshot of its container.
use vstd::prelude::*;
use vstd::utf8::encode_utf8;

use crate::link::{IntentClass, LinkCommit};
use crate::text::{decodes_as_hex, hex_decodable, i128_decimal, int_decimal, joined, sum_decimal_text};

verus! {

/// The canonical rejection codes of the commit path.
#[derive(Debug, Clone)]
pub enum MembraneError {
    InvalidVersion,
    InvalidSignature,
    InvalidTarget,
    RealityDrift,
    SequenceMismatch,
    PhysicsViolation { reason: String },
    PactViolation,
    UnauthorizedEvolution,
}

/// Outcome of the membrane.
#[derive(Debug, Clone)]
pub enum Decision {
    Accept,
    Reject(MembraneError),
}

impl Decision {
    pub fn is_accept(&self) -> (r: bool)
        ensures
            r == (*self is Accept),
    {
        match self {
            Decision::Accept => true,
            Decision::Reject(_) => false,
        }
    }
}

/// The part of a container's state that the membrane reads.
#[derive(Debug, Clone)]
pub struct LedgerState {
    pub container_id: String,
    pub last_hash: String,
    pub next_sequence: u64,
    pub physical_balance: i128,
}

/// Reason given when an observation carries a delta.
pub open spec fn observation_reason(delta: int) -> Seq<char> {
    "Observation must have delta=0, got "@ + int_decimal(delta)
}

/// Reason given when a conservation would leave a negative balance.
pub open spec fn conservation_reason(balance: int) -> Seq<char> {
    "Conservation requires balance >= 0, would be "@ + int_decimal(balance)
}

/// Byte length of the link's atom hash.
pub open spec fn atom_len(link: LinkCommit) -> nat {
    encode_utf8(link.atom_hash@).len()
}

/// A full atom hash: 64 bytes of hex digits.
pub open spec fn full_atom_hash(atom: Seq<char>) -> bool {
    encode_utf8(atom).len() == 64 && hex_decodable(encode_utf8(atom))
}

/// Whether `atom` is a full atom hash: 64 hex digits.
pub fn atom_hash_well_formed(atom: &str) -> (r: bool)
    ensures
        r == full_atom_hash(atom@),
{
    atom.as_bytes().len() == 64 && decodes_as_hex(atom)
}

/// The physics rule of the link's intent class holds against `balance`.
pub open spec fn physics_holds(link: LinkCommit, balance: int) -> bool {
    match link.intent_class {
        IntentClass::Observation => link.physics_delta == 0,
        IntentClass::Conservation => balance + link.physics_delta >= 0,
        IntentClass::Entropy => true,
        IntentClass::Evolution => true,
    }
}

/// Every check of the membrane passes against a container `cid` whose tip
/// has hash `last`, whose next sequence is `next` and whose balance is `balance`.
pub open spec fn membrane_accepts_at(link: LinkCommit, cid: Seq<char>, last: Seq<char>, next: int, balance: int) -> bool {
    &&& link.version == 1
    &&& link.container_id@ == cid
    &&& link.previous_hash@ == last
    &&& link.expected_sequence == next
    &&& atom_len(link) >= 4
    &&& physics_holds(link, balance)
}

/// `e` is the error of the first check, in the fixed order, that fails
/// against the container state given as in `membrane_accepts_at`.
pub open spec fn membrane_rejects_at(
    link: LinkCommit,
    cid: Seq<char>,
    last: Seq<char>,
    next: int,
    balance: int,
    e: MembraneError,
) -> bool {
    if link.version != 1 {
        e is InvalidVersion
    } else if link.container_id@ != cid {
        e is InvalidTarget
    } else if link.previous_hash@ != last {
        e is RealityDrift
    } else if link.expected_sequence != next {
        e is SequenceMismatch
    } else if atom_len(link) < 4 {
        e is InvalidSignature
    } else if link.intent_class is Observation && link.physics_delta != 0 {
        e is PhysicsViolation && e->reason@ == observation_reason(link.physics_delta as int)
    } else if link.intent_class is Conservation && balance + link.physics_delta < 0 {
        e is PhysicsViolation && e->reason@ == conservation_reason(balance + link.physics_delta)
    } else {
        false
    }
}

/// Every check of the membrane passes.
pub open spec fn membrane_accepts(link: LinkCommit, state: LedgerState) -> bool {
    membrane_accepts_at(
        link,
        state.container_id@,
        state.last_hash@,
        state.next_sequence as int,
        state.physical_balance as int,
    )
}

/// `e` is the error of the first check, in the fixed order, that fails.
pub open spec fn membrane_rejects_with(link: LinkCommit, state: LedgerState, e: MembraneError) -> bool {
    membrane_rejects_at(
        link,
        state.container_id@,
        state.last_hash@,
        state.next_sequence as int,
        state.physical_balance as int,
        e,
    )
}

/// The membrane's outcome on `link` and `state` is `r`.
pub open spec fn membrane_outcome(link: LinkCommit, state: LedgerState, r: Result<(), MembraneError>) -> bool {
    match r {
        Ok(()) => membrane_accepts(link, state),
        Err(e) => membrane_rejects_with(link, state, e),
    }
}

/// Checks version, target, causal chain, sequence, atom-hash form and the
/// physics of the intent class, in that order; the first failure is returned.
pub fn validate(link: &LinkCommit, state: &LedgerState) -> (r: Result<(), MembraneError>)
    ensures
        membrane_outcome(*link, *state, r),
        r is Ok <==> membrane_accepts(*link, *state),
{
    if link.version != 1 {
        return Err(MembraneError::InvalidVersion);
    }
    if link.container_id != state.container_id {
        return Err(MembraneError::InvalidTarget);
    }
    if link.previous_hash != state.last_hash {
        return Err(MembraneError::RealityDrift);
    }
    if link.expected_sequence != state.next_sequence {
        return Err(MembraneError::SequenceMismatch);
    }
    let atom = link.atom_hash.as_str();
    let len = atom.as_bytes().len();
    // A full hash is 64 hex digits; shorter forms of at least four bytes are tolerated.
    if !atom_hash_well_formed(atom) {
        if len < 4 {
            return Err(MembraneError::InvalidSignature);
        }
    }
    match link.intent_class {
        IntentClass::Observation => {
            if link.physics_delta != 0 {
                let got = i128_decimal(link.physics_delta);
                return Err(
                    MembraneError::PhysicsViolation {
                        reason: joined("Observation must have delta=0, got ", got.as_str()),
                    },
                );
            }
        },
        IntentClass::Conservation => {
            let resulting_negative = match state.physical_balance.checked_add(link.physics_delta) {
                Some(b) => b < 0,
                None => link.physics_delta < 0,
            };
            if resulting_negative {
                let would_be = sum_decimal_text(state.physical_balance, link.physics_delta);
                return Err(
                    MembraneError::PhysicsViolation {
                        reason: joined("Conservation requires balance >= 0, would be ", would_be.as_str()),
                    },
                );
            }
        },
        IntentClass::Entropy => {},
        IntentClass::Evolution => {},
    }
    Ok(())
}

/// The membrane's verdict as a `Decision`.
pub fn decide(link: &LinkCommit, state: &LedgerState) -> (r: Decision)
    ensures
        r is Accept <==> membrane_accepts(*link, *state),
        r matches Decision::Reject(e) ==> membrane_rejects_with(*link, *state, e),
{
    match validate(link, state) {
        Ok(()) => Decision::Accept,
        Err(e) => Decision::Reject(e),
    }
}

} // verus!
