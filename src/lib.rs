//! Write path of an append-only, hash-chained ledger of containers: the
//! membrane gate, the pact authority check, the ledger's append rule and the
//! pipeline that composes them.
use vstd::prelude::*;

pub mod gate;
pub mod identity;
pub mod ledger;
pub mod link;
pub mod membrane;
pub mod pact;
pub mod pipeline;
pub mod policy;
pub mod store;
pub mod text;

verus! {

} // verus!
