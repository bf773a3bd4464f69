//! The commit pipeline: authority gate, membrane, pact check and ledger
//! append, each surfacing its first failure.
use vstd::prelude::*;
use vstd::utf8::encode_utf8;

use crate::gate::{authorize, gate_admits, SessionClaims};
use crate::ledger::{planned_entry, LedgerEntry, TangencyError};
use crate::link::LinkCommit;
use crate::membrane::{membrane_accepts_at, membrane_rejects_at, validate, MembraneError};
use crate::pact::{pact_verdict, Pact, PactRegistry, PactScope};
use crate::store::{chain_next, chain_prev, ContainerState, Ledger};

verus! {

/// Reason given when a delta would carry the balance out of the signed 128-bit range.
pub open spec fn balance_range_reason() -> Seq<char> {
    "Balance must stay within the signed 128-bit range"@
}

/// The pact's scope covers the link's container: a container pact names
/// it, a namespace pact names a prefix of it, a global pact covers all.
pub open spec fn scope_covers(p: Pact, link: LinkCommit) -> bool {
    match p.scope {
        PactScope::Container => p.container_id matches Some(c) && c@ == link.container_id@,
        PactScope::Namespace => p.container_id matches Some(ns) && encode_utf8(ns@).is_prefix_of(
            encode_utf8(link.container_id@),
        ),
        PactScope::Global => true,
    }
}

/// The link carries a proof that the registered pact of its id accepts, and
/// that pact's scope covers the link's container.
pub open spec fn pact_admits(pacts: PactRegistry, link: LinkCommit, pact_required: bool, now: i64) -> bool {
    !pact_required || (link.pact matches Some(proof) && pacts.pact_for(proof.pact_id@) matches Some(p)
        && pact_verdict(p, proof, link.intent_class.spec_code(), now) is Ok && scope_covers(p, link))
}

fn bytes_prefix(a: &[u8], b: &[u8]) -> (r: bool)
    ensures
        r == a@.is_prefix_of(b@),
{
    if a.len() > b.len() {
        return false;
    }
    let mut i: usize = 0;
    while i < a.len()
        invariant
            i <= a.len() <= b.len(),
            forall|k: int| 0 <= k < i ==> a@[k] == b@[k],
        decreases a.len() - i,
    {
        if a[i] != b[i] {
            return false;
        }
        i = i + 1;
    }
    assert(a@ =~= b@.subrange(0, a@.len() as int));
    true
}

/// Whether the scope of `p` covers the container of `link`.
pub fn covers(p: &Pact, link: &LinkCommit) -> (r: bool)
    ensures
        r == scope_covers(*p, *link),
{
    match p.scope {
        PactScope::Container => match &p.container_id {
            Some(c) => *c == link.container_id,
            None => false,
        },
        PactScope::Namespace => match &p.container_id {
            Some(ns) => bytes_prefix(ns.as_str().as_bytes(), link.container_id.as_str().as_bytes()),
            None => false,
        },
        PactScope::Global => true,
    }
}

/// The balance after the link stays within the range of `i128`.
pub open spec fn balance_fits(balance: int, link: LinkCommit) -> bool {
    i128::MIN <= balance + link.physics_delta <= i128::MAX
}

/// The tangency errors of the ledger as canonical codes.
pub open spec fn tangency_code(e: TangencyError) -> MembraneError {
    match e {
        TangencyError::InvalidVersion => MembraneError::InvalidVersion,
        TangencyError::InvalidTarget => MembraneError::InvalidTarget,
        TangencyError::RealityDrift => MembraneError::RealityDrift,
        TangencyError::SequenceMismatch => MembraneError::SequenceMismatch,
    }
}

impl TangencyError {
    /// The canonical code of this error.
    pub fn code(&self) -> (r: MembraneError)
        ensures
            r == tangency_code(*self),
    {
        match self {
            TangencyError::InvalidVersion => MembraneError::InvalidVersion,
            TangencyError::InvalidTarget => MembraneError::InvalidTarget,
            TangencyError::RealityDrift => MembraneError::RealityDrift,
            TangencyError::SequenceMismatch => MembraneError::SequenceMismatch,
        }
    }
}

/// The ledger together with the pacts that authorise its links.
pub struct Kernel {
    pub ledger: Ledger,
    pub pacts: PactRegistry,
    /// A commit without a session is refused when set.
    pub require_session: bool,
}

/// What committing `link` to kernel `k` yields: `r`, and `k2` after the call.
pub open spec fn commit_outcome(
    k: Kernel,
    k2: Kernel,
    session: Option<SessionClaims>,
    link: LinkCommit,
    pact_required: bool,
    now: i64,
    ts: i64,
    r: Result<LedgerEntry, MembraneError>,
) -> bool {
    let cid = link.container_id@;
    let es = k.ledger.chain(cid);
    let balance = k.ledger.balance(cid);
    if !gate_admits(session, link, now, k.require_session) {
        r matches Err(e) && e is UnauthorizedEvolution && k2 == k
    } else if !membrane_accepts_at(link, cid, chain_prev(es), chain_next(es), balance) {
        r matches Err(e) && membrane_rejects_at(link, cid, chain_prev(es), chain_next(es), balance, e) && k2 == k
    } else if !pact_admits(k.pacts, link, pact_required, now) {
        r matches Err(e) && e is PactViolation && k2 == k
    } else if !balance_fits(balance, link) {
        r matches Err(e) && e is PhysicsViolation && e->reason@ == balance_range_reason() && k2 == k
    } else if es.len() + 2 >= i64::MAX {
        r matches Err(e) && e is SequenceMismatch && k2 == k
    } else {
        &&& r matches Ok(entry) && entry@ == planned_entry(link, chain_prev(es), chain_next(es), ts as int)
        &&& k2.ledger.chain(cid) == es.push(planned_entry(link, chain_prev(es), chain_next(es), ts as int))
        &&& k2.ledger.balance(cid) == balance + link.physics_delta
        &&& forall|c: Seq<char>| c != cid ==> k2.ledger.chain(c) == k.ledger.chain(c)
        &&& forall|c: Seq<char>| c != cid ==> k2.ledger.balance(c) == k.ledger.balance(c)
        &&& k2.pacts == k.pacts
        &&& k2.require_session == k.require_session
    }
}

impl Kernel {
    pub open spec fn wf(&self) -> bool {
        self.ledger.wf() && self.pacts.wf()
    }

    /// An empty ledger with no pacts.
    pub fn new(require_session: bool) -> (r: Kernel)
        ensures
            r.wf(),
            r.require_session == require_session,
            forall|cid: Seq<char>| (#[trigger] r.ledger.chain(cid)).len() == 0,
            forall|cid: Seq<char>| #[trigger] r.ledger.balance(cid) == 0,
            forall|id: Seq<char>| r.pacts.pact_for(id) is None,
    {
        Kernel { ledger: Ledger::new(), pacts: PactRegistry::new(), require_session }
    }

    /// Registers a pact.
    pub fn register_pact(&mut self, pact: Pact)
        requires
            old(self).wf(),
        ensures
            final(self).wf(),
            final(self).ledger == old(self).ledger,
            final(self).require_session == old(self).require_session,
            forall|id: Seq<char>| #[trigger] final(self).pacts.pact_for(id) == if id == pact.pact_id@ {
                Some(pact)
            } else {
                old(self).pacts.pact_for(id)
            },
    {
        self.pacts.register(pact);
    }

    fn check_pact(&self, link: &LinkCommit, pact_required: bool, now: i64) -> (r: bool)
        requires
            self.wf(),
        ensures
            r == pact_admits(self.pacts, *link, pact_required, now),
    {
        if !pact_required {
            return true;
        }
        match &link.pact {
            None => false,
            Some(proof) => {
                if self.pacts.validate(proof, link.intent_class.code(), now).is_err() {
                    return false;
                }
                match self.pacts.get(proof.pact_id.as_str()) {
                    Some(p) => covers(p, link),
                    None => false,
                }
            },
        }
    }

    /// Commits `link` at instant `now`, stamping the entry with `ts_unix_ms`.
    /// The authority rules, the membrane, the pact (when the intent needs
    /// one) and the append rule are applied in that order, and the first
    /// refusal is returned with the kernel left as it was.
    pub fn commit(
        &mut self,
        session: &Option<SessionClaims>,
        link: &LinkCommit,
        pact_required: bool,
        now: i64,
        ts_unix_ms: i64,
    ) -> (r: Result<LedgerEntry, MembraneError>)
        requires
            old(self).wf(),
        ensures
            final(self).wf(),
            commit_outcome(*old(self), *final(self), *session, *link, pact_required, now, ts_unix_ms, r),
    {
        if let Err(e) = authorize(session, link, now, self.require_session) {
            return Err(e);
        }
        let state = self.ledger.snapshot(link.container_id.as_str());
        if let Err(e) = validate(link, &state) {
            return Err(e);
        }
        if !self.check_pact(link, pact_required, now) {
            return Err(MembraneError::PactViolation);
        }
        let balance = match state.physical_balance.checked_add(link.physics_delta) {
            Some(b) => b,
            None => {
                return Err(
                    MembraneError::PhysicsViolation {
                        reason: "Balance must stay within the signed 128-bit range".to_owned(),
                    },
                );
            },
        };
        let entry = match self.ledger.append(link, ts_unix_ms) {
            Ok(entry) => entry,
            Err(e) => {
                return Err(e.code());
            },
        };
        self.ledger.set_balance(&link.container_id, balance);
        Ok(entry)
    }

    /// The state of a container as the state endpoint reports it.
    pub fn get_state(&self, container_id: &str) -> (r: ContainerState)
        requires
            self.wf(),
        ensures
            r.container_id@ == container_id@,
            r.sequence == self.ledger.chain(container_id@).len(),
            r.entry_count == self.ledger.chain(container_id@).len(),
            r.last_hash@ == chain_prev(self.ledger.chain(container_id@)),
    {
        self.ledger.get_state(container_id)
    }
}

} // verus!
