//! Pacts: threshold-signed authorisations, their registry and the proof check.
use vstd::prelude::*;

verus! {

/// Why a pact proof was refused.
#[derive(Debug, Clone, PartialEq, Eq)]
pub enum PactError {
    UnknownPact(String),
    PactExpired,
    InsufficientSignatures { got: usize, need: usize },
    UnauthorizedSigner(String),
    RiskMismatch { intent: RiskLevel, pact: RiskLevel },
}

/// Where a pact applies.
#[derive(Debug, Clone, Copy, PartialEq, Eq, Structural)]
pub enum PactScope {
    Container,
    Namespace,
    Global,
}

/// Risk levels, totally ordered from `L0` (observation) to `L5` (evolution).
#[derive(Debug, Clone, Copy, PartialEq, Eq, Structural, PartialOrd, Ord)]
pub enum RiskLevel {
    L0,
    L1,
    L2,
    L3,
    L4,
    L5,
}

impl RiskLevel {
    /// Position of the level in the total order.
    pub open spec fn spec_rank(self) -> u8 {
        match self {
            RiskLevel::L0 => 0,
            RiskLevel::L1 => 1,
            RiskLevel::L2 => 2,
            RiskLevel::L3 => 3,
            RiskLevel::L4 => 4,
            RiskLevel::L5 => 5,
        }
    }

    pub fn rank(&self) -> (r: u8)
        ensures
            r == self.spec_rank(),
    {
        match self {
            RiskLevel::L0 => 0,
            RiskLevel::L1 => 1,
            RiskLevel::L2 => 2,
            RiskLevel::L3 => 3,
            RiskLevel::L4 => 4,
            RiskLevel::L5 => 5,
        }
    }

    /// Minimum risk level of an intent class given by its code; unknown codes need `L0`.
    pub open spec fn spec_from_intent_class(intent_class: u8) -> RiskLevel {
        if intent_class == 0 {
            RiskLevel::L0
        } else if intent_class == 1 {
            RiskLevel::L2
        } else if intent_class == 2 {
            RiskLevel::L4
        } else if intent_class == 3 {
            RiskLevel::L5
        } else {
            RiskLevel::L0
        }
    }

    pub fn from_intent_class(intent_class: u8) -> (r: RiskLevel)
        ensures
            r == Self::spec_from_intent_class(intent_class),
    {
        match intent_class {
            0x00 => RiskLevel::L0,
            0x01 => RiskLevel::L2,
            0x02 => RiskLevel::L4,
            0x03 => RiskLevel::L5,
            _ => RiskLevel::L0,
        }
    }
}

/// Closed interval of instants in which a pact may be used.
#[derive(Debug, Clone)]
pub struct TimeWindow {
    pub not_before: i64,
    pub not_after: i64,
}

impl TimeWindow {
    pub open spec fn spec_is_valid(&self, now: i64) -> bool {
        self.not_before <= now <= self.not_after
    }

    pub fn is_valid(&self, now: i64) -> (r: bool)
        ensures
            r == self.spec_is_valid(now),
    {
        now >= self.not_before && now <= self.not_after
    }
}

/// A multi-signature authorisation template.
#[derive(Debug, Clone)]
pub struct Pact {
    pub pact_id: String,
    pub version: u8,
    pub scope: PactScope,
    pub threshold: usize,
    /// Authorised public keys; a repeated key counts once.
    pub signers: Vec<String>,
    pub window: TimeWindow,
    pub risk_level: RiskLevel,
    pub container_id: Option<String>,
}

impl Pact {
    /// The signer keys as a mathematical set.
    pub open spec fn signer_set(&self) -> Set<Seq<char>> {
        Set::new(|k: Seq<char>| exists|i: int| 0 <= i < self.signers.len() && self.signers[i]@ == k)
    }

    pub fn is_signer(&self, key: &String) -> (r: bool)
        ensures
            r == self.signer_set().contains(key@),
    {
        let mut i: usize = 0;
        while i < self.signers.len()
            invariant
                i <= self.signers.len(),
                forall|j: int| 0 <= j < i ==> self.signers[j]@ != key@,
            decreases self.signers.len() - i,
        {
            if self.signers[i] == *key {
                return true;
            }
            i = i + 1;
        }
        false
    }
}

/// Signatures presented for a pact.
#[derive(Debug, Clone)]
pub struct PactProof {
    pub pact_id: String,
    pub signatures: Vec<PactSignature>,
}

/// One signer's signature in a pact proof.
#[derive(Debug, Clone)]
pub struct PactSignature {
    pub pubkey: String,
    pub signature: String,
}

/// The keys of a list of signatures, in order.
pub open spec fn signing_keys(sigs: Seq<PactSignature>) -> Seq<Seq<char>> {
    sigs.map_values(|s: PactSignature| s.pubkey@)
}

/// Index of the first key at or after `i` that is not in `signers`.
pub open spec fn first_outsider_from(keys: Seq<Seq<char>>, signers: Set<Seq<char>>, i: int) -> Option<int>
    decreases keys.len() - i,
{
    if i < 0 || i >= keys.len() {
        None
    } else if !signers.contains(keys[i]) {
        Some(i)
    } else {
        first_outsider_from(keys, signers, i + 1)
    }
}

/// What validating `proof` against the registered pact `p` yields.
pub open spec fn pact_verdict(p: Pact, proof: PactProof, intent_class: u8, now: i64) -> Result<(), PactError> {
    let required = RiskLevel::spec_from_intent_class(intent_class);
    let keys = signing_keys(proof.signatures@);
    if !p.window.spec_is_valid(now) {
        Err(PactError::PactExpired)
    } else if p.risk_level.spec_rank() < required.spec_rank() {
        Err(PactError::RiskMismatch { intent: required, pact: p.risk_level })
    } else if first_outsider_from(keys, p.signer_set(), 0) is Some {
        Err(PactError::UnauthorizedSigner(proof.signatures[first_outsider_from(keys, p.signer_set(), 0)->0].pubkey))
    } else if keys.to_set().len() < p.threshold {
        Err(PactError::InsufficientSignatures { got: keys.to_set().len() as usize, need: p.threshold })
    } else {
        Ok(())
    }
}

/// The registered pacts, at most one per id.
pub struct PactRegistry {
    pacts: Vec<Pact>,
}

impl PactRegistry {
    pub closed spec fn wf(&self) -> bool {
        forall|i: int, j: int|
            0 <= i < j < self.pacts.len() ==> self.pacts[i].pact_id@ != self.pacts[j].pact_id@
    }

    pub closed spec fn has(&self, id: Seq<char>) -> bool {
        exists|i: int| 0 <= i < self.pacts.len() && self.pacts[i].pact_id@ == id
    }

    /// The pact registered under `id`, if any.
    pub closed spec fn pact_for(&self, id: Seq<char>) -> Option<Pact> {
        if self.has(id) {
            Some(self.pacts[choose|i: int| 0 <= i < self.pacts.len() && self.pacts[i].pact_id@ == id])
        } else {
            None
        }
    }

    pub fn new() -> (r: PactRegistry)
        ensures
            r.wf(),
            forall|id: Seq<char>| r.pact_for(id) is None,
    {
        PactRegistry { pacts: Vec::new() }
    }

    fn position(&self, id: &String) -> (r: Option<usize>)
        requires
            self.wf(),
        ensures
            match r {
                Some(i) => i < self.pacts.len() && self.pacts[i as int].pact_id@ == id@
                    && self.pact_for(id@) == Some(self.pacts[i as int]),
                None => !self.has(id@) && self.pact_for(id@) is None,
            },
    {
        let mut i: usize = 0;
        while i < self.pacts.len()
            invariant
                i <= self.pacts.len(),
                self.wf(),
                forall|j: int| 0 <= j < i ==> self.pacts[j].pact_id@ != id@,
            decreases self.pacts.len() - i,
        {
            if self.pacts[i].pact_id == *id {
                proof {
                    self.lemma_pact_for_at(i as int);
                }
                return Some(i);
            }
            i = i + 1;
        }
        None
    }

    /// Registers `pact`, replacing a pact with the same id.
    pub fn register(&mut self, pact: Pact)
        requires
            old(self).wf(),
        ensures
            final(self).wf(),
            forall|id: Seq<char>| #[trigger] final(self).pact_for(id) == if id == pact.pact_id@ {
                Some(pact)
            } else {
                old(self).pact_for(id)
            },
    {
        let ghost pid = pact.pact_id@;
        let ghost w: int;
        match self.position(&pact.pact_id) {
            Some(i) => {
                self.pacts.set(i, pact);
                proof {
                    w = i as int;
                    assert forall|k: int| 0 <= k < self.pacts.len() implies
                        #[trigger] self.pacts[k].pact_id@ == old(self).pacts[k].pact_id@ by {}
                }
            },
            None => {
                self.pacts.push(pact);
                proof {
                    w = self.pacts.len() - 1;
                    assert forall|k: int| 0 <= k < w implies
                        #[trigger] self.pacts[k].pact_id@ != pid by {
                        assert(old(self).pacts[k] == self.pacts[k]);
                    }
                }
            },
        }
        assert(self.pacts[w] == pact);
        assert forall|k: int| 0 <= k < self.pacts.len() && k != w implies
            #[trigger] self.pacts[k] == old(self).pacts[k] by {}
        assert(self.wf());
        assert forall|id: Seq<char>| #[trigger] self.pact_for(id) == if id == pid {
            Some(pact)
        } else {
            old(self).pact_for(id)
        } by {
            if id == pid {
                self.lemma_pact_for_at(w);
            } else if old(self).has(id) {
                let k = choose|k: int| 0 <= k < old(self).pacts.len() && old(self).pacts[k].pact_id@ == id;
                old(self).lemma_pact_for_at(k);
                self.lemma_pact_for_at(k);
            } else if self.has(id) {
                let k = choose|k: int| 0 <= k < self.pacts.len() && self.pacts[k].pact_id@ == id;
                assert(old(self).pacts[k] == self.pacts[k]);
                assert(old(self).has(id));
            }
        }
    }

    proof fn lemma_pact_for_at(&self, k: int)
        requires
            self.wf(),
            0 <= k < self.pacts.len(),
        ensures
            self.has(self.pacts[k].pact_id@),
            self.pact_for(self.pacts[k].pact_id@) == Some(self.pacts[k]),
    {
        let id = self.pacts[k].pact_id@;
        assert(self.has(id));
        let c = choose|i: int| 0 <= i < self.pacts.len() && self.pacts[i].pact_id@ == id;
        if c < k {
            assert(self.pacts[c].pact_id@ != self.pacts[k].pact_id@);
        } else if k < c {
            assert(self.pacts[k].pact_id@ != self.pacts[c].pact_id@);
        }
    }

    /// The pact registered under `pact_id`.
    pub fn get(&self, pact_id: &str) -> (r: Option<&Pact>)
        requires
            self.wf(),
        ensures
            match r {
                Some(p) => self.pact_for(pact_id@) == Some(*p),
                None => self.pact_for(pact_id@) is None,
            },
    {
        let id = pact_id.to_owned();
        match self.position(&id) {
            Some(i) => Some(&self.pacts[i]),
            None => None,
        }
    }

    /// Checks `proof` for a link of the given intent class at instant `now`.
    pub fn validate(&self, proof: &PactProof, intent_class: u8, now: i64) -> (r: Result<(), PactError>)
        requires
            self.wf(),
        ensures
            r == match self.pact_for(proof.pact_id@) {
                None => Err(PactError::UnknownPact(proof.pact_id)),
                Some(p) => pact_verdict(p, *proof, intent_class, now),
            },
    {
        let pact = match self.get(proof.pact_id.as_str()) {
            Some(p) => p,
            None => {
                return Err(PactError::UnknownPact(proof.pact_id.clone()));
            },
        };
        if !pact.window.is_valid(now) {
            return Err(PactError::PactExpired);
        }
        let required_risk = RiskLevel::from_intent_class(intent_class);
        if pact.risk_level.rank() < required_risk.rank() {
            return Err(PactError::RiskMismatch { intent: required_risk, pact: pact.risk_level });
        }
        let ghost keys = signing_keys(proof.signatures@);
        let ghost signers = pact.signer_set();
        let mut valid_count: usize = 0;
        let mut seen: Vec<String> = Vec::new();
        let mut i: usize = 0;
        while i < proof.signatures.len()
            invariant
                i <= proof.signatures.len(),
                keys == signing_keys(proof.signatures@),
                signers == pact.signer_set(),
                self.pact_for(proof.pact_id@) == Some(*pact),
                pact.window.spec_is_valid(now),
                RiskLevel::spec_from_intent_class(intent_class).spec_rank() <= pact.risk_level.spec_rank(),
                valid_count == seen.len(),
                valid_count <= i,
                seen@.map_values(|s: String| s@).no_duplicates(),
                seen@.map_values(|s: String| s@).to_set() == keys.take(i as int).to_set(),
                first_outsider_from(keys, signers, 0) == first_outsider_from(keys, signers, i as int),
            decreases proof.signatures.len() - i,
        {
            let key = &proof.signatures[i].pubkey;
            let ghost sv = seen@.map_values(|s: String| s@);
            assert(keys.take(i + 1) == keys.take(i as int).push(key@));
            let mut dup = false;
            let mut j: usize = 0;
            while j < seen.len()
                invariant
                    j <= seen.len(),
                    sv == seen@.map_values(|s: String| s@),
                    dup == (exists|k: int| 0 <= k < j && seen[k]@ == key@),
                decreases seen.len() - j,
            {
                if seen[j] == *key {
                    dup = true;
                }
                j = j + 1;
            }
            if dup {
                let ghost k = choose|k: int| 0 <= k < seen.len() && seen[k]@ == key@;
                assert(sv[k] == key@);
                assert(keys.take(i as int).to_set().contains(key@));
                assert(keys.take(i + 1).to_set() =~= keys.take(i as int).to_set());
                assert(first_outsider_from(keys, signers, i as int) == first_outsider_from(keys, signers, i + 1)) by {
                    let m = choose|m: int| 0 <= m < keys.take(i as int).len() && keys.take(i as int)[m] == key@;
                    assert(first_outsider_from(keys, signers, 0) == first_outsider_from(keys, signers, i as int));
                    lemma_outsider_none_before(keys, signers, i as int, m);
                    assert(keys[m] == key@);
                }
            } else {
                if !pact.is_signer(key) {
                    assert(keys[i as int] == key@);
                    assert(first_outsider_from(keys, signers, i as int) == Some(i as int));
                    assert(first_outsider_from(keys, signers, 0) == Some(i as int));
                    return Err(PactError::UnauthorizedSigner(key.clone()));
                }
                assert(first_outsider_from(keys, signers, i as int) == first_outsider_from(keys, signers, i + 1));
                seen.push(key.clone());
                assert(seen@.map_values(|s: String| s@) == sv.push(key@));
                proof {
                    keys.take(i as int).lemma_push_to_set_commute(key@);
                }
                proof {
                    sv.lemma_push_to_set_commute(key@);
                }
                assert forall|a: int, b: int| 0 <= a < b < sv.push(key@).len() implies sv.push(key@)[a] != sv.push(key@)[b] by {
                    if b == sv.len() {
                        assert(sv[a] == seen[a]@);
                    }
                }
                valid_count = valid_count + 1;
            }
            i = i + 1;
        }
        assert(keys.take(i as int) == keys);
        proof {
            seen@.map_values(|s: String| s@).unique_seq_to_set();
        }
        if valid_count < pact.threshold {
            return Err(PactError::InsufficientSignatures { got: valid_count, need: pact.threshold });
        }
        Ok(())
    }
}

/// A key that occurs before position `i` is not where the first outsider from
/// `i` can be found, when no outsider occurs before `i`.
proof fn lemma_outsider_none_before(keys: Seq<Seq<char>>, signers: Set<Seq<char>>, i: int, m: int)
    requires
        0 <= m < i <= keys.len(),
        first_outsider_from(keys, signers, 0) == first_outsider_from(keys, signers, i),
    ensures
        signers.contains(keys[m]),
{
    lemma_outsider_scan(keys, signers, 0, i, m);
}

proof fn lemma_outsider_scan(keys: Seq<Seq<char>>, signers: Set<Seq<char>>, s: int, i: int, m: int)
    requires
        0 <= s <= m < i <= keys.len(),
        first_outsider_from(keys, signers, s) == first_outsider_from(keys, signers, i),
    ensures
        signers.contains(keys[m]),
    decreases m - s,
{
    lemma_outsider_at_least(keys, signers, i);
    if !signers.contains(keys[s]) {
        assert(first_outsider_from(keys, signers, s) == Some(s));
    } else if s < m {
        lemma_outsider_scan(keys, signers, s + 1, i, m);
    }
}

/// The first outsider from `i`, if any, stands at or after `i`.
proof fn lemma_outsider_at_least(keys: Seq<Seq<char>>, signers: Set<Seq<char>>, i: int)
    ensures
        first_outsider_from(keys, signers, i) is Some ==> first_outsider_from(keys, signers, i)->0 >= i,
    decreases keys.len() - i,
{
    if 0 <= i < keys.len() && signers.contains(keys[i]) {
        lemma_outsider_at_least(keys, signers, i + 1);
    }
}

impl Default for PactRegistry {
    fn default() -> (r: PactRegistry)
        ensures
            r.wf(),
            forall|id: Seq<char>| r.pact_for(id) is None,
    {
        PactRegistry::new()
    }
}

} // verus!
