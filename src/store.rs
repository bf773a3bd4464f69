//! An in-memory ledger of containers: each an append-only, hash-chained list
//! of entries, grown only through the append rule.
use vstd::prelude::*;

use crate::ledger::{
    append_error, append_outcome, entry_hash_of, genesis_hash, hash_matches, plan_append, planned_entry,
    EntryView, LedgerEntry, TangencyError, Tip,
};
use crate::link::LinkCommit;
use crate::membrane::LedgerState;

verus! {

/// The previous hash that the next link of chain `es` must name.
pub open spec fn chain_prev(es: Seq<EntryView>) -> Seq<char> {
    if es.len() == 0 {
        genesis_hash()
    } else {
        es.last().entry_hash
    }
}

/// The sequence that the next link of chain `es` must claim.
pub open spec fn chain_next(es: Seq<EntryView>) -> int {
    es.len() as int + 1
}

/// The invariants of one container's chain: its entries belong to it, are
/// numbered `1..N`, each names its predecessor's hash (the first one the
/// genesis hash), and each hash is the hash of the entry's own fields.
pub open spec fn chain_wf(cid: Seq<char>, es: Seq<EntryView>) -> bool {
    &&& forall|i: int| 0 <= i < es.len() ==> (#[trigger] es[i]).container_id == cid
    &&& forall|i: int| 0 <= i < es.len() ==> (#[trigger] es[i]).sequence == i + 1
    &&& forall|i: int| 0 <= i < es.len() ==> hash_matches(#[trigger] es[i])
    &&& forall|i: int| 0 < i < es.len() ==> (#[trigger] es[i]).previous_hash == es[i - 1].entry_hash
    &&& es.len() > 0 ==> es[0].previous_hash == genesis_hash()
}

/// Chain `es` after one append of `link` at time `ts`.
pub open spec fn append_step(es: Seq<EntryView>, link: LinkCommit, ts: int) -> Seq<EntryView> {
    if append_error(link, chain_prev(es), chain_next(es)) is None {
        es.push(planned_entry(link, chain_prev(es), chain_next(es), ts))
    } else {
        es
    }
}

/// Chain `es` after appending `links` one after the other, the `i`-th at time `ts[i]`.
pub open spec fn append_all(es: Seq<EntryView>, links: Seq<LinkCommit>, ts: Seq<int>) -> Seq<EntryView>
    decreases links.len(),
{
    if links.len() == 0 || ts.len() == 0 {
        es
    } else {
        append_all(append_step(es, links[0], ts[0]), links.drop_first(), ts.drop_first())
    }
}

/// Snapshot of a container as the state endpoint reports it.
#[derive(Debug, Clone)]
pub struct ContainerState {
    pub container_id: String,
    pub sequence: i64,
    pub last_hash: String,
    pub entry_count: i64,
}

/// Appending to a well-formed chain of container `cid` a link of that
/// container keeps the chain invariants, whether the link is taken or not.
pub proof fn lemma_append_keeps_chain_wf(cid: Seq<char>, es: Seq<EntryView>, link: LinkCommit, ts: int)
    requires
        chain_wf(cid, es),
        link.container_id@ == cid,
    ensures
        chain_wf(cid, append_step(es, link, ts)),
{
    if append_error(link, chain_prev(es), chain_next(es)) is None {
        let n = append_step(es, link, ts);
        assert forall|i: int| 0 < i < n.len() implies (#[trigger] n[i]).previous_hash == n[i - 1].entry_hash by {
            if i == es.len() {
                assert(n[i - 1] == es.last());
            }
        }
    }
}

/// The committed sequences of every container are exactly `1..N`, in order.
pub proof fn lemma_sequences_contiguous(ledger: &Ledger, cid: Seq<char>)
    requires
        ledger.wf(),
    ensures
        ledger.chain(cid).map_values(|e: EntryView| e.sequence) == Seq::new(
            ledger.chain(cid).len(),
            |i: int| i + 1,
        ),
{
    ledger.lemma_chain_wf(cid);
    assert(ledger.chain(cid).map_values(|e: EntryView| e.sequence) =~= Seq::new(
        ledger.chain(cid).len(),
        |i: int| i + 1,
    ));
}

/// Each entry names the hash of the entry before it; the first names the genesis hash.
pub proof fn lemma_chain_linked(ledger: &Ledger, cid: Seq<char>)
    requires
        ledger.wf(),
    ensures
        forall|i: int|
            0 <= i < ledger.chain(cid).len() - 1 ==> (#[trigger] ledger.chain(cid)[i + 1]).previous_hash
                == ledger.chain(cid)[i].entry_hash,
        ledger.chain(cid).len() > 0 ==> ledger.chain(cid)[0].previous_hash == genesis_hash(),
{
    ledger.lemma_chain_wf(cid);
    let es = ledger.chain(cid);
    assert forall|i: int| 0 <= i < es.len() - 1 implies (#[trigger] es[i + 1]).previous_hash == es[i].entry_hash by {
        assert(es[(i + 1) - 1] == es[i]);
    }
}

/// Recomputing the hash of every entry from its fields gives its entry hash.
pub proof fn lemma_hashes_recompute(ledger: &Ledger, cid: Seq<char>)
    requires
        ledger.wf(),
    ensures
        forall|i: int|
            0 <= i < ledger.chain(cid).len() ==> (#[trigger] ledger.chain(cid)[i]).entry_hash == entry_hash_of(
                ledger.chain(cid)[i].container_id,
                ledger.chain(cid)[i].sequence,
                ledger.chain(cid)[i].link_hash,
                ledger.chain(cid)[i].previous_hash,
                ledger.chain(cid)[i].ts_unix_ms,
            ),
{
    ledger.lemma_chain_wf(cid);
    let es = ledger.chain(cid);
    assert forall|i: int| 0 <= i < es.len() implies (#[trigger] es[i]).entry_hash == entry_hash_of(
        es[i].container_id,
        es[i].sequence,
        es[i].link_hash,
        es[i].previous_hash,
        es[i].ts_unix_ms,
    ) by {
        assert(hash_matches(es[i]));
    }
}

/// A link that the append rule rejects leaves the chain as it was.
pub proof fn lemma_rejected_link_keeps_chain(es: Seq<EntryView>, link: LinkCommit, ts: int)
    requires
        append_error(link, chain_prev(es), chain_next(es)) is Some,
    ensures
        append_step(es, link, ts) == es,
{
}

proof fn lemma_stale_links_fail(es: Seq<EntryView>, links: Seq<LinkCommit>, ts: Seq<int>, stale: int)
    requires
        stale != chain_next(es),
        forall|i: int| 0 <= i < links.len() ==> (#[trigger] links[i]).expected_sequence == stale,
    ensures
        append_all(es, links, ts) == es,
    decreases links.len(),
{
    if links.len() > 0 && ts.len() > 0 {
        assert(append_step(es, links[0], ts[0]) == es);
        assert forall|i: int| 0 <= i < links.drop_first().len() implies (#[trigger] links.drop_first()[i]).expected_sequence
            == stale by {
            assert(links.drop_first()[i] == links[i + 1]);
        }
        lemma_stale_links_fail(es, links.drop_first(), ts.drop_first(), stale);
    }
}

/// Of links that all claim the current tip of a chain, applied one after the
/// other, exactly the first is appended; every later one is refused with
/// `RealityDrift` or `SequenceMismatch`.
pub proof fn lemma_contenders_serialise(es: Seq<EntryView>, links: Seq<LinkCommit>, ts: Seq<int>)
    requires
        links.len() >= 1,
        ts.len() == links.len(),
        forall|i: int|
            0 <= i < links.len() ==> (#[trigger] links[i]).version == 1 && links[i].previous_hash@ == chain_prev(
                es,
            ) && links[i].expected_sequence == chain_next(es),
    ensures
        append_all(es, links, ts) == es.push(planned_entry(links[0], chain_prev(es), chain_next(es), ts[0])),
        forall|i: int|
            1 <= i < links.len() ==> {
                let won = es.push(planned_entry(links[0], chain_prev(es), chain_next(es), ts[0]));
                let e = append_error(#[trigger] links[i], chain_prev(won), chain_next(won));
                e == Some(TangencyError::RealityDrift) || e == Some(TangencyError::SequenceMismatch)
            },
{
    let won = es.push(planned_entry(links[0], chain_prev(es), chain_next(es), ts[0]));
    assert(links[0].version == 1);
    assert(append_step(es, links[0], ts[0]) == won);
    assert forall|i: int| 0 <= i < links.drop_first().len() implies (#[trigger] links.drop_first()[i]).expected_sequence
        == chain_next(es) by {
        assert(links.drop_first()[i] == links[i + 1]);
    }
    lemma_stale_links_fail(won, links.drop_first(), ts.drop_first(), chain_next(es));
}

struct Chain {
    container_id: String,
    entries: Vec<LedgerEntry>,
    balance: i128,
}

impl Chain {
    spec fn entries_view(&self) -> Seq<EntryView> {
        self.entries@.map_values(|e: LedgerEntry| e@)
    }
}

/// All containers' chains, at most one per container id.
pub struct Ledger {
    chains: Vec<Chain>,
}

impl Ledger {
    pub closed spec fn wf(&self) -> bool {
        &&& forall|i: int, j: int|
            0 <= i < j < self.chains.len() ==> self.chains[i].container_id@ != self.chains[j].container_id@
        &&& forall|k: int|
            0 <= k < self.chains.len() ==> chain_wf(
                (#[trigger] self.chains[k]).container_id@,
                self.chains[k].entries_view(),
            ) && self.chains[k].entries.len() < i64::MAX
    }

    spec fn has(&self, cid: Seq<char>) -> bool {
        exists|k: int| 0 <= k < self.chains.len() && self.chains[k].container_id@ == cid
    }

    spec fn slot(&self, cid: Seq<char>) -> int {
        choose|k: int| 0 <= k < self.chains.len() && self.chains[k].container_id@ == cid
    }

    /// The entries of container `cid`, in order; empty for an unknown container.
    pub closed spec fn chain(&self, cid: Seq<char>) -> Seq<EntryView> {
        if self.has(cid) {
            self.chains[self.slot(cid)].entries_view()
        } else {
            Seq::empty()
        }
    }

    /// The physical balance of container `cid`; zero for an unknown container.
    pub closed spec fn balance(&self, cid: Seq<char>) -> int {
        if self.has(cid) {
            self.chains[self.slot(cid)].balance as int
        } else {
            0
        }
    }

    proof fn lemma_slot(&self, k: int)
        requires
            self.wf(),
            0 <= k < self.chains.len(),
        ensures
            self.has(self.chains[k].container_id@),
            self.slot(self.chains[k].container_id@) == k,
    {
        let cid = self.chains[k].container_id@;
        assert(self.has(cid));
        let c = self.slot(cid);
        if c < k {
            assert(self.chains[c].container_id@ != self.chains[k].container_id@);
        } else if k < c {
            assert(self.chains[k].container_id@ != self.chains[c].container_id@);
        }
    }

    /// Each chain of a well-formed ledger keeps the chain invariants and fits the sequence range.
    pub proof fn lemma_chain_wf(&self, cid: Seq<char>)
        requires
            self.wf(),
        ensures
            chain_wf(cid, self.chain(cid)),
            self.chain(cid).len() < i64::MAX,
    {
        if self.has(cid) {
            let k = self.slot(cid);
            assert(chain_wf(self.chains[k].container_id@, self.chains[k].entries_view()));
        }
    }

    /// A ledger with no containers.
    pub fn new() -> (r: Ledger)
        ensures
            r.wf(),
            forall|cid: Seq<char>| (#[trigger] r.chain(cid)).len() == 0,
            forall|cid: Seq<char>| #[trigger] r.balance(cid) == 0,
    {
        Ledger { chains: Vec::new() }
    }

    fn find(&self, cid: &String) -> (r: Option<usize>)
        requires
            self.wf(),
        ensures
            match r {
                Some(k) => k < self.chains.len() && self.chains[k as int].container_id@ == cid@ && self.has(
                    cid@,
                ) && self.slot(cid@) == k,
                None => !self.has(cid@),
            },
    {
        let mut k: usize = 0;
        while k < self.chains.len()
            invariant
                k <= self.chains.len(),
                self.wf(),
                forall|j: int| 0 <= j < k ==> self.chains[j].container_id@ != cid@,
            decreases self.chains.len() - k,
        {
            if self.chains[k].container_id == *cid {
                proof {
                    self.lemma_slot(k as int);
                }
                return Some(k);
            }
            k = k + 1;
        }
        None
    }

    /// The current tip of container `cid`.
    fn tip(&self, cid: &String) -> (r: Option<Tip>)
        requires
            self.wf(),
        ensures
            r matches Some(t) ==> 0 <= t.sequence < i64::MAX,
            r is None <==> self.chain(cid@).len() == 0,
            crate::ledger::expected_prev(r) == chain_prev(self.chain(cid@)),
            crate::ledger::expected_seq(r) == chain_next(self.chain(cid@)),
    {
        proof {
            self.lemma_chain_wf(cid@);
        }
        match self.find(cid) {
            None => None,
            Some(k) => {
                let n = self.chains[k].entries.len();
                if n == 0 {
                    None
                } else {
                    let last = &self.chains[k].entries[n - 1];
                    assert(self.chain(cid@)[n - 1] == last@);
                    Some(Tip { sequence: last.sequence, entry_hash: last.entry_hash.clone() })
                }
            },
        }
    }

    /// Appends `link` to its container at server time `ts_unix_ms`, creating
    /// the container on its genesis entry. A rejected link changes nothing; a
    /// container that has reached `i64::MAX - 2` entries takes no more.
    #[verifier::rlimit(40)]
    pub fn append(&mut self, link: &LinkCommit, ts_unix_ms: i64) -> (r: Result<LedgerEntry, TangencyError>)
        requires
            old(self).wf(),
        ensures
            final(self).wf(),
            old(self).chain(link.container_id@).len() + 2 >= i64::MAX ==> r == Err::<LedgerEntry, TangencyError>(
                TangencyError::SequenceMismatch,
            ),
            old(self).chain(link.container_id@).len() + 2 < i64::MAX ==> append_outcome(
                *link,
                chain_prev(old(self).chain(link.container_id@)),
                chain_next(old(self).chain(link.container_id@)),
                ts_unix_ms as int,
                r,
            ),
            old(self).chain(link.container_id@).len() + 2 < i64::MAX ==> final(self).chain(link.container_id@)
                == append_step(old(self).chain(link.container_id@), *link, ts_unix_ms as int),
            r is Err ==> *final(self) == *old(self),
            forall|c: Seq<char>| c != link.container_id@ ==> final(self).chain(c) == old(self).chain(c),
            forall|c: Seq<char>| final(self).balance(c) == old(self).balance(c),
    {
        let ghost cid = link.container_id@;
        let ghost es = self.chain(cid);
        proof {
            self.lemma_chain_wf(cid);
        }
        // A container holds fewer than i64::MAX - 2 entries, so that every sequence fits.
        let full = match self.find(&link.container_id) {
            Some(k) => self.chains[k].entries.len() as u64 >= (i64::MAX as u64) - 2,
            None => false,
        };
        if full {
            return Err(TangencyError::SequenceMismatch);
        }
        let tip = self.tip(&link.container_id);
        let entry = match plan_append(link, &tip, ts_unix_ms) {
            Ok(e) => e,
            Err(e) => {
                return Err(e);
            },
        };
        let ghost ev = entry@;
        assert(ev == planned_entry(*link, chain_prev(es), chain_next(es), ts_unix_ms as int));
        proof {
            lemma_append_keeps_chain_wf(cid, es, *link, ts_unix_ms as int);
        }
        let ghost old_self = *self;
        match self.find(&link.container_id) {
            None => {
                let mut entries: Vec<LedgerEntry> = Vec::new();
                entries.push(entry.clone_entry());
                let chain = Chain { container_id: link.container_id.clone(), entries, balance: 0 };
                assert(chain.entries_view() =~= es.push(ev));
                self.chains.push(chain);
                let ghost k = self.chains.len() - 1;
                proof {
                    assert forall|j: int| 0 <= j < k implies #[trigger] self.chains[j] == old_self.chains[j] by {}
                    assert forall|j: int| 0 <= j < k implies self.chains[j].container_id@ != cid by {
                        assert(old_self.chains[j] == self.chains[j]);
                    }
                    assert(self.wf());
                    self.lemma_slot(k);
                    assert forall|c: Seq<char>| c != cid implies self.chain(c) == old_self.chain(c)
                        && self.balance(c) == old_self.balance(c) by {
                        self.lemma_unchanged_elsewhere(old_self, k, c);
                    }
                }
            },
            Some(k) => {
                let mut chain = self.chains.remove(k);
                chain.entries.push(entry.clone_entry());
                assert(chain.entries_view() =~= es.push(ev));
                self.chains.insert(k, chain);
                proof {
                    assert(self.chains@ == old_self.chains@.update(k as int, chain));
                    assert forall|j: int| 0 <= j < self.chains.len() && j != k implies #[trigger] self.chains[j]
                        == old_self.chains[j] by {}
                    assert forall|i: int, j: int|
                        0 <= i < j < self.chains.len() implies self.chains[i].container_id@
                        != self.chains[j].container_id@ by {
                        assert(old_self.chains[i].container_id@ != old_self.chains[j].container_id@);
                    }
                    assert(self.wf());
                    self.lemma_slot(k as int);
                    assert forall|c: Seq<char>| c != cid implies self.chain(c) == old_self.chain(c)
                        && self.balance(c) == old_self.balance(c) by {
                        self.lemma_unchanged_elsewhere(old_self, k as int, c);
                    }
                }
            },
        }
        Ok(entry)
    }

    proof fn lemma_unchanged_elsewhere(&self, old_self: Ledger, k: int, c: Seq<char>)
        requires
            self.wf(),
            old_self.wf(),
            0 <= k < self.chains.len(),
            self.chains[k].container_id@ != c,
            old_self.chains.len() <= self.chains.len(),
            k < old_self.chains.len() ==> old_self.chains[k].container_id@ == self.chains[k].container_id@,
            self.chains.len() <= old_self.chains.len() + 1,
            self.chains.len() == old_self.chains.len() + 1 ==> k == old_self.chains.len(),
            forall|j: int| 0 <= j < self.chains.len() && j != k ==> #[trigger] self.chains[j] == old_self.chains[j],
        ensures
            self.chain(c) == old_self.chain(c),
            self.balance(c) == old_self.balance(c),
    {
        if self.has(c) {
            let j = self.slot(c);
            assert(j != k);
            assert(old_self.chains[j] == self.chains[j]);
            old_self.lemma_slot(j);
        }
        if old_self.has(c) {
            let j = old_self.slot(c);
            assert(j != k);
            assert(old_self.chains[j] == self.chains[j]);
            self.lemma_slot(j);
        }
    }

    /// The state of container `cid`: its tip sequence, last hash and entry
    /// count, or the genesis state for a container with no entries.
    pub fn get_state(&self, container_id: &str) -> (r: ContainerState)
        requires
            self.wf(),
        ensures
            r.container_id@ == container_id@,
            r.sequence == self.chain(container_id@).len(),
            r.entry_count == self.chain(container_id@).len(),
            r.last_hash@ == chain_prev(self.chain(container_id@)),
    {
        let cid = container_id.to_owned();
        proof {
            self.lemma_chain_wf(cid@);
        }
        let tip = self.tip(&cid);
        proof {
            reveal_strlit("0x00");
        }
        match tip {
            None => ContainerState { container_id: cid, sequence: 0, last_hash: "0x00".to_owned(), entry_count: 0 },
            Some(t) => ContainerState { container_id: cid, sequence: t.sequence, last_hash: t.entry_hash, entry_count: t.sequence },
        }
    }

    /// The snapshot of container `cid` that the membrane checks a link against.
    pub fn snapshot(&self, container_id: &str) -> (r: LedgerState)
        requires
            self.wf(),
        ensures
            r.container_id@ == container_id@,
            r.last_hash@ == chain_prev(self.chain(container_id@)),
            r.next_sequence == chain_next(self.chain(container_id@)),
            r.physical_balance == self.balance(container_id@),
    {
        let cid = container_id.to_owned();
        proof {
            self.lemma_chain_wf(cid@);
        }
        let tip = self.tip(&cid);
        proof {
            reveal_strlit("0x00");
        }
        let balance: i128 = match self.find(&cid) {
            Some(k) => self.chains[k].balance,
            None => 0,
        };
        let (last_hash, next): (String, u64) = match tip {
            None => ("0x00".to_owned(), 1),
            Some(t) => (t.entry_hash, (t.sequence + 1) as u64),
        };
        LedgerState { container_id: cid, last_hash, next_sequence: next, physical_balance: balance }
    }

    /// Sets the physical balance of an existing container.
    pub(crate) fn set_balance(&mut self, container_id: &String, balance: i128)
        requires
            old(self).wf(),
        ensures
            final(self).wf(),
            forall|c: Seq<char>| #[trigger] final(self).chain(c) == old(self).chain(c),
            forall|c: Seq<char>| c != container_id@ ==> #[trigger] final(self).balance(c) == old(self).balance(c),
            old(self).chain(container_id@).len() > 0 ==> final(self).balance(container_id@) == balance,
    {
        let ghost old_self = *self;
        match self.find(container_id) {
            None => {},
            Some(k) => {
                let mut chain = self.chains.remove(k);
                chain.balance = balance;
                self.chains.insert(k, chain);
                proof {
                    assert(self.chains@ == old_self.chains@.update(k as int, chain));
                    assert forall|j: int| 0 <= j < self.chains.len() && j != k implies #[trigger] self.chains[j]
                        == old_self.chains[j] by {}
                    assert forall|i: int, j: int|
                        0 <= i < j < self.chains.len() implies self.chains[i].container_id@
                        != self.chains[j].container_id@ by {
                        assert(old_self.chains[i].container_id@ != old_self.chains[j].container_id@);
                    }
                    assert(chain.entries_view() == old_self.chains[k as int].entries_view());
                    assert(self.wf());
                    self.lemma_slot(k as int);
                    old_self.lemma_slot(k as int);
                    assert forall|c: Seq<char>| c != container_id@ implies self.chain(c) == old_self.chain(c)
                        && self.balance(c) == old_self.balance(c) by {
                        self.lemma_unchanged_elsewhere(old_self, k as int, c);
                    }
                }
            },
        }
    }
}

impl LedgerEntry {
    /// A field-by-field copy.
    pub fn clone_entry(&self) -> (r: LedgerEntry)
        ensures
            r == *self,
    {
        LedgerEntry {
            container_id: self.container_id.clone(),
            sequence: self.sequence,
            link_hash: self.link_hash.clone(),
            previous_hash: self.previous_hash.clone(),
            entry_hash: self.entry_hash.clone(),
            ts_unix_ms: self.ts_unix_ms,
        }
    }
}

} // verus!
