//! Ledger entries, the entry-hash rule and the append rule against a tip.
use vstd::prelude::*;
use vstd::utf8::encode_utf8;

use crate::link::{class_named, IntentClass, LinkCommit};
use crate::pact::PactProof;
use crate::text::{decimal_value, hex_lower, i128_decimal, int_decimal, parse_i128, to_hex};

verus! {

/// A link as it arrives on the wire, before its fields are typed.
#[derive(Debug, Clone)]
pub struct LinkDraft {
    pub version: u8,
    pub container_id: String,
    pub expected_sequence: i64,
    pub previous_hash: String,
    pub atom_hash: String,
    /// `"Observation"`, `"Conservation"`, `"Entropy"` or `"Evolution"`.
    pub intent_class: String,
    /// A signed 128-bit integer in decimal.
    pub physics_delta: String,
    pub author_pubkey: String,
    pub signature: String,
    pub pact: Option<PactProof>,
}

/// The delta that a wire text denotes, when it is a decimal within `i128`.
pub open spec fn delta_value(text: Seq<char>) -> Option<int> {
    match decimal_value(encode_utf8(text)) {
        Some(v) => if i128::MIN <= v <= i128::MAX {
            Some(v)
        } else {
            None
        },
        None => None,
    }
}

impl LinkDraft {
    /// The typed link: `None` when the intent class is not a known name, the
    /// delta is not a decimal within `i128`, or the sequence is negative.
    pub fn into_commit(self) -> (r: Option<LinkCommit>)
        ensures
            r is Some <==> (class_named(self.intent_class@) is Some && delta_value(self.physics_delta@) is Some
                && self.expected_sequence >= 0),
            r matches Some(l) ==> {
                &&& l.version == self.version
                &&& l.container_id == self.container_id
                &&& l.expected_sequence == self.expected_sequence
                &&& l.previous_hash == self.previous_hash
                &&& l.atom_hash == self.atom_hash
                &&& Some(l.intent_class) == class_named(self.intent_class@)
                &&& Some(l.physics_delta as int) == delta_value(self.physics_delta@)
                &&& l.pact == self.pact
                &&& l.author_pubkey == self.author_pubkey
                &&& l.signature == self.signature
            },
    {
        let class = match IntentClass::from_name(self.intent_class.as_str()) {
            Some(c) => c,
            None => {
                return None;
            },
        };
        let delta = match parse_i128(self.physics_delta.as_str()) {
            Some(d) => d,
            None => {
                return None;
            },
        };
        if self.expected_sequence < 0 {
            return None;
        }
        Some(
            LinkCommit {
                version: self.version,
                container_id: self.container_id,
                expected_sequence: self.expected_sequence as u64,
                previous_hash: self.previous_hash,
                atom_hash: self.atom_hash,
                intent_class: class,
                physics_delta: delta,
                pact: self.pact,
                author_pubkey: self.author_pubkey,
                signature: self.signature,
            },
        )
    }
}

/// A committed, immutable record of a container's chain.
#[derive(Debug, Clone)]
pub struct LedgerEntry {
    pub container_id: String,
    pub sequence: i64,
    pub link_hash: String,
    pub previous_hash: String,
    pub entry_hash: String,
    pub ts_unix_ms: i64,
}

/// A ledger entry with its texts as character sequences.
pub struct EntryView {
    pub container_id: Seq<char>,
    pub sequence: int,
    pub link_hash: Seq<char>,
    pub previous_hash: Seq<char>,
    pub entry_hash: Seq<char>,
    pub ts_unix_ms: int,
}

impl View for LedgerEntry {
    type V = EntryView;

    open spec fn view(&self) -> EntryView {
        EntryView {
            container_id: self.container_id@,
            sequence: self.sequence as int,
            link_hash: self.link_hash@,
            previous_hash: self.previous_hash@,
            entry_hash: self.entry_hash@,
            ts_unix_ms: self.ts_unix_ms as int,
        }
    }
}

/// Errors the ledger raises at append time.
#[derive(Debug, Clone, Copy, PartialEq, Eq, Structural)]
pub enum TangencyError {
    InvalidVersion,
    InvalidTarget,
    RealityDrift,
    SequenceMismatch,
}

/// How a durable store's append transaction failed.
#[derive(Debug, Clone, Copy, PartialEq, Eq, Structural)]
pub enum StoreFailure {
    /// The serialisable transaction was aborted by a conflict.
    SerialisationConflict,
    /// Another entry already holds the `(container_id, sequence)` key.
    UniqueViolation,
}

/// What to do after a failed append transaction.
#[derive(Debug, Clone, Copy, PartialEq, Eq, Structural)]
pub enum RetryStep {
    /// Run the whole append again.
    Retry,
    /// Stop and report this error.
    GiveUp(TangencyError),
}

/// Serialisation conflicts are retried at once while fewer than `budget`
/// retries were made; anything else ends in `SequenceMismatch`.
pub fn after_store_failure(failure: StoreFailure, retries_done: u32, budget: u32) -> (r: RetryStep)
    ensures
        r == (if failure is SerialisationConflict && retries_done < budget {
            RetryStep::Retry
        } else {
            RetryStep::GiveUp(TangencyError::SequenceMismatch)
        }),
{
    match failure {
        StoreFailure::SerialisationConflict => {
            if retries_done < budget {
                RetryStep::Retry
            } else {
                RetryStep::GiveUp(TangencyError::SequenceMismatch)
            }
        },
        StoreFailure::UniqueViolation => RetryStep::GiveUp(TangencyError::SequenceMismatch),
    }
}

/// Retries of a conflicting append before it is given up.
pub const DEFAULT_SERIALISABLE_RETRIES: u32 = 3;

/// The latest entry of a container, as far as the append rule reads it.
#[derive(Debug, Clone)]
pub struct Tip {
    pub sequence: i64,
    pub entry_hash: String,
}

/// The 32-byte BLAKE3 digest of `data`.
pub uninterp spec fn blake3_of(data: Seq<u8>) -> Seq<u8>;

/// Relies on `blake3::hash`: the digest depends on the input bytes alone.
#[verifier::external_body]
pub(crate) fn blake3_digest(data: &[u8]) -> (r: Vec<u8>)
    ensures
        r@ == blake3_of(data@),
{
    blake3::hash(data).as_bytes().to_vec()
}

/// The `previous_hash` of a container's first entry.
pub open spec fn genesis_hash() -> Seq<char> {
    "0x00"@
}

/// The bytes hashed into an entry: id, sequence, link hash, previous hash and
/// timestamp, integers in decimal, concatenated.
pub open spec fn hash_preimage(
    container_id: Seq<char>,
    sequence: int,
    link_hash: Seq<char>,
    previous_hash: Seq<char>,
    ts_unix_ms: int,
) -> Seq<u8> {
    encode_utf8(container_id) + encode_utf8(int_decimal(sequence)) + encode_utf8(link_hash)
        + encode_utf8(previous_hash) + encode_utf8(int_decimal(ts_unix_ms))
}

/// The entry hash: lower-case hex of the BLAKE3 digest of the preimage.
pub open spec fn entry_hash_of(
    container_id: Seq<char>,
    sequence: int,
    link_hash: Seq<char>,
    previous_hash: Seq<char>,
    ts_unix_ms: int,
) -> Seq<char> {
    hex_lower(blake3_of(hash_preimage(container_id, sequence, link_hash, previous_hash, ts_unix_ms)))
}

/// An entry's hash is the hash of its own fields.
pub open spec fn hash_matches(e: EntryView) -> bool {
    e.entry_hash == entry_hash_of(e.container_id, e.sequence, e.link_hash, e.previous_hash, e.ts_unix_ms)
}

fn push_bytes(v: &mut Vec<u8>, b: &[u8])
    ensures
        final(v)@ == old(v)@ + b@,
{
    let mut i: usize = 0;
    while i < b.len()
        invariant
            i <= b.len(),
            v@ == old(v)@ + b@.take(i as int),
        decreases b.len() - i,
    {
        v.push(b[i]);
        i = i + 1;
        assert(b@.take(i as int) == b@.take(i - 1).push(b@[i - 1]));
    }
    assert(b@.take(b.len() as int) == b@);
}

/// The bytes of `a` followed by the bytes of `b`.
pub(crate) fn concat_bytes(a: &str, b: &str) -> (r: Vec<u8>)
    ensures
        r@ == encode_utf8(a@) + encode_utf8(b@),
{
    let mut v: Vec<u8> = Vec::new();
    push_bytes(&mut v, a.as_bytes());
    push_bytes(&mut v, b.as_bytes());
    assert(v@ =~= encode_utf8(a@) + encode_utf8(b@));
    v
}

/// The bytes that the entry hash is computed over.
pub fn entry_preimage(
    container_id: &str,
    sequence: i64,
    link_hash: &str,
    previous_hash: &str,
    ts_unix_ms: i64,
) -> (r: Vec<u8>)
    ensures
        r@ == hash_preimage(container_id@, sequence as int, link_hash@, previous_hash@, ts_unix_ms as int),
{
    let seq_text = i128_decimal(sequence as i128);
    let ts_text = i128_decimal(ts_unix_ms as i128);
    let mut v: Vec<u8> = Vec::new();
    push_bytes(&mut v, container_id.as_bytes());
    push_bytes(&mut v, seq_text.as_str().as_bytes());
    push_bytes(&mut v, link_hash.as_bytes());
    push_bytes(&mut v, previous_hash.as_bytes());
    push_bytes(&mut v, ts_text.as_str().as_bytes());
    assert(v@ =~= hash_preimage(container_id@, sequence as int, link_hash@, previous_hash@, ts_unix_ms as int));
    v
}

/// Lower-case hex text of a digest.
pub fn digest_text(digest: &[u8]) -> (r: String)
    ensures
        r@ == hex_lower(digest@),
{
    to_hex(digest)
}

/// The hash of an entry with the given fields.
pub fn entry_hash(
    container_id: &str,
    sequence: i64,
    link_hash: &str,
    previous_hash: &str,
    ts_unix_ms: i64,
) -> (r: String)
    ensures
        r@ == entry_hash_of(container_id@, sequence as int, link_hash@, previous_hash@, ts_unix_ms as int),
{
    let pre = entry_preimage(container_id, sequence, link_hash, previous_hash, ts_unix_ms);
    let digest = blake3_digest(pre.as_slice());
    digest_text(digest.as_slice())
}

/// The previous hash that a link must name against `tip`.
pub open spec fn expected_prev(tip: Option<Tip>) -> Seq<char> {
    match tip {
        None => genesis_hash(),
        Some(t) => t.entry_hash@,
    }
}

/// The sequence that a link must claim against `tip`.
pub open spec fn expected_seq(tip: Option<Tip>) -> int {
    match tip {
        None => 1,
        Some(t) => t.sequence + 1,
    }
}

/// The first of version, causal chain and sequence, in that order, that the
/// link gets wrong against the expected previous hash and sequence.
pub open spec fn append_error(link: LinkCommit, prev: Seq<char>, seq: int) -> Option<TangencyError> {
    if link.version != 1 {
        Some(TangencyError::InvalidVersion)
    } else if link.previous_hash@ != prev {
        Some(TangencyError::RealityDrift)
    } else if link.expected_sequence != seq {
        Some(TangencyError::SequenceMismatch)
    } else {
        None
    }
}

/// The entry that appending `link` after `prev` at sequence `seq` and time `ts` creates.
pub open spec fn planned_entry(link: LinkCommit, prev: Seq<char>, seq: int, ts: int) -> EntryView {
    EntryView {
        container_id: link.container_id@,
        sequence: seq,
        link_hash: link.atom_hash@,
        previous_hash: prev,
        entry_hash: entry_hash_of(link.container_id@, seq, link.atom_hash@, prev, ts),
        ts_unix_ms: ts,
    }
}

/// What appending `link` after `prev` at sequence `seq` yields.
pub open spec fn append_outcome(
    link: LinkCommit,
    prev: Seq<char>,
    seq: int,
    ts: int,
    r: Result<LedgerEntry, TangencyError>,
) -> bool {
    match append_error(link, prev, seq) {
        Some(e) => r == Err::<LedgerEntry, TangencyError>(e),
        None => r matches Ok(entry) && entry@ == planned_entry(link, prev, seq, ts),
    }
}

/// The append rule against the container's current tip (`None` for an empty
/// container), with the server's time `ts_unix_ms`.
pub fn plan_append(link: &LinkCommit, tip: &Option<Tip>, ts_unix_ms: i64) -> (r: Result<LedgerEntry, TangencyError>)
    requires
        tip matches Some(t) ==> 0 <= t.sequence < i64::MAX,
    ensures
        append_outcome(*link, expected_prev(*tip), expected_seq(*tip), ts_unix_ms as int, r),
{
    let (prev, seq): (String, i64) = match tip {
        None => ("0x00".to_owned(), 1),
        Some(t) => (t.entry_hash.clone(), t.sequence + 1),
    };
    proof {
        reveal_strlit("0x00");
    }
    if link.version != 1 {
        return Err(TangencyError::InvalidVersion);
    }
    if link.previous_hash != prev {
        return Err(TangencyError::RealityDrift);
    }
    if link.expected_sequence != seq as u64 {
        return Err(TangencyError::SequenceMismatch);
    }
    let hash = entry_hash(link.container_id.as_str(), seq, link.atom_hash.as_str(), prev.as_str(), ts_unix_ms);
    Ok(
        LedgerEntry {
            container_id: link.container_id.clone(),
            sequence: seq,
            link_hash: link.atom_hash.clone(),
            previous_hash: prev,
            entry_hash: hash,
            ts_unix_ms,
        },
    )
}

} // verus!
