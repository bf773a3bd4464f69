//! Identity subjects: agents are named by a hash of their key and kind.
use vstd::prelude::*;
use vstd::utf8::encode_utf8;

use crate::ledger::{blake3_digest, blake3_of, concat_bytes};
use crate::text::{hex_lower, joined, to_hex};

verus! {

/// The kinds of identity subject.
#[derive(Debug, Clone, Copy, PartialEq, Eq, Structural)]
pub enum SubjectKind {
    Person,
    Llm,
    App,
}

/// A registered identity subject.
#[derive(Debug, Clone)]
pub struct Subject {
    pub sid: String,
    pub kind: String,
    pub display_name: String,
}

/// A request to create an agent.
#[derive(Debug, Clone)]
pub struct CreateAgentReq {
    /// `"llm"` or `"app"`.
    pub kind: String,
    pub display_name: String,
    /// Ed25519 public key in hex.
    pub public_key: String,
}

/// The answer to an agent creation.
#[derive(Debug, Clone)]
pub struct CreateAgentResp {
    pub sid: String,
    pub kind: String,
    pub public_key: String,
}

/// The subject id of an agent: `ubl:sid:` and the hex BLAKE3 digest of its
/// hex public key followed by its kind.
pub open spec fn subject_id_of(public_key_hex: Seq<char>, kind: Seq<char>) -> Seq<char> {
    "ubl:sid:"@ + hex_lower(blake3_of(encode_utf8(public_key_hex) + encode_utf8(kind)))
}

/// The subject id of an agent with the given key and kind.
pub fn subject_id(public_key_hex: &str, kind: &str) -> (r: String)
    ensures
        r@ == subject_id_of(public_key_hex@, kind@),
{
    let pre = concat_bytes(public_key_hex, kind);
    let digest = blake3_digest(pre.as_slice());
    let text = to_hex(digest.as_slice());
    joined("ubl:sid:", text.as_str())
}

/// The subject that creating an agent of `kind` with `display_name` and key
/// `public_key_hex` records.
pub fn new_subject(kind: &str, display_name: &str, public_key_hex: &str) -> (r: Subject)
    ensures
        r.sid@ == subject_id_of(public_key_hex@, kind@),
        r.kind@ == kind@,
        r.display_name@ == display_name@,
{
    Subject { sid: subject_id(public_key_hex, kind), kind: kind.to_owned(), display_name: display_name.to_owned() }
}

/// The answer to `req` once `subject` has been recorded for it.
pub fn create_agent_response(req: &CreateAgentReq, subject: &Subject) -> (r: CreateAgentResp)
    ensures
        r.sid@ == subject.sid@,
        r.kind@ == subject.kind@,
        r.public_key@ == req.public_key@,
{
    CreateAgentResp { sid: subject.sid.clone(), kind: subject.kind.clone(), public_key: req.public_key.clone() }
}

} // verus!
