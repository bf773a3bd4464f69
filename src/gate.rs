//! The authority gate: what a resolved agent session allows a link to do.
use vstd::prelude::*;

use crate::link::{IntentClass, LinkCommit};
use crate::membrane::MembraneError;

verus! {

/// The claims that an agent session token resolves to.
#[derive(Debug, Clone)]
pub struct SessionClaims {
    pub sid: String,
    /// Containers the session may commit to.
    pub containers: Vec<String>,
    /// Intent classes the session may assert.
    pub allowed_classes: Vec<IntentClass>,
    /// Largest magnitude of physics delta allowed, if bounded.
    pub delta_bound: Option<u128>,
    /// The session is valid strictly before this instant.
    pub expiry: i64,
}

/// Magnitude of a signed delta.
pub open spec fn magnitude(d: int) -> int {
    if d < 0 {
        -d
    } else {
        d
    }
}

/// The session's claims allow `link` at instant `now`.
pub open spec fn claims_allow(c: SessionClaims, link: LinkCommit, now: i64) -> bool {
    &&& now < c.expiry
    &&& exists|i: int| 0 <= i < c.containers.len() && c.containers[i]@ == link.container_id@
    &&& exists|i: int| 0 <= i < c.allowed_classes.len() && c.allowed_classes[i] == link.intent_class
    &&& match c.delta_bound {
        None => true,
        Some(b) => magnitude(link.physics_delta as int) <= b,
    }
}

/// `link` may pass: its session allows it, or it has none and none is required.
pub open spec fn gate_admits(session: Option<SessionClaims>, link: LinkCommit, now: i64, require_session: bool) -> bool {
    match session {
        None => !require_session,
        Some(c) => claims_allow(c, link, now),
    }
}

/// Magnitude of `d` as an unsigned number.
pub fn delta_magnitude(d: i128) -> (r: u128)
    ensures
        r == magnitude(d as int),
{
    if d < 0 {
        ((-(d + 1)) as u128) + 1
    } else {
        d as u128
    }
}

fn lists_container(c: &SessionClaims, container_id: &String) -> (r: bool)
    ensures
        r == exists|i: int| 0 <= i < c.containers.len() && c.containers[i]@ == container_id@,
{
    let mut i: usize = 0;
    while i < c.containers.len()
        invariant
            i <= c.containers.len(),
            forall|j: int| 0 <= j < i ==> c.containers[j]@ != container_id@,
        decreases c.containers.len() - i,
    {
        if c.containers[i] == *container_id {
            return true;
        }
        i = i + 1;
    }
    false
}

fn lists_class(c: &SessionClaims, class: IntentClass) -> (r: bool)
    ensures
        r == exists|i: int| 0 <= i < c.allowed_classes.len() && c.allowed_classes[i] == class,
{
    let mut i: usize = 0;
    while i < c.allowed_classes.len()
        invariant
            i <= c.allowed_classes.len(),
            forall|j: int| 0 <= j < i ==> c.allowed_classes[j] != class,
        decreases c.allowed_classes.len() - i,
    {
        if c.allowed_classes[i] == class {
            return true;
        }
        i = i + 1;
    }
    false
}

/// Checks `link` against the session's claims at instant `now`. Without a
/// session the link passes only when `require_session` is off.
pub fn authorize(session: &Option<SessionClaims>, link: &LinkCommit, now: i64, require_session: bool) -> (r: Result<(), MembraneError>)
    ensures
        r is Ok <==> gate_admits(*session, *link, now, require_session),
        r is Err ==> r->Err_0 is UnauthorizedEvolution,
{
    match session {
        None => {
            if require_session {
                Err(MembraneError::UnauthorizedEvolution)
            } else {
                Ok(())
            }
        },
        Some(c) => {
            if now >= c.expiry {
                return Err(MembraneError::UnauthorizedEvolution);
            }
            if !lists_container(c, &link.container_id) {
                return Err(MembraneError::UnauthorizedEvolution);
            }
            if !lists_class(c, link.intent_class) {
                return Err(MembraneError::UnauthorizedEvolution);
            }
            match c.delta_bound {
                Some(b) => {
                    if delta_magnitude(link.physics_delta) > b {
                        return Err(MembraneError::UnauthorizedEvolution);
                    }
                },
                None => {},
            }
            Ok(())
        },
    }
}

} // verus!
