//! Eviction priority of the security contexts kept in the pool.

use vstd::prelude::*;
use crate::coapcore::scope::UnionScope;
use crate::coapcore::time::TimeConstraint;

verus! {

/// Level of contexts of administrative peers (kept longest).
pub const LEVEL_ADMIN: usize = 0;
/// Level of contexts of authenticated peers.
pub const LEVEL_AUTHENTICATED: usize = 1;
/// Level of contexts of ongoing key exchanges.
pub const LEVEL_ONGOING: usize = 2;
/// Level of empty slots (evicted first).
pub const LEVEL_EMPTY: usize = 3;
/// Number of levels.
pub const LEVEL_COUNT: usize = 4;

/// The protocol stage of a security context.
#[derive(Debug, Clone, Copy, PartialEq, Eq, Structural)]
pub enum SecContextStage {
    /// Empty slot.
    Empty,
    /// EDHOC message 1 processed, message 2 to be sent.
    EdhocResponderProcessedM1,
    /// EDHOC message 2 sent, message 3 awaited.
    EdhocResponderSentM2,
    /// OSCORE context established.
    Oscore,
}

/// The eviction level of a security context, from its stage and whether its authorization (if
/// any) is important: empty slots go first, then ongoing exchanges, then authenticated peers,
/// and important (administrative) OSCORE peers last.
pub fn level(stage: SecContextStage, authorization_important: Option<bool>) -> (r: usize)
    ensures
        r < LEVEL_COUNT,
        r == match stage {
            SecContextStage::Empty => LEVEL_EMPTY,
            SecContextStage::EdhocResponderProcessedM1 => LEVEL_ONGOING,
            SecContextStage::EdhocResponderSentM2 => LEVEL_ONGOING,
            SecContextStage::Oscore => if authorization_important == Some(true) {
                LEVEL_ADMIN
            } else {
                LEVEL_AUTHENTICATED
            },
        },
{
    match stage {
        SecContextStage::Empty => LEVEL_EMPTY,
        SecContextStage::EdhocResponderProcessedM1 => LEVEL_ONGOING,
        SecContextStage::EdhocResponderSentM2 => LEVEL_ONGOING,
        SecContextStage::Oscore => {
            match authorization_important {
                Some(true) => LEVEL_ADMIN,
                _ => LEVEL_AUTHENTICATED,
            }
        },
    }
}

/// The stage of the security context named by an OSCORE request once an EDHOC message 3 that
/// the request carries is processed (`None`: the request is rejected).
pub open spec fn stage_after_message_3(stage: SecContextStage, with_edhoc: bool, message_3_ok: bool) -> Option<
    SecContextStage,
> {
    if with_edhoc && !message_3_ok {
        None
    } else if with_edhoc && stage == SecContextStage::EdhocResponderSentM2 {
        Some(SecContextStage::Oscore)
    } else {
        Some(stage)
    }
}

/// What becomes of the security context that an OSCORE request names: whether the request
/// proceeds to decryption, and the stage of what the pool keeps in the context's slot.
///
/// The context is taken out of the pool while the request is processed. If the request carries
/// EDHOC message 3 (`with_edhoc`), that message must be a CBOR byte string that, for a context
/// waiting for message 3, verifies (`message_3_ok`); such a context then becomes an OSCORE
/// context, a context in any other stage stays as it is. The context must then be an OSCORE
/// context whose authorization still holds (`authorization_valid`, `None` if it has none).
/// A request that passes proceeds, and its OSCORE context returns to the pool; any other is
/// rejected with 4.00 Bad Request, and its context is dropped (the slot is left empty).
pub fn oscore_request_context(
    stage: SecContextStage,
    with_edhoc: bool,
    message_3_ok: bool,
    authorization_valid: Option<bool>,
) -> (r: (bool, SecContextStage))
    ensures
        r == (match stage_after_message_3(stage, with_edhoc, message_3_ok) {
            Some(SecContextStage::Oscore) => if authorization_valid == Some(true) {
                (true, SecContextStage::Oscore)
            } else {
                (false, SecContextStage::Empty)
            },
            _ => (false, SecContextStage::Empty),
        }),
{
    let stage = if with_edhoc {
        if !message_3_ok {
            return (false, SecContextStage::Empty);
        }
        match stage {
            SecContextStage::EdhocResponderSentM2 => SecContextStage::Oscore,
            other => other,
        }
    } else {
        stage
    };
    match (stage, authorization_valid) {
        (SecContextStage::Oscore, Some(true)) => (true, SecContextStage::Oscore),
        _ => (false, SecContextStage::Empty),
    }
}

/// A security context as the pool keeps it: its stage and the authorization of its peer (the
/// granted scope and its time constraint), if any.
pub struct SecContextState {
    /// The protocol stage.
    pub stage: SecContextStage,
    /// The authorization of the peer.
    pub authorization: Option<(UnionScope, TimeConstraint)>,
}

} // verus!
