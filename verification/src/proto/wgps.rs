//! Messages of the sync protocol that carry capabilities.

use vstd::prelude::*;

use super::meadowcap::serde_encoding::{SerdeInvocation, SerdeMcCapability, SerdeUWillInvocation};

verus! {

/// A nonce, or a challenge that was made of two nonces.
pub type AccessChallenge = [u8; 32];

/// The hash by which a peer commits to its nonce.
pub type ChallengeHash = [u8; 32];

/// The handle of a capability that was bound.
pub type CapabilityHandle = u64;

/// The handle of an intersection of interests.
pub type IntersectionHandle = u64;

/// The handle of a static token that was bound.
pub type StaticTokenHandle = u64;

/// The part of a write token that entries share: the chain.
pub type StaticToken = SerdeMcCapability;

/// The part of a write token that each entry has: the invocation.
pub type DynamicToken = SerdeInvocation;

/// Reveals the nonce that was committed to.
#[derive(Clone, Copy, Debug)]
pub struct CommitmentReveal {
    pub nonce: AccessChallenge,
}

/// Binds a capability to read.
#[derive(Debug)]
pub struct SetupBindReadCapability {
    pub invocation: SerdeUWillInvocation,
    pub handle: IntersectionHandle,
}

/// Answers the request for a proof of membership.
#[derive(Debug)]
pub struct PaiReplySubspaceCapability {
    pub handle: IntersectionHandle,
    pub invocation: SerdeUWillInvocation,
}

/// Binds a static token.
#[derive(Debug)]
pub struct SetupBindStaticToken {
    pub static_token: StaticToken,
}

} // verus!
