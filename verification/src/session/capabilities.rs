//! The capabilities that the two peers of a session bind.

use vstd::prelude::*;

use super::resource::{first_handle, ResourceMap};
use super::{Error, ErrorView};
use crate::proto::keys::{public_key_bytes, verifying_key_error, UserId, UserSecretKey};
use crate::proto::meadowcap::serde_encoding::SerdeUWillInvocation;
use crate::proto::meadowcap::{ReadCapability, SubspaceCapability};
use crate::proto::wgps::{AccessChallenge, CapabilityHandle, ChallengeHash, CommitmentReveal, IntersectionHandle, PaiReplySubspaceCapability, SetupBindReadCapability};
use crate::store::traits::{SecretStorage, SecretStoreError};
use crate::uwill::chain::{is_chain, ChainView};
use crate::uwill::command::willow_command;
use crate::uwill::invocation::{build_enumerate_invocation, build_read_invocation, challenge_arguments, clock_gave, current_time, invocation_draft_outcome, invocation_result, signed_invocation, signs_all_invocations, InvocationErrorView, UWillInvocationView};
use crate::uwill::invocation_facts::{has_begun, has_challenge, has_named_proofs, is_sound, law_arguments_of_an_answer, law_invocation_draft, law_proving_iff, law_signed_invocation, law_signed_invocations_are_sound, not_over, signs_invocations_validly};
use crate::uwill::ucan::{Delegation, InvocationDraft, InvocationSeal};
use crate::uwill::{UWillChain, UWillInvocation, WillowCommand};

verus! {

/// The challenges of a session. Each peer commits to a nonce before it learns that of the
/// other, so neither can choose the challenge that it answers.
#[derive(Clone, Copy, Debug)]
pub enum ChallengeState {
    /// We have sent a commitment to our nonce, and have that of the peer.
    Committed { our_nonce: AccessChallenge, received_commitment: ChallengeHash },
    /// The nonces are known: we answer `ours`, and the peer answers `theirs`.
    Revealed { ours: AccessChallenge, theirs: AccessChallenge },
}

/// The challenges that two nonces give.
#[derive(Clone, Copy, Debug)]
pub struct SessionChallenges {
    pub ours: AccessChallenge,
    pub theirs: AccessChallenge,
}

impl ChallengeState {
    pub fn is_revealed(&self) -> (r: bool)
        ensures
            r == (*self is Revealed),
    {
        matches!(self, ChallengeState::Revealed { .. })
    }

    /// The challenge that we answer.
    pub fn signable(&self) -> (r: Result<AccessChallenge, Error>)
        ensures
            match *self {
                ChallengeState::Revealed { ours, .. } => r == Ok::<AccessChallenge, Error>(ours),
                ChallengeState::Committed { .. } => r matches Err(e) && e@
                    == ErrorView::InvalidMessageInCurrentState,
            },
    {
        match self {
            ChallengeState::Revealed { ours, .. } => Ok(*ours),
            ChallengeState::Committed { .. } => Err(Error::InvalidMessageInCurrentState),
        }
    }

    /// The challenge that the peer answers.
    pub fn verifiable(&self) -> (r: Result<AccessChallenge, Error>)
        ensures
            match *self {
                ChallengeState::Revealed { theirs, .. } => r == Ok::<AccessChallenge, Error>(theirs),
                ChallengeState::Committed { .. } => r matches Err(e) && e@
                    == ErrorView::InvalidMessageInCurrentState,
            },
    {
        match self {
            ChallengeState::Revealed { theirs, .. } => Ok(*theirs),
            ChallengeState::Committed { .. } => Err(Error::InvalidMessageInCurrentState),
        }
    }
}

/// The state of the capabilities of a session.
pub struct CapabilitiesView {
    pub challenge: ChallengeState,
    pub ours: Seq<ChainView>,
    pub theirs: Seq<ChainView>,
}

/// The capabilities that we and the peer have bound.
#[derive(Debug)]
pub struct Capabilities {
    challenge: ChallengeState,
    ours: ResourceMap,
    theirs: ResourceMap,
}

impl View for Capabilities {
    type V = CapabilitiesView;

    closed spec fn view(&self) -> CapabilitiesView {
        CapabilitiesView {
            challenge: self.challenge,
            ours: self.ours@,
            theirs: self.theirs@,
        }
    }
}

/// What a proof of the peer comes to, given the outcome of its validation.
pub open spec fn proof_error(e: InvocationErrorView) -> ErrorView {
    ErrorView::InvocationValidation(e.message())
}

/// What a proof of the peer to read comes to.
pub open spec fn read_proof_outcome(
    challenge: ChallengeState,
    invocation: UWillInvocationView,
    now_secs: u64,
) -> Result<ChainView, ErrorView> {
    match challenge {
        ChallengeState::Committed { .. } => Err(ErrorView::InvalidMessageInCurrentState),
        ChallengeState::Revealed { theirs, .. } => match invocation.read_outcome(theirs@, now_secs) {
            Ok(chain) => Ok(chain),
            Err(e) => Err(proof_error(e)),
        },
    }
}

/// What a proof of membership of the peer comes to.
pub open spec fn enumerate_proof_outcome(
    challenge: ChallengeState,
    invocation: UWillInvocationView,
    now_secs: u64,
) -> Result<ChainView, ErrorView> {
    match challenge {
        ChallengeState::Committed { .. } => Err(ErrorView::InvalidMessageInCurrentState),
        ChallengeState::Revealed { theirs, .. } => match invocation.enumerate_outcome(
            theirs@,
            now_secs,
        ) {
            Ok(chain) => Ok(chain),
            Err(e) => Err(proof_error(e)),
        },
    }
}

/// The outcome of validating a proof.
pub open spec fn validation_result(r: Result<UWillChain, Error>) -> Result<ChainView, ErrorView> {
    match r {
        Ok(chain) => Ok(chain@),
        Err(e) => Err(e@),
    }
}

/// What is made of the answer to the question for the secret of a user.
pub open spec fn session_secret(reply: Result<Option<UserSecretKey>, SecretStoreError>) -> Result<
    UserSecretKey,
    ErrorView,
> {
    match reply {
        Err(e) => Err(ErrorView::SecretStore(e.text@)),
        Ok(None) => Err(ErrorView::MissingSecret),
        Ok(Some(secret)) => Ok(secret),
    }
}

/// Whether `outcome` comes of answering our challenge with a capability: the challenges are
/// known, the storage has the secret of the user of the capability, and the invocation can be
/// made.
pub open spec fn answering<
    S: SecretStorage,
    F: Fn(&InvocationDraft, &[Delegation]) -> Result<InvocationSeal, String>,
>(
    secrets: S,
    sign: F,
    challenge: ChallengeState,
    chain: ChainView,
    command: WillowCommand,
    outcome: Result<UWillInvocationView, ErrorView>,
) -> bool {
    match challenge {
        ChallengeState::Committed { .. } => outcome == Err::<UWillInvocationView, ErrorView>(
            ErrorView::InvalidMessageInCurrentState,
        ),
        ChallengeState::Revealed { ours, .. } => exists|secret: Result<UserSecretKey, ErrorView>|
            {
                &&& #[trigger] asking_for_secret(secrets, chain.receiver(), secret)
                &&& match secret {
                    Err(e) => outcome == Err::<UWillInvocationView, ErrorView>(e),
                    Ok(secret) => signing_answer(sign, chain, secret, command, ours@, outcome),
                }
            },
    }
}

/// Whether `outcome` comes of making, with the secret, the invocation that answers a
/// challenge.
pub open spec fn signing_answer<
    F: Fn(&InvocationDraft, &[Delegation]) -> Result<InvocationSeal, String>,
>(
    sign: F,
    chain: ChainView,
    secret: UserSecretKey,
    command: WillowCommand,
    challenge: Seq<u8>,
    outcome: Result<UWillInvocationView, ErrorView>,
) -> bool {
    exists|built: Result<UWillInvocationView, InvocationErrorView>|
        {
            &&& #[trigger] signed_invocation(
                sign,
                chain,
                invocation_draft_outcome(
                    chain,
                    secret,
                    command,
                    challenge_arguments(chain, challenge),
                ),
                built,
            )
            &&& outcome == match built {
                Ok(invocation) => Ok(invocation),
                Err(e) => Err(ErrorView::InvocationBuild(e.message())),
            }
        }
}

/// Whether `secret` comes of asking the storage for the secret of a user.
pub open spec fn asking_for_secret<S: SecretStorage>(
    secrets: S,
    user_id: UserId,
    secret: Result<UserSecretKey, ErrorView>,
) -> bool {
    exists|reply: Result<Option<UserSecretKey>, SecretStoreError>|
        #![trigger call_ensures(S::get_user, (&secrets, &user_id), reply)]
        call_ensures(S::get_user, (&secrets, &user_id), reply) && secret == session_secret(reply)
}

/// The outcome of looking for a secret.
pub open spec fn session_secret_result(r: Result<UserSecretKey, Error>) -> Result<
    UserSecretKey,
    ErrorView,
> {
    match r {
        Ok(secret) => Ok(secret),
        Err(e) => Err(e@),
    }
}

/// The secret of a user.
fn find_secret<S: SecretStorage>(secrets: &S, user_id: &UserId) -> (r: Result<UserSecretKey, Error>)
    ensures
        asking_for_secret(*secrets, *user_id, session_secret_result(r)),
{
    match secrets.get_user(user_id) {
        Ok(Some(secret)) => Ok(secret),
        Ok(None) => Err(Error::MissingSecret),
        Err(e) => Err(Error::SecretStore(e)),
    }
}

impl Capabilities {
    /// The capabilities of a session in which commitments have been exchanged.
    pub fn new(our_nonce: AccessChallenge, received_commitment: ChallengeHash) -> (r: Self)
        ensures
            r@ == (CapabilitiesView {
                challenge: ChallengeState::Committed { our_nonce, received_commitment },
                ours: seq![],
                theirs: seq![],
            }),
    {
        let r = Capabilities {
            challenge: ChallengeState::Committed { our_nonce, received_commitment },
            ours: ResourceMap::new(),
            theirs: ResourceMap::new(),
        };
        assert(r@.ours =~= seq![] && r@.theirs =~= seq![]);
        r
    }

    pub fn is_revealed(&self) -> (r: bool)
        ensures
            r == (self@.challenge is Revealed),
    {
        self.challenge.is_revealed()
    }

    /// The handle that we have bound to the capability, if there is one.
    pub fn find_ours(&self, cap: &ReadCapability) -> (r: Option<CapabilityHandle>)
        ensures
            match r {
                Some(handle) => first_handle(self@.ours, cap@, 0) == Some(handle as int),
                None => first_handle(self@.ours, cap@, 0) is None,
            },
    {
        self.ours.find(cap)
    }

    /// Answers our challenge with a capability to read, for an intersection.
    pub fn build_read_cap_invocation<
        S: SecretStorage,
        F: Fn(&InvocationDraft, &[Delegation]) -> Result<InvocationSeal, String>,
    >(
        &self,
        secret_store: &S,
        intersection_handle: IntersectionHandle,
        capability: ReadCapability,
        sign: &F,
    ) -> (r: Result<SetupBindReadCapability, Error>)
        requires
            signs_all_invocations(*sign),
        ensures
            r matches Ok(message) ==> message.handle == intersection_handle,
            answering(
                *secret_store,
                *sign,
                self@.challenge,
                capability@,
                WillowCommand::Read,
                match r {
                    Ok(message) => Ok(message.invocation.0@),
                    Err(e) => Err(e@),
                },
            ),
    {
        let challenge = match self.challenge.signable() {
            Ok(challenge) => challenge,
            Err(e) => {
                return Err(e);
            },
        };
        let found = find_secret(secret_store, &capability.receiver());
        let ghost found_view = session_secret_result(found);
        assert(asking_for_secret(*secret_store, capability@.receiver(), found_view));
        let user_secret = match found {
            Ok(secret) => secret,
            Err(e) => {
                return Err(e);
            },
        };
        let built = build_read_invocation(&challenge, &capability, &user_secret, sign);
        let ghost built_view = invocation_result(built);
        let ghost outcome: Result<UWillInvocationView, ErrorView> = match built_view {
            Ok(invocation) => Ok(invocation),
            Err(e) => Err(ErrorView::InvocationBuild(e.message())),
        };
        assert(signing_answer(
            *sign,
            capability@,
            user_secret,
            WillowCommand::Read,
            challenge@,
            outcome,
        ));
        match built {
            Ok(invocation) => Ok(
                SetupBindReadCapability {
                    invocation: SerdeUWillInvocation(invocation),
                    handle: intersection_handle,
                },
            ),
            Err(e) => Err(Error::InvocationBuild(e.message())),
        }
    }

    /// Binds a capability of ours, unless it is bound. Gives the handle, and whether it is
    /// new.
    pub fn bind_ours(&mut self, capability: ReadCapability) -> (r: (CapabilityHandle, bool))
        ensures
            final(self)@.challenge == old(self)@.challenge,
            final(self)@.theirs == old(self)@.theirs,
            match first_handle(old(self)@.ours, capability@, 0) {
                Some(handle) => r.0 == handle && !r.1 && final(self)@.ours == old(self)@.ours,
                None => r.0 == old(self)@.ours.len() && r.1
                    && final(self)@.ours == old(self)@.ours.push(capability@),
            },
    {
        self.ours.bind_if_new(capability)
    }

    /// Checks, at the given time, a proof of the peer to read, and binds its capability.
    ///
    /// Whether the capability is revoked is for the caller to check.
    pub fn validate_and_bind_read_invocation_at(
        &mut self,
        invocation: UWillInvocation,
        now_secs: u64,
    ) -> (r: Result<ReadCapability, Error>)
        ensures
            validation_result(r) == read_proof_outcome(
                old(self)@.challenge,
                invocation@,
                now_secs,
            ),
            final(self)@.challenge == old(self)@.challenge,
            final(self)@.ours == old(self)@.ours,
            final(self)@.theirs == match r {
                Ok(chain) => old(self)@.theirs.push(chain@),
                Err(_) => old(self)@.theirs,
            },
    {
        let their_challenge = match self.challenge.verifiable() {
            Ok(challenge) => challenge,
            Err(e) => {
                return Err(e);
            },
        };
        match invocation.validate_read_proof_at(&their_challenge, now_secs) {
            Ok(chain) => {
                self.theirs.bind(chain.clone());
                Ok(chain)
            },
            Err(e) => Err(Error::InvocationValidation(e.message())),
        }
    }

    /// Checks, by now, a proof of the peer to read, and binds its capability.
    pub fn validate_and_bind_read_invocation(&mut self, invocation: UWillInvocation) -> (r: Result<
        ReadCapability,
        Error,
    >)
        ensures
            exists|now_secs: u64|
                clock_gave(now_secs) && validation_result(r) == #[trigger] read_proof_outcome(
                    old(self)@.challenge,
                    invocation@,
                    now_secs,
                ),
            final(self)@.challenge == old(self)@.challenge,
            final(self)@.ours == old(self)@.ours,
            final(self)@.theirs == match r {
                Ok(chain) => old(self)@.theirs.push(chain@),
                Err(_) => old(self)@.theirs,
            },
    {
        let now_secs: u64 = current_time();
        self.validate_and_bind_read_invocation_at(invocation, now_secs)
    }

    /// The capability that the peer has bound to the handle, once it has.
    pub fn get_theirs(&self, handle: CapabilityHandle) -> (r: Option<ReadCapability>)
        ensures
            match r {
                Some(chain) => handle < self@.theirs.len() && chain@ == self@.theirs[handle as int],
                None => handle >= self@.theirs.len(),
            },
    {
        match self.theirs.get(handle) {
            Some(chain) => Some(chain.clone()),
            None => None,
        }
    }

    /// Checks, at the given time, a proof of membership of the peer.
    ///
    /// Whether the chain is revoked is for the caller to check.
    pub fn validate_enumerate_cap_invocation_at(
        &self,
        invocation: &UWillInvocation,
        now_secs: u64,
    ) -> (r: Result<SubspaceCapability, Error>)
        ensures
            validation_result(r) == enumerate_proof_outcome(
                self@.challenge,
                invocation@,
                now_secs,
            ),
    {
        let their_challenge = match self.challenge.verifiable() {
            Ok(challenge) => challenge,
            Err(e) => {
                return Err(e);
            },
        };
        match invocation.validate_enumerate_proof_at(&their_challenge, now_secs) {
            Ok(chain) => Ok(chain),
            Err(e) => Err(Error::InvocationValidation(e.message())),
        }
    }

    /// Checks, by now, a proof of membership of the peer.
    pub fn validate_enumerate_cap_invocation(&self, invocation: &UWillInvocation) -> (r: Result<
        SubspaceCapability,
        Error,
    >)
        ensures
            exists|now_secs: u64|
                clock_gave(now_secs) && validation_result(r) == #[trigger] enumerate_proof_outcome(
                    self@.challenge,
                    invocation@,
                    now_secs,
                ),
    {
        let now_secs: u64 = current_time();
        self.validate_enumerate_cap_invocation_at(invocation, now_secs)
    }

    /// Reveals our nonce.
    pub fn reveal_commitment(&self) -> (r: Result<CommitmentReveal, Error>)
        ensures
            match self@.challenge {
                ChallengeState::Committed { our_nonce, .. } => r == Ok::<CommitmentReveal, Error>(
                    CommitmentReveal { nonce: our_nonce },
                ),
                ChallengeState::Revealed { .. } => r matches Err(e) && e@
                    == ErrorView::InvalidMessageInCurrentState,
            },
    {
        match self.challenge {
            ChallengeState::Committed { our_nonce, .. } => Ok(CommitmentReveal { nonce: our_nonce }),
            ChallengeState::Revealed { .. } => Err(Error::InvalidMessageInCurrentState),
        }
    }

    /// Takes the nonce that the peer reveals, as the challenges that it gives with ours;
    /// `None` where it is not the one that the peer committed to.
    pub fn received_commitment_reveal(&mut self, challenges: Option<SessionChallenges>) -> (r: Result<
        (),
        Error,
    >)
        ensures
            final(self)@.ours == old(self)@.ours,
            final(self)@.theirs == old(self)@.theirs,
            match (old(self)@.challenge, challenges) {
                (ChallengeState::Revealed { .. }, _) => r matches Err(e) && e@
                    == ErrorView::InvalidMessageInCurrentState && final(self)@ == old(self)@,
                (ChallengeState::Committed { .. }, None) => r matches Err(e) && e@
                    == ErrorView::BrokenCommitment && final(self)@ == old(self)@,
                (ChallengeState::Committed { .. }, Some(c)) => r is Ok && final(self)@.challenge
                    == (ChallengeState::Revealed { ours: c.ours, theirs: c.theirs }),
            },
    {
        match self.challenge {
            ChallengeState::Revealed { .. } => Err(Error::InvalidMessageInCurrentState),
            ChallengeState::Committed { .. } => match challenges {
                None => Err(Error::BrokenCommitment),
                Some(c) => {
                    self.challenge = ChallengeState::Revealed { ours: c.ours, theirs: c.theirs };
                    Ok(())
                },
            },
        }
    }

    /// Answers our challenge with a proof of membership, for an intersection.
    pub fn build_enumerate_cap_invocation<
        S: SecretStorage,
        F: Fn(&InvocationDraft, &[Delegation]) -> Result<InvocationSeal, String>,
    >(&self, secrets: &S, cap: SubspaceCapability, handle: IntersectionHandle, sign: &F) -> (r: Result<
        PaiReplySubspaceCapability,
        Error,
    >)
        requires
            signs_all_invocations(*sign),
        ensures
            r matches Ok(message) ==> message.handle == handle,
            answering(
                *secrets,
                *sign,
                self@.challenge,
                cap@,
                WillowCommand::Enumerate,
                match r {
                    Ok(message) => Ok(message.invocation.0@),
                    Err(e) => Err(e@),
                },
            ),
    {
        let challenge = match self.challenge.signable() {
            Ok(challenge) => challenge,
            Err(e) => {
                return Err(e);
            },
        };
        let found = find_secret(secrets, &cap.receiver());
        let ghost found_view = session_secret_result(found);
        assert(asking_for_secret(*secrets, cap@.receiver(), found_view));
        let user_secret = match found {
            Ok(secret) => secret,
            Err(e) => {
                return Err(e);
            },
        };
        let built = build_enumerate_invocation(&challenge, &cap, &user_secret, sign);
        let ghost built_view = invocation_result(built);
        let ghost outcome: Result<UWillInvocationView, ErrorView> = match built_view {
            Ok(invocation) => Ok(invocation),
            Err(e) => Err(ErrorView::InvocationBuild(e.message())),
        };
        assert(signing_answer(
            *sign,
            cap@,
            user_secret,
            WillowCommand::Enumerate,
            challenge@,
            outcome,
        ));
        match built {
            Ok(invocation) => Ok(
                PaiReplySubspaceCapability { handle, invocation: SerdeUWillInvocation(invocation) },
            ),
            Err(e) => Err(Error::InvocationBuild(e.message())),
        }
    }
}

/// Before the nonces are revealed no proof of the peer is accepted, whatever it holds.
pub proof fn law_no_proof_before_reveal(
    our_nonce: AccessChallenge,
    received_commitment: ChallengeHash,
    invocation: UWillInvocationView,
    now_secs: u64,
)
    ensures
        read_proof_outcome(
            ChallengeState::Committed { our_nonce, received_commitment },
            invocation,
            now_secs,
        ) is Err,
        enumerate_proof_outcome(
            ChallengeState::Committed { our_nonce, received_commitment },
            invocation,
            now_secs,
        ) is Err,
{
}

/// A proof of the peer is accepted exactly if the nonces are revealed, it is sound with the
/// capability, it answers the challenge that the peer answers, and the capability is to read, or
/// for a proof of membership one of that, or full access.
pub proof fn law_proof_of_the_peer_is_accepted_iff(
    challenge: ChallengeState,
    invocation: UWillInvocationView,
    now_secs: u64,
    chain: ChainView,
)
    ensures
        read_proof_outcome(challenge, invocation, now_secs) == Ok::<ChainView, ErrorView>(chain)
            <==> {
            &&& challenge matches ChallengeState::Revealed { ours, theirs }
            &&& is_sound(invocation, now_secs, chain)
            &&& has_challenge(invocation, theirs@)
            &&& chain.command is Read || chain.command is Full
        },
        enumerate_proof_outcome(challenge, invocation, now_secs) == Ok::<ChainView, ErrorView>(
            chain,
        ) <==> {
            &&& challenge matches ChallengeState::Revealed { ours, theirs }
            &&& is_sound(invocation, now_secs, chain)
            &&& has_challenge(invocation, theirs@)
            &&& chain.command is Enumerate || chain.command is Full
        },
{
    if let ChallengeState::Revealed { ours, theirs } = challenge {
        law_proving_iff(invocation, theirs@, now_secs, chain);
    }
}

/// A proof of the peer that is not accepted is refused because it is not the time for it, or
/// with the reason why it proves nothing.
pub proof fn law_why_a_proof_of_the_peer_is_refused(
    challenge: ChallengeState,
    invocation: UWillInvocationView,
    now_secs: u64,
)
    ensures
        match challenge {
            ChallengeState::Committed { .. } => {
                &&& read_proof_outcome(challenge, invocation, now_secs) == Err::<
                    ChainView,
                    ErrorView,
                >(ErrorView::InvalidMessageInCurrentState)
                &&& enumerate_proof_outcome(challenge, invocation, now_secs) == Err::<
                    ChainView,
                    ErrorView,
                >(ErrorView::InvalidMessageInCurrentState)
            },
            ChallengeState::Revealed { ours, theirs } => {
                &&& invocation.read_outcome(theirs@, now_secs) matches Err(e)
                    ==> read_proof_outcome(challenge, invocation, now_secs) == Err::<
                    ChainView,
                    ErrorView,
                >(ErrorView::InvocationValidation(e.message()))
                &&& invocation.enumerate_outcome(theirs@, now_secs) matches Err(e)
                    ==> enumerate_proof_outcome(challenge, invocation, now_secs) == Err::<
                    ChainView,
                    ErrorView,
                >(ErrorView::InvocationValidation(e.message()))
            },
        },
{
}

/// An answer to our challenge is an invocation of the capability, with our challenge, signed with
/// a secret that the storage gave for the user of the capability. Without the nonces there is
/// none.
pub proof fn law_what_an_answer_is<
    S: SecretStorage,
    F: Fn(&InvocationDraft, &[Delegation]) -> Result<InvocationSeal, String>,
>(
    secrets: S,
    sign: F,
    challenge: ChallengeState,
    chain: ChainView,
    command: WillowCommand,
    answer: UWillInvocationView,
)
    requires
        answering(
            secrets,
            sign,
            challenge,
            chain,
            command,
            Ok::<UWillInvocationView, ErrorView>(answer),
        ),
    ensures
        challenge is Revealed,
        has_challenge(answer, challenge->Revealed_ours@),
        answer.resolved_proofs == chain.delegations,
        has_named_proofs(answer),
        willow_command(answer.invocation.command) == Some(command),
        ({
            let user_id = chain.receiver();
            exists|secret: UserSecretKey|
                #[trigger] call_ensures(S::get_user, (&secrets, &user_id), Ok(Some(secret)))
                    && answer.invocation.issuer.bytes == public_key_bytes(secret.bytes)
        }),
{
    let user_id = chain.receiver();
    let ours = challenge->Revealed_ours@;
    let outcome = Ok::<UWillInvocationView, ErrorView>(answer);
    let secret = choose|secret: Result<UserSecretKey, ErrorView>|
        #[trigger] asking_for_secret(secrets, user_id, secret) && secret is Ok && signing_answer(
            sign,
            chain,
            secret->Ok_0,
            command,
            ours,
            outcome,
        );
    let reply = choose|reply: Result<Option<UserSecretKey>, SecretStoreError>|
        #![trigger call_ensures(S::get_user, (&secrets, &user_id), reply)]
        call_ensures(S::get_user, (&secrets, &user_id), reply) && secret == session_secret(reply);
    assert(reply == Ok::<Option<UserSecretKey>, SecretStoreError>(Some(secret->Ok_0)));
    lemma_signed_answer(sign, chain, secret->Ok_0, command, ours, answer);
}

proof fn lemma_signed_answer<
    F: Fn(&InvocationDraft, &[Delegation]) -> Result<InvocationSeal, String>,
>(
    sign: F,
    chain: ChainView,
    secret: UserSecretKey,
    command: WillowCommand,
    challenge: Seq<u8>,
    answer: UWillInvocationView,
)
    requires
        signing_answer(
            sign,
            chain,
            secret,
            command,
            challenge,
            Ok::<UWillInvocationView, ErrorView>(answer),
        ),
    ensures
        has_challenge(answer, challenge),
        answer.resolved_proofs == chain.delegations,
        has_named_proofs(answer),
        willow_command(answer.invocation.command) == Some(command),
        answer.invocation.issuer.bytes == public_key_bytes(secret.bytes),
{
    let args = challenge_arguments(chain, challenge);
    let draft = invocation_draft_outcome(chain, secret, command, args);
    law_signed_invocation(
        sign,
        chain,
        draft,
        Ok::<UWillInvocationView, InvocationErrorView>(answer),
    );
    law_invocation_draft(chain, secret, command, args);
    law_arguments_of_an_answer(chain, challenge, "challenge"@);
}

/// What one peer answers, the other accepts: with a storage that has the secret of the user, a
/// signer that signs, and the time right, the answer to the challenge that the other peer expects
/// proves the capability.
pub proof fn law_answers_are_accepted<
    S: SecretStorage,
    F: Fn(&InvocationDraft, &[Delegation]) -> Result<InvocationSeal, String>,
>(
    secrets: S,
    sign: F,
    challenge: ChallengeState,
    chain: ChainView,
    command: WillowCommand,
    outcome: Result<UWillInvocationView, ErrorView>,
    of_the_other: ChallengeState,
    now_secs: u64,
)
    requires
        answering(secrets, sign, challenge, chain, command, outcome),
        is_chain(chain),
        challenge is Revealed,
        of_the_other is Revealed,
        of_the_other->Revealed_theirs == challenge->Revealed_ours,
        has_secret_of(secrets, chain.receiver()),
        signs_invocations_validly(sign),
        verifying_key_error(chain.receiver().bytes@) is None,
        verifying_key_error(chain.namespace().bytes@) is None,
        not_over(chain.delegations, now_secs as int),
        has_begun(chain.delegations, now_secs as int),
    ensures
        outcome is Ok,
        chain.command is Read || chain.command is Full ==> read_proof_outcome(
            of_the_other,
            outcome->Ok_0,
            now_secs,
        ) == Ok::<ChainView, ErrorView>(chain),
        chain.command is Enumerate || chain.command is Full ==> enumerate_proof_outcome(
            of_the_other,
            outcome->Ok_0,
            now_secs,
        ) == Ok::<ChainView, ErrorView>(chain),
{
    let ours = challenge->Revealed_ours@;
    let user_id = chain.receiver();
    let secret = choose|secret: Result<UserSecretKey, ErrorView>|
        {
            &&& #[trigger] asking_for_secret(secrets, user_id, secret)
            &&& match secret {
                Err(e) => outcome == Err::<UWillInvocationView, ErrorView>(e),
                Ok(secret) => signing_answer(sign, chain, secret, command, ours, outcome),
            }
        };
    assert(secret is Ok);
    let args = challenge_arguments(chain, ours);
    let draft = invocation_draft_outcome(chain, secret->Ok_0, command, args);
    let built = choose|built: Result<UWillInvocationView, InvocationErrorView>|
        {
            &&& #[trigger] signed_invocation(sign, chain, draft, built)
            &&& outcome == match built {
                Ok(invocation) => Ok(invocation),
                Err(e) => Err(ErrorView::InvocationBuild(e.message())),
            }
        };
    law_signed_invocations_are_sound(sign, chain, secret->Ok_0, command, args, built, now_secs);
    law_arguments_of_an_answer(chain, ours, "challenge"@);
    law_proof_of_the_peer_is_accepted_iff(of_the_other, outcome->Ok_0, now_secs, chain);
}

/// Whether the storage always answers with a secret of the user.
pub open spec fn has_secret_of<S: SecretStorage>(secrets: S, user_id: UserId) -> bool {
    forall|reply: Result<Option<UserSecretKey>, SecretStoreError>|
        #![trigger call_ensures(S::get_user, (&secrets, &user_id), reply)]
        call_ensures(S::get_user, (&secrets, &user_id), reply) ==> reply is Ok
            && reply->Ok_0 is Some
}

/// A challenge that is not answered is not answered for a reason that holds: the nonces are not
/// revealed, the storage fails or has no secret of the user, or the invocation cannot be made.
pub proof fn law_why_there_is_no_answer<
    S: SecretStorage,
    F: Fn(&InvocationDraft, &[Delegation]) -> Result<InvocationSeal, String>,
>(
    secrets: S,
    sign: F,
    challenge: ChallengeState,
    chain: ChainView,
    command: WillowCommand,
    e: ErrorView,
)
    requires
        answering(
            secrets,
            sign,
            challenge,
            chain,
            command,
            Err::<UWillInvocationView, ErrorView>(e),
        ),
    ensures
        challenge is Committed <==> e is InvalidMessageInCurrentState,
        ({
            let user_id = chain.receiver();
            &&& e is MissingSecret ==> call_ensures(S::get_user, (&secrets, &user_id), Ok(None))
            &&& e matches ErrorView::SecretStore(text) ==> exists|cause: SecretStoreError|
                #[trigger] call_ensures(S::get_user, (&secrets, &user_id), Err(cause)) && text
                    == cause.text@
        }),
        e is InvalidMessageInCurrentState || e is MissingSecret || e is SecretStore
            || e is InvocationBuild,
{
    if challenge is Revealed {
        let ours = challenge->Revealed_ours@;
        let user_id = chain.receiver();
        let outcome = Err::<UWillInvocationView, ErrorView>(e);
        let secret = choose|secret: Result<UserSecretKey, ErrorView>|
            {
                &&& #[trigger] asking_for_secret(secrets, user_id, secret)
                &&& match secret {
                    Err(e) => outcome == Err::<UWillInvocationView, ErrorView>(e),
                    Ok(secret) => signing_answer(sign, chain, secret, command, ours, outcome),
                }
            };
        let reply = choose|reply: Result<Option<UserSecretKey>, SecretStoreError>|
            #![trigger call_ensures(S::get_user, (&secrets, &user_id), reply)]
            call_ensures(S::get_user, (&secrets, &user_id), reply) && secret == session_secret(
                reply,
            );
        if let Ok(found) = reply {
            if found is None {
                assert(call_ensures(S::get_user, (&secrets, &user_id), Ok(None)));
            }
        }
    }
}

/// The outcome that contracts speak of is the one that came.
pub proof fn law_outcomes_of_proofs(r: Result<UWillChain, Error>)
    ensures
        validation_result(r) is Ok <==> r is Ok,
        r is Ok ==> validation_result(r)->Ok_0 == r->Ok_0@,
        r is Err ==> validation_result(r)->Err_0 == r->Err_0@,
{
}

} // verus!
