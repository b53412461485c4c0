//! Invocations: the use of a capability.
//!
//! Writing, proving a read capability, proving membership and revoking a delegation
//! are all invocations. Each carries the delegations that prove it.

use vstd::prelude::*;

use super::area_extract::{area_arguments, area_to_args};
use super::chain::{chain_outcome, namespace_id_to_ed25519_did, user_id_to_ed25519_did, ChainError, ChainErrorView, ChainView, UWillChain, UWillChainRaw};
use super::command::{command_segments, WillowCommand};
use super::policy::{Arguments, Promised, PromisedView};
use super::ucan::{check_view, cid_reading, cid_views, command_text, copy_check, copy_cids, copy_delegations, delegation_cids, delegation_views, sealed_invocation, Cid, Command, Delegation, DelegationView, Ed25519Did, Invocation, InvocationDraft, InvocationDraftView, InvocationSeal, InvocationSealView, InvocationView};
use crate::proto::data_model::{Entry, EntryView};
use crate::proto::keys::{derive_public_key, public_key_bytes, verifying_key_error, UserSecretKey};
use crate::text::{bytes_equal, concat_text, copy_bytes};

verus! {

/// The name of the argument with the challenge.
pub const ARG_CHALLENGE: &'static str = "challenge";

/// The name of the argument with the identifier of the revoked delegation.
pub const ARG_REVOKE: &'static str = "revoke";

/// The segments of the command that revokes a delegation.
pub open spec fn revoke_segments() -> Seq<Seq<char>> {
    seq!["ucan"@, "revoke"@]
}

// ---------------------------------------------------------------------------
// Errors
// ---------------------------------------------------------------------------

/// Why an invocation is refused, or could not be made.
#[derive(Debug)]
pub enum InvocationError {
    InvalidKey(String),
    Build(String),
    Signature(String),
    SyntaticCheck(String),
    WrongCommand(String),
    MissingArg(&'static str),
    InvalidArg(String),
    ChallengeMismatch,
    Unauthorized,
    NamespaceMismatch,
    EntryOutsideArea,
    Expired,
    NotYetValid,
    ProofBindingMismatch,
    ChainValidation(String),
}

pub enum InvocationErrorView {
    InvalidKey(Seq<char>),
    Build(Seq<char>),
    Signature(Seq<char>),
    SyntaticCheck(Seq<char>),
    WrongCommand(Seq<char>),
    MissingArg(Seq<char>),
    InvalidArg(Seq<char>),
    ChallengeMismatch,
    Unauthorized,
    NamespaceMismatch,
    EntryOutsideArea,
    Expired,
    NotYetValid,
    ProofBindingMismatch,
    ChainValidation(Seq<char>),
}

impl View for InvocationError {
    type V = InvocationErrorView;

    open spec fn view(&self) -> InvocationErrorView {
        match self {
            InvocationError::InvalidKey(text) => InvocationErrorView::InvalidKey(text@),
            InvocationError::Build(text) => InvocationErrorView::Build(text@),
            InvocationError::Signature(text) => InvocationErrorView::Signature(text@),
            InvocationError::SyntaticCheck(text) => InvocationErrorView::SyntaticCheck(text@),
            InvocationError::WrongCommand(text) => InvocationErrorView::WrongCommand(text@),
            InvocationError::MissingArg(text) => InvocationErrorView::MissingArg(text@),
            InvocationError::InvalidArg(text) => InvocationErrorView::InvalidArg(text@),
            InvocationError::ChallengeMismatch => InvocationErrorView::ChallengeMismatch,
            InvocationError::Unauthorized => InvocationErrorView::Unauthorized,
            InvocationError::NamespaceMismatch => InvocationErrorView::NamespaceMismatch,
            InvocationError::EntryOutsideArea => InvocationErrorView::EntryOutsideArea,
            InvocationError::Expired => InvocationErrorView::Expired,
            InvocationError::NotYetValid => InvocationErrorView::NotYetValid,
            InvocationError::ProofBindingMismatch => InvocationErrorView::ProofBindingMismatch,
            InvocationError::ChainValidation(text) => InvocationErrorView::ChainValidation(text@),
        }
    }
}

impl InvocationErrorView {
    /// The message of the error.
    pub open spec fn message(self) -> Seq<char> {
        match self {
            InvocationErrorView::InvalidKey(text) => "invalid key: "@ + text,
            InvocationErrorView::Build(text) => "invocation build failed: "@ + text,
            InvocationErrorView::Signature(text) => "signature verification failed: "@ + text,
            InvocationErrorView::SyntaticCheck(text) => "syntatic_checks failed: "@ + text,
            InvocationErrorView::WrongCommand(text) => "wrong command: "@ + text,
            InvocationErrorView::MissingArg(text) => "missing argument: "@ + text,
            InvocationErrorView::InvalidArg(text) => "invalid argument: "@ + text,
            InvocationErrorView::ChallengeMismatch => "challenge nonce mismatch"@,
            InvocationErrorView::Unauthorized => "revoker has no authority"@,
            InvocationErrorView::NamespaceMismatch => "invocation namespace does not match entry namespace"@,
            InvocationErrorView::EntryOutsideArea => "entry outside capability area"@,
            InvocationErrorView::Expired => "capability chain expired"@,
            InvocationErrorView::NotYetValid => "capability chain not yet valid"@,
            InvocationErrorView::ProofBindingMismatch => "resolved proof delegations do not match signed prf CIDs"@,
            InvocationErrorView::ChainValidation(text) => "chain validation failed: "@ + text,
        }
    }
}

impl InvocationError {
    /// The message of the error.
    pub fn message(&self) -> (r: String)
        ensures
            r@ == self@.message(),
    {
        match self {
            InvocationError::InvalidKey(text) => concat_text("invalid key: ", text.as_str()),
            InvocationError::Build(text) => concat_text(
                "invocation build failed: ",
                text.as_str(),
            ),
            InvocationError::Signature(text) => concat_text(
                "signature verification failed: ",
                text.as_str(),
            ),
            InvocationError::SyntaticCheck(text) => concat_text(
                "syntatic_checks failed: ",
                text.as_str(),
            ),
            InvocationError::WrongCommand(text) => concat_text("wrong command: ", text.as_str()),
            InvocationError::MissingArg(text) => concat_text("missing argument: ", text),
            InvocationError::InvalidArg(text) => concat_text("invalid argument: ", text.as_str()),
            InvocationError::ChallengeMismatch => "challenge nonce mismatch".to_owned(),
            InvocationError::Unauthorized => "revoker has no authority".to_owned(),
            InvocationError::NamespaceMismatch => {
                "invocation namespace does not match entry namespace".to_owned()
            },
            InvocationError::EntryOutsideArea => "entry outside capability area".to_owned(),
            InvocationError::Expired => "capability chain expired".to_owned(),
            InvocationError::NotYetValid => "capability chain not yet valid".to_owned(),
            InvocationError::ProofBindingMismatch => {
                "resolved proof delegations do not match signed prf CIDs".to_owned()
            },
            InvocationError::ChainValidation(text) => concat_text(
                "chain validation failed: ",
                text.as_str(),
            ),
        }
    }
}

// ---------------------------------------------------------------------------
// Invocations with their proofs
// ---------------------------------------------------------------------------

/// What an invocation and its proofs say.
pub struct UWillInvocationView {
    pub invocation: InvocationView,
    pub resolved_proofs: Seq<DelegationView>,
    pub syntatic_checks: Result<(), Seq<char>>,
}

/// An invocation together with the delegations that prove it, and the outcome of the
/// syntactic checks of the one against the others.
#[derive(Debug)]
pub struct UWillInvocation {
    invocation: Invocation,
    resolved_proofs: Vec<Delegation>,
    syntatic_checks: Result<(), String>,
}

impl View for UWillInvocation {
    type V = UWillInvocationView;

    closed spec fn view(&self) -> UWillInvocationView {
        UWillInvocationView {
            invocation: self.invocation@,
            resolved_proofs: delegation_views(self.resolved_proofs@),
            syntatic_checks: check_view(self.syntatic_checks),
        }
    }
}

impl Clone for UWillInvocation {
    fn clone(&self) -> (r: Self)
        ensures
            r@ == self@,
    {
        UWillInvocation {
            invocation: self.invocation.clone(),
            resolved_proofs: copy_delegations(self.resolved_proofs.as_slice()),
            syntatic_checks: copy_check(&self.syntatic_checks),
        }
    }
}

/// The outcome of a check that gives a chain.
pub open spec fn proof_result(r: Result<UWillChain, InvocationError>) -> Result<
    ChainView,
    InvocationErrorView,
> {
    match r {
        Ok(chain) => Ok(chain@),
        Err(e) => Err(e@),
    }
}

/// The outcome of a check that gives nothing.
pub open spec fn unit_result(r: Result<(), InvocationError>) -> Result<(), InvocationErrorView> {
    match r {
        Ok(()) => Ok(()),
        Err(e) => Err(e@),
    }
}

/// The outcome of a check that gives an identifier.
pub open spec fn cid_result(r: Result<Cid, InvocationError>) -> Result<
    Seq<u8>,
    InvocationErrorView,
> {
    match r {
        Ok(cid) => Ok(cid@),
        Err(e) => Err(e@),
    }
}

impl UWillInvocationView {
    /// The chain that the proofs form.
    pub open spec fn proof_chain(self) -> Result<ChainView, InvocationErrorView> {
        match chain_outcome(self.resolved_proofs) {
            Ok(chain) => Ok(chain),
            Err(e) => Err(InvocationErrorView::ChainValidation(e.message())),
        }
    }

    /// What holds of every invocation that is accepted: its signature holds, its proofs
    /// are the delegations that it names, they form a chain, and the time is right.
    pub open spec fn common_outcome(self, now_secs: u64) -> Result<ChainView, InvocationErrorView> {
        match self.invocation.signature {
            Err(text) => Err(InvocationErrorView::Signature(text)),
            Ok(()) => if self.invocation.proofs != delegation_cids(self.resolved_proofs) {
                Err(InvocationErrorView::ProofBindingMismatch)
            } else {
                match self.proof_chain() {
                    Err(e) => Err(e),
                    Ok(chain) => if chain.expired(now_secs as int) {
                        Err(InvocationErrorView::Expired)
                    } else if chain.not_yet_valid(now_secs as int) {
                        Err(InvocationErrorView::NotYetValid)
                    } else {
                        Ok(chain)
                    },
                }
            },
        }
    }

    /// What holds of every accepted invocation of a Willow command: what holds of
    /// every invocation, and the syntactic checks.
    pub open spec fn willow_outcome(self, now_secs: u64) -> Result<ChainView, InvocationErrorView> {
        match self.common_outcome(now_secs) {
            Err(e) => Err(e),
            Ok(chain) => match self.syntatic_checks {
                Err(text) => Err(InvocationErrorView::SyntaticCheck(text)),
                Ok(()) => Ok(chain),
            },
        }
    }

    /// Whether the invocation authorises to write the entry.
    pub open spec fn write_outcome(self, entry: EntryView, now_secs: u64) -> Result<
        (),
        InvocationErrorView,
    > {
        match self.willow_outcome(now_secs) {
            Err(e) => Err(e),
            Ok(chain) => if !chain.command.spec_proves_write() {
                Err(InvocationErrorView::WrongCommand("proof chain does not prove write"@))
            } else if chain.namespace() != entry.namespace_id {
                Err(InvocationErrorView::NamespaceMismatch)
            } else if !chain.area.includes_entry(entry) {
                Err(InvocationErrorView::EntryOutsideArea)
            } else {
                Ok(())
            },
        }
    }

    /// What is wrong with the challenge of the invocation.
    pub open spec fn challenge_error(self, expected: Seq<u8>) -> Option<InvocationErrorView> {
        let args = self.invocation.arguments;
        if args.dom().contains(ARG_CHALLENGE@) && args[ARG_CHALLENGE@] is Bytes {
            if args[ARG_CHALLENGE@] == PromisedView::Bytes(expected) {
                None
            } else {
                Some(InvocationErrorView::ChallengeMismatch)
            }
        } else {
            Some(InvocationErrorView::MissingArg("challenge"@))
        }
    }

    /// Whether the invocation proves a capability to read.
    pub open spec fn read_outcome(self, challenge: Seq<u8>, now_secs: u64) -> Result<
        ChainView,
        InvocationErrorView,
    > {
        match self.willow_outcome(now_secs) {
            Err(e) => Err(e),
            Ok(chain) => match self.challenge_error(challenge) {
                Some(e) => Err(e),
                None => if !chain.command.spec_proves_read() {
                    Err(InvocationErrorView::WrongCommand("proof chain does not prove read"@))
                } else {
                    Ok(chain)
                },
            },
        }
    }

    /// Whether the invocation proves membership.
    pub open spec fn enumerate_outcome(self, challenge: Seq<u8>, now_secs: u64) -> Result<
        ChainView,
        InvocationErrorView,
    > {
        match self.willow_outcome(now_secs) {
            Err(e) => Err(e),
            Ok(chain) => match self.challenge_error(challenge) {
                Some(e) => Err(e),
                None => if !chain.command.spec_proves_enumerate() {
                    Err(InvocationErrorView::WrongCommand("proof chain does not prove enumerate"@))
                } else {
                    Ok(chain)
                },
            },
        }
    }

    /// Which delegation the invocation revokes.
    pub open spec fn revoke_outcome(self, now_secs: u64) -> Result<Seq<u8>, InvocationErrorView> {
        let args = self.invocation.arguments;
        match self.common_outcome(now_secs) {
            Err(e) => Err(e),
            Ok(_) => if self.invocation.command != revoke_segments() {
                Err(InvocationErrorView::WrongCommand(command_text(self.invocation.command)))
            } else if !(args.dom().contains(ARG_REVOKE@) && args[ARG_REVOKE@] is Bytes) {
                Err(InvocationErrorView::MissingArg("revoke"@))
            } else {
                match cid_reading(args[ARG_REVOKE@]->Bytes_0) {
                    Err(text) => Err(InvocationErrorView::InvalidArg("invalid CID: "@ + text)),
                    Ok(cid) => if !may_revoke(
                        self.resolved_proofs,
                        self.invocation.issuer,
                        cid,
                    ) {
                        Err(InvocationErrorView::Unauthorized)
                    } else {
                        Ok(cid)
                    },
                }
            },
        }
    }
}

/// Whether the delegation at index `k` is the first one with this identifier.
pub open spec fn is_first_with(delegations: Seq<DelegationView>, cid: Seq<u8>, k: int) -> bool {
    &&& 0 <= k < delegations.len()
    &&& delegations[k].cid == cid
    &&& forall|j: int| 0 <= j < k ==> (#[trigger] delegations[j]).cid != cid
}

/// Whether the principal issued the delegation at index `k` or one before it.
pub open spec fn issued_by(delegations: Seq<DelegationView>, principal: Ed25519Did, k: int) -> bool {
    exists|i: int| 0 <= i <= k && (#[trigger] delegations[i]).issuer == principal
}

/// Whether a principal may revoke the delegation with this identifier: that is one of the
/// delegations, and the principal issued it, where it first occurs, or one before it.
pub open spec fn may_revoke(
    delegations: Seq<DelegationView>,
    principal: Ed25519Did,
    cid: Seq<u8>,
) -> bool {
    exists|k: int|
        #[trigger] is_first_with(delegations, cid, k) && issued_by(delegations, principal, k)
}

/// Calls `std::time::SystemTime::elapsed` on the Unix epoch: the seconds that have
/// passed since it, or `None` where the clock stands before it. Nothing is promised
/// of the clock.
#[verifier::external_body]
fn unix_time() -> (r: Option<u64>) {
    std::time::UNIX_EPOCH.elapsed().ok().map(|elapsed| elapsed.as_secs())
}

/// The time that an answer of the clock stands for: `0` where it stands before the Unix epoch.
pub open spec fn time_of(answer: Option<u64>) -> u64 {
    match answer {
        Some(now_secs) => now_secs,
        None => 0,
    }
}

/// Whether an answer of the clock stands for the time.
pub closed spec fn clock_gave(now_secs: u64) -> bool {
    exists|answer: Option<u64>|
        #[trigger] call_ensures(unix_time, (), answer) && now_secs == time_of(answer)
}

/// The time, in seconds since the Unix epoch, that the clock gives; `0` where it stands before
/// it.
pub(crate) fn current_time() -> (r: u64)
    ensures
        clock_gave(r),
{
    match unix_time() {
        Some(now_secs) => now_secs,
        None => 0,
    }
}

impl UWillInvocation {
    /// The invocation.
    pub fn invocation(&self) -> (r: &Invocation)
        ensures
            r@ == self@.invocation,
    {
        &self.invocation
    }

    /// The delegations that prove the invocation.
    pub fn resolved_proofs(&self) -> (r: &[Delegation])
        ensures
            delegation_views(r@) == self@.resolved_proofs,
    {
        self.resolved_proofs.as_slice()
    }

    /// Whether the signature of the invocation holds.
    pub fn verify_signature(&self) -> (r: bool)
        ensures
            r == (self@.invocation.signature is Ok),
    {
        self.invocation.signature.is_ok()
    }

    /// The chain that the proofs form.
    pub fn to_capability_chain(&self) -> (r: Result<UWillChain, InvocationError>)
        ensures
            proof_result(r) == self@.proof_chain(),
    {
        let raw = UWillChainRaw::from_delegations(copy_delegations(self.resolved_proofs.as_slice()));
        match UWillChain::from_chain(raw) {
            Ok(chain) => Ok(chain),
            Err(e) => Err(InvocationError::ChainValidation(e.message())),
        }
    }

    /// An invocation with its proofs, and the outcome of the syntactic checks of the
    /// one against the others.
    pub fn from_parts(
        invocation: Invocation,
        resolved_proofs: Vec<Delegation>,
        syntatic_checks: Result<(), String>,
    ) -> (r: Self)
        ensures
            r@ == (UWillInvocationView {
                invocation: invocation@,
                resolved_proofs: delegation_views(resolved_proofs@),
                syntatic_checks: check_view(syntatic_checks),
            }),
    {
        UWillInvocation { invocation, resolved_proofs, syntatic_checks }
    }

    /// The chain that the proofs form.
    pub fn capability(&self) -> (r: UWillChain)
        requires
            self@.proof_chain() is Ok,
        ensures
            self@.proof_chain() == Ok::<ChainView, InvocationErrorView>(r@),
    {
        self.to_capability_chain().unwrap()
    }

    /// Checks what holds of every invocation that is accepted.
    ///
    /// Whether a delegation was revoked is not checked: that is not a matter of the
    /// invocation alone.
    fn validate_common(&self, now_secs: u64) -> (r: Result<UWillChain, InvocationError>)
        ensures
            proof_result(r) == self@.common_outcome(now_secs),
    {
        match &self.invocation.signature {
            Ok(()) => {},
            Err(text) => {
                return Err(InvocationError::Signature(text.clone()));
            },
        }
        match self.verify_proof_binding() {
            Ok(()) => {},
            Err(e) => {
                return Err(e);
            },
        }
        let chain = match self.to_capability_chain() {
            Ok(chain) => chain,
            Err(e) => {
                return Err(e);
            },
        };
        match Self::check_expiry(&chain, now_secs) {
            Ok(()) => Ok(chain),
            Err(e) => Err(e),
        }
    }

    /// Tells how the syntactic checks of the invocation against its proofs came out.
    pub fn run_syntatic_checks(&self) -> (r: Result<(), InvocationError>)
        ensures
            unit_result(r) == match self@.syntatic_checks {
                Ok(()) => Ok(()),
                Err(text) => Err(InvocationErrorView::SyntaticCheck(text)),
            },
    {
        match &self.syntatic_checks {
            Ok(()) => Ok(()),
            Err(text) => Err(InvocationError::SyntaticCheck(text.clone())),
        }
    }

    /// Checks what holds of every accepted invocation of a Willow command.
    fn validate_willow(&self, now_secs: u64) -> (r: Result<UWillChain, InvocationError>)
        ensures
            proof_result(r) == self@.willow_outcome(now_secs),
    {
        let chain = match self.validate_common(now_secs) {
            Ok(chain) => chain,
            Err(e) => {
                return Err(e);
            },
        };
        match self.run_syntatic_checks() {
            Ok(()) => Ok(chain),
            Err(e) => Err(e),
        }
    }

    /// Checks that the invocation authorises, at the given time, to write the entry.
    pub fn validate_write_at(&self, entry: &Entry, now_secs: u64) -> (r: Result<
        (),
        InvocationError,
    >)
        ensures
            unit_result(r) == self@.write_outcome(entry@, now_secs),
    {
        let chain = match self.validate_willow(now_secs) {
            Ok(chain) => chain,
            Err(e) => {
                return Err(e);
            },
        };
        if !chain.proves_write() {
            return Err(
                InvocationError::WrongCommand("proof chain does not prove write".to_owned()),
            );
        }
        if chain.granted_namespace() != *entry.namespace_id() {
            return Err(InvocationError::NamespaceMismatch);
        }
        if !chain.granted_area().includes_entry(entry) {
            return Err(InvocationError::EntryOutsideArea);
        }
        Ok(())
    }

    /// Checks that the invocation authorises, by now, to write the entry.
    pub fn validate_write(&self, entry: &Entry) -> (r: Result<(), InvocationError>)
        ensures
            exists|now_secs: u64|
                clock_gave(now_secs) && unit_result(r) == #[trigger] self@.write_outcome(
                    entry@,
                    now_secs,
                ),
    {
        let now_secs: u64 = current_time();
        self.validate_write_at(entry, now_secs)
    }

    /// Whether the invocation authorises, by now, to write the entry.
    ///
    /// Revocation is not looked at.
    pub fn is_authorised_write(&self, entry: &Entry) -> (r: bool)
        ensures
            exists|now_secs: u64|
                clock_gave(now_secs) && r == ((#[trigger] self@.write_outcome(entry@, now_secs)) is Ok),
    {
        self.validate_write(entry).is_ok()
    }

    /// Checks that the invocation proves, at the given time, a capability to read, and
    /// gives that.
    pub fn validate_read_proof_at(&self, expected_challenge: &[u8; 32], now_secs: u64) -> (r:
        Result<UWillChain, InvocationError>)
        ensures
            proof_result(r) == self@.read_outcome(expected_challenge@, now_secs),
    {
        let chain = match self.validate_willow(now_secs) {
            Ok(chain) => chain,
            Err(e) => {
                return Err(e);
            },
        };
        match self.check_challenge(expected_challenge) {
            Ok(()) => {},
            Err(e) => {
                return Err(e);
            },
        }
        if !chain.proves_read() {
            return Err(
                InvocationError::WrongCommand("proof chain does not prove read".to_owned()),
            );
        }
        Ok(chain)
    }

    /// Checks that the invocation proves, by now, a capability to read, and gives that.
    pub fn validate_read_proof(&self, expected_challenge: &[u8; 32]) -> (r: Result<
        UWillChain,
        InvocationError,
    >)
        ensures
            exists|now_secs: u64|
                clock_gave(now_secs) && proof_result(r) == #[trigger] self@.read_outcome(
                    expected_challenge@,
                    now_secs,
                ),
    {
        let now_secs: u64 = current_time();
        self.validate_read_proof_at(expected_challenge, now_secs)
    }

    /// Checks that the invocation proves, at the given time, membership, and gives the
    /// chain that does.
    pub fn validate_enumerate_proof_at(&self, expected_challenge: &[u8; 32], now_secs: u64) -> (r:
        Result<UWillChain, InvocationError>)
        ensures
            proof_result(r) == self@.enumerate_outcome(expected_challenge@, now_secs),
    {
        let chain = match self.validate_willow(now_secs) {
            Ok(chain) => chain,
            Err(e) => {
                return Err(e);
            },
        };
        match self.check_challenge(expected_challenge) {
            Ok(()) => {},
            Err(e) => {
                return Err(e);
            },
        }
        if !chain.proves_enumerate() {
            return Err(
                InvocationError::WrongCommand("proof chain does not prove enumerate".to_owned()),
            );
        }
        Ok(chain)
    }

    /// Checks that the invocation proves, by now, membership, and gives the chain that
    /// does.
    pub fn validate_enumerate_proof(&self, expected_challenge: &[u8; 32]) -> (r: Result<
        UWillChain,
        InvocationError,
    >)
        ensures
            exists|now_secs: u64|
                clock_gave(now_secs) && proof_result(r) == #[trigger] self@.enumerate_outcome(
                    expected_challenge@,
                    now_secs,
                ),
    {
        let now_secs: u64 = current_time();
        self.validate_enumerate_proof_at(expected_challenge, now_secs)
    }

    /// Checks that the invocation revokes, at the given time, a delegation, and gives its
    /// identifier.
    ///
    /// The right to revoke comes from having issued a delegation of the chain, not from a
    /// delegated command, so the syntactic checks have no say.
    pub fn validate_revoke_at(&self, now_secs: u64) -> (r: Result<Cid, InvocationError>)
        ensures
            cid_result(r) == self@.revoke_outcome(now_secs),
            r matches Ok(cid) ==> self@.proof_chain() is Ok,
    {
        match self.validate_common(now_secs) {
            Ok(_) => {},
            Err(e) => {
                return Err(e);
            },
        }
        let cmd = &self.invocation.command;
        if !is_revoke_command(cmd) {
            return Err(InvocationError::WrongCommand(cmd.to_text()));
        }
        let cid = match self.invocation.arguments.get(ARG_REVOKE) {
            Some(Promised::Bytes(b)) => match Cid::from_bytes(b.as_slice()) {
                Ok(cid) => cid,
                Err(text) => {
                    return Err(
                        InvocationError::InvalidArg(concat_text("invalid CID: ", text.as_str())),
                    );
                },
            },
            _ => {
                return Err(InvocationError::MissingArg("revoke"));
            },
        };
        if !self.issuer_may_revoke(&cid) {
            return Err(InvocationError::Unauthorized);
        }
        Ok(cid)
    }

    /// Checks that the invocation revokes, by now, a delegation, and gives its identifier.
    pub fn validate_revoke(&self) -> (r: Result<Cid, InvocationError>)
        ensures
            exists|now_secs: u64|
                clock_gave(now_secs) && cid_result(r) == #[trigger] self@.revoke_outcome(now_secs),
            r matches Ok(cid) ==> self@.proof_chain() is Ok,
    {
        let now_secs: u64 = current_time();
        self.validate_revoke_at(now_secs)
    }

    /// Whether the issuer of the invocation issued one of its proofs up to the revoked one,
    /// which is among them. The walk ends where that is first met.
    fn issuer_may_revoke(&self, cid: &Cid) -> (r: bool)
        ensures
            r == may_revoke(self@.resolved_proofs, self@.invocation.issuer, cid@),
    {
        let ghost views = self@.resolved_proofs;
        let ghost principal = self@.invocation.issuer;
        let mut found_authority = false;
        let mut i: usize = 0;
        while i < self.resolved_proofs.len()
            invariant
                i <= self.resolved_proofs.len(),
                views == delegation_views(self.resolved_proofs@),
                views == self@.resolved_proofs,
                principal == self@.invocation.issuer,
                found_authority == exists|j: int|
                    0 <= j < i && (#[trigger] views[j]).issuer == principal,
                forall|j: int| 0 <= j < i ==> (#[trigger] views[j]).cid != cid@,
            decreases self.resolved_proofs.len() - i,
        {
            let d = &self.resolved_proofs[i];
            assert(views[i as int] == d@);
            if d.issuer == self.invocation.issuer {
                found_authority = true;
            }
            if d.cid == *cid {
                proof {
                    assert(is_first_with(views, cid@, i as int));
                    assert(found_authority == issued_by(views, principal, i as int));
                    assert forall|k: int| #[trigger] is_first_with(views, cid@, k) implies k == i by {
                        if k < i {
                            assert(views[k].cid != cid@);
                        } else if k > i {
                            assert(views[i as int].cid != cid@);
                        }
                    }
                }
                return found_authority;
            }
            i += 1;
        }
        false
    }

    /// Checks that the invocation answers the challenge.
    fn check_challenge(&self, expected: &[u8; 32]) -> (r: Result<(), InvocationError>)
        ensures
            match r {
                Ok(()) => self@.challenge_error(expected@) is None,
                Err(e) => self@.challenge_error(expected@) == Some(e@),
            },
    {
        match self.invocation.arguments.get(ARG_CHALLENGE) {
            Some(Promised::Bytes(b)) => {
                if bytes_equal(b.as_slice(), expected.as_slice()) {
                    Ok(())
                } else {
                    Err(InvocationError::ChallengeMismatch)
                }
            },
            _ => Err(InvocationError::MissingArg("challenge")),
        }
    }

    /// Checks that the proofs are the delegations that the invocation names. Without
    /// that, other delegations could be put in their place.
    fn verify_proof_binding(&self) -> (r: Result<(), InvocationError>)
        ensures
            match r {
                Ok(()) => self@.invocation.proofs == delegation_cids(self@.resolved_proofs),
                Err(e) => self@.invocation.proofs != delegation_cids(self@.resolved_proofs) && e@
                    == InvocationErrorView::ProofBindingMismatch,
            },
    {
        let prf_cids = &self.invocation.proofs;
        let ghost named = self@.invocation.proofs;
        let ghost given = delegation_cids(self@.resolved_proofs);
        if prf_cids.len() != self.resolved_proofs.len() {
            assert(named.len() != given.len());
            return Err(InvocationError::ProofBindingMismatch);
        }
        let mut i: usize = 0;
        while i < prf_cids.len()
            invariant
                i <= prf_cids.len(),
                prf_cids@ == self.invocation.proofs@,
                prf_cids@.len() == self.resolved_proofs@.len(),
                named == self@.invocation.proofs,
                named == cid_views(prf_cids@),
                given == delegation_cids(self@.resolved_proofs),
                forall|j: int| 0 <= j < i ==> named[j] == given[j],
            decreases prf_cids.len() - i,
        {
            assert(named[i as int] == prf_cids@[i as int]@);
            assert(given[i as int] == self.resolved_proofs@[i as int]@.cid);
            if prf_cids[i] != self.resolved_proofs[i].cid {
                return Err(InvocationError::ProofBindingMismatch);
            }
            i += 1;
        }
        assert(named =~= given);
        Ok(())
    }

    /// Checks the time of a chain.
    fn check_expiry(chain: &UWillChain, now_secs: u64) -> (r: Result<(), InvocationError>)
        ensures
            unit_result(r) == (if chain@.expired(now_secs as int) {
                Err(InvocationErrorView::Expired)
            } else if chain@.not_yet_valid(now_secs as int) {
                Err(InvocationErrorView::NotYetValid)
            } else {
                Ok(())
            }),
    {
        if chain.is_expired(now_secs) {
            return Err(InvocationError::Expired);
        }
        if chain.is_not_yet_valid(now_secs) {
            return Err(InvocationError::NotYetValid);
        }
        Ok(())
    }
}

/// Whether a command is the one that revokes a delegation.
fn is_revoke_command(cmd: &Command) -> (r: bool)
    ensures
        r == (cmd@ == revoke_segments()),
{
    let segments = cmd.segments();
    if segments.len() != 2 {
        assert(cmd@.len() != revoke_segments().len());
        return false;
    }
    let r = segments[0] == "ucan".to_owned() && segments[1] == "revoke".to_owned();
    proof {
        if r {
            assert(cmd@ =~= revoke_segments());
        } else {
            assert(cmd@[0] != revoke_segments()[0] || cmd@[1] != revoke_segments()[1]);
        }
    }
    r
}

// ---------------------------------------------------------------------------
// Making invocations
// ---------------------------------------------------------------------------

/// What signing an invocation gave, or the text of the error.
pub open spec fn invocation_seal_result(reply: Result<InvocationSeal, String>) -> Result<
    InvocationSealView,
    Seq<char>,
> {
    match reply {
        Ok(seal) => Ok(seal@),
        Err(text) => Err(text@),
    }
}

/// The outcome of making an invocation.
pub open spec fn invocation_result(r: Result<UWillInvocation, InvocationError>) -> Result<
    UWillInvocationView,
    InvocationErrorView,
> {
    match r {
        Ok(invocation) => Ok(invocation@),
        Err(e) => Err(e@),
    }
}

/// The invocation by which the holder of a secret uses a chain for a Willow command.
/// It is addressed to the user the chain leads to.
pub open spec fn invocation_draft_outcome(
    chain: ChainView,
    user_secret: UserSecretKey,
    command: WillowCommand,
    args: Map<Seq<char>, PromisedView>,
) -> Result<InvocationDraftView, InvocationErrorView> {
    if verifying_key_error(chain.receiver().bytes@) is Some {
        Err(InvocationErrorView::InvalidKey(verifying_key_error(chain.receiver().bytes@)->0))
    } else if verifying_key_error(chain.namespace().bytes@) is Some {
        Err(InvocationErrorView::InvalidKey(verifying_key_error(chain.namespace().bytes@)->0))
    } else {
        Ok(
            InvocationDraftView {
                secret: user_secret.bytes,
                issuer: Ed25519Did { bytes: public_key_bytes(user_secret.bytes) },
                audience: Ed25519Did { bytes: chain.receiver().bytes },
                subject: Ed25519Did { bytes: chain.namespace().bytes },
                command: command_segments(command),
                arguments: args,
                proofs: chain.cids(),
            },
        )
    }
}

/// The invocation by which the holder of a secret revokes a delegation, with a chain
/// that shows the right to do so.
pub open spec fn revoke_draft_outcome(
    cid: Seq<u8>,
    chain: ChainView,
    revoker_secret: [u8; 32],
) -> Result<InvocationDraftView, InvocationErrorView> {
    if verifying_key_error(chain.namespace().bytes@) is Some {
        Err(InvocationErrorView::InvalidKey(verifying_key_error(chain.namespace().bytes@)->0))
    } else {
        Ok(
            InvocationDraftView {
                secret: revoker_secret,
                issuer: Ed25519Did { bytes: public_key_bytes(revoker_secret) },
                audience: Ed25519Did { bytes: public_key_bytes(revoker_secret) },
                subject: Ed25519Did { bytes: chain.namespace().bytes },
                command: revoke_segments(),
                arguments: Map::empty().insert(ARG_REVOKE@, PromisedView::Bytes(cid)),
                proofs: chain.cids(),
            },
        )
    }
}

/// The invocation that a draft becomes, with the delegations of the chain as proofs,
/// given what signing it gave.
pub open spec fn signed_outcome(
    chain: ChainView,
    draft: InvocationDraftView,
    reply: Result<InvocationSealView, Seq<char>>,
) -> Result<UWillInvocationView, InvocationErrorView> {
    match reply {
        Err(text) => Err(InvocationErrorView::Build(text)),
        Ok(seal) => Ok(
            UWillInvocationView {
                invocation: sealed_invocation(draft, seal),
                resolved_proofs: chain.delegations,
                syntatic_checks: seal.syntatic_checks,
            },
        ),
    }
}

/// Whether `outcome` comes of `sign` having been called with the draft and the
/// delegations of the chain. Where there is no draft, `sign` is not called.
pub open spec fn signed_invocation<
    F: Fn(&InvocationDraft, &[Delegation]) -> Result<InvocationSeal, String>,
>(
    sign: F,
    chain: ChainView,
    draft: Result<InvocationDraftView, InvocationErrorView>,
    outcome: Result<UWillInvocationView, InvocationErrorView>,
) -> bool {
    match draft {
        Err(e) => outcome == Err::<UWillInvocationView, InvocationErrorView>(e),
        Ok(view) => exists|
            d: InvocationDraft,
            proofs: &[Delegation],
            reply: Result<InvocationSeal, String>,
        |
            {
                &&& d@ == view
                &&& delegation_views(proofs@) == chain.delegations
                &&& #[trigger] call_ensures(sign, (&d, proofs), reply)
                &&& outcome == signed_outcome(chain, view, invocation_seal_result(reply))
            },
    }
}

/// Whether `sign` takes every draft with any proofs.
pub open spec fn signs_all_invocations<
    F: Fn(&InvocationDraft, &[Delegation]) -> Result<InvocationSeal, String>,
>(sign: F) -> bool {
    forall|d: InvocationDraft, proofs: &[Delegation]| #[trigger]
        call_requires(sign, (&d, proofs))
}

/// The arguments of an invocation over the area of a chain, with a challenge.
pub open spec fn challenge_arguments(chain: ChainView, challenge: Seq<u8>) -> Map<
    Seq<char>,
    PromisedView,
> {
    area_arguments(chain.area).insert(ARG_CHALLENGE@, PromisedView::Bytes(challenge))
}

/// The invocation that is to be signed for a use of a chain.
pub fn invocation_draft(
    chain: &UWillChain,
    user_secret: &UserSecretKey,
    command: WillowCommand,
    args: Arguments,
) -> (r: Result<InvocationDraft, InvocationError>)
    ensures
        match r {
            Ok(draft) => invocation_draft_outcome(chain@, *user_secret, command, args@) == Ok::<
                InvocationDraftView,
                InvocationErrorView,
            >(draft@),
            Err(e) => invocation_draft_outcome(chain@, *user_secret, command, args@) == Err::<
                InvocationDraftView,
                InvocationErrorView,
            >(e@),
        },
{
    let issuer_did = match user_id_to_ed25519_did(&chain.receiver()) {
        Ok(did) => did,
        Err(text) => {
            return Err(InvocationError::InvalidKey(text));
        },
    };
    let namespace_did = match namespace_id_to_ed25519_did(&chain.granted_namespace()) {
        Ok(did) => did,
        Err(text) => {
            return Err(InvocationError::InvalidKey(text));
        },
    };
    let draft = InvocationDraft {
        secret: user_secret.to_bytes(),
        issuer: Ed25519Did { bytes: derive_public_key(&user_secret.bytes) },
        audience: issuer_did,
        subject: namespace_did,
        command: command.to_ucan_command(),
        arguments: args,
        proofs: copy_cids(chain.delegation_cids()),
    };
    Ok(draft)
}

/// The invocation that is to be signed to revoke a delegation.
pub fn revoke_draft(revoked_cid: &Cid, chain: &UWillChain, revoker_secret: &[u8; 32]) -> (r: Result<
    InvocationDraft,
    InvocationError,
>)
    ensures
        match r {
            Ok(draft) => revoke_draft_outcome(revoked_cid@, chain@, *revoker_secret) == Ok::<
                InvocationDraftView,
                InvocationErrorView,
            >(draft@),
            Err(e) => revoke_draft_outcome(revoked_cid@, chain@, *revoker_secret) == Err::<
                InvocationDraftView,
                InvocationErrorView,
            >(e@),
        },
{
    let revoker = Ed25519Did { bytes: derive_public_key(revoker_secret) };
    let namespace_did = match namespace_id_to_ed25519_did(&chain.granted_namespace()) {
        Ok(did) => did,
        Err(text) => {
            return Err(InvocationError::InvalidKey(text));
        },
    };
    let mut args = Arguments::new();
    args.insert(ARG_REVOKE, Promised::Bytes(revoked_cid.to_bytes()));
    let mut segments: Vec<String> = Vec::new();
    segments.push("ucan".to_owned());
    segments.push("revoke".to_owned());
    let command = Command::new(segments);
    assert(command@ =~= revoke_segments());
    let draft = InvocationDraft {
        secret: *revoker_secret,
        issuer: revoker,
        audience: revoker,
        subject: namespace_did,
        command,
        arguments: args,
        proofs: copy_cids(chain.delegation_cids()),
    };
    Ok(draft)
}

/// The invocation that a draft becomes, with the delegations of the chain as proofs,
/// given what signing it gave.
pub fn finish_invocation(
    chain: &UWillChain,
    draft: InvocationDraft,
    reply: Result<InvocationSeal, String>,
) -> (r: Result<UWillInvocation, InvocationError>)
    ensures
        invocation_result(r) == signed_outcome(chain@, draft@, invocation_seal_result(reply)),
{
    match reply {
        Err(text) => Err(InvocationError::Build(text)),
        Ok(seal) => {
            let invocation = Invocation {
                issuer: draft.issuer,
                audience: draft.audience,
                subject: draft.subject,
                command: draft.command,
                arguments: draft.arguments,
                proofs: draft.proofs,
                signature: seal.signature,
                encoded: seal.encoded,
            };
            Ok(
                UWillInvocation {
                    invocation,
                    resolved_proofs: copy_delegations(chain.delegations()),
                    syntatic_checks: seal.syntatic_checks,
                },
            )
        },
    }
}

/// Makes an invocation of a Willow command, signed by `sign`.
fn build_invocation<F: Fn(&InvocationDraft, &[Delegation]) -> Result<InvocationSeal, String>>(
    chain: &UWillChain,
    user_secret: &UserSecretKey,
    command: WillowCommand,
    args: Arguments,
    sign: &F,
) -> (r: Result<UWillInvocation, InvocationError>)
    requires
        signs_all_invocations(*sign),
    ensures
        signed_invocation(
            *sign,
            chain@,
            invocation_draft_outcome(chain@, *user_secret, command, args@),
            invocation_result(r),
        ),
{
    let draft = match invocation_draft(chain, user_secret, command, args) {
        Ok(draft) => draft,
        Err(e) => {
            return Err(e);
        },
    };
    let reply = sign(&draft, chain.delegations());
    finish_invocation(chain, draft, reply)
}

/// Makes an invocation that authorises to write.
///
/// The arguments are those of the area of the chain, not of the entry: whether the
/// area holds the entry is checked when the invocation is.
pub fn build_write_invocation<
    F: Fn(&InvocationDraft, &[Delegation]) -> Result<InvocationSeal, String>,
>(_entry: &Entry, chain: &UWillChain, user_secret: &UserSecretKey, sign: &F) -> (r: Result<
    UWillInvocation,
    InvocationError,
>)
    requires
        signs_all_invocations(*sign),
    ensures
        signed_invocation(
            *sign,
            chain@,
            invocation_draft_outcome(
                chain@,
                *user_secret,
                WillowCommand::Write,
                area_arguments(chain@.area),
            ),
            invocation_result(r),
        ),
{
    let args = area_to_args(chain.granted_area());
    build_invocation(chain, user_secret, WillowCommand::Write, args, sign)
}

/// Makes an invocation that proves a capability to read, in answer to a challenge.
pub fn build_read_invocation<
    F: Fn(&InvocationDraft, &[Delegation]) -> Result<InvocationSeal, String>,
>(challenge: &[u8; 32], chain: &UWillChain, user_secret: &UserSecretKey, sign: &F) -> (r: Result<
    UWillInvocation,
    InvocationError,
>)
    requires
        signs_all_invocations(*sign),
    ensures
        signed_invocation(
            *sign,
            chain@,
            invocation_draft_outcome(
                chain@,
                *user_secret,
                WillowCommand::Read,
                challenge_arguments(chain@, challenge@),
            ),
            invocation_result(r),
        ),
{
    let mut args = area_to_args(chain.granted_area());
    args.insert(ARG_CHALLENGE, Promised::Bytes(copy_bytes(challenge.as_slice())));
    build_invocation(chain, user_secret, WillowCommand::Read, args, sign)
}

/// Makes an invocation that proves membership, in answer to a challenge.
pub fn build_enumerate_invocation<
    F: Fn(&InvocationDraft, &[Delegation]) -> Result<InvocationSeal, String>,
>(challenge: &[u8; 32], chain: &UWillChain, user_secret: &UserSecretKey, sign: &F) -> (r: Result<
    UWillInvocation,
    InvocationError,
>)
    requires
        signs_all_invocations(*sign),
    ensures
        signed_invocation(
            *sign,
            chain@,
            invocation_draft_outcome(
                chain@,
                *user_secret,
                WillowCommand::Enumerate,
                challenge_arguments(chain@, challenge@),
            ),
            invocation_result(r),
        ),
{
    let mut args = area_to_args(chain.granted_area());
    args.insert(ARG_CHALLENGE, Promised::Bytes(copy_bytes(challenge.as_slice())));
    build_invocation(chain, user_secret, WillowCommand::Enumerate, args, sign)
}

/// Makes an invocation that revokes a delegation.
pub fn build_revoke_invocation<
    F: Fn(&InvocationDraft, &[Delegation]) -> Result<InvocationSeal, String>,
>(revoked_cid: Cid, chain: &UWillChain, revoker_secret: &[u8; 32], sign: &F) -> (r: Result<
    UWillInvocation,
    InvocationError,
>)
    requires
        signs_all_invocations(*sign),
    ensures
        signed_invocation(
            *sign,
            chain@,
            revoke_draft_outcome(revoked_cid@, chain@, *revoker_secret),
            invocation_result(r),
        ),
{
    let draft = match revoke_draft(&revoked_cid, chain, revoker_secret) {
        Ok(draft) => draft,
        Err(e) => {
            return Err(e);
        },
    };
    let reply = sign(&draft, chain.delegations());
    finish_invocation(chain, draft, reply)
}

/// The outcome of making a write token of a chain: nothing is signed for a chain that
/// does not prove write.
pub open spec fn token_outcome<
    F: Fn(&InvocationDraft, &[Delegation]) -> Result<InvocationSeal, String>,
>(
    sign: F,
    chain: ChainView,
    user_secret: UserSecretKey,
    outcome: Result<UWillInvocationView, ChainErrorView>,
) -> bool {
    if !chain.command.spec_proves_write() {
        outcome == Err::<UWillInvocationView, ChainErrorView>(ChainErrorView::NotWriteCapability)
    } else {
        exists|built: Result<UWillInvocationView, InvocationErrorView>|
            {
                &&& #[trigger] signed_invocation(
                    sign,
                    chain,
                    invocation_draft_outcome(
                        chain,
                        user_secret,
                        WillowCommand::Write,
                        area_arguments(chain.area),
                    ),
                    built,
                )
                &&& outcome == match built {
                    Ok(invocation) => Ok(invocation),
                    Err(e) => Err(ChainErrorView::DelegationBuild(e.message())),
                }
            }
    }
}

impl UWillChain {
    /// Makes a token that authorises to write the entry.
    pub fn authorisation_token<
        F: Fn(&InvocationDraft, &[Delegation]) -> Result<InvocationSeal, String>,
    >(&self, entry: &Entry, user_secret: &UserSecretKey, sign: &F) -> (r: Result<
        UWillInvocation,
        ChainError,
    >)
        requires
            signs_all_invocations(*sign),
        ensures
            token_outcome(
                *sign,
                self@,
                *user_secret,
                match r {
                    Ok(invocation) => Ok(invocation@),
                    Err(e) => Err(e@),
                },
            ),
    {
        if !self.proves_write() {
            return Err(ChainError::NotWriteCapability);
        }
        let built = build_write_invocation(entry, self, user_secret, sign);
        let ghost built_view = invocation_result(built);
        assert(signed_invocation(
            *sign,
            self@,
            invocation_draft_outcome(
                self@,
                *user_secret,
                WillowCommand::Write,
                area_arguments(self@.area),
            ),
            built_view,
        ));
        match built {
            Ok(invocation) => Ok(invocation),
            Err(e) => Err(ChainError::DelegationBuild(e.message())),
        }
    }
}

} // verus!
