//! UCAN tokens as plain data.
//!
//! The fields of a signed token that the capability system reads are held here as
//! values. Encoding and signing a token, checking a signature, and evaluating the
//! policies of a proof chain against the arguments of an invocation are the work
//! of a UCAN implementation; what it found is part of the data.

use vstd::prelude::*;

use super::policy::{copy_predicates, predicate_views, Arguments, Predicate, PredicateView, PromisedView};
use crate::text::{bytes_equal, concat_text, copy_bytes, join, join_text, keys_equal, text_views};

verus! {

/// A principal: the bytes of an Ed25519 public key.
#[derive(Clone, Copy, Debug, Eq, Hash)]
pub struct Ed25519Did {
    pub bytes: [u8; 32],
}

impl PartialEq for Ed25519Did {
    fn eq(&self, other: &Self) -> (r: bool) {
        keys_equal(&self.bytes, &other.bytes)
    }
}

impl vstd::std_specs::cmp::PartialEqSpecImpl for Ed25519Did {
    open spec fn obeys_eq_spec() -> bool {
        true
    }

    open spec fn eq_spec(&self, other: &Self) -> bool {
        *self == *other
    }
}

// ---------------------------------------------------------------------------
// Commands
// ---------------------------------------------------------------------------

/// A command: a sequence of segments.
#[derive(Debug)]
pub struct Command {
    segments: Vec<String>,
}

impl View for Command {
    type V = Seq<Seq<char>>;

    closed spec fn view(&self) -> Seq<Seq<char>> {
        text_views(self.segments@)
    }
}

impl Clone for Command {
    fn clone(&self) -> (r: Self)
        ensures
            r@ == self@,
    {
        let mut segments: Vec<String> = Vec::new();
        let mut i: usize = 0;
        while i < self.segments.len()
            invariant
                i <= self.segments.len(),
                segments@.len() == i,
                forall|j: int| 0 <= j < i ==> (#[trigger] segments@[j])@ == self.segments@[j]@,
            decreases self.segments.len() - i,
        {
            segments.push(self.segments[i].clone());
            i += 1;
        }
        assert(text_views(segments@) =~= text_views(self.segments@));
        Command { segments }
    }
}

/// A command is written with a slash before each segment.
pub open spec fn command_text(segments: Seq<Seq<char>>) -> Seq<char> {
    seq!['/'] + join(segments, '/')
}

impl Command {
    pub fn new(segments: Vec<String>) -> (r: Self)
        ensures
            r@ == text_views(segments@),
    {
        Command { segments }
    }

    pub fn segments(&self) -> (r: &Vec<String>)
        ensures
            text_views(r@) == self@,
            r@.len() == self@.len(),
            forall|i: int| 0 <= i < r@.len() ==> (#[trigger] r@[i])@ == self@[i],
    {
        &self.segments
    }

    /// Whether the segments of `other` are the first segments of this command.
    pub fn starts_with(&self, other: &Command) -> (r: bool)
        ensures
            r == other@.is_prefix_of(self@),
    {
        if other.segments.len() > self.segments.len() {
            return false;
        }
        let mut i: usize = 0;
        while i < other.segments.len()
            invariant
                i <= other.segments.len() <= self.segments.len(),
                forall|j: int| 0 <= j < i ==> other@[j] == self@[j],
            decreases other.segments.len() - i,
        {
            if other.segments[i] != self.segments[i] {
                assert(other@[i as int] != self@[i as int]);
                return false;
            }
            assert(other@[i as int] == self@[i as int]);
            i += 1;
        }
        assert(other@ =~= self@.subrange(0, other@.len() as int));
        true
    }

    /// The command, written out.
    pub fn to_text(&self) -> (r: String)
        ensures
            r@ == command_text(self@),
    {
        proof {
            reveal_strlit("/");
        }
        let r = concat_text("/", join_text(&self.segments).as_str());
        assert(r@ =~= command_text(self@));
        r
    }
}

// ---------------------------------------------------------------------------
// Content identifiers
// ---------------------------------------------------------------------------

/// What `ipld_core::cid::Cid::try_from` makes of a byte string: the bytes of the
/// identifier that it reads, or the text of its error.
pub uninterp spec fn cid_reading(bytes: Seq<u8>) -> Result<Seq<u8>, Seq<char>>;

/// Calls `ipld_core::cid::Cid::try_from` and hands out the bytes of the identifier.
/// Identifier and error depend on the given bytes alone, and the bytes of an
/// identifier read as that identifier.
#[verifier::external_body]
fn read_cid(bytes: &[u8]) -> (r: Result<Vec<u8>, String>)
    ensures
        match r {
            Ok(cid) => cid_reading(bytes@) == Ok::<Seq<u8>, Seq<char>>(cid@) && cid_reading(cid@)
                == Ok::<Seq<u8>, Seq<char>>(cid@),
            Err(text) => cid_reading(bytes@) == Err::<Seq<u8>, Seq<char>>(text@),
        },
{
    match ipld_core::cid::Cid::try_from(bytes) {
        Ok(cid) => Ok(cid.to_bytes()),
        Err(e) => Err(e.to_string()),
    }
}

/// The content identifier of a token.
#[derive(Debug)]
pub struct Cid {
    bytes: Vec<u8>,
}

impl View for Cid {
    type V = Seq<u8>;

    closed spec fn view(&self) -> Seq<u8> {
        self.bytes@
    }
}

/// Whether the bytes are those of an identifier.
pub open spec fn is_cid(bytes: Seq<u8>) -> bool {
    cid_reading(bytes) == Ok::<Seq<u8>, Seq<char>>(bytes)
}

impl Cid {
    #[verifier::type_invariant]
    pub open spec fn well_formed(&self) -> bool {
        is_cid(self@)
    }

    /// Reads an identifier.
    pub fn from_bytes(bytes: &[u8]) -> (r: Result<Self, String>)
        ensures
            match r {
                Ok(cid) => cid_reading(bytes@) == Ok::<Seq<u8>, Seq<char>>(cid@) && is_cid(cid@),
                Err(text) => cid_reading(bytes@) == Err::<Seq<u8>, Seq<char>>(text@),
            },
    {
        match read_cid(bytes) {
            Ok(bytes) => Ok(Cid { bytes }),
            Err(text) => Err(text),
        }
    }

    pub fn to_bytes(&self) -> (r: Vec<u8>)
        ensures
            r@ == self@,
            is_cid(r@),
    {
        proof {
            use_type_invariant(self);
        }
        copy_bytes(self.bytes.as_slice())
    }
}

impl Clone for Cid {
    fn clone(&self) -> (r: Self)
        ensures
            r@ == self@,
    {
        proof {
            use_type_invariant(self);
        }
        Cid { bytes: copy_bytes(self.bytes.as_slice()) }
    }
}

impl PartialEq for Cid {
    fn eq(&self, other: &Self) -> (r: bool) {
        bytes_equal(self.bytes.as_slice(), other.bytes.as_slice())
    }
}

impl vstd::std_specs::cmp::PartialEqSpecImpl for Cid {
    open spec fn obeys_eq_spec() -> bool {
        true
    }

    open spec fn eq_spec(&self, other: &Self) -> bool {
        self@ == other@
    }
}

/// The bytes of the identifiers.
pub open spec fn cid_views(cids: Seq<Cid>) -> Seq<Seq<u8>> {
    cids.map_values(|cid: Cid| cid@)
}

/// A copy of a list of identifiers.
pub fn copy_cids(cids: &[Cid]) -> (r: Vec<Cid>)
    ensures
        cid_views(r@) == cid_views(cids@),
{
    let mut out: Vec<Cid> = Vec::new();
    let mut i: usize = 0;
    while i < cids.len()
        invariant
            i <= cids.len(),
            out@.len() == i,
            forall|j: int| 0 <= j < i ==> (#[trigger] out@[j])@ == cids@[j]@,
        decreases cids.len() - i,
    {
        out.push(cids[i].clone());
        i += 1;
    }
    assert(cid_views(out@) =~= cid_views(cids@));
    out
}

// ---------------------------------------------------------------------------
// Delegations
// ---------------------------------------------------------------------------

/// The subject of a delegation: the principal whose resource is delegated.
#[derive(Clone, Copy, Debug)]
pub enum DelegatedSubject {
    /// This principal.
    Specific(Ed25519Did),
    /// Whichever principal the rest of the chain is about.
    Any,
}

impl DelegatedSubject {
    pub open spec fn spec_allows(self, did: Ed25519Did) -> bool {
        match self {
            DelegatedSubject::Specific(s) => s == did,
            DelegatedSubject::Any => true,
        }
    }

    /// Whether the subject can be this principal.
    pub fn allows(&self, did: &Ed25519Did) -> (r: bool)
        ensures
            r == self.spec_allows(*did),
    {
        match self {
            DelegatedSubject::Specific(s) => *s == *did,
            DelegatedSubject::Any => true,
        }
    }
}

/// What a delegation says.
pub struct DelegationView {
    pub issuer: Ed25519Did,
    pub audience: Ed25519Did,
    pub subject: DelegatedSubject,
    pub command: Seq<Seq<char>>,
    pub policy: Seq<PredicateView>,
    pub expiration: Option<u64>,
    pub not_before: Option<u64>,
    pub cid: Seq<u8>,
    pub signature_valid: bool,
    pub encoded: Seq<u8>,
}

/// A signed delegation: `issuer` lets `audience` use `command` on `subject`, as far
/// as `policy` goes.
#[derive(Debug)]
pub struct Delegation {
    pub issuer: Ed25519Did,
    pub audience: Ed25519Did,
    pub subject: DelegatedSubject,
    pub command: Command,
    pub policy: Vec<Predicate>,
    /// Seconds since the Unix epoch after which the delegation has expired.
    pub expiration: Option<u64>,
    /// Seconds since the Unix epoch before which the delegation is not valid.
    pub not_before: Option<u64>,
    /// The content identifier of the signed delegation.
    pub cid: Cid,
    /// Whether the signature is one of the issuer over the rest.
    pub signature_valid: bool,
    /// The signed delegation as it is stored and sent.
    pub encoded: Vec<u8>,
}

impl View for Delegation {
    type V = DelegationView;

    open spec fn view(&self) -> DelegationView {
        DelegationView {
            issuer: self.issuer,
            audience: self.audience,
            subject: self.subject,
            command: self.command@,
            policy: predicate_views(self.policy@),
            expiration: self.expiration,
            not_before: self.not_before,
            cid: self.cid@,
            signature_valid: self.signature_valid,
            encoded: self.encoded@,
        }
    }
}

impl Delegation {
    /// The content identifier.
    pub fn to_cid(&self) -> (r: Cid)
        ensures
            r@ == self@.cid,
    {
        self.cid.clone()
    }
}

impl Clone for Delegation {
    fn clone(&self) -> (r: Self)
        ensures
            r@ == self@,
    {
        Delegation {
            issuer: self.issuer,
            audience: self.audience,
            subject: self.subject,
            command: self.command.clone(),
            policy: copy_predicates(self.policy.as_slice()),
            expiration: self.expiration,
            not_before: self.not_before,
            cid: self.cid.clone(),
            signature_valid: self.signature_valid,
            encoded: copy_bytes(self.encoded.as_slice()),
        }
    }
}

/// What the delegations say.
pub open spec fn delegation_views(delegations: Seq<Delegation>) -> Seq<DelegationView> {
    delegations.map_values(|d: Delegation| d@)
}

/// The content identifiers of the delegations.
pub open spec fn delegation_cids(delegations: Seq<DelegationView>) -> Seq<Seq<u8>> {
    delegations.map_values(|d: DelegationView| d.cid)
}

/// A copy of a list of delegations.
pub fn copy_delegations(delegations: &[Delegation]) -> (r: Vec<Delegation>)
    ensures
        delegation_views(r@) == delegation_views(delegations@),
{
    let mut out: Vec<Delegation> = Vec::new();
    let mut i: usize = 0;
    while i < delegations.len()
        invariant
            i <= delegations.len(),
            out@.len() == i,
            forall|j: int| 0 <= j < i ==> (#[trigger] out@[j])@ == delegations@[j]@,
        decreases delegations.len() - i,
    {
        out.push(delegations[i].clone());
        i += 1;
    }
    assert(delegation_views(out@) =~= delegation_views(delegations@));
    out
}

/// What is to be signed as a delegation.
pub struct DelegationDraftView {
    pub secret: [u8; 32],
    pub issuer: Ed25519Did,
    pub audience: Ed25519Did,
    pub subject: DelegatedSubject,
    pub command: Seq<Seq<char>>,
    pub policy: Seq<PredicateView>,
}

/// A delegation that is to be signed, without bounds on its time.
#[derive(Debug)]
pub struct DelegationDraft {
    /// The secret key of the issuer.
    pub secret: [u8; 32],
    pub issuer: Ed25519Did,
    pub audience: Ed25519Did,
    pub subject: DelegatedSubject,
    pub command: Command,
    pub policy: Vec<Predicate>,
}

impl View for DelegationDraft {
    type V = DelegationDraftView;

    open spec fn view(&self) -> DelegationDraftView {
        DelegationDraftView {
            secret: self.secret,
            issuer: self.issuer,
            audience: self.audience,
            subject: self.subject,
            command: self.command@,
            policy: predicate_views(self.policy@),
        }
    }
}

/// What signing a delegation gave.
pub struct DelegationSealView {
    pub cid: Seq<u8>,
    pub signature_valid: bool,
    pub encoded: Seq<u8>,
}

/// What signing a delegation gives: the encoded token, its content identifier, and
/// whether its signature holds.
#[derive(Debug)]
pub struct DelegationSeal {
    pub cid: Cid,
    pub signature_valid: bool,
    pub encoded: Vec<u8>,
}

impl View for DelegationSeal {
    type V = DelegationSealView;

    open spec fn view(&self) -> DelegationSealView {
        DelegationSealView {
            cid: self.cid@,
            signature_valid: self.signature_valid,
            encoded: self.encoded@,
        }
    }
}

/// The delegation that a draft becomes when it is signed.
pub open spec fn sealed_delegation(
    draft: DelegationDraftView,
    seal: DelegationSealView,
) -> DelegationView {
    DelegationView {
        issuer: draft.issuer,
        audience: draft.audience,
        subject: draft.subject,
        command: draft.command,
        policy: draft.policy,
        expiration: None,
        not_before: None,
        cid: seal.cid,
        signature_valid: seal.signature_valid,
        encoded: seal.encoded,
    }
}

impl DelegationDraft {
    /// The delegation that this draft becomes when it is signed.
    pub fn seal(self, seal: DelegationSeal) -> (r: Delegation)
        ensures
            r@ == sealed_delegation(self@, seal@),
    {
        Delegation {
            issuer: self.issuer,
            audience: self.audience,
            subject: self.subject,
            command: self.command,
            policy: self.policy,
            expiration: None,
            not_before: None,
            cid: seal.cid,
            signature_valid: seal.signature_valid,
            encoded: seal.encoded,
        }
    }
}

// ---------------------------------------------------------------------------
// Invocations
// ---------------------------------------------------------------------------

/// The outcome of a check, with the text of the error where it failed.
pub open spec fn check_view(check: Result<(), String>) -> Result<(), Seq<char>> {
    match check {
        Ok(()) => Ok(()),
        Err(text) => Err(text@),
    }
}

/// A copy of the outcome of a check.
pub fn copy_check(check: &Result<(), String>) -> (r: Result<(), String>)
    ensures
        check_view(r) == check_view(*check),
{
    match check {
        Ok(()) => Ok(()),
        Err(text) => Err(text.clone()),
    }
}

/// What an invocation says.
pub struct InvocationView {
    pub issuer: Ed25519Did,
    pub audience: Ed25519Did,
    pub subject: Ed25519Did,
    pub command: Seq<Seq<char>>,
    pub arguments: Map<Seq<char>, PromisedView>,
    pub proofs: Seq<Seq<u8>>,
    pub signature: Result<(), Seq<char>>,
    pub encoded: Seq<u8>,
}

/// A signed invocation: `issuer` uses `command` on `subject`, as the delegations
/// named by `proofs` allow.
#[derive(Debug)]
pub struct Invocation {
    pub issuer: Ed25519Did,
    pub audience: Ed25519Did,
    pub subject: Ed25519Did,
    pub command: Command,
    pub arguments: Arguments,
    /// The content identifiers of the delegations, from the root on.
    pub proofs: Vec<Cid>,
    /// Whether the signature is one of the issuer over the rest.
    pub signature: Result<(), String>,
    /// The signed invocation as it is stored and sent.
    pub encoded: Vec<u8>,
}

impl View for Invocation {
    type V = InvocationView;

    open spec fn view(&self) -> InvocationView {
        InvocationView {
            issuer: self.issuer,
            audience: self.audience,
            subject: self.subject,
            command: self.command@,
            arguments: self.arguments@,
            proofs: cid_views(self.proofs@),
            signature: check_view(self.signature),
            encoded: self.encoded@,
        }
    }
}

impl Clone for Invocation {
    fn clone(&self) -> (r: Self)
        ensures
            r@ == self@,
    {
        Invocation {
            issuer: self.issuer,
            audience: self.audience,
            subject: self.subject,
            command: self.command.clone(),
            arguments: self.arguments.clone(),
            proofs: copy_cids(self.proofs.as_slice()),
            signature: copy_check(&self.signature),
            encoded: copy_bytes(self.encoded.as_slice()),
        }
    }
}

/// What is to be signed as an invocation.
pub struct InvocationDraftView {
    pub secret: [u8; 32],
    pub issuer: Ed25519Did,
    pub audience: Ed25519Did,
    pub subject: Ed25519Did,
    pub command: Seq<Seq<char>>,
    pub arguments: Map<Seq<char>, PromisedView>,
    pub proofs: Seq<Seq<u8>>,
}

/// An invocation that is to be signed.
#[derive(Debug)]
pub struct InvocationDraft {
    /// The secret key of the issuer.
    pub secret: [u8; 32],
    pub issuer: Ed25519Did,
    pub audience: Ed25519Did,
    pub subject: Ed25519Did,
    pub command: Command,
    pub arguments: Arguments,
    pub proofs: Vec<Cid>,
}

impl View for InvocationDraft {
    type V = InvocationDraftView;

    open spec fn view(&self) -> InvocationDraftView {
        InvocationDraftView {
            secret: self.secret,
            issuer: self.issuer,
            audience: self.audience,
            subject: self.subject,
            command: self.command@,
            arguments: self.arguments@,
            proofs: cid_views(self.proofs@),
        }
    }
}

/// What signing an invocation gave.
pub struct InvocationSealView {
    pub signature: Result<(), Seq<char>>,
    pub syntatic_checks: Result<(), Seq<char>>,
    pub encoded: Seq<u8>,
}

/// What signing an invocation gives: the encoded token, whether its signature
/// holds, and whether it stands up to the delegations that prove it.
#[derive(Debug)]
pub struct InvocationSeal {
    pub signature: Result<(), String>,
    /// The outcome of the syntactic checks of the invocation against its proofs.
    pub syntatic_checks: Result<(), String>,
    pub encoded: Vec<u8>,
}

impl View for InvocationSeal {
    type V = InvocationSealView;

    open spec fn view(&self) -> InvocationSealView {
        InvocationSealView {
            signature: check_view(self.signature),
            syntatic_checks: check_view(self.syntatic_checks),
            encoded: self.encoded@,
        }
    }
}

/// The invocation that a draft becomes when it is signed.
pub open spec fn sealed_invocation(
    draft: InvocationDraftView,
    seal: InvocationSealView,
) -> InvocationView {
    InvocationView {
        issuer: draft.issuer,
        audience: draft.audience,
        subject: draft.subject,
        command: draft.command,
        arguments: draft.arguments,
        proofs: draft.proofs,
        signature: seal.signature,
        encoded: seal.encoded,
    }
}

} // verus!
