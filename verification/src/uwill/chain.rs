//! Chains of delegations.
//!
//! [`UWillChainRaw`] is a list of delegations as it is stored and sent.
//! [`UWillChain`] is one that was found to be valid, with what follows from it.

use vstd::prelude::*;

use super::area_extract::{area_predicates, area_to_predicates, extract_willow_area, willow_area, AreaExtractError, AreaExtractErrorView};
use super::command::{command_segments, willow_command, WillowCommand};
use super::policy::PredicateView;
use super::ucan::{cid_views, command_text, copy_cids, copy_delegations, delegation_cids, delegation_views, sealed_delegation, Cid, DelegatedSubject, Delegation, DelegationDraft, DelegationDraftView, DelegationSeal, DelegationSealView, DelegationView, Ed25519Did};
use crate::proto::grouping::{Area, AreaView};
use crate::proto::keys::{derive_public_key, public_key_bytes, read_verifying_key, verifying_key_error, NamespaceId, NamespaceSecretKey, UserId, UserPublicKey, UserSecretKey};
use crate::proto::meadowcap::AccessMode;
use crate::text::{concat_text, decimal, decimal_text, zero_bytes};

verus! {

/// How far clocks may differ, in seconds, when the time of a delegation is checked.
pub const CLOCK_TOLERANCE_SECS: u64 = 60;

// ---------------------------------------------------------------------------
// Errors
// ---------------------------------------------------------------------------

/// Why delegations do not form a chain, or no chain could be made.
#[derive(Debug)]
pub enum ChainError {
    Empty,
    NoWillowCommand,
    AreaExtract(AreaExtractError),
    AreaWidening { step: usize },
    CommandWidening { parent: String, child: String },
    PrincipalMismatch { step: usize, next: usize },
    Expired,
    NotYetValid,
    CommunalNotSupported,
    NotWriteCapability,
    InvalidKey(String),
    DelegationBuild(String),
    InvalidSignature { step: usize },
    RootIssuerMismatch,
    SubjectMismatch { step: usize },
    NotImplemented(&'static str),
}

pub enum ChainErrorView {
    Empty,
    NoWillowCommand,
    AreaExtract(AreaExtractErrorView),
    AreaWidening { step: int },
    CommandWidening { parent: Seq<char>, child: Seq<char> },
    PrincipalMismatch { step: int, next: int },
    Expired,
    NotYetValid,
    CommunalNotSupported,
    NotWriteCapability,
    InvalidKey(Seq<char>),
    DelegationBuild(Seq<char>),
    InvalidSignature { step: int },
    RootIssuerMismatch,
    SubjectMismatch { step: int },
    NotImplemented(Seq<char>),
}

impl View for ChainError {
    type V = ChainErrorView;

    open spec fn view(&self) -> ChainErrorView {
        match self {
            ChainError::Empty => ChainErrorView::Empty,
            ChainError::NoWillowCommand => ChainErrorView::NoWillowCommand,
            ChainError::AreaExtract(e) => ChainErrorView::AreaExtract(e@),
            ChainError::AreaWidening { step } => ChainErrorView::AreaWidening { step: *step as int },
            ChainError::CommandWidening { parent, child } => ChainErrorView::CommandWidening {
                parent: parent@,
                child: child@,
            },
            ChainError::PrincipalMismatch { step, next } => ChainErrorView::PrincipalMismatch {
                step: *step as int,
                next: *next as int,
            },
            ChainError::Expired => ChainErrorView::Expired,
            ChainError::NotYetValid => ChainErrorView::NotYetValid,
            ChainError::CommunalNotSupported => ChainErrorView::CommunalNotSupported,
            ChainError::NotWriteCapability => ChainErrorView::NotWriteCapability,
            ChainError::InvalidKey(text) => ChainErrorView::InvalidKey(text@),
            ChainError::DelegationBuild(text) => ChainErrorView::DelegationBuild(text@),
            ChainError::InvalidSignature { step } => ChainErrorView::InvalidSignature {
                step: *step as int,
            },
            ChainError::RootIssuerMismatch => ChainErrorView::RootIssuerMismatch,
            ChainError::SubjectMismatch { step } => ChainErrorView::SubjectMismatch {
                step: *step as int,
            },
            ChainError::NotImplemented(text) => ChainErrorView::NotImplemented(text@),
        }
    }
}

impl ChainErrorView {
    /// The message of the error.
    pub open spec fn message(self) -> Seq<char> {
        match self {
            ChainErrorView::Empty => "empty delegation chain"@,
            ChainErrorView::NoWillowCommand => "no Willow command found in delegation"@,
            ChainErrorView::AreaExtract(e) => "area extraction failed: "@ + e.message(),
            ChainErrorView::AreaWidening { step } => "area widening detected at delegation step "@
                + decimal(step as nat),
            ChainErrorView::CommandWidening { parent, child } => "command widening: child command "@
                + child + " does not start with parent "@ + parent,
            ChainErrorView::PrincipalMismatch { step, next } => "principal misalignment: aud of step "@
                + decimal(step as nat) + " does not match iss of step "@ + decimal(next as nat),
            ChainErrorView::Expired => "chain expired"@,
            ChainErrorView::NotYetValid => "chain not yet valid"@,
            ChainErrorView::CommunalNotSupported => "communal namespaces not supported in UWill"@,
            ChainErrorView::NotWriteCapability => "not a write capability"@,
            ChainErrorView::InvalidKey(text) => "invalid key: "@ + text,
            ChainErrorView::DelegationBuild(text) => "delegation build failed: "@ + text,
            ChainErrorView::InvalidSignature { step } => "invalid delegation signature at step "@
                + decimal(step as nat),
            ChainErrorView::RootIssuerMismatch => "root delegation issuer does not match subject (namespace owner must sign root)"@,
            ChainErrorView::SubjectMismatch { step } => "subject mismatch at delegation step "@
                + decimal(step as nat),
            ChainErrorView::NotImplemented(text) => "not yet implemented: "@ + text,
        }
    }
}

impl ChainError {
    /// The message of the error.
    pub fn message(&self) -> (r: String)
        ensures
            r@ == self@.message(),
    {
        match self {
            ChainError::Empty => "empty delegation chain".to_owned(),
            ChainError::NoWillowCommand => "no Willow command found in delegation".to_owned(),
            ChainError::AreaExtract(e) => concat_text(
                "area extraction failed: ",
                e.message().as_str(),
            ),
            ChainError::AreaWidening { step } => concat_text(
                "area widening detected at delegation step ",
                decimal_text(*step).as_str(),
            ),
            ChainError::CommandWidening { parent, child } => concat_text(
                "command widening: child command ",
                child.as_str(),
            ).concat(" does not start with parent ").concat(parent.as_str()),
            ChainError::PrincipalMismatch { step, next } => concat_text(
                "principal misalignment: aud of step ",
                decimal_text(*step).as_str(),
            ).concat(" does not match iss of step ").concat(decimal_text(*next).as_str()),
            ChainError::Expired => "chain expired".to_owned(),
            ChainError::NotYetValid => "chain not yet valid".to_owned(),
            ChainError::CommunalNotSupported => {
                "communal namespaces not supported in UWill".to_owned()
            },
            ChainError::NotWriteCapability => "not a write capability".to_owned(),
            ChainError::InvalidKey(text) => concat_text("invalid key: ", text.as_str()),
            ChainError::DelegationBuild(text) => concat_text(
                "delegation build failed: ",
                text.as_str(),
            ),
            ChainError::InvalidSignature { step } => concat_text(
                "invalid delegation signature at step ",
                decimal_text(*step).as_str(),
            ),
            ChainError::RootIssuerMismatch => {
                "root delegation issuer does not match subject (namespace owner must sign root)".to_owned()
            },
            ChainError::SubjectMismatch { step } => concat_text(
                "subject mismatch at delegation step ",
                decimal_text(*step).as_str(),
            ),
            ChainError::NotImplemented(text) => concat_text("not yet implemented: ", text),
        }
    }
}

// ---------------------------------------------------------------------------
// When delegations form a chain
// ---------------------------------------------------------------------------

/// The first specific subject of the delegations from index `from` on.
pub open spec fn specific_subject(delegations: Seq<DelegationView>, from: int) -> Option<Ed25519Did>
    decreases delegations.len() - from,
{
    if from >= delegations.len() {
        None
    } else {
        match delegations[from].subject {
            DelegatedSubject::Specific(did) => Some(did),
            DelegatedSubject::Any => specific_subject(delegations, from + 1),
        }
    }
}

/// The index of the first delegation, from index `from` on, whose subject cannot be
/// `did`.
pub open spec fn first_other_subject(
    delegations: Seq<DelegationView>,
    did: Ed25519Did,
    from: int,
) -> Option<int>
    decreases delegations.len() - from,
{
    if from >= delegations.len() {
        None
    } else if !delegations[from].subject.spec_allows(did) {
        Some(from)
    } else {
        first_other_subject(delegations, did, from + 1)
    }
}

/// What is wrong with the subjects: the owner of the namespace signs the first
/// delegation, and all delegations are about one subject.
pub open spec fn subject_error(delegations: Seq<DelegationView>) -> Option<ChainErrorView> {
    if delegations[0].subject matches DelegatedSubject::Specific(did) && delegations[0].issuer
        != did {
        Some(ChainErrorView::RootIssuerMismatch)
    } else {
        match specific_subject(delegations, 0) {
            None => None,
            Some(did) => match first_other_subject(delegations, did, 0) {
                None => None,
                Some(step) => Some(ChainErrorView::SubjectMismatch { step }),
            },
        }
    }
}

/// What is wrong with the delegation at index `i`, where nothing is wrong with those
/// before it: its signature holds, its command is one of Willow's and narrows the
/// one before, its area narrows the one before, and its audience issues the next.
pub open spec fn step_error(delegations: Seq<DelegationView>, i: int) -> Option<ChainErrorView> {
    let d = delegations[i];
    if !d.signature_valid {
        Some(ChainErrorView::InvalidSignature { step: i })
    } else if willow_command(d.command) is None {
        Some(ChainErrorView::NoWillowCommand)
    } else if i > 0 && !delegations[i - 1].command.is_prefix_of(d.command) {
        Some(
            ChainErrorView::CommandWidening {
                parent: command_text(delegations[i - 1].command),
                child: command_text(d.command),
            },
        )
    } else {
        match willow_area(d.policy) {
            Err(e) => Some(ChainErrorView::AreaExtract(e)),
            Ok(area) => if i > 0 && !willow_area(delegations[i - 1].policy)->Ok_0.includes_area(
                area,
            ) {
                Some(ChainErrorView::AreaWidening { step: i })
            } else if i + 1 < delegations.len() && d.audience != delegations[i + 1].issuer {
                Some(ChainErrorView::PrincipalMismatch { step: i, next: i + 1 })
            } else {
                None
            },
        }
    }
}

/// What is wrong with the first delegation, from index `from` on, with which
/// something is wrong.
pub open spec fn first_step_error(
    delegations: Seq<DelegationView>,
    from: int,
) -> Option<ChainErrorView>
    decreases delegations.len() - from,
{
    if from >= delegations.len() {
        None
    } else {
        match step_error(delegations, from) {
            Some(e) => Some(e),
            None => first_step_error(delegations, from + 1),
        }
    }
}

/// A chain: its delegations, and the area and command of the last one.
pub struct ChainView {
    pub delegations: Seq<DelegationView>,
    pub area: AreaView,
    pub command: WillowCommand,
}

/// The chain that the delegations form, or what is wrong with them.
pub open spec fn chain_outcome(delegations: Seq<DelegationView>) -> Result<
    ChainView,
    ChainErrorView,
> {
    if delegations.len() == 0 {
        Err(ChainErrorView::Empty)
    } else {
        match subject_error(delegations) {
            Some(e) => Err(e),
            None => match first_step_error(delegations, 0) {
                Some(e) => Err(e),
                None => Ok(
                    ChainView {
                        delegations,
                        area: willow_area(delegations.last().policy)->Ok_0,
                        command: willow_command(delegations.last().command)->0,
                    },
                ),
            },
        }
    }
}

/// Whether delegations, area and command are those of a valid chain.
pub open spec fn is_chain(chain: ChainView) -> bool {
    chain_outcome(chain.delegations) == Ok::<ChainView, ChainErrorView>(chain)
}

impl ChainView {
    /// The user to whom the chain leads.
    pub open spec fn receiver(self) -> UserId {
        UserId { bytes: self.delegations.last().audience.bytes }
    }

    /// The namespace that the chain is about.
    pub open spec fn namespace(self) -> NamespaceId {
        match self.delegations[0].subject {
            DelegatedSubject::Specific(did) => NamespaceId { bytes: did.bytes },
            DelegatedSubject::Any => NamespaceId { bytes: zero_bytes() },
        }
    }

    /// The content identifiers of the delegations.
    pub open spec fn cids(self) -> Seq<Seq<u8>> {
        delegation_cids(self.delegations)
    }

    /// One of the delegations has expired, with tolerance for differing clocks.
    pub open spec fn expired(self, now_secs: int) -> bool {
        exists|i: int|
            0 <= i < self.delegations.len() && (#[trigger] self.delegations[i]).expiration is Some
                && now_secs > self.delegations[i].expiration->0 + CLOCK_TOLERANCE_SECS
    }

    /// One of the delegations is not valid yet, with tolerance for differing clocks.
    pub open spec fn not_yet_valid(self, now_secs: int) -> bool {
        exists|i: int|
            0 <= i < self.delegations.len() && (#[trigger] self.delegations[i]).not_before is Some
                && now_secs + CLOCK_TOLERANCE_SECS < self.delegations[i].not_before->0
    }

    /// Whether two chains give the same user the same command over the same area of
    /// the same namespace.
    pub open spec fn same_capability(self, other: ChainView) -> bool {
        &&& self.namespace() == other.namespace()
        &&& self.receiver() == other.receiver()
        &&& self.area == other.area
        &&& self.command == other.command
    }
}

/// The outcome of making a chain.
pub open spec fn chain_result(r: Result<UWillChain, ChainError>) -> Result<
    ChainView,
    ChainErrorView,
> {
    match r {
        Ok(chain) => Ok(chain@),
        Err(e) => Err(e@),
    }
}

// ---------------------------------------------------------------------------
// Raw chains
// ---------------------------------------------------------------------------

/// Delegations of which nothing is known yet.
#[derive(Debug)]
pub struct UWillChainRaw {
    delegations: Vec<Delegation>,
}

impl View for UWillChainRaw {
    type V = Seq<DelegationView>;

    closed spec fn view(&self) -> Seq<DelegationView> {
        delegation_views(self.delegations@)
    }
}

impl Clone for UWillChainRaw {
    fn clone(&self) -> (r: Self)
        ensures
            r@ == self@,
    {
        UWillChainRaw { delegations: copy_delegations(self.delegations.as_slice()) }
    }
}

impl UWillChainRaw {
    pub fn from_delegations(delegations: Vec<Delegation>) -> (r: Self)
        ensures
            r@ == delegation_views(delegations@),
    {
        UWillChainRaw { delegations }
    }

    pub fn delegations(&self) -> (r: &[Delegation])
        ensures
            delegation_views(r@) == self@,
    {
        self.delegations.as_slice()
    }
}

// ---------------------------------------------------------------------------
// Chains
// ---------------------------------------------------------------------------

/// A valid chain of delegations.
#[derive(Debug)]
pub struct UWillChain {
    inner: UWillChainRaw,
    area: Area,
    command: WillowCommand,
    cids: Vec<Cid>,
    receiver_pk: Option<UserPublicKey>,
}

impl View for UWillChain {
    type V = ChainView;

    closed spec fn view(&self) -> ChainView {
        ChainView { delegations: self.inner@, area: self.area@, command: self.command }
    }
}

impl UWillChain {
    /// The delegations form a chain, and what is kept beside them follows from them.
    #[verifier::type_invariant]
    pub closed spec fn valid(&self) -> bool {
        &&& is_chain(self@)
        &&& cid_views(self.cids@) == self@.cids()
        &&& match self.receiver_pk {
            Some(key) => key@ == self@.receiver() && verifying_key_error(
                self@.receiver().bytes@,
            ) is None,
            None => verifying_key_error(self@.receiver().bytes@) is Some,
        }
    }

    /// Makes a chain of delegations, if they form one.
    ///
    /// The time of the delegations is not looked at.
    pub fn from_chain(chain: UWillChainRaw) -> (r: Result<Self, ChainError>)
        ensures
            chain_result(r) == chain_outcome(chain@),
    {
        let delegations = &chain.delegations;
        let ghost views = chain@;
        let count: usize = delegations.len();
        if count == 0 {
            return Err(ChainError::Empty);
        }
        match check_subjects(delegations) {
            Ok(()) => {},
            Err(e) => {
                return Err(e);
            },
        }
        let mut cids: Vec<Cid> = Vec::new();
        let mut area = match check_step(delegations, 0, None) {
            Ok(area) => area,
            Err(e) => {
                return Err(e);
            },
        };
        cids.push(delegations[0].to_cid());
        let mut i: usize = 1;
        while i < count
            invariant
                1 <= i <= count,
                count == delegations@.len(),
                *delegations == chain.delegations,
                views == delegation_views(delegations@),
                views == chain@,
                subject_error(views) is None,
                first_step_error(views, 0) == first_step_error(views, i as int),
                step_error(views, i - 1) is None,
                willow_area(views[i - 1].policy) == Ok::<AreaView, AreaExtractErrorView>(area@),
                cids@.len() == i,
                forall|j: int| 0 <= j < i ==> (#[trigger] cids@[j])@ == views[j].cid,
            decreases count - i,
        {
            match check_step(delegations, i, Some(&area)) {
                Ok(next) => {
                    area = next;
                },
                Err(e) => {
                    return Err(e);
                },
            }
            cids.push(delegations[i].to_cid());
            i += 1;
        }
        let leaf = &delegations[count - 1];
        proof {
            assert(leaf@ == views.last());
            assert(willow_command(views.last().command) is Some);
            assert(cid_views(cids@) =~= delegation_cids(views));
        }
        let command = match WillowCommand::from_ucan_command(&leaf.command) {
            Some(command) => command,
            None => {
                return Err(ChainError::NoWillowCommand);
            },
        };
        let receiver_pk = match ed25519_did_to_user_id(&leaf.audience).into_public_key() {
            Ok(key) => Some(key),
            Err(_) => None,
        };
        Ok(UWillChain { inner: chain, area, command, cids, receiver_pk })
    }

    /// Makes a chain of a single delegation.
    pub fn from_single(delegation: Delegation) -> (r: Result<Self, ChainError>)
        ensures
            chain_result(r) == chain_outcome(seq![delegation@]),
    {
        let mut delegations: Vec<Delegation> = Vec::new();
        delegations.push(delegation);
        assert(delegation_views(delegations@) =~= seq![delegation@]);
        Self::from_chain(UWillChainRaw { delegations })
    }
}

/// Checks the subjects of delegations.
fn check_subjects(delegations: &[Delegation]) -> (r: Result<(), ChainError>)
    requires
        delegations@.len() > 0,
    ensures
        match r {
            Ok(()) => subject_error(delegation_views(delegations@)) is None,
            Err(e) => subject_error(delegation_views(delegations@)) == Some(e@),
        },
{
    let ghost views = delegation_views(delegations@);
    let root = &delegations[0];
    assert(views[0] == root@);
    if let DelegatedSubject::Specific(subject_did) = &root.subject {
        if root.issuer != *subject_did {
            return Err(ChainError::RootIssuerMismatch);
        }
    }
    let mut found: Option<Ed25519Did> = None;
    let mut i: usize = 0;
    while i < delegations.len() && found.is_none()
        invariant
            i <= delegations.len(),
            views == delegation_views(delegations@),
            match found {
                Some(did) => specific_subject(views, 0) == Some(did),
                None => specific_subject(views, 0) == specific_subject(views, i as int),
            },
        decreases delegations.len() - i,
    {
        assert(views[i as int] == delegations@[i as int]@);
        if let DelegatedSubject::Specific(did) = &delegations[i].subject {
            found = Some(*did);
        }
        i += 1;
    }
    if let Some(expected_did) = found {
        let mut j: usize = 0;
        while j < delegations.len()
            invariant
                j <= delegations.len(),
                views == delegation_views(delegations@),
                views[0].subject matches DelegatedSubject::Specific(did) ==> views[0].issuer == did,
                specific_subject(views, 0) == Some(expected_did),
                first_other_subject(views, expected_did, 0) == first_other_subject(
                    views,
                    expected_did,
                    j as int,
                ),
            decreases delegations.len() - j,
        {
            assert(views[j as int] == delegations@[j as int]@);
            if !delegations[j].subject.allows(&expected_did) {
                return Err(ChainError::SubjectMismatch { step: j });
            }
            j += 1;
        }
    }
    Ok(())
}

/// Checks the delegation at index `i` and gives its area; `prev` is the area of the
/// delegation before it.
fn check_step(delegations: &[Delegation], i: usize, prev: Option<&Area>) -> (r: Result<
    Area,
    ChainError,
>)
    requires
        i < delegations@.len(),
        i == 0 <==> prev is None,
        prev matches Some(area) ==> willow_area(delegation_views(delegations@)[i - 1].policy)
            == Ok::<AreaView, AreaExtractErrorView>(area@),
    ensures
        match r {
            Ok(area) => step_error(delegation_views(delegations@), i as int) is None
                && willow_area(delegation_views(delegations@)[i as int].policy) == Ok::<
                AreaView,
                AreaExtractErrorView,
            >(area@),
            Err(e) => step_error(delegation_views(delegations@), i as int) == Some(e@),
        },
{
    let ghost views = delegation_views(delegations@);
    let d = &delegations[i];
    assert(views[i as int] == d@);
    if !d.signature_valid {
        return Err(ChainError::InvalidSignature { step: i });
    }
    if WillowCommand::from_ucan_command(&d.command).is_none() {
        return Err(ChainError::NoWillowCommand);
    }
    if i > 0 {
        let parent = &delegations[i - 1].command;
        assert(views[i - 1] == delegations@[i - 1]@);
        if !d.command.starts_with(parent) {
            return Err(
                ChainError::CommandWidening { parent: parent.to_text(), child: d.command.to_text() },
            );
        }
    }
    let area = match extract_willow_area(d.policy.as_slice()) {
        Ok(area) => area,
        Err(e) => {
            return Err(ChainError::AreaExtract(e));
        },
    };
    if let Some(prev) = prev {
        if !prev.includes_area(&area) {
            return Err(ChainError::AreaWidening { step: i });
        }
    }
    if i < delegations.len() - 1 {
        let next = &delegations[i + 1];
        assert(views[i + 1] == next@);
        if d.audience != next.issuer {
            return Err(ChainError::PrincipalMismatch { step: i, next: i + 1 });
        }
    }
    Ok(area)
}

// ---------------------------------------------------------------------------
// Making capabilities
// ---------------------------------------------------------------------------

/// What signing a delegation gave, or the text of the error.
pub open spec fn seal_result(reply: Result<DelegationSeal, String>) -> Result<
    DelegationSealView,
    Seq<char>,
> {
    match reply {
        Ok(seal) => Ok(seal@),
        Err(text) => Err(text@),
    }
}

/// The delegation by which the owner of a namespace gives a user a command over all
/// of the namespace.
pub open spec fn root_draft_outcome(
    namespace_id: NamespaceId,
    namespace_secret: NamespaceSecretKey,
    user_id: UserId,
    command: WillowCommand,
) -> Result<DelegationDraftView, ChainErrorView> {
    if verifying_key_error(user_id.bytes@) is Some {
        Err(ChainErrorView::InvalidKey(verifying_key_error(user_id.bytes@)->0))
    } else if verifying_key_error(namespace_id.bytes@) is Some {
        Err(ChainErrorView::InvalidKey(verifying_key_error(namespace_id.bytes@)->0))
    } else {
        Ok(
            DelegationDraftView {
                secret: namespace_secret.bytes,
                issuer: Ed25519Did { bytes: public_key_bytes(namespace_secret.bytes) },
                audience: Ed25519Did { bytes: user_id.bytes },
                subject: DelegatedSubject::Specific(Ed25519Did { bytes: namespace_id.bytes }),
                command: command_segments(command),
                policy: seq![],
            },
        )
    }
}

/// The delegation by which the holder of a chain gives another user its command over
/// an area.
pub open spec fn next_draft_outcome(
    chain: ChainView,
    user_secret: UserSecretKey,
    new_user: UserId,
    new_area: AreaView,
) -> Result<DelegationDraftView, ChainErrorView> {
    if verifying_key_error(new_user.bytes@) is Some {
        Err(ChainErrorView::InvalidKey(verifying_key_error(new_user.bytes@)->0))
    } else {
        Ok(
            DelegationDraftView {
                secret: user_secret.bytes,
                issuer: Ed25519Did { bytes: public_key_bytes(user_secret.bytes) },
                audience: Ed25519Did { bytes: new_user.bytes },
                subject: chain.delegations[0].subject,
                command: command_segments(chain.command),
                policy: area_predicates(new_area),
            },
        )
    }
}

/// The chain of `delegations` and a further one, given what signing it gave.
pub open spec fn extension_outcome(
    delegations: Seq<DelegationView>,
    draft: DelegationDraftView,
    reply: Result<DelegationSealView, Seq<char>>,
) -> Result<ChainView, ChainErrorView> {
    match reply {
        Err(text) => Err(ChainErrorView::DelegationBuild(text)),
        Ok(seal) => chain_outcome(delegations.push(sealed_delegation(draft, seal))),
    }
}

/// Whether `outcome` comes of `sign` having been called with the draft: it is the
/// chain of `delegations` and of what `sign` made of the draft. Where there is no
/// draft, `sign` is not called.
pub open spec fn signed_extension<F: Fn(&DelegationDraft) -> Result<DelegationSeal, String>>(
    sign: F,
    delegations: Seq<DelegationView>,
    draft: Result<DelegationDraftView, ChainErrorView>,
    outcome: Result<ChainView, ChainErrorView>,
) -> bool {
    match draft {
        Err(e) => outcome == Err::<ChainView, ChainErrorView>(e),
        Ok(view) => exists|d: DelegationDraft, reply: Result<DelegationSeal, String>|
            {
                &&& d@ == view
                &&& #[trigger] call_ensures(sign, (&d,), reply)
                &&& outcome == extension_outcome(delegations, view, seal_result(reply))
            },
    }
}

/// Whether `sign` takes every draft.
pub open spec fn signs_all<F: Fn(&DelegationDraft) -> Result<DelegationSeal, String>>(
    sign: F,
) -> bool {
    forall|d: DelegationDraft| #[trigger] call_requires(sign, (&d,))
}

impl UWillChain {
    /// The delegation that is to be signed for a chain from the owner of a namespace
    /// to a user.
    pub fn root_draft(
        namespace_id: NamespaceId,
        namespace_secret: &NamespaceSecretKey,
        user_id: UserId,
        command: WillowCommand,
    ) -> (r: Result<DelegationDraft, ChainError>)
        ensures
            match r {
                Ok(draft) => root_draft_outcome(
                    namespace_id,
                    *namespace_secret,
                    user_id,
                    command,
                ) == Ok::<DelegationDraftView, ChainErrorView>(draft@),
                Err(e) => root_draft_outcome(namespace_id, *namespace_secret, user_id, command)
                    == Err::<DelegationDraftView, ChainErrorView>(e@),
            },
    {
        let audience = match user_id_to_ed25519_did(&user_id) {
            Ok(did) => did,
            Err(text) => {
                return Err(ChainError::InvalidKey(text));
            },
        };
        let namespace_did = match namespace_id_to_ed25519_did(&namespace_id) {
            Ok(did) => did,
            Err(text) => {
                return Err(ChainError::InvalidKey(text));
            },
        };
        let draft = DelegationDraft {
            secret: namespace_secret.to_bytes(),
            issuer: Ed25519Did { bytes: derive_public_key(&namespace_secret.bytes) },
            audience,
            subject: DelegatedSubject::Specific(namespace_did),
            command: command.to_ucan_command(),
            policy: Vec::new(),
        };
        assert(draft@.policy =~= Seq::<PredicateView>::empty());
        Ok(draft)
    }

    /// The delegation that is to be signed for this chain to lead to another user.
    pub fn next_draft(&self, user_secret: &UserSecretKey, new_user: &UserId, new_area: &Area) -> (r:
        Result<DelegationDraft, ChainError>)
        ensures
            match r {
                Ok(draft) => next_draft_outcome(self@, *user_secret, *new_user, new_area@) == Ok::<
                    DelegationDraftView,
                    ChainErrorView,
                >(draft@),
                Err(e) => next_draft_outcome(self@, *user_secret, *new_user, new_area@) == Err::<
                    DelegationDraftView,
                    ChainErrorView,
                >(e@),
            },
    {
        proof {
            use_type_invariant(self);
        }
        let audience = match user_id_to_ed25519_did(new_user) {
            Ok(did) => did,
            Err(text) => {
                return Err(ChainError::InvalidKey(text));
            },
        };
        assert(self.inner.delegations@[0]@ == self@.delegations[0]);
        let root = &self.inner.delegations[0];
        let draft = DelegationDraft {
            secret: user_secret.to_bytes(),
            issuer: Ed25519Did { bytes: derive_public_key(&user_secret.bytes) },
            audience,
            subject: root.subject,
            command: self.command.to_ucan_command(),
            policy: area_to_predicates(new_area),
        };
        Ok(draft)
    }

    /// The chain of the delegations and a further one, given what signing it gave.
    pub fn extend(
        delegations: UWillChainRaw,
        draft: DelegationDraft,
        reply: Result<DelegationSeal, String>,
    ) -> (r: Result<Self, ChainError>)
        ensures
            chain_result(r) == extension_outcome(delegations@, draft@, seal_result(reply)),
    {
        match reply {
            Ok(seal) => {
                let ghost before = delegations@;
                let ghost next = sealed_delegation(draft@, seal@);
                let mut all = delegations.delegations;
                all.push(draft.seal(seal));
                assert(delegation_views(all@) =~= before.push(next));
                Self::from_chain(UWillChainRaw { delegations: all })
            },
            Err(text) => Err(ChainError::DelegationBuild(text)),
        }
    }

    /// A chain from the owner of a namespace to a user, signed by `sign`.
    pub fn build_root_delegation<F: Fn(&DelegationDraft) -> Result<DelegationSeal, String>>(
        namespace_id: NamespaceId,
        namespace_secret: &NamespaceSecretKey,
        user_id: UserId,
        command: WillowCommand,
        sign: &F,
    ) -> (r: Result<Self, ChainError>)
        requires
            signs_all(*sign),
        ensures
            signed_extension(
                *sign,
                seq![],
                root_draft_outcome(namespace_id, *namespace_secret, user_id, command),
                chain_result(r),
            ),
    {
        let draft = match Self::root_draft(namespace_id, namespace_secret, user_id, command) {
            Ok(draft) => draft,
            Err(e) => {
                return Err(e);
            },
        };
        let reply = sign(&draft);
        let none = UWillChainRaw { delegations: Vec::new() };
        assert(none@ =~= Seq::<DelegationView>::empty());
        Self::extend(none, draft, reply)
    }

    /// A capability of a user to read or to write all of a namespace.
    pub fn new_owned<F: Fn(&DelegationDraft) -> Result<DelegationSeal, String>>(
        namespace_id: NamespaceId,
        namespace_secret: &NamespaceSecretKey,
        user_id: UserId,
        access_mode: AccessMode,
        sign: &F,
    ) -> (r: Result<Self, ChainError>)
        requires
            signs_all(*sign),
        ensures
            signed_extension(
                *sign,
                seq![],
                root_draft_outcome(
                    namespace_id,
                    *namespace_secret,
                    user_id,
                    match access_mode {
                        AccessMode::Read => WillowCommand::Read,
                        AccessMode::Write => WillowCommand::Write,
                    },
                ),
                chain_result(r),
            ),
    {
        let command = match access_mode {
            AccessMode::Read => WillowCommand::Read,
            AccessMode::Write => WillowCommand::Write,
        };
        Self::build_root_delegation(namespace_id, namespace_secret, user_id, command, sign)
    }

    /// A proof that a user is a member of a namespace, which gives no access to data.
    pub fn new_enumerate<F: Fn(&DelegationDraft) -> Result<DelegationSeal, String>>(
        namespace_id: NamespaceId,
        namespace_secret: &NamespaceSecretKey,
        user_id: UserId,
        sign: &F,
    ) -> (r: Result<Self, ChainError>)
        requires
            signs_all(*sign),
        ensures
            signed_extension(
                *sign,
                seq![],
                root_draft_outcome(
                    namespace_id,
                    *namespace_secret,
                    user_id,
                    WillowCommand::Enumerate,
                ),
                chain_result(r),
            ),
    {
        Self::build_root_delegation(
            namespace_id,
            namespace_secret,
            user_id,
            WillowCommand::Enumerate,
            sign,
        )
    }

    /// Communal namespaces have no owner who could sign, so there is no such chain.
    pub fn new_communal(
        _namespace_id: NamespaceId,
        _user_id: UserId,
        _access_mode: AccessMode,
    ) -> (r: Result<Self, ChainError>)
        ensures
            chain_result(r) == Err::<ChainView, ChainErrorView>(
                ChainErrorView::CommunalNotSupported,
            ),
    {
        Err(ChainError::CommunalNotSupported)
    }

    /// Gives another user this capability over an area.
    pub fn delegate<F: Fn(&DelegationDraft) -> Result<DelegationSeal, String>>(
        &self,
        user_secret: &UserSecretKey,
        new_user: &UserId,
        new_area: &Area,
        sign: &F,
    ) -> (r: Result<Self, ChainError>)
        requires
            signs_all(*sign),
        ensures
            signed_extension(
                *sign,
                self@.delegations,
                next_draft_outcome(self@, *user_secret, *new_user, new_area@),
                chain_result(r),
            ),
    {
        let draft = match self.next_draft(user_secret, new_user, new_area) {
            Ok(draft) => draft,
            Err(e) => {
                return Err(e);
            },
        };
        let reply = sign(&draft);
        Self::extend(self.inner.clone(), draft, reply)
    }
}

// ---------------------------------------------------------------------------
// What a chain says
// ---------------------------------------------------------------------------

impl UWillChain {
    /// The delegations, as they are stored and sent.
    pub fn chain(&self) -> (r: &UWillChainRaw)
        ensures
            r@ == self@.delegations,
    {
        &self.inner
    }

    /// The delegations, as they are stored and sent.
    pub fn into_chain(self) -> (r: UWillChainRaw)
        ensures
            r@ == self@.delegations,
    {
        self.inner
    }

    pub fn delegations(&self) -> (r: &[Delegation])
        ensures
            delegation_views(r@) == self@.delegations,
            r@.len() == self@.delegations.len(),
            r@.len() > 0,
            is_chain(self@),
    {
        proof {
            use_type_invariant(self);
        }
        self.inner.delegations()
    }

    /// The user to whom the chain leads.
    pub fn receiver(&self) -> (r: UserId)
        ensures
            r == self@.receiver(),
    {
        let delegations = self.delegations();
        let leaf = &delegations[delegations.len() - 1];
        assert(leaf@ == self@.delegations.last());
        ed25519_did_to_user_id(&leaf.audience)
    }

    /// The public key of the user to whom the chain leads, where its bytes are those
    /// of one.
    pub fn receiver_public_key(&self) -> (r: Option<&UserPublicKey>)
        ensures
            match r {
                Some(key) => key@ == self@.receiver() && verifying_key_error(
                    self@.receiver().bytes@,
                ) is None,
                None => verifying_key_error(self@.receiver().bytes@) is Some,
            },
    {
        proof {
            use_type_invariant(self);
        }
        self.receiver_pk.as_ref()
    }

    /// The namespace that the chain is about.
    pub fn granted_namespace(&self) -> (r: NamespaceId)
        ensures
            r == self@.namespace(),
    {
        let delegations = self.delegations();
        let root = &delegations[0];
        assert(root@ == self@.delegations[0]);
        match &root.subject {
            DelegatedSubject::Specific(did) => ed25519_did_to_namespace_id(did),
            DelegatedSubject::Any => NamespaceId { bytes: [0; 32] },
        }
    }

    /// The area that the chain gives access to.
    pub fn granted_area(&self) -> (r: &Area)
        ensures
            r@ == self@.area,
    {
        &self.area
    }

    pub fn access_mode(&self) -> (r: AccessMode)
        ensures
            r == self@.command.spec_access_mode(),
    {
        self.command.access_mode()
    }

    pub fn command(&self) -> (r: WillowCommand)
        ensures
            r == self@.command,
    {
        self.command
    }

    pub fn proves_read(&self) -> (r: bool)
        ensures
            r == self@.command.spec_proves_read(),
    {
        self.command.proves_read()
    }

    pub fn proves_write(&self) -> (r: bool)
        ensures
            r == self@.command.spec_proves_write(),
    {
        self.command.proves_write()
    }

    pub fn proves_enumerate(&self) -> (r: bool)
        ensures
            r == self@.command.spec_proves_enumerate(),
    {
        self.command.proves_enumerate()
    }

    /// The content identifiers of the delegations.
    pub fn delegation_cids(&self) -> (r: &[Cid])
        ensures
            cid_views(r@) == self@.cids(),
    {
        proof {
            use_type_invariant(self);
        }
        self.cids.as_slice()
    }

    /// Whether one of the delegations has expired.
    pub fn is_expired(&self, now_secs: u64) -> (r: bool)
        ensures
            r == self@.expired(now_secs as int),
    {
        let delegations = self.delegations();
        let ghost views = self@.delegations;
        let mut i: usize = 0;
        while i < delegations.len()
            invariant
                i <= delegations.len(),
                views == delegation_views(delegations@),
                views == self@.delegations,
                forall|j: int|
                    0 <= j < i && (#[trigger] views[j]).expiration is Some ==> now_secs
                        <= views[j].expiration->0 + CLOCK_TOLERANCE_SECS,
            decreases delegations.len() - i,
        {
            let d = &delegations[i];
            assert(views[i as int] == d@);
            if let Some(exp_secs) = d.expiration {
                if now_secs > exp_secs.saturating_add(CLOCK_TOLERANCE_SECS) {
                    assert(self@.delegations[i as int].expiration is Some);
                    return true;
                }
            }
            i += 1;
        }
        false
    }

    /// Whether one of the delegations is not valid yet, with tolerance for differing clocks.
    pub fn is_not_yet_valid(&self, now_secs: u64) -> (r: bool)
        ensures
            r == self@.not_yet_valid(now_secs as int),
    {
        let delegations = self.delegations();
        let ghost views = self@.delegations;
        let mut i: usize = 0;
        while i < delegations.len()
            invariant
                i <= delegations.len(),
                views == delegation_views(delegations@),
                views == self@.delegations,
                forall|j: int|
                    0 <= j < i && (#[trigger] views[j]).not_before is Some ==> now_secs
                        + CLOCK_TOLERANCE_SECS >= views[j].not_before->0,
            decreases delegations.len() - i,
        {
            let d = &delegations[i];
            assert(views[i as int] == d@);
            if let Some(nbf_secs) = d.not_before {
                if now_secs.saturating_add(CLOCK_TOLERANCE_SECS) < nbf_secs {
                    assert(self@.delegations[i as int].not_before is Some);
                    return true;
                }
            }
            i += 1;
        }
        false
    }
}

impl Clone for UWillChain {
    fn clone(&self) -> (r: Self)
        ensures
            r@ == self@,
    {
        proof {
            use_type_invariant(self);
        }
        UWillChain {
            inner: self.inner.clone(),
            area: self.area.clone(),
            command: self.command,
            cids: copy_cids(self.cids.as_slice()),
            receiver_pk: self.receiver_pk,
        }
    }
}

impl PartialEq for UWillChain {
    fn eq(&self, other: &Self) -> (r: bool) {
        self.granted_namespace() == other.granted_namespace() && self.receiver()
            == other.receiver() && self.area == other.area && self.command == other.command
    }
}

impl Eq for UWillChain {

}

impl vstd::std_specs::cmp::PartialEqSpecImpl for UWillChain {
    open spec fn obeys_eq_spec() -> bool {
        true
    }

    open spec fn eq_spec(&self, other: &Self) -> bool {
        self@.same_capability(other@)
    }
}

// ---------------------------------------------------------------------------
// Principals and keys
// ---------------------------------------------------------------------------

/// The user whose key the principal is.
pub fn ed25519_did_to_user_id(did: &Ed25519Did) -> (r: UserId)
    ensures
        r == (UserId { bytes: did.bytes }),
{
    UserId { bytes: did.bytes }
}

/// The namespace whose key the principal is.
pub fn ed25519_did_to_namespace_id(did: &Ed25519Did) -> (r: NamespaceId)
    ensures
        r == (NamespaceId { bytes: did.bytes }),
{
    NamespaceId { bytes: did.bytes }
}

/// The principal of a user, where its identifier is a public key.
pub fn user_id_to_ed25519_did(id: &UserId) -> (r: Result<Ed25519Did, String>)
    ensures
        match r {
            Ok(did) => verifying_key_error(id.bytes@) is None && did.bytes == id.bytes,
            Err(text) => verifying_key_error(id.bytes@) == Some(text@),
        },
{
    match read_verifying_key(id.as_bytes()) {
        Ok(bytes) => Ok(Ed25519Did { bytes }),
        Err(text) => Err(text),
    }
}

/// The principal of a namespace, where its identifier is a public key.
pub fn namespace_id_to_ed25519_did(id: &NamespaceId) -> (r: Result<Ed25519Did, String>)
    ensures
        match r {
            Ok(did) => verifying_key_error(id.bytes@) is None && did.bytes == id.bytes,
            Err(text) => verifying_key_error(id.bytes@) == Some(text@),
        },
{
    match read_verifying_key(id.as_bytes()) {
        Ok(bytes) => Ok(Ed25519Did { bytes }),
        Err(text) => Err(text),
    }
}

} // verus!
