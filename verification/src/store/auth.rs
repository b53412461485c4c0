//! The capabilities of a node: importing, creating and delegating them, and applying
//! revocations.
//!
//! What a storage backend answers is not known here. The contracts say what comes of
//! every answer.

use vstd::prelude::*;

use super::traits::{deleted, CapsStorage, PackSet, RevocationStorage, SecretStorage, SecretStoreError, Storage};
use crate::interest::{pack_views, restricted, selected_areas, widest, with_interest, AreaOfInterestSelector, CapSelector, CapabilityKey, CapabilityPack, CapabilityPackView, DelegateTo, InterestMap, InterestView, Interests, InvalidCapabilityPack, RestrictArea};
use crate::proto::grouping::{Area, AreaView};
use crate::proto::keys::{NamespaceId, NamespaceSecretKey, UserId, UserSecretKey};
use crate::proto::meadowcap::{owned_read_outcome, read_result, AccessMode, FailedDelegationError, McCapability, ReadAuthorisation, ReadAuthorisationView, WriteCapability};
use crate::uwill::chain::{chain_result, next_draft_outcome, root_draft_outcome, signed_extension, signs_all, ChainError, ChainErrorView, ChainView};
use crate::uwill::invocation::{clock_gave, current_time, UWillInvocationView};
use crate::uwill::invocation_facts::law_revoking_iff;
use crate::uwill::revocation::chain_revoked;
use crate::uwill::ucan::{cid_reading, DelegationDraft, DelegationSeal};
use crate::uwill::{UWillChain, UWillInvocation, WillowCommand};

verus! {

// ---------------------------------------------------------------------------
// Errors
// ---------------------------------------------------------------------------

/// Why something could not be done with a capability.
#[derive(Debug)]
pub enum AuthError {
    MissingUserSecret(UserId),
    MissingNamespaceSecret(NamespaceId),
    SecretStore(SecretStoreError),
    NoCapability,
    Other(String),
    InvalidPack(InvalidCapabilityPack),
    DelegationFailed(FailedDelegationError),
    ChainError(ChainError),
    Revoked,
    InvalidRevocation(String),
}

pub enum AuthErrorView {
    MissingUserSecret(UserId),
    MissingNamespaceSecret(NamespaceId),
    SecretStore(Seq<char>),
    NoCapability,
    Other(Seq<char>),
    InvalidPack(InvalidCapabilityPack),
    DelegationFailed(FailedDelegationError),
    ChainError(ChainErrorView),
    Revoked,
    InvalidRevocation(Seq<char>),
}

impl View for AuthError {
    type V = AuthErrorView;

    open spec fn view(&self) -> AuthErrorView {
        match self {
            AuthError::MissingUserSecret(id) => AuthErrorView::MissingUserSecret(*id),
            AuthError::MissingNamespaceSecret(id) => AuthErrorView::MissingNamespaceSecret(*id),
            AuthError::SecretStore(e) => AuthErrorView::SecretStore(e.text@),
            AuthError::NoCapability => AuthErrorView::NoCapability,
            AuthError::Other(text) => AuthErrorView::Other(text@),
            AuthError::InvalidPack(e) => AuthErrorView::InvalidPack(*e),
            AuthError::DelegationFailed(e) => AuthErrorView::DelegationFailed(*e),
            AuthError::ChainError(e) => AuthErrorView::ChainError(e@),
            AuthError::Revoked => AuthErrorView::Revoked,
            AuthError::InvalidRevocation(text) => AuthErrorView::InvalidRevocation(text@),
        }
    }
}

/// The outcome of something that gives nothing.
pub open spec fn done_result(r: Result<(), AuthError>) -> Result<(), AuthErrorView> {
    match r {
        Ok(()) => Ok(()),
        Err(e) => Err(e@),
    }
}

/// The outcome of something that gives a pack.
pub open spec fn pack_result(r: Result<CapabilityPack, AuthError>) -> Result<
    CapabilityPackView,
    AuthErrorView,
> {
    match r {
        Ok(pack) => Ok(pack@),
        Err(e) => Err(e@),
    }
}

/// Whether `r` passes on what the storage answered.
pub open spec fn passes_on<T>(reply: Result<T, String>, r: Result<T, AuthError>) -> bool {
    match (reply, r) {
        (Ok(a), Ok(b)) => a == b,
        (Err(text), Err(e)) => e@ == AuthErrorView::Other(text@),
        _ => false,
    }
}

// ---------------------------------------------------------------------------
// The capabilities of a node
// ---------------------------------------------------------------------------

/// The capabilities of a node, in a storage backend.
pub struct Auth<S: Storage> {
    secrets: S::Secrets,
    caps: S::Caps,
    revocations: S::Revocations,
}

impl<S: Storage> Auth<S> {
    pub closed spec fn secrets(&self) -> S::Secrets {
        self.secrets
    }

    pub closed spec fn caps(&self) -> S::Caps {
        self.caps
    }

    /// The identifiers of the revoked delegations.
    pub closed spec fn revoked(&self) -> Set<Seq<u8>> {
        self.revocations.revoked()
    }

    /// The packs in the storage.
    pub open spec fn packs(&self) -> PackSet {
        self.caps().packs()
    }

    /// Whether nothing but the storage of capabilities differs.
    pub open spec fn same_but_caps(&self, other: &Self) -> bool {
        &&& self.secrets() == other.secrets()
        &&& self.revoked() == other.revoked()
    }

    pub fn new(secrets: S::Secrets, caps: S::Caps, revocations: S::Revocations) -> (r: Self)
        ensures
            r.secrets() == secrets,
            r.caps() == caps,
            r.revoked() == revocations.revoked(),
    {
        Auth { secrets, caps, revocations }
    }

    // -- Revocation ---------------------------------------------------------

    /// Applies a revocation, at the given time: it is valid, and the chain that shows the
    /// right to revoke is not itself revoked.
    pub fn apply_revocation_at(&mut self, invocation: &UWillInvocation, now_secs: u64) -> (r: Result<
        (),
        AuthError,
    >)
        ensures
            final(self).secrets() == old(self).secrets(),
            final(self).caps() == old(self).caps(),
            match revocation_outcome(invocation@, old(self).revoked(), now_secs) {
                Ok(cid) => r is Ok && final(self).revoked() == old(self).revoked().insert(cid),
                Err(e) => done_result(r) == Err::<(), AuthErrorView>(e)
                    && final(self).revoked() == old(self).revoked(),
            },
            r is Ok ==> final(self).revoked() == old(self).revoked().insert(
                cid_reading(invocation@.invocation.arguments["revoke"@]->Bytes_0)->Ok_0,
            ),
            r is Err ==> final(self).revoked() == old(self).revoked(),
    {
        let revoked_cid = match invocation.validate_revoke_at(now_secs) {
            Ok(cid) => cid,
            Err(e) => {
                return Err(AuthError::InvalidRevocation(e.message()));
            },
        };
        if self.is_chain_revoked(&invocation.capability()) {
            return Err(AuthError::Revoked);
        }
        self.revocations.apply_revoked_cid(revoked_cid);
        proof {
            law_revoking_iff(invocation@, now_secs, revoked_cid@);
        }
        Ok(())
    }

    /// Applies a revocation, by now.
    pub fn apply_revocation(&mut self, invocation: &UWillInvocation) -> (r: Result<(), AuthError>)
        ensures
            final(self).secrets() == old(self).secrets(),
            final(self).caps() == old(self).caps(),
            exists|now_secs: u64|
                clock_gave(now_secs) && match #[trigger] revocation_outcome(
                    invocation@,
                    old(self).revoked(),
                    now_secs,
                ) {
                    Ok(cid) => r is Ok && final(self).revoked() == old(self).revoked().insert(cid),
                    Err(e) => done_result(r) == Err::<(), AuthErrorView>(e)
                        && final(self).revoked() == old(self).revoked(),
                },
            r is Ok ==> final(self).revoked() == old(self).revoked().insert(
                cid_reading(invocation@.invocation.arguments["revoke"@]->Bytes_0)->Ok_0,
            ),
            r is Err ==> final(self).revoked() == old(self).revoked(),
    {
        let now_secs: u64 = current_time();
        self.apply_revocation_at(invocation, now_secs)
    }

    /// Whether a delegation of the chain is revoked.
    pub fn is_chain_revoked(&self, chain: &UWillChain) -> (r: bool)
        ensures
            r == chain_revoked(self.revoked(), chain@),
    {
        self.revocations.chain_is_revoked(chain)
    }

    // -- Finding capabilities -----------------------------------------------

    pub fn get_write_cap(&self, selector: &CapSelector) -> (r: Result<
        Option<WriteCapability>,
        AuthError,
    >)
        ensures
            exists|reply: Result<Option<WriteCapability>, String>|
                #![trigger call_ensures(S::Caps::get_write_cap, (&self.caps(), selector), reply)]
                call_ensures(S::Caps::get_write_cap, (&self.caps(), selector), reply) && passes_on(
                    reply,
                    r,
                ),
    {
        match self.caps.get_write_cap(selector) {
            Ok(cap) => Ok(cap),
            Err(text) => Err(AuthError::Other(text)),
        }
    }

    /// Takes capabilities out of the storage. None go but such as are selected.
    pub fn del_caps(&mut self, selector: &CapSelector) -> (r: Result<Vec<McCapability>, AuthError>)
        ensures
            final(self).same_but_caps(old(self)),
            deleted(old(self).packs(), *selector, final(self).packs()),
            r is Err ==> final(self).packs() == old(self).packs(),
            exists|reply: Result<Vec<McCapability>, String>|
                #[trigger] deleting(old(self).caps(), *selector, reply) && passes_on(reply, r),
    {
        let reply = self.caps.del_caps(selector);
        assert(deleting(old(self).caps(), *selector, reply));
        match reply {
            Ok(caps) => Ok(caps),
            Err(text) => Err(AuthError::Other(text)),
        }
    }

    pub fn get_read_cap(&self, selector: &CapSelector) -> (r: Result<
        Option<ReadAuthorisation>,
        AuthError,
    >)
        ensures
            exists|reply: Result<Option<ReadAuthorisation>, String>|
                #![trigger call_ensures(S::Caps::get_read_cap, (&self.caps(), selector), reply)]
                call_ensures(S::Caps::get_read_cap, (&self.caps(), selector), reply) && passes_on(
                    reply,
                    r,
                ),
    {
        match self.caps.get_read_cap(selector) {
            Ok(cap) => Ok(cap),
            Err(text) => Err(AuthError::Other(text)),
        }
    }

    /// All capabilities to read.
    pub fn list_read_caps(&self) -> (r: Result<Vec<ReadAuthorisation>, AuthError>)
        ensures
            exists|reply: Result<Vec<ReadAuthorisation>, String>|
                #![trigger call_ensures(S::Caps::list_read_caps, (&self.caps(), None::<NamespaceId>), reply)]
                call_ensures(
                    S::Caps::list_read_caps,
                    (&self.caps(), None::<NamespaceId>),
                    reply,
                ) && passes_on(reply, r),
    {
        match self.caps.list_read_caps(None) {
            Ok(caps) => Ok(caps),
            Err(text) => Err(AuthError::Other(text)),
        }
    }
}

/// What a revocation does where these delegations are revoked: the identifier of the
/// delegation that it revokes as well, or why it is refused.
pub open spec fn revocation_outcome(
    invocation: UWillInvocationView,
    revoked: Set<Seq<u8>>,
    now_secs: u64,
) -> Result<Seq<u8>, AuthErrorView> {
    match invocation.revoke_outcome(now_secs) {
        Err(e) => Err(AuthErrorView::InvalidRevocation(e.message())),
        Ok(cid) => if chain_revoked(revoked, invocation.proof_chain()->Ok_0) {
            Err(AuthErrorView::Revoked)
        } else {
            Ok(cid)
        },
    }
}

// ---------------------------------------------------------------------------
// Storing capabilities
// ---------------------------------------------------------------------------

/// Whether the storage may answer so when the pack is put into it.
pub open spec fn inserting<C: CapsStorage>(
    caps: C,
    pack: CapabilityPackView,
    reply: Result<(), String>,
) -> bool {
    exists|c: &mut C, p: CapabilityPack|
        *c == caps && p@ == pack && #[trigger] call_ensures(C::insert, (c, p), reply)
}

/// Whether the storage may answer so when the selected capabilities are taken out of it.
pub open spec fn deleting<C: CapsStorage>(
    caps: C,
    selector: CapSelector,
    reply: Result<Vec<McCapability>, String>,
) -> bool {
    exists|c: &mut C|
        *c == caps && #[trigger] call_ensures(C::del_caps, (c, &selector), reply)
}

/// Whether `outcome` comes of putting the pack into a storage with these contents; `None` is
/// success.
pub open spec fn storing<C: CapsStorage>(
    contents: PackSet,
    pack: CapabilityPackView,
    outcome: Option<AuthErrorView>,
) -> bool {
    exists|caps: C, reply: Result<(), String>|
        {
            &&& caps.packs() == contents
            &&& #[trigger] inserting(caps, pack, reply)
            &&& outcome == match reply {
                Ok(()) => None,
                Err(text) => Some(AuthErrorView::Other(text@)),
            }
        }
}

/// The contents of a storage into which the packs were put.
pub open spec fn with_packs(contents: PackSet, packs: Seq<CapabilityPackView>) -> PackSet {
    contents.union(packs.to_set())
}

proof fn lemma_with_next_pack(contents: PackSet, packs: Seq<CapabilityPackView>, i: int)
    requires
        0 <= i < packs.len(),
    ensures
        with_packs(contents, packs.take(i + 1)) == with_packs(contents, packs.take(i)).insert(
            packs[i],
        ),
{
    let (done, next) = (packs.take(i), packs.take(i + 1));
    assert forall|pack: CapabilityPackView| #[trigger]
        next.to_set().contains(pack) == done.to_set().insert(packs[i]).contains(pack) by {
        if done.contains(pack) {
            let k = choose|k: int| 0 <= k < done.len() && done[k] == pack;
            assert(next[k] == pack);
        }
        if next.contains(pack) {
            let k = choose|k: int| 0 <= k < next.len() && next[k] == pack;
            if k < i {
                assert(done[k] == pack);
            }
        }
        assert(next[i] == packs[i]);
    }
    assert(with_packs(contents, next) =~= with_packs(contents, done).insert(packs[i]));
}

/// What is made of the answer to the question whether there is a secret of the user;
/// `None` is success.
pub open spec fn secret_error(
    user_id: UserId,
    reply: Result<bool, SecretStoreError>,
) -> Option<AuthErrorView> {
    match reply {
        Err(e) => Some(AuthErrorView::SecretStore(e.text@)),
        Ok(false) => Some(AuthErrorView::MissingUserSecret(user_id)),
        Ok(true) => None,
    }
}

/// Whether `outcome` comes of checking a pack before it is imported: it is what it says,
/// it is not revoked, and there is a secret of its user. `None` is success.
pub open spec fn admitting<A: SecretStorage>(
    secrets: A,
    revoked: Set<Seq<u8>>,
    pack: CapabilityPackView,
    outcome: Option<AuthErrorView>,
) -> bool {
    if pack.error() is Some {
        outcome == Some(AuthErrorView::InvalidPack(pack.error()->0))
    } else if chain_revoked(revoked, pack.chain()) {
        outcome == Some(AuthErrorView::Revoked)
    } else {
        let user_id = pack.chain().receiver();
        exists|reply: Result<bool, SecretStoreError>|
            #![trigger call_ensures(A::has_user, (&secrets, &user_id), reply)]
            call_ensures(A::has_user, (&secrets, &user_id), reply) && outcome == secret_error(
                user_id,
                reply,
            )
    }
}

/// Whether `outcome` comes of importing a pack: of checking it and, where that goes well,
/// of putting it into a storage with these contents. `None` is success.
pub open spec fn importing<A: SecretStorage, C: CapsStorage>(
    secrets: A,
    contents: PackSet,
    revoked: Set<Seq<u8>>,
    pack: CapabilityPackView,
    outcome: Option<AuthErrorView>,
) -> bool {
    ||| outcome is Some && admitting(secrets, revoked, pack, outcome)
    ||| admitting(secrets, revoked, pack, None) && storing::<C>(contents, pack, outcome)
}

/// Whether `outcome` comes of importing the packs in order up to the first failure, when
/// `n` of them were imported.
pub open spec fn importing_all<A: SecretStorage, C: CapsStorage>(
    secrets: A,
    caps: C,
    revoked: Set<Seq<u8>>,
    packs: Seq<CapabilityPackView>,
    n: int,
    outcome: Result<(), AuthErrorView>,
) -> bool {
    &&& 0 <= n <= packs.len()
    &&& forall|i: int|
        0 <= i < n ==> importing::<A, C>(
            secrets,
            with_packs(caps.packs(), packs.take(i)),
            revoked,
            #[trigger] packs[i],
            None,
        )
    &&& match outcome {
        Ok(()) => n == packs.len(),
        Err(e) => n < packs.len() && importing::<A, C>(
            secrets,
            with_packs(caps.packs(), packs.take(n)),
            revoked,
            packs[n],
            Some(e),
        ),
    }
}

/// Whether `outcome` comes of putting the packs into the storage in order up to the first
/// failure, when `n` of them were stored.
pub open spec fn storing_all<C: CapsStorage>(
    caps: C,
    packs: Seq<CapabilityPackView>,
    n: int,
    outcome: Result<(), AuthErrorView>,
) -> bool {
    &&& 0 <= n <= packs.len()
    &&& forall|i: int|
        0 <= i < n ==> storing::<C>(
            with_packs(caps.packs(), packs.take(i)),
            #[trigger] packs[i],
            None,
        )
    &&& match outcome {
        Ok(()) => n == packs.len(),
        Err(e) => n < packs.len() && storing::<C>(
            with_packs(caps.packs(), packs.take(n)),
            packs[n],
            Some(e),
        ),
    }
}

/// The error of an outcome that gives nothing.
pub open spec fn error_of(r: Result<(), AuthError>) -> Option<AuthErrorView> {
    match r {
        Ok(()) => None,
        Err(e) => Some(e@),
    }
}

impl<S: Storage> Auth<S> {
    /// Puts a pack into the storage.
    fn store_cap(&mut self, cap: CapabilityPack) -> (r: Result<(), AuthError>)
        ensures
            final(self).same_but_caps(old(self)),
            storing::<S::Caps>(old(self).packs(), cap@, error_of(r)),
            final(self).packs() == if r is Ok {
                old(self).packs().insert(cap@)
            } else {
                old(self).packs()
            },
    {
        let ghost pack = cap@;
        let reply = self.caps.insert(cap);
        assert(inserting(old(self).caps(), pack, reply));
        match reply {
            Ok(()) => Ok(()),
            Err(text) => Err(AuthError::Other(text)),
        }
    }

    /// Checks a pack before it is imported.
    fn check_import(&self, cap: &CapabilityPack) -> (r: Result<(), AuthError>)
        ensures
            admitting(self.secrets(), self.revoked(), cap@, error_of(r)),
    {
        match cap.validate() {
            Ok(()) => {},
            Err(e) => {
                return Err(AuthError::InvalidPack(e));
            },
        }
        if self.is_chain_revoked(cap.chain()) {
            return Err(AuthError::Revoked);
        }
        let user_id = cap.receiver();
        match self.secrets.has_user(&user_id) {
            Ok(true) => Ok(()),
            Ok(false) => Err(AuthError::MissingUserSecret(user_id)),
            Err(e) => Err(AuthError::SecretStore(e)),
        }
    }

    /// Imports packs that were received. The first one that cannot be imported is an error,
    /// and neither it nor those after it are stored.
    pub fn import_caps(&mut self, caps: Vec<CapabilityPack>) -> (r: Result<(), AuthError>)
        ensures
            final(self).same_but_caps(old(self)),
            exists|n: int|
                #[trigger] importing_all(
                    old(self).secrets(),
                    old(self).caps(),
                    old(self).revoked(),
                    pack_views(caps@),
                    n,
                    done_result(r),
                ) && final(self).packs() == with_packs(old(self).packs(), pack_views(caps@).take(n)),
    {
        let ghost packs = pack_views(caps@);
        let mut i: usize = 0;
        assert(packs.take(0) =~= Seq::empty());
        assert(self.packs() =~= with_packs(old(self).packs(), packs.take(0)));
        while i < caps.len()
            invariant
                i <= caps.len(),
                packs == pack_views(caps@),
                self.same_but_caps(old(self)),
                self.packs() == with_packs(old(self).packs(), packs.take(i as int)),
                forall|j: int|
                    0 <= j < i ==> importing::<S::Secrets, S::Caps>(
                        old(self).secrets(),
                        with_packs(old(self).packs(), packs.take(j)),
                        old(self).revoked(),
                        #[trigger] packs[j],
                        None,
                    ),
            decreases caps.len() - i,
        {
            assert(packs[i as int] == caps@[i as int]@);
            let checked = self.check_import(&caps[i]);
            if checked.is_err() {
                let ghost outcome = done_result(checked);
                assert(importing_all(
                    old(self).secrets(),
                    old(self).caps(),
                    old(self).revoked(),
                    packs,
                    i as int,
                    outcome,
                ));
                return checked;
            }
            let stored = self.store_cap(caps[i].clone());
            if stored.is_err() {
                let ghost outcome = done_result(stored);
                assert(importing_all(
                    old(self).secrets(),
                    old(self).caps(),
                    old(self).revoked(),
                    packs,
                    i as int,
                    outcome,
                ));
                return stored;
            }
            proof {
                lemma_with_next_pack(old(self).packs(), packs, i as int);
            }
            i += 1;
        }
        assert(importing_all(
            old(self).secrets(),
            old(self).caps(),
            old(self).revoked(),
            packs,
            i as int,
            Ok::<(), AuthErrorView>(()),
        ));
        Ok(())
    }

    /// Puts packs into the storage that need no check.
    pub fn insert_caps_unchecked(&mut self, caps: Vec<CapabilityPack>) -> (r: Result<(), AuthError>)
        ensures
            final(self).same_but_caps(old(self)),
            exists|n: int|
                #[trigger] storing_all(old(self).caps(), pack_views(caps@), n, done_result(r))
                    && final(self).packs() == with_packs(old(self).packs(), pack_views(caps@).take(n)),
    {
        let ghost packs = pack_views(caps@);
        let mut i: usize = 0;
        assert(packs.take(0) =~= Seq::empty());
        assert(self.packs() =~= with_packs(old(self).packs(), packs.take(0)));
        while i < caps.len()
            invariant
                i <= caps.len(),
                packs == pack_views(caps@),
                self.same_but_caps(old(self)),
                self.packs() == with_packs(old(self).packs(), packs.take(i as int)),
                forall|j: int|
                    0 <= j < i ==> storing::<S::Caps>(
                        with_packs(old(self).packs(), packs.take(j)),
                        #[trigger] packs[j],
                        None,
                    ),
            decreases caps.len() - i,
        {
            assert(packs[i as int] == caps@[i as int]@);
            let stored = self.store_cap(caps[i].clone());
            if stored.is_err() {
                let ghost outcome = done_result(stored);
                assert(storing_all(old(self).caps(), packs, i as int, outcome));
                return stored;
            }
            proof {
                lemma_with_next_pack(old(self).packs(), packs, i as int);
            }
            i += 1;
        }
        assert(storing_all(old(self).caps(), packs, i as int, Ok::<(), AuthErrorView>(())));
        Ok(())
    }
}

// ---------------------------------------------------------------------------
// Interests
// ---------------------------------------------------------------------------

/// What the authorisations say.
pub open spec fn read_views(caps: Seq<ReadAuthorisation>) -> Seq<ReadAuthorisationView> {
    caps.map_values(|auth: ReadAuthorisation| auth@)
}

/// The interest in the whole area of each authorisation.
pub open spec fn all_interests(caps: Seq<ReadAuthorisationView>) -> Map<CapabilityKey, InterestView>
    decreases caps.len(),
{
    if caps.len() == 0 {
        Map::empty()
    } else {
        with_interest(all_interests(caps.drop_last()), caps.last(), set![widest(caps.last())])
    }
}

/// The interest in the selected areas of those authorisations that were found.
pub open spec fn selected_interests(
    found: Seq<Option<ReadAuthorisationView>>,
    selectors: Seq<AreaOfInterestSelector>,
) -> Map<CapabilityKey, InterestView>
    decreases found.len(),
{
    if found.len() == 0 {
        Map::empty()
    } else {
        let earlier = selected_interests(found.drop_last(), selectors);
        match found.last() {
            None => earlier,
            Some(auth) => with_interest(
                earlier,
                auth,
                selected_areas(auth, selectors[found.len() - 1]),
            ),
        }
    }
}

/// The authorisations that were found.
pub open spec fn found_views(
    replies: Seq<Result<Option<ReadAuthorisation>, String>>,
) -> Seq<Option<ReadAuthorisationView>> {
    replies.map_values(
        |reply: Result<Option<ReadAuthorisation>, String>|
            match reply {
                Ok(Some(auth)) => Some(auth@),
                _ => None,
            },
    )
}

/// Whether `replies` are answers of the storage to the selectors, in order.
pub open spec fn answers<C: CapsStorage>(
    caps: C,
    selection: Seq<(CapSelector, AreaOfInterestSelector)>,
    replies: Seq<Result<Option<ReadAuthorisation>, String>>,
) -> bool {
    &&& replies.len() <= selection.len()
    &&& forall|i: int|
        0 <= i < replies.len() ==> call_ensures(
            C::get_read_cap,
            (&caps, &selection[i].0),
            #[trigger] replies[i],
        )
}

/// What comes of the answers: the interest in what was found, or the first error.
pub open spec fn selection_outcome(
    selection: Seq<(CapSelector, AreaOfInterestSelector)>,
    replies: Seq<Result<Option<ReadAuthorisation>, String>>,
    outcome: Result<Map<CapabilityKey, InterestView>, AuthErrorView>,
) -> bool {
    let selectors = selection.map_values(
        |s: (CapSelector, AreaOfInterestSelector)| s.1,
    );
    match outcome {
        Ok(map) => {
            &&& replies.len() == selection.len()
            &&& forall|i: int| 0 <= i < replies.len() ==> (#[trigger] replies[i]) is Ok
            &&& map == selected_interests(found_views(replies), selectors)
        },
        Err(e) => {
            &&& replies.len() > 0
            &&& forall|i: int| 0 <= i < replies.len() - 1 ==> (#[trigger] replies[i]) is Ok
            &&& replies.last() is Err
            &&& e == AuthErrorView::Other(replies.last()->Err_0@)
        },
    }
}

/// The outcome of resolving interests.
pub open spec fn interest_result(r: Result<InterestMap, AuthError>) -> Result<
    Map<CapabilityKey, InterestView>,
    AuthErrorView,
> {
    match r {
        Ok(map) => Ok(map@),
        Err(e) => Err(e@),
    }
}

/// Whether `outcome` comes of resolving interests with what the storage answers.
pub open spec fn resolving<C: CapsStorage>(
    caps: C,
    interests: Interests,
    outcome: Result<Map<CapabilityKey, InterestView>, AuthErrorView>,
) -> bool {
    match interests {
        Interests::All => exists|reply: Result<Vec<ReadAuthorisation>, String>|
            #![trigger call_ensures(C::list_read_caps, (&caps, None::<NamespaceId>), reply)]
            {
                &&& call_ensures(C::list_read_caps, (&caps, None::<NamespaceId>), reply)
                &&& outcome == match reply {
                    Ok(list) => Ok(all_interests(read_views(list@))),
                    Err(text) => Err(AuthErrorView::Other(text@)),
                }
            },
        Interests::Select(selection) => exists|
            replies: Seq<Result<Option<ReadAuthorisation>, String>>,
        |
            #[trigger] answers(caps, selection@, replies) && selection_outcome(
                selection@,
                replies,
                outcome,
            ),
    }
}

/// The interest in the whole area of each authorisation.
pub fn collect_interests(caps: &Vec<ReadAuthorisation>) -> (r: InterestMap)
    ensures
        r@ == all_interests(read_views(caps@)),
{
    let ghost views = read_views(caps@);
    let mut out = InterestMap::new();
    let mut i: usize = 0;
    assert(views.take(0) =~= Seq::empty());
    while i < caps.len()
        invariant
            i <= caps.len(),
            views == read_views(caps@),
            out@ == all_interests(views.take(i as int)),
        decreases caps.len() - i,
    {
        proof {
            assert(views[i as int] == caps@[i as int]@);
            assert(views.take(i + 1).drop_last() =~= views.take(i as int));
            assert(views.take(i + 1).last() == views[i as int]);
        }
        out.insert(caps[i].clone(), &AreaOfInterestSelector::Widest);
        i += 1;
    }
    assert(views.take(views.len() as int) =~= views);
    out
}

impl<S: Storage> Auth<S> {
    /// Finds the authorisations for interests, and the areas of each.
    pub fn resolve_interests(&self, interests: Interests) -> (r: Result<InterestMap, AuthError>)
        ensures
            resolving(self.caps(), interests, interest_result(r)),
    {
        match interests {
            Interests::All => {
                match self.list_read_caps() {
                    Ok(caps) => Ok(collect_interests(&caps)),
                    Err(e) => Err(e),
                }
            },
            Interests::Select(selection) => self.select_interests(&selection),
        }
    }

    fn select_interests(&self, selection: &Vec<(CapSelector, AreaOfInterestSelector)>) -> (r: Result<
        InterestMap,
        AuthError,
    >)
        ensures
            exists|replies: Seq<Result<Option<ReadAuthorisation>, String>>|
                #[trigger] answers(self.caps(), selection@, replies) && selection_outcome(
                    selection@,
                    replies,
                    interest_result(r),
                ),
    {
        let ghost selectors = selection@.map_values(
            |s: (CapSelector, AreaOfInterestSelector)| s.1,
        );
        let ghost mut replies: Seq<Result<Option<ReadAuthorisation>, String>> = Seq::empty();
        let mut out = InterestMap::new();
        let mut i: usize = 0;
        assert(found_views(replies) =~= Seq::empty());
        while i < selection.len()
            invariant
                i <= selection.len(),
                selectors == selection@.map_values(
                    |s: (CapSelector, AreaOfInterestSelector)| s.1,
                ),
                replies.len() == i,
                answers(self.caps(), selection@, replies),
                forall|j: int| 0 <= j < i ==> (#[trigger] replies[j]) is Ok,
                out@ == selected_interests(found_views(replies), selectors),
            decreases selection.len() - i,
        {
            let cap = self.get_read_cap(&selection[i].0);
            let ghost before = replies;
            proof {
                let reply = choose|reply: Result<Option<ReadAuthorisation>, String>|
                    #![trigger call_ensures(S::Caps::get_read_cap, (&self.caps(), &selection@[i as int].0), reply)]
                    call_ensures(
                        S::Caps::get_read_cap,
                        (&self.caps(), &selection@[i as int].0),
                        reply,
                    ) && passes_on(reply, cap);
                replies = replies.push(reply);
                assert(answers(self.caps(), selection@, replies)) by {
                    assert forall|j: int| 0 <= j < replies.len() implies call_ensures(
                        S::Caps::get_read_cap,
                        (&self.caps(), &selection@[j].0),
                        #[trigger] replies[j],
                    ) by {
                        if j < i {
                            assert(replies[j] == before[j]);
                        }
                    }
                }
                assert(found_views(replies).drop_last() =~= found_views(before));
            }
            match cap {
                Ok(Some(cap)) => {
                    out.insert(cap, &selection[i].1);
                },
                Ok(None) => {},
                Err(e) => {
                    return Err(e);
                },
            }
            i += 1;
        }
        Ok(out)
    }
}

// ---------------------------------------------------------------------------
// Creating capabilities
// ---------------------------------------------------------------------------

/// What is made of the answer to the question for the secret of a namespace.
pub open spec fn namespace_secret_of(
    namespace_id: NamespaceId,
    reply: Result<Option<NamespaceSecretKey>, SecretStoreError>,
) -> Result<NamespaceSecretKey, AuthErrorView> {
    match reply {
        Err(e) => Err(AuthErrorView::SecretStore(e.text@)),
        Ok(None) => Err(AuthErrorView::MissingNamespaceSecret(namespace_id)),
        Ok(Some(secret)) => Ok(secret),
    }
}

/// What is made of the answer to the question for the secret of a user.
pub open spec fn user_secret_of(
    user_id: UserId,
    reply: Result<Option<UserSecretKey>, SecretStoreError>,
) -> Result<UserSecretKey, AuthErrorView> {
    match reply {
        Err(e) => Err(AuthErrorView::SecretStore(e.text@)),
        Ok(None) => Err(AuthErrorView::MissingUserSecret(user_id)),
        Ok(Some(secret)) => Ok(secret),
    }
}

/// The outcome of something that gives a secret.
pub open spec fn secret_result<T>(r: Result<T, AuthError>) -> Result<T, AuthErrorView> {
    match r {
        Ok(secret) => Ok(secret),
        Err(e) => Err(e@),
    }
}

/// Whether `secret` comes of asking the storage for the secret of a namespace.
pub open spec fn finding_namespace_secret<A: SecretStorage>(
    secrets: A,
    namespace_id: NamespaceId,
    secret: Result<NamespaceSecretKey, AuthErrorView>,
) -> bool {
    exists|reply: Result<Option<NamespaceSecretKey>, SecretStoreError>|
        #![trigger call_ensures(A::get_namespace, (&secrets, &namespace_id), reply)]
        call_ensures(A::get_namespace, (&secrets, &namespace_id), reply) && secret
            == namespace_secret_of(namespace_id, reply)
}

/// Whether `secret` comes of asking the storage for the secret of a user.
pub open spec fn finding_user_secret<A: SecretStorage>(
    secrets: A,
    user_id: UserId,
    secret: Result<UserSecretKey, AuthErrorView>,
) -> bool {
    exists|reply: Result<Option<UserSecretKey>, SecretStoreError>|
        #![trigger call_ensures(A::get_user, (&secrets, &user_id), reply)]
        call_ensures(A::get_user, (&secrets, &user_id), reply) && secret == user_secret_of(
            user_id,
            reply,
        )
}

/// Whether `outcome` comes of creating, with the secret of a namespace, the capability of a
/// user to read it.
pub open spec fn creating_read_pack<F: Fn(&DelegationDraft) -> Result<DelegationSeal, String>>(
    sign: F,
    namespace_secret: NamespaceSecretKey,
    user_key: UserId,
    outcome: Result<CapabilityPackView, AuthErrorView>,
) -> bool {
    exists|auth: Result<ReadAuthorisationView, ChainErrorView>|
        {
            &&& #[trigger] owned_read_outcome(sign, namespace_secret, user_key, auth)
            &&& outcome == match auth {
                Ok(auth) => Ok(CapabilityPackView::Read(auth)),
                Err(e) => Err(AuthErrorView::Other(e.message())),
            }
        }
}

/// Whether `outcome` comes of creating the capability of a user to read a namespace.
pub open spec fn creating_read_cap<
    A: SecretStorage,
    F: Fn(&DelegationDraft) -> Result<DelegationSeal, String>,
>(
    secrets: A,
    sign: F,
    namespace_key: NamespaceId,
    user_key: UserId,
    outcome: Result<CapabilityPackView, AuthErrorView>,
) -> bool {
    exists|secret: Result<NamespaceSecretKey, AuthErrorView>|
        {
            &&& #[trigger] finding_namespace_secret(secrets, namespace_key, secret)
            &&& match secret {
                Err(e) => outcome == Err::<CapabilityPackView, AuthErrorView>(e),
                Ok(secret) => creating_read_pack(sign, secret, user_key, outcome),
            }
        }
}

/// Whether `outcome` comes of creating the capability of a user to write to a namespace.
pub open spec fn creating_write_cap<
    A: SecretStorage,
    F: Fn(&DelegationDraft) -> Result<DelegationSeal, String>,
>(
    secrets: A,
    sign: F,
    namespace_key: NamespaceId,
    user_key: UserId,
    outcome: Result<CapabilityPackView, AuthErrorView>,
) -> bool {
    exists|secret: Result<NamespaceSecretKey, AuthErrorView>|
        {
            &&& #[trigger] finding_namespace_secret(secrets, namespace_key, secret)
            &&& match secret {
                Err(e) => outcome == Err::<CapabilityPackView, AuthErrorView>(e),
                Ok(secret) => exists|chain: Result<ChainView, ChainErrorView>|
                    {
                        &&& #[trigger] signed_extension(
                            sign,
                            seq![],
                            root_draft_outcome(
                                namespace_key,
                                secret,
                                user_key,
                                WillowCommand::Write,
                            ),
                            chain,
                        )
                        &&& outcome == match chain {
                            Ok(chain) => Ok(CapabilityPackView::Write(chain)),
                            Err(e) => Err(AuthErrorView::ChainError(e)),
                        }
                    },
            }
        }
}

/// The outcome of something that gives packs.
pub open spec fn packs_result(r: Result<Vec<CapabilityPack>, AuthError>) -> Result<
    Seq<CapabilityPackView>,
    AuthErrorView,
> {
    match r {
        Ok(packs) => Ok(pack_views(packs@)),
        Err(e) => Err(e@),
    }
}

/// The outcome without what it gives.
pub open spec fn without_value<T>(outcome: Result<T, AuthErrorView>) -> Result<(), AuthErrorView> {
    match outcome {
        Ok(_) => Ok(()),
        Err(e) => Err(e),
    }
}

/// Whether `outcome` comes of storing packs, if `store` is set, and giving them out; those
/// in `added` were stored.
pub open spec fn keeping<C: CapsStorage>(
    caps: C,
    packs: Seq<CapabilityPackView>,
    store: bool,
    added: Seq<CapabilityPackView>,
    outcome: Result<Seq<CapabilityPackView>, AuthErrorView>,
) -> bool {
    &&& outcome matches Ok(given) ==> given == packs
    &&& if store {
        exists|n: int|
            #[trigger] storing_all(caps, packs, n, without_value(outcome)) && added == packs.take(n)
    } else {
        outcome is Ok && added.len() == 0
    }
}

/// Whether `outcome` comes of creating the capabilities of a user to read and to write, and
/// storing them; those in `added` were stored.
pub open spec fn creating_full_caps<
    A: SecretStorage,
    C: CapsStorage,
    F: Fn(&DelegationDraft) -> Result<DelegationSeal, String>,
>(
    secrets: A,
    caps: C,
    sign: F,
    namespace_id: NamespaceId,
    user_id: UserId,
    added: Seq<CapabilityPackView>,
    outcome: Result<Seq<CapabilityPackView>, AuthErrorView>,
) -> bool {
    exists|read: Result<CapabilityPackView, AuthErrorView>|
        {
            &&& #[trigger] creating_read_cap(secrets, sign, namespace_id, user_id, read)
            &&& match read {
                Err(e) => added.len() == 0 && outcome == Err::<
                    Seq<CapabilityPackView>,
                    AuthErrorView,
                >(e),
                Ok(read) => exists|write: Result<CapabilityPackView, AuthErrorView>|
                    {
                        &&& #[trigger] creating_write_cap(
                            secrets,
                            sign,
                            namespace_id,
                            user_id,
                            write,
                        )
                        &&& match write {
                            Err(e) => added.len() == 0 && outcome == Err::<
                                Seq<CapabilityPackView>,
                                AuthErrorView,
                            >(e),
                            Ok(write) => keeping(caps, seq![read, write], true, added, outcome),
                        }
                    },
            }
        }
}

impl<S: Storage> Auth<S> {
    /// The secret of a namespace.
    fn namespace_secret(&self, namespace_id: &NamespaceId) -> (r: Result<
        NamespaceSecretKey,
        AuthError,
    >)
        ensures
            finding_namespace_secret(self.secrets(), *namespace_id, secret_result(r)),
    {
        match self.secrets.get_namespace(namespace_id) {
            Ok(Some(secret)) => Ok(secret),
            Ok(None) => Err(AuthError::MissingNamespaceSecret(*namespace_id)),
            Err(e) => Err(AuthError::SecretStore(e)),
        }
    }

    /// The secret of a user.
    fn user_secret(&self, user_id: &UserId) -> (r: Result<UserSecretKey, AuthError>)
        ensures
            finding_user_secret(self.secrets(), *user_id, secret_result(r)),
    {
        match self.secrets.get_user(user_id) {
            Ok(Some(secret)) => Ok(secret),
            Ok(None) => Err(AuthError::MissingUserSecret(*user_id)),
            Err(e) => Err(AuthError::SecretStore(e)),
        }
    }

    /// Creates the capability of a user to read all of a namespace.
    pub fn create_read_cap<F: Fn(&DelegationDraft) -> Result<DelegationSeal, String>>(
        &self,
        namespace_key: NamespaceId,
        user_key: UserId,
        sign: &F,
    ) -> (r: Result<CapabilityPack, AuthError>)
        requires
            signs_all(*sign),
        ensures
            creating_read_cap(self.secrets(), *sign, namespace_key, user_key, pack_result(r)),
    {
        let found = self.namespace_secret(&namespace_key);
        let ghost found_view = secret_result(found);
        assert(finding_namespace_secret(self.secrets(), namespace_key, found_view));
        let namespace_secret = match found {
            Ok(secret) => secret,
            Err(e) => {
                return Err(e);
            },
        };
        let auth = ReadAuthorisation::new_owned(&namespace_secret, user_key, sign);
        let ghost auth_view = read_result(auth);
        assert(owned_read_outcome(*sign, namespace_secret, user_key, auth_view));
        let r = match auth {
            Ok(auth) => Ok(CapabilityPack::Read(auth)),
            Err(e) => Err(AuthError::Other(e.message())),
        };
        assert(creating_read_pack(*sign, namespace_secret, user_key, pack_result(r)));
        r
    }

    /// Creates the capability of a user to write to all of a namespace.
    pub fn create_write_cap<F: Fn(&DelegationDraft) -> Result<DelegationSeal, String>>(
        &self,
        namespace_key: NamespaceId,
        user_key: UserId,
        sign: &F,
    ) -> (r: Result<CapabilityPack, AuthError>)
        requires
            signs_all(*sign),
        ensures
            creating_write_cap(self.secrets(), *sign, namespace_key, user_key, pack_result(r)),
    {
        let found = self.namespace_secret(&namespace_key);
        let ghost found_view = secret_result(found);
        assert(finding_namespace_secret(self.secrets(), namespace_key, found_view));
        let namespace_secret = match found {
            Ok(secret) => secret,
            Err(e) => {
                return Err(e);
            },
        };
        let chain = McCapability::new_owned(
            namespace_key,
            &namespace_secret,
            user_key,
            AccessMode::Write,
            sign,
        );
        let ghost chain_view = chain_result(chain);
        assert(signed_extension(
            *sign,
            seq![],
            root_draft_outcome(namespace_key, namespace_secret, user_key, WillowCommand::Write),
            chain_view,
        ));
        match chain {
            Ok(chain) => Ok(CapabilityPack::Write(chain)),
            Err(e) => Err(AuthError::ChainError(e)),
        }
    }

    /// Stores packs that were made here, if `store` is set, and gives them out.
    fn keep(&mut self, packs: Vec<CapabilityPack>, store: bool) -> (r: Result<
        Vec<CapabilityPack>,
        AuthError,
    >)
        ensures
            final(self).same_but_caps(old(self)),
            exists|added: Seq<CapabilityPackView>|
                #[trigger] keeping(
                    old(self).caps(),
                    pack_views(packs@),
                    store,
                    added,
                    packs_result(r),
                ) && final(self).packs() == with_packs(old(self).packs(), added),
    {
        let ghost views = pack_views(packs@);
        if !store {
            proof {
                let added = Seq::<CapabilityPackView>::empty();
                assert(self.packs() =~= with_packs(old(self).packs(), added));
                assert(keeping(
                    old(self).caps(),
                    views,
                    store,
                    added,
                    Ok::<Seq<CapabilityPackView>, AuthErrorView>(views),
                ));
            }
            return Ok(packs);
        }
        let stored = self.insert_caps_unchecked(copy_packs(&packs));
        let ghost outcome: Result<Seq<CapabilityPackView>, AuthErrorView> = match done_result(
            stored,
        ) {
            Ok(()) => Ok(views),
            Err(e) => Err(e),
        };
        proof {
            let n = choose|n: int|
                #[trigger] storing_all(old(self).caps(), views, n, done_result(stored))
                    && self.packs() == with_packs(old(self).packs(), views.take(n));
            assert(storing_all(old(self).caps(), views, n, without_value(outcome)));
            assert(keeping(old(self).caps(), views, store, views.take(n), outcome));
        }
        match stored {
            Ok(()) => Ok(packs),
            Err(e) => Err(e),
        }
    }

    /// Creates the capabilities of a user to read and to write all of a namespace, and
    /// stores them.
    pub fn create_full_caps<F: Fn(&DelegationDraft) -> Result<DelegationSeal, String>>(
        &mut self,
        namespace_id: NamespaceId,
        user_id: UserId,
        sign: &F,
    ) -> (r: Result<Vec<CapabilityPack>, AuthError>)
        requires
            signs_all(*sign),
        ensures
            final(self).same_but_caps(old(self)),
            exists|added: Seq<CapabilityPackView>|
                #[trigger] creating_full_caps(
                    old(self).secrets(),
                    old(self).caps(),
                    *sign,
                    namespace_id,
                    user_id,
                    added,
                    packs_result(r),
                ) && final(self).packs() == with_packs(old(self).packs(), added),
    {
        let ghost none = Seq::<CapabilityPackView>::empty();
        assert(self.packs() =~= with_packs(old(self).packs(), none));
        let read = self.create_read_cap(namespace_id, user_id, sign);
        let ghost read_view = pack_result(read);
        assert(creating_read_cap(self.secrets(), *sign, namespace_id, user_id, read_view));
        let read_cap = match read {
            Ok(cap) => cap,
            Err(e) => {
                assert(creating_full_caps(
                    old(self).secrets(),
                    old(self).caps(),
                    *sign,
                    namespace_id,
                    user_id,
                    none,
                    Err::<Seq<CapabilityPackView>, AuthErrorView>(e@),
                ));
                return Err(e);
            },
        };
        let write = self.create_write_cap(namespace_id, user_id, sign);
        let ghost write_view = pack_result(write);
        assert(creating_write_cap(self.secrets(), *sign, namespace_id, user_id, write_view));
        let write_cap = match write {
            Ok(cap) => cap,
            Err(e) => {
                assert(creating_full_caps(
                    old(self).secrets(),
                    old(self).caps(),
                    *sign,
                    namespace_id,
                    user_id,
                    none,
                    Err::<Seq<CapabilityPackView>, AuthErrorView>(e@),
                ));
                return Err(e);
            },
        };
        let ghost both = seq![read_cap@, write_cap@];
        let mut packs: Vec<CapabilityPack> = Vec::new();
        packs.push(read_cap);
        packs.push(write_cap);
        assert(pack_views(packs@) =~= both);
        let r = self.keep(packs, true);
        proof {
            let added = choose|added: Seq<CapabilityPackView>|
                #[trigger] keeping(old(self).caps(), both, true, added, packs_result(r))
                    && self.packs() == with_packs(old(self).packs(), added);
            assert(creating_full_caps(
                old(self).secrets(),
                old(self).caps(),
                *sign,
                namespace_id,
                user_id,
                added,
                packs_result(r),
            ));
        }
        r
    }
}

/// A copy of packs.
fn copy_packs(packs: &Vec<CapabilityPack>) -> (r: Vec<CapabilityPack>)
    ensures
        pack_views(r@) == pack_views(packs@),
{
    let mut out: Vec<CapabilityPack> = Vec::new();
    let mut i: usize = 0;
    while i < packs.len()
        invariant
            i <= packs.len(),
            out@.len() == i,
            forall|j: int| 0 <= j < i ==> (#[trigger] out@[j])@ == packs@[j]@,
        decreases packs.len() - i,
    {
        out.push(packs[i].clone());
        i += 1;
    }
    assert(pack_views(out@) =~= pack_views(packs@));
    out
}

// ---------------------------------------------------------------------------
// Delegating capabilities
// ---------------------------------------------------------------------------

/// Whether `outcome` comes of delegating a chain that was found, with the secret of the user
/// it leads to.
pub open spec fn delegating<
    A: SecretStorage,
    F: Fn(&DelegationDraft) -> Result<DelegationSeal, String>,
>(
    secrets: A,
    sign: F,
    chain: ChainView,
    to: UserId,
    area: AreaView,
    outcome: Result<ChainView, AuthErrorView>,
) -> bool {
    exists|secret: Result<UserSecretKey, AuthErrorView>|
        {
            &&& #[trigger] finding_user_secret(secrets, chain.receiver(), secret)
            &&& match secret {
                Err(e) => outcome == Err::<ChainView, AuthErrorView>(e),
                Ok(secret) => exists|next: Result<ChainView, ChainErrorView>|
                    {
                        &&& #[trigger] signed_extension(
                            sign,
                            chain.delegations,
                            next_draft_outcome(chain, secret, to, area),
                            next,
                        )
                        &&& outcome == match next {
                            Ok(next) => Ok(next),
                            Err(e) => Err(AuthErrorView::ChainError(e)),
                        }
                    },
            }
        }
}

/// The proof of membership that can be delegated along with an authorisation to read: it leads
/// to the same user, and covers the whole namespace.
pub open spec fn delegable_membership(auth: ReadAuthorisationView) -> Option<ChainView> {
    match auth.enumerate {
        Some(membership) => if membership.receiver() == auth.read.receiver()
            && membership.area.includes_area(AreaView::full()) {
            Some(membership)
        } else {
            None
        },
        None => None,
    }
}

/// Whether `outcome` comes of delegating an authorisation to read with the secret of the user
/// it leads to: its chain over the area, and its proof of membership, where one can be
/// delegated, over the whole namespace.
pub open spec fn delegating_authorisation<
    F: Fn(&DelegationDraft) -> Result<DelegationSeal, String>,
>(
    sign: F,
    auth: ReadAuthorisationView,
    secret: UserSecretKey,
    to: UserId,
    area: AreaView,
    outcome: Result<ReadAuthorisationView, ChainErrorView>,
) -> bool {
    exists|read: Result<ChainView, ChainErrorView>|
        {
            &&& #[trigger] signed_extension(
                sign,
                auth.read.delegations,
                next_draft_outcome(auth.read, secret, to, area),
                read,
            )
            &&& match (read, delegable_membership(auth)) {
                (Err(e), _) => outcome == Err::<ReadAuthorisationView, ChainErrorView>(e),
                (Ok(read), None) => outcome == Ok::<ReadAuthorisationView, ChainErrorView>(
                    ReadAuthorisationView { read, enumerate: None },
                ),
                (Ok(read), Some(membership)) => exists|
                    enumerate: Result<ChainView, ChainErrorView>,
                |
                    {
                        &&& #[trigger] signed_extension(
                            sign,
                            membership.delegations,
                            next_draft_outcome(membership, secret, to, AreaView::full()),
                            enumerate,
                        )
                        &&& outcome == match enumerate {
                            Ok(enumerate) => Ok(
                                ReadAuthorisationView { read, enumerate: Some(enumerate) },
                            ),
                            Err(e) => Err(e),
                        }
                    },
            }
        }
}

/// Whether `outcome` comes of delegating the capability to read that the storage finds, with
/// its proof of membership.
pub open spec fn delegating_read_cap<
    A: SecretStorage,
    C: CapsStorage,
    F: Fn(&DelegationDraft) -> Result<DelegationSeal, String>,
>(
    secrets: A,
    caps: C,
    sign: F,
    from: CapSelector,
    to: UserId,
    restriction: Option<AreaView>,
    outcome: Result<CapabilityPackView, AuthErrorView>,
) -> bool {
    exists|reply: Result<Option<ReadAuthorisation>, String>|
        #![trigger call_ensures(C::get_read_cap, (&caps, &from), reply)]
        {
            &&& call_ensures(C::get_read_cap, (&caps, &from), reply)
            &&& match reply {
                Err(text) => outcome == Err::<CapabilityPackView, AuthErrorView>(
                    AuthErrorView::Other(text@),
                ),
                Ok(None) => outcome == Err::<CapabilityPackView, AuthErrorView>(
                    AuthErrorView::NoCapability,
                ),
                Ok(Some(auth)) => delegating_found_authorisation(
                    secrets,
                    sign,
                    auth@,
                    to,
                    restricted(restriction, auth@.read.area),
                    outcome,
                ),
            }
        }
}

/// Whether `outcome` comes of delegating an authorisation to read that was found, with the
/// secret of the user it leads to.
pub open spec fn delegating_found_authorisation<
    A: SecretStorage,
    F: Fn(&DelegationDraft) -> Result<DelegationSeal, String>,
>(
    secrets: A,
    sign: F,
    auth: ReadAuthorisationView,
    to: UserId,
    area: AreaView,
    outcome: Result<CapabilityPackView, AuthErrorView>,
) -> bool {
    exists|secret: Result<UserSecretKey, AuthErrorView>|
        {
            &&& #[trigger] finding_user_secret(secrets, auth.read.receiver(), secret)
            &&& match secret {
                Err(e) => outcome == Err::<CapabilityPackView, AuthErrorView>(e),
                Ok(secret) => delegating_as_pack(sign, auth, secret, to, area, outcome),
            }
        }
}

/// Whether `outcome` is the pack, or the error, that comes of delegating an authorisation to
/// read with the secret.
pub open spec fn delegating_as_pack<F: Fn(&DelegationDraft) -> Result<DelegationSeal, String>>(
    sign: F,
    auth: ReadAuthorisationView,
    secret: UserSecretKey,
    to: UserId,
    area: AreaView,
    outcome: Result<CapabilityPackView, AuthErrorView>,
) -> bool {
    exists|next: Result<ReadAuthorisationView, ChainErrorView>|
        {
            &&& #[trigger] delegating_authorisation(sign, auth, secret, to, area, next)
            &&& outcome == match next {
                Ok(next) => Ok(CapabilityPackView::Read(next)),
                Err(e) => Err(AuthErrorView::ChainError(e)),
            }
        }
}

/// Whether `outcome` comes of delegating the capability to write that the storage finds.
pub open spec fn delegating_write_cap<
    A: SecretStorage,
    C: CapsStorage,
    F: Fn(&DelegationDraft) -> Result<DelegationSeal, String>,
>(
    secrets: A,
    caps: C,
    sign: F,
    from: CapSelector,
    to: UserId,
    restriction: Option<AreaView>,
    outcome: Result<CapabilityPackView, AuthErrorView>,
) -> bool {
    exists|reply: Result<Option<WriteCapability>, String>|
        #![trigger call_ensures(C::get_write_cap, (&caps, &from), reply)]
        {
            &&& call_ensures(C::get_write_cap, (&caps, &from), reply)
            &&& match reply {
                Err(text) => outcome == Err::<CapabilityPackView, AuthErrorView>(
                    AuthErrorView::Other(text@),
                ),
                Ok(None) => outcome == Err::<CapabilityPackView, AuthErrorView>(
                    AuthErrorView::NoCapability,
                ),
                Ok(Some(cap)) => exists|next: Result<ChainView, AuthErrorView>|
                    {
                        &&& #[trigger] delegating(
                            secrets,
                            sign,
                            cap@,
                            to,
                            restricted(restriction, cap@.area),
                            next,
                        )
                        &&& outcome == match next {
                            Ok(chain) => Ok(CapabilityPackView::Write(chain)),
                            Err(e) => Err(e),
                        }
                    },
            }
        }
}

/// Whether `outcome` comes of delegating the capability to read and, for the access mode
/// `Write`, the one to write, and of storing them, if `store` is set; those in `added` were
/// stored.
pub open spec fn delegating_full_caps<
    A: SecretStorage,
    C: CapsStorage,
    F: Fn(&DelegationDraft) -> Result<DelegationSeal, String>,
>(
    secrets: A,
    caps: C,
    sign: F,
    from: CapSelector,
    access_mode: AccessMode,
    to: DelegateTo,
    store: bool,
    added: Seq<CapabilityPackView>,
    outcome: Result<Seq<CapabilityPackView>, AuthErrorView>,
) -> bool {
    exists|read: Result<CapabilityPackView, AuthErrorView>|
        {
            &&& #[trigger] delegating_read_cap(
                secrets,
                caps,
                sign,
                from,
                to.user,
                to.restrict_area@,
                read,
            )
            &&& match read {
                Err(e) => added.len() == 0 && outcome == Err::<
                    Seq<CapabilityPackView>,
                    AuthErrorView,
                >(e),
                Ok(read) => if access_mode is Read {
                    keeping(caps, seq![read], store, added, outcome)
                } else {
                    exists|write: Result<CapabilityPackView, AuthErrorView>|
                        {
                            &&& #[trigger] delegating_write_cap(
                                secrets,
                                caps,
                                sign,
                                from,
                                to.user,
                                to.restrict_area@,
                                write,
                            )
                            &&& match write {
                                Err(e) => added.len() == 0 && outcome == Err::<
                                    Seq<CapabilityPackView>,
                                    AuthErrorView,
                                >(e),
                                Ok(write) => keeping(caps, seq![read, write], store, added, outcome),
                            }
                        }
                },
            }
        }
}

/// Delegates an authorisation to read over an area, and its proof of membership, where one can
/// be delegated, over the whole namespace.
fn delegate_authorisation<F: Fn(&DelegationDraft) -> Result<DelegationSeal, String>>(
    auth: &ReadAuthorisation,
    user_secret: &UserSecretKey,
    to: UserId,
    area: &Area,
    sign: &F,
) -> (r: Result<ReadAuthorisation, ChainError>)
    requires
        signs_all(*sign),
    ensures
        delegating_authorisation(*sign, auth@, *user_secret, to, area@, read_result(r)),
{
    let read = auth.read_cap().delegate(user_secret, &to, area, sign);
    let ghost read_view = chain_result(read);
    assert(signed_extension(
        *sign,
        auth@.read.delegations,
        next_draft_outcome(auth@.read, *user_secret, to, area@),
        read_view,
    ));
    let read_chain = match read {
        Ok(chain) => chain,
        Err(e) => {
            return Err(e);
        },
    };
    let full_area = Area::new_full();
    let membership = match auth.subspace_cap() {
        Some(chain) => chain,
        None => {
            return Ok(ReadAuthorisation::from_read_chain(read_chain));
        },
    };
    if membership.receiver() != auth.read_cap().receiver()
        || !membership.granted_area().includes_area(&full_area) {
        return Ok(ReadAuthorisation::from_read_chain(read_chain));
    }
    let enumerate = membership.delegate(user_secret, &to, &full_area, sign);
    let ghost enumerate_view = chain_result(enumerate);
    assert(signed_extension(
        *sign,
        membership@.delegations,
        next_draft_outcome(membership@, *user_secret, to, AreaView::full()),
        enumerate_view,
    ));
    match enumerate {
        Ok(chain) => Ok(ReadAuthorisation::new(read_chain, Some(chain))),
        Err(e) => Err(e),
    }
}

/// The outcome of delegating a chain.
pub open spec fn delegated_result(r: Result<UWillChain, AuthError>) -> Result<
    ChainView,
    AuthErrorView,
> {
    match r {
        Ok(chain) => Ok(chain@),
        Err(e) => Err(e@),
    }
}

impl<S: Storage> Auth<S> {
    /// Delegates a chain with the secret of the user it leads to.
    fn delegate_chain<F: Fn(&DelegationDraft) -> Result<DelegationSeal, String>>(
        &self,
        chain: &UWillChain,
        to: UserId,
        restrict_area: RestrictArea,
        sign: &F,
    ) -> (r: Result<UWillChain, AuthError>)
        requires
            signs_all(*sign),
        ensures
            delegating(
                self.secrets(),
                *sign,
                chain@,
                to,
                restricted(restrict_area@, chain@.area),
                delegated_result(r),
            ),
    {
        let user_id = chain.receiver();
        let found = self.user_secret(&user_id);
        let ghost found_view = secret_result(found);
        assert(finding_user_secret(self.secrets(), chain@.receiver(), found_view));
        let user_secret = match found {
            Ok(secret) => secret,
            Err(e) => {
                return Err(e);
            },
        };
        let area = restrict_area.or_default(chain.granted_area().clone());
        let next = chain.delegate(&user_secret, &to, &area, sign);
        let ghost next_view = chain_result(next);
        assert(signed_extension(
            *sign,
            chain@.delegations,
            next_draft_outcome(chain@, user_secret, to, area@),
            next_view,
        ));
        match next {
            Ok(chain) => Ok(chain),
            Err(e) => Err(AuthError::ChainError(e)),
        }
    }

    /// Delegates a capability to read, and with it the proof of membership, where there is one
    /// of the same user over the whole namespace. The latter is not restricted to the area: it
    /// shows that a user belongs to the namespace, and gives no access to data.
    pub fn delegate_read_cap<F: Fn(&DelegationDraft) -> Result<DelegationSeal, String>>(
        &self,
        from: &CapSelector,
        to: UserId,
        restrict_area: RestrictArea,
        sign: &F,
    ) -> (r: Result<CapabilityPack, AuthError>)
        requires
            signs_all(*sign),
        ensures
            delegating_read_cap(
                self.secrets(),
                self.caps(),
                *sign,
                *from,
                to,
                restrict_area@,
                pack_result(r),
            ),
    {
        let auth = match self.get_read_cap(from) {
            Ok(Some(auth)) => auth,
            Ok(None) => {
                return Err(AuthError::NoCapability);
            },
            Err(e) => {
                return Err(e);
            },
        };
        let read_cap = auth.read_cap();
        let found = self.user_secret(&read_cap.receiver());
        let ghost found_view = secret_result(found);
        assert(finding_user_secret(self.secrets(), auth@.read.receiver(), found_view));
        let ghost area_view = restricted(restrict_area@, auth@.read.area);
        let user_secret = match found {
            Ok(secret) => secret,
            Err(e) => {
                assert(delegating_found_authorisation(
                    self.secrets(),
                    *sign,
                    auth@,
                    to,
                    area_view,
                    Err::<CapabilityPackView, AuthErrorView>(e@),
                ));
                return Err(e);
            },
        };
        let area = restrict_area.or_default(read_cap.granted_area().clone());
        let next = delegate_authorisation(&auth, &user_secret, to, &area, sign);
        let ghost next_view = read_result(next);
        assert(delegating_authorisation(*sign, auth@, user_secret, to, area_view, next_view));
        let r = match next {
            Ok(next) => Ok(CapabilityPack::Read(next)),
            Err(e) => Err(AuthError::ChainError(e)),
        };
        assert(delegating_as_pack(*sign, auth@, user_secret, to, area_view, pack_result(r)));
        assert(delegating_found_authorisation(
            self.secrets(),
            *sign,
            auth@,
            to,
            area_view,
            pack_result(r),
        ));
        r
    }

    /// Delegates a capability to write.
    pub fn delegate_write_cap<F: Fn(&DelegationDraft) -> Result<DelegationSeal, String>>(
        &self,
        from: &CapSelector,
        to: UserId,
        restrict_area: RestrictArea,
        sign: &F,
    ) -> (r: Result<CapabilityPack, AuthError>)
        requires
            signs_all(*sign),
        ensures
            delegating_write_cap(
                self.secrets(),
                self.caps(),
                *sign,
                *from,
                to,
                restrict_area@,
                pack_result(r),
            ),
    {
        let cap = match self.get_write_cap(from) {
            Ok(Some(cap)) => cap,
            Ok(None) => {
                return Err(AuthError::NoCapability);
            },
            Err(e) => {
                return Err(e);
            },
        };
        let next = self.delegate_chain(&cap, to, restrict_area, sign);
        let ghost next_view = delegated_result(next);
        assert(delegating(
            self.secrets(),
            *sign,
            cap@,
            to,
            restricted(restrict_area@, cap@.area),
            next_view,
        ));
        match next {
            Ok(chain) => Ok(CapabilityPack::Write(chain)),
            Err(e) => Err(e),
        }
    }

    /// Delegates the capability to read and, for the access mode `Write`, the one to write.
    pub fn delegate_full_caps<F: Fn(&DelegationDraft) -> Result<DelegationSeal, String>>(
        &mut self,
        from: CapSelector,
        access_mode: AccessMode,
        to: DelegateTo,
        store: bool,
        sign: &F,
    ) -> (r: Result<Vec<CapabilityPack>, AuthError>)
        requires
            signs_all(*sign),
        ensures
            final(self).same_but_caps(old(self)),
            exists|added: Seq<CapabilityPackView>|
                #[trigger] delegating_full_caps(
                    old(self).secrets(),
                    old(self).caps(),
                    *sign,
                    from,
                    access_mode,
                    to,
                    store,
                    added,
                    packs_result(r),
                ) && final(self).packs() == with_packs(old(self).packs(), added),
    {
        let ghost none = Seq::<CapabilityPackView>::empty();
        assert(self.packs() =~= with_packs(old(self).packs(), none));
        let ghost (secrets, caps) = (self.secrets(), self.caps());
        let read = self.delegate_read_cap(&from, to.user, to.restrict_area.clone(), sign);
        let ghost read_view = pack_result(read);
        assert(delegating_read_cap(
            secrets,
            caps,
            *sign,
            from,
            to.user,
            to.restrict_area@,
            read_view,
        ));
        let read_cap = match read {
            Ok(cap) => cap,
            Err(e) => {
                assert(delegating_full_caps(
                    secrets,
                    caps,
                    *sign,
                    from,
                    access_mode,
                    to,
                    store,
                    none,
                    Err::<Seq<CapabilityPackView>, AuthErrorView>(e@),
                ));
                return Err(e);
            },
        };
        let ghost mut packs = seq![read_cap@];
        let mut out: Vec<CapabilityPack> = Vec::new();
        out.push(read_cap);
        if access_mode == AccessMode::Write {
            let write = self.delegate_write_cap(&from, to.user, to.restrict_area.clone(), sign);
            let ghost write_view = pack_result(write);
            assert(delegating_write_cap(
                secrets,
                caps,
                *sign,
                from,
                to.user,
                to.restrict_area@,
                write_view,
            ));
            match write {
                Ok(cap) => {
                    proof {
                        packs = seq![packs[0], cap@];
                    }
                    out.push(cap);
                },
                Err(e) => {
                    assert(delegating_full_caps(
                        secrets,
                        caps,
                        *sign,
                        from,
                        access_mode,
                        to,
                        store,
                        none,
                        Err::<Seq<CapabilityPackView>, AuthErrorView>(e@),
                    ));
                    return Err(e);
                },
            }
        }
        assert(pack_views(out@) =~= packs);
        let r = self.keep(out, store);
        proof {
            let added = choose|added: Seq<CapabilityPackView>|
                #[trigger] keeping(caps, packs, store, added, packs_result(r)) && self.packs()
                    == with_packs(old(self).packs(), added);
            assert(delegating_full_caps(
                secrets,
                caps,
                *sign,
                from,
                access_mode,
                to,
                store,
                added,
                packs_result(r),
            ));
        }
        r
    }
}

} // verus!
