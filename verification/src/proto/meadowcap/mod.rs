//! Capabilities to read and to write, as chains of delegations.

pub mod serde_encoding;

use vstd::prelude::*;

use super::data_model::{path_error, Entry};
use super::grouping::{Area, AreaView};
use super::keys::{verifying_key_error, NamespaceId, NamespaceSecretKey, UserId, UserSecretKey};
use crate::text::concat_text;
use crate::uwill::area_extract::AreaExtractError;
use crate::uwill::area_facts::law_empty_policy_is_the_full_area;
use crate::uwill::area_laws::{has_faithful_policy, law_areas_of_policies_are_faithful};
use crate::uwill::chain::{chain_result, extension_outcome, is_chain, next_draft_outcome, root_draft_outcome, seal_result, signed_extension, signs_all, ChainError, ChainErrorView, ChainView};
use crate::uwill::chain_facts::{law_holder_can_pass_on, law_owner_can_give, signs_validly};
use crate::uwill::chain_laws::{law_delegation_narrows, law_root_chain};
use crate::uwill::invocation::clock_gave;
use crate::uwill::ucan::{DelegationDraft, DelegationSeal};
use crate::uwill::{UWillChain, UWillInvocation, WillowCommand};

verus! {

pub type McCapability = UWillChain;

pub type ReadCapability = UWillChain;

pub type WriteCapability = UWillChain;

pub type SubspaceCapability = UWillChain;

pub type McAuthorisationToken = UWillInvocation;

/// What a capability allows.
#[derive(Clone, Copy, Debug, PartialEq, Eq, Hash, Structural)]
pub enum AccessMode {
    Read,
    Write,
}

/// Tells communal namespaces, in which every user can make capabilities, from owned
/// ones, in which the holder of the secret of the namespace grants access.
pub trait IsCommunal {
    fn is_communal(&self) -> bool;
}

/// A secret key of either kind.
#[derive(Debug)]
pub enum SecretKey {
    User(UserSecretKey),
    Namespace(NamespaceSecretKey),
}

impl From<UserSecretKey> for SecretKey {
    fn from(key: UserSecretKey) -> (r: Self) {
        SecretKey::User(key)
    }
}

impl vstd::std_specs::convert::FromSpecImpl<UserSecretKey> for SecretKey {
    open spec fn obeys_from_spec() -> bool {
        true
    }

    open spec fn from_spec(key: UserSecretKey) -> Self {
        SecretKey::User(key)
    }
}

impl From<NamespaceSecretKey> for SecretKey {
    fn from(key: NamespaceSecretKey) -> (r: Self) {
        SecretKey::Namespace(key)
    }
}

impl vstd::std_specs::convert::FromSpecImpl<NamespaceSecretKey> for SecretKey {
    open spec fn obeys_from_spec() -> bool {
        true
    }

    open spec fn from_spec(key: NamespaceSecretKey) -> Self {
        SecretKey::Namespace(key)
    }
}

// ---------------------------------------------------------------------------
// Capabilities to read
// ---------------------------------------------------------------------------

/// What an authorisation to read holds.
pub struct ReadAuthorisationView {
    pub read: ChainView,
    pub enumerate: Option<ChainView>,
}

/// The authorisation to read an area of a namespace: a chain that proves read, and
/// possibly one that proves membership, for overlaps that are found out only by it.
#[derive(Debug)]
pub struct ReadAuthorisation {
    read_chain: UWillChain,
    enumerate_chain: Option<UWillChain>,
}

/// The view of a chain that may be missing.
pub open spec fn option_chain(chain: Option<UWillChain>) -> Option<ChainView> {
    match chain {
        Some(c) => Some(c@),
        None => None,
    }
}

impl View for ReadAuthorisation {
    type V = ReadAuthorisationView;

    closed spec fn view(&self) -> ReadAuthorisationView {
        ReadAuthorisationView {
            read: self.read_chain@,
            enumerate: option_chain(self.enumerate_chain),
        }
    }
}

impl Clone for ReadAuthorisation {
    fn clone(&self) -> (r: Self)
        ensures
            r@ == self@,
    {
        ReadAuthorisation {
            read_chain: self.read_chain.clone(),
            enumerate_chain: match &self.enumerate_chain {
                Some(chain) => Some(chain.clone()),
                None => None,
            },
        }
    }
}

impl PartialEq for ReadAuthorisation {
    fn eq(&self, other: &Self) -> (r: bool) {
        self.read_chain == other.read_chain
    }
}

impl vstd::std_specs::cmp::PartialEqSpecImpl for ReadAuthorisation {
    open spec fn obeys_eq_spec() -> bool {
        true
    }

    open spec fn eq_spec(&self, other: &Self) -> bool {
        self@.read.same_capability(other@.read)
    }
}

/// The outcome of making an authorisation to read.
pub open spec fn read_result(r: Result<ReadAuthorisation, ChainError>) -> Result<
    ReadAuthorisationView,
    ChainErrorView,
> {
    match r {
        Ok(auth) => Ok(auth@),
        Err(e) => Err(e@),
    }
}

/// Whether `outcome` is that of the owner of a namespace giving a user the capability
/// to read all of it and, after that, the proof of membership.
pub open spec fn owned_read_outcome<
    F: Fn(&DelegationDraft) -> Result<DelegationSeal, String>,
>(
    sign: F,
    namespace_secret: NamespaceSecretKey,
    user_key: UserId,
    outcome: Result<ReadAuthorisationView, ChainErrorView>,
) -> bool {
    let namespace_id = namespace_secret.spec_id();
    exists|read: Result<ChainView, ChainErrorView>|
        {
            &&& #[trigger] signed_extension(
                sign,
                seq![],
                root_draft_outcome(namespace_id, namespace_secret, user_key, WillowCommand::Read),
                read,
            )
            &&& match read {
                Err(e) => outcome == Err::<ReadAuthorisationView, ChainErrorView>(e),
                Ok(read) => exists|enumerate: Result<ChainView, ChainErrorView>|
                    {
                        &&& #[trigger] signed_extension(
                            sign,
                            seq![],
                            root_draft_outcome(
                                namespace_id,
                                namespace_secret,
                                user_key,
                                WillowCommand::Enumerate,
                            ),
                            enumerate,
                        )
                        &&& outcome == match enumerate {
                            Ok(enumerate) => Ok(
                                ReadAuthorisationView { read, enumerate: Some(enumerate) },
                            ),
                            Err(e) => Err(e),
                        }
                    },
            }
        }
}

/// Whether an area can overlap with the area of another in a way that is found out only
/// by a proof of membership: it covers all subspaces, but not all paths.
pub open spec fn needs_membership_proof(area: AreaView) -> bool {
    area.subspace is Any && area.path.len() > 0
}

/// Whether `outcome` is that of delegating an authorisation to read: the chain that
/// proves read over the new area, and the one that proves membership, if there is one
/// and the new area needs it, over everything.
pub open spec fn delegated_read_outcome<
    F: Fn(&DelegationDraft) -> Result<DelegationSeal, String>,
>(
    sign: F,
    auth: ReadAuthorisationView,
    user_secret: UserSecretKey,
    new_user: UserId,
    new_area: AreaView,
    outcome: Result<ReadAuthorisationView, ChainErrorView>,
) -> bool {
    exists|read: Result<ChainView, ChainErrorView>|
        {
            &&& #[trigger] signed_extension(
                sign,
                auth.read.delegations,
                next_draft_outcome(auth.read, user_secret, new_user, new_area),
                read,
            )
            &&& match read {
                Err(e) => outcome == Err::<ReadAuthorisationView, ChainErrorView>(e),
                Ok(read) => if auth.enumerate is Some && needs_membership_proof(new_area) {
                    exists|enumerate: Result<ChainView, ChainErrorView>|
                        {
                            &&& #[trigger] signed_extension(
                                sign,
                                auth.enumerate->0.delegations,
                                next_draft_outcome(
                                    auth.enumerate->0,
                                    user_secret,
                                    new_user,
                                    AreaView::full(),
                                ),
                                enumerate,
                            )
                            &&& outcome == match enumerate {
                                Ok(enumerate) => Ok(
                                    ReadAuthorisationView { read, enumerate: Some(enumerate) },
                                ),
                                Err(e) => Err(e),
                            }
                        }
                } else {
                    outcome == Ok::<ReadAuthorisationView, ChainErrorView>(
                        ReadAuthorisationView { read, enumerate: None },
                    )
                },
            }
        }
}

impl ReadAuthorisation {
    pub fn new(read_chain: UWillChain, enumerate_chain: Option<UWillChain>) -> (r: Self)
        ensures
            r@ == (ReadAuthorisationView {
                read: read_chain@,
                enumerate: option_chain(enumerate_chain),
            }),
    {
        ReadAuthorisation { read_chain, enumerate_chain }
    }

    /// The authorisation of a user, by the owner of a namespace, to read all of it,
    /// together with the proof of membership.
    pub fn new_owned<F: Fn(&DelegationDraft) -> Result<DelegationSeal, String>>(
        namespace_secret: &NamespaceSecretKey,
        user_key: UserId,
        sign: &F,
    ) -> (r: Result<Self, ChainError>)
        requires
            signs_all(*sign),
        ensures
            owned_read_outcome(*sign, *namespace_secret, user_key, read_result(r)),
    {
        let ns_id = namespace_secret.id();
        let read = UWillChain::new_owned(
            ns_id,
            namespace_secret,
            user_key,
            AccessMode::Read,
            sign,
        );
        let ghost read_view = chain_result(read);
        assert(signed_extension(
            *sign,
            seq![],
            root_draft_outcome(ns_id, *namespace_secret, user_key, WillowCommand::Read),
            read_view,
        ));
        let read_chain = match read {
            Ok(chain) => chain,
            Err(e) => {
                return Err(e);
            },
        };
        let enumerate = UWillChain::new_enumerate(ns_id, namespace_secret, user_key, sign);
        let ghost enumerate_view = chain_result(enumerate);
        assert(signed_extension(
            *sign,
            seq![],
            root_draft_outcome(ns_id, *namespace_secret, user_key, WillowCommand::Enumerate),
            enumerate_view,
        ));
        match enumerate {
            Ok(chain) => Ok(Self::new(read_chain, Some(chain))),
            Err(e) => Err(e),
        }
    }

    /// The authorisation that a chain alone gives.
    pub fn from_read_chain(chain: UWillChain) -> (r: Self)
        ensures
            r@ == (ReadAuthorisationView { read: chain@, enumerate: None }),
    {
        ReadAuthorisation { read_chain: chain, enumerate_chain: None }
    }

    /// The chain that proves read.
    pub fn read_cap(&self) -> (r: &UWillChain)
        ensures
            r@ == self@.read,
    {
        &self.read_chain
    }

    /// The chain that proves membership, if there is one.
    pub fn subspace_cap(&self) -> (r: Option<&UWillChain>)
        ensures
            match r {
                Some(chain) => self@.enumerate == Some(chain@),
                None => self@.enumerate is None,
            },
    {
        self.enumerate_chain.as_ref()
    }

    /// The namespace that can be read.
    pub fn namespace(&self) -> (r: NamespaceId)
        ensures
            r == self@.read.namespace(),
    {
        self.read_chain.granted_namespace()
    }

    /// Gives another user this authorisation over an area.
    ///
    /// The proof of membership is passed on where the new area needs it. It is not
    /// restricted to the area: it proves membership in the namespace.
    pub fn delegate<F: Fn(&DelegationDraft) -> Result<DelegationSeal, String>>(
        &self,
        user_secret: &UserSecretKey,
        new_user: UserId,
        new_area: Area,
        sign: &F,
    ) -> (r: Result<Self, ChainError>)
        requires
            signs_all(*sign),
        ensures
            delegated_read_outcome(
                *sign,
                self@,
                *user_secret,
                new_user,
                new_area@,
                read_result(r),
            ),
    {
        let read = self.read_chain.delegate(user_secret, &new_user, &new_area, sign);
        let ghost read_view = chain_result(read);
        assert(signed_extension(
            *sign,
            self@.read.delegations,
            next_draft_outcome(self@.read, *user_secret, new_user, new_area@),
            read_view,
        ));
        let new_chain = match read {
            Ok(chain) => chain,
            Err(e) => {
                return Err(e);
            },
        };
        let enumerate_chain = match &self.enumerate_chain {
            Some(enum_chain) => {
                if new_area.subspace().is_any() && !new_area.path().is_empty() {
                    let full_area = Area::new_full();
                    let enumerate = enum_chain.delegate(user_secret, &new_user, &full_area, sign);
                    let ghost enumerate_view = chain_result(enumerate);
                    assert(signed_extension(
                        *sign,
                        self@.enumerate->0.delegations,
                        next_draft_outcome(
                            self@.enumerate->0,
                            *user_secret,
                            new_user,
                            AreaView::full(),
                        ),
                        enumerate_view,
                    ));
                    match enumerate {
                        Ok(chain) => Some(chain),
                        Err(e) => {
                            return Err(e);
                        },
                    }
                } else {
                    None
                }
            },
            None => None,
        };
        Ok(Self::new(new_chain, enumerate_chain))
    }
}

/// An authorisation to read that the owner of a namespace gives holds a chain that proves read
/// and one that proves membership and nothing else, both over the whole namespace.
pub proof fn law_owned_read_authorisation<
    F: Fn(&DelegationDraft) -> Result<DelegationSeal, String>,
>(
    sign: F,
    namespace_secret: NamespaceSecretKey,
    user_key: UserId,
    auth: ReadAuthorisationView,
)
    requires
        owned_read_outcome(
            sign,
            namespace_secret,
            user_key,
            Ok::<ReadAuthorisationView, ChainErrorView>(auth),
        ),
    ensures
        is_chain(auth.read),
        auth.read.command is Read,
        auth.read.area == AreaView::full(),
        auth.read.namespace() == namespace_secret.spec_id(),
        auth.read.receiver() == user_key,
        auth.enumerate matches Some(enumerate) && {
            &&& is_chain(enumerate)
            &&& enumerate.command is Enumerate
            &&& enumerate.area == AreaView::full()
            &&& enumerate.namespace() == namespace_secret.spec_id()
            &&& enumerate.receiver() == user_key
        },
{
    let id = namespace_secret.spec_id();
    let read_draft = root_draft_outcome(id, namespace_secret, user_key, WillowCommand::Read);
    let read = choose|read: Result<ChainView, ChainErrorView>|
        #[trigger] signed_extension(sign, seq![], read_draft, read) && match read {
            Err(e) => false,
            Ok(read) => read == auth.read && exists|enumerate: Result<ChainView, ChainErrorView>|
                #[trigger] signed_extension(
                    sign,
                    seq![],
                    root_draft_outcome(id, namespace_secret, user_key, WillowCommand::Enumerate),
                    enumerate,
                ) && enumerate is Ok && auth.enumerate == Some(enumerate->Ok_0),
        };
    lemma_signed_root(sign, id, namespace_secret, user_key, WillowCommand::Read, auth.read);
    lemma_signed_root(
        sign,
        id,
        namespace_secret,
        user_key,
        WillowCommand::Enumerate,
        auth.enumerate->0,
    );
}

/// What the owner of a namespace signs for a user, where a chain comes of it, is the command
/// over the whole namespace.
pub proof fn lemma_signed_root<F: Fn(&DelegationDraft) -> Result<DelegationSeal, String>>(
    sign: F,
    namespace_id: NamespaceId,
    namespace_secret: NamespaceSecretKey,
    user_key: UserId,
    command: WillowCommand,
    chain: ChainView,
)
    requires
        signed_extension(
            sign,
            seq![],
            root_draft_outcome(namespace_id, namespace_secret, user_key, command),
            Ok::<ChainView, ChainErrorView>(chain),
        ),
    ensures
        is_chain(chain),
        chain.command == command,
        chain.area == AreaView::full(),
        chain.namespace() == namespace_id,
        chain.receiver() == user_key,
{
    let draft = root_draft_outcome(namespace_id, namespace_secret, user_key, command);
    let (d, reply) = choose|d: DelegationDraft, reply: Result<DelegationSeal, String>|
        d@ == draft->Ok_0 && #[trigger] call_ensures(sign, (&d,), reply) && Ok::<
            ChainView,
            ChainErrorView,
        >(chain) == extension_outcome(seq![], draft->Ok_0, seal_result(reply));
    law_root_chain(
        namespace_id,
        namespace_secret,
        user_key,
        command,
        seal_result(reply)->Ok_0,
        chain,
    );
}

/// A delegated authorisation to read covers no more than the one it comes from, in the same
/// namespace, with the same command: the area that was asked for, where that can be told from its
/// policy. It has a proof of membership, over the whole namespace, exactly if the other had one
/// and the new area is one of all subspaces with a path that is not empty.
pub proof fn law_delegated_read_authorisation<
    F: Fn(&DelegationDraft) -> Result<DelegationSeal, String>,
>(
    sign: F,
    auth: ReadAuthorisationView,
    user_secret: UserSecretKey,
    new_user: UserId,
    new_area: AreaView,
    next: ReadAuthorisationView,
)
    requires
        is_chain(auth.read),
        auth.enumerate matches Some(enumerate) ==> is_chain(enumerate),
        delegated_read_outcome(
            sign,
            auth,
            user_secret,
            new_user,
            new_area,
            Ok::<ReadAuthorisationView, ChainErrorView>(next),
        ),
    ensures
        is_chain(next.read),
        next.read.command == auth.read.command,
        next.read.namespace() == auth.read.namespace(),
        next.read.receiver() == new_user,
        auth.read.area.includes_area(next.read.area),
        path_error(new_area.path) is None && has_faithful_policy(new_area) ==> next.read.area
            == new_area,
        next.read.delegations.drop_last() == auth.read.delegations,
        next.enumerate is Some <==> auth.enumerate is Some && new_area.subspace is Any
            && new_area.path.len() > 0,
        next.enumerate matches Some(enumerate) ==> {
            &&& is_chain(enumerate)
            &&& enumerate.delegations.drop_last() == auth.enumerate->0.delegations
            &&& enumerate.command == auth.enumerate->0.command
            &&& enumerate.namespace() == auth.enumerate->0.namespace()
            &&& enumerate.receiver() == new_user
            &&& enumerate.area == AreaView::full()
        },
{
    let with_membership = auth.enumerate is Some && needs_membership_proof(new_area);
    let read = choose|read: Result<ChainView, ChainErrorView>|
        #[trigger] signed_extension(
            sign,
            auth.read.delegations,
            next_draft_outcome(auth.read, user_secret, new_user, new_area),
            read,
        ) && match read {
            Err(e) => false,
            Ok(read) => read == next.read && if with_membership {
                exists|enumerate: Result<ChainView, ChainErrorView>|
                    #[trigger] signed_extension(
                        sign,
                        auth.enumerate->0.delegations,
                        next_draft_outcome(
                            auth.enumerate->0,
                            user_secret,
                            new_user,
                            AreaView::full(),
                        ),
                        enumerate,
                    ) && enumerate is Ok && next.enumerate == Some(enumerate->Ok_0)
            } else {
                next.enumerate is None
            },
        };
    lemma_signed_next(sign, auth.read, user_secret, new_user, new_area, next.read);
    if with_membership {
        lemma_signed_next(
            sign,
            auth.enumerate->0,
            user_secret,
            new_user,
            AreaView::full(),
            next.enumerate->0,
        );
    }
}

proof fn lemma_signed_next<F: Fn(&DelegationDraft) -> Result<DelegationSeal, String>>(
    sign: F,
    chain: ChainView,
    user_secret: UserSecretKey,
    new_user: UserId,
    new_area: AreaView,
    next: ChainView,
)
    requires
        is_chain(chain),
        signed_extension(
            sign,
            chain.delegations,
            next_draft_outcome(chain, user_secret, new_user, new_area),
            Ok::<ChainView, ChainErrorView>(next),
        ),
    ensures
        is_chain(next),
        next.command == chain.command,
        next.namespace() == chain.namespace(),
        next.receiver() == new_user,
        chain.area.includes_area(next.area),
        next.delegations.drop_last() == chain.delegations,
        path_error(new_area.path) is None && has_faithful_policy(new_area) ==> next.area
            == new_area,
        new_area == AreaView::full() ==> next.area == AreaView::full(),
{
    let draft = next_draft_outcome(chain, user_secret, new_user, new_area);
    let (d, reply) = choose|d: DelegationDraft, reply: Result<DelegationSeal, String>|
        d@ == draft->Ok_0 && #[trigger] call_ensures(sign, (&d,), reply) && Ok::<
            ChainView,
            ChainErrorView,
        >(next) == extension_outcome(chain.delegations, draft->Ok_0, seal_result(reply));
    law_delegation_narrows(
        chain,
        user_secret,
        new_user,
        new_area,
        seal_result(reply)->Ok_0,
    );
}

/// With a signer that signs, the owner of a namespace can authorise every user to read.
pub proof fn law_owner_can_authorise<F: Fn(&DelegationDraft) -> Result<DelegationSeal, String>>(
    sign: F,
    namespace_secret: NamespaceSecretKey,
    user_key: UserId,
    outcome: Result<ReadAuthorisationView, ChainErrorView>,
)
    requires
        owned_read_outcome(sign, namespace_secret, user_key, outcome),
        signs_validly(sign),
        verifying_key_error(user_key.bytes@) is None,
        verifying_key_error(namespace_secret.spec_id().bytes@) is None,
    ensures
        outcome is Ok,
{
    let id = namespace_secret.spec_id();
    let read_draft = root_draft_outcome(id, namespace_secret, user_key, WillowCommand::Read);
    let draft = root_draft_outcome(id, namespace_secret, user_key, WillowCommand::Enumerate);
    let read = choose|read: Result<ChainView, ChainErrorView>|
        {
            &&& #[trigger] signed_extension(sign, seq![], read_draft, read)
            &&& match read {
                Err(e) => outcome == Err::<ReadAuthorisationView, ChainErrorView>(e),
                Ok(read) => exists|enumerate: Result<ChainView, ChainErrorView>|
                    {
                        &&& #[trigger] signed_extension(sign, seq![], draft, enumerate)
                        &&& outcome == match enumerate {
                            Ok(enumerate) => Ok(
                                ReadAuthorisationView { read, enumerate: Some(enumerate) },
                            ),
                            Err(e) => Err(e),
                        }
                    },
            }
        };
    law_owner_can_give(sign, id, namespace_secret, user_key, WillowCommand::Read, read);
    let enumerate = choose|enumerate: Result<ChainView, ChainErrorView>|
        {
            &&& #[trigger] signed_extension(sign, seq![], draft, enumerate)
            &&& outcome == match enumerate {
                Ok(enumerate) => Ok(
                    ReadAuthorisationView { read: read->Ok_0, enumerate: Some(enumerate) },
                ),
                Err(e) => Err(e),
            }
        };
    law_owner_can_give(sign, id, namespace_secret, user_key, WillowCommand::Enumerate, enumerate);
}

/// With a signer that signs, the user of an authorisation to read can pass it on to every user,
/// over every area within its own that can be told from its policy; its proof of membership has
/// to be one of the same user over the whole namespace.
pub proof fn law_holder_can_authorise<F: Fn(&DelegationDraft) -> Result<DelegationSeal, String>>(
    sign: F,
    auth: ReadAuthorisationView,
    user_secret: UserSecretKey,
    new_user: UserId,
    new_area: AreaView,
    outcome: Result<ReadAuthorisationView, ChainErrorView>,
)
    requires
        delegated_read_outcome(sign, auth, user_secret, new_user, new_area, outcome),
        signs_validly(sign),
        is_chain(auth.read),
        user_secret.spec_id() == auth.read.receiver(),
        verifying_key_error(new_user.bytes@) is None,
        path_error(new_area.path) is None,
        has_faithful_policy(new_area),
        auth.read.area.includes_area(new_area),
        auth.enumerate matches Some(membership) ==> {
            &&& is_chain(membership)
            &&& membership.receiver() == auth.read.receiver()
            &&& membership.area == AreaView::full()
        },
    ensures
        outcome is Ok,
        outcome->Ok_0.read.area == new_area,
{
    let read_draft = next_draft_outcome(auth.read, user_secret, new_user, new_area);
    let membership = auth.enumerate->0;
    let full = AreaView::full();
    let draft = next_draft_outcome(membership, user_secret, new_user, full);
    let with_membership = auth.enumerate is Some && needs_membership_proof(new_area);
    let read = choose|read: Result<ChainView, ChainErrorView>|
        {
            &&& #[trigger] signed_extension(sign, auth.read.delegations, read_draft, read)
            &&& match read {
                Err(e) => outcome == Err::<ReadAuthorisationView, ChainErrorView>(e),
                Ok(read) => if with_membership {
                    exists|enumerate: Result<ChainView, ChainErrorView>|
                        {
                            &&& #[trigger] signed_extension(
                                sign,
                                membership.delegations,
                                draft,
                                enumerate,
                            )
                            &&& outcome == match enumerate {
                                Ok(enumerate) => Ok(
                                    ReadAuthorisationView { read, enumerate: Some(enumerate) },
                                ),
                                Err(e) => Err(e),
                            }
                        }
                } else {
                    outcome == Ok::<ReadAuthorisationView, ChainErrorView>(
                        ReadAuthorisationView { read, enumerate: None },
                    )
                },
            }
        };
    law_holder_can_pass_on(sign, auth.read, user_secret, new_user, new_area, read);
    if with_membership {
        let enumerate = choose|enumerate: Result<ChainView, ChainErrorView>|
            {
                &&& #[trigger] signed_extension(sign, membership.delegations, draft, enumerate)
                &&& outcome == match enumerate {
                    Ok(enumerate) => Ok(
                        ReadAuthorisationView { read: read->Ok_0, enumerate: Some(enumerate) },
                    ),
                    Err(e) => Err(e),
                }
            };
        super::grouping::law_area_includes_itself(full);
        law_empty_policy_is_the_full_area();
        assert(full.path =~= seq![]);
        law_areas_of_policies_are_faithful(seq![], full);
        law_holder_can_pass_on(sign, membership, user_secret, new_user, full, enumerate);
    }
}

// ---------------------------------------------------------------------------
// Helpers
// ---------------------------------------------------------------------------

/// Whether the token authorises, by now, to write the entry.
pub fn is_authorised_write(entry: &Entry, token: &McAuthorisationToken) -> (r: bool)
    ensures
        exists|now_secs: u64|
            clock_gave(now_secs) && r == ((#[trigger] token@.write_outcome(entry@, now_secs)) is Ok),
{
    token.is_authorised_write(entry)
}

/// Whether `a` covers a larger area than `b`, or the same area with fewer delegations.
pub open spec fn wider_than(a: ChainView, b: ChainView) -> bool {
    ||| a.area.includes_area(b.area) && a.area != b.area
    ||| a.area == b.area && a.delegations.len() < b.delegations.len()
}

/// Whether `a` covers a larger area than `b`, or the same area with fewer delegations.
pub fn is_wider_than(a: &McCapability, b: &McCapability) -> (r: bool)
    ensures
        r == wider_than(a@, b@),
{
    if *a.granted_area() == *b.granted_area() {
        a.delegations().len() < b.delegations().len()
    } else {
        a.granted_area().includes_area(b.granted_area())
    }
}

/// No capability is wider than itself, nor are two wider than each other.
pub proof fn law_wider_is_strict(a: ChainView, b: ChainView)
    requires
        wider_than(a, b),
    ensures
        !wider_than(b, a),
{
    if a.area != b.area && b.area.includes_area(a.area) {
        assert(a.area.path =~= b.area.path);
    }
}

/// What is wider than a capability is wider than whatever that is wider than.
pub proof fn law_wider_is_transitive(a: ChainView, b: ChainView, c: ChainView)
    requires
        wider_than(a, b),
        wider_than(b, c),
    ensures
        wider_than(a, c),
{
    if a.area.includes_area(b.area) && b.area.includes_area(c.area) {
        super::grouping::law_area_inclusion_is_transitive(a.area, b.area, c.area);
        if a.area == c.area && a.area != b.area {
            assert(a.area.path =~= b.area.path);
        }
    }
}

/// A capability is wider than another exactly if it covers all that the other covers and the
/// other does not, or if each covers what the other covers and it has fewer delegations.
pub proof fn law_wider_iff(a: ChainView, b: ChainView)
    ensures
        wider_than(a, b) <==> a.area.includes_area(b.area) && (b.area.includes_area(a.area)
            ==> a.delegations.len() < b.delegations.len()),
{
    if a.area.includes_area(b.area) && b.area.includes_area(a.area) {
        super::grouping::law_areas_that_include_each_other(a.area, b.area);
    }
    super::grouping::law_area_includes_itself(a.area);
}

/// Why delegating failed.
#[derive(Debug)]
pub enum FailedDelegationError {
    Chain(ChainError),
    AreaExtract(AreaExtractError),
}

impl FailedDelegationError {
    /// The message of the error.
    pub fn message(&self) -> (r: String)
        ensures
            r@ == match self {
                FailedDelegationError::Chain(e) => "chain error: "@ + e@.message(),
                FailedDelegationError::AreaExtract(e) => "area extraction error: "@ + e@.message(),
            },
    {
        match self {
            FailedDelegationError::Chain(e) => concat_text("chain error: ", e.message().as_str()),
            FailedDelegationError::AreaExtract(e) => concat_text(
                "area extraction error: ",
                e.message().as_str(),
            ),
        }
    }
}

/// The outcome that contracts speak of is the one that came.
pub proof fn law_outcomes_of_authorisations(r: Result<ReadAuthorisation, ChainError>)
    ensures
        read_result(r) is Ok <==> r is Ok,
        r is Ok ==> read_result(r)->Ok_0 == r->Ok_0@,
        r is Err ==> read_result(r)->Err_0 == r->Err_0@,
{
}

/// An authorisation that is delegated comes with a proof of membership exactly if there is one
/// to pass on and the new area covers all subspaces but not all paths; the proof is then over
/// the whole namespace. Both are for the new user.
pub proof fn law_delegating_an_authorisation<
    F: Fn(&DelegationDraft) -> Result<DelegationSeal, String>,
>(
    auth: ReadAuthorisation,
    user_secret: UserSecretKey,
    new_user: UserId,
    new_area: Area,
    sign: F,
    r: Result<ReadAuthorisation, ChainError>,
)
    requires
        call_ensures(
            ReadAuthorisation::delegate::<F>,
            (&auth, &user_secret, new_user, new_area, &sign),
            r,
        ),
        is_chain(auth@.read),
        auth@.enumerate matches Some(enumerate) ==> is_chain(enumerate),
        r is Ok,
    ensures
        r->Ok_0@.read.receiver() == new_user,
        r->Ok_0@.read.command == auth@.read.command,
        r->Ok_0@.read.namespace() == auth@.read.namespace(),
        auth@.read.area.includes_area(r->Ok_0@.read.area),
        has_faithful_policy(new_area@) && path_error(new_area@.path) is None
            ==> r->Ok_0@.read.area == new_area@,
        r->Ok_0@.enumerate is Some <==> auth@.enumerate is Some && new_area@.subspace is Any
            && new_area@.path.len() > 0,
        r->Ok_0@.enumerate is Some ==> r->Ok_0@.enumerate->0.receiver() == new_user
            && r->Ok_0@.enumerate->0.area == AreaView::full(),
{
    law_delegated_read_authorisation(sign, auth@, user_secret, new_user, new_area@, r->Ok_0@);
}

} // verus!
