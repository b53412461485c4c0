//! What holds of the capabilities of every node.

use vstd::prelude::*;

use super::auth::{admitting, all_interests, creating_full_caps, creating_read_cap, creating_read_pack, creating_write_cap, delegable_membership, delegating, delegating_as_pack, delegating_authorisation, delegating_found_authorisation, delegating_full_caps, delegating_read_cap, delegating_write_cap, finding_namespace_secret, finding_user_secret, importing, importing_all, keeping, revocation_outcome, selected_interests, with_packs, AuthErrorView};
use super::traits::{CapsStorage, SecretStorage};
use crate::interest::{capability_key, restricted, selected_areas, widest, AreaOfInterestSelector, CapSelector, CapabilityKey, CapabilityPackView, DelegateTo};
use crate::proto::grouping::{AreaOfInterestView, AreaView};
use crate::proto::keys::{NamespaceId, NamespaceSecretKey, UserId, UserSecretKey};
use crate::proto::meadowcap::{law_owned_read_authorisation, lemma_signed_root, owned_read_outcome, AccessMode, ReadAuthorisation, ReadAuthorisationView, WriteCapability};
use crate::uwill::chain::{extension_outcome, is_chain, next_draft_outcome, root_draft_outcome, seal_result, signed_extension, ChainErrorView, ChainView};
use crate::uwill::chain_laws::law_delegation_narrows;
use crate::uwill::command::WillowCommand;
use crate::uwill::invocation::UWillInvocationView;
use crate::uwill::revocation::{chain_revoked, law_revocation_revokes_chains_with_it};
use crate::uwill::ucan::{DelegationDraft, DelegationSeal};

verus! {

/// A pack whose chain is revoked, or that is not what it says, is not imported, nor is any
/// after it.
pub proof fn law_refused_packs_are_not_imported<A: SecretStorage, C: CapsStorage>(
    secrets: A,
    caps: C,
    revoked: Set<Seq<u8>>,
    packs: Seq<CapabilityPackView>,
    n: int,
    outcome: Result<(), AuthErrorView>,
    i: int,
)
    requires
        importing_all(secrets, caps, revoked, packs, n, outcome),
        0 <= i < packs.len(),
        chain_revoked(revoked, packs[i].chain()) || packs[i].error() is Some,
    ensures
        n <= i,
        outcome is Err,
{
    if i < n {
        assert(importing::<A, C>(
            secrets,
            with_packs(caps.packs(), packs.take(i)),
            revoked,
            packs[i],
            None,
        ));
    }
}

/// Each pack that was imported is what it says, is not revoked, and there is a secret of its
/// user.
pub proof fn law_imported_packs_are_admitted<A: SecretStorage, C: CapsStorage>(
    secrets: A,
    caps: C,
    revoked: Set<Seq<u8>>,
    packs: Seq<CapabilityPackView>,
    n: int,
    outcome: Result<(), AuthErrorView>,
    i: int,
)
    requires
        importing_all(secrets, caps, revoked, packs, n, outcome),
        0 <= i < n,
    ensures
        packs[i].error() is None,
        !chain_revoked(revoked, packs[i].chain()),
        ({
            let user_id = packs[i].chain().receiver();
            call_ensures(A::has_user, (&secrets, &user_id), Ok(true))
        }),
{
    assert(importing::<A, C>(
        secrets,
        with_packs(caps.packs(), packs.take(i)),
        revoked,
        packs[i],
        None,
    ));
    assert(admitting(secrets, revoked, packs[i], None));
}

/// Importing puts no pack into the storage but such as are what they say, are not revoked,
/// and are of a user whose secret there is; so a pack that is refused does not get in.
pub proof fn law_storage_takes_admitted_packs_only<A: SecretStorage, C: CapsStorage>(
    secrets: A,
    caps: C,
    revoked: Set<Seq<u8>>,
    packs: Seq<CapabilityPackView>,
    n: int,
    outcome: Result<(), AuthErrorView>,
    pack: CapabilityPackView,
)
    requires
        importing_all(secrets, caps, revoked, packs, n, outcome),
        with_packs(caps.packs(), packs.take(n)).contains(pack),
        !caps.packs().contains(pack),
    ensures
        pack.error() is None,
        !chain_revoked(revoked, pack.chain()),
        ({
            let user_id = pack.chain().receiver();
            call_ensures(A::has_user, (&secrets, &user_id), Ok(true))
        }),
{
    let taken = packs.take(n);
    assert(taken.contains(pack));
    let i = choose|i: int| 0 <= i < taken.len() && taken[i] == pack;
    assert(packs[i] == pack);
    law_imported_packs_are_admitted(secrets, caps, revoked, packs, n, outcome, i);
}

/// Once a revocation has been applied, no pack with the revoked delegation is imported,
/// whether it was seen before or not.
pub proof fn law_revocation_blocks_import<A: SecretStorage, C: CapsStorage>(
    secrets: A,
    caps: C,
    revoked: Set<Seq<u8>>,
    invocation: UWillInvocationView,
    now_secs: u64,
    packs: Seq<CapabilityPackView>,
    n: int,
    outcome: Result<(), AuthErrorView>,
    i: int,
)
    requires
        revocation_outcome(invocation, revoked, now_secs) is Ok,
        importing_all(
            secrets,
            caps,
            revoked.insert(revocation_outcome(invocation, revoked, now_secs)->Ok_0),
            packs,
            n,
            outcome,
        ),
        0 <= i < packs.len(),
        packs[i].chain().cids().contains(
            revocation_outcome(invocation, revoked, now_secs)->Ok_0,
        ),
    ensures
        n <= i,
        outcome is Err,
{
    let cid = revocation_outcome(invocation, revoked, now_secs)->Ok_0;
    law_revocation_revokes_chains_with_it(revoked, cid, packs[i].chain());
    law_refused_packs_are_not_imported(
        secrets,
        caps,
        revoked.insert(cid),
        packs,
        n,
        outcome,
        i,
    );
}

/// A chain that is revoked gives no right to revoke: with a chain that has the delegation
/// that was revoked, nothing is revoked any more.
pub proof fn law_revoked_chains_cannot_revoke(
    revoked: Set<Seq<u8>>,
    cid: Seq<u8>,
    invocation: UWillInvocationView,
    now_secs: u64,
)
    requires
        invocation.proof_chain() is Ok,
        invocation.proof_chain()->Ok_0.cids().contains(cid),
    ensures
        revocation_outcome(invocation, revoked.insert(cid), now_secs) is Err,
{
    law_revocation_revokes_chains_with_it(revoked, cid, invocation.proof_chain()->Ok_0);
}

/// Creating capabilities gives one to read and one to write, in this order. Each is what it
/// says, leads to the user and covers the whole namespace; the one to read comes with a proof
/// of membership that does so too. All that were given out were stored.
pub proof fn law_created_capabilities<
    A: SecretStorage,
    C: CapsStorage,
    F: Fn(&DelegationDraft) -> Result<DelegationSeal, String>,
>(
    secrets: A,
    caps: C,
    sign: F,
    namespace_id: NamespaceId,
    user_id: UserId,
    added: Seq<CapabilityPackView>,
    packs: Seq<CapabilityPackView>,
)
    requires
        creating_full_caps(
            secrets,
            caps,
            sign,
            namespace_id,
            user_id,
            added,
            Ok::<Seq<CapabilityPackView>, AuthErrorView>(packs),
        ),
    ensures
        packs.len() == 2,
        packs[0] is Read,
        packs[1] is Write,
        forall|i: int|
            0 <= i < 2 ==> {
                &&& (#[trigger] packs[i]).error() is None
                &&& is_chain(packs[i].chain())
                &&& packs[i].chain().receiver() == user_id
                &&& packs[i].chain().area == AreaView::full()
            },
        packs[0]->Read_0.enumerate matches Some(enumerate) && {
            &&& is_chain(enumerate)
            &&& enumerate.command is Enumerate
            &&& enumerate.area == AreaView::full()
            &&& enumerate.namespace() == packs[0].chain().namespace()
            &&& enumerate.receiver() == user_id
        },
        packs[1].chain().namespace() == namespace_id,
        added == packs,
{
    let read = choose|read: Result<CapabilityPackView, AuthErrorView>|
        #[trigger] creating_read_cap(secrets, sign, namespace_id, user_id, read) && read is Ok
            && exists|write: Result<CapabilityPackView, AuthErrorView>|
            #[trigger] creating_write_cap(secrets, sign, namespace_id, user_id, write)
                && write is Ok && keeping(
                caps,
                seq![read->Ok_0, write->Ok_0],
                true,
                added,
                Ok::<Seq<CapabilityPackView>, AuthErrorView>(packs),
            );
    let write = choose|write: Result<CapabilityPackView, AuthErrorView>|
        #[trigger] creating_write_cap(secrets, sign, namespace_id, user_id, write) && write is Ok
            && keeping(
            caps,
            seq![read->Ok_0, write->Ok_0],
            true,
            added,
            Ok::<Seq<CapabilityPackView>, AuthErrorView>(packs),
        );
    assert(packs.take(2) =~= packs);
    lemma_created_read_cap(secrets, sign, namespace_id, user_id, read->Ok_0);
    lemma_created_write_cap(secrets, sign, namespace_id, user_id, write->Ok_0);
}

proof fn lemma_created_read_cap<
    A: SecretStorage,
    F: Fn(&DelegationDraft) -> Result<DelegationSeal, String>,
>(
    secrets: A,
    sign: F,
    namespace_id: NamespaceId,
    user_id: UserId,
    pack: CapabilityPackView,
)
    requires
        creating_read_cap(
            secrets,
            sign,
            namespace_id,
            user_id,
            Ok::<CapabilityPackView, AuthErrorView>(pack),
        ),
    ensures
        pack is Read,
        pack.error() is None,
        is_chain(pack.chain()),
        pack.chain().receiver() == user_id,
        pack.chain().area == AreaView::full(),
        pack->Read_0.enumerate matches Some(enumerate) && {
            &&& is_chain(enumerate)
            &&& enumerate.command is Enumerate
            &&& enumerate.area == AreaView::full()
            &&& enumerate.namespace() == pack.chain().namespace()
            &&& enumerate.receiver() == user_id
        },
{
    let outcome = Ok::<CapabilityPackView, AuthErrorView>(pack);
    let secret = choose|secret: Result<NamespaceSecretKey, AuthErrorView>|
        #[trigger] finding_namespace_secret(secrets, namespace_id, secret) && secret is Ok
            && creating_read_pack(sign, secret->Ok_0, user_id, outcome);
    let auth = choose|auth: Result<ReadAuthorisationView, ChainErrorView>|
        #[trigger] owned_read_outcome(sign, secret->Ok_0, user_id, auth) && auth is Ok && pack
            == CapabilityPackView::Read(auth->Ok_0);
    law_owned_read_authorisation(sign, secret->Ok_0, user_id, auth->Ok_0);
}

proof fn lemma_created_write_cap<
    A: SecretStorage,
    F: Fn(&DelegationDraft) -> Result<DelegationSeal, String>,
>(
    secrets: A,
    sign: F,
    namespace_id: NamespaceId,
    user_id: UserId,
    pack: CapabilityPackView,
)
    requires
        creating_write_cap(
            secrets,
            sign,
            namespace_id,
            user_id,
            Ok::<CapabilityPackView, AuthErrorView>(pack),
        ),
    ensures
        pack is Write,
        pack.error() is None,
        is_chain(pack.chain()),
        pack.chain().receiver() == user_id,
        pack.chain().area == AreaView::full(),
        pack.chain().namespace() == namespace_id,
{
    let command = WillowCommand::Write;
    let secret = choose|secret: Result<NamespaceSecretKey, AuthErrorView>|
        #[trigger] finding_namespace_secret(secrets, namespace_id, secret) && secret is Ok
            && exists|chain: Result<ChainView, ChainErrorView>|
            #[trigger] signed_extension(
                sign,
                seq![],
                root_draft_outcome(namespace_id, secret->Ok_0, user_id, command),
                chain,
            ) && chain is Ok && pack == CapabilityPackView::Write(chain->Ok_0);
    lemma_signed_root(sign, namespace_id, secret->Ok_0, user_id, command, pack.chain());
}

/// Delegating capabilities gives the one to read and, for the access mode `Write`, after it
/// the one to write; none is stored unless that is asked for.
pub proof fn law_delegated_capabilities<
    A: SecretStorage,
    C: CapsStorage,
    F: Fn(&DelegationDraft) -> Result<DelegationSeal, String>,
>(
    secrets: A,
    caps: C,
    sign: F,
    from: CapSelector,
    access_mode: AccessMode,
    to: DelegateTo,
    store: bool,
    added: Seq<CapabilityPackView>,
    packs: Seq<CapabilityPackView>,
)
    requires
        delegating_full_caps(
            secrets,
            caps,
            sign,
            from,
            access_mode,
            to,
            store,
            added,
            Ok::<Seq<CapabilityPackView>, AuthErrorView>(packs),
        ),
    ensures
        packs.len() == if access_mode is Read {
            1int
        } else {
            2int
        },
        packs[0] is Read,
        packs.len() == 2 ==> packs[1] is Write,
        store ==> added == packs,
        !store ==> added.len() == 0,
{
    let ok = Ok::<Seq<CapabilityPackView>, AuthErrorView>(packs);
    let read = choose|read: Result<CapabilityPackView, AuthErrorView>|
        #[trigger] delegating_read_cap(
            secrets,
            caps,
            sign,
            from,
            to.user,
            to.restrict_area@,
            read,
        ) && read is Ok && if access_mode is Read {
            keeping(caps, seq![read->Ok_0], store, added, ok)
        } else {
            exists|write: Result<CapabilityPackView, AuthErrorView>|
                #[trigger] delegating_write_cap(
                    secrets,
                    caps,
                    sign,
                    from,
                    to.user,
                    to.restrict_area@,
                    write,
                ) && write is Ok && keeping(
                    caps,
                    seq![read->Ok_0, write->Ok_0],
                    store,
                    added,
                    ok,
                )
        };
    if access_mode is Read {
        assert(packs.take(1) =~= packs);
    } else {
        let write = choose|write: Result<CapabilityPackView, AuthErrorView>|
            #[trigger] delegating_write_cap(
                secrets,
                caps,
                sign,
                from,
                to.user,
                to.restrict_area@,
                write,
            ) && write is Ok && keeping(caps, seq![read->Ok_0, write->Ok_0], store, added, ok);
        assert(packs.take(2) =~= packs);
    }
}

/// Whether `next` is a chain that gives `to` what `chain` gives, over no larger an area.
pub open spec fn narrows_to(chain: ChainView, next: ChainView, to: UserId) -> bool {
    &&& is_chain(next)
    &&& next.namespace() == chain.namespace()
    &&& next.command == chain.command
    &&& next.receiver() == to
    &&& chain.area.includes_area(next.area)
    &&& next.delegations.len() == chain.delegations.len() + 1
    &&& next.delegations.drop_last() == chain.delegations
}

/// Delegating a capability to read gives one that is narrowed from the one in the storage, and
/// a proof of membership just where that has one of the same user over the whole namespace: it
/// too comes of the one in the storage, and covers the whole namespace.
pub proof fn law_delegated_read_cap<
    A: SecretStorage,
    C: CapsStorage,
    F: Fn(&DelegationDraft) -> Result<DelegationSeal, String>,
>(
    secrets: A,
    caps: C,
    sign: F,
    from: CapSelector,
    to: UserId,
    restriction: Option<AreaView>,
    pack: CapabilityPackView,
)
    requires
        delegating_read_cap(
            secrets,
            caps,
            sign,
            from,
            to,
            restriction,
            Ok::<CapabilityPackView, AuthErrorView>(pack),
        ),
    ensures
        pack is Read,
        exists|auth: ReadAuthorisation|
            #[trigger] call_ensures(C::get_read_cap, (&caps, &from), Ok(Some(auth)))
                && authorisation_narrows_to(auth@, pack->Read_0, to),
{
    let auth = choose|auth: ReadAuthorisation|
        #[trigger] call_ensures(C::get_read_cap, (&caps, &from), Ok(Some(auth)))
            && delegating_found_authorisation(
            secrets,
            sign,
            auth@,
            to,
            restricted(restriction, auth@.read.area),
            Ok::<CapabilityPackView, AuthErrorView>(pack),
        );
    let area = restricted(restriction, auth@.read.area);
    let secret = choose|secret: Result<UserSecretKey, AuthErrorView>|
        #[trigger] finding_user_secret(secrets, auth@.read.receiver(), secret) && secret is Ok
            && delegating_as_pack(
            sign,
            auth@,
            secret->Ok_0,
            to,
            area,
            Ok::<CapabilityPackView, AuthErrorView>(pack),
        );
    let next = pack->Read_0;
    lemma_delegated_authorisation(sign, auth@, secret->Ok_0, to, area, next);
}

/// Whether `next` gives `to` what `auth` gives, over no larger an area, with a proof of
/// membership just where `auth` has one that can be delegated. Of what is no chain, nothing is
/// said.
pub open spec fn authorisation_narrows_to(
    auth: ReadAuthorisationView,
    next: ReadAuthorisationView,
    to: UserId,
) -> bool {
    &&& is_chain(auth.read) ==> narrows_to(auth.read, next.read, to)
    &&& next.enumerate is Some <==> delegable_membership(auth) is Some
    &&& delegable_membership(auth) matches Some(membership) ==> is_chain(membership) ==> {
        &&& narrows_to(membership, next.enumerate->0, to)
        &&& next.enumerate->0.area == AreaView::full()
    }
}

proof fn lemma_delegated_authorisation<
    F: Fn(&DelegationDraft) -> Result<DelegationSeal, String>,
>(
    sign: F,
    auth: ReadAuthorisationView,
    secret: UserSecretKey,
    to: UserId,
    area: AreaView,
    next: ReadAuthorisationView,
)
    requires
        delegating_authorisation(
            sign,
            auth,
            secret,
            to,
            area,
            Ok::<ReadAuthorisationView, ChainErrorView>(next),
        ),
    ensures
        authorisation_narrows_to(auth, next, to),
{
    if is_chain(auth.read) {
        lemma_signed_narrows(sign, auth.read, secret, to, area, next.read);
    }
    let membership = delegable_membership(auth);
    if membership is Some && is_chain(membership->0) {
        let full = AreaView::full();
        lemma_signed_narrows(sign, membership->0, secret, to, full, next.enumerate->0);
    }
}

/// Delegating a capability to write gives one that is narrowed from the one in the storage.
pub proof fn law_delegated_write_cap<
    A: SecretStorage,
    C: CapsStorage,
    F: Fn(&DelegationDraft) -> Result<DelegationSeal, String>,
>(
    secrets: A,
    caps: C,
    sign: F,
    from: CapSelector,
    to: UserId,
    restriction: Option<AreaView>,
    pack: CapabilityPackView,
)
    requires
        delegating_write_cap(
            secrets,
            caps,
            sign,
            from,
            to,
            restriction,
            Ok::<CapabilityPackView, AuthErrorView>(pack),
        ),
    ensures
        pack is Write,
        exists|cap: WriteCapability|
            #[trigger] call_ensures(C::get_write_cap, (&caps, &from), Ok(Some(cap))) && (is_chain(
                cap@,
            ) ==> narrows_to(cap@, pack.chain(), to)),
{
    let cap = choose|cap: WriteCapability|
        #[trigger] call_ensures(C::get_write_cap, (&caps, &from), Ok(Some(cap))) && exists|
            next: Result<ChainView, AuthErrorView>,
        |
            #[trigger] delegating(
                secrets,
                sign,
                cap@,
                to,
                restricted(restriction, cap@.area),
                next,
            ) && next is Ok && pack == CapabilityPackView::Write(next->Ok_0);
    if is_chain(cap@) {
        lemma_delegated_chain(
            secrets,
            sign,
            cap@,
            to,
            restricted(restriction, cap@.area),
            pack.chain(),
        );
    }
}

proof fn lemma_delegated_chain<
    A: SecretStorage,
    F: Fn(&DelegationDraft) -> Result<DelegationSeal, String>,
>(secrets: A, sign: F, chain: ChainView, to: UserId, area: AreaView, next: ChainView)
    requires
        is_chain(chain),
        delegating(secrets, sign, chain, to, area, Ok::<ChainView, AuthErrorView>(next)),
    ensures
        narrows_to(chain, next, to),
{
    let outcome = Ok::<ChainView, ChainErrorView>(next);
    let secret = choose|secret: Result<UserSecretKey, AuthErrorView>|
        #[trigger] finding_user_secret(secrets, chain.receiver(), secret) && secret is Ok
            && exists|made: Result<ChainView, ChainErrorView>|
            #[trigger] signed_extension(
                sign,
                chain.delegations,
                next_draft_outcome(chain, secret->Ok_0, to, area),
                made,
            ) && made == outcome;
    lemma_signed_narrows(sign, chain, secret->Ok_0, to, area, next);
}

proof fn lemma_signed_narrows<F: Fn(&DelegationDraft) -> Result<DelegationSeal, String>>(
    sign: F,
    chain: ChainView,
    secret: UserSecretKey,
    to: UserId,
    area: AreaView,
    next: ChainView,
)
    requires
        is_chain(chain),
        signed_extension(
            sign,
            chain.delegations,
            next_draft_outcome(chain, secret, to, area),
            Ok::<ChainView, ChainErrorView>(next),
        ),
    ensures
        narrows_to(chain, next, to),
        area == AreaView::full() ==> next.area == area,
{
    let outcome = Ok::<ChainView, ChainErrorView>(next);
    let draft = next_draft_outcome(chain, secret, to, area)->Ok_0;
    let (d, reply) = choose|d: DelegationDraft, reply: Result<DelegationSeal, String>|
        d@ == draft && #[trigger] call_ensures(sign, (&d,), reply) && outcome == extension_outcome(
            chain.delegations,
            draft,
            seal_result(reply),
        );
    law_delegation_narrows(chain, secret, to, area, seal_result(reply)->Ok_0);
}

/// The interest in all that can be read is the interest in the whole area of each
/// authorisation, and in nothing else.
pub proof fn law_all_interests(caps: Seq<ReadAuthorisationView>, key: CapabilityKey)
    ensures
        all_interests(caps).dom().contains(key) <==> exists|i: int|
            0 <= i < caps.len() && capability_key((#[trigger] caps[i]).read) == key,
        all_interests(caps).dom().contains(key) ==> all_interests(caps)[key].areas == set![
            AreaOfInterestView { area: key.area, max_count: 0, max_size: 0 },
        ],
    decreases caps.len(),
{
    if caps.len() > 0 {
        let rest = caps.drop_last();
        let last = caps.last();
        law_all_interests(rest, key);
        law_all_interests(rest, capability_key(last.read));
        let map = all_interests(caps);
        if exists|i: int| 0 <= i < rest.len() && capability_key((#[trigger] rest[i]).read) == key {
            let i = choose|i: int|
                0 <= i < rest.len() && capability_key((#[trigger] rest[i]).read) == key;
            assert(caps[i] == rest[i]);
        }
        if exists|i: int| 0 <= i < caps.len() && capability_key((#[trigger] caps[i]).read) == key {
            let i = choose|i: int|
                0 <= i < caps.len() && capability_key((#[trigger] caps[i]).read) == key;
            if i < rest.len() {
                assert(rest[i] == caps[i]);
            }
        }
        if key == capability_key(last.read) {
            assert(caps[caps.len() - 1] == last);
            let area = AreaOfInterestView { area: key.area, max_count: 0, max_size: 0 };
            assert(widest(last) == area);
            assert(set![area].union(set![area]) =~= set![area]);
            assert(map[key].areas =~= set![area]);
        }
    }
}

/// Every area that is selected of an authorisation that was found is one of its areas of
/// interest.
pub proof fn law_selected_areas_are_of_interest(
    found: Seq<Option<ReadAuthorisationView>>,
    selectors: Seq<AreaOfInterestSelector>,
    i: int,
    area: AreaOfInterestView,
)
    requires
        0 <= i < found.len(),
        found[i] is Some,
        selected_areas(found[i]->0, selectors[i]).contains(area),
    ensures
        ({
            let key = capability_key(found[i]->0.read);
            let map = selected_interests(found, selectors);
            map.dom().contains(key) && map[key].areas.contains(area)
        }),
    decreases found.len(),
{
    let rest = found.drop_last();
    if i < rest.len() {
        assert(rest[i] == found[i]);
        law_selected_areas_are_of_interest(rest, selectors, i, area);
    }
}

/// Every area of interest was selected of an authorisation that was found, with the same
/// capability.
pub proof fn law_areas_of_interest_were_selected(
    found: Seq<Option<ReadAuthorisationView>>,
    selectors: Seq<AreaOfInterestSelector>,
    key: CapabilityKey,
    area: AreaOfInterestView,
)
    requires
        selected_interests(found, selectors).dom().contains(key),
        selected_interests(found, selectors)[key].areas.contains(area),
    ensures
        exists|i: int|
            0 <= i < found.len() && (#[trigger] found[i]) is Some && capability_key(
                found[i]->0.read,
            ) == key && selected_areas(found[i]->0, selectors[i]).contains(area),
    decreases found.len(),
{
    if found.len() > 0 {
        let rest = found.drop_last();
        let last = found.len() - 1;
        let earlier = selected_interests(rest, selectors);
        if earlier.dom().contains(key) && earlier[key].areas.contains(area) {
            law_areas_of_interest_were_selected(rest, selectors, key, area);
            let i = choose|i: int|
                0 <= i < rest.len() && (#[trigger] rest[i]) is Some && capability_key(
                    rest[i]->0.read,
                ) == key && selected_areas(rest[i]->0, selectors[i]).contains(area);
            assert(found[i] == rest[i]);
        } else {
            assert(found[last] is Some);
        }
    }
}

} // verus!
