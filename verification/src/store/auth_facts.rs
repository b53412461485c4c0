//! What a node does with capabilities, in terms of what it is given and what its storage
//! answers.

use vstd::prelude::*;

use super::auth::{admitting, all_interests, answers, creating_full_caps, creating_read_cap, creating_read_pack, creating_write_cap, delegable_membership, delegated_result, delegating, delegating_as_pack, delegating_authorisation, delegating_found_authorisation, delegating_full_caps, delegating_read_cap, delegating_write_cap, deleting, done_result, finding_namespace_secret, finding_user_secret, found_views, importing, importing_all, inserting, interest_result, keeping, pack_result, packs_result, passes_on, read_views, resolving, revocation_outcome, selected_interests, selection_outcome, storing, storing_all, with_packs, without_value, Auth, AuthError, AuthErrorView};
use super::auth_laws::{law_areas_of_interest_were_selected, law_selected_areas_are_of_interest};
use super::traits::{deleted, CapsStorage, PackSet, SecretStorage, SecretStoreError, Storage};
use crate::interest::{capability_key, pack_views, restricted, selected_areas, AreaOfInterestSelector, CapSelector, CapabilityKey, CapabilityPack, CapabilityPackView, DelegateTo, InterestMap, InterestView, Interests};
use crate::proto::data_model::path_error;
use crate::proto::grouping::{law_area_includes_itself, AreaOfInterestView, AreaView};
use crate::proto::keys::{verifying_key_error, NamespaceId, NamespaceSecretKey, UserId, UserSecretKey};
use crate::proto::meadowcap::{law_owner_can_authorise, owned_read_outcome, AccessMode, McCapability, ReadAuthorisation, ReadAuthorisationView, WriteCapability};
use crate::uwill::area_laws::{has_faithful_policy, law_areas_of_policies_are_faithful};
use crate::uwill::chain::{chain_outcome, is_chain, next_draft_outcome, root_draft_outcome, signed_extension, ChainErrorView, ChainView};
use crate::uwill::chain_facts::{law_holder_can_pass_on, law_owner_can_give, law_what_a_chain_says, signs_validly};
use crate::uwill::command::{law_what_commands_prove, WillowCommand};
use crate::uwill::invocation::UWillInvocationView;
use crate::uwill::invocation_facts::{asks_to_revoke, has_begun, has_named_proofs, issued_up_to, law_revoking_iff, not_over};
use crate::uwill::revocation::{chain_revoked, law_chain_is_revoked_iff};
use crate::uwill::ucan::{DelegationDraft, DelegationSeal};
use crate::uwill::{UWillChain, UWillInvocation};

verus! {

// ---------------------------------------------------------------------------
// Revocations
// ---------------------------------------------------------------------------

/// Whether none of the delegations is revoked.
pub open spec fn none_revoked(revoked: Set<Seq<u8>>, chain: ChainView) -> bool {
    forall|i: int|
        0 <= i < chain.delegations.len() ==> !revoked.contains((#[trigger] chain.delegations[i]).cid)
}

proof fn lemma_none_revoked(revoked: Set<Seq<u8>>, chain: ChainView)
    ensures
        none_revoked(revoked, chain) <==> !chain_revoked(revoked, chain),
{
    law_chain_is_revoked_iff(revoked, chain);
}

/// A revocation is applied exactly if it stands, its issuer issued the delegation that it names
/// or one before it, and none of its proofs is revoked; what is revoked then is the delegation
/// that its own argument names, and no other.
pub proof fn law_what_a_revocation_revokes(
    invocation: UWillInvocationView,
    revoked: Set<Seq<u8>>,
    now_secs: u64,
    cid: Seq<u8>,
)
    ensures
        revocation_outcome(invocation, revoked, now_secs) == Ok::<Seq<u8>, AuthErrorView>(cid)
            <==> {
            &&& invocation.invocation.signature is Ok
            &&& has_named_proofs(invocation)
            &&& chain_outcome(invocation.resolved_proofs) is Ok
            &&& not_over(invocation.resolved_proofs, now_secs as int)
            &&& has_begun(invocation.resolved_proofs, now_secs as int)
            &&& asks_to_revoke(invocation, cid)
            &&& issued_up_to(invocation.resolved_proofs, invocation.invocation.issuer, cid)
            &&& forall|i: int|
                0 <= i < invocation.resolved_proofs.len() ==> !revoked.contains(
                    (#[trigger] invocation.resolved_proofs[i]).cid,
                )
        },
{
    law_revoking_iff(invocation, now_secs, cid);
    if let Ok(chain) = chain_outcome(invocation.resolved_proofs) {
        law_what_a_chain_says(invocation.resolved_proofs, chain);
        lemma_none_revoked(revoked, chain);
    }
}

/// Applying a revocation makes no difference to chains without the delegation that it names:
/// they are revoked after it exactly if they were before. Those with it are revoked.
pub proof fn law_revocation_spares_other_chains(
    invocation: UWillInvocationView,
    revoked: Set<Seq<u8>>,
    now_secs: u64,
    named: Seq<u8>,
    chain: ChainView,
)
    requires
        revocation_outcome(invocation, revoked, now_secs) is Ok,
        asks_to_revoke(invocation, named),
    ensures
        ({
            let after = revoked.insert(revocation_outcome(invocation, revoked, now_secs)->Ok_0);
            &&& after == revoked.insert(named)
            &&& none_revoked(after, chain) <==> none_revoked(revoked, chain) && forall|i: int|
                0 <= i < chain.delegations.len() ==> (#[trigger] chain.delegations[i]).cid != named
        }),
{
    let cid = revocation_outcome(invocation, revoked, now_secs)->Ok_0;
    law_what_a_revocation_revokes(invocation, revoked, now_secs, cid);
    let after = revoked.insert(cid);
    if none_revoked(after, chain) {
        assert forall|i: int| 0 <= i < chain.delegations.len() implies (
        #[trigger] chain.delegations[i]).cid != named by {
            assert(!after.contains(chain.delegations[i].cid));
        }
        assert forall|i: int| 0 <= i < chain.delegations.len() implies !revoked.contains(
            (#[trigger] chain.delegations[i]).cid,
        ) by {
            assert(!after.contains(chain.delegations[i].cid));
        }
    }
}

/// A revocation that is not applied is not valid, with the reason why, or its own proofs are
/// revoked.
pub proof fn law_why_a_revocation_is_not_applied(
    invocation: UWillInvocationView,
    revoked: Set<Seq<u8>>,
    now_secs: u64,
    e: AuthErrorView,
)
    requires
        revocation_outcome(invocation, revoked, now_secs) == Err::<Seq<u8>, AuthErrorView>(e),
    ensures
        match invocation.revoke_outcome(now_secs) {
            Err(cause) => e == AuthErrorView::InvalidRevocation(cause.message()),
            Ok(_) => e is Revoked && exists|i: int|
                0 <= i < invocation.resolved_proofs.len() && revoked.contains(
                    (#[trigger] invocation.resolved_proofs[i]).cid,
                ),
        },
{
    if let Ok(cid) = invocation.revoke_outcome(now_secs) {
        law_revoking_iff(invocation, now_secs, cid);
        let chain = chain_outcome(invocation.resolved_proofs)->Ok_0;
        law_what_a_chain_says(invocation.resolved_proofs, chain);
        law_chain_is_revoked_iff(revoked, chain);
    }
}

// ---------------------------------------------------------------------------
// Packs
// ---------------------------------------------------------------------------

/// A pack is what it says exactly if it is one to read with a capability that is not to write,
/// or one to write with one that is.
pub proof fn law_packs_are_what_they_say(pack: CapabilityPackView)
    ensures
        pack.error() is None <==> match pack {
            CapabilityPackView::Read(auth) => auth.read.command is Read
                || auth.read.command is Enumerate,
            CapabilityPackView::Write(chain) => chain.command is Write || chain.command is Full,
        },
        pack.error() matches Some(e) ==> (e is NotRead <==> pack is Read),
        pack matches CapabilityPackView::Read(auth) ==> pack.chain() == auth.read,
        pack matches CapabilityPackView::Write(chain) ==> pack.chain() == chain,
{
    law_what_commands_prove(pack.chain().command);
}

/// Whether a pack may be imported: it is what it says, none of its delegations is revoked, and
/// the storage answers that it has a secret of its user.
pub open spec fn may_be_imported<A: SecretStorage>(
    secrets: A,
    revoked: Set<Seq<u8>>,
    pack: CapabilityPackView,
) -> bool {
    let chain = match pack {
        CapabilityPackView::Read(auth) => auth.read,
        CapabilityPackView::Write(chain) => chain,
    };
    let user_id = UserId { bytes: chain.delegations.last().audience.bytes };
    &&& match pack {
        CapabilityPackView::Read(_) => chain.command is Read || chain.command is Enumerate,
        CapabilityPackView::Write(_) => chain.command is Write || chain.command is Full,
    }
    &&& none_revoked(revoked, chain)
    &&& says_it_has(secrets, user_id)
}

/// Whether the storage always answers that it has a secret of the user.
pub open spec fn says_it_has<A: SecretStorage>(secrets: A, user_id: UserId) -> bool {
    forall|reply: Result<bool, SecretStoreError>|
        #![trigger call_ensures(A::has_user, (&secrets, &user_id), reply)]
        call_ensures(A::has_user, (&secrets, &user_id), reply) ==> reply == Ok::<
            bool,
            SecretStoreError,
        >(true)
}

/// Whether the storage may refuse the pack with this text.
pub open spec fn may_refuse<C: CapsStorage>(pack: CapabilityPackView, text: Seq<char>) -> bool {
    exists|c: &mut C, p: CapabilityPack, reply: String|
        p@ == pack && reply@ == text && #[trigger] call_ensures(C::insert, (c, p), Err(reply))
}

proof fn lemma_storing_fails<C: CapsStorage>(
    contents: PackSet,
    pack: CapabilityPackView,
    e: AuthErrorView,
)
    requires
        storing::<C>(contents, pack, Some(e)),
    ensures
        e is Other,
        may_refuse::<C>(pack, e->Other_0),
{
    let (caps, reply) = choose|caps: C, reply: Result<(), String>|
        {
            &&& caps.packs() == contents
            &&& #[trigger] inserting(caps, pack, reply)
            &&& Some(e) == match reply {
                Ok(()) => None,
                Err(text) => Some(AuthErrorView::Other(text@)),
            }
        };
    let (c, p) = choose|c: &mut C, p: CapabilityPack|
        *c == caps && p@ == pack && #[trigger] call_ensures(C::insert, (c, p), reply);
    let text = reply->Err_0;
    assert(call_ensures(C::insert, (c, p), Err(text)));
}

/// Importing fails at a pack that may be imported only if the storage refuses it, with the text
/// of the storage; so packs that all may be imported are all imported where the storage takes
/// them, however they came about.
pub proof fn law_what_may_be_imported_is<A: SecretStorage, C: CapsStorage>(
    secrets: A,
    caps: C,
    revoked: Set<Seq<u8>>,
    packs: Seq<CapabilityPackView>,
    n: int,
    outcome: Result<(), AuthErrorView>,
)
    requires
        importing_all(secrets, caps, revoked, packs, n, outcome),
        forall|i: int|
            0 <= i < packs.len() ==> may_be_imported(secrets, revoked, #[trigger] packs[i]),
    ensures
        outcome is Ok <==> n == packs.len(),
        outcome matches Err(e) ==> {
            &&& 0 <= n < packs.len()
            &&& e is Other
            &&& may_refuse::<C>(packs[n], e->Other_0)
        },
        (forall|i: int, text: Seq<char>|
            0 <= i < packs.len() ==> !#[trigger] may_refuse::<C>(packs[i], text)) ==> outcome is Ok,
{
    if let Err(e) = outcome {
        let pack = packs[n];
        assert(may_be_imported(secrets, revoked, pack));
        let contents = with_packs(caps.packs(), packs.take(n));
        assert(importing::<A, C>(secrets, contents, revoked, pack, Some(e)));
        lemma_may_be_imported(secrets, revoked, pack, Some(e));
        lemma_storing_fails::<C>(contents, pack, e);
    }
}

proof fn lemma_may_be_imported<A: SecretStorage>(
    secrets: A,
    revoked: Set<Seq<u8>>,
    pack: CapabilityPackView,
    outcome: Option<AuthErrorView>,
)
    requires
        may_be_imported(secrets, revoked, pack),
    ensures
        admitting(secrets, revoked, pack, outcome) ==> outcome is None,
{
    law_packs_are_what_they_say(pack);
    lemma_none_revoked(revoked, pack.chain());
    let user_id = pack.chain().receiver();
    assert(says_it_has(secrets, user_id));
}

/// A pack at which importing fails, the first that is not imported, is refused for a reason that
/// holds: it is not what it says, one of its delegations is revoked, the storage of secrets
/// fails or has none of its user, or the storage refuses it.
pub proof fn law_why_a_pack_is_not_imported<A: SecretStorage, C: CapsStorage>(
    secrets: A,
    caps: C,
    revoked: Set<Seq<u8>>,
    packs: Seq<CapabilityPackView>,
    n: int,
    e: AuthErrorView,
)
    requires
        importing_all(secrets, caps, revoked, packs, n, Err::<(), AuthErrorView>(e)),
    ensures
        0 <= n < packs.len(),
        ({
            let pack = packs[n];
            let user_id = pack.chain().receiver();
            match e {
                AuthErrorView::InvalidPack(cause) => match pack {
                    CapabilityPackView::Read(auth) => cause is NotRead && (auth.read.command is Write
                        || auth.read.command is Full),
                    CapabilityPackView::Write(chain) => cause is NotWrite && (chain.command is Read
                        || chain.command is Enumerate),
                },
                AuthErrorView::Revoked => !none_revoked(revoked, pack.chain()),
                AuthErrorView::MissingUserSecret(id) => id == user_id && call_ensures(
                    A::has_user,
                    (&secrets, &user_id),
                    Ok(false),
                ),
                AuthErrorView::SecretStore(text) => exists|cause: SecretStoreError|
                    #[trigger] call_ensures(A::has_user, (&secrets, &user_id), Err(cause)) && text
                        == cause.text@,
                AuthErrorView::Other(text) => may_refuse::<C>(pack, text),
                _ => false,
            }
        }),
{
    let pack = packs[n];
    let contents = with_packs(caps.packs(), packs.take(n));
    assert(importing::<A, C>(secrets, contents, revoked, pack, Some(e)));
    law_packs_are_what_they_say(pack);
    lemma_none_revoked(revoked, pack.chain());
    if admitting(secrets, revoked, pack, Some(e)) {
        let user_id = pack.chain().receiver();
        if pack.error() is None && !chain_revoked(revoked, pack.chain()) {
            let reply = choose|reply: Result<bool, SecretStoreError>|
                #![trigger call_ensures(A::has_user, (&secrets, &user_id), reply)]
                call_ensures(A::has_user, (&secrets, &user_id), reply) && Some(e)
                    == super::auth::secret_error(user_id, reply);
            match reply {
                Ok(has) => {
                    assert(!has);
                    assert(call_ensures(A::has_user, (&secrets, &user_id), Ok(false)));
                },
                Err(cause) => {},
            }
        }
    } else {
        lemma_storing_fails::<C>(contents, pack, e);
    }
}

/// Storing packs fails only if the storage refuses one, with the text of the storage; those
/// before it were stored.
pub proof fn law_storing_fails_only_if_refused<C: CapsStorage>(
    caps: C,
    packs: Seq<CapabilityPackView>,
    n: int,
    outcome: Result<(), AuthErrorView>,
)
    requires
        storing_all(caps, packs, n, outcome),
    ensures
        0 <= n <= packs.len(),
        outcome is Ok <==> n == packs.len(),
        outcome matches Err(e) ==> e is Other && may_refuse::<C>(packs[n], e->Other_0),
{
    if let Err(e) = outcome {
        lemma_storing_fails::<C>(with_packs(caps.packs(), packs.take(n)), packs[n], e);
    }
}

/// A storage into which packs were put has what it had, these packs, and nothing else.
pub proof fn law_contents_after_storing(
    contents: PackSet,
    packs: Seq<CapabilityPackView>,
    pack: CapabilityPackView,
)
    ensures
        with_packs(contents, packs).contains(pack) <==> contents.contains(pack) || exists|i: int|
            0 <= i < packs.len() && #[trigger] packs[i] == pack,
{
    if packs.contains(pack) {
        let i = choose|i: int| 0 <= i < packs.len() && packs[i] == pack;
        assert(packs[i] == pack);
    }
}

// ---------------------------------------------------------------------------
// Interests
// ---------------------------------------------------------------------------

/// Whether the key is that of the capability: its namespace, user, area and command.
pub open spec fn is_key_of(key: CapabilityKey, auth: ReadAuthorisationView) -> bool {
    &&& key.namespace == auth.read.namespace()
    &&& key.receiver == auth.read.receiver()
    &&& key.area == auth.read.area
    &&& key.command == auth.read.command
}

/// Whether the area of interest is one that the selector picks of the capability: each that it
/// lists, or the whole area of the capability without limits.
pub open spec fn picks(
    selector: AreaOfInterestSelector,
    auth: ReadAuthorisationView,
    area: AreaOfInterestView,
) -> bool {
    match selector {
        AreaOfInterestSelector::Widest => {
            &&& area.area == auth.read.area
            &&& area.max_count == 0
            &&& area.max_size == 0
        },
        AreaOfInterestSelector::Exact(list) => exists|j: int|
            0 <= j < list@.len() && (#[trigger] list@[j])@ == area,
    }
}

proof fn lemma_picks(
    selector: AreaOfInterestSelector,
    auth: ReadAuthorisationView,
    area: AreaOfInterestView,
)
    ensures
        selected_areas(auth, selector).contains(area) <==> picks(selector, auth, area),
{
    if let AreaOfInterestSelector::Exact(list) = selector {
        let views = crate::interest::area_views(list@);
        if views.contains(area) {
            let j = choose|j: int| 0 <= j < views.len() && views[j] == area;
            assert(list@[j]@ == area);
        }
        if exists|j: int| 0 <= j < list@.len() && (#[trigger] list@[j])@ == area {
            let j = choose|j: int| 0 <= j < list@.len() && (#[trigger] list@[j])@ == area;
            assert(views[j] == area);
        }
    }
}

/// The interest in what was selected has exactly the capabilities that were found, each with
/// exactly the areas that the selectors for it pick, and is kept under the first authorisation
/// that was found for it.
pub proof fn law_interest_in_what_was_selected(
    found: Seq<Option<ReadAuthorisationView>>,
    selectors: Seq<AreaOfInterestSelector>,
    key: CapabilityKey,
    area: AreaOfInterestView,
)
    ensures
        ({
            let map = selected_interests(found, selectors);
            &&& map.dom().contains(key) <==> exists|i: int|
                0 <= i < found.len() && (#[trigger] found[i]) is Some && is_key_of(key, found[i]->0)
            &&& map.dom().contains(key) ==> (map[key].areas.contains(area) <==> exists|i: int|
                0 <= i < found.len() && (#[trigger] found[i]) is Some && is_key_of(key, found[i]->0)
                    && picks(selectors[i], found[i]->0, area))
            &&& map.dom().contains(key) ==> exists|i: int|
                {
                    &&& 0 <= i < found.len()
                    &&& (#[trigger] found[i]) == Some(map[key].authorisation)
                    &&& is_key_of(key, found[i]->0)
                    &&& forall|j: int|
                        0 <= j < i && (#[trigger] found[j]) is Some ==> !is_key_of(key, found[j]->0)
                }
        }),
{
    let map = selected_interests(found, selectors);
    lemma_selected_keys(found, selectors, key);
    if map.dom().contains(key) {
        if map[key].areas.contains(area) {
            law_areas_of_interest_were_selected(found, selectors, key, area);
            let i = choose|i: int|
                0 <= i < found.len() && (#[trigger] found[i]) is Some && capability_key(
                    found[i]->0.read,
                ) == key && selected_areas(found[i]->0, selectors[i]).contains(area);
            lemma_picks(selectors[i], found[i]->0, area);
            assert(found[i] is Some && is_key_of(key, found[i]->0));
        }
        if exists|i: int|
            0 <= i < found.len() && (#[trigger] found[i]) is Some && is_key_of(key, found[i]->0)
                && picks(selectors[i], found[i]->0, area) {
            let i = choose|i: int|
                0 <= i < found.len() && (#[trigger] found[i]) is Some && is_key_of(key, found[i]->0)
                    && picks(selectors[i], found[i]->0, area);
            lemma_picks(selectors[i], found[i]->0, area);
            assert(capability_key(found[i]->0.read) == key);
            law_selected_areas_are_of_interest(found, selectors, i, area);
        }
    }
}

proof fn lemma_selected_keys(
    found: Seq<Option<ReadAuthorisationView>>,
    selectors: Seq<AreaOfInterestSelector>,
    key: CapabilityKey,
)
    ensures
        ({
            let map = selected_interests(found, selectors);
            &&& map.dom().contains(key) <==> exists|i: int|
                0 <= i < found.len() && (#[trigger] found[i]) is Some && is_key_of(key, found[i]->0)
            &&& map.dom().contains(key) ==> exists|i: int|
                {
                    &&& 0 <= i < found.len()
                    &&& (#[trigger] found[i]) == Some(map[key].authorisation)
                    &&& is_key_of(key, found[i]->0)
                    &&& forall|j: int|
                        0 <= j < i && (#[trigger] found[j]) is Some ==> !is_key_of(key, found[j]->0)
                }
        }),
    decreases found.len(),
{
    if found.len() > 0 {
        let rest = found.drop_last();
        let last = found.len() - 1;
        let earlier = selected_interests(rest, selectors);
        let map = selected_interests(found, selectors);
        lemma_selected_keys(rest, selectors, key);
        assert forall|i: int| 0 <= i < rest.len() implies #[trigger] rest[i] == found[i] by {}
        if earlier.dom().contains(key) {
            let i = choose|i: int|
                {
                    &&& 0 <= i < rest.len()
                    &&& (#[trigger] rest[i]) == Some(earlier[key].authorisation)
                    &&& is_key_of(key, rest[i]->0)
                    &&& forall|j: int|
                        0 <= j < i && (#[trigger] rest[j]) is Some ==> !is_key_of(key, rest[j]->0)
                };
            assert(found[i] == rest[i]);
            assert(map[key].authorisation == earlier[key].authorisation);
            assert forall|j: int| 0 <= j < i && (#[trigger] found[j]) is Some implies !is_key_of(
                key,
                found[j]->0,
            ) by {
                assert(rest[j] == found[j]);
            }
        } else {
            assert forall|j: int| 0 <= j < last && (#[trigger] found[j]) is Some implies !is_key_of(
                key,
                found[j]->0,
            ) by {
                assert(rest[j] == found[j]);
            }
            if found[last] is Some && is_key_of(key, found[last]->0) {
                assert(capability_key(found[last]->0.read) == key);
                assert(map[key].authorisation == found[last]->0);
            }
            if exists|i: int|
                0 <= i < found.len() && (#[trigger] found[i]) is Some && is_key_of(
                    key,
                    found[i]->0,
                ) {
                let i = choose|i: int|
                    0 <= i < found.len() && (#[trigger] found[i]) is Some && is_key_of(
                        key,
                        found[i]->0,
                    );
                assert(i == last);
            }
            if map.dom().contains(key) {
                assert(found[last] is Some);
                assert(is_key_of(key, found[last]->0));
            }
        }
    }
}

/// Whether the answers of the storage are those to the selectors, one for each, without an
/// error.
pub open spec fn all_answered<C: CapsStorage>(
    caps: C,
    selection: Seq<(CapSelector, AreaOfInterestSelector)>,
    replies: Seq<Result<Option<ReadAuthorisation>, String>>,
) -> bool {
    &&& replies.len() == selection.len()
    &&& forall|i: int|
        0 <= i < replies.len() ==> (#[trigger] replies[i]) is Ok && call_ensures(
            C::get_read_cap,
            (&caps, &selection[i].0),
            replies[i],
        )
}

/// Whether the storage found a capability with this key for the selector at this index.
pub open spec fn was_found(
    replies: Seq<Result<Option<ReadAuthorisation>, String>>,
    i: int,
    key: CapabilityKey,
) -> bool {
    &&& 0 <= i < replies.len()
    &&& replies[i] matches Ok(Some(auth))
    &&& is_key_of(key, auth@)
}

/// Resolving selected interests gives exactly the capabilities that the storage finds for the
/// selectors, each with exactly the areas that are picked of it.
pub proof fn law_resolved_selection<C: CapsStorage>(
    caps: C,
    selection: Vec<(CapSelector, AreaOfInterestSelector)>,
    map: Map<CapabilityKey, InterestView>,
)
    requires
        resolving(
            caps,
            Interests::Select(selection),
            Ok::<Map<CapabilityKey, InterestView>, AuthErrorView>(map),
        ),
    ensures
        exists|replies: Seq<Result<Option<ReadAuthorisation>, String>>|
            {
                &&& #[trigger] all_answered(caps, selection@, replies)
                &&& forall|key: CapabilityKey| #[trigger]
                    map.dom().contains(key) <==> exists|i: int| #[trigger] was_found(replies, i, key)
                &&& forall|key: CapabilityKey, area: AreaOfInterestView|
                    map.dom().contains(key) ==> (#[trigger] map[key].areas.contains(area)
                        <==> exists|i: int| #[trigger]
                        was_found(replies, i, key) && picks(
                            selection@[i].1,
                            replies[i]->Ok_0->0@,
                            area,
                        ))
            },
{
    let outcome = Ok::<Map<CapabilityKey, InterestView>, AuthErrorView>(map);
    let replies = choose|replies: Seq<Result<Option<ReadAuthorisation>, String>>|
        #[trigger] answers(caps, selection@, replies) && selection_outcome(
            selection@,
            replies,
            outcome,
        );
    let selectors = selection@.map_values(|s: (CapSelector, AreaOfInterestSelector)| s.1);
    let found = found_views(replies);
    assert(all_answered(caps, selection@, replies));
    assert forall|key: CapabilityKey| #[trigger] map.dom().contains(key) <==> exists|i: int|
        #[trigger] was_found(replies, i, key) by {
        lemma_selected_keys(found, selectors, key);
        if map.dom().contains(key) {
            let i = choose|i: int|
                0 <= i < found.len() && (#[trigger] found[i]) is Some && is_key_of(key, found[i]->0);
            assert(was_found(replies, i, key));
        }
        if exists|i: int| #[trigger] was_found(replies, i, key) {
            let i = choose|i: int| #[trigger] was_found(replies, i, key);
            assert(found[i] is Some && is_key_of(key, found[i]->0));
        }
    }
    assert forall|key: CapabilityKey, area: AreaOfInterestView|
        map.dom().contains(key) implies (#[trigger] map[key].areas.contains(area) <==> exists|i: int|
        #[trigger] was_found(replies, i, key) && picks(
            selection@[i].1,
            replies[i]->Ok_0->0@,
            area,
        )) by {
        law_interest_in_what_was_selected(found, selectors, key, area);
        if map[key].areas.contains(area) {
            let i = choose|i: int|
                0 <= i < found.len() && (#[trigger] found[i]) is Some && is_key_of(key, found[i]->0)
                    && picks(selectors[i], found[i]->0, area);
            assert(was_found(replies, i, key));
            assert(selectors[i] == selection@[i].1);
        }
        if exists|i: int| #[trigger]
            was_found(replies, i, key) && picks(selection@[i].1, replies[i]->Ok_0->0@, area) {
            let i = choose|i: int| #[trigger]
                was_found(replies, i, key) && picks(selection@[i].1, replies[i]->Ok_0->0@, area);
            assert(found[i] is Some && is_key_of(key, found[i]->0));
            assert(selectors[i] == selection@[i].1);
        }
    }
}

/// Resolving the interest in all that can be read gives exactly the capabilities that the storage
/// lists, over all namespaces, each with its whole area without limits.
pub proof fn law_resolved_interest_in_all<C: CapsStorage>(
    caps: C,
    map: Map<CapabilityKey, InterestView>,
)
    requires
        resolving(
            caps,
            Interests::All,
            Ok::<Map<CapabilityKey, InterestView>, AuthErrorView>(map),
        ),
    ensures
        exists|list: Vec<ReadAuthorisation>|
            {
                &&& #[trigger] call_ensures(
                    C::list_read_caps,
                    (&caps, None::<NamespaceId>),
                    Ok(list),
                )
                &&& forall|key: CapabilityKey| #[trigger]
                    map.dom().contains(key) <==> exists|i: int|
                        0 <= i < list@.len() && is_key_of(key, (#[trigger] list@[i])@)
                &&& forall|key: CapabilityKey, area: AreaOfInterestView|
                    map.dom().contains(key) ==> (#[trigger] map[key].areas.contains(area) <==> {
                        &&& area.area == key.area
                        &&& area.max_count == 0
                        &&& area.max_size == 0
                    })
            },
{
    let reply = choose|reply: Result<Vec<ReadAuthorisation>, String>|
        #![trigger call_ensures(C::list_read_caps, (&caps, None::<NamespaceId>), reply)]
        {
            &&& call_ensures(C::list_read_caps, (&caps, None::<NamespaceId>), reply)
            &&& Ok::<Map<CapabilityKey, InterestView>, AuthErrorView>(map) == match reply {
                Ok(list) => Ok(all_interests(read_views(list@))),
                Err(text) => Err(AuthErrorView::Other(text@)),
            }
        };
    let list = reply->Ok_0;
    assert(call_ensures(C::list_read_caps, (&caps, None::<NamespaceId>), Ok(list)));
    let views = read_views(list@);
    assert forall|key: CapabilityKey| #[trigger] map.dom().contains(key) <==> exists|i: int|
        0 <= i < list@.len() && is_key_of(key, (#[trigger] list@[i])@) by {
        super::auth_laws::law_all_interests(views, key);
        if map.dom().contains(key) {
            let i = choose|i: int|
                0 <= i < views.len() && capability_key((#[trigger] views[i]).read) == key;
            assert(is_key_of(key, list@[i]@));
        }
        if exists|i: int| 0 <= i < list@.len() && is_key_of(key, (#[trigger] list@[i])@) {
            let i = choose|i: int| 0 <= i < list@.len() && is_key_of(key, (#[trigger] list@[i])@);
            assert(capability_key(views[i].read) == key);
        }
    }
    assert forall|key: CapabilityKey, area: AreaOfInterestView|
        map.dom().contains(key) implies (#[trigger] map[key].areas.contains(area) <==> {
        &&& area.area == key.area
        &&& area.max_count == 0
        &&& area.max_size == 0
    }) by {
        super::auth_laws::law_all_interests(views, key);
        let whole = AreaOfInterestView { area: key.area, max_count: 0, max_size: 0 };
        assert(set![whole].contains(area) <==> area == whole);
    }
}

/// Resolving interests fails only if the storage fails, with its text.
pub proof fn law_why_interests_are_not_resolved<C: CapsStorage>(
    caps: C,
    interests: Interests,
    e: AuthErrorView,
)
    requires
        resolving(
            caps,
            interests,
            Err::<Map<CapabilityKey, InterestView>, AuthErrorView>(e),
        ),
    ensures
        e is Other,
        interests is All ==> exists|text: String|
            #[trigger] call_ensures(C::list_read_caps, (&caps, None::<NamespaceId>), Err(text))
                && e->Other_0 == text@,
        interests matches Interests::Select(selection) ==> exists|i: int, text: String|
            #![trigger call_ensures(C::get_read_cap, (&caps, &selection@[i].0), Err(text))]
            0 <= i < selection@.len() && call_ensures(
                C::get_read_cap,
                (&caps, &selection@[i].0),
                Err(text),
            ) && e->Other_0 == text@,
{
    match interests {
        Interests::All => {},
        Interests::Select(selection) => {
            let outcome = Err::<Map<CapabilityKey, InterestView>, AuthErrorView>(e);
            let replies = choose|replies: Seq<Result<Option<ReadAuthorisation>, String>>|
                #[trigger] answers(caps, selection@, replies) && selection_outcome(
                    selection@,
                    replies,
                    outcome,
                );
            let last = replies.len() - 1;
            let text = replies[last]->Err_0;
            assert(replies[last] == Err::<Option<ReadAuthorisation>, String>(text));
            assert(call_ensures(C::get_read_cap, (&caps, &selection@[last].0), Err(text)));
        },
    }
}

// ---------------------------------------------------------------------------
// Creating capabilities
// ---------------------------------------------------------------------------

/// Whether the storage always answers with this secret of the namespace.
pub open spec fn has_namespace_secret<A: SecretStorage>(
    secrets: A,
    namespace_id: NamespaceId,
    secret: NamespaceSecretKey,
) -> bool {
    forall|reply: Result<Option<NamespaceSecretKey>, SecretStoreError>|
        #![trigger call_ensures(A::get_namespace, (&secrets, &namespace_id), reply)]
        call_ensures(A::get_namespace, (&secrets, &namespace_id), reply) ==> reply == Ok::<
            Option<NamespaceSecretKey>,
            SecretStoreError,
        >(Some(secret))
}

/// Whether the storage always answers that it has no secret of the namespace.
pub open spec fn lacks_namespace_secret<A: SecretStorage>(
    secrets: A,
    namespace_id: NamespaceId,
) -> bool {
    forall|reply: Result<Option<NamespaceSecretKey>, SecretStoreError>|
        #![trigger call_ensures(A::get_namespace, (&secrets, &namespace_id), reply)]
        call_ensures(A::get_namespace, (&secrets, &namespace_id), reply) ==> reply == Ok::<
            Option<NamespaceSecretKey>,
            SecretStoreError,
        >(None)
}

/// Whether the storage of secrets always fails, with this text, when it is asked for that of the
/// namespace.
pub open spec fn fails_for_namespace<A: SecretStorage>(
    secrets: A,
    namespace_id: NamespaceId,
    text: Seq<char>,
) -> bool {
    forall|reply: Result<Option<NamespaceSecretKey>, SecretStoreError>|
        #![trigger call_ensures(A::get_namespace, (&secrets, &namespace_id), reply)]
        call_ensures(A::get_namespace, (&secrets, &namespace_id), reply) ==> reply is Err
            && reply->Err_0.text@ == text
}

/// With the secret of the namespace, and a signer that signs, the capabilities of every user to
/// read and to write can be created; without the secret neither can, and that is the error.
pub proof fn law_creating_needs_the_secret<
    A: SecretStorage,
    F: Fn(&DelegationDraft) -> Result<DelegationSeal, String>,
>(
    secrets: A,
    sign: F,
    namespace_id: NamespaceId,
    user_id: UserId,
    secret: NamespaceSecretKey,
    text: Seq<char>,
    read: Result<CapabilityPackView, AuthErrorView>,
    write: Result<CapabilityPackView, AuthErrorView>,
)
    requires
        creating_read_cap(secrets, sign, namespace_id, user_id, read),
        creating_write_cap(secrets, sign, namespace_id, user_id, write),
    ensures
        ({
            &&& has_namespace_secret(secrets, namespace_id, secret)
            &&& secret.spec_id() == namespace_id
            &&& signs_validly(sign)
            &&& verifying_key_error(user_id.bytes@) is None
            &&& verifying_key_error(namespace_id.bytes@) is None
        }) ==> read is Ok && write is Ok,
        lacks_namespace_secret(secrets, namespace_id) ==> {
            let e = AuthErrorView::MissingNamespaceSecret(namespace_id);
            &&& read == Err::<CapabilityPackView, AuthErrorView>(e)
            &&& write == Err::<CapabilityPackView, AuthErrorView>(e)
        },
        fails_for_namespace(secrets, namespace_id, text) ==> {
            let e = AuthErrorView::SecretStore(text);
            &&& read == Err::<CapabilityPackView, AuthErrorView>(e)
            &&& write == Err::<CapabilityPackView, AuthErrorView>(e)
        },
{
    let for_read = choose|found: Result<NamespaceSecretKey, AuthErrorView>|
        {
            &&& #[trigger] finding_namespace_secret(secrets, namespace_id, found)
            &&& match found {
                Err(e) => read == Err::<CapabilityPackView, AuthErrorView>(e),
                Ok(found) => creating_read_pack(sign, found, user_id, read),
            }
        };
    let command = WillowCommand::Write;
    let for_write = choose|found: Result<NamespaceSecretKey, AuthErrorView>|
        {
            &&& #[trigger] finding_namespace_secret(secrets, namespace_id, found)
            &&& match found {
                Err(e) => write == Err::<CapabilityPackView, AuthErrorView>(e),
                Ok(found) => exists|chain: Result<ChainView, ChainErrorView>|
                    {
                        &&& #[trigger] signed_extension(
                            sign,
                            seq![],
                            root_draft_outcome(namespace_id, found, user_id, command),
                            chain,
                        )
                        &&& write == match chain {
                            Ok(chain) => Ok(CapabilityPackView::Write(chain)),
                            Err(e) => Err(AuthErrorView::ChainError(e)),
                        }
                    },
            }
        };
    if {
        &&& has_namespace_secret(secrets, namespace_id, secret)
        &&& secret.spec_id() == namespace_id
        &&& signs_validly(sign)
        &&& verifying_key_error(user_id.bytes@) is None
        &&& verifying_key_error(namespace_id.bytes@) is None
    } {
        assert(for_read == Ok::<NamespaceSecretKey, AuthErrorView>(secret));
        assert(for_write == Ok::<NamespaceSecretKey, AuthErrorView>(secret));
        let auth = choose|auth: Result<ReadAuthorisationView, ChainErrorView>|
            {
                &&& #[trigger] owned_read_outcome(sign, secret, user_id, auth)
                &&& read == match auth {
                    Ok(auth) => Ok(CapabilityPackView::Read(auth)),
                    Err(e) => Err(AuthErrorView::Other(e.message())),
                }
            };
        law_owner_can_authorise(sign, secret, user_id, auth);
        let chain = choose|chain: Result<ChainView, ChainErrorView>|
            {
                &&& #[trigger] signed_extension(
                    sign,
                    seq![],
                    root_draft_outcome(namespace_id, secret, user_id, command),
                    chain,
                )
                &&& write == match chain {
                    Ok(chain) => Ok(CapabilityPackView::Write(chain)),
                    Err(e) => Err(AuthErrorView::ChainError(e)),
                }
            };
        law_owner_can_give(sign, namespace_id, secret, user_id, command, chain);
    }
}

/// Creating both capabilities of a user gives what creating each gives, and both are stored;
/// where one cannot be created, nothing is stored and that is the error, and else the error is
/// that the storage refuses one.
pub proof fn law_creating_both<
    A: SecretStorage,
    C: CapsStorage,
    F: Fn(&DelegationDraft) -> Result<DelegationSeal, String>,
>(
    secrets: A,
    caps: C,
    sign: F,
    namespace_id: NamespaceId,
    user_id: UserId,
    added: Seq<CapabilityPackView>,
    outcome: Result<Seq<CapabilityPackView>, AuthErrorView>,
)
    requires
        creating_full_caps(secrets, caps, sign, namespace_id, user_id, added, outcome),
    ensures
        outcome matches Ok(packs) ==> {
            &&& packs.len() == 2
            &&& creating_read_cap(
                secrets,
                sign,
                namespace_id,
                user_id,
                Ok::<CapabilityPackView, AuthErrorView>(packs[0]),
            )
            &&& creating_write_cap(
                secrets,
                sign,
                namespace_id,
                user_id,
                Ok::<CapabilityPackView, AuthErrorView>(packs[1]),
            )
            &&& added == packs
        },
        outcome matches Err(e) ==> {
            let failed = Err::<CapabilityPackView, AuthErrorView>(e);
            ||| added.len() == 0 && creating_read_cap(secrets, sign, namespace_id, user_id, failed)
            ||| added.len() == 0 && creating_write_cap(secrets, sign, namespace_id, user_id, failed)
            ||| added.len() < 2 && e is Other && exists|pack: CapabilityPackView|
                #[trigger] may_refuse::<C>(pack, e->Other_0)
        },
{
    let read = choose|read: Result<CapabilityPackView, AuthErrorView>|
        {
            &&& #[trigger] creating_read_cap(secrets, sign, namespace_id, user_id, read)
            &&& match read {
                Err(e) => added.len() == 0 && outcome == Err::<
                    Seq<CapabilityPackView>,
                    AuthErrorView,
                >(e),
                Ok(read) => exists|write: Result<CapabilityPackView, AuthErrorView>|
                    {
                        &&& #[trigger] creating_write_cap(
                            secrets,
                            sign,
                            namespace_id,
                            user_id,
                            write,
                        )
                        &&& match write {
                            Err(e) => added.len() == 0 && outcome == Err::<
                                Seq<CapabilityPackView>,
                                AuthErrorView,
                            >(e),
                            Ok(write) => keeping(caps, seq![read, write], true, added, outcome),
                        }
                    },
            }
        };
    if let Ok(first) = read {
        let write = choose|write: Result<CapabilityPackView, AuthErrorView>|
            {
                &&& #[trigger] creating_write_cap(secrets, sign, namespace_id, user_id, write)
                &&& match write {
                    Err(e) => added.len() == 0 && outcome == Err::<
                        Seq<CapabilityPackView>,
                        AuthErrorView,
                    >(e),
                    Ok(write) => keeping(caps, seq![first, write], true, added, outcome),
                }
            };
        if let Ok(second) = write {
            lemma_kept(caps, seq![first, second], true, added, outcome);
        }
    }
}

proof fn lemma_kept<C: CapsStorage>(
    caps: C,
    packs: Seq<CapabilityPackView>,
    store: bool,
    added: Seq<CapabilityPackView>,
    outcome: Result<Seq<CapabilityPackView>, AuthErrorView>,
)
    requires
        keeping(caps, packs, store, added, outcome),
    ensures
        outcome matches Ok(given) ==> given == packs,
        outcome is Ok && store ==> added == packs,
        !store ==> outcome is Ok && added.len() == 0,
        outcome matches Err(e) ==> {
            &&& store
            &&& added.len() < packs.len()
            &&& added == packs.take(added.len() as int)
            &&& e is Other
            &&& may_refuse::<C>(packs[added.len() as int], e->Other_0)
        },
{
    if store {
        let n = choose|n: int|
            #[trigger] storing_all(caps, packs, n, without_value(outcome)) && added == packs.take(n);
        law_storing_fails_only_if_refused(caps, packs, n, without_value(outcome));
        if outcome is Ok {
            assert(packs.take(n) =~= packs);
        }
    }
}

// ---------------------------------------------------------------------------
// Delegating capabilities
// ---------------------------------------------------------------------------

/// Whether the storage always answers with this secret of the user.
pub open spec fn has_user_secret<A: SecretStorage>(
    secrets: A,
    user_id: UserId,
    secret: UserSecretKey,
) -> bool {
    forall|reply: Result<Option<UserSecretKey>, SecretStoreError>|
        #![trigger call_ensures(A::get_user, (&secrets, &user_id), reply)]
        call_ensures(A::get_user, (&secrets, &user_id), reply) ==> reply == Ok::<
            Option<UserSecretKey>,
            SecretStoreError,
        >(Some(secret))
}

/// Whether the storage always answers that it has no secret of the user.
pub open spec fn lacks_user_secret<A: SecretStorage>(secrets: A, user_id: UserId) -> bool {
    forall|reply: Result<Option<UserSecretKey>, SecretStoreError>|
        #![trigger call_ensures(A::get_user, (&secrets, &user_id), reply)]
        call_ensures(A::get_user, (&secrets, &user_id), reply) ==> reply == Ok::<
            Option<UserSecretKey>,
            SecretStoreError,
        >(None)
}

/// Whether the storage always finds this authorisation to read, or finds none.
pub open spec fn finds_read<C: CapsStorage>(
    caps: C,
    from: CapSelector,
    auth: Option<ReadAuthorisationView>,
) -> bool {
    forall|reply: Result<Option<ReadAuthorisation>, String>|
        #![trigger call_ensures(C::get_read_cap, (&caps, &from), reply)]
        call_ensures(C::get_read_cap, (&caps, &from), reply) ==> reply is Ok && match reply->Ok_0 {
            Some(found) => auth == Some(found@),
            None => auth is None,
        }
}

/// Whether the storage always finds this capability to write, or finds none.
pub open spec fn finds_write<C: CapsStorage>(
    caps: C,
    from: CapSelector,
    chain: Option<ChainView>,
) -> bool {
    forall|reply: Result<Option<WriteCapability>, String>|
        #![trigger call_ensures(C::get_write_cap, (&caps, &from), reply)]
        call_ensures(C::get_write_cap, (&caps, &from), reply) ==> reply is Ok && match reply->Ok_0 {
            Some(found) => chain == Some(found@),
            None => chain is None,
        }
}

/// Whether the area can be asked for of the chain: it is within its area, and can be told from
/// its policy. No area stands for that of the chain.
pub open spec fn can_be_asked(chain: ChainView, restriction: Option<AreaView>) -> bool {
    restriction matches Some(area) ==> {
        &&& chain.area.includes_area(area)
        &&& path_error(area.path) is None
        &&& has_faithful_policy(area)
    }
}

/// Whether `next` gives `to` what `chain` gives, over the area that was asked for, or over all of
/// its area where none was.
pub open spec fn is_passed_on(
    chain: ChainView,
    next: ChainView,
    to: UserId,
    restriction: Option<AreaView>,
) -> bool {
    &&& next.namespace() == chain.namespace()
    &&& next.command == chain.command
    &&& next.receiver() == to
    &&& next.area == match restriction {
        Some(area) => area,
        None => chain.area,
    }
}

proof fn lemma_pass_on<F: Fn(&DelegationDraft) -> Result<DelegationSeal, String>>(
    sign: F,
    chain: ChainView,
    secret: UserSecretKey,
    to: UserId,
    restriction: Option<AreaView>,
    next: Result<ChainView, ChainErrorView>,
)
    requires
        signed_extension(
            sign,
            chain.delegations,
            next_draft_outcome(chain, secret, to, restricted(restriction, chain.area)),
            next,
        ),
        is_chain(chain),
        secret.spec_id() == chain.receiver(),
        signs_validly(sign),
        verifying_key_error(to.bytes@) is None,
        can_be_asked(chain, restriction),
    ensures
        next is Ok,
        is_passed_on(chain, next->Ok_0, to, restriction),
{
    let area = restricted(restriction, chain.area);
    law_what_a_chain_says(chain.delegations, chain);
    law_areas_of_policies_are_faithful(chain.delegations.last().policy, chain.area);
    law_area_includes_itself(chain.area);
    law_holder_can_pass_on(sign, chain, secret, to, area, next);
}

/// The authorisation to read that the storage finds is passed on over the area that is asked for,
/// with a signer that signs and the secret of its user; and with it the proof of membership, over
/// the whole namespace, exactly where there is one of the same user over the whole namespace.
pub proof fn law_read_capabilities_are_passed_on<
    A: SecretStorage,
    C: CapsStorage,
    F: Fn(&DelegationDraft) -> Result<DelegationSeal, String>,
>(
    secrets: A,
    caps: C,
    sign: F,
    from: CapSelector,
    to: UserId,
    restriction: Option<AreaView>,
    outcome: Result<CapabilityPackView, AuthErrorView>,
    auth: ReadAuthorisationView,
    secret: UserSecretKey,
)
    requires
        delegating_read_cap(secrets, caps, sign, from, to, restriction, outcome),
        finds_read(caps, from, Some(auth)),
        is_chain(auth.read),
        auth.enumerate matches Some(membership) ==> is_chain(membership),
        has_user_secret(secrets, auth.read.receiver(), secret),
        secret.spec_id() == auth.read.receiver(),
        signs_validly(sign),
        verifying_key_error(to.bytes@) is None,
        can_be_asked(auth.read, restriction),
    ensures
        outcome matches Ok(pack) && {
            &&& pack is Read
            &&& is_passed_on(auth.read, pack->Read_0.read, to, restriction)
            &&& pack->Read_0.enumerate is Some <==> auth.enumerate is Some
                && auth.enumerate->0.receiver() == auth.read.receiver() && auth.enumerate->0.area
                == AreaView::full()
            &&& pack->Read_0.enumerate is Some ==> is_passed_on(
                auth.enumerate->0,
                pack->Read_0.enumerate->0,
                to,
                None,
            )
        },
{
    let reply = choose|reply: Result<Option<ReadAuthorisation>, String>|
        #![trigger call_ensures(C::get_read_cap, (&caps, &from), reply)]
        {
            &&& call_ensures(C::get_read_cap, (&caps, &from), reply)
            &&& match reply {
                Err(text) => outcome == Err::<CapabilityPackView, AuthErrorView>(
                    AuthErrorView::Other(text@),
                ),
                Ok(None) => outcome == Err::<CapabilityPackView, AuthErrorView>(
                    AuthErrorView::NoCapability,
                ),
                Ok(Some(found)) => delegating_found_authorisation(
                    secrets,
                    sign,
                    found@,
                    to,
                    restricted(restriction, found@.read.area),
                    outcome,
                ),
            }
        };
    let area = restricted(restriction, auth.read.area);
    assert(delegating_found_authorisation(secrets, sign, auth, to, area, outcome));
    let user_id = auth.read.receiver();
    let found = choose|found: Result<UserSecretKey, AuthErrorView>|
        {
            &&& #[trigger] finding_user_secret(secrets, user_id, found)
            &&& match found {
                Err(e) => outcome == Err::<CapabilityPackView, AuthErrorView>(e),
                Ok(found) => delegating_as_pack(sign, auth, found, to, area, outcome),
            }
        };
    assert(found == Ok::<UserSecretKey, AuthErrorView>(secret));
    let next = choose|next: Result<ReadAuthorisationView, ChainErrorView>|
        {
            &&& #[trigger] delegating_authorisation(sign, auth, secret, to, area, next)
            &&& outcome == match next {
                Ok(next) => Ok(CapabilityPackView::Read(next)),
                Err(e) => Err(AuthErrorView::ChainError(e)),
            }
        };
    lemma_pass_on_authorisation(sign, auth, secret, to, restriction, next);
}

proof fn lemma_pass_on_authorisation<
    F: Fn(&DelegationDraft) -> Result<DelegationSeal, String>,
>(
    sign: F,
    auth: ReadAuthorisationView,
    secret: UserSecretKey,
    to: UserId,
    restriction: Option<AreaView>,
    next: Result<ReadAuthorisationView, ChainErrorView>,
)
    requires
        delegating_authorisation(
            sign,
            auth,
            secret,
            to,
            restricted(restriction, auth.read.area),
            next,
        ),
        is_chain(auth.read),
        auth.enumerate matches Some(membership) ==> is_chain(membership),
        secret.spec_id() == auth.read.receiver(),
        signs_validly(sign),
        verifying_key_error(to.bytes@) is None,
        can_be_asked(auth.read, restriction),
    ensures
        next is Ok,
        is_passed_on(auth.read, next->Ok_0.read, to, restriction),
        next->Ok_0.enumerate is Some <==> auth.enumerate is Some && auth.enumerate->0.receiver()
            == auth.read.receiver() && auth.enumerate->0.area == AreaView::full(),
        next->Ok_0.enumerate is Some ==> is_passed_on(
            auth.enumerate->0,
            next->Ok_0.enumerate->0,
            to,
            None,
        ),
{
    let area = restricted(restriction, auth.read.area);
    let full = AreaView::full();
    let read_draft = next_draft_outcome(auth.read, secret, to, area);
    let membership = delegable_membership(auth);
    if auth.enumerate is Some {
        crate::proto::grouping::law_full_area_includes_all(auth.enumerate->0.area);
        law_area_includes_itself(full);
        if auth.enumerate->0.area.includes_area(full) {
            crate::proto::grouping::law_areas_that_include_each_other(auth.enumerate->0.area, full);
        }
    }
    let draft = next_draft_outcome(membership->0, secret, to, full);
    let read = choose|read: Result<ChainView, ChainErrorView>|
        {
            &&& #[trigger] signed_extension(sign, auth.read.delegations, read_draft, read)
            &&& match (read, membership) {
                (Err(e), _) => next == Err::<ReadAuthorisationView, ChainErrorView>(e),
                (Ok(read), None) => next == Ok::<ReadAuthorisationView, ChainErrorView>(
                    ReadAuthorisationView { read, enumerate: None },
                ),
                (Ok(read), Some(membership)) => exists|
                    enumerate: Result<ChainView, ChainErrorView>,
                |
                    {
                        &&& #[trigger] signed_extension(
                            sign,
                            membership.delegations,
                            next_draft_outcome(membership, secret, to, full),
                            enumerate,
                        )
                        &&& next == match enumerate {
                            Ok(enumerate) => Ok(
                                ReadAuthorisationView { read, enumerate: Some(enumerate) },
                            ),
                            Err(e) => Err(e),
                        }
                    },
            }
        };
    lemma_pass_on(sign, auth.read, secret, to, restriction, read);
    if membership is Some {
        let enumerate = choose|enumerate: Result<ChainView, ChainErrorView>|
            {
                &&& #[trigger] signed_extension(
                    sign,
                    membership->0.delegations,
                    draft,
                    enumerate,
                )
                &&& next == match enumerate {
                    Ok(enumerate) => Ok(
                        ReadAuthorisationView { read: read->Ok_0, enumerate: Some(enumerate) },
                    ),
                    Err(e) => Err(e),
                }
            };
        lemma_pass_on(sign, membership->0, secret, to, None, enumerate);
    }
}

/// The capability to write that the storage finds is passed on over the area that is asked for,
/// with a signer that signs and the secret of its user.
pub proof fn law_write_capabilities_are_passed_on<
    A: SecretStorage,
    C: CapsStorage,
    F: Fn(&DelegationDraft) -> Result<DelegationSeal, String>,
>(
    secrets: A,
    caps: C,
    sign: F,
    from: CapSelector,
    to: UserId,
    restriction: Option<AreaView>,
    outcome: Result<CapabilityPackView, AuthErrorView>,
    chain: ChainView,
    secret: UserSecretKey,
)
    requires
        delegating_write_cap(secrets, caps, sign, from, to, restriction, outcome),
        finds_write(caps, from, Some(chain)),
        is_chain(chain),
        has_user_secret(secrets, chain.receiver(), secret),
        secret.spec_id() == chain.receiver(),
        signs_validly(sign),
        verifying_key_error(to.bytes@) is None,
        can_be_asked(chain, restriction),
    ensures
        outcome matches Ok(pack) && pack is Write && is_passed_on(
            chain,
            pack->Write_0,
            to,
            restriction,
        ),
{
    let area = restricted(restriction, chain.area);
    let next = lemma_found_write(secrets, caps, sign, from, to, restriction, outcome, chain);
    let user_id = chain.receiver();
    let found = choose|found: Result<UserSecretKey, AuthErrorView>|
        {
            &&& #[trigger] finding_user_secret(secrets, user_id, found)
            &&& match found {
                Err(e) => next == Err::<ChainView, AuthErrorView>(e),
                Ok(found) => exists|made: Result<ChainView, ChainErrorView>|
                    {
                        &&& #[trigger] signed_extension(
                            sign,
                            chain.delegations,
                            next_draft_outcome(chain, found, to, area),
                            made,
                        )
                        &&& next == match made {
                            Ok(made) => Ok(made),
                            Err(e) => Err(AuthErrorView::ChainError(e)),
                        }
                    },
            }
        };
    assert(found == Ok::<UserSecretKey, AuthErrorView>(secret));
    let made = choose|made: Result<ChainView, ChainErrorView>|
        {
            &&& #[trigger] signed_extension(
                sign,
                chain.delegations,
                next_draft_outcome(chain, secret, to, area),
                made,
            )
            &&& next == match made {
                Ok(made) => Ok(made),
                Err(e) => Err(AuthErrorView::ChainError(e)),
            }
        };
    lemma_pass_on(sign, chain, secret, to, restriction, made);
}

proof fn lemma_found_write<
    A: SecretStorage,
    C: CapsStorage,
    F: Fn(&DelegationDraft) -> Result<DelegationSeal, String>,
>(
    secrets: A,
    caps: C,
    sign: F,
    from: CapSelector,
    to: UserId,
    restriction: Option<AreaView>,
    outcome: Result<CapabilityPackView, AuthErrorView>,
    chain: ChainView,
) -> (next: Result<ChainView, AuthErrorView>)
    requires
        delegating_write_cap(secrets, caps, sign, from, to, restriction, outcome),
        finds_write(caps, from, Some(chain)),
    ensures
        delegating(secrets, sign, chain, to, restricted(restriction, chain.area), next),
        outcome == match next {
            Ok(chain) => Ok(CapabilityPackView::Write(chain)),
            Err(e) => Err(e),
        },
{
    let reply = choose|reply: Result<Option<WriteCapability>, String>|
        #![trigger call_ensures(C::get_write_cap, (&caps, &from), reply)]
        {
            &&& call_ensures(C::get_write_cap, (&caps, &from), reply)
            &&& match reply {
                Err(text) => outcome == Err::<CapabilityPackView, AuthErrorView>(
                    AuthErrorView::Other(text@),
                ),
                Ok(None) => outcome == Err::<CapabilityPackView, AuthErrorView>(
                    AuthErrorView::NoCapability,
                ),
                Ok(Some(cap)) => exists|next: Result<ChainView, AuthErrorView>|
                    {
                        &&& #[trigger] delegating(
                            secrets,
                            sign,
                            cap@,
                            to,
                            restricted(restriction, cap@.area),
                            next,
                        )
                        &&& outcome == match next {
                            Ok(chain) => Ok(CapabilityPackView::Write(chain)),
                            Err(e) => Err(e),
                        }
                    },
            }
        };
    let area = restricted(restriction, chain.area);
    let next = choose|next: Result<ChainView, AuthErrorView>|
        {
            &&& #[trigger] delegating(secrets, sign, chain, to, area, next)
            &&& outcome == match next {
                Ok(chain) => Ok(CapabilityPackView::Write(chain)),
                Err(e) => Err(e),
            }
        };
    next
}

/// Where the storage finds no capability, nothing is delegated; and where there is no secret of
/// its user, neither.
pub proof fn law_why_nothing_is_delegated<
    A: SecretStorage,
    C: CapsStorage,
    F: Fn(&DelegationDraft) -> Result<DelegationSeal, String>,
>(
    secrets: A,
    caps: C,
    sign: F,
    from: CapSelector,
    to: UserId,
    restriction: Option<AreaView>,
    read: Result<CapabilityPackView, AuthErrorView>,
    write: Result<CapabilityPackView, AuthErrorView>,
    auth: ReadAuthorisationView,
    chain: ChainView,
)
    requires
        delegating_read_cap(secrets, caps, sign, from, to, restriction, read),
        delegating_write_cap(secrets, caps, sign, from, to, restriction, write),
    ensures
        finds_read(caps, from, None) ==> read == Err::<CapabilityPackView, AuthErrorView>(
            AuthErrorView::NoCapability,
        ),
        finds_write(caps, from, None) ==> write == Err::<CapabilityPackView, AuthErrorView>(
            AuthErrorView::NoCapability,
        ),
        finds_read(caps, from, Some(auth)) && lacks_user_secret(secrets, auth.read.receiver())
            ==> read == Err::<CapabilityPackView, AuthErrorView>(
            AuthErrorView::MissingUserSecret(auth.read.receiver()),
        ),
        finds_write(caps, from, Some(chain)) && lacks_user_secret(secrets, chain.receiver())
            ==> write == Err::<CapabilityPackView, AuthErrorView>(
            AuthErrorView::MissingUserSecret(chain.receiver()),
        ),
{
    if finds_read(caps, from, Some(auth)) && lacks_user_secret(secrets, auth.read.receiver()) {
        let area = restricted(restriction, auth.read.area);
        assert(delegating_found_authorisation(secrets, sign, auth, to, area, read));
        let user_id = auth.read.receiver();
        assert(forall|found: Result<UserSecretKey, AuthErrorView>| #[trigger]
            finding_user_secret(secrets, user_id, found) ==> found == Err::<
                UserSecretKey,
                AuthErrorView,
            >(AuthErrorView::MissingUserSecret(user_id)));
    }
    if finds_write(caps, from, Some(chain)) && lacks_user_secret(secrets, chain.receiver()) {
        let next = lemma_found_write(secrets, caps, sign, from, to, restriction, write, chain);
        let user_id = chain.receiver();
        assert(forall|found: Result<UserSecretKey, AuthErrorView>| #[trigger]
            finding_user_secret(secrets, user_id, found) ==> found == Err::<
                UserSecretKey,
                AuthErrorView,
            >(AuthErrorView::MissingUserSecret(user_id)));
    }
}

/// Delegating capabilities gives what delegating the one to read gives and, for the access mode
/// `Write`, what delegating the one to write gives. Where one cannot be delegated, nothing is
/// stored and that is the error, and else the error is that the storage refuses one.
pub proof fn law_delegating_both<
    A: SecretStorage,
    C: CapsStorage,
    F: Fn(&DelegationDraft) -> Result<DelegationSeal, String>,
>(
    secrets: A,
    caps: C,
    sign: F,
    from: CapSelector,
    access_mode: AccessMode,
    to: DelegateTo,
    store: bool,
    added: Seq<CapabilityPackView>,
    outcome: Result<Seq<CapabilityPackView>, AuthErrorView>,
)
    requires
        delegating_full_caps(secrets, caps, sign, from, access_mode, to, store, added, outcome),
    ensures
        outcome matches Ok(packs) ==> {
            &&& packs.len() == if access_mode is Write {
                2int
            } else {
                1int
            }
            &&& delegating_read_cap(
                secrets,
                caps,
                sign,
                from,
                to.user,
                to.restrict_area@,
                Ok::<CapabilityPackView, AuthErrorView>(packs[0]),
            )
            &&& access_mode is Write ==> delegating_write_cap(
                secrets,
                caps,
                sign,
                from,
                to.user,
                to.restrict_area@,
                Ok::<CapabilityPackView, AuthErrorView>(packs[1]),
            )
            &&& added == if store {
                packs
            } else {
                seq![]
            }
        },
        outcome matches Err(e) ==> {
            let failed = Err::<CapabilityPackView, AuthErrorView>(e);
            ||| added.len() == 0 && delegating_read_cap(
                secrets,
                caps,
                sign,
                from,
                to.user,
                to.restrict_area@,
                failed,
            )
            ||| access_mode is Write && added.len() == 0 && delegating_write_cap(
                secrets,
                caps,
                sign,
                from,
                to.user,
                to.restrict_area@,
                failed,
            )
            ||| store && e is Other && exists|pack: CapabilityPackView|
                #[trigger] may_refuse::<C>(pack, e->Other_0)
        },
{
    let area = to.restrict_area@;
    let read = choose|read: Result<CapabilityPackView, AuthErrorView>|
        {
            &&& #[trigger] delegating_read_cap(secrets, caps, sign, from, to.user, area, read)
            &&& match read {
                Err(e) => added.len() == 0 && outcome == Err::<
                    Seq<CapabilityPackView>,
                    AuthErrorView,
                >(e),
                Ok(read) => if access_mode is Read {
                    keeping(caps, seq![read], store, added, outcome)
                } else {
                    exists|write: Result<CapabilityPackView, AuthErrorView>|
                        {
                            &&& #[trigger] delegating_write_cap(
                                secrets,
                                caps,
                                sign,
                                from,
                                to.user,
                                area,
                                write,
                            )
                            &&& match write {
                                Err(e) => added.len() == 0 && outcome == Err::<
                                    Seq<CapabilityPackView>,
                                    AuthErrorView,
                                >(e),
                                Ok(write) => keeping(caps, seq![read, write], store, added, outcome),
                            }
                        }
                },
            }
        };
    if let Ok(first) = read {
        if access_mode is Read {
            lemma_kept(caps, seq![first], store, added, outcome);
            if !store {
                assert(added =~= seq![]);
            }
        } else {
            let write = choose|write: Result<CapabilityPackView, AuthErrorView>|
                {
                    &&& #[trigger] delegating_write_cap(
                        secrets,
                        caps,
                        sign,
                        from,
                        to.user,
                        area,
                        write,
                    )
                    &&& match write {
                        Err(e) => added.len() == 0 && outcome == Err::<
                            Seq<CapabilityPackView>,
                            AuthErrorView,
                        >(e),
                        Ok(write) => keeping(caps, seq![first, write], store, added, outcome),
                    }
                };
            if let Ok(second) = write {
                lemma_kept(caps, seq![first, second], store, added, outcome);
                if !store {
                    assert(added =~= seq![]);
                }
            }
        }
    }
}

// ---------------------------------------------------------------------------
// What is passed on
// ---------------------------------------------------------------------------

/// Whether the storage may take the pack.
pub open spec fn may_take<C: CapsStorage>(pack: CapabilityPackView) -> bool {
    exists|c: &mut C, p: CapabilityPack, reply: Result<(), String>|
        p@ == pack && reply is Ok && #[trigger] call_ensures(C::insert, (c, p), reply)
}

/// Every pack that is imported was put into the storage, which took it.
pub proof fn law_imported_packs_were_taken<A: SecretStorage, C: CapsStorage>(
    secrets: A,
    caps: C,
    revoked: Set<Seq<u8>>,
    packs: Seq<CapabilityPackView>,
    n: int,
    outcome: Result<(), AuthErrorView>,
    i: int,
)
    requires
        importing_all(secrets, caps, revoked, packs, n, outcome),
        0 <= i < n,
    ensures
        may_take::<C>(packs[i]),
{
    let contents = with_packs(caps.packs(), packs.take(i));
    assert(importing::<A, C>(secrets, contents, revoked, packs[i], None));
    lemma_taken::<C>(contents, packs[i]);
}

/// Every pack that is stored was put into the storage, which took it.
pub proof fn law_stored_packs_were_taken<C: CapsStorage>(
    caps: C,
    packs: Seq<CapabilityPackView>,
    n: int,
    outcome: Result<(), AuthErrorView>,
    i: int,
)
    requires
        storing_all(caps, packs, n, outcome),
        0 <= i < n,
    ensures
        may_take::<C>(packs[i]),
{
    lemma_taken::<C>(with_packs(caps.packs(), packs.take(i)), packs[i]);
}

proof fn lemma_taken<C: CapsStorage>(contents: PackSet, pack: CapabilityPackView)
    requires
        storing::<C>(contents, pack, None),
    ensures
        may_take::<C>(pack),
{
    let (holder, reply) = choose|holder: C, reply: Result<(), String>|
        {
            &&& holder.packs() == contents
            &&& #[trigger] inserting(holder, pack, reply)
            &&& None::<AuthErrorView> == match reply {
                Ok(()) => None,
                Err(text) => Some(AuthErrorView::Other(text@)),
            }
        };
    let (c, p) = choose|c: &mut C, p: CapabilityPack|
        *c == holder && p@ == pack && #[trigger] call_ensures(C::insert, (c, p), reply);
    assert(reply is Ok && call_ensures(C::insert, (c, p), reply));
}

/// What the storage of capabilities answers is passed on as it is, and its failures with their
/// text.
pub proof fn law_answers_are_passed_on<T>(reply: Result<T, String>, r: Result<T, AuthError>)
    ensures
        passes_on(reply, r) <==> {
            &&& reply is Ok <==> r is Ok
            &&& reply is Ok ==> r->Ok_0 == reply->Ok_0
            &&& reply is Err ==> r->Err_0@ is Other && r->Err_0@->Other_0 == reply->Err_0@
        },
{
}

/// What is taken out of the storage is what it answers when it is asked for the same selection,
/// as it was before.
pub proof fn law_deletions_are_asked_of_the_storage<C: CapsStorage>(
    caps: C,
    selector: CapSelector,
    reply: Result<Vec<McCapability>, String>,
)
    requires
        deleting(caps, selector, reply),
    ensures
        exists|c: &mut C| #[trigger]
            call_ensures(C::del_caps, (c, &selector), reply) && *c == caps,
{
}

/// When capabilities are deleted, nothing comes into the storage, and nothing goes that is of
/// another namespace, of another user than the one that was asked for, or over an area that
/// leaves out some of the area that was asked for.
pub proof fn law_only_selected_packs_go(
    before: PackSet,
    selector: CapSelector,
    after: PackSet,
    pack: CapabilityPackView,
)
    requires
        deleted(before, selector, after),
    ensures
        after.contains(pack) ==> before.contains(pack),
        ({
            let chain = match pack {
                CapabilityPackView::Read(auth) => auth.read,
                CapabilityPackView::Write(chain) => chain,
            };
            ||| !before.contains(pack)
            ||| after.contains(pack)
            ||| {
                &&& chain.namespace() == selector.namespace_id
                &&& selector.receiver is Some ==> chain.receiver() == selector.receiver->0
                &&& selector.granted_area is Some ==> chain.area.includes_area(
                    selector.granted_area->0@,
                )
            }
        }),
{
}

/// The outcomes that contracts speak of are those that came: good exactly where these are, with
/// what these hold.
pub proof fn law_outcomes_of_a_node(
    done: Result<(), AuthError>,
    pack: Result<CapabilityPack, AuthError>,
    packs: Result<Vec<CapabilityPack>, AuthError>,
    interests: Result<InterestMap, AuthError>,
    chain: Result<UWillChain, AuthError>,
)
    ensures
        done_result(done) is Ok <==> done is Ok,
        done is Err ==> done_result(done)->Err_0 == done->Err_0@,
        pack_result(pack) is Ok <==> pack is Ok,
        pack is Ok ==> pack_result(pack)->Ok_0 == pack->Ok_0@,
        pack is Err ==> pack_result(pack)->Err_0 == pack->Err_0@,
        packs_result(packs) is Ok <==> packs is Ok,
        packs is Ok ==> packs_result(packs)->Ok_0.len() == packs->Ok_0@.len(),
        packs is Ok ==> forall|i: int|
            0 <= i < packs->Ok_0@.len() ==> #[trigger] packs_result(packs)->Ok_0[i]
                == packs->Ok_0@[i]@,
        packs is Err ==> packs_result(packs)->Err_0 == packs->Err_0@,
        interest_result(interests) is Ok <==> interests is Ok,
        interests is Ok ==> interest_result(interests)->Ok_0 == interests->Ok_0@,
        interests is Err ==> interest_result(interests)->Err_0 == interests->Err_0@,
        delegated_result(chain) is Ok <==> chain is Ok,
        chain is Ok ==> delegated_result(chain)->Ok_0 == chain->Ok_0@,
        chain is Err ==> delegated_result(chain)->Err_0 == chain->Err_0@,
{
}

/// The packs that contracts speak of are those of the list, one for one.
pub proof fn law_packs_of_a_list(packs: Seq<CapabilityPack>, i: int)
    requires
        0 <= i < packs.len(),
    ensures
        pack_views(packs).len() == packs.len(),
        packs[i] matches CapabilityPack::Read(auth) ==> pack_views(packs)[i]
            == CapabilityPackView::Read(auth@),
        packs[i] matches CapabilityPack::Write(chain) ==> pack_views(packs)[i]
            == CapabilityPackView::Write(chain@),
{
}

/// A node that applies a revocation revokes the delegation that it names and no other, and one
/// that refuses it revokes nothing; neither touches secrets or capabilities.
pub proof fn law_applying_a_revocation<S: Storage>(
    node: &mut Auth<S>,
    invocation: UWillInvocation,
    now_secs: u64,
    r: Result<(), AuthError>,
    cid: Seq<u8>,
)
    requires
        call_ensures(Auth::<S>::apply_revocation_at, (node, &invocation, now_secs), r),
        asks_to_revoke(invocation@, cid),
    ensures
        r is Ok ==> final(node).revoked() == old(node).revoked().insert(cid),
        r is Err ==> final(node).revoked() == old(node).revoked(),
        final(node).secrets() == old(node).secrets(),
        final(node).caps() == old(node).caps(),
{
}

/// After areas of a capability are added, those of interest are what was of interest of the same
/// capability before and every area that the selector picks, and no others; of other
/// capabilities nothing changes.
pub proof fn law_adding_an_interest(
    map: &mut InterestMap,
    authorisation: ReadAuthorisation,
    selector: AreaOfInterestSelector,
    key: CapabilityKey,
    area: AreaOfInterestView,
)
    requires
        call_ensures(InterestMap::insert, (map, authorisation, &selector), ()),
    ensures
        is_key_of(key, authorisation@) ==> {
            &&& final(map)@.dom().contains(key)
            &&& final(map)@[key].areas.contains(area) <==> picks(selector, authorisation@, area) || (
            old(map)@.dom().contains(key) && old(map)@[key].areas.contains(area))
            &&& final(map)@[key].authorisation == if old(map)@.dom().contains(key) {
                old(map)@[key].authorisation
            } else {
                authorisation@
            }
        },
        !is_key_of(key, authorisation@) ==> {
            &&& final(map)@.dom().contains(key) <==> old(map)@.dom().contains(key)
            &&& old(map)@.dom().contains(key) ==> final(map)@[key] == old(map)@[key]
        },
{
    lemma_picks(selector, authorisation@, area);
}

} // verus!
