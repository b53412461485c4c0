//! What holds of every chain.

use vstd::prelude::*;
use vstd::std_specs::cmp::PartialEqSpec;

use super::area_extract::{willow_area, AreaExtractErrorView};
use super::area_laws::{has_faithful_policy, law_area_policy_round_trip};
use super::chain::{chain_outcome, extension_outcome, first_other_subject, first_step_error, is_chain, next_draft_outcome, root_draft_outcome, specific_subject, step_error, subject_error, ChainErrorView, ChainView, UWillChain, CLOCK_TOLERANCE_SECS};
use super::command::{law_command_reading_is_faithful, law_command_round_trip, law_narrowed_command_proves_no_more, willow_command, WillowCommand};
use super::revocation::{chain_revoked, law_revocation_cascades, law_revoking_the_last_spares_the_rest};
use super::ucan::{sealed_delegation, DelegatedSubject, DelegationSealView, DelegationView, Ed25519Did};
use crate::interest::{capability_key, CapabilityKey};
use crate::proto::data_model::path_error;
use crate::proto::grouping::{law_area_includes_itself, law_area_inclusion_is_transitive, AreaView};
use crate::proto::keys::{verifying_key_error, NamespaceId, NamespaceSecretKey, UserId, UserSecretKey};

verus! {

/// The owner of the namespace signs the first delegation, and no two delegations are
/// about different subjects.
pub open spec fn subjects_agree(delegations: Seq<DelegationView>) -> bool {
    &&& delegations[0].subject matches DelegatedSubject::Specific(did) ==> delegations[0].issuer
        == did
    &&& forall|i: int, j: int|
        0 <= i < delegations.len() && 0 <= j < delegations.len() && (
        #[trigger] delegations[i]).subject is Specific && (
        #[trigger] delegations[j]).subject is Specific ==> delegations[i].subject
            == delegations[j].subject
}

/// The delegation at index `i` is signed by its issuer, has a command and an area,
/// both no wider than those of the delegation before it, and its audience issues the
/// next one.
pub open spec fn step_holds(delegations: Seq<DelegationView>, i: int) -> bool {
    let d = delegations[i];
    &&& d.signature_valid
    &&& willow_command(d.command) is Some
    &&& willow_area(d.policy) is Ok
    &&& i > 0 ==> delegations[i - 1].command.is_prefix_of(d.command)
    &&& i > 0 ==> willow_area(delegations[i - 1].policy)->Ok_0.includes_area(
        willow_area(d.policy)->Ok_0,
    )
    &&& i + 1 < delegations.len() ==> d.audience == delegations[i + 1].issuer
}

/// Delegations form a chain exactly if there is one, their subjects agree, and each
/// of them holds: signatures, commands, areas and principals.
pub proof fn law_chain_is_accepted_iff(delegations: Seq<DelegationView>)
    ensures
        chain_outcome(delegations) is Ok <==> {
            &&& delegations.len() > 0
            &&& subjects_agree(delegations)
            &&& forall|i: int| 0 <= i < delegations.len() ==> #[trigger] step_holds(delegations, i)
        },
{
    if delegations.len() > 0 {
        lemma_subjects(delegations);
        lemma_first_step_error(delegations, 0);
        if first_step_error(delegations, 0) is None {
            assert forall|i: int| 0 <= i < delegations.len() implies #[trigger] step_holds(
                delegations,
                i,
            ) by {
                assert(step_error(delegations, i) is None);
            }
        } else if forall|i: int| 0 <= i < delegations.len() ==> #[trigger] step_holds(
            delegations,
            i,
        ) {
            assert forall|i: int| 0 <= i < delegations.len() implies #[trigger] step_error(
                delegations,
                i,
            ) is None by {
                assert(step_holds(delegations, i));
            }
        }
    }
}

proof fn lemma_specific_subject(delegations: Seq<DelegationView>, from: int)
    requires
        0 <= from <= delegations.len(),
    ensures
        match specific_subject(delegations, from) {
            Some(did) => exists|i: int|
                from <= i < delegations.len() && (#[trigger] delegations[i]).subject
                    == DelegatedSubject::Specific(did),
            None => forall|i: int|
                from <= i < delegations.len() ==> (#[trigger] delegations[i]).subject is Any,
        },
    decreases delegations.len() - from,
{
    if from < delegations.len() {
        lemma_specific_subject(delegations, from + 1);
    }
}

proof fn lemma_first_other_subject(delegations: Seq<DelegationView>, did: Ed25519Did, from: int)
    requires
        0 <= from <= delegations.len(),
    ensures
        match first_other_subject(delegations, did, from) {
            Some(k) => from <= k < delegations.len() && !delegations[k].subject.spec_allows(did),
            None => forall|i: int|
                from <= i < delegations.len() ==> (#[trigger] delegations[i]).subject.spec_allows(
                    did,
                ),
        },
    decreases delegations.len() - from,
{
    if from < delegations.len() {
        lemma_first_other_subject(delegations, did, from + 1);
    }
}

proof fn lemma_subjects(delegations: Seq<DelegationView>)
    requires
        delegations.len() > 0,
    ensures
        subject_error(delegations) is None <==> subjects_agree(delegations),
{
    lemma_specific_subject(delegations, 0);
    match specific_subject(delegations, 0) {
        None => {
            assert(delegations[0].subject is Any);
        },
        Some(did) => {
            lemma_first_other_subject(delegations, did, 0);
            let w = choose|i: int|
                0 <= i < delegations.len() && (#[trigger] delegations[i]).subject
                    == DelegatedSubject::Specific(did);
            match first_other_subject(delegations, did, 0) {
                Some(k) => {
                    assert(delegations[k].subject is Specific && delegations[w].subject is Specific);
                },
                None => {},
            }
        },
    }
}

proof fn lemma_first_step_error(delegations: Seq<DelegationView>, from: int)
    requires
        0 <= from <= delegations.len(),
    ensures
        first_step_error(delegations, from) is None <==> forall|i: int|
            from <= i < delegations.len() ==> #[trigger] step_error(delegations, i) is None,
    decreases delegations.len() - from,
{
    if from < delegations.len() {
        lemma_first_step_error(delegations, from + 1);
    }
}

/// Along a chain the areas and the commands only narrow: what a later delegation
/// gives, each earlier one gives.
pub proof fn law_chain_only_narrows(chain: ChainView, i: int, j: int)
    requires
        is_chain(chain),
        0 <= i <= j < chain.delegations.len(),
    ensures
        willow_area(chain.delegations[i].policy) is Ok,
        willow_area(chain.delegations[j].policy) is Ok,
        willow_area(chain.delegations[i].policy)->Ok_0.includes_area(
            willow_area(chain.delegations[j].policy)->Ok_0,
        ),
        willow_command(chain.delegations[i].command) is Some,
        willow_command(chain.delegations[j].command) is Some,
        chain.delegations[i].command.is_prefix_of(chain.delegations[j].command),
    decreases j - i,
{
    let ds = chain.delegations;
    law_chain_is_accepted_iff(ds);
    assert(step_holds(ds, j));
    if i == j {
        law_area_includes_itself(willow_area(ds[i].policy)->Ok_0);
        assert(ds[i].command =~= ds[i].command.subrange(0, ds[i].command.len() as int));
    } else {
        law_chain_only_narrows(chain, i, j - 1);
        law_area_inclusion_is_transitive(
            willow_area(ds[i].policy)->Ok_0,
            willow_area(ds[j - 1].policy)->Ok_0,
            willow_area(ds[j].policy)->Ok_0,
        );
        let a = ds[i].command;
        let b = ds[j - 1].command;
        let c = ds[j].command;
        assert(a =~= c.subrange(0, a.len() as int)) by {
            assert forall|k: int| 0 <= k < a.len() implies a[k] == c[k] by {
                assert(a[k] == b.subrange(0, a.len() as int)[k]);
                assert(b[k] == c.subrange(0, b.len() as int)[k]);
            }
        }
    }
}

/// A chain gives no more than any of its delegations: the area of each includes the
/// area of the chain, and what the chain proves, the command of each proves.
pub proof fn law_chain_gives_no_more_than_each_step(chain: ChainView, i: int)
    requires
        is_chain(chain),
        0 <= i < chain.delegations.len(),
    ensures
        willow_area(chain.delegations[i].policy) is Ok,
        willow_area(chain.delegations[i].policy)->Ok_0.includes_area(chain.area),
        willow_command(chain.delegations[i].command) is Some,
        chain.command.spec_proves_read() ==> willow_command(
            chain.delegations[i].command,
        )->0.spec_proves_read(),
        chain.command.spec_proves_write() ==> willow_command(
            chain.delegations[i].command,
        )->0.spec_proves_write(),
        chain.command.spec_proves_enumerate() ==> willow_command(
            chain.delegations[i].command,
        )->0.spec_proves_enumerate(),
{
    let last = chain.delegations.len() - 1;
    law_chain_only_narrows(chain, i, last);
    law_narrowed_command_proves_no_more(
        chain.command,
        willow_command(chain.delegations[i].command)->0,
    );
}

/// The first delegations of a chain are a chain: that of whoever delegated further.
pub proof fn law_chain_starts_are_chains(chain: ChainView, n: int)
    requires
        is_chain(chain),
        0 < n <= chain.delegations.len(),
    ensures
        chain_outcome(chain.delegations.take(n)) is Ok,
        chain_outcome(chain.delegations.take(n))->Ok_0.area.includes_area(chain.area),
        chain_outcome(chain.delegations.take(n))->Ok_0.namespace() == chain.namespace(),
{
    let ds = chain.delegations;
    let start = ds.take(n);
    law_chain_is_accepted_iff(ds);
    assert forall|i: int| 0 <= i < start.len() implies #[trigger] step_holds(start, i) by {
        assert(step_holds(ds, i));
    }
    assert(subjects_agree(start)) by {
        assert forall|i: int, j: int|
            0 <= i < start.len() && 0 <= j < start.len() && (
            #[trigger] start[i]).subject is Specific && (
            #[trigger] start[j]).subject is Specific implies start[i].subject
            == start[j].subject by {
            assert(ds[i].subject is Specific && ds[j].subject is Specific);
        }
        assert(start[0] == ds[0]);
    }
    law_chain_is_accepted_iff(start);
    law_chain_gives_no_more_than_each_step(chain, n - 1);
    assert(start.last() == ds[n - 1]);
}

/// Whether delegations form a chain, and which, does not depend on their times.
pub proof fn law_chain_ignores_time(delegations: Seq<DelegationView>, other: Seq<DelegationView>)
    requires
        delegations.len() == other.len(),
        forall|i: int|
            0 <= i < delegations.len() ==> #[trigger] other[i] == (DelegationView {
                expiration: other[i].expiration,
                not_before: other[i].not_before,
                ..delegations[i]
            }),
    ensures
        match (chain_outcome(delegations), chain_outcome(other)) {
            (Ok(a), Ok(b)) => a.area == b.area && a.command == b.command && a.namespace()
                == b.namespace() && a.receiver() == b.receiver() && a.cids() == b.cids(),
            (Err(a), Err(b)) => a == b,
            _ => false,
        },
{
    if delegations.len() > 0 {
        lemma_ignores_time(delegations, other, 0);
        assert(delegations[0].subject == other[0].subject);
        if let Some(did) = specific_subject(delegations, 0) {
            lemma_other_subject_ignores_time(delegations, other, did, 0);
        }
        let last = delegations.len() - 1;
        assert(other[last] == other.last());
        if chain_outcome(delegations) is Ok {
            assert(super::ucan::delegation_cids(delegations) =~= super::ucan::delegation_cids(
                other,
            ));
        }
    }
}

proof fn lemma_other_subject_ignores_time(
    delegations: Seq<DelegationView>,
    other: Seq<DelegationView>,
    did: Ed25519Did,
    from: int,
)
    requires
        0 <= from <= delegations.len(),
        delegations.len() == other.len(),
        forall|i: int|
            0 <= i < delegations.len() ==> #[trigger] other[i] == (DelegationView {
                expiration: other[i].expiration,
                not_before: other[i].not_before,
                ..delegations[i]
            }),
    ensures
        first_other_subject(delegations, did, from) == first_other_subject(other, did, from),
    decreases delegations.len() - from,
{
    if from < delegations.len() {
        assert(other[from].subject == delegations[from].subject);
        lemma_other_subject_ignores_time(delegations, other, did, from + 1);
    }
}

proof fn lemma_ignores_time(
    delegations: Seq<DelegationView>,
    other: Seq<DelegationView>,
    from: int,
)
    requires
        0 <= from <= delegations.len(),
        delegations.len() == other.len(),
        forall|i: int|
            0 <= i < delegations.len() ==> #[trigger] other[i] == (DelegationView {
                expiration: other[i].expiration,
                not_before: other[i].not_before,
                ..delegations[i]
            }),
    ensures
        specific_subject(delegations, from) == specific_subject(other, from),
        first_step_error(delegations, from) == first_step_error(other, from),
    decreases delegations.len() - from,
{
    if from < delegations.len() {
        lemma_ignores_time(delegations, other, from + 1);
        assert(other[from].subject == delegations[from].subject);
        assert(step_error(delegations, from) == step_error(other, from)) by {
            assert(other[from].policy == delegations[from].policy);
            if from > 0 {
                assert(other[from - 1].policy == delegations[from - 1].policy);
            }
            if from + 1 < delegations.len() {
                assert(other[from + 1].issuer == delegations[from + 1].issuer);
            }
        }
    }
}

/// A chain is in its time exactly from the tolerance before the start of each
/// delegation to the tolerance after its end.
pub proof fn law_validity_window(chain: ChainView, now_secs: int)
    ensures
        !chain.expired(now_secs) && !chain.not_yet_valid(now_secs) <==> forall|i: int|
            0 <= i < chain.delegations.len() ==> {
                let d = #[trigger] chain.delegations[i];
                &&& d.not_before matches Some(nbf) ==> nbf - CLOCK_TOLERANCE_SECS <= now_secs
                &&& d.expiration matches Some(exp) ==> now_secs <= exp + CLOCK_TOLERANCE_SECS
            },
{
    let ds = chain.delegations;
    if forall|i: int|
        0 <= i < ds.len() ==> {
            let d = #[trigger] ds[i];
            &&& d.not_before matches Some(nbf) ==> nbf - CLOCK_TOLERANCE_SECS <= now_secs
            &&& d.expiration matches Some(exp) ==> now_secs <= exp + CLOCK_TOLERANCE_SECS
        } {
    } else {
        let i = choose|i: int|
            0 <= i < ds.len() && !({
                let d = #[trigger] ds[i];
                &&& d.not_before matches Some(nbf) ==> nbf - CLOCK_TOLERANCE_SECS <= now_secs
                &&& d.expiration matches Some(exp) ==> now_secs <= exp + CLOCK_TOLERANCE_SECS
            });
        assert(ds[i].expiration is Some || ds[i].not_before is Some);
    }
}

/// A chain that has expired stays expired, and one that has started stays started.
pub proof fn law_expiry_is_final(chain: ChainView, now_secs: int, later: int)
    requires
        now_secs <= later,
    ensures
        chain.expired(now_secs) ==> chain.expired(later),
        chain.not_yet_valid(later) ==> chain.not_yet_valid(now_secs),
{
    if chain.expired(now_secs) {
        let i = choose|i: int|
            0 <= i < chain.delegations.len() && (
            #[trigger] chain.delegations[i]).expiration is Some && now_secs
                > chain.delegations[i].expiration->0 + CLOCK_TOLERANCE_SECS;
        assert(chain.delegations[i].expiration is Some);
    }
    if chain.not_yet_valid(later) {
        let i = choose|i: int|
            0 <= i < chain.delegations.len() && (
            #[trigger] chain.delegations[i]).not_before is Some && later + CLOCK_TOLERANCE_SECS
                < chain.delegations[i].not_before->0;
        assert(chain.delegations[i].not_before is Some);
    }
}

/// A root delegation that the owner of the namespace validly signs gives the user
/// the command over the whole namespace.
pub proof fn law_root_grants_whole_namespace(
    namespace_secret: NamespaceSecretKey,
    user_id: UserId,
    command: WillowCommand,
    seal: DelegationSealView,
)
    requires
        verifying_key_error(user_id.bytes@) is None,
        verifying_key_error(namespace_secret.spec_id().bytes@) is None,
        seal.signature_valid,
    ensures
        ({
            let draft = root_draft_outcome(
                namespace_secret.spec_id(),
                namespace_secret,
                user_id,
                command,
            );
            let outcome = extension_outcome(
                seq![],
                draft->Ok_0,
                Ok::<DelegationSealView, Seq<char>>(seal),
            );
            &&& draft is Ok
            &&& outcome is Ok
            &&& is_chain(outcome->Ok_0)
            &&& outcome->Ok_0.area == AreaView::full()
            &&& outcome->Ok_0.command == command
            &&& outcome->Ok_0.namespace() == namespace_secret.spec_id()
            &&& outcome->Ok_0.receiver() == user_id
            &&& outcome->Ok_0.cids() == seq![seal.cid]
        }),
{
    let draft = root_draft_outcome(
        namespace_secret.spec_id(),
        namespace_secret,
        user_id,
        command,
    )->Ok_0;
    let d = sealed_delegation(draft, seal);
    let ds = Seq::<DelegationView>::empty().push(d);
    law_command_round_trip(command);
    reveal_with_fuel(first_step_error, 2);
    reveal_with_fuel(first_other_subject, 2);
    assert(willow_area(d.policy) == Ok::<AreaView, AreaExtractErrorView>(AreaView::full()));
    assert(ds.last() == d);
    assert(super::ucan::delegation_cids(ds) =~= seq![seal.cid]);
}

/// A root delegation that is not signed with the secret of the namespace is refused.
pub proof fn law_root_needs_the_owner(
    namespace_id: NamespaceId,
    namespace_secret: NamespaceSecretKey,
    user_id: UserId,
    command: WillowCommand,
    seal: DelegationSealView,
)
    requires
        verifying_key_error(user_id.bytes@) is None,
        verifying_key_error(namespace_id.bytes@) is None,
        namespace_id != namespace_secret.spec_id(),
    ensures
        ({
            let draft = root_draft_outcome(namespace_id, namespace_secret, user_id, command);
            &&& draft is Ok
            &&& extension_outcome(seq![], draft->Ok_0, Ok::<DelegationSealView, Seq<char>>(seal))
                == Err::<ChainView, ChainErrorView>(ChainErrorView::RootIssuerMismatch)
        }),
{
    let draft = root_draft_outcome(namespace_id, namespace_secret, user_id, command)->Ok_0;
    let ds = Seq::<DelegationView>::empty().push(sealed_delegation(draft, seal));
    assert(ds[0] == sealed_delegation(draft, seal));
}

/// Whatever comes of delegating a chain further keeps its namespace and command, has
/// its delegations and one more, leads to the new user, and covers no more than the
/// chain did: the area that was asked for, where that can be told from its policy.
pub proof fn law_delegation_narrows(
    chain: ChainView,
    user_secret: UserSecretKey,
    new_user: UserId,
    new_area: AreaView,
    seal: DelegationSealView,
)
    requires
        is_chain(chain),
        next_draft_outcome(chain, user_secret, new_user, new_area) is Ok,
        extension_outcome(
            chain.delegations,
            next_draft_outcome(chain, user_secret, new_user, new_area)->Ok_0,
            Ok::<DelegationSealView, Seq<char>>(seal),
        ) is Ok,
    ensures
        ({
            let next = extension_outcome(
                chain.delegations,
                next_draft_outcome(chain, user_secret, new_user, new_area)->Ok_0,
                Ok::<DelegationSealView, Seq<char>>(seal),
            )->Ok_0;
            &&& is_chain(next)
            &&& next.namespace() == chain.namespace()
            &&& next.command == chain.command
            &&& next.receiver() == new_user
            &&& next.delegations.len() == chain.delegations.len() + 1
            &&& next.delegations.drop_last() == chain.delegations
            &&& next.cids() == chain.cids().push(seal.cid)
            &&& chain.area.includes_area(next.area)
            &&& path_error(new_area.path) is None && has_faithful_policy(new_area) ==> next.area
                == new_area
        }),
{
    let draft = next_draft_outcome(chain, user_secret, new_user, new_area)->Ok_0;
    let d = sealed_delegation(draft, seal);
    let ds = chain.delegations.push(d);
    let next = chain_outcome(ds)->Ok_0;
    assert(ds.last() == d);
    assert(ds.drop_last() =~= chain.delegations);
    assert(ds[0] == chain.delegations[0]);
    assert(super::ucan::delegation_cids(ds) =~= chain.cids().push(seal.cid));
    law_command_round_trip(chain.command);
    law_chain_only_narrows(next, ds.len() - 2, ds.len() - 1);
    assert(ds[ds.len() - 2] == chain.delegations.last());
    if path_error(new_area.path) is None && has_faithful_policy(new_area) {
        law_area_policy_round_trip(new_area);
    }
}

/// Revocation of what comes of delegating a chain further: where the chain is revoked, so is
/// that; and revoking only the new delegation, which has an identifier of its own, revokes that
/// and leaves the chain as it was.
pub proof fn law_revocation_of_delegated_chains(
    revoked: Set<Seq<u8>>,
    chain: ChainView,
    user_secret: UserSecretKey,
    new_user: UserId,
    new_area: AreaView,
    seal: DelegationSealView,
)
    requires
        is_chain(chain),
        next_draft_outcome(chain, user_secret, new_user, new_area) is Ok,
        extension_outcome(
            chain.delegations,
            next_draft_outcome(chain, user_secret, new_user, new_area)->Ok_0,
            Ok::<DelegationSealView, Seq<char>>(seal),
        ) is Ok,
        !chain.cids().contains(seal.cid),
    ensures
        ({
            let next = extension_outcome(
                chain.delegations,
                next_draft_outcome(chain, user_secret, new_user, new_area)->Ok_0,
                Ok::<DelegationSealView, Seq<char>>(seal),
            )->Ok_0;
            &&& chain_revoked(revoked, chain) ==> chain_revoked(revoked, next)
            &&& chain_revoked(revoked.insert(seal.cid), next)
            &&& chain_revoked(revoked.insert(seal.cid), chain) <==> chain_revoked(revoked, chain)
        }),
{
    law_delegation_narrows(chain, user_secret, new_user, new_area, seal);
    let next = extension_outcome(
        chain.delegations,
        next_draft_outcome(chain, user_secret, new_user, new_area)->Ok_0,
        Ok::<DelegationSealView, Seq<char>>(seal),
    )->Ok_0;
    let last = next.delegations.len() - 1;
    assert(next.cids()[last] == next.delegations[last].cid);
    assert(chain.delegations.is_prefix_of(next.delegations));
    law_revoking_the_last_spares_the_rest(revoked, chain, next);
    if chain_revoked(revoked, chain) {
        law_revocation_cascades(revoked, chain, next);
    }
}

/// Delegating succeeds for whoever the chain leads to, to any user, over any area
/// within that of the chain that can be told from its policy.
pub proof fn law_holder_can_delegate(
    chain: ChainView,
    user_secret: UserSecretKey,
    new_user: UserId,
    new_area: AreaView,
    seal: DelegationSealView,
)
    requires
        is_chain(chain),
        user_secret.spec_id() == chain.receiver(),
        verifying_key_error(new_user.bytes@) is None,
        path_error(new_area.path) is None,
        has_faithful_policy(new_area),
        chain.area.includes_area(new_area),
        seal.signature_valid,
    ensures
        next_draft_outcome(chain, user_secret, new_user, new_area) is Ok,
        extension_outcome(
            chain.delegations,
            next_draft_outcome(chain, user_secret, new_user, new_area)->Ok_0,
            Ok::<DelegationSealView, Seq<char>>(seal),
        ) is Ok,
{
    let draft = next_draft_outcome(chain, user_secret, new_user, new_area)->Ok_0;
    let d = sealed_delegation(draft, seal);
    let before = chain.delegations;
    let ds = before.push(d);
    let n = before.len() as int;
    law_chain_is_accepted_iff(before);
    law_area_policy_round_trip(new_area);
    law_command_round_trip(chain.command);
    assert forall|i: int| 0 <= i < ds.len() implies #[trigger] step_holds(ds, i) by {
        if i < n {
            assert(step_holds(before, i));
        } else {
            assert(step_holds(before, n - 1));
            assert(ds[n - 1] == before.last());
            assert(before.last().command == d.command);
            assert(d.command =~= d.command.subrange(0, d.command.len() as int));
        }
    }
    assert(subjects_agree(ds)) by {
        assert(ds[0] == before[0]);
        assert forall|i: int, j: int|
            0 <= i < ds.len() && 0 <= j < ds.len() && (#[trigger] ds[i]).subject is Specific && (
            #[trigger] ds[j]).subject is Specific implies ds[i].subject == ds[j].subject by {
            let a = if i == n {
                0
            } else {
                i
            };
            let b = if j == n {
                0
            } else {
                j
            };
            assert(before[a].subject is Specific && before[b].subject is Specific);
        }
    }
    law_chain_is_accepted_iff(ds);
}

/// Delegating with the secret of anyone but the user the chain leads to is refused.
pub proof fn law_others_cannot_delegate(
    chain: ChainView,
    user_secret: UserSecretKey,
    new_user: UserId,
    new_area: AreaView,
    seal: DelegationSealView,
)
    requires
        is_chain(chain),
        verifying_key_error(new_user.bytes@) is None,
        user_secret.spec_id() != chain.receiver(),
    ensures
        extension_outcome(
            chain.delegations,
            next_draft_outcome(chain, user_secret, new_user, new_area)->Ok_0,
            Ok::<DelegationSealView, Seq<char>>(seal),
        ) is Err,
{
    let draft = next_draft_outcome(chain, user_secret, new_user, new_area)->Ok_0;
    let d = sealed_delegation(draft, seal);
    let ds = chain.delegations.push(d);
    let n = chain.delegations.len() as int;
    assert(ds[n - 1] == chain.delegations.last());
    assert(!step_holds(ds, n - 1));
    law_chain_is_accepted_iff(ds);
}

/// Delegating more than the area of the chain is refused.
pub proof fn law_no_one_can_widen(
    chain: ChainView,
    user_secret: UserSecretKey,
    new_user: UserId,
    new_area: AreaView,
    seal: DelegationSealView,
)
    requires
        is_chain(chain),
        verifying_key_error(new_user.bytes@) is None,
        path_error(new_area.path) is None,
        has_faithful_policy(new_area),
        !chain.area.includes_area(new_area),
    ensures
        ({
            let outcome = extension_outcome(
                chain.delegations,
                next_draft_outcome(chain, user_secret, new_user, new_area)->Ok_0,
                Ok::<DelegationSealView, Seq<char>>(seal),
            );
            &&& outcome is Err
            &&& user_secret.spec_id() == chain.receiver() && seal.signature_valid ==> outcome
                == Err::<ChainView, ChainErrorView>(
                ChainErrorView::AreaWidening { step: chain.delegations.len() as int },
            )
        }),
{
    let draft = next_draft_outcome(chain, user_secret, new_user, new_area)->Ok_0;
    let d = sealed_delegation(draft, seal);
    let before = chain.delegations;
    let ds = before.push(d);
    let n = before.len() as int;
    law_area_policy_round_trip(new_area);
    law_command_round_trip(chain.command);
    law_chain_is_accepted_iff(before);
    law_chain_is_accepted_iff(ds);
    assert(ds[n - 1] == before.last());
    assert(!step_holds(ds, n));
    if user_secret.spec_id() == chain.receiver() && seal.signature_valid {
        assert(subjects_agree(ds)) by {
            assert(ds[0] == before[0]);
            assert forall|i: int, j: int|
                0 <= i < ds.len() && 0 <= j < ds.len() && (#[trigger] ds[i]).subject is Specific
                    && (#[trigger] ds[j]).subject is Specific implies ds[i].subject
                == ds[j].subject by {
                let a = if i == n {
                    0
                } else {
                    i
                };
                let b = if j == n {
                    0
                } else {
                    j
                };
                assert(before[a].subject is Specific && before[b].subject is Specific);
            }
        }
        lemma_subjects(ds);
        assert forall|i: int| 0 <= i < n implies #[trigger] step_error(ds, i) is None by {
            assert(step_holds(before, i));
        }
        assert(step_error(ds, n) == Some(ChainErrorView::AreaWidening { step: n })) by {
            assert(step_holds(before, n - 1));
            law_command_reading_is_faithful(before.last().command, chain.command);
            assert(d.command =~= d.command.subrange(0, d.command.len() as int));
        }
        lemma_error_at(ds, 0, n);
    }
}

proof fn lemma_error_at(delegations: Seq<DelegationView>, from: int, at: int)
    requires
        0 <= from <= at < delegations.len(),
        forall|i: int| from <= i < at ==> #[trigger] step_error(delegations, i) is None,
        step_error(delegations, at) is Some,
    ensures
        first_step_error(delegations, from) == step_error(delegations, at),
    decreases at - from,
{
    if from < at {
        assert(step_error(delegations, from) is None);
        lemma_error_at(delegations, from + 1, at);
    }
}

/// What the owner of a namespace gives, if it is a chain at all, is the command over the whole
/// namespace, and leads to the user.
pub proof fn law_root_chain(
    namespace_id: NamespaceId,
    namespace_secret: NamespaceSecretKey,
    user_id: UserId,
    command: WillowCommand,
    seal: DelegationSealView,
    chain: ChainView,
)
    requires
        root_draft_outcome(namespace_id, namespace_secret, user_id, command) is Ok,
        extension_outcome(
            seq![],
            root_draft_outcome(namespace_id, namespace_secret, user_id, command)->Ok_0,
            Ok::<DelegationSealView, Seq<char>>(seal),
        ) == Ok::<ChainView, ChainErrorView>(chain),
    ensures
        is_chain(chain),
        chain.area == AreaView::full(),
        chain.command == command,
        chain.namespace() == namespace_id,
        chain.receiver() == user_id,
        chain.delegations.len() == 1,
        namespace_id == namespace_secret.spec_id(),
{
    let draft = root_draft_outcome(namespace_id, namespace_secret, user_id, command)->Ok_0;
    let d = sealed_delegation(draft, seal);
    let ds = Seq::<DelegationView>::empty().push(d);
    law_command_round_trip(command);
    assert(willow_area(d.policy) == Ok::<AreaView, AreaExtractErrorView>(AreaView::full()));
    assert(ds.last() == d && ds[0] == d);
}

/// Chains are equal exactly if they give the same user the same command over the same area of
/// the same namespace, whatever delegations they are made of; so whatever is computed of these
/// four, such as a hash, is the same for equal chains.
pub proof fn law_equality_of_chains(
    a: UWillChain,
    b: UWillChain,
    computed: spec_fn(CapabilityKey) -> u64,
)
    ensures
        a.eq_spec(&b) <==> {
            &&& a@.namespace() == b@.namespace()
            &&& a@.receiver() == b@.receiver()
            &&& a@.area == b@.area
            &&& a@.command == b@.command
        },
        a.eq_spec(&b) <==> capability_key(a@) == capability_key(b@),
        a.eq_spec(&b) ==> computed(capability_key(a@)) == computed(capability_key(b@)),
{
}

/// Being the same capability is an equivalence.
pub proof fn law_same_capability_is_an_equivalence(a: ChainView, b: ChainView, c: ChainView)
    ensures
        a.same_capability(a),
        a.same_capability(b) ==> b.same_capability(a),
        a.same_capability(b) && b.same_capability(c) ==> a.same_capability(c),
{
}

} // verus!
