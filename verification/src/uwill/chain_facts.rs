//! What chains, and the delegations that are to be signed for them, say of plain data.

use vstd::prelude::*;

use super::area_extract::{willow_area, AreaExtractErrorView};
use super::area_laws::{has_faithful_policy, law_area_policy_round_trip};
use super::chain::{chain_outcome, chain_result, extension_outcome, first_other_subject, first_step_error, is_chain, next_draft_outcome, root_draft_outcome, seal_result, signed_extension, specific_subject, step_error, subject_error, ChainError, ChainErrorView, ChainView, UWillChain};
use super::chain_laws::{law_chain_is_accepted_iff, law_holder_can_delegate, law_root_grants_whole_namespace, law_root_needs_the_owner, step_holds};
use super::command::{law_command_reading_is_faithful, law_command_round_trip, willow_command, WillowCommand};
use super::ucan::{command_text, delegation_views, DelegatedSubject, Delegation, DelegationDraft, DelegationDraftView, DelegationSeal, DelegationSealView, DelegationView, Ed25519Did};
use crate::proto::data_model::path_error;
use crate::proto::grouping::AreaView;
use crate::proto::keys::{public_key_bytes, verifying_key_error, NamespaceId, NamespaceSecretKey, UserId, UserSecretKey};

verus! {

// ---------------------------------------------------------------------------
// Chains
// ---------------------------------------------------------------------------

/// A chain has the delegations that it was made of, in order. Its area and its command are
/// those of the last one, it leads to the audience of the last one, and it is about the
/// namespace that the first one names, whose owner issued that.
pub proof fn law_what_a_chain_says(delegations: Seq<DelegationView>, chain: ChainView)
    requires
        chain_outcome(delegations) == Ok::<ChainView, ChainErrorView>(chain),
    ensures
        delegations.len() > 0,
        chain.delegations == delegations,
        willow_area(delegations.last().policy) == Ok::<AreaView, AreaExtractErrorView>(chain.area),
        willow_command(delegations.last().command) == Some(chain.command),
        chain.receiver().bytes == delegations.last().audience.bytes,
        delegations[0].subject matches DelegatedSubject::Specific(did) ==> {
            &&& chain.namespace().bytes == did.bytes
            &&& delegations[0].issuer == did
        },
        delegations[0].subject is Any ==> forall|i: int|
            0 <= i < 32 ==> (#[trigger] chain.namespace().bytes@[i]) == 0,
        chain.cids().len() == delegations.len(),
        forall|i: int| 0 <= i < delegations.len() ==> (#[trigger] chain.cids()[i]) == delegations[i].cid,
{
    law_chain_is_accepted_iff(delegations);
    assert(step_holds(delegations, delegations.len() - 1));
}

/// Delegations that form no chain are refused for a reason that holds: that there are none,
/// that the owner of the namespace did not issue the first, that two are about different
/// subjects, or else the first of them that does not hold, for its signature, its command, its
/// area or the issuer of the next one.
pub proof fn law_why_there_is_no_chain(delegations: Seq<DelegationView>, e: ChainErrorView)
    requires
        chain_outcome(delegations) == Err::<ChainView, ChainErrorView>(e),
    ensures
        match e {
            ChainErrorView::Empty => delegations.len() == 0,
            ChainErrorView::RootIssuerMismatch => {
                &&& delegations.len() > 0
                &&& delegations[0].subject matches DelegatedSubject::Specific(did)
                &&& delegations[0].issuer != did
            },
            ChainErrorView::SubjectMismatch { step } => {
                &&& 0 < step < delegations.len()
                &&& delegations[step].subject is Specific
                &&& exists|i: int|
                    0 <= i < step && (#[trigger] delegations[i]).subject is Specific
                        && delegations[i].subject != delegations[step].subject
            },
            ChainErrorView::InvalidSignature { step } => {
                &&& 0 <= step < delegations.len()
                &&& !delegations[step].signature_valid
                &&& forall|j: int| 0 <= j < step ==> #[trigger] step_holds(delegations, j)
            },
            ChainErrorView::NoWillowCommand => exists|i: int|
                {
                    &&& 0 <= i < delegations.len()
                    &&& willow_command((#[trigger] delegations[i]).command) is None
                    &&& delegations[i].signature_valid
                    &&& forall|j: int| 0 <= j < i ==> #[trigger] step_holds(delegations, j)
                },
            ChainErrorView::CommandWidening { parent, child } => exists|i: int|
                {
                    &&& 0 < i < delegations.len()
                    &&& !delegations[i - 1].command.is_prefix_of((#[trigger] delegations[i]).command)
                    &&& parent == command_text(delegations[i - 1].command)
                    &&& child == command_text(delegations[i].command)
                    &&& forall|j: int| 0 <= j < i ==> #[trigger] step_holds(delegations, j)
                },
            ChainErrorView::AreaExtract(cause) => exists|i: int|
                {
                    &&& 0 <= i < delegations.len()
                    &&& willow_area((#[trigger] delegations[i]).policy) == Err::<
                        AreaView,
                        AreaExtractErrorView,
                    >(cause)
                    &&& forall|j: int| 0 <= j < i ==> #[trigger] step_holds(delegations, j)
                },
            ChainErrorView::AreaWidening { step } => {
                &&& 0 < step < delegations.len()
                &&& willow_area(delegations[step].policy) is Ok
                &&& !willow_area(delegations[step - 1].policy)->Ok_0.includes_area(
                    willow_area(delegations[step].policy)->Ok_0,
                )
                &&& forall|j: int| 0 <= j < step ==> #[trigger] step_holds(delegations, j)
            },
            ChainErrorView::PrincipalMismatch { step, next } => {
                &&& 0 <= step < delegations.len() - 1
                &&& next == step + 1
                &&& delegations[step].audience != delegations[next].issuer
                &&& forall|j: int| 0 <= j < step ==> #[trigger] step_holds(delegations, j)
            },
            _ => false,
        },
{
    if delegations.len() > 0 {
        if subject_error(delegations) is None {
            let at = lemma_where_the_error_is(delegations, 0);
            assert forall|j: int| 0 <= j < at implies #[trigger] step_holds(delegations, j) by {
                assert(step_error(delegations, j) is None);
            }
            assert(delegations[at].command == delegations[at].command);
        } else if e is SubjectMismatch {
            lemma_first_specific(delegations, 0);
            let did = specific_subject(delegations, 0)->0;
            lemma_first_other(delegations, did, 0);
            let w = choose|i: int|
                {
                    &&& 0 <= i < delegations.len()
                    &&& (#[trigger] delegations[i]).subject == DelegatedSubject::Specific(did)
                    &&& forall|j: int| 0 <= j < i ==> (#[trigger] delegations[j]).subject is Any
                };
            assert(w < e->SubjectMismatch_step);
            assert(delegations[w].subject is Specific);
        }
    }
}

proof fn lemma_first_specific(delegations: Seq<DelegationView>, from: int)
    requires
        0 <= from <= delegations.len(),
    ensures
        specific_subject(delegations, from) matches Some(did) ==> exists|i: int|
            {
                &&& from <= i < delegations.len()
                &&& (#[trigger] delegations[i]).subject == DelegatedSubject::Specific(did)
                &&& forall|j: int| from <= j < i ==> (#[trigger] delegations[j]).subject is Any
            },
    decreases delegations.len() - from,
{
    if from < delegations.len() {
        lemma_first_specific(delegations, from + 1);
    }
}

proof fn lemma_first_other(delegations: Seq<DelegationView>, did: Ed25519Did, from: int)
    requires
        0 <= from <= delegations.len(),
    ensures
        first_other_subject(delegations, did, from) matches Some(k) ==> {
            &&& from <= k < delegations.len()
            &&& delegations[k].subject is Specific
            &&& delegations[k].subject != DelegatedSubject::Specific(did)
            &&& forall|j: int|
                from <= j < k ==> (#[trigger] delegations[j]).subject is Any
                    || delegations[j].subject == DelegatedSubject::Specific(did)
        },
    decreases delegations.len() - from,
{
    if from < delegations.len() {
        lemma_first_other(delegations, did, from + 1);
    }
}

proof fn lemma_where_the_error_is(delegations: Seq<DelegationView>, from: int) -> (at: int)
    requires
        0 <= from <= delegations.len(),
        first_step_error(delegations, from) is Some,
    ensures
        from <= at < delegations.len(),
        step_error(delegations, at) == first_step_error(delegations, from),
        forall|j: int| from <= j < at ==> #[trigger] step_error(delegations, j) is None,
    decreases delegations.len() - from,
{
    if step_error(delegations, from) is Some {
        from
    } else {
        lemma_where_the_error_is(delegations, from + 1)
    }
}

/// A chain has expired exactly if the end of one of its delegations is more than a minute ago,
/// and is not yet valid exactly if the start of one is more than a minute ahead. What has no
/// end does not expire, and what has no start is valid from the beginning.
pub proof fn law_time_of_a_chain(chain: ChainView, now_secs: int)
    ensures
        chain.expired(now_secs) <==> exists|i: int|
            0 <= i < chain.delegations.len() && (#[trigger] chain.delegations[i]).expiration is Some
                && chain.delegations[i].expiration->0 + 60 < now_secs,
        chain.not_yet_valid(now_secs) <==> exists|i: int|
            0 <= i < chain.delegations.len() && (#[trigger] chain.delegations[i]).not_before is Some
                && now_secs < chain.delegations[i].not_before->0 - 60,
{
}

// ---------------------------------------------------------------------------
// What is to be signed
// ---------------------------------------------------------------------------

/// The delegation that is to be signed for a user of a namespace is issued by whoever holds the
/// secret that is to sign it, to the user, for the command over all of the namespace. There is
/// one exactly if the user and the namespace are public keys.
pub proof fn law_root_draft(
    namespace_id: NamespaceId,
    namespace_secret: NamespaceSecretKey,
    user_id: UserId,
    command: WillowCommand,
)
    ensures
        match root_draft_outcome(namespace_id, namespace_secret, user_id, command) {
            Ok(draft) => {
                &&& verifying_key_error(user_id.bytes@) is None
                &&& verifying_key_error(namespace_id.bytes@) is None
                &&& draft.secret == namespace_secret.bytes
                &&& draft.issuer.bytes == public_key_bytes(draft.secret)
                &&& draft.audience.bytes == user_id.bytes
                &&& draft.subject matches DelegatedSubject::Specific(did)
                &&& did.bytes == namespace_id.bytes
                &&& willow_command(draft.command) == Some(command)
                &&& draft.policy.len() == 0
            },
            Err(e) => {
                let of_user = verifying_key_error(user_id.bytes@);
                let of_namespace = verifying_key_error(namespace_id.bytes@);
                ||| of_user is Some && e == ChainErrorView::InvalidKey(of_user->0)
                ||| of_user is None && of_namespace is Some && e == ChainErrorView::InvalidKey(
                    of_namespace->0,
                )
            },
        },
{
    law_command_round_trip(command);
}

/// The delegation that is to be signed to pass a chain on is issued by whoever holds the secret
/// that is to sign it, to the new user, about the same subject, for the same command, with a
/// policy that is read as the new area, where that can be told from its policy. There is one
/// exactly if the new user is a public key.
pub proof fn law_next_draft(
    chain: ChainView,
    user_secret: UserSecretKey,
    new_user: UserId,
    new_area: AreaView,
)
    requires
        is_chain(chain),
    ensures
        match next_draft_outcome(chain, user_secret, new_user, new_area) {
            Ok(draft) => {
                &&& verifying_key_error(new_user.bytes@) is None
                &&& draft.secret == user_secret.bytes
                &&& draft.issuer.bytes == public_key_bytes(draft.secret)
                &&& draft.audience.bytes == new_user.bytes
                &&& draft.subject == chain.delegations[0].subject
                &&& draft.command == chain.delegations.last().command
                &&& path_error(new_area.path) is None && has_faithful_policy(new_area)
                    ==> willow_area(draft.policy) == Ok::<AreaView, AreaExtractErrorView>(new_area)
            },
            Err(e) => verifying_key_error(new_user.bytes@) matches Some(text) && e
                == ChainErrorView::InvalidKey(text),
        },
{
    law_what_a_chain_says(chain.delegations, chain);
    law_command_reading_is_faithful(chain.delegations.last().command, chain.command);
    if path_error(new_area.path) is None && has_faithful_policy(new_area) {
        law_area_policy_round_trip(new_area);
    }
}

/// A delegation that was drafted and signed says what the draft says, with no limit in time,
/// and has the identifier and the signature that signing gave.
pub open spec fn is_signed_draft(
    d: DelegationView,
    draft: DelegationDraftView,
    seal: DelegationSealView,
) -> bool {
    &&& d.issuer == draft.issuer
    &&& d.audience == draft.audience
    &&& d.subject == draft.subject
    &&& d.command == draft.command
    &&& d.policy == draft.policy
    &&& d.expiration is None
    &&& d.not_before is None
    &&& d.cid == seal.cid
    &&& d.signature_valid == seal.signature_valid
    &&& d.encoded == seal.encoded
}

/// A chain is extended by the delegation that was drafted and signed, and by no other: the
/// outcome is that of the delegations with this one after them. Where signing is refused, that
/// is the error.
pub proof fn law_extension(
    delegations: Seq<DelegationView>,
    draft: DelegationDraftView,
    seal: DelegationSealView,
    d: DelegationView,
    text: Seq<char>,
)
    requires
        is_signed_draft(d, draft, seal),
    ensures
        extension_outcome(delegations, draft, Ok::<DelegationSealView, Seq<char>>(seal))
            == chain_outcome(delegations.push(d)),
        extension_outcome(delegations, draft, Err::<DelegationSealView, Seq<char>>(text)) == Err::<
            ChainView,
            ChainErrorView,
        >(ChainErrorView::DelegationBuild(text)),
{
}

/// What comes of having a draft signed: where there is no draft, its error; where signing was
/// refused, that; and otherwise the delegations with the one that the signer made of the draft.
pub proof fn law_signed_extension<F: Fn(&DelegationDraft) -> Result<DelegationSeal, String>>(
    sign: F,
    delegations: Seq<DelegationView>,
    draft: Result<DelegationDraftView, ChainErrorView>,
    outcome: Result<ChainView, ChainErrorView>,
)
    requires
        signed_extension(sign, delegations, draft, outcome),
    ensures
        draft matches Err(e) ==> outcome == Err::<ChainView, ChainErrorView>(e),
        draft matches Ok(view) ==> exists|d: DelegationDraft, reply: Result<DelegationSeal, String>|
            d@ == view && #[trigger] call_ensures(sign, (&d,), reply) && match reply {
                Err(text) => outcome == Err::<ChainView, ChainErrorView>(
                    ChainErrorView::DelegationBuild(text@),
                ),
                Ok(seal) => exists|last: DelegationView|
                    #[trigger] is_signed_draft(last, view, seal@) && outcome == chain_outcome(
                        delegations.push(last),
                    ),
            },
{
    if let Ok(view) = draft {
        let (d, reply) = choose|d: DelegationDraft, reply: Result<DelegationSeal, String>|
            d@ == view && #[trigger] call_ensures(sign, (&d,), reply) && outcome
                == extension_outcome(delegations, view, seal_result(reply));
        if let Ok(seal) = reply {
            let last = super::ucan::sealed_delegation(view, seal@);
            assert(is_signed_draft(last, view, seal@));
            law_extension(delegations, view, seal@, last, seq![]);
        }
    }
}

/// Whether the signer signs whatever it is asked to, and its signatures hold.
pub open spec fn signs_validly<F: Fn(&DelegationDraft) -> Result<DelegationSeal, String>>(
    sign: F,
) -> bool {
    forall|d: DelegationDraft, reply: Result<DelegationSeal, String>| #[trigger]
        call_ensures(sign, (&d,), reply) ==> reply is Ok && reply->Ok_0@.signature_valid
}

/// With a signer that signs, the owner of a namespace can give every user every command.
pub proof fn law_owner_can_give<F: Fn(&DelegationDraft) -> Result<DelegationSeal, String>>(
    sign: F,
    namespace_id: NamespaceId,
    namespace_secret: NamespaceSecretKey,
    user_id: UserId,
    command: WillowCommand,
    outcome: Result<ChainView, ChainErrorView>,
)
    requires
        signed_extension(
            sign,
            seq![],
            root_draft_outcome(namespace_id, namespace_secret, user_id, command),
            outcome,
        ),
        signs_validly(sign),
        verifying_key_error(user_id.bytes@) is None,
        verifying_key_error(namespace_id.bytes@) is None,
    ensures
        outcome is Ok <==> namespace_id == namespace_secret.spec_id(),
        outcome is Err ==> outcome == Err::<ChainView, ChainErrorView>(
            ChainErrorView::RootIssuerMismatch,
        ),
{
    let draft = root_draft_outcome(namespace_id, namespace_secret, user_id, command)->Ok_0;
    let (d, reply) = choose|d: DelegationDraft, reply: Result<DelegationSeal, String>|
        d@ == draft && #[trigger] call_ensures(sign, (&d,), reply) && outcome == extension_outcome(
            seq![],
            draft,
            seal_result(reply),
        );
    let seal = reply->Ok_0@;
    if namespace_id == namespace_secret.spec_id() {
        law_root_grants_whole_namespace(namespace_secret, user_id, command, seal);
    } else {
        law_root_needs_the_owner(namespace_id, namespace_secret, user_id, command, seal);
    }
}

/// With a signer that signs, whoever a chain leads to can pass it on to every user, over every
/// area within that of the chain that can be told from its policy.
pub proof fn law_holder_can_pass_on<F: Fn(&DelegationDraft) -> Result<DelegationSeal, String>>(
    sign: F,
    chain: ChainView,
    user_secret: UserSecretKey,
    new_user: UserId,
    new_area: AreaView,
    outcome: Result<ChainView, ChainErrorView>,
)
    requires
        signed_extension(
            sign,
            chain.delegations,
            next_draft_outcome(chain, user_secret, new_user, new_area),
            outcome,
        ),
        signs_validly(sign),
        is_chain(chain),
        user_secret.spec_id() == chain.receiver(),
        verifying_key_error(new_user.bytes@) is None,
        path_error(new_area.path) is None,
        has_faithful_policy(new_area),
        chain.area.includes_area(new_area),
    ensures
        outcome is Ok,
        outcome->Ok_0.area == new_area,
        outcome->Ok_0.receiver() == new_user,
        outcome->Ok_0.command == chain.command,
        outcome->Ok_0.namespace() == chain.namespace(),
{
    let draft = next_draft_outcome(chain, user_secret, new_user, new_area)->Ok_0;
    let (d, reply) = choose|d: DelegationDraft, reply: Result<DelegationSeal, String>|
        d@ == draft && #[trigger] call_ensures(sign, (&d,), reply) && outcome == extension_outcome(
            chain.delegations,
            draft,
            seal_result(reply),
        );
    let seal = reply->Ok_0@;
    law_holder_can_delegate(chain, user_secret, new_user, new_area, seal);
    super::chain_laws::law_delegation_narrows(chain, user_secret, new_user, new_area, seal);
}

/// The outcome that contracts speak of is the one that came.
pub proof fn law_outcomes_of_chains(r: Result<UWillChain, ChainError>)
    ensures
        chain_result(r) is Ok <==> r is Ok,
        r is Ok ==> chain_result(r)->Ok_0 == r->Ok_0@,
        r is Err ==> chain_result(r)->Err_0 == r->Err_0@,
{
}

/// The delegations that contracts speak of are those of the list, one for one.
pub proof fn law_delegations_of_a_list(delegations: Seq<Delegation>, i: int)
    requires
        0 <= i < delegations.len(),
    ensures
        delegation_views(delegations).len() == delegations.len(),
        delegation_views(delegations)[i] == delegations[i]@,
{
}

} // verus!
