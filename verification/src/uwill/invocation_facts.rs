//! What invocations, and the drafts that are to be signed for them, say of plain data.

use vstd::prelude::*;

use super::area_extract::area_arguments;
use super::chain::{chain_outcome, is_chain, ChainErrorView, ChainView, UWillChain};
use super::chain_facts::law_what_a_chain_says;
use super::command::{law_command_round_trip, law_what_commands_prove, willow_command, WillowCommand};
use super::invocation::{challenge_arguments, cid_result, invocation_draft_outcome, invocation_result, invocation_seal_result, is_first_with, issued_by, may_revoke, proof_result, revoke_draft_outcome, signed_invocation, signed_outcome, time_of, token_outcome, unit_result, InvocationError, InvocationErrorView, UWillInvocation, UWillInvocationView};
use super::policy::PromisedView;
use super::ucan::{cid_reading, command_text, delegation_cids, delegation_views, Cid, Delegation, DelegationView, Ed25519Did, InvocationDraft, InvocationDraftView, InvocationSeal, InvocationSealView};
use crate::proto::data_model::EntryView;
use crate::proto::keys::{public_key_bytes, verifying_key_error, UserSecretKey};

verus! {

// ---------------------------------------------------------------------------
// What every invocation needs
// ---------------------------------------------------------------------------

/// Whether the proofs at hand are those that the invocation names, in order.
pub open spec fn has_named_proofs(inv: UWillInvocationView) -> bool {
    &&& inv.invocation.proofs.len() == inv.resolved_proofs.len()
    &&& forall|i: int|
        0 <= i < inv.resolved_proofs.len() ==> (#[trigger] inv.invocation.proofs[i])
            == inv.resolved_proofs[i].cid
}

/// Whether no delegation ended more than a minute ago.
pub open spec fn not_over(delegations: Seq<DelegationView>, now_secs: int) -> bool {
    forall|i: int|
        0 <= i < delegations.len() && (#[trigger] delegations[i]).expiration is Some ==> now_secs
            <= delegations[i].expiration->0 + 60
}

/// Whether no delegation starts more than a minute ahead.
pub open spec fn has_begun(delegations: Seq<DelegationView>, now_secs: int) -> bool {
    forall|i: int|
        0 <= i < delegations.len() && (#[trigger] delegations[i]).not_before is Some
            ==> delegations[i].not_before->0 - 60 <= now_secs
}

proof fn lemma_named_proofs(inv: UWillInvocationView)
    ensures
        inv.invocation.proofs == delegation_cids(inv.resolved_proofs) <==> has_named_proofs(inv),
{
    if has_named_proofs(inv) {
        assert(inv.invocation.proofs =~= delegation_cids(inv.resolved_proofs));
    }
}

proof fn lemma_in_time(chain: ChainView, now_secs: int)
    ensures
        chain.expired(now_secs) <==> !not_over(chain.delegations, now_secs),
        chain.not_yet_valid(now_secs) <==> !has_begun(chain.delegations, now_secs),
{
    super::chain_facts::law_time_of_a_chain(chain, now_secs);
}

/// An invocation stands, with a chain, exactly if its signature holds, the proofs are those
/// that it names, they form the chain, and the time is right for each of them.
pub proof fn law_invocation_stands_iff(inv: UWillInvocationView, now_secs: u64, chain: ChainView)
    ensures
        inv.common_outcome(now_secs) == Ok::<ChainView, InvocationErrorView>(chain) <==> {
            &&& inv.invocation.signature is Ok
            &&& has_named_proofs(inv)
            &&& chain_outcome(inv.resolved_proofs) == Ok::<ChainView, ChainErrorView>(chain)
            &&& not_over(inv.resolved_proofs, now_secs as int)
            &&& has_begun(inv.resolved_proofs, now_secs as int)
        },
{
    lemma_named_proofs(inv);
    if let Ok(c) = chain_outcome(inv.resolved_proofs) {
        law_what_a_chain_says(inv.resolved_proofs, c);
        lemma_in_time(c, now_secs as int);
    }
}

/// An invocation that does not stand is refused for a reason that holds: the first of its
/// signature, its proofs, their chain, and the time.
pub proof fn law_why_an_invocation_does_not_stand(
    inv: UWillInvocationView,
    now_secs: u64,
    e: InvocationErrorView,
)
    requires
        inv.common_outcome(now_secs) == Err::<ChainView, InvocationErrorView>(e),
    ensures
        match e {
            InvocationErrorView::Signature(text) => inv.invocation.signature == Err::<
                (),
                Seq<char>,
            >(text),
            InvocationErrorView::ProofBindingMismatch => {
                &&& inv.invocation.signature is Ok
                &&& !has_named_proofs(inv)
            },
            InvocationErrorView::ChainValidation(text) => {
                &&& inv.invocation.signature is Ok
                &&& has_named_proofs(inv)
                &&& chain_outcome(inv.resolved_proofs) matches Err(cause)
                &&& text == cause.message()
            },
            InvocationErrorView::Expired => {
                &&& inv.invocation.signature is Ok
                &&& has_named_proofs(inv)
                &&& chain_outcome(inv.resolved_proofs) is Ok
                &&& !not_over(inv.resolved_proofs, now_secs as int)
            },
            InvocationErrorView::NotYetValid => {
                &&& inv.invocation.signature is Ok
                &&& has_named_proofs(inv)
                &&& chain_outcome(inv.resolved_proofs) is Ok
                &&& not_over(inv.resolved_proofs, now_secs as int)
                &&& !has_begun(inv.resolved_proofs, now_secs as int)
            },
            _ => false,
        },
{
    lemma_named_proofs(inv);
    if let Ok(c) = chain_outcome(inv.resolved_proofs) {
        law_what_a_chain_says(inv.resolved_proofs, c);
        lemma_in_time(c, now_secs as int);
    }
}

/// What is asked of an invocation of a Willow command, before it is asked what it is for: that
/// it stands, with this chain, and that its syntactic checks came out well.
pub open spec fn is_sound(inv: UWillInvocationView, now_secs: u64, chain: ChainView) -> bool {
    &&& inv.invocation.signature is Ok
    &&& has_named_proofs(inv)
    &&& chain_outcome(inv.resolved_proofs) == Ok::<ChainView, ChainErrorView>(chain)
    &&& not_over(inv.resolved_proofs, now_secs as int)
    &&& has_begun(inv.resolved_proofs, now_secs as int)
    &&& inv.syntatic_checks is Ok
}

// ---------------------------------------------------------------------------
// Writing
// ---------------------------------------------------------------------------

/// Whether a chain gives the right to write the entry: its command is to write, or full access,
/// it is about the namespace of the entry, and its area has the entry.
pub open spec fn lets_write(chain: ChainView, entry: EntryView) -> bool {
    &&& chain.command is Write || chain.command is Full
    &&& chain.namespace() == entry.namespace_id
    &&& chain.area.includes_entry(entry)
}

/// An invocation authorises a write exactly if it is sound with a chain that lets one write the
/// entry.
pub proof fn law_writing_iff(inv: UWillInvocationView, entry: EntryView, now_secs: u64)
    ensures
        inv.write_outcome(entry, now_secs) is Ok <==> {
            &&& chain_outcome(inv.resolved_proofs) is Ok
            &&& is_sound(inv, now_secs, chain_outcome(inv.resolved_proofs)->Ok_0)
            &&& lets_write(chain_outcome(inv.resolved_proofs)->Ok_0, entry)
        },
{
    let chain = chain_outcome(inv.resolved_proofs)->Ok_0;
    law_invocation_stands_iff(inv, now_secs, chain);
    if inv.common_outcome(now_secs) is Ok {
        law_invocation_stands_iff(inv, now_secs, inv.common_outcome(now_secs)->Ok_0);
    }
    law_what_commands_prove(chain.command);
}

/// A write that is not authorised is refused for a reason that holds: that the invocation does
/// not stand, its syntactic checks, or that the chain is not one to write, is about another
/// namespace, or does not have the entry in its area, in this order.
pub proof fn law_why_a_write_is_refused(
    inv: UWillInvocationView,
    entry: EntryView,
    now_secs: u64,
    e: InvocationErrorView,
)
    requires
        inv.write_outcome(entry, now_secs) == Err::<(), InvocationErrorView>(e),
    ensures
        match inv.common_outcome(now_secs) {
            Err(cause) => e == cause,
            Ok(chain) => match inv.syntatic_checks {
                Err(text) => e == InvocationErrorView::SyntaticCheck(text),
                Ok(()) => {
                    &&& e is WrongCommand <==> chain.command is Read || chain.command is Enumerate
                    &&& e is NamespaceMismatch ==> chain.namespace() != entry.namespace_id
                    &&& e is EntryOutsideArea ==> chain.namespace() == entry.namespace_id
                        && !chain.area.includes_entry(entry)
                    &&& e is WrongCommand || e is NamespaceMismatch || e is EntryOutsideArea
                },
            },
        },
{
    if let Ok(chain) = inv.common_outcome(now_secs) {
        law_what_commands_prove(chain.command);
    }
}

// ---------------------------------------------------------------------------
// Answering a challenge
// ---------------------------------------------------------------------------

/// Whether the invocation answers the challenge.
pub open spec fn has_challenge(inv: UWillInvocationView, challenge: Seq<u8>) -> bool {
    &&& inv.invocation.arguments.dom().contains("challenge"@)
    &&& inv.invocation.arguments["challenge"@] == PromisedView::Bytes(challenge)
}

/// An invocation proves a capability to read exactly if it is sound with it, answers the
/// challenge, and the command is to read, or full access; and membership in the same way.
pub proof fn law_proving_iff(
    inv: UWillInvocationView,
    challenge: Seq<u8>,
    now_secs: u64,
    chain: ChainView,
)
    ensures
        inv.read_outcome(challenge, now_secs) == Ok::<ChainView, InvocationErrorView>(chain) <==> {
            &&& is_sound(inv, now_secs, chain)
            &&& has_challenge(inv, challenge)
            &&& chain.command is Read || chain.command is Full
        },
        inv.enumerate_outcome(challenge, now_secs) == Ok::<ChainView, InvocationErrorView>(chain)
            <==> {
            &&& is_sound(inv, now_secs, chain)
            &&& has_challenge(inv, challenge)
            &&& chain.command is Enumerate || chain.command is Full
        },
{
    law_invocation_stands_iff(inv, now_secs, chain);
    law_what_commands_prove(chain.command);
}

/// A proof that is not accepted is refused for a reason that holds: that the invocation does
/// not stand, its syntactic checks, that it answers no challenge or another one, or that the
/// chain proves something else, in this order.
pub proof fn law_why_a_proof_is_refused(
    inv: UWillInvocationView,
    challenge: Seq<u8>,
    now_secs: u64,
    e: InvocationErrorView,
)
    requires
        inv.read_outcome(challenge, now_secs) == Err::<ChainView, InvocationErrorView>(e)
            || inv.enumerate_outcome(challenge, now_secs) == Err::<ChainView, InvocationErrorView>(
            e,
        ),
    ensures
        match inv.common_outcome(now_secs) {
            Err(cause) => e == cause,
            Ok(chain) => match inv.syntatic_checks {
                Err(text) => e == InvocationErrorView::SyntaticCheck(text),
                Ok(()) => {
                    let args = inv.invocation.arguments;
                    let given = args.dom().contains("challenge"@) && args["challenge"@] is Bytes;
                    &&& e == InvocationErrorView::MissingArg("challenge"@) <==> !given
                    &&& e is ChallengeMismatch <==> given && !has_challenge(inv, challenge)
                    &&& given && has_challenge(inv, challenge) ==> e is WrongCommand
                },
            },
        },
{
}

// ---------------------------------------------------------------------------
// Revoking
// ---------------------------------------------------------------------------

/// Whether the principal issued the delegation with this identifier, where that first occurs,
/// or one before it.
pub open spec fn issued_up_to(
    delegations: Seq<DelegationView>,
    principal: Ed25519Did,
    cid: Seq<u8>,
) -> bool {
    exists|i: int, k: int|
        {
            &&& 0 <= i <= k < delegations.len()
            &&& (#[trigger] delegations[i]).issuer == principal
            &&& (#[trigger] delegations[k]).cid == cid
            &&& forall|j: int| 0 <= j < k ==> (#[trigger] delegations[j]).cid != cid
        }
}

/// A principal may revoke a delegation exactly if it issued it, where it first occurs, or one
/// before it.
pub proof fn law_right_to_revoke(
    delegations: Seq<DelegationView>,
    principal: Ed25519Did,
    cid: Seq<u8>,
)
    ensures
        may_revoke(delegations, principal, cid) <==> issued_up_to(delegations, principal, cid),
{
    if may_revoke(delegations, principal, cid) {
        let k = choose|k: int|
            #[trigger] is_first_with(delegations, cid, k) && issued_by(delegations, principal, k);
        let i = choose|i: int| 0 <= i <= k && (#[trigger] delegations[i]).issuer == principal;
        assert(delegations[k].cid == cid);
    }
    if issued_up_to(delegations, principal, cid) {
        let (i, k) = choose|i: int, k: int|
            {
                &&& 0 <= i <= k < delegations.len()
                &&& (#[trigger] delegations[i]).issuer == principal
                &&& (#[trigger] delegations[k]).cid == cid
                &&& forall|j: int| 0 <= j < k ==> (#[trigger] delegations[j]).cid != cid
            };
        assert(is_first_with(delegations, cid, k));
    }
}

/// Whether the invocation asks to revoke the delegation with this identifier: its command says
/// so, and its argument is read as the identifier.
pub open spec fn asks_to_revoke(inv: UWillInvocationView, cid: Seq<u8>) -> bool {
    let args = inv.invocation.arguments;
    &&& inv.invocation.command == seq!["ucan"@, "revoke"@]
    &&& args.dom().contains("revoke"@)
    &&& args["revoke"@] matches PromisedView::Bytes(bytes)
    &&& cid_reading(bytes) == Ok::<Seq<u8>, Seq<char>>(cid)
}

/// An invocation revokes exactly the delegation that it asks to revoke, and does so exactly if
/// it stands and its issuer issued that delegation or one before it. Neither the syntactic
/// checks nor the command of its chain have a say.
pub proof fn law_revoking_iff(inv: UWillInvocationView, now_secs: u64, cid: Seq<u8>)
    ensures
        inv.revoke_outcome(now_secs) == Ok::<Seq<u8>, InvocationErrorView>(cid) <==> {
            &&& inv.invocation.signature is Ok
            &&& has_named_proofs(inv)
            &&& chain_outcome(inv.resolved_proofs) is Ok
            &&& not_over(inv.resolved_proofs, now_secs as int)
            &&& has_begun(inv.resolved_proofs, now_secs as int)
            &&& asks_to_revoke(inv, cid)
            &&& issued_up_to(inv.resolved_proofs, inv.invocation.issuer, cid)
        },
{
    law_invocation_stands_iff(inv, now_secs, chain_outcome(inv.resolved_proofs)->Ok_0);
    if inv.common_outcome(now_secs) is Ok {
        law_invocation_stands_iff(inv, now_secs, inv.common_outcome(now_secs)->Ok_0);
    }
    law_right_to_revoke(inv.resolved_proofs, inv.invocation.issuer, cid);
}

/// A revocation that is not accepted is refused for a reason that holds: that the invocation
/// does not stand, that it is for something else, that it does not say which delegation, or
/// that its issuer issued neither that delegation nor one before it, in this order.
pub proof fn law_why_a_revocation_is_refused(
    inv: UWillInvocationView,
    now_secs: u64,
    e: InvocationErrorView,
)
    requires
        inv.revoke_outcome(now_secs) == Err::<Seq<u8>, InvocationErrorView>(e),
    ensures
        match inv.common_outcome(now_secs) {
            Err(cause) => e == cause,
            Ok(_) => {
                let args = inv.invocation.arguments;
                let given = args.dom().contains("revoke"@) && args["revoke"@] is Bytes;
                let for_it = inv.invocation.command == seq!["ucan"@, "revoke"@];
                &&& e is WrongCommand <==> !for_it
                &&& !for_it ==> e == InvocationErrorView::WrongCommand(
                    command_text(inv.invocation.command),
                )
                &&& for_it && !given <==> e == InvocationErrorView::MissingArg("revoke"@)
                &&& for_it && given ==> match cid_reading(args["revoke"@]->Bytes_0) {
                    Err(text) => e == InvocationErrorView::InvalidArg("invalid CID: "@ + text),
                    Ok(cid) => e is Unauthorized && !issued_up_to(
                        inv.resolved_proofs,
                        inv.invocation.issuer,
                        cid,
                    ),
                }
            },
        },
{
    let args = inv.invocation.arguments;
    if args.dom().contains("revoke"@) && args["revoke"@] is Bytes {
        if let Ok(cid) = cid_reading(args["revoke"@]->Bytes_0) {
            law_right_to_revoke(inv.resolved_proofs, inv.invocation.issuer, cid);
        }
    }
}

/// The time is what the clock answers, and the beginning of all time where it stands before
/// that.
pub proof fn law_time_of_answers(now_secs: u64)
    ensures
        time_of(Some(now_secs)) == now_secs,
        time_of(None) == 0,
{
}

// ---------------------------------------------------------------------------
// What is to be signed
// ---------------------------------------------------------------------------

/// The invocation that is to be signed is issued by whoever holds the secret that is to sign
/// it, to the user that the chain leads to, about the namespace of the chain, for the command,
/// with the arguments, and names the delegations of the chain as its proofs. There is one
/// exactly if that user and that namespace are public keys.
pub proof fn law_invocation_draft(
    chain: ChainView,
    user_secret: UserSecretKey,
    command: WillowCommand,
    args: Map<Seq<char>, PromisedView>,
)
    ensures
        match invocation_draft_outcome(chain, user_secret, command, args) {
            Ok(draft) => {
                &&& verifying_key_error(chain.receiver().bytes@) is None
                &&& verifying_key_error(chain.namespace().bytes@) is None
                &&& draft.secret == user_secret.bytes
                &&& draft.issuer.bytes == public_key_bytes(draft.secret)
                &&& draft.audience.bytes == chain.receiver().bytes
                &&& draft.subject.bytes == chain.namespace().bytes
                &&& willow_command(draft.command) == Some(command)
                &&& draft.arguments == args
                &&& draft.proofs.len() == chain.delegations.len()
                &&& forall|i: int|
                    0 <= i < draft.proofs.len() ==> (#[trigger] draft.proofs[i])
                        == chain.delegations[i].cid
            },
            Err(e) => {
                let of_user = verifying_key_error(chain.receiver().bytes@);
                let of_namespace = verifying_key_error(chain.namespace().bytes@);
                ||| of_user is Some && e == InvocationErrorView::InvalidKey(of_user->0)
                ||| of_user is None && of_namespace is Some && e == InvocationErrorView::InvalidKey(
                    of_namespace->0,
                )
            },
        },
{
    law_command_round_trip(command);
}

/// The revocation that is to be signed is issued by whoever holds the secret that is to sign
/// it, about the namespace of the chain, names the delegations of the chain as its proofs, and
/// has one argument, the identifier of the delegation that is to be revoked.
pub proof fn law_revocation_draft(cid: Seq<u8>, chain: ChainView, revoker_secret: [u8; 32])
    ensures
        match revoke_draft_outcome(cid, chain, revoker_secret) {
            Ok(draft) => {
                &&& verifying_key_error(chain.namespace().bytes@) is None
                &&& draft.secret == revoker_secret
                &&& draft.issuer.bytes == public_key_bytes(draft.secret)
                &&& draft.audience == draft.issuer
                &&& draft.subject.bytes == chain.namespace().bytes
                &&& draft.command == seq!["ucan"@, "revoke"@]
                &&& forall|name: Seq<char>| #[trigger]
                    draft.arguments.dom().contains(name) <==> name == "revoke"@
                &&& draft.arguments["revoke"@] == PromisedView::Bytes(cid)
                &&& draft.proofs.len() == chain.delegations.len()
                &&& forall|i: int|
                    0 <= i < draft.proofs.len() ==> (#[trigger] draft.proofs[i])
                        == chain.delegations[i].cid
            },
            Err(e) => {
                let of_namespace = verifying_key_error(chain.namespace().bytes@);
                of_namespace is Some && e == InvocationErrorView::InvalidKey(of_namespace->0)
            },
        },
{
}

/// An answer to a challenge has the challenge as an argument, and beside it those of the area of
/// the chain, and nothing else.
pub proof fn law_arguments_of_an_answer(chain: ChainView, challenge: Seq<u8>, name: Seq<char>)
    ensures
        ({
            let args = challenge_arguments(chain, challenge);
            let own = area_arguments(chain.area);
            &&& args.dom().contains(name) <==> name == "challenge"@ || own.dom().contains(name)
            &&& args["challenge"@] == PromisedView::Bytes(challenge)
            &&& name != "challenge"@ && own.dom().contains(name) ==> args[name] == own[name]
        }),
{
}

/// Whether an invocation is what was drafted and signed, with the delegations of the chain as
/// proofs.
pub open spec fn is_signed_invocation(
    inv: UWillInvocationView,
    chain: ChainView,
    draft: InvocationDraftView,
    seal: InvocationSealView,
) -> bool {
    &&& inv.invocation.issuer == draft.issuer
    &&& inv.invocation.audience == draft.audience
    &&& inv.invocation.subject == draft.subject
    &&& inv.invocation.command == draft.command
    &&& inv.invocation.arguments == draft.arguments
    &&& inv.invocation.proofs == draft.proofs
    &&& inv.invocation.signature == seal.signature
    &&& inv.invocation.encoded == seal.encoded
    &&& inv.resolved_proofs == chain.delegations
    &&& inv.syntatic_checks == seal.syntatic_checks
}

/// What comes of having an invocation signed is what was drafted, with the signature and the
/// outcome of the checks that signing gave; where signing is refused, that is the error.
pub proof fn law_signed_outcome(
    chain: ChainView,
    draft: InvocationDraftView,
    seal: InvocationSealView,
    text: Seq<char>,
)
    ensures
        signed_outcome(chain, draft, Ok::<InvocationSealView, Seq<char>>(seal)) matches Ok(inv)
            && is_signed_invocation(inv, chain, draft, seal),
        signed_outcome(chain, draft, Err::<InvocationSealView, Seq<char>>(text)) == Err::<
            UWillInvocationView,
            InvocationErrorView,
        >(InvocationErrorView::Build(text)),
{
}

/// What comes of having a draft signed: where there is no draft, its error; where signing was
/// refused, that; and otherwise what the signer made of the draft and the delegations of the
/// chain.
pub proof fn law_signed_invocation<
    F: Fn(&InvocationDraft, &[Delegation]) -> Result<InvocationSeal, String>,
>(
    sign: F,
    chain: ChainView,
    draft: Result<InvocationDraftView, InvocationErrorView>,
    outcome: Result<UWillInvocationView, InvocationErrorView>,
)
    requires
        signed_invocation(sign, chain, draft, outcome),
    ensures
        draft matches Err(e) ==> outcome == Err::<UWillInvocationView, InvocationErrorView>(e),
        draft matches Ok(view) ==> exists|
            d: InvocationDraft,
            proofs: &[Delegation],
            reply: Result<InvocationSeal, String>,
        |
            d@ == view && delegation_views(proofs@) == chain.delegations
                && #[trigger] call_ensures(sign, (&d, proofs), reply) && match reply {
                Err(text) => outcome == Err::<UWillInvocationView, InvocationErrorView>(
                    InvocationErrorView::Build(text@),
                ),
                Ok(seal) => outcome is Ok && is_signed_invocation(
                    outcome->Ok_0,
                    chain,
                    view,
                    seal@,
                ),
            },
{
    if let Ok(view) = draft {
        let (d, proofs, reply) = choose|
            d: InvocationDraft,
            proofs: &[Delegation],
            reply: Result<InvocationSeal, String>,
        |
            d@ == view && delegation_views(proofs@) == chain.delegations
                && #[trigger] call_ensures(sign, (&d, proofs), reply) && outcome == signed_outcome(
                chain,
                view,
                invocation_seal_result(reply),
            );
        if let Ok(seal) = reply {
            law_signed_outcome(chain, view, seal@, seq![]);
        }
    }
}

/// Whether the signer signs whatever it is asked to, its signatures hold, and the checks come
/// out well.
pub open spec fn signs_invocations_validly<
    F: Fn(&InvocationDraft, &[Delegation]) -> Result<InvocationSeal, String>,
>(sign: F) -> bool {
    forall|d: InvocationDraft, proofs: &[Delegation], reply: Result<InvocationSeal, String>|
        #[trigger]
        call_ensures(sign, (&d, proofs), reply) ==> {
            &&& reply is Ok
            &&& reply->Ok_0@.signature is Ok
            &&& reply->Ok_0@.syntatic_checks is Ok
        }
}

/// What is signed for a chain, with a signer that signs, is sound with the chain as long as the
/// time is right.
pub proof fn law_signed_invocations_are_sound<
    F: Fn(&InvocationDraft, &[Delegation]) -> Result<InvocationSeal, String>,
>(
    sign: F,
    chain: ChainView,
    user_secret: UserSecretKey,
    command: WillowCommand,
    args: Map<Seq<char>, PromisedView>,
    outcome: Result<UWillInvocationView, InvocationErrorView>,
    now_secs: u64,
)
    requires
        is_chain(chain),
        signed_invocation(
            sign,
            chain,
            invocation_draft_outcome(chain, user_secret, command, args),
            outcome,
        ),
        signs_invocations_validly(sign),
        verifying_key_error(chain.receiver().bytes@) is None,
        verifying_key_error(chain.namespace().bytes@) is None,
        not_over(chain.delegations, now_secs as int),
        has_begun(chain.delegations, now_secs as int),
    ensures
        outcome is Ok,
        is_sound(outcome->Ok_0, now_secs, chain),
        outcome->Ok_0.invocation.arguments == args,
        outcome->Ok_0.invocation.issuer.bytes == public_key_bytes(user_secret.bytes),
        willow_command(outcome->Ok_0.invocation.command) == Some(command),
{
    law_invocation_draft(chain, user_secret, command, args);
    law_signed_invocation(
        sign,
        chain,
        invocation_draft_outcome(chain, user_secret, command, args),
        outcome,
    );
}

/// A token to write is given out exactly by chains that let one write: with a signer that
/// signs, it authorises, as long as the time is right, exactly the entries that the chain
/// covers. Other chains give none.
pub proof fn law_authorisation_token<
    F: Fn(&InvocationDraft, &[Delegation]) -> Result<InvocationSeal, String>,
>(
    sign: F,
    chain: ChainView,
    user_secret: UserSecretKey,
    outcome: Result<UWillInvocationView, ChainErrorView>,
    entry: EntryView,
    now_secs: u64,
)
    requires
        is_chain(chain),
        token_outcome(sign, chain, user_secret, outcome),
    ensures
        !(chain.command is Write || chain.command is Full) <==> outcome == Err::<
            UWillInvocationView,
            ChainErrorView,
        >(ChainErrorView::NotWriteCapability),
        ({
            &&& chain.command is Write || chain.command is Full
            &&& signs_invocations_validly(sign)
            &&& verifying_key_error(chain.receiver().bytes@) is None
            &&& verifying_key_error(chain.namespace().bytes@) is None
            &&& not_over(chain.delegations, now_secs as int)
            &&& has_begun(chain.delegations, now_secs as int)
        }) ==> {
            &&& outcome is Ok
            &&& outcome->Ok_0.write_outcome(entry, now_secs) is Ok <==> lets_write(chain, entry)
            &&& outcome->Ok_0.invocation.arguments == area_arguments(chain.area)
            &&& outcome->Ok_0.invocation.issuer.bytes == public_key_bytes(user_secret.bytes)
            &&& willow_command(outcome->Ok_0.invocation.command) == Some(WillowCommand::Write)
        },
        outcome matches Ok(token) ==> token.resolved_proofs == chain.delegations,
{
    law_what_commands_prove(chain.command);
    if chain.command.spec_proves_write() {
        let args = area_arguments(chain.area);
        let draft = invocation_draft_outcome(chain, user_secret, WillowCommand::Write, args);
        let built = choose|built: Result<UWillInvocationView, InvocationErrorView>|
            {
                &&& #[trigger] signed_invocation(sign, chain, draft, built)
                &&& outcome == match built {
                    Ok(invocation) => Ok(invocation),
                    Err(e) => Err(ChainErrorView::DelegationBuild(e.message())),
                }
            };
        law_signed_invocation(sign, chain, draft, built);
        if {
            &&& signs_invocations_validly(sign)
            &&& verifying_key_error(chain.receiver().bytes@) is None
            &&& verifying_key_error(chain.namespace().bytes@) is None
            &&& not_over(chain.delegations, now_secs as int)
            &&& has_begun(chain.delegations, now_secs as int)
        } {
            law_signed_invocations_are_sound(
                sign,
                chain,
                user_secret,
                WillowCommand::Write,
                args,
                built,
                now_secs,
            );
            law_writing_iff(built->Ok_0, entry, now_secs);
        }
    }
}

/// The outcomes that contracts speak of are those that came.
pub proof fn law_outcomes_of_invocations(
    done: Result<(), InvocationError>,
    chain: Result<UWillChain, InvocationError>,
    cid: Result<Cid, InvocationError>,
    invocation: Result<UWillInvocation, InvocationError>,
)
    ensures
        unit_result(done) is Ok <==> done is Ok,
        done is Err ==> unit_result(done)->Err_0 == done->Err_0@,
        proof_result(chain) is Ok <==> chain is Ok,
        chain is Ok ==> proof_result(chain)->Ok_0 == chain->Ok_0@,
        chain is Err ==> proof_result(chain)->Err_0 == chain->Err_0@,
        cid_result(cid) is Ok <==> cid is Ok,
        cid is Ok ==> cid_result(cid)->Ok_0 == cid->Ok_0@,
        cid is Err ==> cid_result(cid)->Err_0 == cid->Err_0@,
        invocation_result(invocation) is Ok <==> invocation is Ok,
        invocation is Ok ==> invocation_result(invocation)->Ok_0 == invocation->Ok_0@,
        invocation is Err ==> invocation_result(invocation)->Err_0 == invocation->Err_0@,
{
}

} // verus!
