//! What holds of every invocation.

use vstd::prelude::*;

use super::area_extract::area_arguments;
use super::chain::{chain_outcome, is_chain, ChainErrorView, ChainView};
use super::chain_laws::{law_chain_is_accepted_iff, step_holds};
use super::command::{command_segments, law_command_reading_is_faithful, WillowCommand};
use super::invocation::{challenge_arguments, invocation_draft_outcome, is_first_with, issued_by, may_revoke, revoke_draft_outcome, revoke_segments, signed_outcome, InvocationErrorView, UWillInvocationView, ARG_CHALLENGE, ARG_REVOKE};
use super::policy::PromisedView;
use super::ucan::{cid_reading, delegation_cids, is_cid, DelegationView, Ed25519Did, InvocationSealView};
use crate::proto::data_model::EntryView;
use crate::proto::keys::{public_key_bytes, verifying_key_error, UserSecretKey};

verus! {

/// What every accepted invocation needs: a signature that holds, the proofs that it
/// names, which form the chain, and the right time.
pub open spec fn stands(inv: UWillInvocationView, chain: ChainView, now_secs: u64) -> bool {
    &&& inv.invocation.signature is Ok
    &&& inv.invocation.proofs == delegation_cids(inv.resolved_proofs)
    &&& chain_outcome(inv.resolved_proofs) == Ok::<ChainView, ChainErrorView>(chain)
    &&& !chain.expired(now_secs as int)
    &&& !chain.not_yet_valid(now_secs as int)
}

/// An invocation authorises to write an entry exactly if it stands, its syntactic
/// checks came out well, and its chain proves write, is about the namespace of the
/// entry, and covers the entry.
pub proof fn law_write_is_authorised_iff(
    inv: UWillInvocationView,
    entry: EntryView,
    now_secs: u64,
)
    ensures
        inv.write_outcome(entry, now_secs) is Ok <==> exists|chain: ChainView|
            {
                &&& #[trigger] stands(inv, chain, now_secs)
                &&& inv.syntatic_checks is Ok
                &&& chain.command.spec_proves_write()
                &&& chain.namespace() == entry.namespace_id
                &&& chain.area.includes_entry(entry)
            },
{
    if inv.write_outcome(entry, now_secs) is Ok {
        assert(stands(inv, chain_outcome(inv.resolved_proofs)->Ok_0, now_secs));
    }
}

/// An invocation proves a capability to read exactly if it stands, its syntactic checks
/// came out well, it answers the challenge, and its chain proves read; the capability
/// is that chain.
pub proof fn law_read_is_proved_iff(
    inv: UWillInvocationView,
    challenge: Seq<u8>,
    now_secs: u64,
    chain: ChainView,
)
    ensures
        inv.read_outcome(challenge, now_secs) == Ok::<ChainView, InvocationErrorView>(chain) <==> {
            &&& stands(inv, chain, now_secs)
            &&& inv.syntatic_checks is Ok
            &&& inv.invocation.arguments.dom().contains(ARG_CHALLENGE@)
            &&& inv.invocation.arguments[ARG_CHALLENGE@] == PromisedView::Bytes(challenge)
            &&& chain.command.spec_proves_read()
        },
{
}

/// An invocation proves membership exactly if it stands, its syntactic checks came out
/// well, it answers the challenge, and its chain proves membership.
pub proof fn law_membership_is_proved_iff(
    inv: UWillInvocationView,
    challenge: Seq<u8>,
    now_secs: u64,
    chain: ChainView,
)
    ensures
        inv.enumerate_outcome(challenge, now_secs) == Ok::<ChainView, InvocationErrorView>(chain)
            <==> {
            &&& stands(inv, chain, now_secs)
            &&& inv.syntatic_checks is Ok
            &&& inv.invocation.arguments.dom().contains(ARG_CHALLENGE@)
            &&& inv.invocation.arguments[ARG_CHALLENGE@] == PromisedView::Bytes(challenge)
            &&& chain.command.spec_proves_enumerate()
        },
{
}

/// Outside the time of its chain no invocation is accepted, whatever it is for.
pub proof fn law_nothing_is_accepted_out_of_time(
    inv: UWillInvocationView,
    entry: EntryView,
    challenge: Seq<u8>,
    now_secs: u64,
)
    requires
        chain_outcome(inv.resolved_proofs) is Ok ==> chain_outcome(
            inv.resolved_proofs,
        )->Ok_0.expired(now_secs as int) || chain_outcome(
            inv.resolved_proofs,
        )->Ok_0.not_yet_valid(now_secs as int),
    ensures
        inv.write_outcome(entry, now_secs) is Err,
        inv.read_outcome(challenge, now_secs) is Err,
        inv.enumerate_outcome(challenge, now_secs) is Err,
        inv.revoke_outcome(now_secs) is Err,
{
}

/// Proofs other than those that the invocation names are refused, whatever it is for.
pub proof fn law_swapped_proofs_are_refused(
    inv: UWillInvocationView,
    entry: EntryView,
    challenge: Seq<u8>,
    now_secs: u64,
)
    requires
        inv.invocation.signature is Ok,
        inv.invocation.proofs != delegation_cids(inv.resolved_proofs),
    ensures
        inv.write_outcome(entry, now_secs) == Err::<(), InvocationErrorView>(
            InvocationErrorView::ProofBindingMismatch,
        ),
        inv.read_outcome(challenge, now_secs) == Err::<ChainView, InvocationErrorView>(
            InvocationErrorView::ProofBindingMismatch,
        ),
        inv.enumerate_outcome(challenge, now_secs) == Err::<ChainView, InvocationErrorView>(
            InvocationErrorView::ProofBindingMismatch,
        ),
        inv.revoke_outcome(now_secs) == Err::<Seq<u8>, InvocationErrorView>(
            InvocationErrorView::ProofBindingMismatch,
        ),
{
}

/// An answer to one challenge is no answer to another.
pub proof fn law_no_replay(
    inv: UWillInvocationView,
    challenge: Seq<u8>,
    other: Seq<u8>,
    now_secs: u64,
    later: u64,
)
    requires
        challenge != other,
        inv.read_outcome(challenge, now_secs) is Ok || inv.enumerate_outcome(
            challenge,
            now_secs,
        ) is Ok,
    ensures
        inv.read_outcome(other, later) is Err,
        inv.enumerate_outcome(other, later) is Err,
{
}

/// A proof of membership gives access to no data: its chain authorises no write and
/// proves no capability to read.
pub proof fn law_membership_gives_no_access(
    inv: UWillInvocationView,
    entry: EntryView,
    challenge: Seq<u8>,
    now_secs: u64,
)
    requires
        chain_outcome(inv.resolved_proofs) is Ok,
        chain_outcome(inv.resolved_proofs)->Ok_0.command is Enumerate,
    ensures
        inv.write_outcome(entry, now_secs) is Err,
        inv.read_outcome(challenge, now_secs) is Err,
{
}

/// A capability to read authorises no write, and one to write proves no capability to
/// read.
pub proof fn law_read_and_write_are_apart(
    inv: UWillInvocationView,
    entry: EntryView,
    challenge: Seq<u8>,
    now_secs: u64,
)
    requires
        chain_outcome(inv.resolved_proofs) is Ok,
        !(chain_outcome(inv.resolved_proofs)->Ok_0.command is Full),
    ensures
        inv.write_outcome(entry, now_secs) is Err || inv.read_outcome(challenge, now_secs) is Err,
        chain_outcome(inv.resolved_proofs)->Ok_0.command is Read ==> inv.write_outcome(
            entry,
            now_secs,
        ) is Err,
        chain_outcome(inv.resolved_proofs)->Ok_0.command is Write ==> inv.read_outcome(
            challenge,
            now_secs,
        ) is Err,
{
}

/// An invocation authorises writes in one namespace only.
pub proof fn law_namespaces_are_apart(
    inv: UWillInvocationView,
    a: EntryView,
    b: EntryView,
    now_secs: u64,
    later: u64,
)
    requires
        inv.write_outcome(a, now_secs) is Ok,
        inv.write_outcome(b, later) is Ok,
    ensures
        a.namespace_id == b.namespace_id,
{
}

/// Whether the outcome of the syntactic checks is that of checks that do what they are for:
/// where they came out well, the issuer of the invocation is the one that the last delegation
/// leads to, every delegation can be about the subject of the invocation, and the command of
/// the invocation narrows that of every delegation.
pub open spec fn checks_are_sound(inv: UWillInvocationView) -> bool {
    inv.syntatic_checks is Ok ==> {
        &&& inv.resolved_proofs.len() > 0 ==> inv.invocation.issuer
            == inv.resolved_proofs.last().audience
        &&& forall|i: int|
            0 <= i < inv.resolved_proofs.len() ==> (
            #[trigger] inv.resolved_proofs[i]).subject.spec_allows(inv.invocation.subject)
        &&& forall|i: int|
            0 <= i < inv.resolved_proofs.len() ==> (
            #[trigger] inv.resolved_proofs[i]).command.is_prefix_of(inv.invocation.command)
    }
}

/// With sound checks, an invocation of a Willow command is accepted only from the user its
/// chain leads to, only about the namespace of the chain, where that names one, and only for a
/// command that the command of the chain includes.
pub proof fn law_accepted_invocation_fits_its_chain(
    inv: UWillInvocationView,
    now_secs: u64,
    chain: ChainView,
)
    requires
        checks_are_sound(inv),
        inv.willow_outcome(now_secs) == Ok::<ChainView, InvocationErrorView>(chain),
    ensures
        inv.invocation.issuer.bytes == chain.receiver().bytes,
        chain.delegations[0].subject is Specific ==> inv.invocation.subject.bytes
            == chain.namespace().bytes,
        command_segments(chain.command).is_prefix_of(inv.invocation.command),
{
    law_chain_is_accepted_iff(inv.resolved_proofs);
    let last = inv.resolved_proofs.len() - 1;
    assert(inv.resolved_proofs[last] == inv.resolved_proofs.last());
    assert(inv.resolved_proofs[0].subject.spec_allows(inv.invocation.subject));
    assert(step_holds(inv.resolved_proofs, last));
    law_command_reading_is_faithful(inv.resolved_proofs.last().command, chain.command);
}

/// With sound checks, an invocation that anyone but the user the chain leads to makes of the
/// chain is refused, though its signature holds.
pub proof fn law_wrong_signer_is_refused(
    chain: ChainView,
    user_secret: UserSecretKey,
    command: WillowCommand,
    args: Map<Seq<char>, PromisedView>,
    seal: InvocationSealView,
    entry: EntryView,
    challenge: Seq<u8>,
    now_secs: u64,
)
    requires
        is_chain(chain),
        invocation_draft_outcome(chain, user_secret, command, args) is Ok,
        user_secret.spec_id() != chain.receiver(),
        checks_are_sound(
            signed_outcome(
                chain,
                invocation_draft_outcome(chain, user_secret, command, args)->Ok_0,
                Ok::<InvocationSealView, Seq<char>>(seal),
            )->Ok_0,
        ),
    ensures
        ({
            let built = signed_outcome(
                chain,
                invocation_draft_outcome(chain, user_secret, command, args)->Ok_0,
                Ok::<InvocationSealView, Seq<char>>(seal),
            );
            &&& built is Ok
            &&& built->Ok_0.write_outcome(entry, now_secs) is Err
            &&& built->Ok_0.read_outcome(challenge, now_secs) is Err
            &&& built->Ok_0.enumerate_outcome(challenge, now_secs) is Err
            &&& built->Ok_0.common_outcome(now_secs) is Ok ==> {
                &&& seal.syntatic_checks is Err
                &&& built->Ok_0.write_outcome(entry, now_secs) == Err::<(), InvocationErrorView>(
                    InvocationErrorView::SyntaticCheck(seal.syntatic_checks->Err_0),
                )
            }
        }),
{
    let built = signed_outcome(
        chain,
        invocation_draft_outcome(chain, user_secret, command, args)->Ok_0,
        Ok::<InvocationSealView, Seq<char>>(seal),
    )->Ok_0;
    if built.willow_outcome(now_secs) is Ok {
        law_accepted_invocation_fits_its_chain(
            built,
            now_secs,
            built.willow_outcome(now_secs)->Ok_0,
        );
    }
}

/// The syntactic checks have no say in a revocation.
pub proof fn law_revocation_needs_no_syntatic_checks(
    inv: UWillInvocationView,
    checks: Result<(), Seq<char>>,
    now_secs: u64,
)
    ensures
        (UWillInvocationView { syntatic_checks: checks, ..inv }).revoke_outcome(now_secs)
            == inv.revoke_outcome(now_secs),
{
    let other = UWillInvocationView { syntatic_checks: checks, ..inv };
    assert(other.common_outcome(now_secs) == inv.common_outcome(now_secs));
}

/// Whoever issued a delegation of the chain may revoke it and all that first occur after it.
pub proof fn law_issuers_may_revoke(delegations: Seq<DelegationView>, i: int, k: int)
    requires
        0 <= i <= k,
        is_first_with(delegations, delegations[k].cid, k),
    ensures
        may_revoke(delegations, delegations[i].issuer, delegations[k].cid),
{
    assert(issued_by(delegations, delegations[i].issuer, k));
}

/// The owner of the namespace, who issued the first delegation, may revoke every
/// delegation of the chain.
pub proof fn law_owner_may_revoke_all(delegations: Seq<DelegationView>, k: int)
    requires
        0 <= k < delegations.len(),
    ensures
        may_revoke(delegations, delegations[0].issuer, delegations[k].cid),
{
    let first = lemma_first_with(delegations, k);
    law_issuers_may_revoke(delegations, 0, first);
}

proof fn lemma_first_with(delegations: Seq<DelegationView>, k: int) -> (first: int)
    requires
        0 <= k < delegations.len(),
    ensures
        0 <= first <= k,
        is_first_with(delegations, delegations[k].cid, first),
    decreases k,
{
    let cid = delegations[k].cid;
    if is_first_with(delegations, cid, k) {
        k
    } else {
        let j = choose|j: int| 0 <= j < k && (#[trigger] delegations[j]).cid == cid;
        lemma_first_with(delegations, j)
    }
}

/// Whoever issued no delegation up to the one in question, where it first occurs, may not
/// revoke it, even if it occurs again after one that they issued.
pub proof fn law_others_may_not_revoke(
    delegations: Seq<DelegationView>,
    principal: Ed25519Did,
    k: int,
)
    requires
        is_first_with(delegations, delegations[k].cid, k),
        forall|i: int| 0 <= i <= k ==> (#[trigger] delegations[i]).issuer != principal,
    ensures
        !may_revoke(delegations, principal, delegations[k].cid),
{
    let cid = delegations[k].cid;
    assert forall|n: int| #[trigger] is_first_with(delegations, cid, n) implies n == k by {
        if n < k {
            assert(delegations[n].cid != cid);
        } else if n > k {
            assert(delegations[k].cid != cid);
        }
    }
}

/// Nobody, not even the owner of a namespace, revokes a delegation that is not one of
/// those that prove the right to.
pub proof fn law_no_revocation_outside_the_proofs(
    inv: UWillInvocationView,
    cid: Seq<u8>,
    now_secs: u64,
)
    requires
        forall|k: int|
            0 <= k < inv.resolved_proofs.len() ==> (#[trigger] inv.resolved_proofs[k]).cid != cid,
    ensures
        inv.revoke_outcome(now_secs) != Ok::<Seq<u8>, InvocationErrorView>(cid),
        ({
            let args = inv.invocation.arguments;
            &&& inv.common_outcome(now_secs) is Ok
            &&& inv.invocation.command == revoke_segments()
            &&& args.dom().contains(ARG_REVOKE@)
            &&& args[ARG_REVOKE@] is Bytes
            &&& cid_reading(args[ARG_REVOKE@]->Bytes_0) == Ok::<Seq<u8>, Seq<char>>(cid)
        }) ==> inv.revoke_outcome(now_secs) == Err::<Seq<u8>, InvocationErrorView>(
            InvocationErrorView::Unauthorized,
        ),
{
}

/// The invocation that the holder of a chain makes to write stands up: in its time, and
/// where signature and syntactic checks came out well, it authorises to write exactly
/// the entries that the chain covers.
pub proof fn law_built_write_is_accepted(
    chain: ChainView,
    user_secret: UserSecretKey,
    seal: InvocationSealView,
    entry: EntryView,
    now_secs: u64,
)
    requires
        is_chain(chain),
        verifying_key_error(chain.receiver().bytes@) is None,
        verifying_key_error(chain.namespace().bytes@) is None,
        seal.signature is Ok,
        seal.syntatic_checks is Ok,
        chain.command.spec_proves_write(),
        !chain.expired(now_secs as int),
        !chain.not_yet_valid(now_secs as int),
    ensures
        ({
            let draft = invocation_draft_outcome(
                chain,
                user_secret,
                WillowCommand::Write,
                area_arguments(chain.area),
            );
            let built = signed_outcome(
                chain,
                draft->Ok_0,
                Ok::<InvocationSealView, Seq<char>>(seal),
            );
            &&& draft is Ok
            &&& built is Ok
            &&& built->Ok_0.write_outcome(entry, now_secs) is Ok <==> chain.namespace()
                == entry.namespace_id && chain.area.includes_entry(entry)
        }),
{
}

/// The invocation that the holder of a chain makes to read, or to prove membership,
/// stands up in the same way, for the challenge that it was made for.
pub proof fn law_built_proof_is_accepted(
    chain: ChainView,
    user_secret: UserSecretKey,
    command: WillowCommand,
    challenge: Seq<u8>,
    seal: InvocationSealView,
    now_secs: u64,
)
    requires
        is_chain(chain),
        verifying_key_error(chain.receiver().bytes@) is None,
        verifying_key_error(chain.namespace().bytes@) is None,
        seal.signature is Ok,
        seal.syntatic_checks is Ok,
        !chain.expired(now_secs as int),
        !chain.not_yet_valid(now_secs as int),
    ensures
        ({
            let draft = invocation_draft_outcome(
                chain,
                user_secret,
                command,
                challenge_arguments(chain, challenge),
            );
            let built = signed_outcome(
                chain,
                draft->Ok_0,
                Ok::<InvocationSealView, Seq<char>>(seal),
            );
            &&& draft is Ok
            &&& built is Ok
            &&& chain.command.spec_proves_read() ==> built->Ok_0.read_outcome(challenge, now_secs)
                == Ok::<ChainView, InvocationErrorView>(chain)
            &&& chain.command.spec_proves_enumerate() ==> built->Ok_0.enumerate_outcome(
                challenge,
                now_secs,
            ) == Ok::<ChainView, InvocationErrorView>(chain)
        }),
{
}

/// The invocation that an issuer of a chain makes to revoke a delegation revokes that
/// delegation, in the time of the chain.
pub proof fn law_built_revocation_is_accepted(
    cid: Seq<u8>,
    chain: ChainView,
    revoker_secret: [u8; 32],
    seal: InvocationSealView,
    now_secs: u64,
)
    requires
        is_chain(chain),
        is_cid(cid),
        verifying_key_error(chain.namespace().bytes@) is None,
        seal.signature is Ok,
        !chain.expired(now_secs as int),
        !chain.not_yet_valid(now_secs as int),
    ensures
        ({
            let draft = revoke_draft_outcome(cid, chain, revoker_secret);
            let built = signed_outcome(
                chain,
                draft->Ok_0,
                Ok::<InvocationSealView, Seq<char>>(seal),
            );
            let revoker = Ed25519Did { bytes: public_key_bytes(revoker_secret) };
            &&& draft is Ok
            &&& built is Ok
            &&& built->Ok_0.revoke_outcome(now_secs) == if may_revoke(
                chain.delegations,
                revoker,
                cid,
            ) {
                Ok::<Seq<u8>, InvocationErrorView>(cid)
            } else {
                Err(InvocationErrorView::Unauthorized)
            }
        }),
{
}

} // verus!
