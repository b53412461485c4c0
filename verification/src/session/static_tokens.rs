//! The static tokens that the two peers of a session bind.
//!
//! The token of an entry is sent in two parts: the chain, which many entries share, is
//! bound once, and the invocation comes with each entry.

use vstd::prelude::*;

use super::resource::{first_handle, ResourceMap};
use super::{Error, ErrorView};
use crate::proto::data_model::{AuthorisedEntry, Entry, EntryView};
use crate::proto::meadowcap::serde_encoding::SerdeMcCapability;
use crate::proto::wgps::{DynamicToken, SetupBindStaticToken, StaticToken, StaticTokenHandle};
use crate::uwill::chain::{is_chain, ChainView};
use crate::uwill::invocation::{clock_gave, current_time, UWillInvocationView};
use crate::uwill::invocation_facts::{has_begun, is_sound, law_writing_iff, lets_write, not_over};
use crate::uwill::ucan::{check_view, copy_delegations, InvocationView};
use crate::uwill::UWillInvocation;

verus! {

/// The chains that were bound as static tokens.
pub struct StaticTokensView {
    pub ours: Seq<ChainView>,
    pub theirs: Seq<ChainView>,
}

/// The static tokens that we and the peer have bound.
#[derive(Debug)]
pub struct StaticTokens {
    ours: ResourceMap,
    theirs: ResourceMap,
}

impl View for StaticTokens {
    type V = StaticTokensView;

    closed spec fn view(&self) -> StaticTokensView {
        StaticTokensView { ours: self.ours@, theirs: self.theirs@ }
    }
}

impl Default for StaticTokens {
    fn default() -> (r: Self)
        ensures
            r@ == (StaticTokensView { ours: seq![], theirs: seq![] }),
    {
        let r = StaticTokens { ours: ResourceMap::new(), theirs: ResourceMap::new() };
        assert(r@.ours =~= seq![] && r@.theirs =~= seq![]);
        r
    }
}

/// The token of which a chain and an invocation are the parts.
pub open spec fn joined_token(
    chain: ChainView,
    invocation: InvocationView,
    syntatic_checks: Result<(), Seq<char>>,
) -> UWillInvocationView {
    UWillInvocationView { invocation, resolved_proofs: chain.delegations, syntatic_checks }
}

/// The outcome of checking an entry: the entry with its token.
pub open spec fn authorised_result(r: Result<AuthorisedEntry, Error>) -> Result<
    (EntryView, UWillInvocationView),
    ErrorView,
> {
    match r {
        Ok(authorised) => Ok((authorised.spec_entry(), authorised.spec_token())),
        Err(e) => Err(e@),
    }
}

/// What checking an entry with its token comes to.
pub open spec fn authorisation_outcome(
    entry: EntryView,
    token: UWillInvocationView,
    now_secs: u64,
) -> Result<(EntryView, UWillInvocationView), ErrorView> {
    match token.write_outcome(entry, now_secs) {
        Ok(()) => Ok((entry, token)),
        Err(e) => Err(ErrorView::InvocationValidation(e.message())),
    }
}

impl StaticTokens {
    /// Binds a token of the peer.
    pub fn bind_theirs(&mut self, token: StaticToken)
        ensures
            final(self)@.ours == old(self)@.ours,
            final(self)@.theirs == old(self)@.theirs.push(token.0@),
    {
        self.theirs.bind(token.0);
    }

    /// Binds a token of ours, unless it is bound. Gives the handle and, where it is new, the
    /// message that is to be sent.
    pub fn bind_and_send_ours(&mut self, static_token: StaticToken) -> (r: (
        StaticTokenHandle,
        Option<SetupBindStaticToken>,
    ))
        ensures
            final(self)@.theirs == old(self)@.theirs,
            match first_handle(old(self)@.ours, static_token.0@, 0) {
                Some(handle) => {
                    &&& r.0 == handle
                    &&& r.1 is None
                    &&& final(self)@.ours == old(self)@.ours
                },
                None => {
                    &&& r.0 == old(self)@.ours.len()
                    &&& r.1 matches Some(message) && message.static_token.0@ == static_token.0@
                    &&& final(self)@.ours == old(self)@.ours.push(static_token.0@)
                },
            },
    {
        let chain = static_token.0.clone();
        let (handle, is_new) = self.ours.bind_if_new(static_token.0);
        if is_new {
            (handle, Some(SetupBindStaticToken { static_token: SerdeMcCapability(chain) }))
        } else {
            (handle, None)
        }
    }

    /// The token that the peer has bound to the handle, once it has.
    pub fn get_theirs(&self, handle: StaticTokenHandle) -> (r: Option<StaticToken>)
        ensures
            match r {
                Some(token) => handle < self@.theirs.len() && token.0@
                    == self@.theirs[handle as int],
                None => handle >= self@.theirs.len(),
            },
    {
        match self.theirs.get(handle) {
            Some(chain) => Some(SerdeMcCapability(chain.clone())),
            None => None,
        }
    }

    /// Checks, at the given time, an entry of the peer with the two parts of its token;
    /// `None` while the peer has not bound the handle.
    ///
    /// Whether the chain is revoked is for the caller to check.
    pub fn authorise_entry_at(
        &self,
        entry: Entry,
        static_token_handle: StaticTokenHandle,
        dynamic_token: DynamicToken,
        syntatic_checks: Result<(), String>,
        now_secs: u64,
    ) -> (r: Option<Result<AuthorisedEntry, Error>>)
        ensures
            match r {
                None => static_token_handle >= self@.theirs.len(),
                Some(r) => static_token_handle < self@.theirs.len() && authorised_result(r)
                    == authorisation_outcome(
                    entry@,
                    joined_token(
                        self@.theirs[static_token_handle as int],
                        dynamic_token.0@,
                        check_view(syntatic_checks),
                    ),
                    now_secs,
                ),
            },
    {
        let chain = match self.theirs.get(static_token_handle) {
            Some(chain) => chain,
            None => {
                return None;
            },
        };
        let token = UWillInvocation::from_parts(
            dynamic_token.0,
            copy_delegations(chain.delegations()),
            syntatic_checks,
        );
        match token.validate_write_at(&entry, now_secs) {
            Ok(()) => Some(Ok(AuthorisedEntry::new_unchecked(entry, token))),
            Err(e) => Some(Err(Error::InvocationValidation(e.message()))),
        }
    }

    /// Checks, by now, an entry of the peer with the two parts of its token; `None` while
    /// the peer has not bound the handle.
    pub fn authorise_entry_eventually(
        &self,
        entry: Entry,
        static_token_handle: StaticTokenHandle,
        dynamic_token: DynamicToken,
        syntatic_checks: Result<(), String>,
    ) -> (r: Option<Result<AuthorisedEntry, Error>>)
        ensures
            match r {
                None => static_token_handle >= self@.theirs.len(),
                Some(r) => static_token_handle < self@.theirs.len() && exists|now_secs: u64|
                    clock_gave(now_secs) && authorised_result(r) == #[trigger] authorisation_outcome(
                        entry@,
                        joined_token(
                            self@.theirs[static_token_handle as int],
                            dynamic_token.0@,
                            check_view(syntatic_checks),
                        ),
                        now_secs,
                    ),
            },
    {
        let now_secs: u64 = current_time();
        self.authorise_entry_at(
            entry,
            static_token_handle,
            dynamic_token,
            syntatic_checks,
            now_secs,
        )
    }
}

/// Taking a token apart and putting it together again gives the token.
pub proof fn law_token_parts_join(token: UWillInvocationView, chain: ChainView)
    requires
        token.proof_chain() == Ok::<ChainView, crate::uwill::invocation::InvocationErrorView>(
            chain,
        ),
    ensures
        joined_token(chain, token.invocation, token.syntatic_checks) == token,
{
}

/// An entry of the peer is authorised exactly if the chain that the peer has bound and the
/// invocation that came with the entry are together a token that authorises it at the time: the
/// signature holds, the proofs that it names are those of the chain, which is one, whose time is
/// right, the checks came out well, and the chain lets one write the entry. What is given out is
/// the entry, with the token of these parts.
pub proof fn law_entry_is_authorised_iff(
    entry: EntryView,
    chain: ChainView,
    invocation: InvocationView,
    checks: Result<(), Seq<char>>,
    now_secs: u64,
)
    requires
        is_chain(chain),
    ensures
        ({
            let outcome = authorisation_outcome(
                entry,
                joined_token(chain, invocation, checks),
                now_secs,
            );
            &&& outcome is Ok <==> {
                &&& invocation.signature is Ok
                &&& invocation.proofs.len() == chain.delegations.len()
                &&& forall|i: int|
                    0 <= i < chain.delegations.len() ==> (#[trigger] invocation.proofs[i])
                        == chain.delegations[i].cid
                &&& not_over(chain.delegations, now_secs as int)
                &&& has_begun(chain.delegations, now_secs as int)
                &&& checks is Ok
                &&& lets_write(chain, entry)
            }
            &&& outcome matches Ok(authorised) ==> {
                &&& authorised.0 == entry
                &&& authorised.1.invocation == invocation
                &&& authorised.1.resolved_proofs == chain.delegations
                &&& authorised.1.syntatic_checks == checks
            }
        }),
{
    let token = joined_token(chain, invocation, checks);
    law_writing_iff(token, entry, now_secs);
    if authorisation_outcome(entry, token, now_secs) is Ok {
        assert(is_sound(token, now_secs, chain));
    }
}

/// An entry that is not authorised is refused with the reason why its token does not authorise
/// it.
pub proof fn law_why_an_entry_is_refused(
    entry: EntryView,
    token: UWillInvocationView,
    now_secs: u64,
)
    ensures
        match (authorisation_outcome(entry, token, now_secs), token.write_outcome(entry, now_secs)) {
            (Ok(authorised), Ok(())) => authorised == (entry, token),
            (Err(e), Err(cause)) => e == ErrorView::InvocationValidation(cause.message()),
            _ => false,
        },
{
}

/// The outcome that contracts speak of is the one that came: an entry together with its token.
pub proof fn law_outcomes_of_authorising(r: Result<AuthorisedEntry, Error>)
    ensures
        authorised_result(r) is Ok <==> r is Ok,
        r is Ok ==> authorised_result(r)->Ok_0.0 == r->Ok_0.spec_entry(),
        r is Ok ==> authorised_result(r)->Ok_0.1 == r->Ok_0.spec_token(),
        r is Err ==> authorised_result(r)->Err_0 == r->Err_0@,
{
}

/// An entry that comes with the handle of a bound chain is authorised exactly if the invocation
/// is signed, names the delegations of that chain, whose time is right, came through its checks,
/// and the chain lets one write the entry; it is then given out with its token. Without a chain
/// for the handle there is no answer.
pub proof fn law_authorising_an_entry(
    tokens: StaticTokens,
    entry: Entry,
    handle: StaticTokenHandle,
    dynamic_token: DynamicToken,
    checks: Result<(), String>,
    now_secs: u64,
    r: Option<Result<AuthorisedEntry, Error>>,
)
    requires
        call_ensures(
            StaticTokens::authorise_entry_at,
            (&tokens, entry, handle, dynamic_token, checks, now_secs),
            r,
        ),
        handle < tokens@.theirs.len() ==> is_chain(tokens@.theirs[handle as int]),
    ensures
        r is Some <==> handle < tokens@.theirs.len(),
        r is Some ==> {
            let chain = tokens@.theirs[handle as int];
            let invocation = dynamic_token.0@;
            &&& r->0 is Ok <==> {
                &&& invocation.signature is Ok
                &&& invocation.proofs.len() == chain.delegations.len()
                &&& forall|i: int|
                    0 <= i < chain.delegations.len() ==> (#[trigger] invocation.proofs[i])
                        == chain.delegations[i].cid
                &&& not_over(chain.delegations, now_secs as int)
                &&& has_begun(chain.delegations, now_secs as int)
                &&& checks is Ok
                &&& lets_write(chain, entry@)
            }
            &&& r->0 is Ok ==> {
                &&& r->0->Ok_0.spec_entry() == entry@
                &&& r->0->Ok_0.spec_token().invocation == invocation
                &&& r->0->Ok_0.spec_token().resolved_proofs == chain.delegations
            }
        },
{
    if r is Some {
        law_entry_is_authorised_iff(
            entry@,
            tokens@.theirs[handle as int],
            dynamic_token.0@,
            check_view(checks),
            now_secs,
        );
    }
}

} // verus!
