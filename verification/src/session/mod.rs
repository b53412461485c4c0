//! What a node keeps, and decides, during a session with a peer.

pub mod capabilities;
pub mod payload;
pub mod resource;
pub mod static_tokens;

use vstd::prelude::*;

use crate::store::traits::SecretStoreError;

verus! {

/// Why a session cannot go on.
#[derive(Debug)]
pub enum Error {
    /// The peer sent a message that has no place in the state of the session.
    InvalidMessageInCurrentState,
    /// The nonce of the peer is not the one that it committed to.
    BrokenCommitment,
    /// The secret of the user of a capability is not there.
    MissingSecret,
    /// The storage of secrets failed.
    SecretStore(SecretStoreError),
    /// An invocation could not be made.
    InvocationBuild(String),
    /// An invocation of the peer was refused.
    InvocationValidation(String),
    /// The storage of payloads failed.
    PayloadStore(String),
    /// A message could not be sent.
    Send(String),
}

pub enum ErrorView {
    InvalidMessageInCurrentState,
    BrokenCommitment,
    MissingSecret,
    SecretStore(Seq<char>),
    InvocationBuild(Seq<char>),
    InvocationValidation(Seq<char>),
    PayloadStore(Seq<char>),
    Send(Seq<char>),
}

impl View for Error {
    type V = ErrorView;

    open spec fn view(&self) -> ErrorView {
        match self {
            Error::InvalidMessageInCurrentState => ErrorView::InvalidMessageInCurrentState,
            Error::BrokenCommitment => ErrorView::BrokenCommitment,
            Error::MissingSecret => ErrorView::MissingSecret,
            Error::SecretStore(e) => ErrorView::SecretStore(e.text@),
            Error::InvocationBuild(text) => ErrorView::InvocationBuild(text@),
            Error::InvocationValidation(text) => ErrorView::InvocationValidation(text@),
            Error::PayloadStore(text) => ErrorView::PayloadStore(text@),
            Error::Send(text) => ErrorView::Send(text@),
        }
    }
}

} // verus!
