use ed25519_dalek::{Signer, SigningKey};

use iroh_willow::proto::data_model::{Entry, Path, PayloadDigest};
use iroh_willow::proto::grouping::{Area, AreaSubspace, Range, RangeEnd};
use iroh_willow::proto::keys::{NamespaceId, NamespaceSecretKey, UserId, UserSecretKey};
use iroh_willow::proto::meadowcap::serde_encoding::{SerdeInvocation, SerdeMcCapability};
use iroh_willow::proto::meadowcap::AccessMode;
use iroh_willow::session::capabilities::{Capabilities, SessionChallenges};
use iroh_willow::session::payload::{
    send_payload_chunked, send_payload_next, CurrentPayload, SendAction, SendEvent,
};
use iroh_willow::session::resource::ResourceMap;
use iroh_willow::session::static_tokens::StaticTokens;
use iroh_willow::session::Error;
use iroh_willow::store::traits::{SecretStorage, SecretStoreError};
use iroh_willow::uwill::chain::UWillChain;
use iroh_willow::uwill::invocation::build_write_invocation;
use iroh_willow::uwill::ucan::{
    Cid, Delegation, DelegationDraft, DelegationSeal, InvocationDraft, InvocationSeal,
};

fn secret_user(byte: u8) -> UserSecretKey {
    UserSecretKey::from_bytes(&[byte; 32])
}

fn secret_namespace(byte: u8) -> NamespaceSecretKey {
    NamespaceSecretKey::from_bytes(&[byte; 32])
}

// Signs what a draft says, written out, and names a token by its signature.
fn sealed(secret: &[u8; 32], terms: &str) -> Vec<u8> {
    SigningKey::from_bytes(secret).sign(terms.as_bytes()).to_bytes().to_vec()
}

fn sign_delegation(draft: &DelegationDraft) -> Result<DelegationSeal, String> {
    let encoded = sealed(&draft.secret, &format!("{draft:?}"));
    let mut cid = vec![0x01, 0x71, 0x13, 0x40];
    cid.extend_from_slice(&encoded);
    Ok(DelegationSeal { cid: Cid::from_bytes(&cid)?, signature_valid: true, encoded })
}

fn path_area(path: &[&[u8]]) -> Area {
    Area::new(AreaSubspace::Any, Path::from_bytes(path).unwrap(), Range::new(0, RangeEnd::Open))
}

fn check_proofs(draft: &InvocationDraft, proofs: &[Delegation]) -> Result<(), String> {
    let mut expected = draft.subject;
    for proof in proofs {
        if proof.issuer != expected || !proof.subject.allows(&draft.subject) {
            return Err("invalid proof issuer chain".to_owned());
        }
        if !draft.command.starts_with(&proof.command) {
            return Err("command mismatch".to_owned());
        }
        expected = proof.audience;
    }
    if draft.issuer == expected {
        Ok(())
    } else {
        Err("invalid proof issuer chain".to_owned())
    }
}

fn sign_invocation(
    draft: &InvocationDraft,
    proofs: &[Delegation],
) -> Result<InvocationSeal, String> {
    Ok(InvocationSeal {
        signature: Ok(()),
        syntatic_checks: check_proofs(draft, proofs),
        encoded: sealed(&draft.secret, &format!("{draft:?}")),
    })
}

fn owned(namespace: u8, user: u8, mode: AccessMode) -> UWillChain {
    let secret = secret_namespace(namespace);
    let user = secret_user(user).public_key().id();
    UWillChain::new_owned(secret.id(), &secret, user, mode, &sign_delegation).unwrap()
}

fn membership(namespace: u8, user: u8) -> UWillChain {
    let secret = secret_namespace(namespace);
    let user = secret_user(user).public_key().id();
    UWillChain::new_enumerate(secret.id(), &secret, user, &sign_delegation).unwrap()
}

// The secret of one user, or a broken storage.
struct OneSecret(Option<UserSecretKey>);

impl SecretStorage for OneSecret {
    fn get_user(&self, id: &UserId) -> Result<Option<UserSecretKey>, SecretStoreError> {
        match self.0 {
            Some(secret) if secret.public_key().id() == *id => Ok(Some(secret)),
            Some(_) => Ok(None),
            None => Err(SecretStoreError { text: "locked".to_owned() }),
        }
    }

    fn get_namespace(
        &self,
        _id: &NamespaceId,
    ) -> Result<Option<NamespaceSecretKey>, SecretStoreError> {
        Ok(None)
    }

    fn has_user(&self, id: &UserId) -> Result<bool, SecretStoreError> {
        Ok(self.get_user(id)?.is_some())
    }
}

// -- capabilities ------------------------------------------------------------

const OURS: [u8; 32] = [1; 32];
const THEIRS: [u8; 32] = [2; 32];

// Two peers that have revealed their nonces.
fn peers() -> (Capabilities, Capabilities) {
    let mut a = Capabilities::new([10; 32], [20; 32]);
    let mut b = Capabilities::new([11; 32], [21; 32]);
    a.received_commitment_reveal(Some(SessionChallenges { ours: OURS, theirs: THEIRS })).unwrap();
    b.received_commitment_reveal(Some(SessionChallenges { ours: THEIRS, theirs: OURS })).unwrap();
    (a, b)
}

#[test]
fn nonces_are_revealed_once() {
    let mut caps = Capabilities::new([10; 32], [20; 32]);
    assert!(!caps.is_revealed());
    assert_eq!(caps.reveal_commitment().unwrap().nonce, [10; 32]);

    // The nonce of the peer does not fit its commitment.
    let result = caps.received_commitment_reveal(None);
    assert!(matches!(result, Err(Error::BrokenCommitment)));
    assert!(!caps.is_revealed());

    let challenges = SessionChallenges { ours: OURS, theirs: THEIRS };
    caps.received_commitment_reveal(Some(challenges)).unwrap();
    assert!(caps.is_revealed());
    let result = caps.received_commitment_reveal(Some(challenges));
    assert!(matches!(result, Err(Error::InvalidMessageInCurrentState)));
    assert!(matches!(caps.reveal_commitment(), Err(Error::InvalidMessageInCurrentState)));
}

#[test]
fn nothing_is_proved_before_the_nonces_are_revealed() {
    let mut caps = Capabilities::new([10; 32], [20; 32]);
    let secrets = OneSecret(Some(secret_user(3)));
    let chain = owned(9, 3, AccessMode::Read);
    let result = caps.build_read_cap_invocation(&secrets, 0, chain.clone(), &sign_invocation);
    assert!(matches!(result, Err(Error::InvalidMessageInCurrentState)));
    let result =
        caps.build_enumerate_cap_invocation(&secrets, membership(9, 3), 0, &sign_invocation);
    assert!(matches!(result, Err(Error::InvalidMessageInCurrentState)));

    let (a, _) = peers();
    let message = a.build_read_cap_invocation(&secrets, 0, chain, &sign_invocation).unwrap();
    let result = caps.validate_and_bind_read_invocation(message.invocation.0.clone());
    assert!(matches!(result, Err(Error::InvalidMessageInCurrentState)));
    let result = caps.validate_enumerate_cap_invocation(&message.invocation.0);
    assert!(matches!(result, Err(Error::InvalidMessageInCurrentState)));
    assert!(caps.get_theirs(0).is_none());
}

#[test]
fn capabilities_are_proved_to_the_peer() {
    let (mut a, mut b) = peers();
    let secrets = OneSecret(Some(secret_user(3)));
    let chain = owned(9, 3, AccessMode::Read);
    assert!(a.find_ours(&chain).is_none());
    let message =
        a.build_read_cap_invocation(&secrets, 17, chain.clone(), &sign_invocation).unwrap();
    assert_eq!(message.handle, 17);
    assert_eq!(a.bind_ours(chain.clone()), (0, true));
    assert_eq!(a.bind_ours(chain.clone()), (0, false));
    assert_eq!(a.find_ours(&chain), Some(0));
    assert_eq!(a.bind_ours(owned(8, 3, AccessMode::Read)), (1, true));

    let bound = b.validate_and_bind_read_invocation(message.invocation.0.clone()).unwrap();
    assert!(bound == chain);
    assert!(b.get_theirs(0).unwrap() == chain);
    assert!(b.get_theirs(1).is_none());

    // An answer to one challenge does not answer another.
    let result = a.validate_and_bind_read_invocation(message.invocation.0);
    assert!(matches!(result, Err(Error::InvocationValidation(text))
        if text == "challenge nonce mismatch"));
    assert!(a.get_theirs(0).is_none());
}

#[test]
fn memberships_are_proved_to_the_peer() {
    let (a, mut b) = peers();
    let secrets = OneSecret(Some(secret_user(3)));
    let chain = membership(9, 3);
    let message = a
        .build_enumerate_cap_invocation(&secrets, chain.clone(), 4, &sign_invocation)
        .unwrap();
    assert_eq!(message.handle, 4);
    assert!(b.validate_enumerate_cap_invocation(&message.invocation.0).unwrap() == chain);

    // It does not prove that it reads.
    let result = b.validate_and_bind_read_invocation(message.invocation.0);
    assert!(matches!(result, Err(Error::InvocationValidation(_))));
    assert!(b.get_theirs(0).is_none());
}

#[test]
fn proofs_need_the_secret_of_the_user() {
    let (a, _) = peers();
    let chain = owned(9, 3, AccessMode::Read);
    let other = OneSecret(Some(secret_user(4)));
    let result = a.build_read_cap_invocation(&other, 0, chain.clone(), &sign_invocation);
    assert!(matches!(result, Err(Error::MissingSecret)));
    let result = a.build_enumerate_cap_invocation(&other, chain.clone(), 0, &sign_invocation);
    assert!(matches!(result, Err(Error::MissingSecret)));
    let broken = OneSecret(None);
    let result = a.build_read_cap_invocation(&broken, 0, chain.clone(), &sign_invocation);
    assert!(matches!(result, Err(Error::SecretStore(e)) if e.text == "locked"));
    let refuse = |_: &InvocationDraft, _: &[Delegation]| -> Result<InvocationSeal, String> {
        Err("no".to_owned())
    };
    let secrets = OneSecret(Some(secret_user(3)));
    let result = a.build_read_cap_invocation(&secrets, 0, chain, &refuse);
    assert!(matches!(result, Err(Error::InvocationBuild(text))
        if text == "invocation build failed: no"));
}

#[test]
fn proofs_are_checked_at_the_time() {
    let (a, mut b) = peers();
    let secrets = OneSecret(Some(secret_user(3)));
    let mut delegation = owned(9, 3, AccessMode::Read).delegations()[0].clone();
    delegation.expiration = Some(1000);
    let chain = UWillChain::from_single(delegation).unwrap();
    let message = a.build_read_cap_invocation(&secrets, 0, chain, &sign_invocation).unwrap();
    let result = b.validate_and_bind_read_invocation(message.invocation.0.clone());
    assert!(matches!(result, Err(Error::InvocationValidation(text))
        if text == "capability chain expired"));
    assert!(b.validate_and_bind_read_invocation_at(message.invocation.0, 1060).is_ok());
}

// -- handles -----------------------------------------------------------------

#[test]
fn handles_count_up() {
    let mut map = ResourceMap::new();
    let (a, b) = (owned(9, 3, AccessMode::Read), owned(9, 4, AccessMode::Read));
    assert_eq!(map.bind(a.clone()), 0);
    assert_eq!(map.bind(b.clone()), 1);
    assert_eq!(map.bind(a.clone()), 2);
    assert_eq!(map.find(&a), Some(0));
    assert_eq!(map.bind_if_new(b.clone()), (1, false));
    assert!(*map.get(2).unwrap() == a);
    assert!(map.get(3).is_none());
}

// -- static tokens -----------------------------------------------------------

fn entry_in(namespace: u8, user: u8, path: &[&[u8]]) -> Entry {
    let path = Path::from_bytes(path).unwrap();
    let user = secret_user(user).public_key().id();
    Entry::new(secret_namespace(namespace).id(), user, path, 0, 0, PayloadDigest::default())
}

#[test]
fn entries_are_authorised_by_the_parts_of_a_token() {
    let chain = owned(9, 3, AccessMode::Write);
    let restricted = chain
        .delegate(
            &secret_user(3),
            &secret_user(3).public_key().id(),
            &path_area(&[b"docs"]),
            &sign_delegation,
        )
        .unwrap();
    let entry = entry_in(9, 3, &[b"docs", b"readme"]);
    let token =
        build_write_invocation(&entry, &restricted, &secret_user(3), &sign_invocation).unwrap();

    // The sender binds the chain once.
    let mut sender = StaticTokens::default();
    let (handle, message) = sender.bind_and_send_ours(SerdeMcCapability(token.capability()));
    assert_eq!(handle, 0);
    let message = message.unwrap();
    let (again, none) = sender.bind_and_send_ours(SerdeMcCapability(token.capability()));
    assert_eq!(again, 0);
    assert!(none.is_none());
    let (other, new) = sender.bind_and_send_ours(SerdeMcCapability(chain));
    assert_eq!(other, 1);
    assert!(new.is_some());

    // The receiver waits for the chain.
    let mut receiver = StaticTokens::default();
    let dynamic = || SerdeInvocation(token.invocation().clone());
    let copy = || entry_in(9, 3, &[b"docs", b"readme"]);
    assert!(receiver.authorise_entry_eventually(copy(), 0, dynamic(), Ok(())).is_none());
    assert!(receiver.get_theirs(0).is_none());
    receiver.bind_theirs(message.static_token);
    assert!(receiver.get_theirs(0).unwrap().0 == restricted);
    let authorised =
        receiver.authorise_entry_eventually(copy(), 0, dynamic(), Ok(())).unwrap().unwrap();
    assert!(authorised.entry().path() == entry.path());
    assert!(authorised.token().is_authorised_write(&entry));

    // An entry outside the area is not authorised, nor one whose checks failed.
    let outside = entry_in(9, 3, &[b"secrets"]);
    let result = receiver.authorise_entry_eventually(outside, 0, dynamic(), Ok(())).unwrap();
    assert!(matches!(result, Err(Error::InvocationValidation(text))
        if text == "entry outside capability area"));
    let checks = Err("command mismatch".to_owned());
    let result = receiver.authorise_entry_at(copy(), 0, dynamic(), checks, 0).unwrap();
    assert!(matches!(result, Err(Error::InvocationValidation(text))
        if text == "syntatic_checks failed: command mismatch"));
    assert!(receiver.authorise_entry_at(copy(), 1, dynamic(), Ok(()), 0).is_none());
}

// -- payloads ----------------------------------------------------------------

#[test]
fn payloads_are_sent_from_a_chunk_on() {
    assert!(matches!(send_payload_chunked(), SendAction::AskStorage));
    for (offset, chunk) in [(0, 0), (1023, 0), (1024, 1), (5000, 4), (u64::MAX, u64::MAX / 1024)] {
        let action = send_payload_next(offset, SendEvent::Asked(Ok(true)));
        assert!(matches!(action, SendAction::Stream { from_chunk } if from_chunk == chunk));
    }
    let action = send_payload_next(0, SendEvent::Asked(Ok(false)));
    assert!(matches!(action, SendAction::Finish(Ok(false))));
    let action = send_payload_next(0, SendEvent::Item(Ok(vec![1, 2])));
    assert!(matches!(action, SendAction::Send(bytes) if bytes == [1, 2]));
    let action = send_payload_next(0, SendEvent::Sent(Ok(())));
    assert!(matches!(action, SendAction::TakeNext));
    let action = send_payload_next(0, SendEvent::End);
    assert!(matches!(action, SendAction::Finish(Ok(true))));

    let action = send_payload_next(0, SendEvent::Asked(Err("io".to_owned())));
    assert!(matches!(action, SendAction::Finish(Err(Error::PayloadStore(text))) if text == "io"));
    let action = send_payload_next(0, SendEvent::Item(Err("io".to_owned())));
    assert!(matches!(action, SendAction::Finish(Err(Error::PayloadStore(text))) if text == "io"));
    let action = send_payload_next(0, SendEvent::Sent(Err("closed".to_owned())));
    assert!(matches!(action, SendAction::Finish(Err(Error::Send(text))) if text == "closed"));
}

#[test]
fn payloads_are_received_in_chunks() {
    let mut payload = CurrentPayload::default();
    assert!(!payload.is_complete() && !payload.is_active());
    let result = payload.recv_chunk(vec![1]);
    assert!(matches!(result, Err(Error::InvalidMessageInCurrentState)));
    assert!(matches!(payload.finalize(), Err(Error::InvalidMessageInCurrentState)));

    let digest = PayloadDigest { bytes: [5; 32] };
    payload.set(digest, 3000, Some(2050), Some(2048)).unwrap();
    let result = payload.set(digest, 1, None, None);
    assert!(matches!(result, Err(Error::InvalidMessageInCurrentState)));
    assert!(!payload.is_active());
    assert!(payload.ensure_none().is_ok());

    payload.recv_chunk(vec![1]).unwrap();
    assert!(payload.is_active() && !payload.is_complete());
    assert!(matches!(payload.ensure_none(), Err(Error::InvalidMessageInCurrentState)));
    payload.recv_chunk(vec![2, 3]).unwrap();
    assert!(payload.is_complete());

    let import = payload.finalize().unwrap().unwrap();
    assert_eq!(import.payload_digest, digest);
    assert_eq!(import.from_chunk, 2);
    assert_eq!(import.data, [1, 2, 3]);
    assert!(!payload.is_active());

    // A payload of which nothing is missing needs no chunk.
    payload.set(digest, 10, None, Some(10)).unwrap();
    assert!(payload.is_complete());
    assert!(payload.finalize().unwrap().is_none());
    payload.set(digest, 10, None, None).unwrap();
    assert!(!payload.is_complete());
}
