use ed25519_dalek::{Signature, Signer, SigningKey, Verifier, VerifyingKey};
use rand_chacha::ChaCha12Rng;
use rand_core::SeedableRng;

use iroh_willow::proto::data_model::{Entry, Path, PayloadDigest};
use iroh_willow::proto::grouping::{Area, AreaSubspace, Range, RangeEnd};
use iroh_willow::proto::keys::{NamespaceId, NamespaceSecretKey, UserId, UserSecretKey};
use iroh_willow::proto::meadowcap::serde_encoding::{
    decode_access_mode, encode_access_mode, SerdeInvocation, SerdeMcCapability,
};
use iroh_willow::proto::meadowcap::{
    is_authorised_write, is_wider_than, AccessMode, ReadAuthorisation,
};
use iroh_willow::uwill::area_extract::{
    area_to_args, area_to_predicates, AreaExtractError, WIL_PATH,
};
use iroh_willow::uwill::chain::{
    ed25519_did_to_namespace_id, ed25519_did_to_user_id, namespace_id_to_ed25519_did,
    user_id_to_ed25519_did, ChainError, UWillChain, UWillChainRaw,
};
use iroh_willow::uwill::command::WillowCommand;
use iroh_willow::uwill::invocation::{
    build_enumerate_invocation, build_read_invocation, build_revoke_invocation,
    build_write_invocation, InvocationError, UWillInvocation, ARG_CHALLENGE, ARG_REVOKE,
};
use iroh_willow::uwill::policy::{
    field_selector, Arguments, Filter, Ipld, Number, Predicate, Promised, Select,
};
use iroh_willow::uwill::revocation::RevocationStore;
use iroh_willow::uwill::ucan::{
    Cid, Command, DelegatedSubject, Delegation, DelegationDraft, DelegationSeal, Ed25519Did,
    Invocation, InvocationDraft, InvocationSeal,
};

type Rule = (u8, String, Vec<u8>, String, u64, u64);
type Terms = ([u8; 32], [u8; 32], Option<[u8; 32]>, Vec<String>, Vec<Rule>, Option<u64>, Option<u64>);
type Argument = (String, u8, Vec<u8>, String, u64);
type Call = ([u8; 32], [u8; 32], [u8; 32], Vec<String>, Vec<Argument>, Vec<Vec<u8>>);
type Token = (Vec<u8>, Vec<u8>);

fn rng_from(seed: u64) -> ChaCha12Rng {
    ChaCha12Rng::seed_from_u64(seed)
}

fn user_secret(rng: &mut ChaCha12Rng) -> UserSecretKey {
    UserSecretKey::from_bytes(&SigningKey::generate(rng).to_bytes())
}

fn keypair(rng: &mut ChaCha12Rng) -> (UserSecretKey, UserId) {
    let secret = user_secret(rng);
    let public = secret.public_key();
    (secret, public.id())
}

// The last bit of the key of an owned namespace is set.
fn namespace_secret(rng: &mut ChaCha12Rng) -> NamespaceSecretKey {
    loop {
        let secret = NamespaceSecretKey::from_bytes(&SigningKey::generate(rng).to_bytes());
        if secret.id().as_bytes()[31] & 1 == 1 {
            return secret;
        }
    }
}

// The identifier of a token names its signature, which fixes the rest of it.
fn cid_of(signature: &[u8]) -> Cid {
    let mut bytes = vec![0x01, 0x71, 0x13, 0x40];
    bytes.extend_from_slice(signature);
    Cid::from_bytes(&bytes).unwrap()
}

fn check_signature(issuer: &[u8; 32], terms: &[u8], signature: &[u8]) -> Result<(), String> {
    let key = VerifyingKey::from_bytes(issuer).map_err(|e| e.to_string())?;
    let signature = Signature::from_slice(signature).map_err(|e| e.to_string())?;
    key.verify(terms, &signature).map_err(|e| e.to_string())
}

fn write_rules(policy: &[Predicate], rules: &mut Vec<Rule>) {
    let name = |select: &Select| match select.filters.as_slice() {
        [Filter::Field(name)] => name.clone(),
        _ => String::new(),
    };
    let number = |n: &Number| match n {
        Number::Integer(i) => *i as u64,
        Number::Float => 0,
    };
    for predicate in policy {
        match predicate {
            Predicate::Equal(s, Ipld::Bytes(b)) => {
                rules.push((0, name(s), b.clone(), String::new(), 0, 0))
            }
            Predicate::Equal(s, Ipld::String(t)) => {
                rules.push((1, name(s), vec![], t.clone(), 0, 0))
            }
            Predicate::GreaterThanOrEqual(s, n) => {
                rules.push((2, name(s), vec![], String::new(), number(n), 0))
            }
            Predicate::LessThanOrEqual(s, n) => {
                rules.push((3, name(s), vec![], String::new(), number(n), 0))
            }
            Predicate::Like(s, pattern) => rules.push((4, name(s), vec![], pattern.clone(), 0, 0)),
            Predicate::Or(arms) => {
                rules.push((5, String::new(), vec![], String::new(), 0, arms.len() as u64));
                write_rules(arms, rules);
            }
            _ => rules.push((6, String::new(), vec![], String::new(), 0, 0)),
        }
    }
}

fn read_rules(rules: &mut std::vec::IntoIter<Rule>, count: usize) -> Vec<Predicate> {
    let mut policy = vec![];
    while policy.len() < count {
        let Some((kind, name, bytes, text, number, arms)) = rules.next() else {
            break;
        };
        let select = field_selector(&name);
        policy.push(match kind {
            0 => Predicate::Equal(select, Ipld::Bytes(bytes)),
            1 => Predicate::Equal(select, Ipld::String(text)),
            2 => Predicate::GreaterThanOrEqual(select, Number::Integer(number as i128)),
            3 => Predicate::LessThanOrEqual(select, Number::Integer(number as i128)),
            4 => Predicate::Like(select, text),
            5 => Predicate::Or(read_rules(rules, arms as usize)),
            _ => Predicate::Other,
        });
    }
    policy
}

// Signs a delegation that is valid in a window of time.
fn sign_delegation_within(
    draft: &DelegationDraft,
    expiration: Option<u64>,
    not_before: Option<u64>,
) -> Result<DelegationSeal, String> {
    let mut rules = vec![];
    write_rules(&draft.policy, &mut rules);
    let subject = match draft.subject {
        DelegatedSubject::Specific(did) => Some(did.bytes),
        DelegatedSubject::Any => None,
    };
    let terms: Terms = (
        draft.issuer.bytes,
        draft.audience.bytes,
        subject,
        draft.command.segments().clone(),
        rules,
        expiration,
        not_before,
    );
    let terms = serde_ipld_dagcbor::to_vec(&terms).map_err(|e| e.to_string())?;
    let signature = SigningKey::from_bytes(&draft.secret).sign(&terms).to_bytes().to_vec();
    Ok(DelegationSeal {
        cid: cid_of(&signature),
        signature_valid: check_signature(&draft.issuer.bytes, &terms, &signature).is_ok(),
        encoded: serde_ipld_dagcbor::to_vec(&(terms, signature)).map_err(|e| e.to_string())?,
    })
}

fn sign_delegation(draft: &DelegationDraft) -> Result<DelegationSeal, String> {
    sign_delegation_within(draft, None, None)
}

fn read_delegation(encoded: &[u8]) -> Result<Delegation, String> {
    let (terms, signature): Token =
        serde_ipld_dagcbor::from_slice(encoded).map_err(|e| e.to_string())?;
    let (issuer, audience, subject, command, rules, expiration, not_before): Terms =
        serde_ipld_dagcbor::from_slice(&terms).map_err(|e| e.to_string())?;
    let top = {
        let (mut count, mut i) = (0, 0);
        while i < rules.len() {
            i = i.saturating_add(1).saturating_add(rules[i].5 as usize);
            count += 1;
        }
        count
    };
    if signature.len() != 64 {
        return Err("signature of another length".to_owned());
    }
    Ok(Delegation {
        issuer: Ed25519Did { bytes: issuer },
        audience: Ed25519Did { bytes: audience },
        subject: match subject {
            Some(bytes) => DelegatedSubject::Specific(Ed25519Did { bytes }),
            None => DelegatedSubject::Any,
        },
        command: Command::new(command),
        policy: read_rules(&mut rules.into_iter(), top),
        expiration,
        not_before,
        cid: cid_of(&signature),
        signature_valid: check_signature(&issuer, &terms, &signature).is_ok(),
        encoded: encoded.to_vec(),
    })
}

// Whether the arguments meet a predicate.
fn holds(predicate: &Predicate, arguments: &Arguments) -> bool {
    let get = |select: &Select| match select.filters.as_slice() {
        [Filter::Field(name)] => arguments.get(name),
        _ => None,
    };
    match predicate {
        Predicate::Equal(s, Ipld::Bytes(b)) => {
            matches!(get(s), Some(Promised::Bytes(v)) if v == b)
        }
        Predicate::Equal(s, Ipld::String(t)) => {
            matches!(get(s), Some(Promised::String(v)) if v == t)
        }
        Predicate::GreaterThanOrEqual(s, Number::Integer(n)) => {
            matches!(get(s), Some(Promised::Integer(v)) if v >= n)
        }
        Predicate::LessThanOrEqual(s, Number::Integer(n)) => {
            matches!(get(s), Some(Promised::Integer(v)) if v <= n)
        }
        Predicate::Like(s, pattern) => match (get(s), pattern.strip_suffix('*')) {
            (Some(Promised::String(v)), Some(start)) => v.starts_with(start),
            (Some(Promised::String(v)), None) => v == pattern,
            _ => false,
        },
        Predicate::Or(arms) => arms.iter().any(|arm| holds(arm, arguments)),
        _ => false,
    }
}

// Checks an invocation against the delegations that prove it: subject, principals,
// commands and policies.
fn check_proofs(
    issuer: &Ed25519Did,
    subject: &Ed25519Did,
    command: &Command,
    arguments: &Arguments,
    proofs: &[Delegation],
) -> Result<(), String> {
    let mut expected = *subject;
    for proof in proofs {
        if !proof.subject.allows(subject) {
            return Err("subject not allowed by proof".to_owned());
        }
        if proof.issuer != expected {
            return Err("invalid proof issuer chain".to_owned());
        }
        if !command.starts_with(&proof.command) {
            return Err("command mismatch".to_owned());
        }
        if !proof.policy.iter().all(|p| holds(p, arguments)) {
            return Err("predicate failed".to_owned());
        }
        expected = proof.audience;
    }
    if *issuer == expected {
        Ok(())
    } else {
        Err("invalid proof issuer chain".to_owned())
    }
}

fn sign_invocation(
    draft: &InvocationDraft,
    proofs: &[Delegation],
) -> Result<InvocationSeal, String> {
    let mut arguments: Vec<Argument> = draft
        .arguments
        .entries()
        .iter()
        .map(|(name, value)| match value {
            Promised::Bytes(b) => (name.clone(), 0, b.clone(), String::new(), 0),
            Promised::String(t) => (name.clone(), 1, vec![], t.clone(), 0),
            Promised::Integer(i) => (name.clone(), 2, vec![], String::new(), *i as u64),
            Promised::Other => (name.clone(), 3, vec![], String::new(), 0),
        })
        .collect();
    arguments.sort();
    let cids: Vec<Vec<u8>> = draft.proofs.iter().map(|cid| cid.to_bytes()).collect();
    let call: Call = (
        draft.issuer.bytes,
        draft.audience.bytes,
        draft.subject.bytes,
        draft.command.segments().clone(),
        arguments,
        cids,
    );
    let terms = serde_ipld_dagcbor::to_vec(&call).map_err(|e| e.to_string())?;
    let signature = SigningKey::from_bytes(&draft.secret).sign(&terms).to_bytes().to_vec();
    Ok(InvocationSeal {
        signature: check_signature(&draft.issuer.bytes, &terms, &signature),
        syntatic_checks: check_proofs(
            &draft.issuer,
            &draft.subject,
            &draft.command,
            &draft.arguments,
            proofs,
        ),
        encoded: serde_ipld_dagcbor::to_vec(&(terms, signature)).map_err(|e| e.to_string())?,
    })
}

fn read_invocation(encoded: &[u8]) -> Result<Invocation, String> {
    let (terms, signature): Token =
        serde_ipld_dagcbor::from_slice(encoded).map_err(|e| e.to_string())?;
    let (issuer, audience, subject, command, arguments, cids): Call =
        serde_ipld_dagcbor::from_slice(&terms).map_err(|e| e.to_string())?;
    let mut read = Arguments::new();
    for (name, kind, bytes, text, number) in arguments {
        let value = match kind {
            0 => Promised::Bytes(bytes),
            1 => Promised::String(text),
            2 => Promised::Integer(number as i128),
            _ => Promised::Other,
        };
        read.insert(&name, value);
    }
    Ok(Invocation {
        issuer: Ed25519Did { bytes: issuer },
        audience: Ed25519Did { bytes: audience },
        subject: Ed25519Did { bytes: subject },
        command: Command::new(command),
        arguments: read,
        proofs: cids.iter().map(|cid| Cid::from_bytes(cid)).collect::<Result<Vec<_>, _>>()?,
        signature: check_signature(&issuer, &terms, &signature),
        encoded: encoded.to_vec(),
    })
}

// Puts together an invocation and its proofs.
fn join(invocation: Invocation, proofs: Vec<Delegation>) -> UWillInvocation {
    let checks = check_proofs(
        &invocation.issuer,
        &invocation.subject,
        &invocation.command,
        &invocation.arguments,
        &proofs,
    );
    UWillInvocation::from_parts(invocation, proofs, checks)
}

fn new_owned(
    namespace: NamespaceId,
    secret: &NamespaceSecretKey,
    user: UserId,
    mode: AccessMode,
) -> Result<UWillChain, ChainError> {
    UWillChain::new_owned(namespace, secret, user, mode, &sign_delegation)
}

fn entry_at(namespace: NamespaceId, subspace: UserId, path: &[&[u8]], timestamp: u64) -> Entry {
    let path = Path::from_bytes(path).unwrap();
    Entry::new(namespace, subspace, path, timestamp, 0, PayloadDigest::default())
}

fn empty_entry(namespace: NamespaceId, subspace: UserId) -> Entry {
    Entry::new(namespace, subspace, Path::new_empty(), 0, 0, PayloadDigest::default())
}

fn subspace_area(user: UserId, path: &[&[u8]]) -> Area {
    Area::new(
        AreaSubspace::Id(user),
        Path::from_bytes(path).unwrap(),
        Range::new(0, RangeEnd::Open),
    )
}

fn path_area(path: &[&[u8]]) -> Area {
    Area::new(AreaSubspace::Any, Path::from_bytes(path).unwrap(), Range::new(0, RangeEnd::Open))
}

// -- new_owned ---------------------------------------------------------------

#[test]
fn new_owned_read_cap() {
    let mut rng = rng_from(42);
    let ns_secret = namespace_secret(&mut rng);
    let ns_id = ns_secret.id();
    let (_, user_id) = keypair(&mut rng);

    let chain =
        new_owned(ns_id, &ns_secret, user_id, AccessMode::Read).expect("new_owned failed");

    assert_eq!(chain.granted_namespace(), ns_id);
    assert_eq!(chain.receiver(), user_id);
    assert_eq!(chain.access_mode(), AccessMode::Read);
    assert!(chain.proves_read());
    assert!(!chain.proves_write());
    assert_eq!(chain.command(), WillowCommand::Read);
    // Full area (empty policy)
    assert!(chain.granted_area().subspace().is_any());
    assert!(chain.granted_area().path().is_empty());
    assert_eq!(chain.delegations().len(), 1);
}

#[test]
fn new_owned_write_cap() {
    let mut rng = rng_from(42);
    let ns_secret = namespace_secret(&mut rng);
    let ns_id = ns_secret.id();
    let (_, user_id) = keypair(&mut rng);

    let chain =
        new_owned(ns_id, &ns_secret, user_id, AccessMode::Write).expect("new_owned failed");

    assert_eq!(chain.granted_namespace(), ns_id);
    assert_eq!(chain.receiver(), user_id);
    assert_eq!(chain.access_mode(), AccessMode::Write);
    assert!(!chain.proves_read());
    assert!(chain.proves_write());
}

#[test]
fn new_communal_rejected() {
    let mut rng = rng_from(42);
    let (_, user_id) = keypair(&mut rng);
    let ns_id = NamespaceId::from([0u8; 32]);

    let result = UWillChain::new_communal(ns_id, user_id, AccessMode::Read);
    assert!(matches!(result, Err(ChainError::CommunalNotSupported)));
}

// -- identifiers as DIDs -----------------------------------------------------

#[test]
fn namespace_id_roundtrips_through_did() {
    let mut rng = rng_from(42);
    let ns_secret = namespace_secret(&mut rng);
    let ns_id = ns_secret.id();
    let (_, user_id) = keypair(&mut rng);

    let chain = new_owned(ns_id, &ns_secret, user_id, AccessMode::Read).unwrap();

    // granted_namespace extracts from sub DID: must be the namespace
    assert_eq!(chain.granted_namespace(), ns_id);
    assert_eq!(chain.granted_namespace().as_bytes(), ns_id.as_bytes());
}

#[test]
fn user_id_roundtrips_through_did() {
    let mut rng = rng_from(42);
    let ns_secret = namespace_secret(&mut rng);
    let ns_id = ns_secret.id();
    let (_, user_id) = keypair(&mut rng);

    let chain = new_owned(ns_id, &ns_secret, user_id, AccessMode::Read).unwrap();

    assert_eq!(chain.receiver(), user_id);
    assert_eq!(chain.receiver().as_bytes(), user_id.as_bytes());
}

#[test]
fn identifiers_off_the_curve_have_no_did() {
    let mut off_curve = [0u8; 32];
    off_curve[0] = 2;
    assert!(VerifyingKey::from_bytes(&off_curve).is_err());
    let error = VerifyingKey::from_bytes(&off_curve).unwrap_err().to_string();
    assert_eq!(user_id_to_ed25519_did(&UserId::from(off_curve)).unwrap_err(), error);
    assert_eq!(namespace_id_to_ed25519_did(&NamespaceId::from(off_curve)).unwrap_err(), error);

    let mut rng = rng_from(42);
    let (_, user_id) = keypair(&mut rng);
    let did = user_id_to_ed25519_did(&user_id).unwrap();
    assert_eq!(ed25519_did_to_user_id(&did), user_id);
    assert_eq!(ed25519_did_to_namespace_id(&did).as_bytes(), user_id.as_bytes());

    let ns_secret = namespace_secret(&mut rng);
    let result = new_owned(
        ns_secret.id(), &ns_secret, UserId::from(off_curve), AccessMode::Read,
    );
    assert!(matches!(result, Err(ChainError::InvalidKey(text)) if text == error));
    let result = new_owned(
        NamespaceId::from(off_curve), &ns_secret, user_id, AccessMode::Read,
    );
    assert!(matches!(result, Err(ChainError::InvalidKey(_))));
}

// -- delegate ----------------------------------------------------------------

#[test]
fn delegate_narrows_area() {
    let mut rng = rng_from(42);
    let ns_secret = namespace_secret(&mut rng);
    let ns_id = ns_secret.id();
    let (owner_secret, owner_id) = keypair(&mut rng);
    let (_, delegate_id) = keypair(&mut rng);

    let root = new_owned(ns_id, &ns_secret, owner_id, AccessMode::Read).unwrap();

    let restricted_area = subspace_area(delegate_id, &[]);

    let delegated = root
        .delegate(&owner_secret, &delegate_id, &restricted_area, &sign_delegation)
        .expect("delegate failed");

    assert_eq!(delegated.granted_namespace(), ns_id);
    assert_eq!(delegated.receiver(), delegate_id);
    assert!(delegated.granted_area().subspace() == restricted_area.subspace());
    assert_eq!(delegated.delegations().len(), 2);
    assert_eq!(delegated.command(), WillowCommand::Read);
}

#[test]
fn delegate_preserves_namespace() {
    let mut rng = rng_from(42);
    let ns_secret = namespace_secret(&mut rng);
    let ns_id = ns_secret.id();

    let (bob_secret, bob_id) = keypair(&mut rng);
    let (_, carol_id) = keypair(&mut rng);

    // namespace owner to bob to carol: namespace stays the same
    let to_bob = new_owned(ns_id, &ns_secret, bob_id, AccessMode::Write).unwrap();
    let to_carol =
        to_bob.delegate(&bob_secret, &carol_id, &Area::new_full(), &sign_delegation).unwrap();

    assert_eq!(to_bob.granted_namespace(), ns_id);
    assert_eq!(to_carol.granted_namespace(), ns_id);
    assert_eq!(to_carol.delegations().len(), 2);
}

#[test]
fn delegate_chain_three_levels() {
    let mut rng = rng_from(42);
    let ns_secret = namespace_secret(&mut rng);
    let ns_id = ns_secret.id();

    let (alice_secret, alice_id) = keypair(&mut rng);
    let (bob_secret, bob_id) = keypair(&mut rng);
    let (_, carol_id) = keypair(&mut rng);

    // namespace owner to alice (full area)
    let to_alice = new_owned(ns_id, &ns_secret, alice_id, AccessMode::Read).unwrap();

    // alice to bob (restricted to bob's subspace)
    let bob_area = subspace_area(bob_id, &[]);
    let to_bob = to_alice.delegate(&alice_secret, &bob_id, &bob_area, &sign_delegation).unwrap();

    // bob to carol (same area, further delegation)
    let to_carol = to_bob.delegate(&bob_secret, &carol_id, &bob_area, &sign_delegation).unwrap();

    assert_eq!(to_carol.granted_namespace(), ns_id);
    assert_eq!(to_carol.receiver(), carol_id);
    assert_eq!(to_carol.delegations().len(), 3);
    assert!(*to_carol.granted_area().subspace() == AreaSubspace::Id(bob_id));
}

#[test]
fn delegate_rejects_area_widening() {
    let mut rng = rng_from(42);
    let ns_secret = namespace_secret(&mut rng);
    let ns_id = ns_secret.id();

    let (alice_secret, alice_id) = keypair(&mut rng);
    let (bob_secret, bob_id) = keypair(&mut rng);
    let (_, carol_id) = keypair(&mut rng);

    // namespace owner to alice (full area)
    let to_alice = new_owned(ns_id, &ns_secret, alice_id, AccessMode::Read).unwrap();

    // alice to bob (restricted to bob's subspace)
    let bob_area = subspace_area(bob_id, &[]);
    let to_bob = to_alice.delegate(&alice_secret, &bob_id, &bob_area, &sign_delegation).unwrap();

    // bob to carol (full area): should fail, can't widen
    let result = to_bob.delegate(&bob_secret, &carol_id, &Area::new_full(), &sign_delegation);
    assert!(matches!(result, Err(ChainError::AreaWidening { .. })));
}

#[test]
fn only_the_receiver_can_delegate() {
    let mut rng = rng_from(43);
    let ns_secret = namespace_secret(&mut rng);
    let (_, alice_id) = keypair(&mut rng);
    let (mallory_secret, mallory_id) = keypair(&mut rng);

    let to_alice = new_owned(ns_secret.id(), &ns_secret, alice_id, AccessMode::Read).unwrap();
    let result =
        to_alice.delegate(&mallory_secret, &mallory_id, &Area::new_full(), &sign_delegation);
    assert!(matches!(result, Err(ChainError::PrincipalMismatch { step: 0, next: 1 })));
}

#[test]
fn a_failed_signing_is_reported() {
    let mut rng = rng_from(43);
    let ns_secret = namespace_secret(&mut rng);
    let (alice_secret, alice_id) = keypair(&mut rng);
    let refuse = |_: &DelegationDraft| -> Result<DelegationSeal, String> { Err("no".to_owned()) };
    let result =
        UWillChain::new_owned(ns_secret.id(), &ns_secret, alice_id, AccessMode::Read, &refuse);
    let error = result.unwrap_err();
    assert!(matches!(&error, ChainError::DelegationBuild(text) if text == "no"));
    assert_eq!(error.message(), "delegation build failed: no");

    let chain = new_owned(ns_secret.id(), &ns_secret, alice_id, AccessMode::Write).unwrap();
    let refuse = |_: &InvocationDraft, _: &[Delegation]| -> Result<InvocationSeal, String> {
        Err("no".to_owned())
    };
    let entry = empty_entry(ns_secret.id(), alice_id);
    let result = build_write_invocation(&entry, &chain, &alice_secret, &refuse);
    assert_eq!(result.unwrap_err().message(), "invocation build failed: no");
    let result = chain.authorisation_token(&entry, &alice_secret, &refuse);
    assert_eq!(
        result.unwrap_err().message(),
        "delegation build failed: invocation build failed: no"
    );
}

// -- expiry ------------------------------------------------------------------

#[test]
fn expiry_check() {
    let mut rng = rng_from(42);
    let ns_secret = namespace_secret(&mut rng);
    let ns_id = ns_secret.id();
    let (_, user_id) = keypair(&mut rng);

    let chain = new_owned(ns_id, &ns_secret, user_id, AccessMode::Read).unwrap();

    // No expiry set: never expired
    assert!(!chain.is_expired(u64::MAX));
    assert!(!chain.is_not_yet_valid(0));
}

#[test]
fn clocks_may_drift_by_a_minute() {
    let mut rng = rng_from(44);
    let ns_secret = namespace_secret(&mut rng);
    let (_, user_id) = keypair(&mut rng);
    let draft = UWillChain::root_draft(
        ns_secret.id(), &ns_secret, user_id, WillowCommand::Read,
    ).unwrap();
    let seal = sign_delegation_within(&draft, Some(1000), Some(500)).unwrap();
    let mut delegation = draft.seal(seal);
    delegation.expiration = Some(1000);
    delegation.not_before = Some(500);
    let chain = UWillChain::from_single(delegation.clone()).unwrap();

    assert!(!chain.is_expired(1060));
    assert!(chain.is_expired(1061));
    assert!(chain.is_not_yet_valid(439));
    assert!(!chain.is_not_yet_valid(440));
    assert!(!chain.is_not_yet_valid(u64::MAX));

    // The end of all times is not passed.
    delegation.expiration = Some(u64::MAX);
    let chain = UWillChain::from_single(delegation).unwrap();
    assert!(!chain.is_expired(u64::MAX));
}

// -- authorisation_token -----------------------------------------------------

#[test]
fn authorisation_token_requires_write() {
    let mut rng = rng_from(42);
    let ns_secret = namespace_secret(&mut rng);
    let ns_id = ns_secret.id();
    let (user_secret, user_id) = keypair(&mut rng);

    let read_chain = new_owned(ns_id, &ns_secret, user_id, AccessMode::Read).unwrap();

    // Create a dummy entry
    let entry = empty_entry(ns_id, user_id);

    let result = read_chain.authorisation_token(&entry, &user_secret, &sign_invocation);
    assert!(matches!(result, Err(ChainError::NotWriteCapability)));
}

#[test]
fn authorisation_token_for_write_cap() {
    let mut rng = rng_from(42);
    let ns_secret = namespace_secret(&mut rng);
    let ns_id = ns_secret.id();
    let (user_secret, user_id) = keypair(&mut rng);

    let write_chain = new_owned(ns_id, &ns_secret, user_id, AccessMode::Write).unwrap();

    let entry = empty_entry(ns_id, user_id);

    let token = write_chain
        .authorisation_token(&entry, &user_secret, &sign_invocation)
        .expect("authorisation_token failed");

    assert!(token.verify_signature());
    assert_eq!(token.capability().granted_namespace(), ns_id);
}

// -- encoded chains ----------------------------------------------------------

// The encoded delegations of a chain.
fn encoded_chain(chain: &UWillChain) -> Vec<Vec<u8>> {
    chain.delegations().iter().map(|d| d.encoded.clone()).collect()
}

fn read_chain(encoded: Vec<Vec<u8>>) -> Result<UWillChainRaw, String> {
    let delegations = encoded.iter().map(|d| read_delegation(d)).collect::<Result<Vec<_>, _>>()?;
    Ok(UWillChainRaw::from_delegations(delegations))
}

#[test]
fn dagcbor_serde_roundtrip() {
    let mut rng = rng_from(42);
    let ns_secret = namespace_secret(&mut rng);
    let ns_id = ns_secret.id();
    let (_, user_id) = keypair(&mut rng);

    let chain = new_owned(ns_id, &ns_secret, user_id, AccessMode::Read).unwrap();

    let bytes = serde_ipld_dagcbor::to_vec(&encoded_chain(&chain)).expect("serialize failed");
    let raw = read_chain(serde_ipld_dagcbor::from_slice(&bytes).expect("deserialize failed"));
    let decoded = UWillChain::from_chain(raw.expect("deserialize failed")).unwrap();

    assert_eq!(decoded.granted_namespace(), chain.granted_namespace());
    assert_eq!(decoded.receiver(), chain.receiver());
    assert_eq!(decoded.command(), chain.command());
    assert!(decoded.granted_area() == chain.granted_area());
}

// -- is_authorised_write -----------------------------------------------------

#[test]
fn is_authorised_write_verifies_signature() {
    let mut rng = rng_from(42);
    let ns_secret = namespace_secret(&mut rng);
    let ns_id = ns_secret.id();
    let (user_secret, user_id) = keypair(&mut rng);

    let write_chain = new_owned(ns_id, &ns_secret, user_id, AccessMode::Write).unwrap();

    let entry = empty_entry(ns_id, user_id);

    let token = write_chain.authorisation_token(&entry, &user_secret, &sign_invocation).unwrap();

    // Verification should pass
    assert!(token.is_authorised_write(&entry));
    assert!(is_authorised_write(&entry, &token));

    // A signature that does not hold is refused.
    let mut invocation = token.invocation().clone();
    invocation.signature = Err("signature error".to_owned());
    let forged =
        UWillInvocation::from_parts(invocation, token.resolved_proofs().to_vec(), Ok(()));
    assert!(!forged.verify_signature());
    assert!(!forged.is_authorised_write(&entry));
    let error = forged.validate_write(&entry).unwrap_err();
    assert_eq!(error.message(), "signature verification failed: signature error");
}

#[test]
fn is_authorised_write_after_dagcbor_roundtrip() {
    let mut rng = rng_from(42);
    let ns_secret = namespace_secret(&mut rng);
    let ns_id = ns_secret.id();
    let (user_secret, user_id) = keypair(&mut rng);

    let write_chain = new_owned(ns_id, &ns_secret, user_id, AccessMode::Write).unwrap();

    let entry = empty_entry(ns_id, user_id);

    let token = write_chain.authorisation_token(&entry, &user_secret, &sign_invocation).unwrap();

    // Roundtrip through DAG-CBOR
    let encoded = (&token.invocation().encoded, encoded_chain(&token.capability()));
    let bytes = serde_ipld_dagcbor::to_vec(&encoded).expect("serialize");
    let (invocation, proofs): (Vec<u8>, Vec<Vec<u8>>) =
        serde_ipld_dagcbor::from_slice(&bytes).expect("deserialize");
    let decoded = join(
        read_invocation(&invocation).expect("deserialize"),
        read_chain(proofs).expect("deserialize").delegations().to_vec(),
    );

    assert!(decoded.is_authorised_write(&entry));
}

#[test]
fn is_authorised_write_after_wire_roundtrip() {
    // Static token: proofs, bound once. Dynamic token: invocation, per entry.
    let mut rng = rng_from(42);
    let ns_secret = namespace_secret(&mut rng);
    let ns_id = ns_secret.id();
    let (user_secret, user_id) = keypair(&mut rng);

    let write_chain = new_owned(ns_id, &ns_secret, user_id, AccessMode::Write).unwrap();

    let entry = empty_entry(ns_id, user_id);

    let token = write_chain.authorisation_token(&entry, &user_secret, &sign_invocation).unwrap();

    // The sender takes the token apart.
    let static_token = SerdeMcCapability::from(token.capability());
    let dynamic_token = SerdeInvocation::from(token.invocation().clone());

    // Both go over the wire.
    let static_bytes =
        postcard::to_allocvec(&encoded_chain(&static_token.0)).expect("static serialize");
    let dynamic_bytes =
        postcard::to_allocvec(&dynamic_token.0.encoded).expect("dynamic serialize");

    let raw = read_chain(postcard::from_bytes(&static_bytes).expect("static deserialize"));
    let decoded_static =
        SerdeMcCapability(UWillChain::from_chain(raw.expect("static deserialize")).unwrap());
    let encoded: Vec<u8> = postcard::from_bytes(&dynamic_bytes).expect("dynamic deserialize");
    let decoded_dynamic = SerdeInvocation(read_invocation(&encoded).expect("dynamic deserialize"));

    // The receiver puts it together.
    let reconstructed = join(decoded_dynamic.0, decoded_static.0.delegations().to_vec());

    assert!(reconstructed.is_authorised_write(&entry));
}

#[test]
fn is_authorised_write_rejects_wrong_subspace() {
    let mut rng = rng_from(42);
    let ns_secret = namespace_secret(&mut rng);
    let ns_id = ns_secret.id();
    let (alice_secret, alice_id) = keypair(&mut rng);
    let (_, bob_id) = keypair(&mut rng);

    // Restricted to alice's subspace
    let root = new_owned(ns_id, &ns_secret, alice_id, AccessMode::Write).unwrap();
    let restricted = root
        .delegate(&alice_secret, &alice_id, &subspace_area(alice_id, &[]), &sign_delegation)
        .unwrap();

    let entry = empty_entry(ns_id, alice_id);

    let token = restricted.authorisation_token(&entry, &alice_secret, &sign_invocation).unwrap();

    // Entry in bob's subspace: should be rejected
    let other_entry = empty_entry(ns_id, bob_id);

    assert!(token.is_authorised_write(&entry));
    assert!(!token.is_authorised_write(&other_entry));
}

// -- root issuer and subjects ------------------------------------------------

// A signed delegation of the whole namespace to read.
fn read_delegation_from(
    issuer: &UserSecretKey,
    audience: Ed25519Did,
    subject: DelegatedSubject,
) -> Delegation {
    let draft = DelegationDraft {
        secret: issuer.to_bytes(),
        issuer: user_id_to_ed25519_did(&issuer.public_key().id()).unwrap(),
        audience,
        subject,
        command: WillowCommand::Read.to_ucan_command(),
        policy: vec![],
    };
    let seal = sign_delegation(&draft).unwrap();
    draft.seal(seal)
}

#[test]
fn from_chain_rejects_wrong_root_issuer() {
    // A delegation where issuer != subject: someone other than the namespace owner
    // signs the root. This should be rejected.
    let mut rng = rng_from(42);
    let ns_secret = namespace_secret(&mut rng);
    let ns_id = ns_secret.id();
    let (alice_secret, alice_id) = keypair(&mut rng);

    // Alice (not the namespace owner) signs a root delegation claiming
    // namespace ns_id as subject.
    let ns_did = namespace_id_to_ed25519_did(&ns_id).unwrap();
    let alice_did = user_id_to_ed25519_did(&alice_id).unwrap();
    let delegation =
        read_delegation_from(&alice_secret, alice_did, DelegatedSubject::Specific(ns_did));

    let result = UWillChain::from_chain(UWillChainRaw::from_delegations(vec![delegation]));
    assert!(
        matches!(result, Err(ChainError::RootIssuerMismatch)),
        "expected RootIssuerMismatch, got {result:?}"
    );
}

#[test]
fn from_chain_rejects_subject_mismatch() {
    // A two-delegation chain where the second delegation has a different specific
    // subject than the first.
    let mut rng = rng_from(42);
    let ns_secret = namespace_secret(&mut rng);
    let ns_id = ns_secret.id();
    let (alice_secret, alice_id) = keypair(&mut rng);

    // Valid root: namespace owner to Alice
    let root_chain = new_owned(ns_id, &ns_secret, alice_id, AccessMode::Read).unwrap();

    // Alice builds a delegation with a DIFFERENT namespace as subject
    let other_ns_secret = namespace_secret(&mut rng);
    let other_ns_did = namespace_id_to_ed25519_did(&other_ns_secret.id()).unwrap();
    let (_, bob_id) = keypair(&mut rng);
    let bob_did = user_id_to_ed25519_did(&bob_id).unwrap();

    let bad_delegation =
        read_delegation_from(&alice_secret, bob_did, DelegatedSubject::Specific(other_ns_did));

    let mut delegations = root_chain.delegations().to_vec();
    delegations.push(bad_delegation);

    let result = UWillChain::from_chain(UWillChainRaw::from_delegations(delegations));
    assert!(
        matches!(result, Err(ChainError::SubjectMismatch { .. })),
        "expected SubjectMismatch, got {result:?}"
    );
}

#[test]
fn chains_are_refused_for_each_reason() {
    let mut rng = rng_from(45);
    let ns_secret = namespace_secret(&mut rng);
    let ns_id = ns_secret.id();
    let (alice_secret, alice_id) = keypair(&mut rng);
    let (_, bob_id) = keypair(&mut rng);
    let root = new_owned(ns_id, &ns_secret, alice_id, AccessMode::Read).unwrap();
    let chain = root
        .delegate(&alice_secret, &bob_id, &path_area(&[b"data"]), &sign_delegation)
        .unwrap();
    let good = chain.delegations().to_vec();
    let refusal = |delegations: Vec<Delegation>| {
        UWillChain::from_chain(UWillChainRaw::from_delegations(delegations)).unwrap_err()
    };

    let error = refusal(vec![]);
    assert!(matches!(error, ChainError::Empty));
    assert_eq!(error.message(), "empty delegation chain");

    let mut bad = good.clone();
    bad[1].signature_valid = false;
    let error = refusal(bad);
    assert!(matches!(error, ChainError::InvalidSignature { step: 1 }));
    assert_eq!(error.message(), "invalid delegation signature at step 1");

    let mut bad = good.clone();
    bad[1].command = Command::new(vec!["crud".to_owned()]);
    let error = refusal(bad);
    assert!(matches!(error, ChainError::NoWillowCommand));
    assert_eq!(error.message(), "no Willow command found in delegation");

    let mut bad = good.clone();
    bad[1].command = WillowCommand::Write.to_ucan_command();
    let error = refusal(bad);
    assert!(matches!(error, ChainError::CommandWidening { .. }));
    assert_eq!(
        error.message(),
        "command widening: child command /willow/write does not start with parent /willow/read"
    );

    let mut bad = good.clone();
    bad[1].policy = vec![Predicate::Or(vec![
        Predicate::Equal(field_selector(WIL_PATH), Ipld::Bytes(vec![1])),
    ])];
    let error = refusal(bad);
    assert!(matches!(error, ChainError::AreaExtract(AreaExtractError::InvalidPath(_))));
    assert!(error.message().starts_with("area extraction failed: "));

    let mut bad = good.clone();
    bad[0].policy = area_to_predicates(&path_area(&[b"other"]));
    let error = refusal(bad);
    assert!(matches!(error, ChainError::AreaWidening { step: 1 }));
    assert_eq!(error.message(), "area widening detected at delegation step 1");

    let mut bad = good.clone();
    bad[1].issuer = bad[1].audience;
    let error = refusal(bad);
    assert!(matches!(error, ChainError::PrincipalMismatch { step: 0, next: 1 }));
    assert_eq!(
        error.message(),
        "principal misalignment: aud of step 0 does not match iss of step 1"
    );

    let mut bad = good.clone();
    bad[0].issuer = bad[0].audience;
    let error = refusal(bad);
    assert_eq!(
        error.message(),
        "root delegation issuer does not match subject (namespace owner must sign root)"
    );

    let mut bad = good.clone();
    bad[1].subject = DelegatedSubject::Specific(bad[1].issuer);
    let error = refusal(bad);
    assert_eq!(error.message(), "subject mismatch at delegation step 1");

    // A chain without a subject is about no namespace.
    let mut powerline = good;
    powerline[0].subject = DelegatedSubject::Any;
    powerline[1].subject = DelegatedSubject::Any;
    let chain = UWillChain::from_chain(UWillChainRaw::from_delegations(powerline)).unwrap();
    assert_eq!(chain.granted_namespace(), NamespaceId::from([0u8; 32]));
}

#[test]
fn the_start_of_a_chain_is_a_chain() {
    let mut rng = rng_from(46);
    let ns_secret = namespace_secret(&mut rng);
    let (alice_secret, alice_id) = keypair(&mut rng);
    let (bob_secret, bob_id) = keypair(&mut rng);
    let root = UWillChain::build_root_delegation(
        ns_secret.id(), &ns_secret, alice_id, WillowCommand::Full, &sign_delegation,
    ).unwrap();
    let to_bob = root
        .delegate(&alice_secret, &bob_id, &path_area(&[b"a"]), &sign_delegation)
        .unwrap();
    let to_alice = to_bob
        .delegate(&bob_secret, &alice_id, &path_area(&[b"a", b"b"]), &sign_delegation)
        .unwrap();

    let delegations = to_alice.into_chain().delegations().to_vec();
    for len in 1..=3 {
        let start = UWillChainRaw::from_delegations(delegations[..len].to_vec());
        let chain = UWillChain::from_chain(start).unwrap();
        assert_eq!(chain.delegation_cids().len(), len);
        assert!(root.granted_area().includes_area(chain.granted_area()));
    }
}

#[test]
fn equal_chains_grant_the_same() {
    let mut rng = rng_from(47);
    let ns_secret = namespace_secret(&mut rng);
    let (alice_secret, alice_id) = keypair(&mut rng);
    let (_, bob_id) = keypair(&mut rng);
    let root = new_owned(ns_secret.id(), &ns_secret, alice_id, AccessMode::Read).unwrap();
    let again =
        root.delegate(&alice_secret, &alice_id, &Area::new_full(), &sign_delegation).unwrap();

    // The number of steps does not matter.
    assert!(root == again);
    assert!(root == root.clone());
    assert!(root != root.delegate(
        &alice_secret, &alice_id, &path_area(&[b"a"]), &sign_delegation,
    ).unwrap());
    assert!(root != root.delegate(
        &alice_secret, &bob_id, &Area::new_full(), &sign_delegation,
    ).unwrap());
    assert!(root != new_owned(ns_secret.id(), &ns_secret, alice_id, AccessMode::Write).unwrap());
    let other = namespace_secret(&mut rng);
    assert!(root != new_owned(other.id(), &other, alice_id, AccessMode::Read).unwrap());

    // Fewer delegations are wider, and so is a strictly larger area.
    let narrow =
        root.delegate(&alice_secret, &alice_id, &path_area(&[b"a"]), &sign_delegation).unwrap();
    assert!(is_wider_than(&root, &again));
    assert!(!is_wider_than(&again, &root));
    assert!(!is_wider_than(&root, &root));
    assert!(is_wider_than(&root, &narrow));
    assert!(is_wider_than(&again, &narrow));
    assert!(!is_wider_than(&narrow, &root));
}

#[test]
fn receivers_have_public_keys() {
    let mut rng = rng_from(48);
    let ns_secret = namespace_secret(&mut rng);
    let (_, alice_id) = keypair(&mut rng);
    let chain = new_owned(ns_secret.id(), &ns_secret, alice_id, AccessMode::Read).unwrap();
    assert_eq!(chain.receiver_public_key().unwrap().id(), alice_id);

    let mut off_curve = [0u8; 32];
    off_curve[0] = 2;
    let mut delegation = chain.delegations()[0].clone();
    delegation.audience = Ed25519Did { bytes: off_curve };
    let chain = UWillChain::from_single(delegation).unwrap();
    assert!(chain.receiver_public_key().is_none());
}

// -- write invocations -------------------------------------------------------

#[test]
fn build_and_validate_write_invocation() {
    let mut rng = rng_from(300);
    let ns_secret = namespace_secret(&mut rng);
    let ns_id = ns_secret.id();
    let (alice_secret, alice_id) = keypair(&mut rng);

    let chain = new_owned(ns_id, &ns_secret, alice_id, AccessMode::Write).unwrap();

    let entry = entry_at(ns_id, alice_id, &[b"test"], 1_700_000_000);

    let inv = build_write_invocation(&entry, &chain, &alice_secret, &sign_invocation).unwrap();

    assert!(inv.verify_signature());
    assert!(inv.validate_write(&entry).is_ok());
}

// -- revocations -------------------------------------------------------------

#[test]
fn build_and_validate_revoke_invocation() {
    let mut rng = rng_from(301);
    let ns_secret = namespace_secret(&mut rng);
    let ns_id = ns_secret.id();
    let (_, alice_id) = keypair(&mut rng);

    let chain = new_owned(ns_id, &ns_secret, alice_id, AccessMode::Read).unwrap();

    let delegation_cid = chain.delegations()[0].to_cid();

    let inv = build_revoke_invocation(
        delegation_cid.clone(), &chain, &ns_secret.to_bytes(), &sign_invocation,
    ).unwrap();

    assert!(inv.verify_signature());
    let revoked_cid = inv.validate_revoke().unwrap();
    assert!(revoked_cid == delegation_cid);
}

#[test]
fn revoke_invocation_rejects_unauthorized() {
    let mut rng = rng_from(302);
    let ns_secret = namespace_secret(&mut rng);
    let ns_id = ns_secret.id();
    let (_, alice_id) = keypair(&mut rng);

    let chain = new_owned(ns_id, &ns_secret, alice_id, AccessMode::Read).unwrap();

    let delegation_cid = chain.delegations()[0].to_cid();

    // Outsider tries to revoke
    let outsider_key = SigningKey::generate(&mut rng);
    let inv = build_revoke_invocation(
        delegation_cid, &chain, &outsider_key.to_bytes(), &sign_invocation,
    ).unwrap();

    assert!(inv.verify_signature()); // signature is valid
    let result = inv.validate_revoke();
    assert!(matches!(result, Err(InvocationError::Unauthorized)));
}

// -- read invocations --------------------------------------------------------

#[test]
fn build_and_validate_read_invocation() {
    let mut rng = rng_from(400);
    let ns_secret = namespace_secret(&mut rng);
    let ns_id = ns_secret.id();
    let (alice_secret, alice_id) = keypair(&mut rng);

    let chain = new_owned(ns_id, &ns_secret, alice_id, AccessMode::Read).unwrap();

    let challenge = [42u8; 32];
    let inv = build_read_invocation(&challenge, &chain, &alice_secret, &sign_invocation).unwrap();

    let result = inv.validate_read_proof(&challenge);
    assert!(result.is_ok(), "valid read proof: {result:?}");
    let validated_chain = result.unwrap();
    assert_eq!(validated_chain.granted_namespace(), ns_id);
    assert_eq!(validated_chain.receiver(), alice_id);
}

#[test]
fn read_invocation_wrong_challenge_rejected() {
    let mut rng = rng_from(401);
    let ns_secret = namespace_secret(&mut rng);
    let ns_id = ns_secret.id();
    let (alice_secret, alice_id) = keypair(&mut rng);

    let chain = new_owned(ns_id, &ns_secret, alice_id, AccessMode::Read).unwrap();

    let challenge = [42u8; 32];
    let wrong_challenge = [99u8; 32];
    let inv = build_read_invocation(&challenge, &chain, &alice_secret, &sign_invocation).unwrap();

    let result = inv.validate_read_proof(&wrong_challenge);
    assert!(matches!(result, Err(InvocationError::ChallengeMismatch)));
}

#[test]
fn read_invocation_wrong_signer_rejected() {
    let mut rng = rng_from(402);
    let ns_secret = namespace_secret(&mut rng);
    let ns_id = ns_secret.id();
    let (_, alice_id) = keypair(&mut rng);
    let mallory_secret = user_secret(&mut rng);

    let chain = new_owned(ns_id, &ns_secret, alice_id, AccessMode::Read).unwrap();

    let challenge = [42u8; 32];
    // Mallory signs with her key but Alice's chain
    let inv = build_read_invocation(&challenge, &chain, &mallory_secret, &sign_invocation).unwrap();

    let result = inv.validate_read_proof(&challenge);
    assert!(result.is_err(), "wrong signer should fail: {result:?}");
}

// -- enumerate invocations ---------------------------------------------------

#[test]
fn build_and_validate_enumerate_invocation() {
    let mut rng = rng_from(410);
    let ns_secret = namespace_secret(&mut rng);
    let ns_id = ns_secret.id();
    let (alice_secret, alice_id) = keypair(&mut rng);

    let chain = UWillChain::new_enumerate(ns_id, &ns_secret, alice_id, &sign_delegation).unwrap();

    let challenge = [7u8; 32];
    let inv =
        build_enumerate_invocation(&challenge, &chain, &alice_secret, &sign_invocation).unwrap();

    let result = inv.validate_enumerate_proof(&challenge);
    assert!(result.is_ok(), "valid enumerate proof: {result:?}");
}

#[test]
fn enumerate_invocation_not_accepted_as_read() {
    let mut rng = rng_from(411);
    let ns_secret = namespace_secret(&mut rng);
    let ns_id = ns_secret.id();
    let (alice_secret, alice_id) = keypair(&mut rng);

    let chain = UWillChain::new_enumerate(ns_id, &ns_secret, alice_id, &sign_delegation).unwrap();

    let challenge = [7u8; 32];
    let inv =
        build_enumerate_invocation(&challenge, &chain, &alice_secret, &sign_invocation).unwrap();

    // Enumerate proof should NOT validate as read proof
    let result = inv.validate_read_proof(&challenge);
    assert!(result.is_err());
}

// -- full command chains -----------------------------------------------------

#[test]
fn full_command_chain_proves_read() {
    let mut rng = rng_from(420);
    let ns_secret = namespace_secret(&mut rng);
    let ns_id = ns_secret.id();
    let (alice_secret, alice_id) = keypair(&mut rng);

    // Full command chain (willow) should accept read invocation
    let chain = new_owned(ns_id, &ns_secret, alice_id, AccessMode::Write).unwrap();
    assert_eq!(chain.command(), WillowCommand::Write);

    // Write chain does NOT prove read
    let challenge = [1u8; 32];
    let inv = build_read_invocation(&challenge, &chain, &alice_secret, &sign_invocation).unwrap();
    let result = inv.validate_read_proof(&challenge);
    assert!(result.is_err(), "write chain should not prove read");

    // Now use a Full chain (build directly)
    let full_chain = UWillChain::build_root_delegation(
        ns_id, &ns_secret, alice_id, WillowCommand::Full, &sign_delegation,
    ).unwrap();

    let inv =
        build_read_invocation(&challenge, &full_chain, &alice_secret, &sign_invocation).unwrap();
    let result = inv.validate_read_proof(&challenge);
    assert!(result.is_ok(), "Full chain should prove read: {result:?}");
}

#[test]
fn full_command_chain_proves_enumerate() {
    let mut rng = rng_from(421);
    let ns_secret = namespace_secret(&mut rng);
    let ns_id = ns_secret.id();
    let (alice_secret, alice_id) = keypair(&mut rng);

    let full_chain = UWillChain::build_root_delegation(
        ns_id, &ns_secret, alice_id, WillowCommand::Full, &sign_delegation,
    ).unwrap();

    let challenge = [2u8; 32];
    let inv = build_enumerate_invocation(&challenge, &full_chain, &alice_secret, &sign_invocation)
        .unwrap();
    let result = inv.validate_enumerate_proof(&challenge);
    assert!(result.is_ok(), "Full chain should prove enumerate: {result:?}");
}

// -- areas -------------------------------------------------------------------

#[test]
fn write_invocation_entry_outside_area_rejected() {
    let mut rng = rng_from(430);
    let ns_secret = namespace_secret(&mut rng);
    let ns_id = ns_secret.id();
    let (alice_secret, alice_id) = keypair(&mut rng);
    let (_, bob_id) = keypair(&mut rng);

    let root = new_owned(ns_id, &ns_secret, alice_id, AccessMode::Write).unwrap();
    let restricted = root
        .delegate(&alice_secret, &alice_id, &subspace_area(alice_id, &[b"data"]), &sign_delegation)
        .unwrap();

    let good_entry = entry_at(ns_id, alice_id, &[b"data", b"file"], 0);
    let bad_entry = empty_entry(ns_id, bob_id);

    let good_inv =
        build_write_invocation(&good_entry, &restricted, &alice_secret, &sign_invocation).unwrap();
    assert!(good_inv.validate_write(&good_entry).is_ok());
    assert!(
        matches!(good_inv.validate_write(&bad_entry), Err(InvocationError::EntryOutsideArea)),
        "entry in wrong subspace should be rejected"
    );
}

#[test]
fn syntatic_checks_passes_for_read_invocation() {
    let mut rng = rng_from(440);
    let ns_secret = namespace_secret(&mut rng);
    let ns_id = ns_secret.id();
    let (alice_secret, alice_id) = keypair(&mut rng);

    let root = new_owned(ns_id, &ns_secret, alice_id, AccessMode::Read).unwrap();
    let restricted = root
        .delegate(&alice_secret, &alice_id, &subspace_area(alice_id, &[b"msgs"]), &sign_delegation)
        .unwrap();

    let challenge = [5u8; 32];
    let inv =
        build_read_invocation(&challenge, &restricted, &alice_secret, &sign_invocation).unwrap();

    // syntatic_checks should pass (area predicates match)
    assert!(inv.run_syntatic_checks().is_ok());
    assert!(inv.validate_read_proof(&challenge).is_ok());
}

#[test]
fn multi_level_path_narrowing_passes() {
    let mut rng = rng_from(450);
    let ns_secret = namespace_secret(&mut rng);
    let ns_id = ns_secret.id();
    let (alice_secret, alice_id) = keypair(&mut rng);
    let (bob_secret, bob_id) = keypair(&mut rng);

    // Root to alice (restricted to "data") to bob (restricted to "data/msgs")
    let root = new_owned(ns_id, &ns_secret, alice_id, AccessMode::Read).unwrap();
    let alice_chain = root
        .delegate(&alice_secret, &alice_id, &path_area(&[b"data"]), &sign_delegation)
        .unwrap();
    let bob_chain = alice_chain
        .delegate(&alice_secret, &bob_id, &path_area(&[b"data", b"msgs"]), &sign_delegation)
        .unwrap();

    let challenge = [3u8; 32];
    let inv = build_read_invocation(&challenge, &bob_chain, &bob_secret, &sign_invocation).unwrap();

    // syntatic_checks should pass: Or(Equal, Like) handles multi-level narrowing
    let result = inv.validate_read_proof(&challenge);
    assert!(result.is_ok(), "multi-level path narrowing: {result:?}");
}

// -- proof binding -----------------------------------------------------------

#[test]
fn swapped_delegations_rejected() {
    // A valid invocation, with the resolved delegations of a different chain. The
    // signed proof identifiers don't match.
    let mut rng = rng_from(460);
    let ns_secret = namespace_secret(&mut rng);
    let ns_id = ns_secret.id();
    let (alice_secret, alice_id) = keypair(&mut rng);

    let chain = new_owned(ns_id, &ns_secret, alice_id, AccessMode::Write).unwrap();

    let entry = entry_at(ns_id, alice_id, &[b"test"], 0);

    let inv = build_write_invocation(&entry, &chain, &alice_secret, &sign_invocation).unwrap();
    // Valid invocation works
    assert!(inv.validate_write(&entry).is_ok());

    // Now build a different chain and swap the delegations
    let other_ns_secret = namespace_secret(&mut rng);
    let other_chain =
        new_owned(other_ns_secret.id(), &other_ns_secret, alice_id, AccessMode::Write).unwrap();

    let tampered = UWillInvocation::from_parts(
        inv.invocation().clone(),
        other_chain.delegations().to_vec(),
        Ok(()),
    );
    let result = tampered.validate_write(&entry);
    assert!(
        matches!(result, Err(InvocationError::ProofBindingMismatch)),
        "swapped delegations should be rejected: {result:?}"
    );

    // As many proofs as are named have to be there.
    let cut = UWillInvocation::from_parts(inv.invocation().clone(), vec![], Ok(()));
    assert_eq!(
        cut.validate_write(&entry).unwrap_err().message(),
        "resolved proof delegations do not match signed prf CIDs"
    );
}

#[test]
fn invocations_are_refused_for_each_reason() {
    let mut rng = rng_from(470);
    let ns_secret = namespace_secret(&mut rng);
    let ns_id = ns_secret.id();
    let (alice_secret, alice_id) = keypair(&mut rng);
    let chain = new_owned(ns_id, &ns_secret, alice_id, AccessMode::Write).unwrap();
    let entry = empty_entry(ns_id, alice_id);
    let inv = build_write_invocation(&entry, &chain, &alice_secret, &sign_invocation).unwrap();
    let proofs = inv.resolved_proofs().to_vec();

    let unproved = UWillInvocation::from_parts(
        inv.invocation().clone(), proofs.clone(), Err("command mismatch".to_owned()),
    );
    let error = unproved.validate_write(&entry).unwrap_err();
    assert!(matches!(error, InvocationError::SyntaticCheck(_)));
    assert_eq!(error.message(), "syntatic_checks failed: command mismatch");
    assert_eq!(
        unproved.run_syntatic_checks().unwrap_err().message(),
        "syntatic_checks failed: command mismatch"
    );

    // A write chain proves neither read nor membership.
    let challenge = [8u8; 32];
    let error = inv.validate_read_proof(&challenge).unwrap_err();
    assert!(matches!(error, InvocationError::MissingArg("challenge")));
    assert_eq!(error.message(), "missing argument: challenge");
    let mut answer = inv.invocation().clone();
    answer.arguments.insert(ARG_CHALLENGE, Promised::Bytes(challenge.to_vec()));
    let answer = UWillInvocation::from_parts(answer, proofs.clone(), Ok(()));
    let error = answer.validate_read_proof(&challenge).unwrap_err();
    assert_eq!(error.message(), "wrong command: proof chain does not prove read");
    let error = answer.validate_enumerate_proof(&challenge).unwrap_err();
    assert_eq!(error.message(), "wrong command: proof chain does not prove enumerate");
    assert_eq!(
        answer.validate_enumerate_proof(&[9u8; 32]).unwrap_err().message(),
        "challenge nonce mismatch"
    );
    let mut answer = inv.invocation().clone();
    answer.arguments.insert(ARG_CHALLENGE, Promised::String("8".to_owned()));
    let answer = UWillInvocation::from_parts(answer, proofs.clone(), Ok(()));
    let error = answer.validate_enumerate_proof(&challenge).unwrap_err();
    assert!(matches!(error, InvocationError::MissingArg("challenge")));

    // An answer does not write.
    let read = new_owned(ns_id, &ns_secret, alice_id, AccessMode::Read).unwrap();
    let read_inv =
        build_read_invocation(&challenge, &read, &alice_secret, &sign_invocation).unwrap();
    let error = read_inv.validate_write(&entry).unwrap_err();
    assert_eq!(error.message(), "wrong command: proof chain does not prove write");

    // Another namespace.
    let error = inv.validate_write(&empty_entry(NamespaceId::from([1; 32]), alice_id)).unwrap_err();
    assert_eq!(error.message(), "invocation namespace does not match entry namespace");

    // Proofs that do not form a chain.
    let mut broken = proofs.clone();
    broken[0].signature_valid = false;
    let broken = UWillInvocation::from_parts(inv.invocation().clone(), broken, Ok(()));
    let error = broken.validate_write(&entry).unwrap_err();
    assert_eq!(
        error.message(),
        "chain validation failed: invalid delegation signature at step 0"
    );
    assert!(broken.to_capability_chain().is_err());

    // Times.
    let mut late = proofs.clone();
    late[0].expiration = Some(100);
    late[0].not_before = Some(50);
    let late = UWillInvocation::from_parts(inv.invocation().clone(), late, Ok(()));
    assert!(late.validate_write_at(&entry, 160).is_ok());
    let error = late.validate_write_at(&entry, 161).unwrap_err();
    assert_eq!(error.message(), "capability chain expired");
    let mut early = proofs.clone();
    early[0].not_before = Some(u64::MAX);
    let early = UWillInvocation::from_parts(inv.invocation().clone(), early, Ok(()));
    let error = early.validate_write_at(&entry, u64::MAX - 61).unwrap_err();
    assert_eq!(error.message(), "capability chain not yet valid");
    assert!(early.validate_write_at(&entry, u64::MAX).is_ok());

    // Revocations.
    let error = inv.validate_revoke().unwrap_err();
    assert_eq!(error.message(), "wrong command: /willow/write");
    let cid = chain.delegations()[0].to_cid();
    let revocation = build_revoke_invocation(
        cid.clone(), &chain, &ns_secret.to_bytes(), &sign_invocation,
    ).unwrap();
    let mut bare = revocation.invocation().clone();
    bare.arguments = Arguments::new();
    let bare = UWillInvocation::from_parts(bare, proofs.clone(), Ok(()));
    assert_eq!(bare.validate_revoke().unwrap_err().message(), "missing argument: revoke");
    let mut wrong = revocation.invocation().clone();
    wrong.arguments.insert(ARG_REVOKE, Promised::Bytes(vec![1, 2, 3]));
    let wrong = UWillInvocation::from_parts(wrong, proofs.clone(), Ok(()));
    let error = wrong.validate_revoke().unwrap_err();
    assert!(matches!(&error, InvocationError::InvalidArg(t) if t.starts_with("invalid CID: ")));
    let expected = Cid::from_bytes(&[1, 2, 3]).unwrap_err();
    assert_eq!(error.message(), format!("invalid argument: invalid CID: {expected}"));

    // A revocation stands without the syntactic checks.
    let revocation = UWillInvocation::from_parts(
        revocation.invocation().clone(), proofs, Err("command mismatch".to_owned()),
    );
    assert!(revocation.validate_revoke().unwrap() == cid);
}

#[test]
fn identifiers_are_read_from_the_start_of_the_bytes() {
    let cid = cid_of(&[3u8; 64]);
    let mut bytes = cid.to_bytes();
    assert_eq!(bytes.len(), 68);
    bytes.extend_from_slice(&[1, 2, 3]);
    assert!(Cid::from_bytes(&bytes).unwrap() == cid);
    assert_eq!(Cid::from_bytes(&bytes).unwrap().to_bytes(), cid.to_bytes());
    assert!(Cid::from_bytes(&[]).is_err());
    assert_eq!(
        Cid::from_bytes(&[0x02]).unwrap_err(),
        ipld_core::cid::Cid::try_from(&[0x02u8][..]).unwrap_err().to_string()
    );
}

#[test]
fn invocations_of_strange_keys_are_not_built() {
    let mut rng = rng_from(471);
    let ns_secret = namespace_secret(&mut rng);
    let (alice_secret, alice_id) = keypair(&mut rng);
    let chain = new_owned(ns_secret.id(), &ns_secret, alice_id, AccessMode::Write).unwrap();
    let mut off_curve = [0u8; 32];
    off_curve[0] = 2;
    let mut delegation = chain.delegations()[0].clone();
    delegation.audience = Ed25519Did { bytes: off_curve };
    let chain = UWillChain::from_single(delegation).unwrap();
    let entry = empty_entry(ns_secret.id(), alice_id);
    let error =
        build_write_invocation(&entry, &chain, &alice_secret, &sign_invocation).unwrap_err();
    let expected = VerifyingKey::from_bytes(&off_curve).unwrap_err();
    assert_eq!(error.message(), format!("invalid key: {expected}"));
}

// -- revocation stores -------------------------------------------------------

fn setup() -> (UWillChain, NamespaceSecretKey, UserSecretKey) {
    let mut rng = rng_from(99);
    let ns_secret = namespace_secret(&mut rng);
    let (user_secret, user_id) = keypair(&mut rng);

    let chain = new_owned(ns_secret.id(), &ns_secret, user_id, AccessMode::Read).unwrap();

    (chain, ns_secret, user_secret)
}

#[test]
fn revoke_via_invocation() {
    let (chain, ns_secret, _) = setup();
    let mut store = RevocationStore::new();

    assert!(!store.chain_is_revoked(&chain));

    let delegation_cid = chain.delegations()[0].to_cid();
    let inv = build_revoke_invocation(
        delegation_cid, &chain, &ns_secret.to_bytes(), &sign_invocation,
    ).unwrap();

    let revoked_cid = inv.validate_revoke().unwrap();
    store.revoke(revoked_cid);

    assert!(store.chain_is_revoked(&chain));
    assert_eq!(store.len(), 1);
}

#[test]
fn revoke_unrelated_chain() {
    let (chain, ns_secret, _) = setup();
    let mut store = RevocationStore::new();

    let mut rng = rng_from(99);
    let _ = user_secret(&mut rng);
    let (_, other_id) = keypair(&mut rng);
    let other_chain =
        new_owned(ns_secret.id(), &ns_secret, other_id, AccessMode::Read).unwrap();
    assert!(chain.receiver() != other_id);

    let cid = other_chain.delegations()[0].to_cid();
    let inv = build_revoke_invocation(
        cid, &other_chain, &ns_secret.to_bytes(), &sign_invocation,
    ).unwrap();

    let revoked_cid = inv.validate_revoke().unwrap();
    store.revoke(revoked_cid);

    assert!(!store.chain_is_revoked(&chain));
    assert!(store.chain_is_revoked(&other_chain));
}

#[test]
fn revocation_authority_check() {
    let mut rng = rng_from(99);
    let ns_secret = namespace_secret(&mut rng);
    let ns_id = ns_secret.id();

    let (alice_secret, alice_id) = keypair(&mut rng);
    let (bob_secret, bob_id) = keypair(&mut rng);

    let to_alice = new_owned(ns_id, &ns_secret, alice_id, AccessMode::Read).unwrap();
    let to_bob =
        to_alice.delegate(&alice_secret, &bob_id, &Area::new_full(), &sign_delegation).unwrap();

    let cid = to_bob.delegations()[1].to_cid();

    // Namespace owner can revoke
    let inv = build_revoke_invocation(
        cid.clone(), &to_bob, &ns_secret.to_bytes(), &sign_invocation,
    ).unwrap();
    assert!(inv.validate_revoke().is_ok());

    // Alice can revoke (she issued it)
    let inv = build_revoke_invocation(
        cid.clone(), &to_bob, &alice_secret.to_bytes(), &sign_invocation,
    ).unwrap();
    assert!(inv.validate_revoke().is_ok());

    // Bob cannot revoke (leaf, not an issuer above)
    let inv = build_revoke_invocation(
        cid, &to_bob, &bob_secret.to_bytes(), &sign_invocation,
    ).unwrap();
    assert!(inv.validate_revoke().is_err());
}

#[test]
fn issuers_below_cannot_revoke() {
    let mut rng = rng_from(98);
    let ns_secret = namespace_secret(&mut rng);
    let (alice_secret, alice_id) = keypair(&mut rng);
    let (_, bob_id) = keypair(&mut rng);
    let to_alice = new_owned(ns_secret.id(), &ns_secret, alice_id, AccessMode::Read).unwrap();
    let to_bob =
        to_alice.delegate(&alice_secret, &bob_id, &Area::new_full(), &sign_delegation).unwrap();

    // Alice issued the second delegation, not the first.
    let inv = build_revoke_invocation(
        to_bob.delegations()[0].to_cid(), &to_bob, &alice_secret.to_bytes(), &sign_invocation,
    ).unwrap();
    let error = inv.validate_revoke().unwrap_err();
    assert_eq!(error.message(), "revoker has no authority");
}

#[test]
fn repeated_delegations_give_no_authority() {
    let mut rng = rng_from(96);
    let ns_secret = namespace_secret(&mut rng);
    let owner_id = UserId::from(*ns_secret.id().as_bytes());
    let (alice_secret, alice_id) = keypair(&mut rng);
    let (bob_secret, bob_id) = keypair(&mut rng);
    let full = Area::new_full();
    let to_alice = new_owned(ns_secret.id(), &ns_secret, alice_id, AccessMode::Read).unwrap();
    let to_bob = to_alice.delegate(&alice_secret, &bob_id, &full, &sign_delegation).unwrap();
    let to_owner = to_bob.delegate(&bob_secret, &owner_id, &full, &sign_delegation).unwrap();

    // From the owner to alice, to bob, back to the owner, and the first delegation again.
    let mut delegations = to_owner.delegations().to_vec();
    delegations.push(delegations[0].clone());
    let chain = UWillChain::from_chain(UWillChainRaw::from_delegations(delegations)).unwrap();
    let revoke = |k: usize, secret: [u8; 32]| {
        build_revoke_invocation(
            chain.delegations()[k].to_cid(), &chain, &secret, &sign_invocation,
        ).unwrap().validate_revoke()
    };

    // The right to revoke is that of whoever comes before the first occurrence.
    for k in [0, 3] {
        for secret in [alice_secret, bob_secret] {
            let result = revoke(k, secret.to_bytes());
            assert!(matches!(result, Err(InvocationError::Unauthorized)));
        }
        assert!(revoke(k, ns_secret.to_bytes()).unwrap() == chain.delegations()[0].to_cid());
    }
    assert!(matches!(revoke(1, bob_secret.to_bytes()), Err(InvocationError::Unauthorized)));
    assert!(revoke(1, alice_secret.to_bytes()).is_ok());
    assert!(revoke(2, alice_secret.to_bytes()).is_ok());
    assert!(revoke(2, bob_secret.to_bytes()).is_ok());
}

#[test]
fn owners_of_other_namespaces_cannot_revoke() {
    let mut rng = rng_from(97);
    let (secret_a, secret_b) = (namespace_secret(&mut rng), namespace_secret(&mut rng));
    let (_, alice_id) = keypair(&mut rng);
    let (_, bob_id) = keypair(&mut rng);
    let chain_a = new_owned(secret_a.id(), &secret_a, alice_id, AccessMode::Read).unwrap();
    let chain_b = new_owned(secret_b.id(), &secret_b, bob_id, AccessMode::Read).unwrap();

    // The owner of one namespace has no say in the delegations of another.
    let cid = chain_b.delegations()[0].to_cid();
    let inv = build_revoke_invocation(cid, &chain_a, &secret_a.to_bytes(), &sign_invocation)
        .unwrap();
    assert!(matches!(inv.validate_revoke(), Err(InvocationError::Unauthorized)));
}

#[test]
fn unauthorized_outsider_rejected() {
    let mut rng = rng_from(99);
    let ns_secret = namespace_secret(&mut rng);
    let ns_id = ns_secret.id();
    let (_, alice_id) = keypair(&mut rng);

    let to_alice = new_owned(ns_id, &ns_secret, alice_id, AccessMode::Read).unwrap();

    let cid = to_alice.delegations()[0].to_cid();
    let outsider_key = SigningKey::generate(&mut rng);
    let inv = build_revoke_invocation(
        cid, &to_alice, &outsider_key.to_bytes(), &sign_invocation,
    ).unwrap();

    // Signature valid but authority check fails
    assert!(inv.verify_signature());
    assert!(inv.validate_revoke().is_err());
}

#[test]
fn stores_hold_each_identifier_once() {
    let mut store = RevocationStore::default();
    assert!(store.is_empty());
    let (a, b) = (cid_of(&[1; 64]), cid_of(&[2; 64]));
    store.revoke(a.clone());
    let copy = store.clone();
    store.revoke(b.clone());
    store.revoke(a.clone());
    assert_eq!(store.len(), 2);
    assert!(store.is_revoked(&a) && store.is_revoked(&b));
    assert!(copy.is_revoked(&a) && !copy.is_revoked(&b));
    assert!(!copy.is_empty());
}

// -- what spans the parts ----------------------------------------------------

/// Revoke a delegation, then verify that a chain containing it
/// is detected as revoked by the RevocationStore.
#[test]
fn revoked_chain_detected() {
    let mut rng = rng_from(500);
    let ns_secret = namespace_secret(&mut rng);
    let ns_id = ns_secret.id();
    let (_, alice_id) = keypair(&mut rng);

    let chain = new_owned(ns_id, &ns_secret, alice_id, AccessMode::Read).unwrap();

    let mut store = RevocationStore::new();
    assert!(!store.chain_is_revoked(&chain));

    // Revoke via invocation
    let cid = chain.delegations()[0].to_cid();
    let inv =
        build_revoke_invocation(cid, &chain, &ns_secret.to_bytes(), &sign_invocation).unwrap();
    let revoked_cid = inv.validate_revoke().unwrap();
    store.revoke(revoked_cid);

    // Chain is now revoked
    assert!(store.chain_is_revoked(&chain));

    // A different chain for the same namespace is NOT revoked
    let (_, bob_id) = keypair(&mut rng);
    let bob_chain = new_owned(ns_id, &ns_secret, bob_id, AccessMode::Read).unwrap();
    assert!(!store.chain_is_revoked(&bob_chain));
}

/// A chain with delegations signed by the wrong key should be
/// rejected during validation (from_chain).
#[test]
fn forged_chain_rejected() {
    let mut rng = rng_from(501);
    let ns_secret = namespace_secret(&mut rng);
    let ns_id = ns_secret.id();
    let (_, alice_id) = keypair(&mut rng);

    // Create a legitimate chain
    let legit = new_owned(ns_id, &ns_secret, alice_id, AccessMode::Read).unwrap();

    // Serialize, deserialize to get raw delegations
    let bytes = serde_ipld_dagcbor::to_vec(&encoded_chain(&legit)).unwrap();
    let raw = read_chain(serde_ipld_dagcbor::from_slice(&bytes).unwrap()).unwrap();

    // The legitimate chain validates fine
    assert!(UWillChain::from_chain(raw.clone()).is_ok());

    // Now create a chain signed by a DIFFERENT namespace key
    let fake_ns_secret = namespace_secret(&mut rng);
    let forged = new_owned(
        ns_id, // same namespace ID but wrong key!
        &fake_ns_secret,
        alice_id,
        AccessMode::Read,
    );
    assert!(matches!(forged, Err(ChainError::RootIssuerMismatch)));

    // Tamper with the serialized bytes (flip a byte in the middle)
    let mut tampered_bytes = bytes.clone();
    if tampered_bytes.len() > 50 {
        tampered_bytes[50] ^= 0xFF;
    }

    // Deserialization might fail, or if it succeeds, validation should fail
    let result: Result<Vec<Vec<u8>>, _> = serde_ipld_dagcbor::from_slice(&tampered_bytes);
    if let Ok(tampered) = result {
        if let Ok(tampered_raw) = read_chain(tampered) {
            // If deserialization succeeded, chain validation should reject it
            let validation = UWillChain::from_chain(tampered_raw);
            assert!(validation.is_err(), "tampered chain should be rejected by from_chain");
        }
    }

    // A byte of the signed terms that reads as before is not signed.
    let (terms, signature): Token = serde_ipld_dagcbor::from_slice(&legit.delegations()[0].encoded)
        .unwrap();
    let mut terms_read: Terms = serde_ipld_dagcbor::from_slice(&terms).unwrap();
    terms_read.5 = Some(4_102_444_800);
    let terms = serde_ipld_dagcbor::to_vec(&terms_read).unwrap();
    let encoded = serde_ipld_dagcbor::to_vec(&(terms, signature)).unwrap();
    let raw = read_chain(vec![encoded]).unwrap();
    assert!(matches!(
        UWillChain::from_chain(raw),
        Err(ChainError::InvalidSignature { step: 0 })
    ));
}

/// The enumerate chain (willow/enumerate) should NOT prove read
/// or write access. It's a namespace membership proof only.
#[test]
fn enumerate_chain_cannot_authorize_writes() {
    let mut rng = rng_from(502);
    let ns_secret = namespace_secret(&mut rng);
    let ns_id = ns_secret.id();
    let (alice_secret, alice_id) = keypair(&mut rng);

    // Create an enumerate chain
    let enumerate =
        UWillChain::new_enumerate(ns_id, &ns_secret, alice_id, &sign_delegation).unwrap();

    // It should NOT prove read or write
    assert!(!enumerate.proves_read());
    assert!(!enumerate.proves_write());

    // Building a write invocation with it should fail
    let entry = empty_entry(ns_id, alice_id);

    let inv = build_write_invocation(&entry, &enumerate, &alice_secret, &sign_invocation);
    // The invocation might build (it just signs), but validation should fail
    if let Ok(inv) = inv {
        let result = inv.validate_write(&entry);
        assert!(result.is_err(), "enumerate chain should not authorize writes");
    }
}

/// The enumerate chain extracted from a ReadAuthorisation should
/// NOT be usable as a full-area read capability.
#[test]
fn enumerate_chain_is_not_read_cap() {
    let mut rng = rng_from(503);
    let ns_secret = namespace_secret(&mut rng);
    let _ns_id = ns_secret.id();
    let (_, alice_id) = keypair(&mut rng);

    let auth = ReadAuthorisation::new_owned(&ns_secret, alice_id, &sign_delegation).unwrap();

    let enumerate = auth.subspace_cap().expect("should have enumerate chain");

    // The enumerate chain's command should be willow/enumerate, not willow/read
    assert_eq!(enumerate.command(), WillowCommand::Enumerate);
    assert!(!enumerate.proves_read());
    assert!(!enumerate.proves_write());
}

/// Revoking an intermediate delegation should invalidate all
/// chains that contain it, including delegations further down.
#[test]
fn revocation_cascades_through_chain() {
    let mut rng = rng_from(504);
    let ns_secret = namespace_secret(&mut rng);
    let ns_id = ns_secret.id();

    let (alice_secret, alice_id) = keypair(&mut rng);
    let (bob_secret, bob_id) = keypair(&mut rng);
    let (_, carol_id) = keypair(&mut rng);

    // namespace owner to alice to bob to carol
    let to_alice = new_owned(ns_id, &ns_secret, alice_id, AccessMode::Read).unwrap();
    let to_bob =
        to_alice.delegate(&alice_secret, &bob_id, &Area::new_full(), &sign_delegation).unwrap();
    let to_carol =
        to_bob.delegate(&bob_secret, &carol_id, &Area::new_full(), &sign_delegation).unwrap();

    let mut store = RevocationStore::new();

    // Before revocation, all chains are valid
    assert!(!store.chain_is_revoked(&to_alice));
    assert!(!store.chain_is_revoked(&to_bob));
    assert!(!store.chain_is_revoked(&to_carol));

    // Revoke the delegation of alice to bob (index 1 in to_bob's chain)
    let alice_to_bob_cid = to_bob.delegations()[1].to_cid();
    store.revoke(alice_to_bob_cid);

    // alice's chain is NOT revoked (doesn't contain that delegation)
    assert!(!store.chain_is_revoked(&to_alice));

    // bob's chain IS revoked (contains the revoked delegation)
    assert!(store.chain_is_revoked(&to_bob));

    // carol's chain IS ALSO revoked (contains it as step 1)
    assert!(store.chain_is_revoked(&to_carol));
}

/// A write invocation for namespace A should not authorize an
/// entry in namespace B.
#[test]
fn cross_namespace_write_rejected() {
    let mut rng = rng_from(505);
    let ns_a_secret = namespace_secret(&mut rng);
    let ns_a = ns_a_secret.id();
    let ns_b_secret = namespace_secret(&mut rng);
    let ns_b = ns_b_secret.id();
    let (alice_secret, alice_id) = keypair(&mut rng);

    // Alice has write access to namespace A
    let chain_a = new_owned(ns_a, &ns_a_secret, alice_id, AccessMode::Write).unwrap();

    // Entry in namespace A: should work
    let entry_a = empty_entry(ns_a, alice_id);

    let inv = build_write_invocation(&entry_a, &chain_a, &alice_secret, &sign_invocation).unwrap();
    assert!(inv.validate_write(&entry_a).is_ok());

    // Entry in namespace B: same user, same path, different namespace
    let entry_b = empty_entry(ns_b, alice_id);

    let result = inv.is_authorised_write(&entry_b);
    assert!(
        !result,
        "invocation for namespace A should not authorize writes to namespace B"
    );
}

/// A chain without expiry is valid at all times.
#[test]
fn expired_chain_rejected_in_write_auth() {
    let mut rng = rng_from(506);
    let ns_secret = namespace_secret(&mut rng);
    let ns_id = ns_secret.id();
    let (alice_secret, alice_id) = keypair(&mut rng);

    // Create a chain (no expiry: valid forever)
    let chain = new_owned(ns_id, &ns_secret, alice_id, AccessMode::Write).unwrap();

    let entry = empty_entry(ns_id, alice_id);

    let inv = build_write_invocation(&entry, &chain, &alice_secret, &sign_invocation).unwrap();

    // Without expiry, it should be valid
    assert!(inv.is_authorised_write(&entry));
    assert!(!chain.is_expired(u64::MAX));
    assert!(!chain.is_not_yet_valid(0));
}

/// A chain with willow/read should NOT authorize write invocations.
#[test]
fn read_chain_cannot_authorize_writes() {
    let mut rng = rng_from(507);
    let ns_secret = namespace_secret(&mut rng);
    let ns_id = ns_secret.id();
    let (alice_secret, alice_id) = keypair(&mut rng);

    // Read-only chain
    let read_chain = new_owned(ns_id, &ns_secret, alice_id, AccessMode::Read).unwrap();

    assert!(read_chain.proves_read());
    assert!(!read_chain.proves_write());

    let entry = empty_entry(ns_id, alice_id);

    // Building a write invocation with a read chain succeeds (just signs),
    // but validation should reject it
    let inv = build_write_invocation(&entry, &read_chain, &alice_secret, &sign_invocation).unwrap();
    assert!(inv.validate_write(&entry).is_err());
    assert!(!inv.is_authorised_write(&entry));
}

/// An invocation signed by someone other than the chain's receiver
/// should be refused.
#[test]
fn wrong_signer_rejected() {
    let mut rng = rng_from(508);
    let ns_secret = namespace_secret(&mut rng);
    let ns_id = ns_secret.id();
    let (_alice_secret, alice_id) = keypair(&mut rng);
    let (bob_secret, _bob_id) = keypair(&mut rng);

    // Chain grants write access to alice
    let chain = new_owned(ns_id, &ns_secret, alice_id, AccessMode::Write).unwrap();

    let entry = empty_entry(ns_id, alice_id);

    // Bob signs the invocation, but the chain's receiver is alice
    let inv = build_write_invocation(&entry, &chain, &bob_secret, &sign_invocation).unwrap();

    // The signature verifies (bob signed it validly), but the invocation's issuer
    // doesn't match the chain's receiver.
    assert!(!inv.is_authorised_write(&entry));
}

/// Revocations of delegations not yet seen are accepted: the store holds the revoked
/// identifier and rejects chains containing it even if they come after the revocation.
#[test]
fn revoke_before_seeing_delegation() {
    let mut rng = rng_from(509);
    let ns_secret = namespace_secret(&mut rng);
    let ns_id = ns_secret.id();
    let (_, alice_id) = keypair(&mut rng);

    let chain = new_owned(ns_id, &ns_secret, alice_id, AccessMode::Read).unwrap();

    let cid = chain.delegations()[0].to_cid();

    // Revoke BEFORE ever seeing the chain
    let mut store = RevocationStore::new();
    store.revoke(cid);

    // Now "import" the chain: it should be detected as revoked
    assert!(store.chain_is_revoked(&chain));
}

#[test]
fn double_revocation_idempotent() {
    let mut rng = rng_from(510);
    let ns_secret = namespace_secret(&mut rng);
    let ns_id = ns_secret.id();
    let (_, alice_id) = keypair(&mut rng);

    let chain = new_owned(ns_id, &ns_secret, alice_id, AccessMode::Read).unwrap();

    let cid = chain.delegations()[0].to_cid();

    let mut store = RevocationStore::new();
    store.revoke(cid.clone());
    store.revoke(cid); // second time: should be fine

    assert!(store.chain_is_revoked(&chain));
    assert_eq!(store.len(), 1); // not 2
}

/// A delegated chain restricted to path "data" should reject
/// entries at path "secrets".
#[test]
fn area_narrowing_enforced_in_invocation() {
    let mut rng = rng_from(511);
    let ns_secret = namespace_secret(&mut rng);
    let ns_id = ns_secret.id();
    let (alice_secret, alice_id) = keypair(&mut rng);

    let root = new_owned(ns_id, &ns_secret, alice_id, AccessMode::Write).unwrap();

    // Restrict to path "data"
    let restricted = root
        .delegate(&alice_secret, &alice_id, &subspace_area(alice_id, &[b"data"]), &sign_delegation)
        .unwrap();

    // Entry under "data": should work
    let good_entry = entry_at(ns_id, alice_id, &[b"data", b"file.txt"], 0);
    let inv =
        build_write_invocation(&good_entry, &restricted, &alice_secret, &sign_invocation).unwrap();
    assert!(inv.is_authorised_write(&good_entry));

    // Entry under "secrets": should be rejected
    let bad_entry = entry_at(ns_id, alice_id, &[b"secrets", b"keys"], 0);
    let inv =
        build_write_invocation(&bad_entry, &restricted, &alice_secret, &sign_invocation).unwrap();
    assert!(!inv.is_authorised_write(&bad_entry));
}

// A chain of one delegation to write, valid in a window of time.
fn write_chain_within(
    ns_secret: &NamespaceSecretKey,
    user_id: UserId,
    expiration: Option<u64>,
    not_before: Option<u64>,
) -> UWillChain {
    let draft = DelegationDraft {
        secret: ns_secret.to_bytes(),
        issuer: namespace_id_to_ed25519_did(&ns_secret.id()).unwrap(),
        audience: user_id_to_ed25519_did(&user_id).unwrap(),
        subject: DelegatedSubject::Specific(namespace_id_to_ed25519_did(&ns_secret.id()).unwrap()),
        command: Command::new(vec!["willow".to_owned(), "write".to_owned()]),
        policy: vec![],
    };
    let seal = sign_delegation_within(&draft, expiration, not_before).unwrap();
    let delegation = read_delegation(&seal.encoded).unwrap();
    UWillChain::from_chain(UWillChainRaw::from_delegations(vec![delegation])).unwrap()
}

fn now() -> u64 {
    std::time::SystemTime::now().duration_since(std::time::UNIX_EPOCH).unwrap().as_secs()
}

/// A delegation with exp in the past should cause is_authorised_write
/// to return false.
#[test]
fn expired_delegation_rejects_write() {
    let mut rng = rng_from(512);
    let ns_secret = namespace_secret(&mut rng);
    let ns_id = ns_secret.id();
    let (alice_secret, alice_id) = keypair(&mut rng);

    // A delegation with expiry 1 second after epoch (long expired)
    let chain = write_chain_within(&ns_secret, alice_id, Some(1), None);

    // Chain should report as expired
    assert!(chain.is_expired(now()));

    let entry = empty_entry(ns_id, alice_id);

    let inv = build_write_invocation(&entry, &chain, &alice_secret, &sign_invocation).unwrap();
    assert!(!inv.is_authorised_write(&entry), "expired chain should reject writes");
    assert!(matches!(inv.validate_write(&entry), Err(InvocationError::Expired)));
}

/// A delegation with nbf far in the future should cause
/// is_authorised_write to return false.
#[test]
fn not_yet_valid_delegation_rejects_write() {
    let mut rng = rng_from(513);
    let ns_secret = namespace_secret(&mut rng);
    let ns_id = ns_secret.id();
    let (alice_secret, alice_id) = keypair(&mut rng);

    // nbf = year 2100 (far future)
    let chain = write_chain_within(&ns_secret, alice_id, None, Some(4_102_444_800));

    assert!(chain.is_not_yet_valid(now()));

    let entry = empty_entry(ns_id, alice_id);

    let inv = build_write_invocation(&entry, &chain, &alice_secret, &sign_invocation).unwrap();
    assert!(!inv.is_authorised_write(&entry), "not-yet-valid chain should reject writes");
    assert!(matches!(inv.validate_write(&entry), Err(InvocationError::NotYetValid)));
}

/// A delegation with exp in the future and nbf in the past should
/// be accepted.
#[test]
fn valid_time_window_accepts_write() {
    let mut rng = rng_from(514);
    let ns_secret = namespace_secret(&mut rng);
    let ns_id = ns_secret.id();
    let (alice_secret, alice_id) = keypair(&mut rng);

    let chain = write_chain_within(&ns_secret, alice_id, Some(4_102_444_800), Some(1));

    assert!(!chain.is_expired(now()));
    assert!(!chain.is_not_yet_valid(now()));

    let entry = empty_entry(ns_id, alice_id);

    let inv = build_write_invocation(&entry, &chain, &alice_secret, &sign_invocation).unwrap();
    assert!(inv.is_authorised_write(&entry), "chain within valid window should accept writes");
}

/// Revoking the root delegation (namespace owner to first recipient)
/// should invalidate every chain derived from it.
#[test]
fn revoke_root_breaks_all_derived() {
    let mut rng = rng_from(515);
    let ns_secret = namespace_secret(&mut rng);
    let ns_id = ns_secret.id();

    let (alice_secret, alice_id) = keypair(&mut rng);
    let (_, bob_id) = keypair(&mut rng);

    let to_alice = new_owned(ns_id, &ns_secret, alice_id, AccessMode::Write).unwrap();
    let to_bob =
        to_alice.delegate(&alice_secret, &bob_id, &Area::new_full(), &sign_delegation).unwrap();

    let mut store = RevocationStore::new();

    // Revoke the ROOT delegation (index 0)
    let root_cid = to_alice.delegations()[0].to_cid();
    store.revoke(root_cid);

    // Alice's chain is broken
    assert!(store.chain_is_revoked(&to_alice));

    // Bob's chain is ALSO broken (contains the root delegation)
    assert!(store.chain_is_revoked(&to_bob));
}

// -- authorisations to read --------------------------------------------------

#[test]
fn read_authorisations_delegate() {
    let mut rng = rng_from(520);
    let ns_secret = namespace_secret(&mut rng);
    let (alice_secret, alice_id) = keypair(&mut rng);
    let (_, bob_id) = keypair(&mut rng);

    let auth = ReadAuthorisation::new_owned(&ns_secret, alice_id, &sign_delegation).unwrap();
    assert_eq!(auth.namespace(), ns_secret.id());
    assert_eq!(auth.read_cap().receiver(), alice_id);
    assert!(auth.read_cap().proves_read());

    // A part of the paths of all subspaces: the proof of membership goes along.
    let part = auth
        .delegate(&alice_secret, bob_id, path_area(&[b"data"]), &sign_delegation)
        .unwrap();
    assert_eq!(part.read_cap().receiver(), bob_id);
    assert_eq!(part.read_cap().delegations().len(), 2);
    assert_eq!(part.namespace(), ns_secret.id());

    // One subspace: none is needed.
    let own = auth
        .delegate(&alice_secret, bob_id, subspace_area(bob_id, &[b"data"]), &sign_delegation)
        .unwrap();
    assert!(own.subspace_cap().is_none());

    let plain = ReadAuthorisation::from_read_chain(auth.read_cap().clone());
    assert!(plain.subspace_cap().is_none());
    let error = own
        .delegate(&alice_secret, alice_id, Area::new_full(), &sign_delegation)
        .unwrap_err();
    assert!(matches!(error, ChainError::PrincipalMismatch { step: 1, next: 2 }));
}

#[test]
fn access_modes_are_bytes() {
    assert_eq!(encode_access_mode(&AccessMode::Read), 0);
    assert_eq!(encode_access_mode(&AccessMode::Write), 1);
    assert_eq!(decode_access_mode(0), Ok(AccessMode::Read));
    assert_eq!(decode_access_mode(1), Ok(AccessMode::Write));
    assert!(decode_access_mode(2).is_err());
}

// -- policies ----------------------------------------------------------------

#[test]
fn policies_mean_containment() {
    let paths: [&[&[u8]]; 6] = [&[], &[b""], &[b"a"], &[b"a", b"b"], &[b"a", b""], &[b"ab"]];
    let mut areas = vec![];
    for path in paths {
        for subspace in [AreaSubspace::Any, AreaSubspace::Id(UserId::from([1; 32]))] {
            for start in [0, 5] {
                for end in [RangeEnd::Open, RangeEnd::Closed(6), RangeEnd::Closed(9)] {
                    let path = Path::from_bytes(path).unwrap();
                    areas.push(Area::new(subspace, path, Range::new(start, end)));
                }
            }
        }
    }
    for a in &areas {
        let policy = area_to_predicates(a);
        for b in &areas {
            let arguments = area_to_args(b);
            assert_eq!(policy.iter().all(|p| holds(p, &arguments)), a.includes_area(b));
        }
    }
}
