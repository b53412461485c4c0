use std::cell::RefCell;
use std::rc::Rc;

use ed25519_dalek::{Signer, SigningKey};

use iroh_willow::interest::{
    AreaOfInterestSelector, CapSelector, CapabilityPack, DelegateTo, InterestMap, Interests,
    InvalidCapabilityPack, RestrictArea,
};
use iroh_willow::proto::data_model::Path;
use iroh_willow::proto::grouping::{Area, AreaOfInterest, AreaSubspace, Range, RangeEnd};
use iroh_willow::proto::keys::{NamespaceId, NamespaceSecretKey, UserId, UserSecretKey};
use iroh_willow::proto::meadowcap::{
    AccessMode, McCapability, ReadAuthorisation, WriteCapability,
};
use iroh_willow::store::auth::{collect_interests, Auth, AuthError};
use iroh_willow::store::traits::{CapsStorage, PackSet, SecretStorage, SecretStoreError, Storage};
use iroh_willow::uwill::chain::{ChainError, UWillChain};
use iroh_willow::uwill::command::WillowCommand;
use iroh_willow::uwill::invocation::build_revoke_invocation;
use iroh_willow::uwill::revocation::RevocationStore;
use iroh_willow::uwill::ucan::{
    Cid, Delegation, DelegationDraft, DelegationSeal, InvocationDraft, InvocationSeal,
};

fn secret_user(byte: u8) -> UserSecretKey {
    UserSecretKey::from_bytes(&[byte; 32])
}

fn secret_namespace(byte: u8) -> NamespaceSecretKey {
    NamespaceSecretKey::from_bytes(&[byte; 32])
}

// Signs what a draft says, written out, and names a token by its signature.
fn sealed(secret: &[u8; 32], terms: &str) -> Vec<u8> {
    SigningKey::from_bytes(secret).sign(terms.as_bytes()).to_bytes().to_vec()
}

fn sign_delegation(draft: &DelegationDraft) -> Result<DelegationSeal, String> {
    let encoded = sealed(&draft.secret, &format!("{draft:?}"));
    let mut cid = vec![0x01, 0x71, 0x13, 0x40];
    cid.extend_from_slice(&encoded);
    Ok(DelegationSeal { cid: Cid::from_bytes(&cid)?, signature_valid: true, encoded })
}

fn path_area(path: &[&[u8]]) -> Area {
    Area::new(AreaSubspace::Any, Path::from_bytes(path).unwrap(), Range::new(0, RangeEnd::Open))
}

fn check_proofs(draft: &InvocationDraft, proofs: &[Delegation]) -> Result<(), String> {
    let mut expected = draft.subject;
    for proof in proofs {
        if proof.issuer != expected || !proof.subject.allows(&draft.subject) {
            return Err("invalid proof issuer chain".to_owned());
        }
        if !draft.command.starts_with(&proof.command) {
            return Err("command mismatch".to_owned());
        }
        expected = proof.audience;
    }
    if draft.issuer == expected {
        Ok(())
    } else {
        Err("invalid proof issuer chain".to_owned())
    }
}

fn sign_invocation(
    draft: &InvocationDraft,
    proofs: &[Delegation],
) -> Result<InvocationSeal, String> {
    Ok(InvocationSeal {
        signature: Ok(()),
        syntatic_checks: check_proofs(draft, proofs),
        encoded: sealed(&draft.secret, &format!("{draft:?}")),
    })
}

// -- a storage in memory -----------------------------------------------------

#[derive(Default)]
struct Secrets {
    users: Vec<UserSecretKey>,
    namespaces: Vec<NamespaceSecretKey>,
    broken: bool,
}

impl Secrets {
    fn check(&self) -> Result<(), SecretStoreError> {
        if self.broken {
            Err(SecretStoreError { text: "secrets are locked".to_owned() })
        } else {
            Ok(())
        }
    }
}

impl SecretStorage for Secrets {
    fn get_user(&self, id: &UserId) -> Result<Option<UserSecretKey>, SecretStoreError> {
        self.check()?;
        Ok(self.users.iter().copied().find(|secret| secret.public_key().id() == *id))
    }

    fn get_namespace(
        &self,
        id: &NamespaceId,
    ) -> Result<Option<NamespaceSecretKey>, SecretStoreError> {
        self.check()?;
        Ok(self.namespaces.iter().copied().find(|secret| secret.id() == *id))
    }

    fn has_user(&self, id: &UserId) -> Result<bool, SecretStoreError> {
        Ok(self.get_user(id)?.is_some())
    }
}

#[derive(Clone, Default)]
struct Caps {
    packs: Rc<RefCell<Vec<CapabilityPack>>>,
    // How many more packs can be inserted.
    room: Option<Rc<RefCell<usize>>>,
}

fn selects(selector: &CapSelector, chain: &UWillChain) -> bool {
    let area_ok = match &selector.granted_area {
        Some(area) => chain.granted_area().includes_area(area),
        None => true,
    };
    selector.namespace_id == chain.granted_namespace()
        && selector.receiver.map_or(true, |user| user == chain.receiver())
        && area_ok
}

impl CapsStorage for Caps {
    fn packs(&self) -> PackSet {
        unreachable!("packs are not listed")
    }

    fn insert(&mut self, cap: CapabilityPack) -> Result<(), String> {
        if let Some(room) = &self.room {
            if *room.borrow() == 0 {
                return Err("disk full".to_owned());
            }
            *room.borrow_mut() -= 1;
        }
        self.packs.borrow_mut().push(cap);
        Ok(())
    }

    fn list_read_caps(
        &self,
        namespace: Option<NamespaceId>,
    ) -> Result<Vec<ReadAuthorisation>, String> {
        let packs = self.packs.borrow();
        Ok(packs
            .iter()
            .filter_map(|pack| match pack {
                CapabilityPack::Read(auth) => Some(auth.clone()),
                CapabilityPack::Write(_) => None,
            })
            .filter(|auth| namespace.map_or(true, |id| auth.namespace() == id))
            .collect())
    }

    fn get_write_cap(&self, selector: &CapSelector) -> Result<Option<WriteCapability>, String> {
        if self.room.as_ref().is_some_and(|room| *room.borrow() == 7) {
            return Err("disk on fire".to_owned());
        }
        let packs = self.packs.borrow();
        Ok(packs.iter().find_map(|pack| match pack {
            CapabilityPack::Write(chain) if selects(selector, chain) => Some(chain.clone()),
            _ => None,
        }))
    }

    fn get_read_cap(&self, selector: &CapSelector) -> Result<Option<ReadAuthorisation>, String> {
        let caps = self.list_read_caps(None)?;
        Ok(caps.into_iter().find(|auth| selects(selector, auth.read_cap())))
    }

    fn del_caps(&mut self, selector: &CapSelector) -> Result<Vec<McCapability>, String> {
        let mut packs = self.packs.borrow_mut();
        let (gone, kept): (Vec<_>, Vec<_>) =
            packs.drain(..).partition(|pack| selects(selector, pack.chain()));
        *packs = kept;
        Ok(gone.iter().map(|pack| pack.chain().clone()).collect())
    }
}

struct Memory;

impl Storage for Memory {
    type Secrets = Secrets;
    type Caps = Caps;
    type Revocations = RevocationStore;
}

fn node(users: &[u8], namespaces: &[u8]) -> (Auth<Memory>, Caps) {
    let caps = Caps::default();
    (node_with(users, namespaces, caps.clone()), caps)
}

fn node_with(users: &[u8], namespaces: &[u8], caps: Caps) -> Auth<Memory> {
    let secrets = Secrets {
        users: users.iter().map(|b| secret_user(*b)).collect(),
        namespaces: namespaces.iter().map(|b| secret_namespace(*b)).collect(),
        broken: false,
    };
    Auth::new(secrets, caps, RevocationStore::new())
}

fn any_of(namespace_id: NamespaceId) -> CapSelector {
    CapSelector { namespace_id, receiver: None, granted_area: None }
}

fn id_of(byte: u8) -> UserId {
    secret_user(byte).public_key().id()
}

// -- creating ----------------------------------------------------------------

#[test]
fn full_caps_are_created_and_stored() {
    let (mut auth, caps) = node(&[1], &[9]);
    let namespace = secret_namespace(9).id();
    let alice = id_of(1);

    let packs = auth.create_full_caps(namespace, alice, &sign_delegation).unwrap();
    assert_eq!(packs.len(), 2);
    assert!(matches!(&packs[0], CapabilityPack::Read(auth) if auth.subspace_cap().is_some()));
    assert!(matches!(&packs[1], CapabilityPack::Write(chain) if chain.proves_write()));
    assert_eq!(packs[0].receiver(), alice);
    assert_eq!(packs[1].chain().granted_namespace(), namespace);
    assert_eq!(caps.packs.borrow().len(), 2);
    assert!(packs.iter().all(|pack| pack.validate() == Ok(())));

    let read = auth.get_read_cap(&any_of(namespace)).unwrap().unwrap();
    assert_eq!(read.read_cap().command(), WillowCommand::Read);
    let write = auth.get_write_cap(&any_of(namespace)).unwrap().unwrap();
    assert_eq!(write.command(), WillowCommand::Write);
    assert_eq!(auth.list_read_caps().unwrap().len(), 1);
    assert!(auth.get_read_cap(&any_of(NamespaceId::from([7; 32]))).unwrap().is_none());

    assert_eq!(auth.del_caps(&any_of(namespace)).unwrap().len(), 2);
    assert!(auth.list_read_caps().unwrap().is_empty());
}

#[test]
fn creating_needs_the_secret_of_the_namespace() {
    let (mut auth, caps) = node(&[1], &[]);
    let namespace = secret_namespace(9).id();
    let result = auth.create_full_caps(namespace, id_of(1), &sign_delegation);
    assert!(matches!(result, Err(AuthError::MissingNamespaceSecret(id)) if id == namespace));
    let result = auth.create_read_cap(namespace, id_of(1), &sign_delegation);
    assert!(matches!(result, Err(AuthError::MissingNamespaceSecret(_))));
    let result = auth.create_write_cap(namespace, id_of(1), &sign_delegation);
    assert!(matches!(result, Err(AuthError::MissingNamespaceSecret(_))));
    assert!(caps.packs.borrow().is_empty());

    let secrets = Secrets { broken: true, ..Secrets::default() };
    let auth: Auth<Memory> = Auth::new(secrets, Caps::default(), RevocationStore::new());
    let result = auth.create_write_cap(namespace, id_of(1), &sign_delegation);
    assert!(matches!(result, Err(AuthError::SecretStore(e)) if e.text == "secrets are locked"));
}

#[test]
fn a_refusal_to_sign_is_passed_on() {
    let (auth, _) = node(&[1], &[9]);
    let namespace = secret_namespace(9).id();
    let refuse = |_: &DelegationDraft| -> Result<DelegationSeal, String> { Err("no".to_owned()) };
    let result = auth.create_write_cap(namespace, id_of(1), &refuse);
    assert!(matches!(result, Err(AuthError::ChainError(ChainError::DelegationBuild(_)))));
    let result = auth.create_read_cap(namespace, id_of(1), &refuse);
    assert!(matches!(result, Err(AuthError::Other(text))
        if text == "delegation build failed: no"));
}

// -- importing ---------------------------------------------------------------

fn read_pack(namespace: u8, user: UserId) -> CapabilityPack {
    let auth =
        ReadAuthorisation::new_owned(&secret_namespace(namespace), user, &sign_delegation).unwrap();
    CapabilityPack::Read(auth)
}

fn write_pack(namespace: u8, user: UserId) -> CapabilityPack {
    let secret = secret_namespace(namespace);
    CapabilityPack::Write(
        UWillChain::new_owned(secret.id(), &secret, user, AccessMode::Write, &sign_delegation)
            .unwrap(),
    )
}

#[test]
fn imports_are_checked_one_by_one() {
    let (mut auth, caps) = node(&[1], &[]);
    let alice = id_of(1);
    auth.import_caps(vec![read_pack(9, alice), write_pack(9, alice)]).unwrap();
    assert_eq!(caps.packs.borrow().len(), 2);

    // The first is imported, the second is not ours, the third is not looked at.
    let bob = id_of(2);
    let result =
        auth.import_caps(vec![read_pack(8, alice), read_pack(8, bob), write_pack(8, alice)]);
    assert!(matches!(result, Err(AuthError::MissingUserSecret(id)) if id == bob));
    assert_eq!(caps.packs.borrow().len(), 3);

    // What is inserted unchecked is not checked.
    auth.insert_caps_unchecked(vec![read_pack(8, bob)]).unwrap();
    assert_eq!(caps.packs.borrow().len(), 4);
}

#[test]
fn packs_hold_what_they_say() {
    let secret = secret_namespace(9);
    let alice = id_of(1);
    let read =
        UWillChain::new_owned(secret.id(), &secret, alice, AccessMode::Read, &sign_delegation)
            .unwrap();
    let write =
        UWillChain::new_owned(secret.id(), &secret, alice, AccessMode::Write, &sign_delegation)
            .unwrap();
    let wrong_write = CapabilityPack::Write(read);
    let wrong_read = CapabilityPack::Read(ReadAuthorisation::from_read_chain(write));
    assert_eq!(wrong_write.validate(), Err(InvalidCapabilityPack::NotWrite));
    assert_eq!(wrong_read.validate(), Err(InvalidCapabilityPack::NotRead));

    let (mut auth, caps) = node(&[1], &[]);
    let result = auth.import_caps(vec![wrong_write]);
    assert!(matches!(result, Err(AuthError::InvalidPack(InvalidCapabilityPack::NotWrite))));
    let result = auth.import_caps(vec![wrong_read]);
    assert!(matches!(result, Err(AuthError::InvalidPack(InvalidCapabilityPack::NotRead))));
    assert!(caps.packs.borrow().is_empty());
}

#[test]
fn a_failing_storage_is_reported() {
    let caps = Caps { room: Some(Rc::new(RefCell::new(1))), ..Caps::default() };
    let mut auth = node_with(&[1], &[9], caps.clone());
    let namespace = secret_namespace(9).id();
    let result = auth.create_full_caps(namespace, id_of(1), &sign_delegation);
    assert!(matches!(result, Err(AuthError::Other(text)) if text == "disk full"));
    assert_eq!(caps.packs.borrow().len(), 1);

    *caps.room.as_ref().unwrap().borrow_mut() = 7;
    let result = auth.get_write_cap(&any_of(namespace));
    assert!(matches!(result, Err(AuthError::Other(text)) if text == "disk on fire"));
}

// -- revoking ----------------------------------------------------------------

#[test]
fn revoked_capabilities_are_not_imported() {
    let (mut auth, _) = node(&[1], &[]);
    let pack = write_pack(9, id_of(1));
    let chain = pack.chain().clone();
    let revocation = build_revoke_invocation(
        chain.delegations()[0].to_cid(), &chain, &[9; 32], &sign_invocation,
    ).unwrap();

    assert!(!auth.is_chain_revoked(&chain));
    auth.apply_revocation(&revocation).unwrap();
    assert!(auth.is_chain_revoked(&chain));
    let result = auth.import_caps(vec![pack]);
    assert!(matches!(result, Err(AuthError::Revoked)));

    // A revoked chain does not revoke.
    assert!(matches!(auth.apply_revocation(&revocation), Err(AuthError::Revoked)));

    // Nor does someone who has no part in the chain.
    let other = write_pack(8, id_of(1)).chain().clone();
    let revocation = build_revoke_invocation(
        other.delegations()[0].to_cid(), &other, &[5; 32], &sign_invocation,
    ).unwrap();
    let result = auth.apply_revocation(&revocation);
    assert!(matches!(result, Err(AuthError::InvalidRevocation(text))
        if text == "revoker has no authority"));
    assert!(!auth.is_chain_revoked(&other));
}

// -- delegating --------------------------------------------------------------

#[test]
fn capabilities_are_delegated() {
    let (mut auth, caps) = node(&[1], &[9]);
    let namespace = secret_namespace(9).id();
    let bob = id_of(2);
    auth.create_full_caps(namespace, id_of(1), &sign_delegation).unwrap();

    let area = path_area(&[b"docs"]);
    let to = DelegateTo { user: bob, restrict_area: RestrictArea::Restrict(area.clone()) };
    let packs = auth
        .delegate_full_caps(any_of(namespace), AccessMode::Write, to, false, &sign_delegation)
        .unwrap();
    assert_eq!(packs.len(), 2);
    for pack in &packs {
        assert_eq!(pack.receiver(), bob);
        assert!(*pack.chain().granted_area() == area);
        assert_eq!(pack.chain().delegations().len(), 2);
        assert_eq!(pack.validate(), Ok(()));
    }
    assert!(matches!(&packs[0], CapabilityPack::Read(auth) if auth.subspace_cap().is_some()));
    assert_eq!(caps.packs.borrow().len(), 2);

    // To read only, over all of the area, and stored.
    let to = DelegateTo { user: bob, restrict_area: RestrictArea::Unrestricted };
    let packs = auth
        .delegate_full_caps(any_of(namespace), AccessMode::Read, to, true, &sign_delegation)
        .unwrap();
    assert_eq!(packs.len(), 1);
    assert!(*packs[0].chain().granted_area() == Area::new_full());
    assert_eq!(caps.packs.borrow().len(), 3);
}

#[test]
fn delegated_read_capabilities_prove_membership() {
    let (mut auth, caps) = node(&[1], &[9]);
    let namespace = secret_namespace(9).id();
    let bob = id_of(2);
    auth.insert_caps_unchecked(vec![read_pack(9, id_of(1))]).unwrap();

    let area = Area::new(
        AreaSubspace::Id(bob),
        Path::from_bytes(&[&b"chess"[..]]).unwrap(),
        Range::new(0, RangeEnd::Open),
    );
    let pack = auth
        .delegate_read_cap(
            &any_of(namespace),
            bob,
            RestrictArea::Restrict(area.clone()),
            &sign_delegation,
        )
        .unwrap();
    let CapabilityPack::Read(read) = &pack else { panic!("not a pack to read") };
    assert!(*read.read_cap().granted_area() == area);
    let membership = read.subspace_cap().unwrap();
    assert_eq!(membership.command(), WillowCommand::Enumerate);
    assert_eq!(membership.receiver(), bob);
    assert_eq!(membership.granted_namespace(), namespace);
    assert_eq!(membership.delegations().len(), 2);
    assert!(*membership.granted_area() == Area::new_full());
    assert!(!membership.proves_read() && !membership.proves_write());
    assert_eq!(caps.packs.borrow().len(), 1);

    // Where there is no proof of membership, none is made.
    let bare = ReadAuthorisation::from_read_chain(read_pack(9, id_of(1)).chain().clone());
    let auth = node_with(
        &[1],
        &[],
        Caps { packs: Rc::new(RefCell::new(vec![CapabilityPack::Read(bare)])), room: None },
    );
    let pack = auth
        .delegate_read_cap(&any_of(namespace), bob, RestrictArea::Unrestricted, &sign_delegation)
        .unwrap();
    assert!(matches!(&pack, CapabilityPack::Read(auth) if auth.subspace_cap().is_none()));

    // Nor where it is that of another user, or does not cover the whole namespace.
    let membership_of = |byte: u8| {
        let other = read_pack(9, id_of(byte));
        let CapabilityPack::Read(other) = &other else { panic!("not a pack to read") };
        other.subspace_cap().unwrap().clone()
    };
    let narrow = membership_of(3)
        .delegate(&secret_user(3), &id_of(1), &path_area(&[b"docs"]), &sign_delegation)
        .unwrap();
    for membership in [membership_of(3), narrow] {
        let mixed = ReadAuthorisation::new(
            read_pack(9, id_of(1)).chain().clone(),
            Some(membership),
        );
        let packs = Rc::new(RefCell::new(vec![CapabilityPack::Read(mixed)]));
        let auth = node_with(&[1], &[], Caps { packs, room: None });
        let from = any_of(namespace);
        let pack = auth
            .delegate_read_cap(&from, bob, RestrictArea::Unrestricted, &sign_delegation)
            .unwrap();
        assert_eq!(pack.receiver(), bob);
        assert!(matches!(&pack, CapabilityPack::Read(auth) if auth.subspace_cap().is_none()));
    }

    // A refusal to sign it is passed on.
    let (mut auth, _) = node(&[1], &[9]);
    auth.insert_caps_unchecked(vec![read_pack(9, id_of(1))]).unwrap();
    let sign_reads = |draft: &DelegationDraft| -> Result<DelegationSeal, String> {
        if draft.command.to_text() == "/willow/read" {
            sign_delegation(draft)
        } else {
            Err("no".to_owned())
        }
    };
    let result = auth
        .delegate_read_cap(&any_of(namespace), bob, RestrictArea::Unrestricted, &sign_reads);
    assert!(matches!(
        result,
        Err(AuthError::ChainError(ChainError::DelegationBuild(text))) if text == "no"
    ));
}

#[test]
fn refused_packs_stay_out_of_the_storage() {
    let (mut auth, caps) = node(&[1], &[]);
    let (ours, theirs) = (write_pack(9, id_of(1)), write_pack(9, id_of(2)));
    assert!(auth.import_caps(vec![theirs]).is_err());
    assert!(caps.packs.borrow().is_empty());
    auth.import_caps(vec![ours]).unwrap();
    let namespace = secret_namespace(9).id();
    assert_eq!(auth.del_caps(&any_of(NamespaceId::from([7; 32]))).unwrap().len(), 0);
    assert_eq!(caps.packs.borrow().len(), 1);
    assert_eq!(auth.del_caps(&any_of(namespace)).unwrap().len(), 1);
    assert!(caps.packs.borrow().is_empty());
}

#[test]
fn delegating_needs_a_capability_and_the_secret_of_its_user() {
    let (mut auth, _) = node(&[1], &[9]);
    let namespace = secret_namespace(9).id();
    let (alice, bob) = (id_of(1), id_of(2));
    let from = any_of(namespace);
    let result =
        auth.delegate_read_cap(&from, bob, RestrictArea::Unrestricted, &sign_delegation);
    assert!(matches!(result, Err(AuthError::NoCapability)));
    let result =
        auth.delegate_write_cap(&from, bob, RestrictArea::Unrestricted, &sign_delegation);
    assert!(matches!(result, Err(AuthError::NoCapability)));

    auth.insert_caps_unchecked(vec![read_pack(9, bob), write_pack(9, bob)]).unwrap();
    let result =
        auth.delegate_read_cap(&from, alice, RestrictArea::Unrestricted, &sign_delegation);
    assert!(matches!(result, Err(AuthError::MissingUserSecret(id)) if id == bob));
    let result =
        auth.delegate_write_cap(&from, alice, RestrictArea::Unrestricted, &sign_delegation);
    assert!(matches!(result, Err(AuthError::MissingUserSecret(id)) if id == bob));
}

#[test]
fn delegating_cannot_widen() {
    let (mut auth, _) = node(&[1, 2], &[9]);
    let namespace = secret_namespace(9).id();
    let bob = id_of(2);
    auth.create_full_caps(namespace, id_of(1), &sign_delegation).unwrap();
    let to = DelegateTo {
        user: bob,
        restrict_area: RestrictArea::Restrict(path_area(&[b"docs"])),
    };
    auth.delegate_full_caps(any_of(namespace), AccessMode::Write, to, true, &sign_delegation)
        .unwrap();
    let of_bob = CapSelector { receiver: Some(bob), ..any_of(namespace) };
    let wide = RestrictArea::Restrict(Area::new_full());
    let result = auth.delegate_write_cap(&of_bob, id_of(3), wide.clone(), &sign_delegation);
    assert!(matches!(
        result,
        Err(AuthError::ChainError(ChainError::AreaWidening { step: 2 }))
    ));
    let result = auth.delegate_read_cap(&of_bob, id_of(3), wide, &sign_delegation);
    assert!(matches!(result, Err(AuthError::ChainError(ChainError::AreaWidening { .. }))));
}

// -- interests ---------------------------------------------------------------

#[test]
fn all_interests_are_those_of_all_capabilities() {
    let (mut auth, _) = node(&[1], &[9, 8]);
    auth.create_full_caps(secret_namespace(9).id(), id_of(1), &sign_delegation).unwrap();
    auth.create_full_caps(secret_namespace(8).id(), id_of(1), &sign_delegation).unwrap();
    let map = auth.resolve_interests(Interests::All).unwrap();
    assert_eq!(map.len(), 2);
    for i in 0..2 {
        let (read, areas) = map.at(i);
        assert_eq!(areas.len(), 1);
        assert!(areas[0].area == *read.read_cap().granted_area());
        assert_eq!((areas[0].max_count, areas[0].max_size), (0, 0));
    }

    // Each capability is at one index.
    assert!(map.at(0).0.namespace() != map.at(1).0.namespace());

    // The same capability counts once.
    let again = auth.list_read_caps().unwrap().remove(0);
    let map = collect_interests(&vec![again.clone(), again]);
    assert_eq!(map.len(), 1);
}

#[test]
fn selected_interests_are_those_of_selected_capabilities() {
    let (mut auth, _) = node(&[1], &[9]);
    let namespace = secret_namespace(9).id();
    auth.create_full_caps(namespace, id_of(1), &sign_delegation).unwrap();
    let aoi = || AreaOfInterest::new(path_area(&[b"docs"]), 3, 4);
    let map = auth
        .resolve_interests(Interests::Select(vec![
            (any_of(namespace), AreaOfInterestSelector::Exact(vec![aoi(), aoi()])),
            (any_of(NamespaceId::from([7; 32])), AreaOfInterestSelector::Widest),
            (any_of(namespace), AreaOfInterestSelector::Widest),
            (any_of(namespace), AreaOfInterestSelector::Widest),
        ]))
        .unwrap();
    assert_eq!(map.len(), 1);
    let read = auth.get_read_cap(&any_of(namespace)).unwrap().unwrap();
    let areas = map.get(&read).unwrap();
    assert_eq!(areas.len(), 2);
    assert!(areas.iter().any(|a| a.area == path_area(&[b"docs"]) && a.max_count == 3));
    assert!(areas.iter().any(|a| a.area == Area::new_full() && a.max_count == 0));

    let none = auth.resolve_interests(Interests::Select(vec![])).unwrap();
    assert_eq!(none.len(), 0);
    assert!(none.get(&read).is_none());
    assert_eq!(InterestMap::new().len(), 0);
}
