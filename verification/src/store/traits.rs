//! What a storage backend offers.

use vstd::prelude::*;

use crate::interest::{CapSelector, CapabilityPack, CapabilityPackView};
use crate::proto::keys::{NamespaceId, NamespaceSecretKey, UserId, UserSecretKey};
use crate::proto::meadowcap::{McCapability, ReadAuthorisation, WriteCapability};
use crate::uwill::revocation::{chain_revoked, RevocationStore};
use crate::uwill::ucan::Cid;
use crate::uwill::UWillChain;

verus! {

/// A failure of the storage of secrets.
#[derive(Debug)]
pub struct SecretStoreError {
    pub text: String,
}

/// The storage of secret keys.
pub trait SecretStorage: Sized {
    fn get_user(&self, id: &UserId) -> Result<Option<UserSecretKey>, SecretStoreError>;

    fn get_namespace(&self, id: &NamespaceId) -> Result<
        Option<NamespaceSecretKey>,
        SecretStoreError,
    >;

    fn has_user(&self, id: &UserId) -> Result<bool, SecretStoreError>;
}

/// The packs in a storage. They are spoken of in contracts alone.
pub type PackSet = Set<CapabilityPackView>;

/// The storage of capabilities. Errors are texts.
pub trait CapsStorage: Sized {
    /// The packs in the storage.
    spec fn packs(&self) -> PackSet;

    /// Puts a pack into the storage. Where that fails, the storage keeps what it had.
    fn insert(&mut self, cap: CapabilityPack) -> (r: Result<(), String>)
        ensures
            final(self).packs() == match r {
                Ok(()) => old(self).packs().insert(cap@),
                Err(_) => old(self).packs(),
            },
    ;

    /// All capabilities to read, or those for one namespace.
    fn list_read_caps(&self, namespace: Option<NamespaceId>) -> Result<
        Vec<ReadAuthorisation>,
        String,
    >;

    fn get_write_cap(&self, selector: &CapSelector) -> Result<Option<WriteCapability>, String>;

    fn get_read_cap(&self, selector: &CapSelector) -> Result<Option<ReadAuthorisation>, String>;

    /// Takes packs out of the storage. None go but such as are selected. Where that fails, the
    /// storage keeps what it had.
    fn del_caps(&mut self, selector: &CapSelector) -> (r: Result<Vec<McCapability>, String>)
        ensures
            deleted(old(self).packs(), *selector, final(self).packs()),
            r is Err ==> final(self).packs() == old(self).packs(),
    ;
}

/// Whether `after` is what is left of the packs, when none went but such as are selected.
pub open spec fn deleted(before: PackSet, selector: CapSelector, after: PackSet) -> bool {
    &&& after.subset_of(before)
    &&& forall|pack: CapabilityPackView|
        before.contains(pack) && !(#[trigger] after.contains(pack)) ==> selector.selects(
            pack.chain(),
        )
}

/// The storage of revocations: a set of content identifiers.
pub trait RevocationStorage: Sized {
    /// The identifiers of the revoked delegations.
    spec fn revoked(&self) -> Set<Seq<u8>>;

    fn apply_revoked_cid(&mut self, cid: Cid)
        ensures
            final(self).revoked() == old(self).revoked().insert(cid@),
    ;

    /// Whether a delegation of the chain is revoked.
    fn chain_is_revoked(&self, chain: &UWillChain) -> (r: bool)
        ensures
            r == chain_revoked(self.revoked(), chain@),
    ;
}

impl RevocationStorage for RevocationStore {
    open spec fn revoked(&self) -> Set<Seq<u8>> {
        self@
    }

    fn apply_revoked_cid(&mut self, cid: Cid) {
        self.revoke(cid);
    }

    fn chain_is_revoked(&self, chain: &UWillChain) -> (r: bool) {
        RevocationStore::chain_is_revoked(self, chain)
    }
}

/// The parts of a storage backend.
pub trait Storage {
    type Secrets: SecretStorage;

    type Caps: CapsStorage;

    type Revocations: RevocationStorage;
}

} // verus!
