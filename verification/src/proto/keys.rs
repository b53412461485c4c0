//! Keys and identifiers.

use vstd::prelude::*;

use crate::text::keys_equal;

verus! {

/// Identifies a user: the bytes of an Ed25519 public key.
#[derive(Clone, Copy, Debug, Eq, Hash)]
pub struct UserId {
    pub bytes: [u8; 32],
}

impl PartialEq for UserId {
    fn eq(&self, other: &Self) -> (r: bool) {
        keys_equal(&self.bytes, &other.bytes)
    }
}

impl vstd::std_specs::cmp::PartialEqSpecImpl for UserId {
    open spec fn obeys_eq_spec() -> bool {
        true
    }

    open spec fn eq_spec(&self, other: &Self) -> bool {
        *self == *other
    }
}

impl From<[u8; 32]> for UserId {
    fn from(bytes: [u8; 32]) -> (r: Self) {
        UserId { bytes }
    }
}

impl vstd::std_specs::convert::FromSpecImpl<[u8; 32]> for UserId {
    open spec fn obeys_from_spec() -> bool {
        true
    }

    open spec fn from_spec(bytes: [u8; 32]) -> Self {
        UserId { bytes }
    }
}

impl UserId {
    pub fn as_bytes(&self) -> (r: &[u8; 32])
        ensures
            *r == self.bytes,
    {
        &self.bytes
    }

    /// The public key with these bytes, where they are those of a point of the curve.
    pub fn into_public_key(self) -> (r: Result<UserPublicKey, String>)
        ensures
            match r {
                Ok(key) => verifying_key_error(self.bytes@) is None && key@ == self,
                Err(text) => verifying_key_error(self.bytes@) == Some(text@),
            },
    {
        match read_verifying_key(&self.bytes) {
            Ok(bytes) => Ok(UserPublicKey { id: UserId { bytes } }),
            Err(text) => Err(text),
        }
    }
}

/// Identifies a namespace: the bytes of an Ed25519 public key.
#[derive(Clone, Copy, Debug, Eq, Hash)]
pub struct NamespaceId {
    pub bytes: [u8; 32],
}

impl PartialEq for NamespaceId {
    fn eq(&self, other: &Self) -> (r: bool) {
        keys_equal(&self.bytes, &other.bytes)
    }
}

impl vstd::std_specs::cmp::PartialEqSpecImpl for NamespaceId {
    open spec fn obeys_eq_spec() -> bool {
        true
    }

    open spec fn eq_spec(&self, other: &Self) -> bool {
        *self == *other
    }
}

impl From<[u8; 32]> for NamespaceId {
    fn from(bytes: [u8; 32]) -> (r: Self) {
        NamespaceId { bytes }
    }
}

impl vstd::std_specs::convert::FromSpecImpl<[u8; 32]> for NamespaceId {
    open spec fn obeys_from_spec() -> bool {
        true
    }

    open spec fn from_spec(bytes: [u8; 32]) -> Self {
        NamespaceId { bytes }
    }
}

impl NamespaceId {
    pub fn as_bytes(&self) -> (r: &[u8; 32])
        ensures
            *r == self.bytes,
    {
        &self.bytes
    }
}

/// A public key of a user: an identifier that is known to be a point of the curve.
#[derive(Clone, Copy, Debug)]
pub struct UserPublicKey {
    id: UserId,
}

impl View for UserPublicKey {
    type V = UserId;

    closed spec fn view(&self) -> UserId {
        self.id
    }
}

impl UserPublicKey {
    #[verifier::type_invariant]
    spec fn on_curve(&self) -> bool {
        verifying_key_error(self.id.bytes@) is None
    }

    pub fn id(&self) -> (r: UserId)
        ensures
            r == self@,
            verifying_key_error(r.bytes@) is None,
    {
        proof {
            use_type_invariant(self);
        }
        self.id
    }
}

/// The secret key of a user.
#[derive(Clone, Copy, Debug)]
pub struct UserSecretKey {
    pub bytes: [u8; 32],
}

impl UserSecretKey {
    pub fn from_bytes(bytes: &[u8; 32]) -> (r: Self)
        ensures
            r.bytes == *bytes,
    {
        UserSecretKey { bytes: *bytes }
    }

    pub fn to_bytes(&self) -> (r: [u8; 32])
        ensures
            r == self.bytes,
    {
        self.bytes
    }

    /// The identifier of the user who holds this key.
    pub open spec fn spec_id(&self) -> UserId {
        UserId { bytes: public_key_bytes(self.bytes) }
    }

    pub fn public_key(&self) -> (r: UserPublicKey)
        ensures
            r@ == self.spec_id(),
            verifying_key_error(r@.bytes@) is None,
    {
        UserPublicKey { id: UserId { bytes: derive_public_key(&self.bytes) } }
    }
}

/// The secret key of a namespace.
#[derive(Clone, Copy, Debug)]
pub struct NamespaceSecretKey {
    pub bytes: [u8; 32],
}

impl NamespaceSecretKey {
    pub fn from_bytes(bytes: &[u8; 32]) -> (r: Self)
        ensures
            r.bytes == *bytes,
    {
        NamespaceSecretKey { bytes: *bytes }
    }

    pub fn to_bytes(&self) -> (r: [u8; 32])
        ensures
            r == self.bytes,
    {
        self.bytes
    }

    /// The identifier of the namespace that this key owns.
    pub open spec fn spec_id(&self) -> NamespaceId {
        NamespaceId { bytes: public_key_bytes(self.bytes) }
    }

    pub fn id(&self) -> (r: NamespaceId)
        ensures
            r == self.spec_id(),
            verifying_key_error(r.bytes@) is None,
    {
        NamespaceId { bytes: derive_public_key(&self.bytes) }
    }
}

/// Why `ed25519_dalek::VerifyingKey::from_bytes` rejects 32 bytes, in the words
/// of its error; `None` where it accepts them.
pub uninterp spec fn verifying_key_error(bytes: Seq<u8>) -> Option<Seq<char>>;

/// The public key that belongs to the 32 bytes of a secret key, as
/// `ed25519_dalek::SigningKey::verifying_key` derives it.
pub uninterp spec fn public_key_bytes(secret: [u8; 32]) -> [u8; 32];

/// Calls `ed25519_dalek::VerifyingKey::from_bytes`. Whether the bytes are
/// accepted, and the text of the error where they are not, depends on the bytes
/// alone; an accepted key has the bytes it was read from.
#[verifier::external_body]
pub(crate) fn read_verifying_key(bytes: &[u8; 32]) -> (r: Result<[u8; 32], String>)
    ensures
        match r {
            Ok(key) => key == *bytes && verifying_key_error(bytes@) is None,
            Err(text) => verifying_key_error(bytes@) == Some(text@),
        },
{
    match ed25519_dalek::VerifyingKey::from_bytes(bytes) {
        Ok(key) => Ok(key.to_bytes()),
        Err(e) => Err(e.to_string()),
    }
}

/// Calls `ed25519_dalek::SigningKey::verifying_key` on the key with the given
/// secret bytes. The result depends on the secret alone, and it is the encoding
/// of a point, so it is accepted when it is read back.
#[verifier::external_body]
pub(crate) fn derive_public_key(secret: &[u8; 32]) -> (r: [u8; 32])
    ensures
        r == public_key_bytes(*secret),
        verifying_key_error(r@) is None,
{
    ed25519_dalek::SigningKey::from_bytes(secret).verifying_key().to_bytes()
}

} // verus!
