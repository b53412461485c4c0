//! Paths, payload digests and entries.

use vstd::prelude::*;

use super::keys::{NamespaceId, UserId};
use crate::text::{byte_views, bytes_equal, concat_text, copy_bytes, decimal, decimal_text, keys_equal, zero_bytes};
use crate::uwill::invocation::UWillInvocationView;
use crate::uwill::UWillInvocation;

verus! {

/// The most bytes a component of a path can have.
pub const MAX_COMPONENT_LENGTH: usize = 4096;

/// The most components a path can have.
pub const MAX_COMPONENT_COUNT: usize = 1024;

/// The most bytes all components of a path together can have.
pub const MAX_PATH_LENGTH: usize = 4096;

/// A subspace is identified by the user who owns it.
pub type SubspaceId = UserId;

/// Microseconds since the Unix epoch.
pub type Timestamp = u64;

/// The number of bytes in all the components together.
pub open spec fn total_length(components: Seq<Seq<u8>>) -> nat
    decreases components.len(),
{
    if components.len() == 0 {
        0
    } else {
        total_length(components.drop_last()) + components.last().len()
    }
}

/// The index of the first component with more bytes than a component can have.
pub open spec fn first_long_component(components: Seq<Seq<u8>>, from: int) -> Option<int>
    decreases components.len() - from,
{
    if from >= components.len() {
        None
    } else if components[from].len() > MAX_COMPONENT_LENGTH {
        Some(from)
    } else {
        first_long_component(components, from + 1)
    }
}

/// Why the components cannot be those of a path; `None` where they can.
pub open spec fn path_error(components: Seq<Seq<u8>>) -> Option<InvalidPathError> {
    if first_long_component(components, 0) is Some {
        Some(InvalidPathError::ComponentTooLong(first_long_component(components, 0)->0 as usize))
    } else if total_length(components) > MAX_PATH_LENGTH {
        Some(InvalidPathError::PathTooLong)
    } else if components.len() > MAX_COMPONENT_COUNT {
        Some(InvalidPathError::TooManyComponents)
    } else {
        None
    }
}

/// Why a sequence of components is not a path.
#[derive(Clone, Copy, Debug, PartialEq, Eq, Structural)]
pub enum InvalidPathError {
    /// The component at this index has too many bytes.
    ComponentTooLong(usize),
    /// The components together have too many bytes.
    PathTooLong,
    /// There are too many components.
    TooManyComponents,
}

impl InvalidPathError {
    /// The message of the error.
    pub open spec fn spec_message(self) -> Seq<char> {
        match self {
            InvalidPathError::ComponentTooLong(i) => "Length of a path component exceeded the maximum component length at index "@
                + decimal(i as nat),
            InvalidPathError::PathTooLong => "Total length of a path in bytes exceeded the maximum path length"@,
            InvalidPathError::TooManyComponents => "Number of components of a path exceeded the maximum component count"@,
        }
    }

    /// The message of the error.
    pub fn message(&self) -> (r: String)
        ensures
            r@ == self.spec_message(),
    {
        match self {
            InvalidPathError::ComponentTooLong(i) => concat_text(
                "Length of a path component exceeded the maximum component length at index ",
                decimal_text(*i).as_str(),
            ),
            InvalidPathError::PathTooLong => {
                "Total length of a path in bytes exceeded the maximum path length".to_owned()
            },
            InvalidPathError::TooManyComponents => {
                "Number of components of a path exceeded the maximum component count".to_owned()
            },
        }
    }
}

/// A sequence of components, each a byte string, within the limits above.
#[derive(Debug)]
pub struct Path {
    components: Vec<Vec<u8>>,
}

impl View for Path {
    type V = Seq<Seq<u8>>;

    closed spec fn view(&self) -> Seq<Seq<u8>> {
        byte_views(self.components@)
    }
}

impl Clone for Path {
    fn clone(&self) -> (r: Self)
        ensures
            r@ == self@,
    {
        proof {
            use_type_invariant(self);
        }
        let components = copy_components(&self.components);
        Path { components }
    }
}

fn copy_components(components: &Vec<Vec<u8>>) -> (r: Vec<Vec<u8>>)
    ensures
        byte_views(r@) == byte_views(components@),
{
    let mut out: Vec<Vec<u8>> = Vec::new();
    let mut i: usize = 0;
    while i < components.len()
        invariant
            i <= components.len(),
            out@.len() == i,
            forall|j: int| 0 <= j < i ==> (#[trigger] out@[j])@ == components@[j]@,
        decreases components.len() - i,
    {
        out.push(copy_bytes(components[i].as_slice()));
        i += 1;
    }
    assert(byte_views(out@) =~= byte_views(components@));
    out
}

impl Path {
    /// The components are within the limits.
    #[verifier::type_invariant]
    pub open spec fn within_limits(&self) -> bool {
        path_error(self@) is None
    }

    /// The path without components.
    pub fn new_empty() -> (r: Self)
        ensures
            r@ == Seq::<Seq<u8>>::empty(),
    {
        let components: Vec<Vec<u8>> = Vec::new();
        assert(byte_views(components@) =~= Seq::<Seq<u8>>::empty());
        Path { components }
    }

    /// The path with the given components, where they are within the limits.
    pub fn from_bytes(slices: &[&[u8]]) -> (r: Result<Self, InvalidPathError>)
        ensures
            match r {
                Ok(path) => path@ == slices@.map_values(|s: &[u8]| s@) && path_error(path@) is None,
                Err(e) => path_error(slices@.map_values(|s: &[u8]| s@)) == Some(e),
            },
    {
        let mut components: Vec<Vec<u8>> = Vec::new();
        let mut i: usize = 0;
        while i < slices.len()
            invariant
                i <= slices.len(),
                components@.len() == i,
                forall|j: int| 0 <= j < i ==> (#[trigger] components@[j])@ == slices@[j]@,
            decreases slices.len() - i,
        {
            components.push(copy_bytes(slices[i]));
            i += 1;
        }
        assert(byte_views(components@) =~= slices@.map_values(|s: &[u8]| s@));
        Path::from_components(components)
    }

    /// The path with the given components, where they are within the limits.
    pub fn from_components(components: Vec<Vec<u8>>) -> (r: Result<Self, InvalidPathError>)
        ensures
            match r {
                Ok(path) => path@ == byte_views(components@) && path_error(path@) is None,
                Err(e) => path_error(byte_views(components@)) == Some(e),
            },
    {
        let ghost views = byte_views(components@);
        let mut total: usize = 0;
        let mut i: usize = 0;
        while i < components.len()
            invariant
                i <= components.len(),
                views == byte_views(components@),
                first_long_component(views, 0) == first_long_component(views, i as int),
                total <= MAX_PATH_LENGTH + 1,
                total <= MAX_PATH_LENGTH ==> total == total_length(views.take(i as int)),
                total > MAX_PATH_LENGTH ==> total_length(views.take(i as int)) > MAX_PATH_LENGTH,
            decreases components.len() - i,
        {
            let length: usize = components[i].len();
            proof {
                assert(views[i as int].len() == length);
                assert(views.take(i + 1).drop_last() =~= views.take(i as int));
            }
            if length > MAX_COMPONENT_LENGTH {
                return Err(InvalidPathError::ComponentTooLong(i));
            }
            if total + length > MAX_PATH_LENGTH {
                total = MAX_PATH_LENGTH + 1;
            } else {
                total = total + length;
            }
            i += 1;
        }
        assert(views.take(views.len() as int) =~= views);
        if total > MAX_PATH_LENGTH {
            return Err(InvalidPathError::PathTooLong);
        }
        if components.len() > MAX_COMPONENT_COUNT {
            return Err(InvalidPathError::TooManyComponents);
        }
        Ok(Path { components })
    }

    pub fn is_empty(&self) -> (r: bool)
        ensures
            r == (self@.len() == 0),
    {
        self.components.len() == 0
    }

    /// The number of components.
    pub fn component_count(&self) -> (r: usize)
        ensures
            r == self@.len(),
    {
        self.components.len()
    }

    /// The component at index `i`.
    pub fn component(&self, i: usize) -> (r: &[u8])
        requires
            i < self@.len(),
        ensures
            r@ == self@[i as int],
    {
        self.components[i].as_slice()
    }

    /// Whether the components of this path are the first components of `other`.
    pub fn is_prefix_of(&self, other: &Path) -> (r: bool)
        ensures
            r == self@.is_prefix_of(other@),
    {
        if self.components.len() > other.components.len() {
            return false;
        }
        let mut i: usize = 0;
        while i < self.components.len()
            invariant
                i <= self.components.len() <= other.components.len(),
                forall|j: int| 0 <= j < i ==> self@[j] == other@[j],
            decreases self.components.len() - i,
        {
            if !bytes_equal(self.components[i].as_slice(), other.components[i].as_slice()) {
                assert(self@[i as int] != other@[i as int]);
                return false;
            }
            assert(self@[i as int] == other@[i as int]);
            i += 1;
        }
        assert(self@ =~= other@.subrange(0, self@.len() as int));
        true
    }
}

impl PartialEq for Path {
    fn eq(&self, other: &Self) -> (r: bool) {
        if self.components.len() != other.components.len() {
            return false;
        }
        let r = self.is_prefix_of(other);
        assert(r ==> self@ =~= other@);
        assert(!r ==> self@ != other@) by {
            if self@ == other@ {
                assert(self@ =~= other@.subrange(0, self@.len() as int));
            }
        }
        r
    }
}

impl vstd::std_specs::cmp::PartialEqSpecImpl for Path {
    open spec fn obeys_eq_spec() -> bool {
        true
    }

    open spec fn eq_spec(&self, other: &Self) -> bool {
        self@ == other@
    }
}

/// The digest of a payload.
#[derive(Clone, Copy, Debug, Eq, Hash)]
pub struct PayloadDigest {
    pub bytes: [u8; 32],
}

impl PartialEq for PayloadDigest {
    fn eq(&self, other: &Self) -> (r: bool) {
        keys_equal(&self.bytes, &other.bytes)
    }
}

impl vstd::std_specs::cmp::PartialEqSpecImpl for PayloadDigest {
    open spec fn obeys_eq_spec() -> bool {
        true
    }

    open spec fn eq_spec(&self, other: &Self) -> bool {
        *self == *other
    }
}

impl Default for PayloadDigest {
    fn default() -> (r: Self)
        ensures
            r.bytes == zero_bytes(),
    {
        PayloadDigest { bytes: [0; 32] }
    }
}

/// What an entry says.
pub struct EntryView {
    pub namespace_id: NamespaceId,
    pub subspace_id: SubspaceId,
    pub path: Seq<Seq<u8>>,
    pub timestamp: Timestamp,
    pub payload_length: u64,
    pub payload_digest: PayloadDigest,
}

/// The metadata of a payload: where it was written, when, and which bytes it has.
#[derive(Debug)]
pub struct Entry {
    namespace_id: NamespaceId,
    subspace_id: SubspaceId,
    path: Path,
    timestamp: Timestamp,
    payload_length: u64,
    payload_digest: PayloadDigest,
}

impl View for Entry {
    type V = EntryView;

    closed spec fn view(&self) -> EntryView {
        EntryView {
            namespace_id: self.namespace_id,
            subspace_id: self.subspace_id,
            path: self.path@,
            timestamp: self.timestamp,
            payload_length: self.payload_length,
            payload_digest: self.payload_digest,
        }
    }
}

impl Clone for Entry {
    fn clone(&self) -> (r: Self)
        ensures
            r@ == self@,
    {
        Entry {
            namespace_id: self.namespace_id,
            subspace_id: self.subspace_id,
            path: self.path.clone(),
            timestamp: self.timestamp,
            payload_length: self.payload_length,
            payload_digest: self.payload_digest,
        }
    }
}

impl Entry {
    pub fn new(
        namespace_id: NamespaceId,
        subspace_id: SubspaceId,
        path: Path,
        timestamp: Timestamp,
        payload_length: u64,
        payload_digest: PayloadDigest,
    ) -> (r: Self)
        ensures
            r@ == (EntryView {
                namespace_id,
                subspace_id,
                path: path@,
                timestamp,
                payload_length,
                payload_digest,
            }),
    {
        Entry { namespace_id, subspace_id, path, timestamp, payload_length, payload_digest }
    }

    pub fn namespace_id(&self) -> (r: &NamespaceId)
        ensures
            *r == self@.namespace_id,
    {
        &self.namespace_id
    }

    pub fn subspace_id(&self) -> (r: &SubspaceId)
        ensures
            *r == self@.subspace_id,
    {
        &self.subspace_id
    }

    pub fn path(&self) -> (r: &Path)
        ensures
            r@ == self@.path,
    {
        &self.path
    }

    pub fn timestamp(&self) -> (r: Timestamp)
        ensures
            r == self@.timestamp,
    {
        self.timestamp
    }

    pub fn payload_length(&self) -> (r: u64)
        ensures
            r == self@.payload_length,
    {
        self.payload_length
    }

    pub fn payload_digest(&self) -> (r: &PayloadDigest)
        ensures
            *r == self@.payload_digest,
    {
        &self.payload_digest
    }
}

/// An entry with the token that authorises to write it.
#[derive(Debug)]
pub struct AuthorisedEntry {
    entry: Entry,
    token: UWillInvocation,
}

impl AuthorisedEntry {
    pub closed spec fn spec_entry(&self) -> EntryView {
        self.entry@
    }

    pub closed spec fn spec_token(&self) -> UWillInvocationView {
        self.token@
    }

    /// An entry with a token that was found to authorise to write it.
    pub fn new_unchecked(entry: Entry, token: UWillInvocation) -> (r: Self)
        ensures
            r.spec_entry() == entry@,
            r.spec_token() == token@,
    {
        AuthorisedEntry { entry, token }
    }

    pub fn entry(&self) -> (r: &Entry)
        ensures
            r@ == self.spec_entry(),
    {
        &self.entry
    }

    pub fn token(&self) -> (r: &UWillInvocation)
        ensures
            r@ == self.spec_token(),
    {
        &self.token
    }
}

/// A path is within the limits exactly if no component, nor all of them together, has too many
/// bytes, and there are not too many of them. Where it is not, the error names the first limit
/// that is passed and, of the components, the first that is too long.
pub proof fn law_path_limits(components: Seq<Seq<u8>>)
    requires
        components.len() <= usize::MAX,
    ensures
        path_error(components) is None <==> {
            &&& forall|i: int| 0 <= i < components.len() ==> (#[trigger] components[i]).len() <= 4096
            &&& components.flatten().len() <= 4096
            &&& components.len() <= 1024
        },
        path_error(components) matches Some(InvalidPathError::ComponentTooLong(k)) ==> {
            &&& k < components.len()
            &&& components[k as int].len() > 4096
            &&& forall|i: int| 0 <= i < k ==> (#[trigger] components[i]).len() <= 4096
        },
        path_error(components) matches Some(InvalidPathError::PathTooLong) ==> {
            &&& forall|i: int| 0 <= i < components.len() ==> (#[trigger] components[i]).len() <= 4096
            &&& components.flatten().len() > 4096
        },
        path_error(components) matches Some(InvalidPathError::TooManyComponents) ==> {
            &&& forall|i: int| 0 <= i < components.len() ==> (#[trigger] components[i]).len() <= 4096
            &&& components.flatten().len() <= 4096
            &&& components.len() > 1024
        },
{
    lemma_total_length(components);
    components.lemma_flatten_and_flatten_alt_are_equivalent();
    lemma_first_long(components, 0);
}

proof fn lemma_total_length(components: Seq<Seq<u8>>)
    ensures
        total_length(components) == components.flatten_alt().len(),
    decreases components.len(),
{
    if components.len() > 0 {
        lemma_total_length(components.drop_last());
    }
}

proof fn lemma_first_long(components: Seq<Seq<u8>>, from: int)
    requires
        0 <= from <= components.len(),
    ensures
        match first_long_component(components, from) {
            Some(k) => {
                &&& from <= k < components.len()
                &&& components[k].len() > 4096
                &&& forall|i: int| from <= i < k ==> (#[trigger] components[i]).len() <= 4096
            },
            None => forall|i: int|
                from <= i < components.len() ==> (#[trigger] components[i]).len() <= 4096,
        },
    decreases components.len() - from,
{
    if from < components.len() && components[from].len() <= 4096 {
        lemma_first_long(components, from + 1);
    }
}

} // verus!
