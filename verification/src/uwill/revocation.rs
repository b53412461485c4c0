//! Revoked delegations.
//!
//! Each peer keeps the content identifiers of the delegations that it knows to be
//! revoked. A chain with one of them is revoked as a whole.

use vstd::prelude::*;

use super::chain::{ChainView, UWillChain};
use super::ucan::{cid_views, Cid};

verus! {

/// Whether one of the delegations of the chain is revoked.
pub open spec fn chain_revoked(revoked: Set<Seq<u8>>, chain: ChainView) -> bool {
    exists|i: int|
        0 <= i < chain.delegations.len() && revoked.contains(
            (#[trigger] chain.delegations[i]).cid,
        )
}

/// The content identifiers of revoked delegations.
#[derive(Debug)]
pub struct RevocationStore {
    revoked: Vec<Cid>,
}

impl View for RevocationStore {
    type V = Set<Seq<u8>>;

    closed spec fn view(&self) -> Set<Seq<u8>> {
        cid_views(self.revoked@).to_set()
    }
}

impl Default for RevocationStore {
    fn default() -> (r: Self)
        ensures
            r@ == Set::<Seq<u8>>::empty(),
    {
        let r = RevocationStore { revoked: Vec::new() };
        assert(r@ =~= Set::<Seq<u8>>::empty());
        r
    }
}

impl Clone for RevocationStore {
    fn clone(&self) -> (r: Self)
        ensures
            r@ == self@,
    {
        proof {
            use_type_invariant(self);
        }
        RevocationStore { revoked: super::ucan::copy_cids(self.revoked.as_slice()) }
    }
}

impl RevocationStore {
    /// No identifier is kept twice.
    #[verifier::type_invariant]
    spec fn kept_once(&self) -> bool {
        cid_views(self.revoked@).no_duplicates()
    }

    /// A store without revoked delegations.
    pub fn new() -> (r: Self)
        ensures
            r@ == Set::<Seq<u8>>::empty(),
    {
        Self::default()
    }

    /// Whether the delegation with this identifier is revoked.
    pub fn is_revoked(&self, cid: &Cid) -> (r: bool)
        ensures
            r == self@.contains(cid@),
    {
        let ghost views = cid_views(self.revoked@);
        let mut i: usize = 0;
        while i < self.revoked.len()
            invariant
                i <= self.revoked.len(),
                views == cid_views(self.revoked@),
                forall|j: int| 0 <= j < i ==> views[j] != cid@,
            decreases self.revoked.len() - i,
        {
            assert(views[i as int] == self.revoked@[i as int]@);
            if self.revoked[i] == *cid {
                assert(views.contains(cid@));
                return true;
            }
            i += 1;
        }
        assert(!views.contains(cid@));
        false
    }

    /// Revokes the delegation with this identifier, whether it has been seen or not.
    pub fn revoke(&mut self, cid: Cid)
        ensures
            final(self)@ == old(self)@.insert(cid@),
    {
        proof {
            use_type_invariant(&*self);
        }
        let ghost before = cid_views(self.revoked@);
        let ghost added = cid@;
        if self.is_revoked(&cid) {
            assert(before.to_set().insert(added) =~= before.to_set());
            return;
        }
        let mut revoked: Vec<Cid> = Vec::new();
        std::mem::swap(&mut revoked, &mut self.revoked);
        revoked.push(cid);
        proof {
            assert(cid_views(revoked@) =~= before.push(added));
            assert(!before.contains(added));
            assert(before.push(added).no_duplicates());
            assert forall|c: Seq<u8>| before.push(added).contains(c) <==> (before.contains(c) || c
                == added) by {
                if before.contains(c) {
                    let k = choose|k: int| 0 <= k < before.len() && before[k] == c;
                    assert(before.push(added)[k] == c);
                }
                if c == added {
                    assert(before.push(added)[before.len() as int] == c);
                }
            }
            assert(before.push(added).to_set() =~= before.to_set().insert(added));
        }
        self.revoked = revoked;
    }

    /// Whether a delegation of the chain is revoked.
    pub fn chain_is_revoked(&self, chain: &UWillChain) -> (r: bool)
        ensures
            r == chain_revoked(self@, chain@),
    {
        if self.revoked.len() == 0 {
            assert(self@ =~= Set::<Seq<u8>>::empty());
            return false;
        }
        let cids = chain.delegation_cids();
        let ghost views = chain@.cids();
        proof {
            assert(cid_views(cids@).len() == cids@.len());
            assert(views.len() == chain@.delegations.len());
        }
        let mut i: usize = 0;
        while i < cids.len()
            invariant
                i <= cids.len(),
                cids@.len() == chain@.delegations.len(),
                views == cid_views(cids@),
                views == chain@.cids(),
                forall|j: int|
                    0 <= j < i ==> !self@.contains((#[trigger] chain@.delegations[j]).cid),
            decreases cids.len() - i,
        {
            assert(views[i as int] == cids@[i as int]@);
            assert(views[i as int] == chain@.delegations[i as int].cid);
            if self.is_revoked(&cids[i]) {
                return true;
            }
            i += 1;
        }
        false
    }

    /// The number of revoked delegations.
    pub fn len(&self) -> (r: usize)
        ensures
            self@.finite(),
            r == self@.len(),
    {
        proof {
            use_type_invariant(self);
            cid_views(self.revoked@).unique_seq_to_set();
        }
        self.revoked.len()
    }

    pub fn is_empty(&self) -> (r: bool)
        ensures
            r == (self@ == Set::<Seq<u8>>::empty()),
    {
        let r = self.revoked.len() == 0;
        proof {
            if r {
                assert(self@ =~= Set::<Seq<u8>>::empty());
            } else {
                assert(cid_views(self.revoked@).contains(cid_views(self.revoked@)[0]));
                assert(self@.contains(cid_views(self.revoked@)[0]));
            }
        }
        r
    }
}

/// Revoking a delegation revokes exactly the chains that have it, and leaves those
/// revoked that were.
pub proof fn law_revocation_revokes_chains_with_it(
    revoked: Set<Seq<u8>>,
    cid: Seq<u8>,
    chain: ChainView,
)
    ensures
        chain_revoked(revoked.insert(cid), chain) <==> chain_revoked(revoked, chain)
            || chain.cids().contains(cid),
{
    let more = revoked.insert(cid);
    if chain_revoked(revoked, chain) {
        let i = choose|i: int|
            0 <= i < chain.delegations.len() && revoked.contains(
                (#[trigger] chain.delegations[i]).cid,
            );
        assert(more.contains(chain.delegations[i].cid));
    }
    if chain.cids().contains(cid) {
        let i = choose|i: int| 0 <= i < chain.cids().len() && chain.cids()[i] == cid;
        assert(more.contains(chain.delegations[i].cid));
    }
    if chain_revoked(more, chain) {
        let i = choose|i: int|
            0 <= i < chain.delegations.len() && more.contains(
                (#[trigger] chain.delegations[i]).cid,
            );
        assert(chain.cids()[i] == chain.delegations[i].cid);
        if chain.delegations[i].cid != cid {
            assert(revoked.contains(chain.delegations[i].cid));
        }
    }
}

/// A revoked chain stays revoked however far it is delegated.
pub proof fn law_revocation_cascades(revoked: Set<Seq<u8>>, chain: ChainView, longer: ChainView)
    requires
        chain_revoked(revoked, chain),
        chain.delegations.is_prefix_of(longer.delegations),
    ensures
        chain_revoked(revoked, longer),
{
    let i = choose|i: int|
        0 <= i < chain.delegations.len() && revoked.contains(
            (#[trigger] chain.delegations[i]).cid,
        );
    assert(longer.delegations.subrange(0, chain.delegations.len() as int)[i]
        == longer.delegations[i]);
    assert(revoked.contains(longer.delegations[i].cid));
}

/// Revoking only the last delegation of a longer chain, which has an identifier of its own,
/// revokes that chain and leaves the shorter one as it was.
pub proof fn law_revoking_the_last_spares_the_rest(
    revoked: Set<Seq<u8>>,
    chain: ChainView,
    longer: ChainView,
)
    requires
        longer.delegations.len() > 0,
        longer.delegations.drop_last() == chain.delegations,
        !chain.cids().contains(longer.delegations.last().cid),
    ensures
        chain_revoked(revoked.insert(longer.delegations.last().cid), longer),
        chain_revoked(revoked.insert(longer.delegations.last().cid), chain) <==> chain_revoked(
            revoked,
            chain,
        ),
{
    let cid = longer.delegations.last().cid;
    law_revocation_revokes_chains_with_it(revoked, cid, chain);
    assert(revoked.insert(cid).contains(longer.delegations[longer.delegations.len() - 1].cid));
}

/// Revoking twice is revoking once, and the order of revocations makes no difference.
pub proof fn law_revocations_form_a_set(revoked: Set<Seq<u8>>, a: Seq<u8>, b: Seq<u8>)
    ensures
        revoked.insert(a).insert(a) == revoked.insert(a),
        revoked.insert(a).insert(b) == revoked.insert(b).insert(a),
{
    assert(revoked.insert(a).insert(a) =~= revoked.insert(a));
    assert(revoked.insert(a).insert(b) =~= revoked.insert(b).insert(a));
}

/// A chain is revoked exactly if the identifier of one of its delegations was revoked; so with
/// nothing revoked no chain is.
pub proof fn law_chain_is_revoked_iff(revoked: Set<Seq<u8>>, chain: ChainView)
    ensures
        chain_revoked(revoked, chain) <==> exists|i: int|
            0 <= i < chain.delegations.len() && revoked.contains(
                (#[trigger] chain.delegations[i]).cid,
            ),
        !chain_revoked(Set::empty(), chain),
{
}

} // verus!
