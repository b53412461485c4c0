//! Chains that are bound to handles during a session.

use vstd::prelude::*;

use crate::uwill::chain::ChainView;
use crate::uwill::UWillChain;

verus! {

/// Chains by handle. The handles are consecutive numbers, from zero on.
#[derive(Debug)]
pub struct ResourceMap {
    resources: Vec<UWillChain>,
}

/// What the chains say.
pub open spec fn chain_views(chains: Seq<UWillChain>) -> Seq<ChainView> {
    chains.map_values(|chain: UWillChain| chain@)
}

impl View for ResourceMap {
    type V = Seq<ChainView>;

    closed spec fn view(&self) -> Seq<ChainView> {
        chain_views(self.resources@)
    }
}

/// The first handle, from `from` on, that is bound to the same capability as the chain.
pub open spec fn first_handle(resources: Seq<ChainView>, chain: ChainView, from: int) -> Option<int>
    decreases resources.len() - from,
{
    if from >= resources.len() {
        None
    } else if resources[from].same_capability(chain) {
        Some(from)
    } else {
        first_handle(resources, chain, from + 1)
    }
}

impl ResourceMap {
    /// No handle is bound.
    pub fn new() -> (r: Self)
        ensures
            r@ == Seq::<ChainView>::empty(),
    {
        let r = ResourceMap { resources: Vec::new() };
        assert(r@ =~= Seq::<ChainView>::empty());
        r
    }

    /// Binds the chain to the next handle.
    pub fn bind(&mut self, resource: UWillChain) -> (handle: u64)
        ensures
            final(self)@ == old(self)@.push(resource@),
            handle == old(self)@.len(),
    {
        let handle: u64 = self.resources.len() as u64;
        self.resources.push(resource);
        assert(self@ =~= old(self)@.push(resource@));
        handle
    }

    /// The handle that is bound to the same capability, if there is one.
    pub fn find(&self, resource: &UWillChain) -> (r: Option<u64>)
        ensures
            match r {
                Some(handle) => first_handle(self@, resource@, 0) == Some(handle as int),
                None => first_handle(self@, resource@, 0) is None,
            },
    {
        let mut i: usize = 0;
        while i < self.resources.len()
            invariant
                i <= self.resources.len(),
                first_handle(self@, resource@, 0) == first_handle(self@, resource@, i as int),
            decreases self.resources.len() - i,
        {
            assert(self@[i as int] == self.resources@[i as int]@);
            if self.resources[i] == *resource {
                return Some(i as u64);
            }
            i += 1;
        }
        None
    }

    /// Binds the chain to the next handle, unless the same capability is bound. Gives the
    /// handle, and whether it is new.
    pub fn bind_if_new(&mut self, resource: UWillChain) -> (r: (u64, bool))
        ensures
            match first_handle(old(self)@, resource@, 0) {
                Some(handle) => r.0 == handle && !r.1 && final(self)@ == old(self)@,
                None => r.0 == old(self)@.len() && r.1 && final(self)@ == old(self)@.push(
                    resource@,
                ),
            },
    {
        match self.find(&resource) {
            Some(handle) => (handle, false),
            None => (self.bind(resource), true),
        }
    }

    /// The chain that is bound to the handle, once there is one.
    pub fn get(&self, handle: u64) -> (r: Option<&UWillChain>)
        ensures
            match r {
                Some(chain) => handle < self@.len() && chain@ == self@[handle as int],
                None => handle >= self@.len(),
            },
    {
        if handle < self.resources.len() as u64 {
            Some(&self.resources[handle as usize])
        } else {
            None
        }
    }
}

/// Binding a capability a second time gives the first handle.
pub proof fn law_binding_twice_gives_one_handle(resources: Seq<ChainView>, chain: ChainView)
    ensures
        first_handle(resources, chain, 0) is None ==> first_handle(resources.push(chain), chain, 0)
            == Some(resources.len() as int),
        first_handle(resources, chain, 0) is Some ==> {
            let handle = first_handle(resources, chain, 0)->0;
            0 <= handle < resources.len() && resources[handle].same_capability(chain)
        },
{
    lemma_first_handle(resources, chain, 0);
    if first_handle(resources, chain, 0) is None {
        lemma_first_handle_pushed(resources, chain, 0);
    }
}

proof fn lemma_first_handle(resources: Seq<ChainView>, chain: ChainView, from: int)
    requires
        0 <= from <= resources.len(),
    ensures
        first_handle(resources, chain, from) matches Some(handle) ==> from <= handle
            < resources.len() && resources[handle].same_capability(chain),
    decreases resources.len() - from,
{
    if from < resources.len() {
        lemma_first_handle(resources, chain, from + 1);
    }
}

proof fn lemma_first_handle_pushed(resources: Seq<ChainView>, chain: ChainView, from: int)
    requires
        0 <= from <= resources.len(),
        first_handle(resources, chain, from) is None,
    ensures
        first_handle(resources.push(chain), chain, from) == Some(resources.len() as int),
    decreases resources.len() - from,
{
    reveal_with_fuel(first_handle, 2);
    if from < resources.len() {
        assert(resources.push(chain)[from] == resources[from]);
        lemma_first_handle_pushed(resources, chain, from + 1);
    }
}

/// The handle that is found is the first one with a capability of the same namespace, user,
/// area and command; none is found exactly if there is no such one.
pub proof fn law_which_handle_is_found(resources: Seq<ChainView>, chain: ChainView, handle: int)
    ensures
        first_handle(resources, chain, 0) == Some(handle) <==> {
            &&& 0 <= handle < resources.len()
            &&& is_same(resources[handle], chain)
            &&& forall|j: int| 0 <= j < handle ==> !is_same(#[trigger] resources[j], chain)
        },
        first_handle(resources, chain, 0) is None <==> forall|j: int|
            0 <= j < resources.len() ==> !is_same(#[trigger] resources[j], chain),
{
    lemma_found_handle(resources, chain, 0);
}

/// Whether two chains give the same user the same command over the same area of the same
/// namespace.
pub open spec fn is_same(a: ChainView, b: ChainView) -> bool {
    &&& a.namespace() == b.namespace()
    &&& a.receiver() == b.receiver()
    &&& a.area == b.area
    &&& a.command == b.command
}

proof fn lemma_found_handle(resources: Seq<ChainView>, chain: ChainView, from: int)
    requires
        0 <= from <= resources.len(),
    ensures
        match first_handle(resources, chain, from) {
            Some(h) => {
                &&& from <= h < resources.len()
                &&& is_same(resources[h], chain)
                &&& forall|j: int| from <= j < h ==> !is_same(#[trigger] resources[j], chain)
            },
            None => forall|j: int|
                from <= j < resources.len() ==> !is_same(#[trigger] resources[j], chain),
        },
    decreases resources.len() - from,
{
    if from < resources.len() {
        lemma_found_handle(resources, chain, from + 1);
    }
}

} // verus!
