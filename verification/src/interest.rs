//! What a peer is interested in, and capabilities as they are handed around.

use vstd::prelude::*;

use crate::assoc::{has_key, keys_differ, lemma_pairs_get, lemma_pairs_keys, lemma_pairs_len, lemma_pairs_push, lemma_pairs_update, pairs_map};
use crate::proto::grouping::{Area, AreaOfInterest, AreaOfInterestView, AreaView};
use crate::proto::keys::{NamespaceId, UserId};
use crate::proto::meadowcap::{AccessMode, ReadAuthorisation, ReadAuthorisationView, WriteCapability};
use crate::uwill::chain::ChainView;
use crate::uwill::{UWillChain, WillowCommand};

verus! {

/// Selects a capability: one for the namespace, of the receiver, if one is given, and
/// over the area, if one is given.
#[derive(Debug)]
pub struct CapSelector {
    pub namespace_id: NamespaceId,
    pub receiver: Option<UserId>,
    pub granted_area: Option<Area>,
}

impl CapSelector {
    /// Whether the capability is selected.
    pub open spec fn selects(self, chain: ChainView) -> bool {
        &&& chain.namespace() == self.namespace_id
        &&& self.receiver matches Some(user) ==> chain.receiver() == user
        &&& self.granted_area matches Some(area) ==> chain.area.includes_area(area@)
    }
}

/// To which area a delegation is restricted.
#[derive(Debug)]
pub enum RestrictArea {
    /// Not at all.
    Unrestricted,
    /// To this area.
    Restrict(Area),
}

impl View for RestrictArea {
    type V = Option<AreaView>;

    open spec fn view(&self) -> Option<AreaView> {
        match self {
            RestrictArea::Unrestricted => None,
            RestrictArea::Restrict(area) => Some(area@),
        }
    }
}

/// The area to delegate, where `default` is the area of the capability.
pub open spec fn restricted(restriction: Option<AreaView>, default: AreaView) -> AreaView {
    match restriction {
        None => default,
        Some(area) => area,
    }
}

impl RestrictArea {
    /// The area to delegate, where `default` is the area of the capability.
    pub fn or_default(self, default: Area) -> (r: Area)
        ensures
            r@ == restricted(self@, default@),
    {
        match self {
            RestrictArea::Unrestricted => default,
            RestrictArea::Restrict(area) => area,
        }
    }
}

impl Clone for RestrictArea {
    fn clone(&self) -> (r: Self)
        ensures
            r@ == self@,
    {
        match self {
            RestrictArea::Unrestricted => RestrictArea::Unrestricted,
            RestrictArea::Restrict(area) => RestrictArea::Restrict(area.clone()),
        }
    }
}

/// To whom to delegate, and over which area.
#[derive(Debug)]
pub struct DelegateTo {
    pub user: UserId,
    pub restrict_area: RestrictArea,
}

// ---------------------------------------------------------------------------
// Packs
// ---------------------------------------------------------------------------

/// Why a pack is not what it says.
#[derive(Clone, Copy, Debug, PartialEq, Eq, Structural)]
pub enum InvalidCapabilityPack {
    /// A pack to read holds a capability of another kind.
    NotRead,
    /// A pack to write holds a capability of another kind.
    NotWrite,
}

pub enum CapabilityPackView {
    Read(ReadAuthorisationView),
    Write(ChainView),
}

/// A capability to read or to write, as it is handed to another user.
#[derive(Debug)]
pub enum CapabilityPack {
    Read(ReadAuthorisation),
    Write(WriteCapability),
}

impl View for CapabilityPack {
    type V = CapabilityPackView;

    open spec fn view(&self) -> CapabilityPackView {
        match self {
            CapabilityPack::Read(auth) => CapabilityPackView::Read(auth@),
            CapabilityPack::Write(chain) => CapabilityPackView::Write(chain@),
        }
    }
}

impl Clone for CapabilityPack {
    fn clone(&self) -> (r: Self)
        ensures
            r@ == self@,
    {
        match self {
            CapabilityPack::Read(auth) => CapabilityPack::Read(auth.clone()),
            CapabilityPack::Write(chain) => CapabilityPack::Write(chain.clone()),
        }
    }
}

impl CapabilityPackView {
    /// The chain of the capability.
    pub open spec fn chain(self) -> ChainView {
        match self {
            CapabilityPackView::Read(auth) => auth.read,
            CapabilityPackView::Write(chain) => chain,
        }
    }

    /// Why the pack is not what it says; `None` where it is: a pack to read holds a
    /// capability to read, and a pack to write one to write.
    pub open spec fn error(self) -> Option<InvalidCapabilityPack> {
        match self {
            CapabilityPackView::Read(auth) => if auth.read.command.spec_access_mode()
                == AccessMode::Read {
                None
            } else {
                Some(InvalidCapabilityPack::NotRead)
            },
            CapabilityPackView::Write(chain) => if chain.command.spec_access_mode()
                == AccessMode::Write {
                None
            } else {
                Some(InvalidCapabilityPack::NotWrite)
            },
        }
    }
}

impl CapabilityPack {
    /// The chain of the capability.
    pub fn chain(&self) -> (r: &UWillChain)
        ensures
            r@ == self@.chain(),
    {
        match self {
            CapabilityPack::Read(auth) => auth.read_cap(),
            CapabilityPack::Write(chain) => chain,
        }
    }

    /// The user whose capability it is.
    pub fn receiver(&self) -> (r: UserId)
        ensures
            r == self@.chain().receiver(),
    {
        self.chain().receiver()
    }

    /// Checks that the pack is what it says.
    pub fn validate(&self) -> (r: Result<(), InvalidCapabilityPack>)
        ensures
            match r {
                Ok(()) => self@.error() is None,
                Err(e) => self@.error() == Some(e),
            },
    {
        match self {
            CapabilityPack::Read(auth) => {
                if auth.read_cap().access_mode() == AccessMode::Read {
                    Ok(())
                } else {
                    Err(InvalidCapabilityPack::NotRead)
                }
            },
            CapabilityPack::Write(chain) => {
                if chain.access_mode() == AccessMode::Write {
                    Ok(())
                } else {
                    Err(InvalidCapabilityPack::NotWrite)
                }
            },
        }
    }
}

/// What the packs hold.
pub open spec fn pack_views(packs: Seq<CapabilityPack>) -> Seq<CapabilityPackView> {
    packs.map_values(|pack: CapabilityPack| pack@)
}

// ---------------------------------------------------------------------------
// Interests
// ---------------------------------------------------------------------------

/// The areas of interest in a list.
pub open spec fn area_views(areas: Seq<AreaOfInterest>) -> Seq<AreaOfInterestView> {
    areas.map_values(|area: AreaOfInterest| area@)
}

/// Which areas of a capability are of interest.
#[derive(Debug)]
pub enum AreaOfInterestSelector {
    /// The whole area of the capability.
    Widest,
    /// These.
    Exact(Vec<AreaOfInterest>),
}

/// What is of interest.
#[derive(Debug)]
pub enum Interests {
    /// All that can be read.
    All,
    /// Areas of selected capabilities.
    Select(Vec<(CapSelector, AreaOfInterestSelector)>),
}

/// What makes a capability the same as another.
pub struct CapabilityKey {
    pub namespace: NamespaceId,
    pub receiver: UserId,
    pub area: AreaView,
    pub command: WillowCommand,
}

/// What makes the capability of the chain the same as another.
pub open spec fn capability_key(chain: ChainView) -> CapabilityKey {
    CapabilityKey {
        namespace: chain.namespace(),
        receiver: chain.receiver(),
        area: chain.area,
        command: chain.command,
    }
}

/// An authorisation with the areas that are of interest.
pub struct InterestView {
    pub authorisation: ReadAuthorisationView,
    pub areas: Set<AreaOfInterestView>,
}

/// The whole area of an authorisation, without limits.
pub open spec fn widest(authorisation: ReadAuthorisationView) -> AreaOfInterestView {
    AreaOfInterestView { area: authorisation.read.area, max_count: 0, max_size: 0 }
}

/// The areas that a selector selects of an authorisation.
pub open spec fn selected_areas(
    authorisation: ReadAuthorisationView,
    selector: AreaOfInterestSelector,
) -> Set<AreaOfInterestView> {
    match selector {
        AreaOfInterestSelector::Widest => set![widest(authorisation)],
        AreaOfInterestSelector::Exact(areas) => area_views(areas@).to_set(),
    }
}

/// The interests with some areas of an authorisation added. Of authorisations with the
/// same capability, the first is kept, with the areas of all.
pub open spec fn with_interest(
    interests: Map<CapabilityKey, InterestView>,
    authorisation: ReadAuthorisationView,
    areas: Set<AreaOfInterestView>,
) -> Map<CapabilityKey, InterestView> {
    let key = capability_key(authorisation.read);
    let entry = if interests.dom().contains(key) {
        InterestView {
            authorisation: interests[key].authorisation,
            areas: interests[key].areas.union(areas),
        }
    } else {
        InterestView { authorisation, areas }
    };
    interests.insert(key, entry)
}

struct InterestEntry {
    authorisation: ReadAuthorisation,
    areas: Vec<AreaOfInterest>,
}

/// Authorisations to read, with the areas of each that are of interest.
pub struct InterestMap {
    entries: Vec<InterestEntry>,
}

closed spec fn entry_view(entry: InterestEntry) -> (CapabilityKey, InterestView) {
    (
        capability_key(entry.authorisation@.read),
        InterestView {
            authorisation: entry.authorisation@,
            areas: area_views(entry.areas@).to_set(),
        },
    )
}

closed spec fn entry_views(entries: Seq<InterestEntry>) -> Seq<(CapabilityKey, InterestView)> {
    entries.map_values(|entry: InterestEntry| entry_view(entry))
}

impl View for InterestMap {
    type V = Map<CapabilityKey, InterestView>;

    closed spec fn view(&self) -> Map<CapabilityKey, InterestView> {
        pairs_map(entry_views(self.entries@))
    }
}

/// Adds an area to a list, unless it is there.
fn add_area(areas: &mut Vec<AreaOfInterest>, area: AreaOfInterest)
    requires
        area_views(old(areas)@).no_duplicates(),
    ensures
        area_views(final(areas)@).no_duplicates(),
        area_views(final(areas)@).to_set() == area_views(old(areas)@).to_set().insert(area@),
{
    let ghost before = area_views(areas@);
    let ghost added = area@;
    let mut i: usize = 0;
    while i < areas.len()
        invariant
            i <= areas.len(),
            before == area_views(areas@),
            *areas == *old(areas),
            added == area@,
            before.no_duplicates(),
            forall|j: int| 0 <= j < i ==> before[j] != added,
        decreases areas.len() - i,
    {
        assert(before[i as int] == areas@[i as int]@);
        if areas[i] == area {
            assert(before.contains(added));
            assert(before.to_set().insert(added) =~= before.to_set());
            return;
        }
        i += 1;
    }
    areas.push(area);
    proof {
        assert(area_views(areas@) =~= before.push(added));
        assert(!before.contains(added));
        assert forall|a: AreaOfInterestView| before.push(added).contains(a) <==> (before.contains(a)
            || a == added) by {
            if before.contains(a) {
                let k = choose|k: int| 0 <= k < before.len() && before[k] == a;
                assert(before.push(added)[k] == a);
            }
            if a == added {
                assert(before.push(added)[before.len() as int] == a);
            }
        }
        assert(before.push(added).to_set() =~= before.to_set().insert(added));
    }
}

/// Adds areas to a list, except those that are there.
fn add_areas(areas: &mut Vec<AreaOfInterest>, more: &Vec<AreaOfInterest>)
    requires
        area_views(old(areas)@).no_duplicates(),
    ensures
        area_views(final(areas)@).no_duplicates(),
        area_views(final(areas)@).to_set() == area_views(old(areas)@).to_set().union(
            area_views(more@).to_set(),
        ),
{
    let ghost before = area_views(areas@).to_set();
    let ghost added = area_views(more@);
    let mut i: usize = 0;
    assert(area_views(areas@).to_set() =~= before.union(added.take(0).to_set()));
    while i < more.len()
        invariant
            i <= more.len(),
            added == area_views(more@),
            area_views(areas@).no_duplicates(),
            area_views(areas@).to_set() == before.union(added.take(i as int).to_set()),
        decreases more.len() - i,
    {
        add_area(areas, more[i].clone());
        proof {
            let done = added.take(i as int);
            let next = added.take(i + 1);
            let a = added[i as int];
            assert(a == more@[i as int]@);
            assert forall|x: AreaOfInterestView| next.contains(x) <==> (done.contains(x) || x
                == a) by {
                if done.contains(x) {
                    let k = choose|k: int| 0 <= k < done.len() && done[k] == x;
                    assert(next[k] == x);
                }
                if x == a {
                    assert(next[i as int] == x);
                }
                if next.contains(x) && x != a {
                    let k = choose|k: int| 0 <= k < next.len() && next[k] == x;
                    assert(done[k] == x);
                }
            }
            assert(before.union(done.to_set()).insert(a) =~= before.union(next.to_set()));
        }
        i += 1;
    }
    assert(added.take(added.len() as int) =~= added);
}

impl InterestMap {
    /// No capability and no area of one occurs twice.
    #[verifier::type_invariant]
    spec fn kept_once(&self) -> bool {
        &&& keys_differ(entry_views(self.entries@))
        &&& forall|i: int|
            0 <= i < self.entries@.len() ==> area_views(
                (#[trigger] self.entries@[i]).areas@,
            ).no_duplicates()
    }

    /// The capabilities, in the order in which they are listed.
    pub closed spec fn keys(&self) -> Seq<CapabilityKey> {
        entry_views(self.entries@).map_values(|entry: (CapabilityKey, InterestView)| entry.0)
    }

    /// No interests.
    pub fn new() -> (r: Self)
        ensures
            r@ == Map::<CapabilityKey, InterestView>::empty(),
    {
        let r = InterestMap { entries: Vec::new() };
        assert(r@ =~= Map::<CapabilityKey, InterestView>::empty());
        r
    }

    /// The number of capabilities.
    pub fn len(&self) -> (r: usize)
        ensures
            self@.dom().finite(),
            r == self@.dom().len(),
            r == self.keys().len(),
    {
        proof {
            use_type_invariant(self);
            lemma_pairs_len(entry_views(self.entries@));
        }
        self.entries.len()
    }

    /// The index of the entry for the capability, or the number of entries where there is
    /// none.
    fn find(&self, chain: &UWillChain) -> (r: usize)
        ensures
            r <= self.entries@.len(),
            r < self.entries@.len() ==> entry_views(self.entries@)[r as int].0 == capability_key(
                chain@,
            ),
            r == self.entries@.len() ==> !has_key(
                entry_views(self.entries@),
                capability_key(chain@),
            ),
    {
        let ghost views = entry_views(self.entries@);
        let mut i: usize = 0;
        while i < self.entries.len()
            invariant
                i <= self.entries.len(),
                views == entry_views(self.entries@),
                forall|j: int| 0 <= j < i ==> (#[trigger] views[j]).0 != capability_key(chain@),
            decreases self.entries.len() - i,
        {
            assert(views[i as int] == entry_view(self.entries@[i as int]));
            if *self.entries[i].authorisation.read_cap() == *chain {
                return i;
            }
            i += 1;
        }
        i
    }

    /// The areas of interest of a capability, if there are any.
    pub fn get(&self, authorisation: &ReadAuthorisation) -> (r: Option<&Vec<AreaOfInterest>>)
        ensures
            match r {
                Some(areas) => {
                    let key = capability_key(authorisation@.read);
                    &&& self@.dom().contains(key)
                    &&& area_views(areas@).no_duplicates()
                    &&& area_views(areas@).to_set() == self@[key].areas
                },
                None => !self@.dom().contains(capability_key(authorisation@.read)),
            },
    {
        let i: usize = self.find(authorisation.read_cap());
        if i < self.entries.len() {
            proof {
                use_type_invariant(self);
                lemma_pairs_get(entry_views(self.entries@), i as int);
            }
            Some(&self.entries[i].areas)
        } else {
            None
        }
    }

    /// The authorisation at index `i`, with its areas of interest. Each capability is at one
    /// index.
    pub fn at(&self, i: usize) -> (r: (&ReadAuthorisation, &Vec<AreaOfInterest>))
        requires
            i < self@.dom().len(),
        ensures
            self.keys().len() == self@.dom().len(),
            self.keys().no_duplicates(),
            self.keys().to_set() == self@.dom(),
            ({
                let key = self.keys()[i as int];
                &&& capability_key(r.0@.read) == key
                &&& self@.dom().contains(key)
                &&& self@[key].authorisation == r.0@
                &&& area_views(r.1@).no_duplicates()
                &&& area_views(r.1@).to_set() == self@[key].areas
            }),
    {
        proof {
            use_type_invariant(self);
            lemma_pairs_len(entry_views(self.entries@));
            lemma_pairs_get(entry_views(self.entries@), i as int);
            lemma_pairs_keys(entry_views(self.entries@));
        }
        let entry = &self.entries[i];
        (&entry.authorisation, &entry.areas)
    }

    /// Adds areas of a capability that are of interest.
    pub fn insert(&mut self, authorisation: ReadAuthorisation, selector: &AreaOfInterestSelector)
        ensures
            final(self)@ == with_interest(
                old(self)@,
                authorisation@,
                selected_areas(authorisation@, *selector),
            ),
    {
        proof {
            use_type_invariant(&*self);
        }
        let ghost before = entry_views(self.entries@);
        let ghost view = authorisation@;
        let ghost key = capability_key(view.read);
        let ghost selected = selected_areas(authorisation@, *selector);
        let mut whole: Vec<AreaOfInterest> = Vec::new();
        let area = authorisation.read_cap().granted_area().clone();
        whole.push(AreaOfInterest::new(area, 0, 0));
        proof {
            assert(area_views(whole@) =~= seq![widest(view)]);
            assert(seq![widest(view)].to_set() =~= set![widest(view)]) by {
                assert(seq![widest(view)][0] == widest(view));
            }
        }
        let more = match selector {
            AreaOfInterestSelector::Widest => &whole,
            AreaOfInterestSelector::Exact(aois) => aois,
        };
        let i: usize = self.find(authorisation.read_cap());
        let mut entries: Vec<InterestEntry> = Vec::new();
        std::mem::swap(&mut entries, &mut self.entries);
        if i == entries.len() {
            entries.push(InterestEntry { authorisation, areas: Vec::new() });
            proof {
                assert(area_views(entries@[i as int].areas@) =~= Seq::empty());
                assert(area_views(entries@[i as int].areas@).to_set() =~= Set::empty());
            }
        }
        let ghost listed = entries@;
        let ghost areas_before = area_views(entries@[i as int].areas@).to_set();
        let entry = &mut entries[i];
        add_areas(&mut entry.areas, more);
        proof {
            let value = InterestView {
                authorisation: entries@[i as int].authorisation@,
                areas: areas_before.union(selected),
            };
            assert(entry_view(entries@[i as int]) == (key, value));
            if i < before.len() {
                lemma_pairs_update(before, i as int, value);
                lemma_pairs_get(before, i as int);
                assert(entry_views(entries@) =~= before.update(i as int, (key, value)));
            } else {
                assert(areas_before.union(selected) =~= selected);
                lemma_pairs_push(before, key, value);
                assert(entry_views(entries@) =~= before.push((key, value)));
            }
        }
        self.entries = entries;
    }
}

// ---------------------------------------------------------------------------
// Laws
// ---------------------------------------------------------------------------

/// A selector selects the capabilities for its namespace that are of its user, where it names
/// one, and that give all of its area, where it names one; so one that names neither selects all
/// for the namespace.
pub proof fn law_what_a_selector_selects(selector: CapSelector, chain: ChainView)
    ensures
        selector.selects(chain) ==> chain.namespace() == selector.namespace_id,
        selector.receiver is None && selector.granted_area is None ==> (selector.selects(chain)
            <==> chain.namespace() == selector.namespace_id),
        selector.receiver is Some && selector.selects(chain) ==> chain.receiver()
            == selector.receiver->0,
        selector.granted_area is Some && selector.selects(chain) ==> chain.area.includes_area(
            selector.granted_area->0@,
        ),
        ({
            &&& chain.namespace() == selector.namespace_id
            &&& selector.receiver is None || selector.receiver == Some(chain.receiver())
            &&& selector.granted_area is None || chain.area.includes_area(
                selector.granted_area->0@,
            )
        }) ==> selector.selects(chain),
{
}

/// The area to delegate is the one that was asked for, and where none was, that of the
/// capability.
pub proof fn law_area_to_delegate(restriction: RestrictArea, default: AreaView)
    ensures
        restriction is Unrestricted ==> restriction@ is None && restricted(restriction@, default)
            == default,
        restriction matches RestrictArea::Restrict(area) ==> restriction@ == Some(area@)
            && restricted(restriction@, default) == area@,
{
}

} // verus!
