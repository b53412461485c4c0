//! Areas: the regions of a namespace that capabilities speak of.

use vstd::prelude::*;

use super::data_model::{Entry, EntryView, Path, SubspaceId, Timestamp};
use super::keys::UserId;

verus! {

/// The end of a range of timestamps.
#[derive(Clone, Copy, Debug, PartialEq, Eq, Hash, Structural)]
pub enum RangeEnd {
    /// The range ends before this timestamp.
    Closed(Timestamp),
    /// The range has no end.
    Open,
}

/// A range of timestamps, from `start` up to, and without, `end`.
#[derive(Clone, Copy, Debug, PartialEq, Eq, Hash, Structural)]
pub struct Range {
    pub start: Timestamp,
    pub end: RangeEnd,
}

/// Whether `end` comes after the timestamp.
pub open spec fn ends_after(end: RangeEnd, timestamp: int) -> bool {
    match end {
        RangeEnd::Closed(e) => timestamp < e,
        RangeEnd::Open => true,
    }
}

/// Whether `outer` comes no earlier than `inner`.
pub open spec fn ends_no_earlier(outer: RangeEnd, inner: RangeEnd) -> bool {
    match (outer, inner) {
        (RangeEnd::Open, _) => true,
        (RangeEnd::Closed(_), RangeEnd::Open) => false,
        (RangeEnd::Closed(o), RangeEnd::Closed(i)) => i <= o,
    }
}

impl Range {
    pub fn new(start: Timestamp, end: RangeEnd) -> (r: Self)
        ensures
            r == (Range { start, end }),
    {
        Range { start, end }
    }

    /// Whether the range holds the timestamp.
    pub open spec fn spec_includes(self, timestamp: int) -> bool {
        self.start <= timestamp && ends_after(self.end, timestamp)
    }

    /// Whether this range starts no later and ends no earlier than `other`.
    pub open spec fn spec_includes_range(self, other: Range) -> bool {
        self.start <= other.start && ends_no_earlier(self.end, other.end)
    }

    pub fn includes(&self, timestamp: Timestamp) -> (r: bool)
        ensures
            r == self.spec_includes(timestamp as int),
    {
        let before_end = match self.end {
            RangeEnd::Closed(end) => timestamp < end,
            RangeEnd::Open => true,
        };
        self.start <= timestamp && before_end
    }

    pub fn includes_range(&self, other: &Range) -> (r: bool)
        ensures
            r == self.spec_includes_range(*other),
    {
        let covers_end = match (self.end, other.end) {
            (RangeEnd::Open, _) => true,
            (RangeEnd::Closed(_), RangeEnd::Open) => false,
            (RangeEnd::Closed(outer), RangeEnd::Closed(inner)) => inner <= outer,
        };
        self.start <= other.start && covers_end
    }
}

/// Which subspaces an area covers.
#[derive(Clone, Copy, Debug)]
pub enum AreaSubspace {
    /// All of them.
    Any,
    /// This one.
    Id(SubspaceId),
}

impl AreaSubspace {
    pub open spec fn spec_includes(self, subspace: SubspaceId) -> bool {
        match self {
            AreaSubspace::Any => true,
            AreaSubspace::Id(id) => id == subspace,
        }
    }

    /// Whether each subspace that `other` covers is covered by this one.
    pub open spec fn spec_includes_subspace(self, other: AreaSubspace) -> bool {
        match (self, other) {
            (AreaSubspace::Any, _) => true,
            (AreaSubspace::Id(_), AreaSubspace::Any) => false,
            (AreaSubspace::Id(a), AreaSubspace::Id(b)) => a == b,
        }
    }

    pub fn is_any(&self) -> (r: bool)
        ensures
            r == (*self is Any),
    {
        matches!(self, AreaSubspace::Any)
    }

    pub fn includes(&self, subspace: &SubspaceId) -> (r: bool)
        ensures
            r == self.spec_includes(*subspace),
    {
        match self {
            AreaSubspace::Any => true,
            AreaSubspace::Id(id) => *id == *subspace,
        }
    }

    pub fn includes_subspace(&self, other: &AreaSubspace) -> (r: bool)
        ensures
            r == self.spec_includes_subspace(*other),
    {
        match (self, other) {
            (AreaSubspace::Any, _) => true,
            (AreaSubspace::Id(_), AreaSubspace::Any) => false,
            (AreaSubspace::Id(a), AreaSubspace::Id(b)) => *a == *b,
        }
    }
}

impl PartialEq for AreaSubspace {
    fn eq(&self, other: &Self) -> (r: bool) {
        match (self, other) {
            (AreaSubspace::Any, AreaSubspace::Any) => true,
            (AreaSubspace::Id(a), AreaSubspace::Id(b)) => *a == *b,
            _ => false,
        }
    }
}

impl vstd::std_specs::cmp::PartialEqSpecImpl for AreaSubspace {
    open spec fn obeys_eq_spec() -> bool {
        true
    }

    open spec fn eq_spec(&self, other: &Self) -> bool {
        *self == *other
    }
}

/// The region that an area covers.
pub struct AreaView {
    pub subspace: AreaSubspace,
    pub path: Seq<Seq<u8>>,
    pub times: Range,
}

impl AreaView {
    /// All entries of the namespace.
    pub open spec fn full() -> AreaView {
        AreaView {
            subspace: AreaSubspace::Any,
            path: Seq::empty(),
            times: Range { start: 0, end: RangeEnd::Open },
        }
    }

    /// The entry was written to a subspace of the area, at a path below the path of
    /// the area, at one of its times.
    pub open spec fn includes_entry(self, entry: EntryView) -> bool {
        &&& self.subspace.spec_includes(entry.subspace_id)
        &&& self.path.is_prefix_of(entry.path)
        &&& self.times.spec_includes(entry.timestamp as int)
    }

    /// Each of subspace, path and times of this area includes that of `other`.
    pub open spec fn includes_area(self, other: AreaView) -> bool {
        &&& self.subspace.spec_includes_subspace(other.subspace)
        &&& self.path.is_prefix_of(other.path)
        &&& self.times.spec_includes_range(other.times)
    }
}

/// A region of a namespace: some subspaces, the paths below one path, and a range
/// of times.
#[derive(Debug)]
pub struct Area {
    subspace: AreaSubspace,
    path: Path,
    times: Range,
}

impl View for Area {
    type V = AreaView;

    closed spec fn view(&self) -> AreaView {
        AreaView { subspace: self.subspace, path: self.path@, times: self.times }
    }
}

impl Clone for Area {
    fn clone(&self) -> (r: Self)
        ensures
            r@ == self@,
    {
        Area { subspace: self.subspace, path: self.path.clone(), times: self.times }
    }
}

impl PartialEq for Area {
    fn eq(&self, other: &Self) -> (r: bool) {
        self.subspace == other.subspace && self.path == other.path && self.times == other.times
    }
}

impl vstd::std_specs::cmp::PartialEqSpecImpl for Area {
    open spec fn obeys_eq_spec() -> bool {
        true
    }

    open spec fn eq_spec(&self, other: &Self) -> bool {
        self@ == other@
    }
}

impl Area {
    pub fn new(subspace: AreaSubspace, path: Path, times: Range) -> (r: Self)
        ensures
            r@ == (AreaView { subspace, path: path@, times }),
    {
        Area { subspace, path, times }
    }

    /// The area of all entries of a namespace.
    pub fn new_full() -> (r: Self)
        ensures
            r@ == AreaView::full(),
    {
        Area {
            subspace: AreaSubspace::Any,
            path: Path::new_empty(),
            times: Range { start: 0, end: RangeEnd::Open },
        }
    }

    pub fn subspace(&self) -> (r: &AreaSubspace)
        ensures
            *r == self@.subspace,
    {
        &self.subspace
    }

    pub fn path(&self) -> (r: &Path)
        ensures
            r@ == self@.path,
    {
        &self.path
    }

    pub fn times(&self) -> (r: &Range)
        ensures
            *r == self@.times,
    {
        &self.times
    }

    pub fn includes_entry(&self, entry: &Entry) -> (r: bool)
        ensures
            r == self@.includes_entry(entry@),
    {
        self.subspace.includes(entry.subspace_id()) && self.path.is_prefix_of(entry.path())
            && self.times.includes(entry.timestamp())
    }

    pub fn includes_area(&self, other: &Area) -> (r: bool)
        ensures
            r == self@.includes_area(other@),
    {
        self.subspace.includes_subspace(&other.subspace) && self.path.is_prefix_of(&other.path)
            && self.times.includes_range(&other.times)
    }
}

/// An area includes itself.
pub proof fn law_area_includes_itself(a: AreaView)
    ensures
        a.includes_area(a),
{
    assert(a.path =~= a.path.subrange(0, a.path.len() as int));
}

/// The full area includes every area.
pub proof fn law_full_area_includes_all(a: AreaView)
    ensures
        AreaView::full().includes_area(a),
{
    assert(AreaView::full().path =~= a.path.subrange(0, 0));
}

/// An area that is included in an area is included in whatever includes that one.
pub proof fn law_area_inclusion_is_transitive(a: AreaView, b: AreaView, c: AreaView)
    requires
        a.includes_area(b),
        b.includes_area(c),
    ensures
        a.includes_area(c),
{
    lemma_prefix_transitive(a.path, b.path, c.path);
}

/// An area includes each entry of the areas that it includes.
pub proof fn law_area_inclusion_covers_entries(a: AreaView, b: AreaView, entry: EntryView)
    requires
        a.includes_area(b),
        b.includes_entry(entry),
    ensures
        a.includes_entry(entry),
{
    lemma_prefix_transitive(a.path, b.path, entry.path);
}

proof fn lemma_prefix_transitive<T>(a: Seq<T>, b: Seq<T>, c: Seq<T>)
    requires
        a.is_prefix_of(b),
        b.is_prefix_of(c),
    ensures
        a.is_prefix_of(c),
{
    assert(a =~= c.subrange(0, a.len() as int)) by {
        assert forall|i: int| 0 <= i < a.len() implies a[i] == c[i] by {
            assert(a[i] == b.subrange(0, a.len() as int)[i]);
            assert(b[i] == c.subrange(0, b.len() as int)[i]);
        }
    }
}

/// An area together with limits on how much of it is of interest: the newest
/// `max_count` entries, and the newest `max_size` bytes; `0` stands for no limit.
pub struct AreaOfInterestView {
    pub area: AreaView,
    pub max_count: u64,
    pub max_size: u64,
}

#[derive(Debug)]
pub struct AreaOfInterest {
    pub area: Area,
    pub max_count: u64,
    pub max_size: u64,
}

impl View for AreaOfInterest {
    type V = AreaOfInterestView;

    open spec fn view(&self) -> AreaOfInterestView {
        AreaOfInterestView {
            area: self.area@,
            max_count: self.max_count,
            max_size: self.max_size,
        }
    }
}

impl Clone for AreaOfInterest {
    fn clone(&self) -> (r: Self)
        ensures
            r@ == self@,
    {
        AreaOfInterest {
            area: self.area.clone(),
            max_count: self.max_count,
            max_size: self.max_size,
        }
    }
}

impl PartialEq for AreaOfInterest {
    fn eq(&self, other: &Self) -> (r: bool) {
        self.area == other.area && self.max_count == other.max_count && self.max_size
            == other.max_size
    }
}

impl vstd::std_specs::cmp::PartialEqSpecImpl for AreaOfInterest {
    open spec fn obeys_eq_spec() -> bool {
        true
    }

    open spec fn eq_spec(&self, other: &Self) -> bool {
        self@ == other@
    }
}

impl AreaOfInterest {
    pub fn new(area: Area, max_count: u64, max_size: u64) -> (r: Self)
        ensures
            r@ == (AreaOfInterestView { area: area@, max_count, max_size }),
    {
        AreaOfInterest { area, max_count, max_size }
    }
}

/// An entry is in an area exactly if it is in the subspace, where the area names one, its path
/// begins with the components of that of the area, and it was written from the start on and
/// before the end, where there is one.
pub proof fn law_area_includes_entry_iff(area: AreaView, entry: EntryView)
    ensures
        area.includes_entry(entry) <==> {
            &&& area.subspace matches AreaSubspace::Id(user) ==> user == entry.subspace_id
            &&& area.path.len() <= entry.path.len()
            &&& forall|i: int| 0 <= i < area.path.len() ==> (#[trigger] area.path[i]) == entry.path[i]
            &&& area.times.start <= entry.timestamp
            &&& area.times.end matches RangeEnd::Closed(end) ==> entry.timestamp < end
        },
{
    lemma_prefix_iff(area.path, entry.path);
}

/// The full area has every entry.
pub proof fn law_full_area_has_every_entry(entry: EntryView)
    ensures
        AreaView::full().includes_entry(entry),
{
    assert(AreaView::full().path =~= entry.path.subrange(0, 0));
}

/// An area includes another exactly if it names no subspace but that of the other, its path
/// begins that of the other, and it starts no later and ends no earlier.
pub proof fn law_area_includes_area_iff(a: AreaView, b: AreaView)
    ensures
        a.includes_area(b) <==> {
            &&& a.subspace is Id ==> b.subspace == a.subspace
            &&& a.path.len() <= b.path.len()
            &&& forall|i: int| 0 <= i < a.path.len() ==> (#[trigger] a.path[i]) == b.path[i]
            &&& a.times.start <= b.times.start
            &&& a.times.end matches RangeEnd::Closed(end) ==> {
                &&& b.times.end is Closed
                &&& b.times.end->Closed_0 <= end
            }
        },
{
    lemma_prefix_iff(a.path, b.path);
}

/// An area includes another, whose time is not empty, exactly if it has every entry that the
/// other has.
pub proof fn law_area_inclusion_is_about_entries(a: AreaView, b: AreaView)
    requires
        b.times.end matches RangeEnd::Closed(end) ==> b.times.start < end,
    ensures
        a.includes_area(b) <==> forall|entry: EntryView| #[trigger]
            b.includes_entry(entry) ==> a.includes_entry(entry),
{
    if a.includes_area(b) {
        assert forall|entry: EntryView| #[trigger] b.includes_entry(entry) implies a.includes_entry(
            entry,
        ) by {
            law_area_inclusion_covers_entries(a, b, entry);
        }
    }
    if forall|entry: EntryView| #[trigger] b.includes_entry(entry) ==> a.includes_entry(entry) {
        let some: EntryView = arbitrary();
        let user = match (a.subspace, b.subspace) {
            (_, AreaSubspace::Id(user)) => user,
            (AreaSubspace::Id(user), AreaSubspace::Any) => lemma_other_user(user),
            _ => some.subspace_id,
        };
        let first = EntryView {
            subspace_id: user,
            path: b.path,
            timestamp: b.times.start,
            ..some
        };
        let last = EntryView {
            timestamp: match b.times.end {
                RangeEnd::Closed(end) => (end - 1) as u64,
                RangeEnd::Open => u64::MAX,
            },
            ..first
        };
        assert(b.path =~= b.path.subrange(0, b.path.len() as int));
        assert(b.includes_entry(first));
        assert(b.includes_entry(last));
        assert(a.includes_entry(first) && a.includes_entry(last));
    }
}

/// A user that is not this one.
proof fn lemma_other_user(user: UserId) -> (other: UserId)
    ensures
        other != user,
{
    let a = UserId { bytes: vstd::array::spec_array_fill_for_copy_type::<u8, 32>(0) };
    let b = UserId { bytes: vstd::array::spec_array_fill_for_copy_type::<u8, 32>(1) };
    assert(a.bytes@[0] == 0);
    assert(b.bytes@[0] == 1);
    if user == a {
        b
    } else {
        a
    }
}

/// Two areas that include each other are the same.
pub proof fn law_areas_that_include_each_other(a: AreaView, b: AreaView)
    requires
        a.includes_area(b),
        b.includes_area(a),
    ensures
        a == b,
{
    lemma_prefix_iff(a.path, b.path);
    lemma_prefix_iff(b.path, a.path);
    assert(a.path =~= b.path);
}

proof fn lemma_prefix_iff<T>(a: Seq<T>, b: Seq<T>)
    ensures
        a.is_prefix_of(b) <==> a.len() <= b.len() && forall|i: int|
            0 <= i < a.len() ==> (#[trigger] a[i]) == b[i],
{
    if a.is_prefix_of(b) {
        assert forall|i: int| 0 <= i < a.len() implies (#[trigger] a[i]) == b[i] by {
            assert(a[i] == b.subrange(0, a.len() as int)[i]);
        }
    }
    if a.len() <= b.len() && forall|i: int| 0 <= i < a.len() ==> (#[trigger] a[i]) == b[i] {
        assert(a =~= b.subrange(0, a.len() as int));
    }
}


} // verus!
