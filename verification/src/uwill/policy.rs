//! The policies of delegations and the arguments of invocations.
//!
//! A value that the capability system never looks into is kept as `Other`.

use vstd::prelude::*;

use crate::assoc::{has_key, keys_differ, lemma_pairs_get, lemma_pairs_len, lemma_pairs_push, lemma_pairs_update, pairs_map};
use crate::text::copy_bytes;

verus! {

// ---------------------------------------------------------------------------
// Selectors
// ---------------------------------------------------------------------------

/// One step of a selector.
#[derive(Debug)]
pub enum Filter {
    /// The field with this name.
    Field(String),
    /// Any other step.
    Other,
}

pub enum FilterView {
    Field(Seq<char>),
    Other,
}

impl View for Filter {
    type V = FilterView;

    open spec fn view(&self) -> FilterView {
        match self {
            Filter::Field(name) => FilterView::Field(name@),
            Filter::Other => FilterView::Other,
        }
    }
}

impl Clone for Filter {
    fn clone(&self) -> (r: Self)
        ensures
            r@ == self@,
    {
        match self {
            Filter::Field(name) => Filter::Field(name.clone()),
            Filter::Other => Filter::Other,
        }
    }
}

/// A selector: the steps that lead to a value.
#[derive(Debug)]
pub struct Select {
    pub filters: Vec<Filter>,
}

impl View for Select {
    type V = Seq<FilterView>;

    open spec fn view(&self) -> Seq<FilterView> {
        self.filters@.map_values(|f: Filter| f@)
    }
}

impl Clone for Select {
    fn clone(&self) -> (r: Self)
        ensures
            r@ == self@,
    {
        let mut filters: Vec<Filter> = Vec::new();
        let mut i: usize = 0;
        while i < self.filters.len()
            invariant
                i <= self.filters.len(),
                filters@.len() == i,
                forall|j: int| 0 <= j < i ==> (#[trigger] filters@[j])@ == self.filters@[j]@,
            decreases self.filters.len() - i,
        {
            filters.push(self.filters[i].clone());
            i += 1;
        }
        let r = Select { filters };
        assert(r@ =~= self@);
        r
    }
}

/// The selector of the field with this name.
pub open spec fn field(name: Seq<char>) -> Seq<FilterView> {
    seq![FilterView::Field(name)]
}

impl Select {
    pub fn new(filters: Vec<Filter>) -> (r: Self)
        ensures
            r@ == filters@.map_values(|f: Filter| f@),
    {
        Select { filters }
    }
}

/// The selector of the field with this name.
pub fn field_selector(name: &str) -> (r: Select)
    ensures
        r@ == field(name@),
{
    let mut filters: Vec<Filter> = Vec::new();
    filters.push(Filter::Field(name.to_owned()));
    let r = Select::new(filters);
    assert(r@ =~= field(name@));
    r
}

/// Whether a selector is that of the field with this name.
pub fn selector_is_field(sel: &Select, name: &str) -> (r: bool)
    ensures
        r == (sel@ == field(name@)),
{
    if sel.filters.len() != 1 {
        assert(sel@.len() != field(name@).len());
        return false;
    }
    match &sel.filters[0] {
        Filter::Field(f) => {
            let r = *f == name.to_owned();
            proof {
                if r {
                    assert(sel@ =~= field(name@));
                } else {
                    assert(sel@[0] != field(name@)[0]);
                }
            }
            r
        },
        Filter::Other => {
            assert(sel@[0] != field(name@)[0]);
            false
        },
    }
}

// ---------------------------------------------------------------------------
// Values
// ---------------------------------------------------------------------------

/// A value that a predicate compares with.
#[derive(Debug)]
pub enum Ipld {
    Bytes(Vec<u8>),
    String(String),
    Other,
}

pub enum IpldView {
    Bytes(Seq<u8>),
    String(Seq<char>),
    Other,
}

impl View for Ipld {
    type V = IpldView;

    open spec fn view(&self) -> IpldView {
        match self {
            Ipld::Bytes(b) => IpldView::Bytes(b@),
            Ipld::String(s) => IpldView::String(s@),
            Ipld::Other => IpldView::Other,
        }
    }
}

impl Clone for Ipld {
    fn clone(&self) -> (r: Self)
        ensures
            r@ == self@,
    {
        match self {
            Ipld::Bytes(b) => Ipld::Bytes(copy_bytes(b.as_slice())),
            Ipld::String(s) => Ipld::String(s.clone()),
            Ipld::Other => Ipld::Other,
        }
    }
}

/// A number that a predicate compares with.
#[derive(Clone, Copy, Debug, PartialEq, Eq, Structural)]
pub enum Number {
    Integer(i128),
    /// A number with a fractional part.
    Float,
}

/// A value of an argument.
#[derive(Debug)]
pub enum Promised {
    Bytes(Vec<u8>),
    String(String),
    Integer(i128),
    Other,
}

pub enum PromisedView {
    Bytes(Seq<u8>),
    String(Seq<char>),
    Integer(int),
    Other,
}

impl View for Promised {
    type V = PromisedView;

    open spec fn view(&self) -> PromisedView {
        match self {
            Promised::Bytes(b) => PromisedView::Bytes(b@),
            Promised::String(s) => PromisedView::String(s@),
            Promised::Integer(i) => PromisedView::Integer(*i as int),
            Promised::Other => PromisedView::Other,
        }
    }
}

impl Clone for Promised {
    fn clone(&self) -> (r: Self)
        ensures
            r@ == self@,
    {
        match self {
            Promised::Bytes(b) => Promised::Bytes(copy_bytes(b.as_slice())),
            Promised::String(s) => Promised::String(s.clone()),
            Promised::Integer(i) => Promised::Integer(*i),
            Promised::Other => Promised::Other,
        }
    }
}

// ---------------------------------------------------------------------------
// Predicates
// ---------------------------------------------------------------------------

/// A predicate of a policy.
#[derive(Debug)]
pub enum Predicate {
    /// The selected value equals the value.
    Equal(Select, Ipld),
    /// The selected number is at least the number.
    GreaterThanOrEqual(Select, Number),
    /// The selected number is at most the number.
    LessThanOrEqual(Select, Number),
    /// The selected text matches the glob pattern.
    Like(Select, String),
    /// One of the predicates holds.
    Or(Vec<Predicate>),
    /// Any other predicate.
    Other,
}

pub enum PredicateView {
    Equal(Seq<FilterView>, IpldView),
    GreaterThanOrEqual(Seq<FilterView>, Number),
    LessThanOrEqual(Seq<FilterView>, Number),
    Like(Seq<FilterView>, Seq<char>),
    Or(Seq<PredicateView>),
    Other,
}

impl Predicate {
    pub open spec fn spec_view(self) -> PredicateView
        decreases self,
    {
        match self {
            Predicate::Equal(s, v) => PredicateView::Equal(s@, v@),
            Predicate::GreaterThanOrEqual(s, n) => PredicateView::GreaterThanOrEqual(s@, n),
            Predicate::LessThanOrEqual(s, n) => PredicateView::LessThanOrEqual(s@, n),
            Predicate::Like(s, p) => PredicateView::Like(s@, p@),
            Predicate::Or(inner) => PredicateView::Or(
                Seq::new(
                    inner@.len(),
                    |i: int|
                        if 0 <= i < inner@.len() {
                            inner@[i].spec_view()
                        } else {
                            PredicateView::Other
                        },
                ),
            ),
            Predicate::Other => PredicateView::Other,
        }
    }
}

impl View for Predicate {
    type V = PredicateView;

    open spec fn view(&self) -> PredicateView {
        self.spec_view()
    }
}

/// What the predicates of a policy say.
pub open spec fn predicate_views(predicates: Seq<Predicate>) -> Seq<PredicateView> {
    predicates.map_values(|p: Predicate| p@)
}

impl Clone for Predicate {
    fn clone(&self) -> (r: Self)
        ensures
            r@ == self@,
        decreases *self,
    {
        match self {
            Predicate::Equal(s, v) => Predicate::Equal(s.clone(), v.clone()),
            Predicate::GreaterThanOrEqual(s, n) => Predicate::GreaterThanOrEqual(s.clone(), *n),
            Predicate::LessThanOrEqual(s, n) => Predicate::LessThanOrEqual(s.clone(), *n),
            Predicate::Like(s, p) => Predicate::Like(s.clone(), p.clone()),
            Predicate::Or(inner) => {
                let mut out: Vec<Predicate> = Vec::new();
                let mut i: usize = 0;
                while i < inner.len()
                    invariant
                        i <= inner.len(),
                        *self == Predicate::Or(*inner),
                        out@.len() == i,
                        forall|j: int|
                            0 <= j < i ==> (#[trigger] out@[j]).spec_view()
                                == inner@[j].spec_view(),
                    decreases inner.len() - i,
                {
                    proof {
                        assert(decreases_to!(*self => self->Or_0));
                        assert(decreases_to!(self->Or_0 => (self->Or_0)@[i as int]));
                        assert(decreases_to!(*self => (self->Or_0)@[i as int]));
                    }
                    out.push(inner[i].clone());
                    i += 1;
                }
                let r = Predicate::Or(out);
                assert(r.spec_view()->Or_0 =~= self.spec_view()->Or_0);
                r
            },
            Predicate::Other => Predicate::Other,
        }
    }
}

/// A copy of a policy.
pub fn copy_predicates(predicates: &[Predicate]) -> (r: Vec<Predicate>)
    ensures
        predicate_views(r@) == predicate_views(predicates@),
{
    let mut out: Vec<Predicate> = Vec::new();
    let mut i: usize = 0;
    while i < predicates.len()
        invariant
            i <= predicates.len(),
            out@.len() == i,
            forall|j: int| 0 <= j < i ==> (#[trigger] out@[j])@ == predicates@[j]@,
        decreases predicates.len() - i,
    {
        out.push(predicates[i].clone());
        i += 1;
    }
    assert(predicate_views(out@) =~= predicate_views(predicates@));
    out
}

// ---------------------------------------------------------------------------
// Arguments
// ---------------------------------------------------------------------------

/// The arguments of an invocation: values by name.
#[derive(Debug)]
pub struct Arguments {
    entries: Vec<(String, Promised)>,
}

/// The views of names and values.
pub open spec fn argument_views(entries: Seq<(String, Promised)>) -> Seq<(Seq<char>, PromisedView)> {
    entries.map_values(|entry: (String, Promised)| (entry.0@, entry.1@))
}

impl View for Arguments {
    type V = Map<Seq<char>, PromisedView>;

    closed spec fn view(&self) -> Map<Seq<char>, PromisedView> {
        pairs_map(argument_views(self.entries@))
    }
}

impl Arguments {
    /// No name occurs twice.
    #[verifier::type_invariant]
    spec fn names_differ(&self) -> bool {
        keys_differ(argument_views(self.entries@))
    }

    pub fn new() -> (r: Self)
        ensures
            r@ == Map::<Seq<char>, PromisedView>::empty(),
    {
        let r = Arguments { entries: Vec::new() };
        assert(r@ =~= Map::<Seq<char>, PromisedView>::empty());
        r
    }

    /// The number of arguments.
    pub fn len(&self) -> (r: usize)
        ensures
            self@.dom().finite(),
            r == self@.dom().len(),
    {
        proof {
            use_type_invariant(self);
            lemma_pairs_len(argument_views(self.entries@));
        }
        self.entries.len()
    }

    pub fn is_empty(&self) -> (r: bool)
        ensures
            r == (self@ == Map::<Seq<char>, PromisedView>::empty()),
    {
        proof {
            use_type_invariant(self);
            lemma_pairs_len(argument_views(self.entries@));
            if self.entries@.len() == 0 {
                assert(self@ =~= Map::<Seq<char>, PromisedView>::empty());
            }
        }
        self.entries.len() == 0
    }

    /// The names and values, each name once.
    pub fn entries(&self) -> (r: &Vec<(String, Promised)>)
        ensures
            keys_differ(argument_views(r@)),
            self@ == pairs_map(argument_views(r@)),
    {
        proof {
            use_type_invariant(self);
        }
        &self.entries
    }

    /// The index of the argument with this name, or the number of arguments where there is
    /// none.
    fn find(&self, name: &str) -> (r: usize)
        ensures
            r <= self.entries@.len(),
            r < self.entries@.len() ==> argument_views(self.entries@)[r as int].0 == name@,
            r == self.entries@.len() ==> !has_key(argument_views(self.entries@), name@),
    {
        let key: String = name.to_owned();
        let ghost views = argument_views(self.entries@);
        let mut i: usize = 0;
        while i < self.entries.len()
            invariant
                i <= self.entries.len(),
                key@ == name@,
                views == argument_views(self.entries@),
                forall|j: int| 0 <= j < i ==> (#[trigger] views[j]).0 != name@,
            decreases self.entries.len() - i,
        {
            assert(views[i as int].0 == self.entries@[i as int].0@);
            if self.entries[i].0 == key {
                return i;
            }
            i += 1;
        }
        i
    }

    /// The value of the argument with this name, if there is one.
    pub fn get(&self, name: &str) -> (r: Option<&Promised>)
        ensures
            match r {
                Some(value) => self@.dom().contains(name@) && self@[name@] == value@,
                None => !self@.dom().contains(name@),
            },
    {
        let i: usize = self.find(name);
        if i < self.entries.len() {
            proof {
                use_type_invariant(self);
                lemma_pairs_get(argument_views(self.entries@), i as int);
            }
            Some(&self.entries[i].1)
        } else {
            None
        }
    }

    /// Sets the argument with this name.
    pub fn insert(&mut self, name: &str, value: Promised)
        ensures
            final(self)@ == old(self)@.insert(name@, value@),
    {
        proof {
            use_type_invariant(&*self);
        }
        let ghost before = argument_views(self.entries@);
        let ghost value_view = value@;
        let i: usize = self.find(name);
        let mut entries: Vec<(String, Promised)> = Vec::new();
        std::mem::swap(&mut entries, &mut self.entries);
        if i < entries.len() {
            entries.set(i, (name.to_owned(), value));
            proof {
                lemma_pairs_update(before, i as int, value_view);
                assert(argument_views(entries@) =~= before.update(i as int, (name@, value_view)));
            }
        } else {
            entries.push((name.to_owned(), value));
            proof {
                lemma_pairs_push(before, name@, value_view);
                assert(argument_views(entries@) =~= before.push((name@, value_view)));
            }
        }
        self.entries = entries;
    }
}

impl Clone for Arguments {
    fn clone(&self) -> (r: Self)
        ensures
            r@ == self@,
    {
        let mut entries: Vec<(String, Promised)> = Vec::new();
        let mut i: usize = 0;
        while i < self.entries.len()
            invariant
                i <= self.entries.len(),
                entries@.len() == i,
                forall|j: int|
                    0 <= j < i ==> (#[trigger] entries@[j]).0@ == self.entries@[j].0@
                        && entries@[j].1@ == self.entries@[j].1@,
            decreases self.entries.len() - i,
        {
            entries.push((self.entries[i].0.clone(), self.entries[i].1.clone()));
            i += 1;
        }
        proof {
            use_type_invariant(self);
            assert(argument_views(entries@) =~= argument_views(self.entries@));
        }
        Arguments { entries }
    }
}

} // verus!
