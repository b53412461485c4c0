//! Areas as the policies of delegations.
//!
//! An area is written as predicates over four well-known fields:
//!
//! | predicate | part of the area |
//! |---|---|
//! | `["==", ".wil_subspace", bytes]` | subspace |
//! | `["or", ["==", ".wil_path", s], ["like", ".wil_path", s/*]]` | path |
//! | `[">=", ".wil_time_start", int]` | start of the times |
//! | `["<=", ".wil_time_end", int]` | end of the times |
//!
//! The predicates say that an area is contained in another. Whether an area holds
//! an entry is decided by the area itself.

use vstd::prelude::*;
use vstd::utf8::{decode_utf8, encode_utf8, valid_utf8};

use super::policy::{field, field_selector, predicate_views, selector_is_field, Arguments, Ipld, IpldView, Number, Predicate, PredicateView, Promised, PromisedView};
use crate::proto::data_model::{path_error, Path};
use crate::proto::grouping::{Area, AreaSubspace, AreaView, Range, RangeEnd};
use crate::proto::keys::UserId;
use crate::text::{byte_views, concat_text, copy_bytes, join, join_text, lemma_array_of_bytes, option_text, text_views};

verus! {

pub const WIL_SUBSPACE: &'static str = "wil_subspace";

pub const WIL_PATH: &'static str = "wil_path";

pub const WIL_TIME_START: &'static str = "wil_time_start";

pub const WIL_TIME_END: &'static str = "wil_time_end";

/// Why a policy does not describe an area.
#[derive(Debug)]
pub enum AreaExtractError {
    InvalidSubspace,
    InvalidPath(String),
    InvalidTimeStart,
    InvalidTimeEnd,
    InvalidTimeRange,
}

pub enum AreaExtractErrorView {
    InvalidSubspace,
    InvalidPath(Seq<char>),
    InvalidTimeStart,
    InvalidTimeEnd,
    InvalidTimeRange,
}

impl View for AreaExtractError {
    type V = AreaExtractErrorView;

    open spec fn view(&self) -> AreaExtractErrorView {
        match self {
            AreaExtractError::InvalidSubspace => AreaExtractErrorView::InvalidSubspace,
            AreaExtractError::InvalidPath(text) => AreaExtractErrorView::InvalidPath(text@),
            AreaExtractError::InvalidTimeStart => AreaExtractErrorView::InvalidTimeStart,
            AreaExtractError::InvalidTimeEnd => AreaExtractErrorView::InvalidTimeEnd,
            AreaExtractError::InvalidTimeRange => AreaExtractErrorView::InvalidTimeRange,
        }
    }
}

impl AreaExtractErrorView {
    /// The message of the error.
    pub open spec fn message(self) -> Seq<char> {
        match self {
            AreaExtractErrorView::InvalidSubspace => "invalid wil_subspace: expected 32-byte value"@,
            AreaExtractErrorView::InvalidPath(text) => "invalid wil_path: "@ + text,
            AreaExtractErrorView::InvalidTimeStart => "invalid wil_time_start: expected non-negative integer"@,
            AreaExtractErrorView::InvalidTimeEnd => "invalid wil_time_end: expected non-negative integer"@,
            AreaExtractErrorView::InvalidTimeRange => "wil_time_end must be greater than wil_time_start"@,
        }
    }
}

impl AreaExtractError {
    /// The message of the error.
    pub fn message(&self) -> (r: String)
        ensures
            r@ == self@.message(),
    {
        match self {
            AreaExtractError::InvalidSubspace => {
                "invalid wil_subspace: expected 32-byte value".to_owned()
            },
            AreaExtractError::InvalidPath(text) => concat_text(
                "invalid wil_path: ",
                text.as_str(),
            ),
            AreaExtractError::InvalidTimeStart => {
                "invalid wil_time_start: expected non-negative integer".to_owned()
            },
            AreaExtractError::InvalidTimeEnd => {
                "invalid wil_time_end: expected non-negative integer".to_owned()
            },
            AreaExtractError::InvalidTimeRange => {
                "wil_time_end must be greater than wil_time_start".to_owned()
            },
        }
    }
}

// ---------------------------------------------------------------------------
// Paths as text
// ---------------------------------------------------------------------------

/// The byte of the slash.
pub open spec fn slash() -> u8 {
    0x2f
}

/// The runs of bytes between the slashes.
pub open spec fn split(bytes: Seq<u8>) -> Seq<Seq<u8>>
    decreases bytes.len(),
{
    if bytes.len() == 0 {
        seq![Seq::empty()]
    } else {
        let parts = split(bytes.drop_last());
        if bytes.last() == slash() {
            parts.push(Seq::empty())
        } else {
            parts.update(parts.len() - 1, parts.last().push(bytes.last()))
        }
    }
}

/// What a text says as a path: its components are the runs of bytes between the
/// slashes, and an empty text is the path without components.
pub open spec fn parsed_path(text: Seq<char>) -> Result<Seq<Seq<u8>>, Seq<char>> {
    if text.len() == 0 {
        Ok(Seq::empty())
    } else {
        match path_error(split(encode_utf8(text))) {
            None => Ok(split(encode_utf8(text))),
            Some(e) => Err("invalid path: "@ + e.spec_message()),
        }
    }
}

/// What `String::from_utf8_lossy` makes of bytes that are not valid UTF-8.
pub uninterp spec fn utf8_lossy(bytes: Seq<u8>) -> Seq<char>;

/// The text that a component is written as.
pub open spec fn component_text(bytes: Seq<u8>) -> Seq<char> {
    if valid_utf8(bytes) {
        decode_utf8(bytes)
    } else {
        utf8_lossy(bytes)
    }
}

/// The text that a path is written as: its components with slashes between them.
pub open spec fn path_text(path: Seq<Seq<u8>>) -> Seq<char> {
    join(path.map_values(|c: Seq<u8>| component_text(c)), '/')
}

/// Calls `String::from_utf8_lossy`. Valid UTF-8 is decoded; what comes out otherwise
/// depends on the bytes alone.
#[verifier::external_body]
fn text_of_bytes(bytes: &[u8]) -> (r: String)
    ensures
        r@ == (if valid_utf8(bytes@) {
            decode_utf8(bytes@)
        } else {
            utf8_lossy(bytes@)
        }),
{
    String::from_utf8_lossy(bytes).into_owned()
}

/// Writes a path as text, with slashes between the components.
pub fn path_to_string(path: &Path) -> (r: String)
    ensures
        r@ == path_text(path@),
{
    let mut parts: Vec<String> = Vec::new();
    let mut i: usize = 0;
    while i < path.component_count()
        invariant
            i <= path@.len(),
            parts@.len() == i,
            forall|j: int| 0 <= j < i ==> (#[trigger] parts@[j])@ == component_text(path@[j]),
        decreases path@.len() - i,
    {
        parts.push(text_of_bytes(path.component(i)));
        i += 1;
    }
    assert(text_views(parts@) =~= path@.map_values(|c: Seq<u8>| component_text(c)));
    join_text(&parts)
}

/// Reads a path from a text with slashes between the components.
pub fn parse_willow_path(s: &str) -> (r: Result<Path, String>)
    ensures
        match r {
            Ok(path) => parsed_path(s@) == Ok::<Seq<Seq<u8>>, Seq<char>>(path@),
            Err(text) => parsed_path(s@) == Err::<Seq<Seq<u8>>, Seq<char>>(text@),
        },
{
    let bytes = s.as_bytes();
    proof {
        lemma_encoding_length(s@);
    }
    if bytes.len() == 0 {
        return Ok(Path::new_empty());
    }
    let components = split_bytes(bytes);
    match Path::from_components(components) {
        Ok(path) => Ok(path),
        Err(e) => Err(concat_text("invalid path: ", e.message().as_str())),
    }
}

/// Cuts a byte string at the slashes.
fn split_bytes(bytes: &[u8]) -> (r: Vec<Vec<u8>>)
    ensures
        byte_views(r@) == split(bytes@),
{
    let mut parts: Vec<Vec<u8>> = Vec::new();
    let mut current: Vec<u8> = Vec::new();
    let mut i: usize = 0;
    proof {
        assert(byte_views(parts@).push(current@) =~= split(bytes@.take(0)));
    }
    while i < bytes.len()
        invariant
            i <= bytes.len(),
            byte_views(parts@).push(current@) == split(bytes@.take(i as int)),
        decreases bytes.len() - i,
    {
        let ghost before = byte_views(parts@).push(current@);
        let b: u8 = bytes[i];
        proof {
            assert(bytes@.take(i + 1).drop_last() =~= bytes@.take(i as int));
        }
        if b == 0x2f {
            let ghost cut = current@;
            parts.push(current);
            current = Vec::new();
            proof {
                assert(byte_views(parts@) =~= before);
                assert(byte_views(parts@).push(current@) =~= before.push(Seq::<u8>::empty()));
            }
        } else {
            current.push(b);
            proof {
                assert(byte_views(parts@).push(current@) =~= before.update(
                    before.len() - 1,
                    before.last().push(b),
                ));
            }
        }
        i += 1;
    }
    let ghost whole = byte_views(parts@).push(current@);
    parts.push(current);
    assert(byte_views(parts@) =~= whole);
    assert(bytes@.take(bytes@.len() as int) =~= bytes@);
    parts
}

/// Only the empty text has no bytes.
pub proof fn lemma_encoding_length(text: Seq<char>)
    ensures
        encode_utf8(text).len() == 0 <==> text.len() == 0,
{
    if text.len() > 0 {
        vstd::utf8::encode_utf8_first_scalar(text);
        vstd::utf8::encode_utf8_valid_utf8(text);
    }
}

// ---------------------------------------------------------------------------
// Reading an area from a policy
// ---------------------------------------------------------------------------

/// What the predicates of a policy say of the parts of an area. A part that none
/// of them speaks of is `None`.
pub struct RawWillowAreaView {
    pub subspace: Option<UserId>,
    pub path: Option<Seq<char>>,
    pub time_start: Option<u64>,
    pub time_end: Option<u64>,
}

/// What the predicates of a policy say of the parts of an area.
struct RawWillowArea {
    subspace: Option<UserId>,
    path: Option<String>,
    time_start: Option<u64>,
    time_end: Option<u64>,
}

impl View for RawWillowArea {
    type V = RawWillowAreaView;

    closed spec fn view(&self) -> RawWillowAreaView {
        RawWillowAreaView {
            subspace: self.subspace,
            path: option_text(self.path),
            time_start: self.time_start,
            time_end: self.time_end,
        }
    }
}

/// The user whose identifier has these 32 bytes.
pub open spec fn user_of(bytes: Seq<u8>) -> UserId {
    choose|user: UserId| user.bytes@ == bytes
}

/// The subspace that a value names.
pub open spec fn subspace_of(value: IpldView) -> Result<UserId, AreaExtractErrorView> {
    match value {
        IpldView::Bytes(b) if b.len() == 32 => Ok(user_of(b)),
        _ => Err(AreaExtractErrorView::InvalidSubspace),
    }
}

/// The timestamp that a number is.
pub open spec fn timestamp_of(n: Number) -> Option<u64> {
    match n {
        Number::Integer(i) if 0 <= i <= u64::MAX => Some(i as u64),
        _ => None,
    }
}

/// What the arms of a disjunction say of the path, where `path` was said before:
/// the last arm that equates the path decides.
pub open spec fn path_of_arms(
    arms: Seq<PredicateView>,
    path: Option<Seq<char>>,
) -> Result<Option<Seq<char>>, AreaExtractErrorView>
    decreases arms.len(),
{
    if arms.len() == 0 {
        Ok(path)
    } else {
        match path_of_arms(arms.drop_last(), path) {
            Err(e) => Err(e),
            Ok(earlier) => match arms.last() {
                PredicateView::Equal(selector, value) if selector == field(WIL_PATH@) => match value {
                    IpldView::String(s) => Ok(Some(s)),
                    _ => Err(AreaExtractErrorView::InvalidPath("expected string"@)),
                },
                _ => Ok(earlier),
            },
        }
    }
}

/// What a predicate adds to what was said before it.
pub open spec fn with_predicate(
    raw: RawWillowAreaView,
    predicate: PredicateView,
) -> Result<RawWillowAreaView, AreaExtractErrorView> {
    match predicate {
        PredicateView::Equal(selector, value) if selector == field(WIL_SUBSPACE@) => match subspace_of(
            value,
        ) {
            Ok(user) => Ok(RawWillowAreaView { subspace: Some(user), ..raw }),
            Err(e) => Err(e),
        },
        PredicateView::Or(arms) => match path_of_arms(arms, raw.path) {
            Ok(path) => Ok(RawWillowAreaView { path, ..raw }),
            Err(e) => Err(e),
        },
        PredicateView::GreaterThanOrEqual(selector, n) if selector == field(WIL_TIME_START@) => {
            match timestamp_of(n) {
                Some(t) => Ok(RawWillowAreaView { time_start: Some(t), ..raw }),
                None => Err(AreaExtractErrorView::InvalidTimeStart),
            }
        },
        PredicateView::LessThanOrEqual(selector, n) if selector == field(WIL_TIME_END@) => {
            match timestamp_of(n) {
                Some(t) => Ok(RawWillowAreaView { time_end: Some(t), ..raw }),
                None => Err(AreaExtractErrorView::InvalidTimeEnd),
            }
        },
        _ => Ok(raw),
    }
}

/// What a policy says of the parts of an area: of each part, what the last
/// predicate on it says; the first predicate that makes no sense is an error.
/// Predicates on other fields say nothing.
pub open spec fn raw_area(
    predicates: Seq<PredicateView>,
) -> Result<RawWillowAreaView, AreaExtractErrorView>
    decreases predicates.len(),
{
    if predicates.len() == 0 {
        Ok(RawWillowAreaView { subspace: None, path: None, time_start: None, time_end: None })
    } else {
        match raw_area(predicates.drop_last()) {
            Err(e) => Err(e),
            Ok(raw) => with_predicate(raw, predicates.last()),
        }
    }
}

/// The area with these parts; a part that is missing does not restrict it.
pub open spec fn area_of_raw(raw: RawWillowAreaView) -> Result<AreaView, AreaExtractErrorView> {
    let subspace = match raw.subspace {
        Some(user) => AreaSubspace::Id(user),
        None => AreaSubspace::Any,
    };
    let start: u64 = match raw.time_start {
        Some(t) => t,
        None => 0,
    };
    let path = match raw.path {
        Some(s) => parsed_path(s),
        None => Ok(Seq::empty()),
    };
    match path {
        Err(text) => Err(AreaExtractErrorView::InvalidPath(text)),
        Ok(path) => match raw.time_end {
            Some(end) => if end <= start {
                Err(AreaExtractErrorView::InvalidTimeRange)
            } else {
                Ok(AreaView { subspace, path, times: Range { start, end: RangeEnd::Closed(end) } })
            },
            None => Ok(AreaView { subspace, path, times: Range { start, end: RangeEnd::Open } }),
        },
    }
}

/// The area that a policy describes.
pub open spec fn willow_area(predicates: Seq<PredicateView>) -> Result<AreaView, AreaExtractErrorView> {
    match raw_area(predicates) {
        Err(e) => Err(e),
        Ok(raw) => area_of_raw(raw),
    }
}

/// Reads the area that a policy describes.
///
/// Only predicates on the fields of an area count; all others are conditions of the
/// application.
pub fn extract_willow_area(predicates: &[Predicate]) -> (r: Result<Area, AreaExtractError>)
    ensures
        match r {
            Ok(area) => willow_area(predicate_views(predicates@)) == Ok::<
                AreaView,
                AreaExtractErrorView,
            >(area@),
            Err(e) => willow_area(predicate_views(predicates@)) == Err::<
                AreaView,
                AreaExtractErrorView,
            >(e@),
        },
{
    match extract_raw(predicates) {
        Ok(raw) => raw_to_area(raw),
        Err(e) => Err(e),
    }
}

/// Collects what a policy says of the parts of an area.
fn extract_raw(predicates: &[Predicate]) -> (r: Result<RawWillowArea, AreaExtractError>)
    ensures
        match r {
            Ok(raw) => raw_area(predicate_views(predicates@)) == Ok::<
                RawWillowAreaView,
                AreaExtractErrorView,
            >(raw@),
            Err(e) => raw_area(predicate_views(predicates@)) == Err::<
                RawWillowAreaView,
                AreaExtractErrorView,
            >(e@),
        },
{
    let mut raw = RawWillowArea { subspace: None, path: None, time_start: None, time_end: None };
    let ghost all = predicate_views(predicates@);
    let mut i: usize = 0;
    while i < predicates.len()
        invariant
            i <= predicates.len(),
            all == predicate_views(predicates@),
            raw_area(all.take(i as int)) == Ok::<RawWillowAreaView, AreaExtractErrorView>(raw@),
        decreases predicates.len() - i,
    {
        proof {
            assert(all.take(i + 1).drop_last() =~= all.take(i as int));
            assert(all.take(i + 1).last() == predicates@[i as int]@);
        }
        match extract_predicate(raw, &predicates[i]) {
            Ok(next) => {
                raw = next;
            },
            Err(e) => {
                proof {
                    lemma_first_error_stands(all, i + 1);
                }
                return Err(e);
            },
        }
        i += 1;
    }
    assert(all.take(all.len() as int) =~= all);
    Ok(raw)
}

/// Adds what a predicate says to what was said before it.
fn extract_predicate(raw: RawWillowArea, predicate: &Predicate) -> (r: Result<
    RawWillowArea,
    AreaExtractError,
>)
    ensures
        match r {
            Ok(next) => with_predicate(raw@, predicate@) == Ok::<
                RawWillowAreaView,
                AreaExtractErrorView,
            >(next@),
            Err(e) => with_predicate(raw@, predicate@) == Err::<
                RawWillowAreaView,
                AreaExtractErrorView,
            >(e@),
        },
{
    match predicate {
        Predicate::Equal(selector, value) => {
            if selector_is_field(selector, WIL_SUBSPACE) {
                match ipld_to_32_bytes(value) {
                    Ok(bytes) => Ok(RawWillowArea { subspace: Some(UserId { bytes }), ..raw }),
                    Err(e) => Err(e),
                }
            } else {
                Ok(raw)
            }
        },
        Predicate::Or(inner) => {
            match extract_path(inner, raw.path) {
                Ok(path) => Ok(
                    RawWillowArea {
                        subspace: raw.subspace,
                        path,
                        time_start: raw.time_start,
                        time_end: raw.time_end,
                    },
                ),
                Err(e) => Err(e),
            }
        },
        Predicate::GreaterThanOrEqual(selector, value) => {
            if selector_is_field(selector, WIL_TIME_START) {
                match number_to_u64(value) {
                    Some(t) => Ok(RawWillowArea { time_start: Some(t), ..raw }),
                    None => Err(AreaExtractError::InvalidTimeStart),
                }
            } else {
                Ok(raw)
            }
        },
        Predicate::LessThanOrEqual(selector, value) => {
            if selector_is_field(selector, WIL_TIME_END) {
                match number_to_u64(value) {
                    Some(t) => Ok(RawWillowArea { time_end: Some(t), ..raw }),
                    None => Err(AreaExtractError::InvalidTimeEnd),
                }
            } else {
                Ok(raw)
            }
        },
        Predicate::Like(_, _) => Ok(raw),
        Predicate::Other => Ok(raw),
    }
}

/// Finds what the arms of a disjunction say of the path.
fn extract_path(inner: &Vec<Predicate>, path: Option<String>) -> (r: Result<
    Option<String>,
    AreaExtractError,
>)
    ensures
        ({
            let arms = Predicate::Or(*inner)@->Or_0;
            let before = option_text(path);
            match r {
                Ok(found) => path_of_arms(arms, before) == Ok::<
                    Option<Seq<char>>,
                    AreaExtractErrorView,
                >(option_text(found)),
                Err(e) => path_of_arms(arms, before) == Err::<
                    Option<Seq<char>>,
                    AreaExtractErrorView,
                >(e@),
            }
        }),
{
    let ghost arms = Predicate::Or(*inner)@->Or_0;
    let ghost before = option_text(path);
    let mut found: Option<String> = path;
    let mut i: usize = 0;
    assert(arms.take(0) =~= Seq::empty());
    while i < inner.len()
        invariant
            i <= inner.len(),
            arms == Predicate::Or(*inner)@->Or_0,
            before == option_text(path),
            path_of_arms(arms.take(i as int), before) == Ok::<
                Option<Seq<char>>,
                AreaExtractErrorView,
            >(option_text(found)),
        decreases inner.len() - i,
    {
        proof {
            assert(arms.take(i + 1).drop_last() =~= arms.take(i as int));
            assert(arms.take(i + 1).last() == inner@[i as int]@);
        }
        if let Predicate::Equal(selector, value) = &inner[i] {
            if selector_is_field(selector, WIL_PATH) {
                match ipld_to_string(value) {
                    Some(s) => {
                        found = Some(s);
                    },
                    None => {
                        proof {
                            lemma_first_arm_error_stands(arms, before, i + 1);
                        }
                        return Err(AreaExtractError::InvalidPath("expected string".to_owned()));
                    },
                }
            }
        }
        i += 1;
    }
    assert(arms.take(arms.len() as int) =~= arms);
    Ok(found)
}

proof fn lemma_first_error_stands(predicates: Seq<PredicateView>, n: int)
    requires
        0 <= n <= predicates.len(),
        raw_area(predicates.take(n)) is Err,
    ensures
        raw_area(predicates) == raw_area(predicates.take(n)),
    decreases predicates.len() - n,
{
    if n == predicates.len() {
        assert(predicates.take(n) =~= predicates);
    } else {
        assert(predicates.take(n + 1).drop_last() =~= predicates.take(n));
        lemma_first_error_stands(predicates, n + 1);
    }
}

proof fn lemma_first_arm_error_stands(
    arms: Seq<PredicateView>,
    path: Option<Seq<char>>,
    n: int,
)
    requires
        0 <= n <= arms.len(),
        path_of_arms(arms.take(n), path) is Err,
    ensures
        path_of_arms(arms, path) == path_of_arms(arms.take(n), path),
    decreases arms.len() - n,
{
    if n == arms.len() {
        assert(arms.take(n) =~= arms);
    } else {
        assert(arms.take(n + 1).drop_last() =~= arms.take(n));
        lemma_first_arm_error_stands(arms, path, n + 1);
    }
}

/// Makes an area of its parts.
fn raw_to_area(raw: RawWillowArea) -> (r: Result<Area, AreaExtractError>)
    ensures
        match r {
            Ok(area) => area_of_raw(raw@) == Ok::<AreaView, AreaExtractErrorView>(area@),
            Err(e) => area_of_raw(raw@) == Err::<AreaView, AreaExtractErrorView>(e@),
        },
{
    let subspace = match raw.subspace {
        Some(user) => AreaSubspace::Id(user),
        None => AreaSubspace::Any,
    };
    let path = match &raw.path {
        Some(s) => match parse_willow_path(s.as_str()) {
            Ok(path) => path,
            Err(text) => {
                return Err(AreaExtractError::InvalidPath(text));
            },
        },
        None => Path::new_empty(),
    };
    let time_start: u64 = match raw.time_start {
        Some(t) => t,
        None => 0,
    };
    let times = match raw.time_end {
        Some(end) => {
            if end <= time_start {
                return Err(AreaExtractError::InvalidTimeRange);
            }
            Range::new(time_start, RangeEnd::Closed(end))
        },
        None => Range::new(time_start, RangeEnd::Open),
    };
    Ok(Area::new(subspace, path, times))
}

fn ipld_to_32_bytes(ipld: &Ipld) -> (r: Result<[u8; 32], AreaExtractError>)
    ensures
        match r {
            Ok(bytes) => subspace_of(ipld@) == Ok::<UserId, AreaExtractErrorView>(
                UserId { bytes },
            ),
            Err(e) => subspace_of(ipld@) == Err::<UserId, AreaExtractErrorView>(e@),
        },
{
    match ipld {
        Ipld::Bytes(b) => {
            if b.len() == 32 {
                let mut out: [u8; 32] = [0; 32];
                let mut i: usize = 0;
                while i < 32
                    invariant
                        i <= 32,
                        b@.len() == 32,
                        forall|j: int| 0 <= j < i ==> out@[j] == b@[j],
                    decreases 32 - i,
                {
                    out[i] = b[i];
                    i += 1;
                }
                proof {
                    assert(out@ =~= b@);
                    let user = UserId { bytes: out };
                    assert(user.bytes@ == b@);
                    lemma_array_of_bytes(user_of(b@).bytes, out);
                }
                Ok(out)
            } else {
                Err(AreaExtractError::InvalidSubspace)
            }
        },
        _ => Err(AreaExtractError::InvalidSubspace),
    }
}

fn ipld_to_string(ipld: &Ipld) -> (r: Option<String>)
    ensures
        match r {
            Some(s) => ipld@ == IpldView::String(s@),
            None => !(ipld@ is String),
        },
{
    match ipld {
        Ipld::String(s) => Some(s.clone()),
        _ => None,
    }
}

fn number_to_u64(n: &Number) -> (r: Option<u64>)
    ensures
        r == timestamp_of(*n),
{
    match n {
        Number::Integer(i) => {
            if 0 <= *i && *i <= 0xffff_ffff_ffff_ffff {
                Some(*i as u64)
            } else {
                None
            }
        },
        Number::Float => None,
    }
}

// ---------------------------------------------------------------------------
// Writing an area
// ---------------------------------------------------------------------------

/// The predicates that restrict the subspace.
pub open spec fn subspace_predicates(subspace: AreaSubspace) -> Seq<PredicateView> {
    match subspace {
        AreaSubspace::Any => seq![],
        AreaSubspace::Id(user) => seq![
            PredicateView::Equal(field(WIL_SUBSPACE@), IpldView::Bytes(user.bytes@)),
        ],
    }
}

/// The predicates that restrict the path: it is the path itself, or one below it.
pub open spec fn path_predicates(path: Seq<Seq<u8>>) -> Seq<PredicateView> {
    if path.len() == 0 {
        seq![]
    } else {
        seq![
            PredicateView::Or(
                seq![
                    PredicateView::Equal(field(WIL_PATH@), IpldView::String(path_text(path))),
                    PredicateView::Like(field(WIL_PATH@), path_text(path) + "/*"@),
                ],
            ),
        ]
    }
}

/// The predicates that restrict the start of the times.
pub open spec fn start_predicates(start: u64) -> Seq<PredicateView> {
    if start == 0 {
        seq![]
    } else {
        seq![
            PredicateView::GreaterThanOrEqual(
                field(WIL_TIME_START@),
                Number::Integer(start as i128),
            ),
        ]
    }
}

/// The predicates that restrict the end of the times.
pub open spec fn end_predicates(end: RangeEnd) -> Seq<PredicateView> {
    match end {
        RangeEnd::Open => seq![],
        RangeEnd::Closed(t) => seq![
            PredicateView::LessThanOrEqual(field(WIL_TIME_END@), Number::Integer(t as i128)),
        ],
    }
}

/// The policy that an area is written as.
pub open spec fn area_predicates(area: AreaView) -> Seq<PredicateView> {
    subspace_predicates(area.subspace) + path_predicates(area.path) + start_predicates(
        area.times.start,
    ) + end_predicates(area.times.end)
}

/// Writes an area as a policy.
pub fn area_to_predicates(area: &Area) -> (r: Vec<Predicate>)
    ensures
        predicate_views(r@) == area_predicates(area@),
{
    let mut preds: Vec<Predicate> = Vec::new();
    if let AreaSubspace::Id(user_id) = area.subspace() {
        let value = Ipld::Bytes(copy_bytes(user_id.as_bytes().as_slice()));
        preds.push(Predicate::Equal(field_selector(WIL_SUBSPACE), value));
    }
    assert(predicate_views(preds@) =~= subspace_predicates(area@.subspace));
    let ghost first = predicate_views(preds@);
    if !area.path().is_empty() {
        let path_str = path_to_string(area.path());
        let pattern = concat_text(path_str.as_str(), "/*");
        let mut arms: Vec<Predicate> = Vec::new();
        arms.push(Predicate::Equal(field_selector(WIL_PATH), Ipld::String(path_str)));
        arms.push(Predicate::Like(field_selector(WIL_PATH), pattern));
        let pred = Predicate::Or(arms);
        proof {
            assert(pred.spec_view()->Or_0 =~= path_predicates(area@.path)[0]->Or_0) by {
                assert(arms@[0].spec_view() == path_predicates(area@.path)[0]->Or_0[0]);
                assert(arms@[1].spec_view() == path_predicates(area@.path)[0]->Or_0[1]);
            }
        }
        preds.push(pred);
    }
    assert(predicate_views(preds@) =~= first + path_predicates(area@.path));
    let ghost second = predicate_views(preds@);
    let start: u64 = area.times().start;
    if start > 0 {
        preds.push(
            Predicate::GreaterThanOrEqual(
                field_selector(WIL_TIME_START),
                Number::Integer(start as i128),
            ),
        );
    }
    assert(predicate_views(preds@) =~= second + start_predicates(start));
    let ghost third = predicate_views(preds@);
    if let RangeEnd::Closed(end) = area.times().end {
        preds.push(
            Predicate::LessThanOrEqual(field_selector(WIL_TIME_END), Number::Integer(end as i128)),
        );
    }
    assert(predicate_views(preds@) =~= third + end_predicates(area@.times.end));
    preds
}

/// The arguments that an area is written as.
pub open spec fn area_arguments(area: AreaView) -> Map<Seq<char>, PromisedView> {
    let none = Map::<Seq<char>, PromisedView>::empty();
    let with_subspace = match area.subspace {
        AreaSubspace::Any => none,
        AreaSubspace::Id(user) => none.insert(
            WIL_SUBSPACE@,
            PromisedView::Bytes(user.bytes@),
        ),
    };
    let with_path = if area.path.len() == 0 {
        with_subspace
    } else {
        with_subspace.insert(WIL_PATH@, PromisedView::String(path_text(area.path)))
    };
    let with_start = if area.times.start == 0 {
        with_path
    } else {
        with_path.insert(WIL_TIME_START@, PromisedView::Integer(area.times.start as int))
    };
    match area.times.end {
        RangeEnd::Open => with_start,
        RangeEnd::Closed(end) => with_start.insert(
            WIL_TIME_END@,
            PromisedView::Integer(end as int),
        ),
    }
}

/// Writes an area as the arguments of an invocation, which say what area the
/// invocation makes use of.
pub fn area_to_args(area: &Area) -> (r: Arguments)
    ensures
        r@ == area_arguments(area@),
{
    let mut args = Arguments::new();
    if let AreaSubspace::Id(user_id) = area.subspace() {
        args.insert(WIL_SUBSPACE, Promised::Bytes(copy_bytes(user_id.as_bytes().as_slice())));
    }
    if !area.path().is_empty() {
        args.insert(WIL_PATH, Promised::String(path_to_string(area.path())));
    }
    let start: u64 = area.times().start;
    if start > 0 {
        args.insert(WIL_TIME_START, Promised::Integer(start as i128));
    }
    if let RangeEnd::Closed(end) = area.times().end {
        args.insert(WIL_TIME_END, Promised::Integer(end as i128));
    }
    args
}

} // verus!
