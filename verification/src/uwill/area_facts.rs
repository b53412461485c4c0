//! How each predicate of a policy, and each field of an area, is read and written.

use vstd::prelude::*;
use vstd::utf8::{decode_utf8, encode_utf8, valid_utf8};

use super::area_extract::{area_arguments, area_predicates, component_text, end_predicates, parsed_path, path_of_arms, path_predicates, path_text, raw_area, slash, split, start_predicates, subspace_predicates, user_of, utf8_lossy, willow_area, AreaExtractErrorView, RawWillowAreaView, WIL_PATH, WIL_SUBSPACE, WIL_TIME_END, WIL_TIME_START};
use super::area_laws::{law_arguments_are_those_of_the_area, law_split_parts};
use super::policy::{field, IpldView, Number, PredicateView, PromisedView};
use crate::proto::data_model::path_error;
use crate::proto::grouping::{AreaSubspace, AreaView, Range, RangeEnd};
use crate::proto::keys::UserId;
use crate::text::{join, lemma_array_of_bytes};

verus! {

/// A policy without predicates allows the whole namespace.
pub proof fn law_empty_policy_is_the_full_area()
    ensures
        willow_area(seq![]) == Ok::<AreaView, AreaExtractErrorView>(
            AreaView {
                subspace: AreaSubspace::Any,
                path: seq![],
                times: Range { start: 0, end: RangeEnd::Open },
            },
        ),
{
}

proof fn lemma_raw_push(policy: Seq<PredicateView>, more: PredicateView)
    ensures
        policy.push(more).drop_last() == policy,
        policy.push(more).last() == more,
{
    assert(policy.push(more).drop_last() =~= policy);
}

/// A further predicate on the subspace restricts the area to the subspace of the user, and
/// leaves the rest of it.
pub proof fn law_subspace_predicate(policy: Seq<PredicateView>, area: AreaView, user: UserId)
    requires
        willow_area(policy) == Ok::<AreaView, AreaExtractErrorView>(area),
    ensures
        willow_area(
            policy.push(
                PredicateView::Equal(field("wil_subspace"@), IpldView::Bytes(user.bytes@)),
            ),
        ) == Ok::<AreaView, AreaExtractErrorView>(
            AreaView { subspace: AreaSubspace::Id(user), ..area },
        ),
{
    let p = PredicateView::Equal(field("wil_subspace"@), IpldView::Bytes(user.bytes@));
    lemma_raw_push(policy, p);
    lemma_array_of_bytes(user_of(user.bytes@).bytes, user.bytes);
}

/// A further predicate on the first time restricts the area to it, where the area does not end
/// by then, and leaves the rest of it.
pub proof fn law_time_start_predicate(policy: Seq<PredicateView>, area: AreaView, start: u64)
    requires
        willow_area(policy) == Ok::<AreaView, AreaExtractErrorView>(area),
    ensures
        willow_area(
            policy.push(
                PredicateView::GreaterThanOrEqual(
                    field("wil_time_start"@),
                    Number::Integer(start as i128),
                ),
            ),
        ) == if area.times.end is Closed && area.times.end->Closed_0 <= start {
            Err::<AreaView, AreaExtractErrorView>(AreaExtractErrorView::InvalidTimeRange)
        } else {
            Ok(AreaView { times: Range { start, end: area.times.end }, ..area })
        },
{
    lemma_raw_push(
        policy,
        PredicateView::GreaterThanOrEqual(
            field("wil_time_start"@),
            Number::Integer(start as i128),
        ),
    );
}

/// A further predicate on the end restricts the area to what is before it, where the area starts
/// before that, and leaves the rest of it.
pub proof fn law_time_end_predicate(policy: Seq<PredicateView>, area: AreaView, end: u64)
    requires
        willow_area(policy) == Ok::<AreaView, AreaExtractErrorView>(area),
    ensures
        willow_area(
            policy.push(
                PredicateView::LessThanOrEqual(field("wil_time_end"@), Number::Integer(end as i128)),
            ),
        ) == if end <= area.times.start {
            Err::<AreaView, AreaExtractErrorView>(AreaExtractErrorView::InvalidTimeRange)
        } else {
            Ok(AreaView { times: Range { start: area.times.start, end: RangeEnd::Closed(end) }, ..area })
        },
{
    lemma_raw_push(
        policy,
        PredicateView::LessThanOrEqual(field("wil_time_end"@), Number::Integer(end as i128)),
    );
}

/// Whether the predicate says what the path is equal to.
pub open spec fn names_path(predicate: PredicateView) -> bool {
    predicate is Equal && predicate->Equal_0 == field("wil_path"@)
}

/// A further predicate on the path, which has the last arm that names the path at `k`, restricts
/// the area to the path that its text is read as, and leaves the rest of it; a text that is not
/// read as a path is an error.
pub proof fn law_path_predicate(
    policy: Seq<PredicateView>,
    area: AreaView,
    arms: Seq<PredicateView>,
    k: int,
    text: Seq<char>,
)
    requires
        willow_area(policy) == Ok::<AreaView, AreaExtractErrorView>(area),
        0 <= k < arms.len(),
        arms[k] == PredicateView::Equal(field("wil_path"@), IpldView::String(text)),
        forall|j: int| k < j < arms.len() ==> !names_path(#[trigger] arms[j]),
        forall|j: int|
            0 <= j < k && names_path(#[trigger] arms[j]) ==> arms[j]->Equal_1 is String,
    ensures
        willow_area(policy.push(PredicateView::Or(arms))) == match parsed_path(text) {
            Ok(path) => Ok::<AreaView, AreaExtractErrorView>(AreaView { path, ..area }),
            Err(cause) => Err(AreaExtractErrorView::InvalidPath(cause)),
        },
{
    lemma_raw_push(policy, PredicateView::Or(arms));
    lemma_path_of_arms(arms, raw_area(policy)->Ok_0.path, k, text);
}

proof fn lemma_path_of_arms(
    arms: Seq<PredicateView>,
    path: Option<Seq<char>>,
    k: int,
    text: Seq<char>,
)
    requires
        0 <= k < arms.len(),
        arms[k] == PredicateView::Equal(field("wil_path"@), IpldView::String(text)),
        forall|j: int| k < j < arms.len() ==> !names_path(#[trigger] arms[j]),
        forall|j: int|
            0 <= j < k && names_path(#[trigger] arms[j]) ==> arms[j]->Equal_1 is String,
    ensures
        path_of_arms(arms, path) == Ok::<Option<Seq<char>>, AreaExtractErrorView>(Some(text)),
    decreases arms.len(),
{
    let front = arms.drop_last();
    if k == arms.len() - 1 {
        lemma_arms_are_texts(front, path);
    } else {
        lemma_path_of_arms(front, path, k, text);
        assert(!names_path(arms[arms.len() - 1]));
    }
}

proof fn lemma_arms_are_texts(arms: Seq<PredicateView>, path: Option<Seq<char>>)
    requires
        forall|j: int|
            0 <= j < arms.len() && names_path(#[trigger] arms[j]) ==> arms[j]->Equal_1 is String,
    ensures
        path_of_arms(arms, path) is Ok,
    decreases arms.len(),
{
    if arms.len() > 0 {
        lemma_arms_are_texts(arms.drop_last(), path);
        assert(names_path(arms.last()) ==> arms[arms.len() - 1]->Equal_1 is String);
    }
}

/// Whether a predicate on a field of an area has a value that the field cannot have.
pub open spec fn is_ill_formed(predicate: PredicateView) -> bool {
    match predicate {
        PredicateView::Equal(selector, value) => selector == field("wil_subspace"@) && !(
        value is Bytes && value->Bytes_0.len() == 32),
        PredicateView::GreaterThanOrEqual(selector, n) => selector == field("wil_time_start"@)
            && !(n is Integer && 0 <= n->Integer_0 <= u64::MAX),
        PredicateView::LessThanOrEqual(selector, n) => selector == field("wil_time_end"@) && !(
        n is Integer && 0 <= n->Integer_0 <= u64::MAX),
        PredicateView::Or(arms) => exists|j: int|
            0 <= j < arms.len() && names_path(#[trigger] arms[j]) && !(arms[j]->Equal_1 is String),
        _ => false,
    }
}

/// A policy with a predicate that has a value its field cannot have describes no area, whatever
/// comes before it and after it; the first such predicate decides the error.
pub proof fn law_ill_formed_predicates_are_refused(policy: Seq<PredicateView>, k: int)
    requires
        0 <= k < policy.len(),
        is_ill_formed(policy[k]),
        forall|j: int| 0 <= j < k ==> !is_ill_formed(#[trigger] policy[j]),
    ensures
        willow_area(policy) == Err::<AreaView, AreaExtractErrorView>(
            match policy[k] {
                PredicateView::Equal(..) => AreaExtractErrorView::InvalidSubspace,
                PredicateView::GreaterThanOrEqual(..) => AreaExtractErrorView::InvalidTimeStart,
                PredicateView::LessThanOrEqual(..) => AreaExtractErrorView::InvalidTimeEnd,
                _ => AreaExtractErrorView::InvalidPath("expected string"@),
            },
        ),
{
    lemma_ill_formed(policy, k);
}

proof fn lemma_ill_formed(policy: Seq<PredicateView>, k: int)
    requires
        0 <= k < policy.len(),
        is_ill_formed(policy[k]),
        forall|j: int| 0 <= j < k ==> !is_ill_formed(#[trigger] policy[j]),
    ensures
        raw_area(policy) == Err::<RawWillowAreaView, AreaExtractErrorView>(
            match policy[k] {
                PredicateView::Equal(..) => AreaExtractErrorView::InvalidSubspace,
                PredicateView::GreaterThanOrEqual(..) => AreaExtractErrorView::InvalidTimeStart,
                PredicateView::LessThanOrEqual(..) => AreaExtractErrorView::InvalidTimeEnd,
                _ => AreaExtractErrorView::InvalidPath("expected string"@),
            },
        ),
    decreases policy.len(),
{
    let front = policy.drop_last();
    if k < front.len() {
        lemma_ill_formed(front, k);
    } else {
        lemma_well_formed(front);
        if let PredicateView::Or(arms) = policy[k] {
            let j = choose|j: int|
                0 <= j < arms.len() && names_path(#[trigger] arms[j]) && !(
                arms[j]->Equal_1 is String);
            lemma_wrong_arm(arms, raw_area(front)->Ok_0.path, j);
        }
    }
}

proof fn lemma_well_formed(policy: Seq<PredicateView>)
    requires
        forall|j: int| 0 <= j < policy.len() ==> !is_ill_formed(#[trigger] policy[j]),
    ensures
        raw_area(policy) is Ok,
    decreases policy.len(),
{
    if policy.len() > 0 {
        let front = policy.drop_last();
        assert forall|j: int| 0 <= j < front.len() implies !is_ill_formed(#[trigger] front[j]) by {
            assert(front[j] == policy[j]);
        }
        lemma_well_formed(front);
        assert(!is_ill_formed(policy[policy.len() - 1]));
        if let PredicateView::Or(arms) = policy.last() {
            lemma_arms_are_texts(arms, raw_area(front)->Ok_0.path);
        }
    }
}

proof fn lemma_wrong_arm(arms: Seq<PredicateView>, path: Option<Seq<char>>, k: int)
    requires
        0 <= k < arms.len(),
        names_path(arms[k]),
        !(arms[k]->Equal_1 is String),
    ensures
        path_of_arms(arms, path) == Err::<Option<Seq<char>>, AreaExtractErrorView>(
            AreaExtractErrorView::InvalidPath("expected string"@),
        ),
    decreases arms.len(),
{
    let front = arms.drop_last();
    if k < front.len() {
        lemma_wrong_arm(front, path, k);
    } else {
        lemma_only_error(front, path);
    }
}

proof fn lemma_only_error(arms: Seq<PredicateView>, path: Option<Seq<char>>)
    ensures
        path_of_arms(arms, path) matches Err(e) ==> e == AreaExtractErrorView::InvalidPath(
            "expected string"@,
        ),
    decreases arms.len(),
{
    if arms.len() > 0 {
        lemma_only_error(arms.drop_last(), path);
    }
}

/// A policy without such a predicate describes an area, unless the text of its path is not read
/// as a path or its end is not after its start.
pub proof fn law_well_formed_policies(policy: Seq<PredicateView>)
    requires
        forall|j: int| 0 <= j < policy.len() ==> !is_ill_formed(#[trigger] policy[j]),
    ensures
        willow_area(policy) matches Err(e) ==> {
            ||| e is InvalidTimeRange
            ||| e is InvalidPath && exists|text: Seq<char>|
                (#[trigger] parsed_path(text)) == Err::<Seq<Seq<u8>>, Seq<char>>(e->InvalidPath_0)
        },
        willow_area(policy) matches Ok(area) ==> (area.times.end matches RangeEnd::Closed(end)
            ==> area.times.start < end),
{
    lemma_well_formed(policy);
    let raw = raw_area(policy)->Ok_0;
    if let Some(text) = raw.path {
        assert(parsed_path(text) == parsed_path(text));
    }
}

/// A text is read as the path of the runs between its slashes; the empty text is the empty path.
/// It is refused exactly if that path is beyond the limits.
pub proof fn law_reading_of_paths(text: Seq<char>, path: Seq<Seq<u8>>)
    ensures
        parsed_path(seq![]) == Ok::<Seq<Seq<u8>>, Seq<char>>(seq![]),
        text.len() > 0 && parsed_path(text) == Ok::<Seq<Seq<u8>>, Seq<char>>(path) ==> {
            &&& path.len() > 0
            &&& join(path, slash()) == encode_utf8(text)
            &&& forall|i: int| 0 <= i < path.len() ==> !(#[trigger] path[i]).contains(slash())
            &&& path_error(path) is None
        },
        text.len() > 0 ==> (parsed_path(text) is Err <==> path_error(split(encode_utf8(text))) is Some),
        slash() == 0x2f,
{
    law_split_parts(encode_utf8(text));
}

/// The arguments that an area is written as are the subspace, where it names one, the text of its
/// path, where that is not empty, its start, where that is not the beginning, and its end, where
/// it has one; there are no others.
pub proof fn law_values_of_arguments(area: AreaView, name: Seq<char>)
    ensures
        ({
            let args = area_arguments(area);
            &&& args.dom().contains("wil_subspace"@) <==> area.subspace is Id
            &&& area.subspace matches AreaSubspace::Id(user) ==> args["wil_subspace"@]
                == PromisedView::Bytes(user.bytes@)
            &&& args.dom().contains("wil_path"@) <==> area.path.len() > 0
            &&& area.path.len() > 0 ==> args["wil_path"@] == PromisedView::String(
                path_text(area.path),
            )
            &&& args.dom().contains("wil_time_start"@) <==> area.times.start > 0
            &&& area.times.start > 0 ==> args["wil_time_start"@] == PromisedView::Integer(
                area.times.start as int,
            )
            &&& args.dom().contains("wil_time_end"@) <==> area.times.end is Closed
            &&& area.times.end matches RangeEnd::Closed(end) ==> args["wil_time_end"@]
                == PromisedView::Integer(end as int)
            &&& args.dom().contains(name) ==> name == "wil_subspace"@ || name == "wil_path"@ || name
                == "wil_time_start"@ || name == "wil_time_end"@
        }),
{
    law_arguments_are_those_of_the_area(area);
    reveal_strlit("wil_subspace");
    reveal_strlit("wil_path");
    reveal_strlit("wil_time_start");
    reveal_strlit("wil_time_end");
    assert(WIL_SUBSPACE@.len() == 12 && WIL_TIME_END@.len() == 12);
    assert(WIL_SUBSPACE@[4] == 's' && WIL_TIME_END@[4] == 't');
    assert(WIL_PATH@.len() == 8 && WIL_TIME_START@.len() == 14);
}

/// The policy that an area is written as has one predicate for each field that restricts it, and
/// no others: the subspace, the path with all that is under it, the start and the end.
pub proof fn law_predicates_of_an_area(area: AreaView, p: PredicateView)
    ensures
        area_predicates(area).contains(p) <==> {
            ||| area.subspace is Id && p == PredicateView::Equal(
                field("wil_subspace"@),
                IpldView::Bytes(area.subspace->Id_0.bytes@),
            )
            ||| area.path.len() > 0 && p == PredicateView::Or(
                seq![
                    PredicateView::Equal(
                        field("wil_path"@),
                        IpldView::String(path_text(area.path)),
                    ),
                    PredicateView::Like(field("wil_path"@), path_text(area.path) + "/*"@),
                ],
            )
            ||| area.times.start > 0 && p == PredicateView::GreaterThanOrEqual(
                field("wil_time_start"@),
                Number::Integer(area.times.start as i128),
            )
            ||| area.times.end is Closed && p == PredicateView::LessThanOrEqual(
                field("wil_time_end"@),
                Number::Integer(area.times.end->Closed_0 as i128),
            )
        },
{
    let p1 = subspace_predicates(area.subspace);
    let p2 = path_predicates(area.path);
    let p3 = start_predicates(area.times.start);
    let p4 = end_predicates(area.times.end);
    lemma_contains_either(p1, p2, p);
    lemma_contains_either(p1 + p2, p3, p);
    lemma_contains_either(p1 + p2 + p3, p4, p);
    lemma_contains_one(p1, p);
    lemma_contains_one(p2, p);
    lemma_contains_one(p3, p);
    lemma_contains_one(p4, p);
}

proof fn lemma_contains_either<T>(a: Seq<T>, b: Seq<T>, x: T)
    ensures
        (a + b).contains(x) <==> a.contains(x) || b.contains(x),
{
    let both = a + b;
    if a.contains(x) {
        let i = choose|i: int| 0 <= i < a.len() && a[i] == x;
        assert(both[i] == x);
    }
    if b.contains(x) {
        let i = choose|i: int| 0 <= i < b.len() && b[i] == x;
        assert(both[a.len() + i] == x);
    }
    if both.contains(x) {
        let i = choose|i: int| 0 <= i < both.len() && both[i] == x;
        if i < a.len() {
            assert(a[i] == x);
        } else {
            assert(b[i - a.len()] == x);
        }
    }
}

proof fn lemma_contains_one<T>(s: Seq<T>, x: T)
    requires
        s.len() <= 1,
    ensures
        s.contains(x) <==> s.len() == 1 && s[0] == x,
{
}

/// A path is written with slashes between its components, each of which is decoded where it is
/// valid UTF-8, and else written as `String::from_utf8_lossy` writes it.
pub proof fn law_text_of_a_path(path: Seq<Seq<u8>>, texts: Seq<Seq<char>>)
    requires
        texts.len() == path.len(),
        forall|i: int|
            0 <= i < path.len() && valid_utf8(path[i]) ==> #[trigger] texts[i] == decode_utf8(
                path[i],
            ),
        forall|i: int|
            0 <= i < path.len() && !valid_utf8(path[i]) ==> #[trigger] texts[i] == utf8_lossy(
                path[i],
            ),
    ensures
        path_text(path) == join(texts, '/'),
{
    assert(path.map_values(|c: Seq<u8>| component_text(c)) =~= texts);
}

} // verus!
