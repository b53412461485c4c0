//! What writing areas and reading them have to do with each other.

use vstd::prelude::*;
use vstd::utf8::{encode_scalar, encode_utf8, valid_utf8};

use super::area_extract::{area_arguments, area_predicates, component_text, end_predicates, lemma_encoding_length, parsed_path, path_of_arms, path_predicates, path_text, raw_area, slash, split, start_predicates, subspace_predicates, user_of, willow_area, AreaExtractErrorView, RawWillowAreaView, WIL_PATH, WIL_SUBSPACE, WIL_TIME_END, WIL_TIME_START};
use super::invocation::{ARG_CHALLENGE, ARG_REVOKE};
use super::policy::{field, PredicateView};
use crate::proto::data_model::path_error;
use crate::proto::grouping::{AreaSubspace, AreaView, RangeEnd};
use crate::text::{join, lemma_array_of_bytes};

verus! {

/// Whether each component of a path is text without a slash.
pub open spec fn is_textual(path: Seq<Seq<u8>>) -> bool {
    forall|i: int|
        0 <= i < path.len() ==> valid_utf8(#[trigger] path[i]) && !path[i].contains(slash())
}

/// Whether a path can be told from its text: each component is text without a
/// slash, and the path is not that of a single empty component, which is written
/// like the path without components.
pub open spec fn has_faithful_text(path: Seq<Seq<u8>>) -> bool {
    &&& is_textual(path)
    &&& !(path.len() == 1 && path[0].len() == 0)
}

/// Cutting the text of a path at the slashes finds its components.
pub proof fn lemma_text_parts(path: Seq<Seq<u8>>)
    requires
        path.len() > 0,
        is_textual(path),
    ensures
        split(encode_utf8(path_text(path))) == path,
{
    let texts = path.map_values(|c: Seq<u8>| component_text(c));
    assert forall|i: int| 0 <= i < texts.len() implies encode_utf8(#[trigger] texts[i])
        == path[i] by {
        assert(valid_utf8(path[i]));
        vstd::utf8::decode_utf8_encode_utf8(path[i]);
    }
    lemma_encode_join(texts);
    assert(texts.map_values(|t: Seq<char>| encode_utf8(t)) =~= path);
    lemma_split_join(path);
}

/// Reading a path back from its text gives the path.
pub proof fn law_path_text_round_trip(path: Seq<Seq<u8>>)
    requires
        path_error(path) is None,
        has_faithful_text(path),
    ensures
        parsed_path(path_text(path)) == Ok::<Seq<Seq<u8>>, Seq<char>>(path),
{
    if path.len() == 0 {
        assert(path =~= Seq::empty());
    } else {
        lemma_text_parts(path);
        if path_text(path).len() == 0 {
            assert(encode_utf8(path_text(path)) =~= Seq::<u8>::empty());
            assert(path[0].len() == 0);
        }
    }
}

/// The runs between the slashes have no slash, and with slashes between them they
/// are the bytes again.
pub proof fn law_split_parts(bytes: Seq<u8>)
    ensures
        split(bytes).len() > 0,
        join(split(bytes), slash()) == bytes,
        forall|i: int| 0 <= i < split(bytes).len() ==> !(#[trigger] split(bytes)[i]).contains(slash()),
    decreases bytes.len(),
{
    let parts = split(bytes);
    if bytes.len() == 0 {
        assert(join(parts, slash()) =~= bytes);
    } else {
        let before = split(bytes.drop_last());
        law_split_parts(bytes.drop_last());
        if bytes.last() == slash() {
            assert(parts.drop_last() =~= before);
            assert(join(parts, slash()) =~= bytes);
        } else {
            assert(parts.drop_last() =~= before.drop_last());
            if before.len() == 1 {
                assert(join(parts, slash()) =~= bytes);
            } else {
                let front = join(before.drop_last(), slash()).push(slash());
                assert(front + before.last() == bytes.drop_last());
                assert(parts.last() == before.last().push(bytes.last()));
                assert(front + parts.last() =~= (front + before.last()).push(bytes.last()));
                assert(bytes.drop_last().push(bytes.last()) =~= bytes);
                assert(parts.len() > 1);
                assert(join(parts, slash()) == front + parts.last());
            }
            assert forall|i: int| 0 <= i < parts.len() implies !(#[trigger] parts[i]).contains(
                slash(),
            ) by {
                if i == parts.len() - 1 {
                    assert(!before[i].contains(slash()));
                    if parts[i].contains(slash()) {
                        let k = choose|k: int| 0 <= k < parts[i].len() && parts[i][k] == slash();
                        assert(before[i][k] == slash());
                    }
                } else {
                    assert(parts[i] == before[i]);
                }
            }
        }
    }
}

proof fn lemma_split_extend(front: Seq<u8>, tail: Seq<u8>)
    requires
        !tail.contains(slash()),
    ensures
        split(front).len() > 0,
        split(front + tail) == split(front).update(
            split(front).len() - 1,
            split(front).last() + tail,
        ),
    decreases tail.len(),
{
    law_split_parts(front);
    let parts = split(front);
    if tail.len() == 0 {
        assert(front + tail =~= front);
        assert(parts.last() + tail =~= parts.last());
        assert(parts.update(parts.len() - 1, parts.last() + tail) =~= parts);
    } else {
        let rest = tail.drop_last();
        assert forall|k: int| 0 <= k < rest.len() implies rest[k] != slash() by {
            assert(tail[k] == rest[k]);
        }
        lemma_split_extend(front, rest);
        assert((front + tail).drop_last() =~= front + rest);
        assert(tail.last() != slash()) by {
            assert(tail[tail.len() - 1] == tail.last());
        }
        assert((front + tail).last() == tail.last());
        let before = split(front + rest);
        assert(before.last().push(tail.last()) =~= parts.last() + tail);
        assert(split(front + tail) =~= parts.update(parts.len() - 1, parts.last() + tail));
    }
}

/// Cutting at the slashes finds the parts that slashes were put between.
proof fn lemma_split_join(parts: Seq<Seq<u8>>)
    requires
        parts.len() > 0,
        forall|i: int| 0 <= i < parts.len() ==> !(#[trigger] parts[i]).contains(slash()),
    ensures
        split(join(parts, slash())) == parts,
    decreases parts.len(),
{
    if parts.len() == 1 {
        lemma_split_extend(Seq::empty(), parts[0]);
        assert(Seq::<u8>::empty() + parts[0] =~= parts[0]);
        assert(split(parts[0]) =~= parts);
    } else {
        let front = parts.drop_last();
        assert forall|i: int| 0 <= i < front.len() implies !(#[trigger] front[i]).contains(
            slash(),
        ) by {
            assert(front[i] == parts[i]);
        }
        lemma_split_join(front);
        let joined = join(front, slash()).push(slash());
        assert(joined.drop_last() =~= join(front, slash()));
        assert(!parts.last().contains(slash())) by {
            assert(parts[parts.len() - 1] == parts.last());
        }
        lemma_split_extend(joined, parts.last());
        assert(Seq::<u8>::empty() + parts.last() =~= parts.last());
        assert(split(join(parts, slash())) =~= parts);
    }
}

pub proof fn lemma_encode_concat(a: Seq<char>, b: Seq<char>)
    ensures
        encode_utf8(a + b) == encode_utf8(a) + encode_utf8(b),
    decreases a.len(),
{
    if a.len() == 0 {
        assert(a + b =~= b);
        assert(encode_utf8(a + b) =~= encode_utf8(a) + encode_utf8(b));
    } else {
        assert((a + b).drop_first() =~= a.drop_first() + b);
        lemma_encode_concat(a.drop_first(), b);
        assert(encode_utf8(a + b) =~= encode_utf8(a) + encode_utf8(b));
    }
}

/// A slash is encoded as the byte of the slash.
pub proof fn lemma_encode_slash()
    ensures
        encode_utf8(seq!['/']) == seq![slash()],
{
    let text = seq!['/'];
    assert(text.drop_first() =~= Seq::empty());
    assert(encode_utf8(text.drop_first()) =~= Seq::empty());
    let c: u32 = '/' as u32;
    assert(c == 0x2f);
    assert(vstd::utf8::has_width_1_encoding(c));
    assert(vstd::utf8::leading_byte_width_1(c) == 0x2fu8) by {
        assert((0x2fu32 & 0x7f) as u8 == 0x2fu8) by (bit_vector);
    }
    assert(encode_utf8(text) =~= seq![slash()]);
}

/// Slashes between texts are slashes between their encodings.
proof fn lemma_encode_join(texts: Seq<Seq<char>>)
    ensures
        encode_utf8(join(texts, '/')) == join(
            texts.map_values(|t: Seq<char>| encode_utf8(t)),
            slash(),
        ),
    decreases texts.len(),
{
    let encoded = texts.map_values(|t: Seq<char>| encode_utf8(t));
    if texts.len() == 0 {
        assert(encode_utf8(join(texts, '/')) =~= join(encoded, slash()));
    } else if texts.len() == 1 {
        assert(join(texts, '/') == texts[0]);
    } else {
        let front = texts.drop_last();
        lemma_encode_join(front);
        assert(encoded.drop_last() =~= front.map_values(|t: Seq<char>| encode_utf8(t)));
        let joined = join(front, '/');
        assert(joined.push('/') =~= joined + seq!['/']);
        lemma_encode_concat(joined, seq!['/']);
        lemma_encode_slash();
        lemma_encode_concat(joined.push('/'), texts.last());
        assert(encode_utf8(join(texts, '/')) =~= join(encoded, slash()));
    }
}

/// Whether an area can be told from its policy: its path can be told from its text,
/// and its times end after they start.
pub open spec fn has_faithful_policy(area: AreaView) -> bool {
    &&& has_faithful_text(area.path)
    &&& area.times.end matches RangeEnd::Closed(end) ==> area.times.start < end
}

/// Reading an area back from its policy gives the area.
pub proof fn law_area_policy_round_trip(area: AreaView)
    requires
        path_error(area.path) is None,
        has_faithful_policy(area),
    ensures
        willow_area(area_predicates(area)) == Ok::<AreaView, AreaExtractErrorView>(area),
{
    let none = Seq::<PredicateView>::empty();
    let raw0 = RawWillowAreaView { subspace: None, path: None, time_start: None, time_end: None };
    let p1 = subspace_predicates(area.subspace);
    let raw1 = RawWillowAreaView {
        subspace: match area.subspace {
            AreaSubspace::Any => None,
            AreaSubspace::Id(user) => Some(user),
        },
        ..raw0
    };
    assert(raw_area(p1) == Ok::<RawWillowAreaView, AreaExtractErrorView>(raw1)) by {
        if let AreaSubspace::Id(user) = area.subspace {
            reveal_with_fuel(raw_area, 2);
            assert(p1.drop_last() =~= none);
            lemma_array_of_bytes(user_of(user.bytes@).bytes, user.bytes);
            assert(user_of(user.bytes@) == user);
        }
    }
    let p2 = path_predicates(area.path);
    let raw2 = RawWillowAreaView {
        path: if area.path.len() == 0 {
            None
        } else {
            Some(path_text(area.path))
        },
        ..raw1
    };
    assert(raw_area(p1 + p2) == Ok::<RawWillowAreaView, AreaExtractErrorView>(raw2)) by {
        if area.path.len() == 0 {
            assert(p1 + p2 =~= p1);
        } else {
            assert((p1 + p2).drop_last() =~= p1);
            let arms = p2[0]->Or_0;
            assert(arms.drop_last().drop_last() =~= none);
            assert(arms.drop_last().last() == arms[0]);
            reveal_with_fuel(path_of_arms, 3);
        }
    }
    let p3 = start_predicates(area.times.start);
    let raw3 = RawWillowAreaView {
        time_start: if area.times.start == 0 {
            None
        } else {
            Some(area.times.start)
        },
        ..raw2
    };
    assert(raw_area(p1 + p2 + p3) == Ok::<RawWillowAreaView, AreaExtractErrorView>(raw3)) by {
        if area.times.start == 0 {
            assert(p1 + p2 + p3 =~= p1 + p2);
        } else {
            assert((p1 + p2 + p3).drop_last() =~= p1 + p2);
        }
    }
    let p4 = end_predicates(area.times.end);
    let raw4 = RawWillowAreaView {
        time_end: match area.times.end {
            RangeEnd::Open => None,
            RangeEnd::Closed(end) => Some(end),
        },
        ..raw3
    };
    assert(raw_area(p1 + p2 + p3 + p4) == Ok::<RawWillowAreaView, AreaExtractErrorView>(raw4)) by {
        match area.times.end {
            RangeEnd::Open => {
                assert(p1 + p2 + p3 + p4 =~= p1 + p2 + p3);
            },
            RangeEnd::Closed(end) => {
                assert((p1 + p2 + p3 + p4).drop_last() =~= p1 + p2 + p3);
            },
        }
    }
    law_path_text_round_trip(area.path);
    if area.path.len() == 0 {
        assert(area.path =~= Seq::empty());
    }
}

/// Whether a predicate is one on a field of an area.
pub open spec fn speaks_of_area(predicate: PredicateView) -> bool {
    match predicate {
        PredicateView::Equal(selector, _) => selector == field(WIL_SUBSPACE@),
        PredicateView::Or(arms) => exists|i: int|
            0 <= i < arms.len() && (#[trigger] arms[i]) is Equal && arms[i]->Equal_0 == field(
                WIL_PATH@,
            ),
        PredicateView::GreaterThanOrEqual(selector, _) => selector == field(WIL_TIME_START@),
        PredicateView::LessThanOrEqual(selector, _) => selector == field(WIL_TIME_END@),
        _ => false,
    }
}

/// A predicate on no field of an area makes no difference to the area, wherever in
/// the policy it stands.
pub proof fn law_other_predicates_are_ignored(
    before: Seq<PredicateView>,
    other: PredicateView,
    after: Seq<PredicateView>,
)
    requires
        !speaks_of_area(other),
    ensures
        willow_area(before.push(other) + after) == willow_area(before + after),
{
    lemma_other_predicate(before, other, after);
}

proof fn lemma_other_predicate(
    before: Seq<PredicateView>,
    other: PredicateView,
    after: Seq<PredicateView>,
)
    requires
        !speaks_of_area(other),
    ensures
        raw_area(before.push(other) + after) == raw_area(before + after),
    decreases after.len(),
{
    if after.len() == 0 {
        assert(before + after =~= before);
        assert(before.push(other) + after =~= before.push(other));
        assert(before.push(other).drop_last() =~= before);
        if let Ok(raw) = raw_area(before) {
            if let PredicateView::Or(arms) = other {
                lemma_silent_arms(arms, raw.path);
            }
        }
    } else {
        let rest = after.drop_last();
        lemma_other_predicate(before, other, rest);
        assert((before.push(other) + after).drop_last() =~= before.push(other) + rest);
        assert((before + after).drop_last() =~= before + rest);
        assert((before.push(other) + after).last() == after.last());
        assert((before + after).last() == after.last());
    }
}

proof fn lemma_silent_arms(arms: Seq<PredicateView>, path: Option<Seq<char>>)
    requires
        !speaks_of_area(PredicateView::Or(arms)),
    ensures
        path_of_arms(arms, path) == Ok::<Option<Seq<char>>, AreaExtractErrorView>(path),
    decreases arms.len(),
{
    if arms.len() > 0 {
        let rest = arms.drop_last();
        assert forall|i: int| 0 <= i < rest.len() implies !((#[trigger] rest[i]) is Equal
            && rest[i]->Equal_0 == field(WIL_PATH@)) by {
            assert(rest[i] == arms[i]);
        }
        lemma_silent_arms(rest, path);
        assert(arms.last() == arms[arms.len() - 1]);
    }
}

/// The runs of characters between the slashes.
spec fn split_text(text: Seq<char>) -> Seq<Seq<char>>
    decreases text.len(),
{
    if text.len() == 0 {
        seq![Seq::empty()]
    } else {
        let parts = split_text(text.drop_last());
        if text.last() == '/' {
            parts.push(Seq::empty())
        } else {
            parts.update(parts.len() - 1, parts.last().push(text.last()))
        }
    }
}

proof fn lemma_split_text(text: Seq<char>)
    ensures
        split_text(text).len() > 0,
        join(split_text(text), '/') == text,
    decreases text.len(),
{
    let parts = split_text(text);
    if text.len() == 0 {
        assert(join(parts, '/') =~= text);
    } else {
        let before = split_text(text.drop_last());
        lemma_split_text(text.drop_last());
        assert(text.drop_last().push(text.last()) =~= text);
        if text.last() == '/' {
            assert(parts.drop_last() =~= before);
            assert(join(parts, '/') =~= text);
        } else {
            assert(parts.drop_last() =~= before.drop_last());
            assert(parts.last() == before.last().push(text.last()));
            if before.len() == 1 {
                assert(join(parts, '/') =~= text);
            } else {
                let front = join(before.drop_last(), '/').push('/');
                assert(front + before.last() == text.drop_last());
                assert(front + parts.last() =~= (front + before.last()).push(text.last()));
            }
        }
    }
}

/// No character but the slash is encoded with the byte of the slash.
proof fn lemma_encoded_scalar_has_no_slash(c: char)
    requires
        c != '/',
    ensures
        !encode_scalar(c as u32).contains(slash()),
{
    let v = c as u32;
    vstd::utf8::char_is_scalar(c);
    let bytes = encode_scalar(v);
    if vstd::utf8::has_width_1_encoding(v) {
        assert(v != 0x2f);
        assert((v & 0x7f) as u8 != 0x2fu8) by (bit_vector)
            requires
                v <= 0x7f,
                v != 0x2f,
        ;
        assert(bytes[0] != slash());
    } else {
        assert(0x80u8 | (v & 0x3f) as u8 >= 0x80u8) by (bit_vector);
        assert(0x80u8 | ((v >> 6) & 0x3f) as u8 >= 0x80u8) by (bit_vector);
        assert(0x80u8 | ((v >> 12) & 0x3f) as u8 >= 0x80u8) by (bit_vector);
        assert(0xc0u8 | ((v >> 6) & 0x1f) as u8 >= 0x80u8) by (bit_vector);
        assert(0xe0u8 | ((v >> 12) & 0x0f) as u8 >= 0x80u8) by (bit_vector);
        assert(0xf0u8 | ((v >> 18) & 0x7) as u8 >= 0x80u8) by (bit_vector);
        assert forall|i: int| 0 <= i < bytes.len() implies bytes[i] >= 0x80u8 by {}
    }
}

/// Cutting the encoding of a text at the slashes gives the encodings of the runs between its
/// slashes.
proof fn lemma_split_encoding(text: Seq<char>)
    ensures
        split(encode_utf8(text)) == split_text(text).map_values(|t: Seq<char>| encode_utf8(t)),
    decreases text.len(),
{
    let parts = split_text(text);
    let encoded = parts.map_values(|t: Seq<char>| encode_utf8(t));
    if text.len() == 0 {
        assert(encode_utf8(text) =~= Seq::empty());
        assert(encoded =~= seq![Seq::<u8>::empty()]) by {
            assert(encode_utf8(Seq::<char>::empty()) =~= Seq::<u8>::empty());
        }
    } else {
        let front = text.drop_last();
        let before = split_text(front);
        let before_encoded = before.map_values(|t: Seq<char>| encode_utf8(t));
        let c = text.last();
        lemma_split_encoding(front);
        lemma_split_text(front);
        assert(front + seq![c] =~= text);
        lemma_encode_concat(front, seq![c]);
        if c == '/' {
            lemma_encode_slash();
            let bytes = encode_utf8(front).push(slash());
            assert(encode_utf8(text) =~= bytes);
            assert(bytes.drop_last() =~= encode_utf8(front));
            assert(encode_utf8(Seq::<char>::empty()) =~= Seq::<u8>::empty());
            assert(encoded =~= before_encoded.push(Seq::<u8>::empty()));
        } else {
            lemma_encoded_scalar_has_no_slash(c);
            assert(seq![c].drop_first() =~= Seq::empty());
            assert(encode_utf8(seq![c]) =~= encode_scalar(c as u32)) by {
                assert(encode_utf8(seq![c].drop_first()) =~= Seq::<u8>::empty());
            }
            lemma_split_extend(encode_utf8(front), encode_scalar(c as u32));
            let last = before.last();
            assert(last + seq![c] =~= last.push(c));
            lemma_encode_concat(last, seq![c]);
            assert(encoded =~= before_encoded.update(
                before.len() - 1,
                before_encoded.last() + encode_scalar(c as u32),
            ));
        }
    }
}

/// Writing the path that was read from a text gives the text.
pub proof fn law_text_path_round_trip(text: Seq<char>)
    requires
        parsed_path(text) is Ok,
    ensures
        path_text(parsed_path(text)->Ok_0) == text,
{
    if text.len() == 0 {
        let none = Seq::<Seq<u8>>::empty();
        assert(none.map_values(|c: Seq<u8>| component_text(c)) =~= Seq::<Seq<char>>::empty());
        assert(text =~= Seq::empty());
    } else {
        let parts = split_text(text);
        lemma_split_encoding(text);
        lemma_split_text(text);
        let path = split(encode_utf8(text));
        let texts = path.map_values(|c: Seq<u8>| component_text(c));
        assert forall|i: int| 0 <= i < parts.len() implies texts[i] == parts[i] by {
            vstd::utf8::encode_utf8_valid_utf8(parts[i]);
            vstd::utf8::encode_utf8_decode_utf8(parts[i]);
        }
        assert(texts =~= parts);
    }
}

/// The arguments that an area is written as say what the area says, and nothing else.
pub proof fn law_arguments_are_those_of_the_area(area: AreaView)
    ensures
        ({
            let args = area_arguments(area);
            &&& args.dom().contains(WIL_SUBSPACE@) <==> area.subspace is Id
            &&& args.dom().contains(WIL_PATH@) <==> area.path.len() > 0
            &&& args.dom().contains(WIL_TIME_START@) <==> area.times.start > 0
            &&& args.dom().contains(WIL_TIME_END@) <==> area.times.end is Closed
            &&& !args.dom().contains(ARG_CHALLENGE@)
            &&& !args.dom().contains(ARG_REVOKE@)
        }),
{
    reveal_strlit("wil_subspace");
    reveal_strlit("wil_path");
    reveal_strlit("wil_time_start");
    reveal_strlit("wil_time_end");
    reveal_strlit("challenge");
    reveal_strlit("revoke");
    assert(WIL_SUBSPACE@.len() == 12 && WIL_TIME_END@.len() == 12);
    assert(WIL_SUBSPACE@[4] == 's' && WIL_TIME_END@[4] == 't');
    assert(WIL_PATH@.len() == 8 && WIL_TIME_START@.len() == 14);
    assert(ARG_CHALLENGE@.len() == 9 && ARG_REVOKE@.len() == 6);
}

/// An area that was read from a policy is read back from the policy that it is written as: what
/// a chain covers can always be passed on as a whole.
pub proof fn law_areas_of_policies_are_faithful(policy: Seq<PredicateView>, area: AreaView)
    requires
        willow_area(policy) == Ok::<AreaView, AreaExtractErrorView>(area),
    ensures
        path_error(area.path) is None,
        has_faithful_policy(area),
        willow_area(area_predicates(area)) == Ok::<AreaView, AreaExtractErrorView>(area),
{
    let raw = raw_area(policy)->Ok_0;
    match raw.path {
        Some(text) => {
            lemma_read_paths_are_faithful(text);
        },
        None => {
            lemma_empty_path_is_faithful();
        },
    }
    law_area_policy_round_trip(area);
}

proof fn lemma_empty_path_is_faithful()
    ensures
        path_error(Seq::<Seq<u8>>::empty()) is None,
        has_faithful_text(Seq::<Seq<u8>>::empty()),
{
}

proof fn lemma_read_paths_are_faithful(text: Seq<char>)
    requires
        parsed_path(text) is Ok,
    ensures
        path_error(parsed_path(text)->Ok_0) is None,
        has_faithful_text(parsed_path(text)->Ok_0),
{
    if text.len() == 0 {
        lemma_empty_path_is_faithful();
    } else {
        let bytes = encode_utf8(text);
        let path = split(bytes);
        let parts = split_text(text);
        lemma_split_encoding(text);
        law_split_parts(bytes);
        assert forall|i: int| 0 <= i < path.len() implies valid_utf8(#[trigger] path[i])
            && !path[i].contains(slash()) by {
            vstd::utf8::encode_utf8_valid_utf8(parts[i]);
            assert(path[i] == encode_utf8(parts[i]));
        }
        lemma_encoding_length(text);
        if path.len() == 1 && path[0].len() == 0 {
            assert(join(path, slash()).len() == 0);
        }
    }
}

} // verus!
