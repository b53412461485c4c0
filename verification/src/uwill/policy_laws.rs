//! What the policy that an area is written as means.

use vstd::prelude::*;
use vstd::utf8::encode_utf8;

use super::area_extract::{area_arguments, area_predicates, component_text, end_predicates, path_predicates, path_text, slash, split, start_predicates, subspace_predicates, willow_area, WIL_PATH, WIL_SUBSPACE, WIL_TIME_END, WIL_TIME_START};
use super::area_laws::{is_textual, law_arguments_are_those_of_the_area, law_split_parts, lemma_encode_concat, lemma_encode_slash, lemma_text_parts};
use super::chain::{is_chain, ChainView};
use super::chain_laws::law_chain_gives_no_more_than_each_step;
use super::invocation::{challenge_arguments, ARG_CHALLENGE};
use super::policy::{field, IpldView, Number, PredicateView, PromisedView};
use crate::proto::grouping::{AreaSubspace, AreaView, RangeEnd};
use crate::text::{join, lemma_array_of_bytes};

verus! {

/// The arguments of an invocation.
pub type ArgumentMap = Map<Seq<char>, PromisedView>;

/// Whether a text stands for itself in a pattern.
pub open spec fn is_plain(text: Seq<char>) -> bool {
    !text.contains('*') && !text.contains('\\')
}

/// Whether `meets` says of predicates on one argument what UCAN policies mean by them: an
/// argument is equal to a value, at least or at most a number, or a text that begins with a
/// text and a slash; and one of some predicates is met. A predicate on an argument that is not
/// there is not met.
pub open spec fn evaluates_policies(meets: spec_fn(PredicateView, ArgumentMap) -> bool) -> bool {
    &&& forall|name: Seq<char>, bytes: Seq<u8>, args: ArgumentMap| #[trigger]
        meets(PredicateView::Equal(field(name), IpldView::Bytes(bytes)), args) <==> {
            &&& args.dom().contains(name)
            &&& args[name] == PromisedView::Bytes(bytes)
        }
    &&& forall|name: Seq<char>, text: Seq<char>, args: ArgumentMap| #[trigger]
        meets(PredicateView::Equal(field(name), IpldView::String(text)), args) <==> {
            &&& args.dom().contains(name)
            &&& args[name] == PromisedView::String(text)
        }
    &&& forall|name: Seq<char>, n: i128, args: ArgumentMap| #[trigger]
        meets(PredicateView::GreaterThanOrEqual(field(name), Number::Integer(n)), args) <==> {
            &&& args.dom().contains(name)
            &&& args[name] matches PromisedView::Integer(value)
            &&& value >= n
        }
    &&& forall|name: Seq<char>, n: i128, args: ArgumentMap| #[trigger]
        meets(PredicateView::LessThanOrEqual(field(name), Number::Integer(n)), args) <==> {
            &&& args.dom().contains(name)
            &&& args[name] matches PromisedView::Integer(value)
            &&& value <= n
        }
    &&& forall|name: Seq<char>, text: Seq<char>, args: ArgumentMap|
        is_plain(text) ==> (#[trigger] meets(
            PredicateView::Like(field(name), text + "/*"@),
            args,
        ) <==> {
            &&& args.dom().contains(name)
            &&& args[name] matches PromisedView::String(value)
            &&& text.push('/').is_prefix_of(value)
        })
    &&& forall|arms: Seq<PredicateView>, args: ArgumentMap| #[trigger]
        meets(PredicateView::Or(arms), args) <==> exists|i: int|
            0 <= i < arms.len() && meets(#[trigger] arms[i], args)
}

/// Whether the arguments meet all predicates of a policy.
pub open spec fn meets_all(
    meets: spec_fn(PredicateView, ArgumentMap) -> bool,
    policy: Seq<PredicateView>,
    args: ArgumentMap,
) -> bool {
    forall|i: int| 0 <= i < policy.len() ==> meets(#[trigger] policy[i], args)
}

proof fn lemma_meets_both(
    meets: spec_fn(PredicateView, ArgumentMap) -> bool,
    a: Seq<PredicateView>,
    b: Seq<PredicateView>,
    args: ArgumentMap,
)
    ensures
        meets_all(meets, a + b, args) <==> meets_all(meets, a, args) && meets_all(meets, b, args),
{
    let both = a + b;
    if meets_all(meets, both, args) {
        assert forall|i: int| 0 <= i < a.len() implies meets(#[trigger] a[i], args) by {
            assert(both[i] == a[i]);
        }
        assert forall|i: int| 0 <= i < b.len() implies meets(#[trigger] b[i], args) by {
            assert(both[a.len() + i] == b[i]);
        }
    }
}

/// The text of the first components, with a slash, begins the text of all.
proof fn lemma_join_begins<T>(parts: Seq<Seq<T>>, separator: T, n: int)
    requires
        0 < n < parts.len(),
    ensures
        join(parts.take(n), separator).push(separator).is_prefix_of(join(parts, separator)),
    decreases parts.len(),
{
    let front = parts.drop_last();
    let begin = join(parts.take(n), separator).push(separator);
    let whole = join(parts, separator);
    let joined = join(front, separator).push(separator);
    assert(whole == joined + parts.last());
    if n == parts.len() - 1 {
        assert(front =~= parts.take(n));
        assert(begin =~= whole.subrange(0, begin.len() as int));
    } else {
        lemma_join_begins(front, separator, n);
        assert(front.take(n) =~= parts.take(n));
        let inner = join(front, separator);
        assert(begin =~= inner.subrange(0, begin.len() as int));
        assert(begin =~= whole.subrange(0, begin.len() as int));
    }
}

/// Cutting at a slash cuts both sides.
proof fn lemma_split_at(front: Seq<u8>, rest: Seq<u8>)
    ensures
        split(front.push(slash()) + rest) == split(front) + split(rest),
    decreases rest.len(),
{
    let whole = front.push(slash()) + rest;
    law_split_parts(front);
    law_split_parts(rest);
    if rest.len() == 0 {
        assert(whole =~= front.push(slash()));
        assert(whole.drop_last() =~= front);
        assert(split(whole) =~= split(front) + split(rest));
    } else {
        let shorter = rest.drop_last();
        lemma_split_at(front, shorter);
        law_split_parts(shorter);
        assert(whole.drop_last() =~= front.push(slash()) + shorter);
        assert(whole.last() == rest.last());
        assert(split(whole) =~= split(front) + split(rest));
    }
}

/// Of paths of text, one is below another exactly if its text is that of the other or begins
/// with it and a slash.
pub proof fn law_path_text_shows_prefixes(a: Seq<Seq<u8>>, b: Seq<Seq<u8>>)
    requires
        a.len() > 0,
        b.len() > 0,
        is_textual(a),
        is_textual(b),
    ensures
        a.is_prefix_of(b) <==> path_text(a) == path_text(b) || path_text(a).push('/').is_prefix_of(
            path_text(b),
        ),
{
    let text = path_text(a);
    let below = path_text(b);
    lemma_text_parts(a);
    lemma_text_parts(b);
    if a.is_prefix_of(b) {
        if a.len() == b.len() {
            assert(a =~= b);
        } else {
            let texts = b.map_values(|c: Seq<u8>| component_text(c));
            lemma_join_begins(texts, '/', a.len() as int);
            assert(texts.take(a.len() as int) =~= a.map_values(|c: Seq<u8>| component_text(c)));
        }
    }
    if text == below {
        assert(a =~= b.subrange(0, a.len() as int));
    }
    if text.push('/').is_prefix_of(below) {
        let rest = below.subrange(text.len() as int + 1, below.len() as int);
        assert(below =~= text.push('/') + rest);
        assert(text.push('/') =~= text + seq!['/']);
        lemma_encode_concat(text, seq!['/']);
        lemma_encode_slash();
        lemma_encode_concat(text.push('/'), rest);
        assert(encode_utf8(text.push('/')) =~= encode_utf8(text).push(slash()));
        lemma_split_at(encode_utf8(text), encode_utf8(rest));
        assert(b == a + split(encode_utf8(rest)));
        assert(a =~= b.subrange(0, a.len() as int));
    }
}

/// The policy that an area is written as means containment: the arguments that another area is
/// written as meet it exactly if the area includes the other.
pub proof fn law_policy_means_containment(
    meets: spec_fn(PredicateView, ArgumentMap) -> bool,
    area: AreaView,
    other: AreaView,
)
    requires
        evaluates_policies(meets),
        is_textual(area.path),
        is_textual(other.path),
        is_plain(path_text(area.path)),
    ensures
        meets_all(meets, area_predicates(area), area_arguments(other)) <==> area.includes_area(
            other,
        ),
{
    lemma_containment(meets, area, other, area_arguments(other));
}

/// Whether arguments say of an area what the arguments that it is written as say.
spec fn same_area_arguments(args: ArgumentMap, area: AreaView) -> bool {
    let own = area_arguments(area);
    forall|name: Seq<char>|
        name == WIL_SUBSPACE@ || name == WIL_PATH@ || name == WIL_TIME_START@ || name
            == WIL_TIME_END@ ==> (args.dom().contains(name) <==> #[trigger] own.dom().contains(name))
            && (own.dom().contains(name) ==> args[name] == own[name])
}

proof fn lemma_containment(
    meets: spec_fn(PredicateView, ArgumentMap) -> bool,
    area: AreaView,
    other: AreaView,
    args: ArgumentMap,
)
    requires
        evaluates_policies(meets),
        is_textual(area.path),
        is_textual(other.path),
        is_plain(path_text(area.path)),
        same_area_arguments(args, other),
    ensures
        meets_all(meets, area_predicates(area), args) <==> area.includes_area(other),
{
    let own = area_arguments(other);
    let p1 = subspace_predicates(area.subspace);
    let p2 = path_predicates(area.path);
    let p3 = start_predicates(area.times.start);
    let p4 = end_predicates(area.times.end);
    lemma_meets_both(meets, p1, p2, args);
    lemma_meets_both(meets, p1 + p2, p3, args);
    lemma_meets_both(meets, p1 + p2 + p3, p4, args);
    law_arguments_are_those_of_the_area(other);
    lemma_argument_values(other);
    assert(own.dom().contains(WIL_SUBSPACE@) <==> other.subspace is Id);
    assert(own.dom().contains(WIL_PATH@) <==> other.path.len() > 0);
    assert(own.dom().contains(WIL_TIME_START@) <==> other.times.start > 0);
    assert(own.dom().contains(WIL_TIME_END@) <==> other.times.end is Closed);
    assert(meets_all(meets, p1, args) <==> area.subspace.spec_includes_subspace(other.subspace))
        by {
        if let AreaSubspace::Id(user) = area.subspace {
            if let AreaSubspace::Id(theirs) = other.subspace {
                if user.bytes@ == theirs.bytes@ {
                    lemma_array_of_bytes(user.bytes, theirs.bytes);
                }
            }
            assert(meets_all(meets, p1, args) <==> meets(p1[0], args));
        }
    }
    assert(meets_all(meets, p2, args) <==> area.path.is_prefix_of(other.path)) by {
        if area.path.len() > 0 {
            let arms = p2[0]->Or_0;
            assert(meets_all(meets, p2, args) <==> meets(p2[0], args));
            assert(meets(p2[0], args) <==> meets(arms[0], args) || meets(arms[1], args));
            if other.path.len() > 0 {
                law_path_text_shows_prefixes(area.path, other.path);
            }
        } else {
            assert(area.path =~= other.path.subrange(0, 0));
        }
    }
    assert(meets_all(meets, p3, args) <==> area.times.start <= other.times.start) by {
        if area.times.start > 0 {
            assert(meets_all(meets, p3, args) <==> meets(p3[0], args));
        }
    }
    assert(meets_all(meets, p4, args) <==> match (area.times.end, other.times.end) {
        (RangeEnd::Open, _) => true,
        (RangeEnd::Closed(_), RangeEnd::Open) => false,
        (RangeEnd::Closed(end), RangeEnd::Closed(theirs)) => theirs <= end,
    }) by {
        if area.times.end is Closed {
            assert(meets_all(meets, p4, args) <==> meets(p4[0], args));
        }
    }
}

/// The values of the arguments that an area is written as.
proof fn lemma_argument_values(area: AreaView)
    ensures
        ({
            let args = area_arguments(area);
            &&& area.subspace matches AreaSubspace::Id(user) ==> args[WIL_SUBSPACE@]
                == PromisedView::Bytes(user.bytes@)
            &&& area.path.len() > 0 ==> args[WIL_PATH@] == PromisedView::String(
                path_text(area.path),
            )
            &&& area.times.start > 0 ==> args[WIL_TIME_START@] == PromisedView::Integer(
                area.times.start as int,
            )
            &&& area.times.end matches RangeEnd::Closed(end) ==> args[WIL_TIME_END@]
                == PromisedView::Integer(end as int)
        }),
{
    reveal_strlit("wil_subspace");
    reveal_strlit("wil_path");
    reveal_strlit("wil_time_start");
    reveal_strlit("wil_time_end");
    assert(WIL_SUBSPACE@.len() == 12 && WIL_TIME_END@.len() == 12);
    assert(WIL_SUBSPACE@[4] == 's' && WIL_TIME_END@[4] == 't');
    assert(WIL_PATH@.len() == 8 && WIL_TIME_START@.len() == 14);
}

/// Whether a policy is the one that its area is written as, with a path that the policy can
/// tell.
pub open spec fn is_policy_of_area(policy: Seq<PredicateView>) -> bool {
    let area = willow_area(policy)->Ok_0;
    &&& willow_area(policy) is Ok
    &&& policy == area_predicates(area)
    &&& is_textual(area.path)
    &&& is_plain(path_text(area.path))
}

/// What a holder of a chain claims when it uses it, every delegation of the chain allows: the
/// arguments of an invocation over the area of the chain, with a challenge or without, meet all
/// policies along it.
pub proof fn law_holder_meets_all_policies(
    meets: spec_fn(PredicateView, ArgumentMap) -> bool,
    chain: ChainView,
    challenge: Seq<u8>,
    i: int,
)
    requires
        evaluates_policies(meets),
        is_chain(chain),
        forall|j: int|
            0 <= j < chain.delegations.len() ==> is_policy_of_area(
                (#[trigger] chain.delegations[j]).policy,
            ),
        0 <= i < chain.delegations.len(),
    ensures
        meets_all(meets, chain.delegations[i].policy, area_arguments(chain.area)),
        meets_all(meets, chain.delegations[i].policy, challenge_arguments(chain, challenge)),
{
    let policy = chain.delegations[i].policy;
    let area = willow_area(policy)->Ok_0;
    let last = chain.delegations.len() - 1;
    assert(is_policy_of_area(chain.delegations[last].policy));
    assert(is_policy_of_area(policy));
    law_chain_gives_no_more_than_each_step(chain, i);
    lemma_containment(meets, area, chain.area, area_arguments(chain.area));
    law_arguments_are_those_of_the_area(chain.area);
    reveal_strlit("wil_subspace");
    reveal_strlit("wil_path");
    reveal_strlit("wil_time_start");
    reveal_strlit("wil_time_end");
    reveal_strlit("challenge");
    assert(ARG_CHALLENGE@.len() == 9);
    lemma_containment(meets, area, chain.area, challenge_arguments(chain, challenge));
}

} // verus!
