//! What a comprehension means, what its target expression computes, and the proof that
//! the two agree.
//!
//! The phrases of the host language are opaque here, so both are stated for every
//! `Meaning`: every way to read a sequence expression as a run of elements, and a
//! condition or a mapping as a function of the element that the pattern is bound to.

use vstd::prelude::*;
use crate::ast::ComprehensionModel;
use crate::render::lowered;
use crate::render::lowered_guard;
use crate::target::GuardModel;
use crate::target::TargetModel;

verus! {

/// A reading of the host language's phrases, over elements `E` and outputs `V`.
#[verifier::reject_recursive_types(E)]
#[verifier::reject_recursive_types(V)]
pub ghost struct Meaning<E, V> {
    /// The elements that a sequence expression gives, in order.
    pub elements: spec_fn(Seq<char>) -> Seq<E>,
    /// Whether a condition holds, with the pattern bound to an element.
    pub holds: spec_fn(Seq<Seq<char>>, Seq<char>, E) -> bool,
    /// The value of a mapping, with the pattern bound to an element.
    pub value: spec_fn(Seq<Seq<char>>, Seq<char>, E) -> V,
}

/// Whether every condition of the comprehension holds of `element`.
pub open spec fn all_hold<E, V>(
    comprehension: ComprehensionModel,
    meaning: Meaning<E, V>,
    element: E,
) -> bool {
    forall|i: int|
        0 <= i < comprehension.clause.conditions.len() ==> (meaning.holds)(
            comprehension.clause.pattern,
            #[trigger] comprehension.clause.conditions[i],
            element,
        )
}

/// What a comprehension means: the elements of its sequence of which every condition
/// holds, in order, each passed through the mapping.
pub open spec fn denoted<E, V>(comprehension: ComprehensionModel, meaning: Meaning<E, V>) -> Seq<V> {
    (meaning.elements)(comprehension.clause.sequence).filter(
        |element: E| all_hold(comprehension, meaning, element),
    ).map_values(
        |element: E| (meaning.value)(comprehension.clause.pattern, comprehension.mapping, element),
    )
}

/// Whether a guard admits `element`: `true` does, and `rest && (last)` does where
/// `rest` does and `last` holds.
pub open spec fn admits<E, V>(
    guard: GuardModel,
    binder: Seq<Seq<char>>,
    meaning: Meaning<E, V>,
    element: E,
) -> bool
    decreases guard,
{
    match guard {
        GuardModel::Always => true,
        GuardModel::And(rest, last) => admits(*rest, binder, meaning, element) && (meaning.holds)(
            binder,
            last,
            element,
        ),
    }
}

/// The conditions that are evaluated when a guard is asked about `element`, in the
/// order of their evaluation: `&&` asks its right side only where its left side is
/// true.
pub open spec fn asked<E, V>(
    guard: GuardModel,
    binder: Seq<Seq<char>>,
    meaning: Meaning<E, V>,
    element: E,
) -> Seq<Seq<char>>
    decreases guard,
{
    match guard {
        GuardModel::Always => Seq::empty(),
        GuardModel::And(rest, last) => if admits(*rest, binder, meaning, element) {
            asked(*rest, binder, meaning, element).push(last)
        } else {
            asked(*rest, binder, meaning, element)
        },
    }
}

/// What the closure of a target expression gives for `element`: the value where the
/// guard admits the element, and nothing otherwise.
pub open spec fn output<E, V>(target: TargetModel, meaning: Meaning<E, V>, element: E) -> Option<V> {
    if admits(target.guard, target.binder, meaning, element) {
        Some((meaning.value)(target.binder, target.value, element))
    } else {
        None
    }
}

/// Whether the value of a target expression is evaluated for `element`: only behind a
/// guard that admits it.
pub open spec fn value_evaluated<E, V>(
    target: TargetModel,
    meaning: Meaning<E, V>,
    element: E,
) -> bool {
    output(target, meaning, element) is Some
}

/// The outputs of `each` over `elements`, in order: none or one for each element.
pub open spec fn flat_map<E, V>(elements: Seq<E>, each: spec_fn(E) -> Option<V>) -> Seq<V>
    decreases elements.len(),
{
    if elements.len() == 0 {
        Seq::empty()
    } else {
        let before = flat_map(elements.drop_last(), each);
        match each(elements.last()) {
            Some(value) => before.push(value),
            None => before,
        }
    }
}

/// What a target expression computes: its closure's outputs over the elements of its
/// source.
pub open spec fn evaluated<E, V>(target: TargetModel, meaning: Meaning<E, V>) -> Seq<V> {
    flat_map((meaning.elements)(target.source), |element: E| output(target, meaning, element))
}

/// The number of conditions that hold of `element` before the first one that fails.
pub open spec fn passing<E, V>(
    conditions: Seq<Seq<char>>,
    binder: Seq<Seq<char>>,
    meaning: Meaning<E, V>,
    element: E,
) -> nat
    decreases conditions.len(),
{
    if conditions.len() == 0 {
        0
    } else {
        let before = passing(conditions.drop_last(), binder, meaning, element);
        if before == conditions.len() - 1 && (meaning.holds)(binder, conditions.last(), element) {
            before + 1
        } else {
            before
        }
    }
}

/// The count of `passing` is what its name says: every condition before it holds, and
/// the one at it, if there is one, fails.
pub proof fn lemma_passing<E, V>(
    conditions: Seq<Seq<char>>,
    binder: Seq<Seq<char>>,
    meaning: Meaning<E, V>,
    element: E,
)
    ensures
        passing(conditions, binder, meaning, element) <= conditions.len(),
        forall|i: int|
            0 <= i < passing(conditions, binder, meaning, element) ==> (meaning.holds)(
                binder,
                #[trigger] conditions[i],
                element,
            ),
        passing(conditions, binder, meaning, element) < conditions.len() ==> !(meaning.holds)(
            binder,
            conditions[passing(conditions, binder, meaning, element) as int],
            element,
        ),
    decreases conditions.len(),
{
    if conditions.len() > 0 {
        lemma_passing(conditions.drop_last(), binder, meaning, element);
        let before = passing(conditions.drop_last(), binder, meaning, element);
        assert forall|i: int| 0 <= i < before implies (meaning.holds)(
            binder,
            #[trigger] conditions[i],
            element,
        ) by {
            assert(conditions[i] == conditions.drop_last()[i]);
        }
        if before < conditions.len() - 1 {
            assert(conditions[before as int] == conditions.drop_last()[before as int]);
        }
    }
}

/// The guard of a list of conditions admits an element exactly where every one of them
/// holds, and it asks them from left to right up to the first that fails, that one
/// included.
pub proof fn guard_short_circuits<E, V>(
    conditions: Seq<Seq<char>>,
    binder: Seq<Seq<char>>,
    meaning: Meaning<E, V>,
    element: E,
)
    ensures
        admits(lowered_guard(conditions), binder, meaning, element) <==> passing(
            conditions,
            binder,
            meaning,
            element,
        ) == conditions.len(),
        admits(lowered_guard(conditions), binder, meaning, element) <==> (forall|i: int|
            0 <= i < conditions.len() ==> (meaning.holds)(binder, #[trigger] conditions[i], element)),
        passing(conditions, binder, meaning, element) == conditions.len() ==> asked(
            lowered_guard(conditions),
            binder,
            meaning,
            element,
        ) == conditions,
        passing(conditions, binder, meaning, element) < conditions.len() ==> asked(
            lowered_guard(conditions),
            binder,
            meaning,
            element,
        ) == conditions.take(passing(conditions, binder, meaning, element) as int + 1),
    decreases conditions.len(),
{
    lemma_passing(conditions, binder, meaning, element);
    if conditions.len() > 0 {
        let init = conditions.drop_last();
        guard_short_circuits(init, binder, meaning, element);
        lemma_passing(init, binder, meaning, element);
        let before = passing(init, binder, meaning, element);
        let count = passing(conditions, binder, meaning, element);
        if before == init.len() {
            assert(init.push(conditions.last()) =~= conditions);
            if count < conditions.len() {
                assert(conditions.take(count as int + 1) =~= conditions);
            }
        } else {
            assert(count == before);
            assert(init.take(before as int + 1) =~= conditions.take(count as int + 1));
        }
    } else {
        assert(asked(lowered_guard(conditions), binder, meaning, element) =~= conditions);
    }
}

/// Where the first condition fails, it is the only one evaluated, and the mapping is
/// not evaluated for that element.
pub proof fn failing_first_condition_stops_the_rest<E, V>(
    comprehension: ComprehensionModel,
    meaning: Meaning<E, V>,
    element: E,
)
    requires
        comprehension.clause.conditions.len() >= 1,
        !(meaning.holds)(comprehension.clause.pattern, comprehension.clause.conditions[0], element),
    ensures
        asked(lowered(comprehension).guard, lowered(comprehension).binder, meaning, element) == seq![
            comprehension.clause.conditions[0],
        ],
        !value_evaluated(lowered(comprehension), meaning, element),
        output(lowered(comprehension), meaning, element) is None,
{
    let conditions = comprehension.clause.conditions;
    let binder = comprehension.clause.pattern;
    lemma_passing(conditions, binder, meaning, element);
    guard_short_circuits(conditions, binder, meaning, element);
    assert(passing(conditions, binder, meaning, element) == 0);
    assert(conditions.take(1) =~= seq![conditions[0]]);
}

/// The closure of a lowered comprehension gives the mapping's value for the elements of
/// which every condition holds, and nothing for the others.
pub proof fn lemma_output<E, V>(comprehension: ComprehensionModel, meaning: Meaning<E, V>, element: E)
    ensures
        output(lowered(comprehension), meaning, element) == if all_hold(
            comprehension,
            meaning,
            element,
        ) {
            Some((meaning.value)(comprehension.clause.pattern, comprehension.mapping, element))
        } else {
            None
        },
{
    guard_short_circuits(
        comprehension.clause.conditions,
        comprehension.clause.pattern,
        meaning,
        element,
    );
}

/// `flat_map` with a closure that keeps the elements of `keep` and gives `give` of
/// each is a filter followed by a map.
pub proof fn lemma_flat_map_is_filter_then_map<E, V>(
    elements: Seq<E>,
    each: spec_fn(E) -> Option<V>,
    keep: spec_fn(E) -> bool,
    give: spec_fn(E) -> V,
)
    requires
        forall|element: E| #[trigger]
            each(element) == if keep(element) {
                Some(give(element))
            } else {
                None
            },
    ensures
        flat_map(elements, each) == elements.filter(keep).map_values(give),
    decreases elements.len(),
{
    reveal(Seq::filter);
    if elements.len() == 0 {
        assert(flat_map(elements, each) =~= elements.filter(keep).map_values(give));
    } else {
        let init = elements.drop_last();
        lemma_flat_map_is_filter_then_map(init, each, keep, give);
        if keep(elements.last()) {
            assert(init.filter(keep).push(elements.last()).map_values(give) =~= init.filter(
                keep,
            ).map_values(give).push(give(elements.last())));
        }
    }
}

/// `flat_map` gives at most one output for each element.
pub proof fn lemma_flat_map_len<E, V>(elements: Seq<E>, each: spec_fn(E) -> Option<V>)
    ensures
        flat_map(elements, each).len() <= elements.len(),
        (forall|element: E| #[trigger] each(element) is Some) ==> flat_map(elements, each).len()
            == elements.len(),
    decreases elements.len(),
{
    if elements.len() > 0 {
        lemma_flat_map_len(elements.drop_last(), each);
    }
}

/// The target expression of a comprehension computes what the comprehension means:
/// exactly the elements of the sequence of which all conditions hold, each passed
/// through the mapping.
pub proof fn lowering_preserves_meaning<E, V>(
    comprehension: ComprehensionModel,
    meaning: Meaning<E, V>,
)
    ensures
        evaluated(lowered(comprehension), meaning) == denoted(comprehension, meaning),
{
    let target = lowered(comprehension);
    let each = |element: E| output(target, meaning, element);
    let keep = |element: E| all_hold(comprehension, meaning, element);
    let give = |element: E|
        (meaning.value)(comprehension.clause.pattern, comprehension.mapping, element);
    assert forall|element: E| #[trigger]
        each(element) == if keep(element) {
            Some(give(element))
        } else {
            None
        } by {
        lemma_output(comprehension, meaning, element);
    }
    lemma_flat_map_is_filter_then_map((meaning.elements)(comprehension.clause.sequence), each, keep, give);
}

/// A target expression gives at most one output for each element of its source.
pub proof fn at_most_one_output_per_element<E, V>(target: TargetModel, meaning: Meaning<E, V>)
    ensures
        evaluated(target, meaning).len() <= (meaning.elements)(target.source).len(),
{
    lemma_flat_map_len(
        (meaning.elements)(target.source),
        |element: E| output(target, meaning, element),
    );
}

/// Without conditions a comprehension is a plain map: one output for each element of
/// the sequence, the mapping's value of it.
pub proof fn no_condition_is_a_plain_map<E, V>(
    comprehension: ComprehensionModel,
    meaning: Meaning<E, V>,
)
    requires
        comprehension.clause.conditions.len() == 0,
    ensures
        evaluated(lowered(comprehension), meaning).len() == (meaning.elements)(
            comprehension.clause.sequence,
        ).len(),
        evaluated(lowered(comprehension), meaning) == (meaning.elements)(
            comprehension.clause.sequence,
        ).map_values(
            |element: E|
                (meaning.value)(comprehension.clause.pattern, comprehension.mapping, element),
        ),
{
    let elements = (meaning.elements)(comprehension.clause.sequence);
    let keep = |element: E| all_hold(comprehension, meaning, element);
    lowering_preserves_meaning(comprehension, meaning);
    assert(elements.filter(keep) == elements) by {
        lemma_filter_all(elements, keep);
    }
}

/// A filter that keeps every element changes nothing.
pub proof fn lemma_filter_all<E>(elements: Seq<E>, keep: spec_fn(E) -> bool)
    requires
        forall|element: E| #[trigger] keep(element),
    ensures
        elements.filter(keep) == elements,
    decreases elements.len(),
{
    reveal(Seq::filter);
    if elements.len() > 0 {
        lemma_filter_all(elements.drop_last(), keep);
        assert(elements.drop_last().push(elements.last()) =~= elements);
    }
}

/// An empty sequence gives an empty result, whatever the conditions and the mapping.
pub proof fn empty_sequence_gives_nothing<E, V>(
    comprehension: ComprehensionModel,
    meaning: Meaning<E, V>,
)
    requires
        (meaning.elements)(comprehension.clause.sequence).len() == 0,
    ensures
        evaluated(lowered(comprehension), meaning) == Seq::<V>::empty(),
        denoted(comprehension, meaning) == Seq::<V>::empty(),
{
    lowering_preserves_meaning(comprehension, meaning);
}

} // verus!
