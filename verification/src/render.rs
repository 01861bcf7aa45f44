//! The code generator: it lowers the tree of a comprehension to a target expression.

use vstd::prelude::*;
use crate::ast::condition_texts;
use crate::ast::Comprehension;
use crate::ast::ComprehensionModel;
use crate::ast::Condition;
use crate::target::target_text;
use crate::target::Guard;
use crate::target::GuardModel;
use crate::target::TargetExpression;
use crate::target::TargetModel;

verus! {

/// The guard that stands for a list of conditions: their conjunction from left to
/// right, on top of `true`. With no condition it is `true` alone.
pub open spec fn lowered_guard(conditions: Seq<Seq<char>>) -> GuardModel
    decreases conditions.len(),
{
    if conditions.len() == 0 {
        GuardModel::Always
    } else {
        GuardModel::And(Box::new(lowered_guard(conditions.drop_last())), conditions.last())
    }
}

/// The lowering rule: the sequence is iterated, the pattern is bound for each element,
/// the conditions become the guard, and the mapping gives the value.
pub open spec fn lowered(comprehension: ComprehensionModel) -> TargetModel {
    TargetModel {
        source: comprehension.clause.sequence,
        binder: comprehension.clause.pattern,
        guard: lowered_guard(comprehension.clause.conditions),
        value: comprehension.mapping,
    }
}

/// Folds the conditions into a guard, first condition innermost.
pub fn lower_guard(conditions: &Vec<Condition>) -> (guard: Guard)
    ensures
        guard@ == lowered_guard(condition_texts(conditions@)),
{
    let mut guard = Guard::Always;
    let mut index: usize = 0;
    while index < conditions.len()
        invariant
            index <= conditions@.len(),
            guard@ == lowered_guard(condition_texts(conditions@).take(index as int)),
        decreases conditions@.len() - index,
    {
        proof {
            let all = condition_texts(conditions@);
            assert(all.take(index + 1).drop_last() =~= all.take(index as int));
            assert(all.take(index + 1).last() == conditions@[index as int]@);
        }
        guard = Guard::And(Box::new(guard), conditions[index].clone());
        index += 1;
    }
    assert(condition_texts(conditions@).take(index as int) =~= condition_texts(conditions@));
    guard
}

/// Lowers a comprehension to its target expression. It never fails: every tree that
/// the parser gives has a lowering, and the same tree always has the same one.
pub fn render(comprehension: &Comprehension) -> (target: TargetExpression)
    ensures
        target@ == lowered(comprehension@),
{
    let clause = comprehension.clause();
    TargetExpression::new(
        clause.sequence().clone(),
        clause.pattern().clone(),
        lower_guard(clause.conditions()),
        comprehension.mapping().clone(),
    )
}

/// Lowering is a function of the tree alone: equal trees have equal target
/// expressions, so rendering one tree twice gives the same expression twice.
pub proof fn rendering_is_deterministic(first: Comprehension, second: Comprehension)
    requires
        first@ == second@,
    ensures
        lowered(first@) == lowered(second@),
        target_text(lowered(first@)) == target_text(lowered(second@)),
{
}

} // verus!
