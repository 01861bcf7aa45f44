//! The target of the translation: a lazy iterator expression of the host language, as
//! a tree, and its text.
//!
//! ```text
//! core::iter::IntoIterator::into_iter(source)
//!     .flat_map(move |binder| { (guard).then(|| { value }) })
//! ```
//!
//! Four pieces make it up: the iterator obtained from the source, the lazy transform
//! that gives at most one output for each element, the closure that binds the pattern
//! anew for each element, and the guarded value.

use vstd::prelude::*;
use vstd::string::StringExecFns;
use crate::ast::Condition;
use crate::ast::Expression;
use crate::ast::Mapping;
use crate::ast::Pattern;

verus! {

/// A guard: a conjunction read from left to right, which starts from `true`.
#[derive(Debug)]
pub enum Guard {
    /// `true`: every element is admitted.
    Always,
    /// `rest && (last)`: `last` is asked only of an element that `rest` admits.
    And(Box<Guard>, Condition),
}

/// A target expression: `source` is iterated, each element is bound to `binder`, and
/// where `guard` admits it, `value` is its output.
#[derive(Debug)]
pub struct TargetExpression {
    source: Expression,
    binder: Pattern,
    guard: Guard,
    value: Mapping,
}

/// A guard as contracts speak of it.
pub ghost enum GuardModel {
    Always,
    And(Box<GuardModel>, Seq<char>),
}

/// A target expression as contracts speak of it.
pub ghost struct TargetModel {
    pub source: Seq<char>,
    pub binder: Seq<Seq<char>>,
    pub guard: GuardModel,
    pub value: Seq<char>,
}

/// The model of a guard: its conditions by their text, in the same nesting.
pub open spec fn guard_model(guard: Guard) -> GuardModel
    decreases guard,
{
    match guard {
        Guard::Always => GuardModel::Always,
        Guard::And(rest, last) => GuardModel::And(Box::new(guard_model(*rest)), last@),
    }
}

impl View for Guard {
    type V = GuardModel;

    open spec fn view(&self) -> GuardModel {
        guard_model(*self)
    }
}

impl View for TargetExpression {
    type V = TargetModel;

    closed spec fn view(&self) -> TargetModel {
        TargetModel {
            source: self.source@,
            binder: self.binder@,
            guard: self.guard@,
            value: self.value@,
        }
    }
}

/// The text of a guard: `true`, then ` && (condition)` for each condition in order.
/// The parentheses keep a condition whole whatever operators it holds.
pub open spec fn guard_text(guard: GuardModel) -> Seq<char>
    decreases guard,
{
    match guard {
        GuardModel::Always => "true"@,
        GuardModel::And(rest, last) => guard_text(*rest) + " && ("@ + last + ")"@,
    }
}

/// Single patterns in a row, with `, ` between them.
pub open spec fn listed(binders: Seq<Seq<char>>) -> Seq<char>
    decreases binders.len(),
{
    if binders.len() == 0 {
        Seq::empty()
    } else if binders.len() == 1 {
        binders[0]
    } else {
        listed(binders.drop_last()) + ", "@ + binders.last()
    }
}

/// The text of a closure's parameter: a single pattern as it is, a list as a tuple.
pub open spec fn binder_text(binders: Seq<Seq<char>>) -> Seq<char> {
    if binders.len() == 1 {
        binders[0]
    } else {
        "("@ + listed(binders) + ")"@
    }
}

/// The text of a target expression.
pub open spec fn target_text(target: TargetModel) -> Seq<char> {
    "core::iter::IntoIterator::into_iter("@ + target.source + ").flat_map(move |"@ + binder_text(
        target.binder,
    ) + "| { ("@ + guard_text(target.guard) + ").then(|| { "@ + target.value + " }) })"@
}

impl Guard {
    /// Appends the guard's text to `out`.
    pub fn write(&self, out: &mut String)
        ensures
            final(out)@ == old(out)@ + guard_text(self@),
        decreases self,
    {
        match self {
            Guard::Always => {
                out.append("true");
            },
            Guard::And(rest, last) => {
                rest.write(out);
                out.append(" && (");
                out.append(last.expression().text());
                out.append(")");
                assert(out@ =~= old(out)@ + guard_text(self@));
            },
        }
    }
}

impl TargetExpression {
    pub(crate) fn new(source: Expression, binder: Pattern, guard: Guard, value: Mapping) -> (target:
        TargetExpression)
        ensures
            target@ == (TargetModel {
                source: source@,
                binder: binder@,
                guard: guard@,
                value: value@,
            }),
    {
        TargetExpression { source, binder, guard, value }
    }

    /// The expression that is iterated.
    pub fn source(&self) -> (source: &Expression)
        ensures
            source@ == self@.source,
    {
        &self.source
    }

    /// The pattern that the closure binds each element to.
    pub fn binder(&self) -> (binder: &Pattern)
        ensures
            binder@ == self@.binder,
    {
        &self.binder
    }

    /// The guard that admits an element.
    pub fn guard(&self) -> (guard: &Guard)
        ensures
            guard@ == self@.guard,
    {
        &self.guard
    }

    /// The expression that gives the output of an admitted element.
    pub fn value(&self) -> (value: &Mapping)
        ensures
            value@ == self@.value,
    {
        &self.value
    }

    /// The expression as text of the host language.
    pub fn to_text(&self) -> (text: String)
        ensures
            text@ == target_text(self@),
    {
        let mut text = String::new();
        text.append("core::iter::IntoIterator::into_iter(");
        text.append(self.source.text());
        text.append(").flat_map(move |");
        write_binder(&self.binder, &mut text);
        text.append("| { (");
        self.guard.write(&mut text);
        text.append(").then(|| { ");
        text.append(self.value.expression().text());
        text.append(" }) })");
        assert(text@ =~= target_text(self@));
        text
    }
}

/// Appends the text of a closure's parameter to `out`.
fn write_binder(binder: &Pattern, out: &mut String)
    ensures
        final(out)@ == old(out)@ + binder_text(binder@),
{
    let count = binder.arity();
    let first = match binder.binder(0) {
        Some(text) => text,
        None => "",
    };
    if count == 1 {
        out.append(first);
    } else {
        out.append("(");
        out.append(first);
        let ghost start = out@;
        let mut index: usize = 1;
        while index < count
            invariant
                1 <= index <= count,
                count == binder@.len(),
                out@ == start + listed(binder@.take(index as int)).skip(binder@[0].len() as int),
                listed(binder@.take(index as int)).len() >= binder@[0].len(),
                start == old(out)@ + "("@ + binder@[0],
            decreases count - index,
        {
            out.append(", ");
            match binder.binder(index) {
                Some(text) => out.append(text),
                None => {},
            }
            proof {
                let before = binder@.take(index as int);
                let after = binder@.take(index + 1);
                assert(after.drop_last() =~= before);
                assert(after.last() == binder@[index as int]);
                assert(listed(after) == listed(before) + ", "@ + binder@[index as int]);
                assert(out@ =~= start + listed(after).skip(binder@[0].len() as int));
            }
            index += 1;
        }
        out.append(")");
        proof {
            assert(binder@.take(count as int) =~= binder@);
            lemma_listed_starts(binder@);
            assert(out@ =~= old(out)@ + binder_text(binder@));
        }
    }
}

/// A list's text starts with its first single pattern.
proof fn lemma_listed_starts(binders: Seq<Seq<char>>)
    requires
        binders.len() >= 1,
    ensures
        listed(binders).len() >= binders[0].len(),
        listed(binders) =~= binders[0] + listed(binders).skip(binders[0].len() as int),
    decreases binders.len(),
{
    if binders.len() > 1 {
        lemma_listed_starts(binders.drop_last());
    }
}

} // verus!
