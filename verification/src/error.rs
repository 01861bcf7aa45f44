//! The one error of the translation: a mismatch between the input and the grammar.

use vstd::prelude::*;

verus! {

/// A rule of the comprehension grammar.
#[derive(Clone, Copy, Debug, PartialEq, Eq, Structural)]
pub enum Rule {
    /// `comprehension := mapping generator_clause`, up to the end of the input.
    Comprehension,
    /// `mapping := expression`.
    Mapping,
    /// `generator_clause := 'for' pattern 'in' expression condition*`.
    GeneratorClause,
    /// `pattern := binder (',' binder)*`.
    Pattern,
}

/// What the parser needed to find at the place where it stopped.
#[derive(Clone, Copy, Debug, PartialEq, Eq, Structural)]
pub enum Expected {
    /// An expression of the host language.
    Expression,
    /// A single pattern of the host language.
    Pattern,
    /// The keyword `for`.
    For,
    /// The keyword `in`.
    In,
    /// The end of the input.
    End,
}

/// The parser's only failure: while reading `rule` it needed `expected` at token
/// `position` and found something else. Positions count top-level tokens from zero; the
/// number of tokens of the input stands for its end.
#[derive(Clone, Copy, Debug, PartialEq, Eq, Structural)]
pub struct SyntaxError {
    pub rule: Rule,
    pub expected: Expected,
    pub position: usize,
}

impl Expected {
    /// The wording of a diagnostic for this expectation.
    pub open spec fn wording(self) -> Seq<char> {
        match self {
            Expected::Expression => "expected an expression"@,
            Expected::Pattern => "expected a pattern"@,
            Expected::For => "expected `for`"@,
            Expected::In => "expected `in`"@,
            Expected::End => "expected the end of the comprehension"@,
        }
    }

    /// A diagnostic for this expectation, for the caller to show at the error's position.
    pub fn describe(self) -> (text: &'static str)
        ensures
            text@ == self.wording(),
    {
        match self {
            Expected::Expression => "expected an expression",
            Expected::Pattern => "expected a pattern",
            Expected::For => "expected `for`",
            Expected::In => "expected `in`",
            Expected::End => "expected the end of the comprehension",
        }
    }
}

} // verus!
