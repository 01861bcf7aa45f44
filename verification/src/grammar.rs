//! The grammar of a comprehension, as a function from a token source to the tree or the
//! error that the parser must give.
//!
//! ```text
//! comprehension    := mapping generator_clause
//! mapping          := expression
//! generator_clause := 'for' pattern 'in' expression condition*
//! pattern          := binder (',' binder)*
//! condition        := 'if' expression
//! ```
//!
//! `expression` and `binder` belong to the host language. A repetition takes items as
//! long as one is there; an attempt that fails takes nothing and ends the repetition.

use vstd::prelude::*;
use crate::ast::ClauseModel;
use crate::ast::ComprehensionModel;
use crate::error::Expected;
use crate::error::Rule;
use crate::error::SyntaxError;
use crate::sublanguage::phrase_end;
use crate::sublanguage::Phrase;
use crate::token::SourceModel;

verus! {

/// The two items that the grammar repeats.
#[derive(Clone, Copy, Debug, PartialEq, Eq, Structural)]
pub enum Repeat {
    /// `'if' expression`: one more guard.
    Condition,
    /// `',' binder`: one more single pattern of a list.
    Binder,
}

/// The error of `rule` that wanted `expected` at token `position`.
pub open spec fn mismatch(rule: Rule, expected: Expected, position: nat) -> SyntaxError {
    SyntaxError { rule, expected, position: position as usize }
}

/// One attempt at `item` from token `from`: its phrase and the position behind it, or
/// `None` where the item's first token or its phrase is not there.
pub open spec fn attempted(source: SourceModel, item: Repeat, from: nat) -> Option<
    (Seq<char>, nat),
> {
    match item {
        Repeat::Condition => if source.word_at(from, "if"@) {
            phrase_end(Phrase::Expression, source, from + 1)
        } else {
            None
        },
        Repeat::Binder => if source.mark_at(from, ',') {
            phrase_end(Phrase::Pattern, source, from + 1)
        } else {
            None
        },
    }
}

/// Zero or more of `item` from token `from`: the phrases in order, and the position
/// behind the last one, which is `from` itself where there is none.
pub open spec fn repeated(source: SourceModel, item: Repeat, from: nat) -> (Seq<Seq<char>>, nat)
    decreases source.tokens.len() - from,
{
    match attempted(source, item, from) {
        Some((phrase, next)) => {
            let (more, end) = repeated(source, item, next);
            (seq![phrase] + more, end)
        },
        None => (Seq::empty(), from),
    }
}

/// `mapping := expression`, from token `from`.
pub open spec fn mapping_rule(source: SourceModel, from: nat) -> Result<(Seq<char>, nat), SyntaxError> {
    match phrase_end(Phrase::Expression, source, from) {
        Some(found) => Ok(found),
        None => Err(mismatch(Rule::Mapping, Expected::Expression, from)),
    }
}

/// `pattern := binder (',' binder)*`, from token `from`.
pub open spec fn pattern_rule(source: SourceModel, from: nat) -> Result<
    (Seq<Seq<char>>, nat),
    SyntaxError,
> {
    match phrase_end(Phrase::Pattern, source, from) {
        Some((first, next)) => {
            let (more, end) = repeated(source, Repeat::Binder, next);
            Ok((seq![first] + more, end))
        },
        None => Err(mismatch(Rule::Pattern, Expected::Pattern, from)),
    }
}

/// `generator_clause := 'for' pattern 'in' expression condition*`, from token `from`.
pub open spec fn clause_rule(source: SourceModel, from: nat) -> Result<(ClauseModel, nat), SyntaxError> {
    if !source.word_at(from, "for"@) {
        Err(mismatch(Rule::GeneratorClause, Expected::For, from))
    } else {
        match pattern_rule(source, from + 1) {
            Err(error) => Err(error),
            Ok((pattern, keyword)) => if !source.word_at(keyword, "in"@) {
                Err(mismatch(Rule::GeneratorClause, Expected::In, keyword))
            } else {
                match phrase_end(Phrase::Expression, source, keyword + 1) {
                    None => Err(
                        mismatch(Rule::GeneratorClause, Expected::Expression, keyword + 1),
                    ),
                    Some((sequence, next)) => {
                        let (conditions, end) = repeated(source, Repeat::Condition, next);
                        Ok((ClauseModel { pattern, sequence, conditions }, end))
                    },
                }
            },
        }
    }
}

/// `comprehension := mapping generator_clause`, which must take every token of
/// `source`.
pub open spec fn comprehension_rule(source: SourceModel) -> Result<ComprehensionModel, SyntaxError> {
    match mapping_rule(source, 0) {
        Err(error) => Err(error),
        Ok((mapping, next)) => match clause_rule(source, next) {
            Err(error) => Err(error),
            Ok((clause, end)) => if end == source.tokens.len() {
                Ok(ComprehensionModel { mapping, clause })
            } else {
                Err(mismatch(Rule::Comprehension, Expected::End, end))
            },
        },
    }
}

/// An input whose mapping is not followed by `for` is rejected: the error asks for
/// `for` at the token behind the mapping.
pub proof fn missing_for_is_rejected(source: SourceModel)
    requires
        mapping_rule(source, 0) is Ok,
        !source.word_at(mapping_rule(source, 0)->Ok_0.1, "for"@),
    ensures
        comprehension_rule(source) == Err::<ComprehensionModel, _>(
            mismatch(Rule::GeneratorClause, Expected::For, mapping_rule(source, 0)->Ok_0.1),
        ),
{
}

/// An input whose pattern is not followed by `in` is rejected: the error asks for `in`
/// at the token behind the pattern.
pub proof fn missing_in_is_rejected(source: SourceModel)
    requires
        mapping_rule(source, 0) is Ok,
        source.word_at(mapping_rule(source, 0)->Ok_0.1, "for"@),
        pattern_rule(source, mapping_rule(source, 0)->Ok_0.1 + 1) is Ok,
        !source.word_at(pattern_rule(source, mapping_rule(source, 0)->Ok_0.1 + 1)->Ok_0.1, "in"@),
    ensures
        comprehension_rule(source) == Err::<ComprehensionModel, _>(
            mismatch(
                Rule::GeneratorClause,
                Expected::In,
                pattern_rule(source, mapping_rule(source, 0)->Ok_0.1 + 1)->Ok_0.1,
            ),
        ),
{
}

/// An input with no sequence expression behind `in` is rejected: the error asks for
/// an expression at the token behind `in`.
pub proof fn missing_sequence_is_rejected(source: SourceModel)
    requires
        mapping_rule(source, 0) is Ok,
        source.word_at(mapping_rule(source, 0)->Ok_0.1, "for"@),
        pattern_rule(source, mapping_rule(source, 0)->Ok_0.1 + 1) is Ok,
        source.word_at(pattern_rule(source, mapping_rule(source, 0)->Ok_0.1 + 1)->Ok_0.1, "in"@),
        phrase_end(
            Phrase::Expression,
            source,
            pattern_rule(source, mapping_rule(source, 0)->Ok_0.1 + 1)->Ok_0.1 + 1,
        ) is None,
    ensures
        comprehension_rule(source) == Err::<ComprehensionModel, _>(
            mismatch(
                Rule::GeneratorClause,
                Expected::Expression,
                pattern_rule(source, mapping_rule(source, 0)->Ok_0.1 + 1)->Ok_0.1 + 1,
            ),
        ),
{
}

/// The position of every error lies within the input or at its end.
pub proof fn errors_point_into_the_input(source: SourceModel)
    requires
        source.tokens.len() <= usize::MAX,
    ensures
        comprehension_rule(source) matches Err(error) ==> error.position <= source.tokens.len(),
{
    match mapping_rule(source, 0) {
        Ok((_, next)) => {
            if source.word_at(next, "for"@) {
                match phrase_end(Phrase::Pattern, source, next + 1) {
                    Some((_, behind)) => {
                        lemma_repeated_ends_inside(source, Repeat::Binder, behind);
                        let keyword = repeated(source, Repeat::Binder, behind).1;
                        if source.word_at(keyword, "in"@) {
                            match phrase_end(Phrase::Expression, source, keyword + 1) {
                                Some((_, last)) => {
                                    lemma_repeated_ends_inside(source, Repeat::Condition, last);
                                },
                                None => {},
                            }
                        }
                    },
                    None => {},
                }
            }
        },
        Err(_) => {},
    }
}

/// A repetition that starts inside the input ends inside it, at or behind its start.
pub proof fn lemma_repeated_ends_inside(source: SourceModel, item: Repeat, from: nat)
    requires
        from <= source.tokens.len(),
    ensures
        from <= repeated(source, item, from).1 <= source.tokens.len(),
    decreases source.tokens.len() - from,
{
    match attempted(source, item, from) {
        Some((_, next)) => {
            lemma_repeated_ends_inside(source, item, next);
        },
        None => {},
    }
}

} // verus!
