//! The parser: it reads a token source left to right, rule by rule, and gives the tree
//! that the grammar assigns to it, or the first mismatch.

use vstd::prelude::*;
use crate::ast::condition_texts;
use crate::ast::texts;
use crate::ast::ClauseModel;
use crate::ast::Comprehension;
use crate::ast::ComprehensionModel;
use crate::ast::Condition;
use crate::ast::Expression;
use crate::ast::GeneratorClause;
use crate::ast::Mapping;
use crate::ast::Pattern;
use crate::error::Expected;
use crate::error::Rule;
use crate::error::SyntaxError;
use crate::grammar::attempted;
use crate::grammar::clause_rule;
use crate::grammar::comprehension_rule;
use crate::grammar::mapping_rule;
use crate::grammar::mismatch;
use crate::grammar::pattern_rule;
use crate::grammar::repeated;
use crate::grammar::Repeat;
use crate::sublanguage::phrase;
use crate::sublanguage::split_model;
use crate::sublanguage::Phrase;
use crate::token::TokenSource;

verus! {

/// One attempt at `item` from token `from`. A failed attempt takes nothing: the caller
/// still stands at `from`.
pub fn attempt(source: &TokenSource, item: Repeat, from: usize) -> (found: Option<(String, usize)>)
    ensures
        split_model(found) == attempted(source@, item, from as nat),
        found matches Some((phrase, next)) ==> from < next <= source@.tokens.len(),
{
    match item {
        Repeat::Condition => {
            if source.word_at(from, "if") {
                phrase(source, Phrase::Expression, from + 1)
            } else {
                None
            }
        },
        Repeat::Binder => {
            if source.mark_at(from, ',') {
                phrase(source, Phrase::Pattern, from + 1)
            } else {
                None
            }
        },
    }
}

/// Zero or more of `item` from token `from`: takes items until an attempt fails, and
/// gives their phrases in order with the position behind the last one.
pub fn zero_or_more(source: &TokenSource, item: Repeat, from: usize) -> (found: (Vec<String>, usize))
    ensures
        (texts(found.0@), found.1 as nat) == repeated(source@, item, from as nat),
        from <= found.1,
        found.1 == from || found.1 <= source@.tokens.len(),
{
    let mut phrases: Vec<String> = Vec::new();
    let mut at: usize = from;
    loop
        invariant
            from <= at,
            at == from || at <= source@.tokens.len(),
            repeated(source@, item, from as nat) == (
                texts(phrases@) + repeated(source@, item, at as nat).0,
                repeated(source@, item, at as nat).1,
            ),
        ensures
            (texts(phrases@), at as nat) == repeated(source@, item, from as nat),
        decreases source@.tokens.len() - at,
    {
        match attempt(source, item, at) {
            Some((phrase, next)) => {
                proof {
                    let more = repeated(source@, item, next as nat).0;
                    assert(texts(phrases@.push(phrase)) + more =~= texts(phrases@) + (seq![
                        phrase@,
                    ] + more));
                }
                phrases.push(phrase);
                at = next;
            },
            None => {
                assert(texts(phrases@) + Seq::<Seq<char>>::empty() =~= texts(phrases@));
                break ;
            },
        }
    }
    (phrases, at)
}

/// `mapping := expression`, from token `from`.
pub fn parse_mapping(source: &TokenSource, from: usize) -> (outcome: Result<
    (Mapping, usize),
    SyntaxError,
>)
    ensures
        match outcome {
            Ok((mapping, next)) => mapping_rule(source@, from as nat) == Ok::<_, SyntaxError>(
                (mapping@, next as nat),
            ) && next <= source@.tokens.len(),
            Err(error) => mapping_rule(source@, from as nat) == Err::<(Seq<char>, nat), _>(error),
        },
{
    match phrase(source, Phrase::Expression, from) {
        Some((printed, next)) => Ok((Mapping::new(Expression::new(printed)), next)),
        None => Err(SyntaxError { rule: Rule::Mapping, expected: Expected::Expression, position: from }),
    }
}

/// `pattern := binder (',' binder)*`, from token `from`.
pub fn parse_pattern(source: &TokenSource, from: usize) -> (outcome: Result<
    (Pattern, usize),
    SyntaxError,
>)
    ensures
        match outcome {
            Ok((pattern, next)) => pattern_rule(source@, from as nat) == Ok::<_, SyntaxError>(
                (pattern@, next as nat),
            ) && next <= source@.tokens.len(),
            Err(error) => pattern_rule(source@, from as nat) == Err::<(Seq<Seq<char>>, nat), _>(
                error,
            ),
        },
{
    match phrase(source, Phrase::Pattern, from) {
        Some((first, next)) => {
            let (mut binders, end) = zero_or_more(source, Repeat::Binder, next);
            proof {
                assert(texts(binders@.insert(0, first)) =~= seq![first@] + texts(binders@));
            }
            binders.insert(0, first);
            Ok((Pattern::new(binders), end))
        },
        None => Err(SyntaxError { rule: Rule::Pattern, expected: Expected::Pattern, position: from }),
    }
}

/// The guards that stand for the phrases, one for one.
fn conditions_from(phrases: Vec<String>) -> (conditions: Vec<Condition>)
    ensures
        condition_texts(conditions@) == texts(phrases@),
{
    let mut conditions: Vec<Condition> = Vec::new();
    let mut index: usize = 0;
    while index < phrases.len()
        invariant
            index <= phrases@.len(),
            conditions@.len() == index,
            forall|i: int| 0 <= i < index ==> (#[trigger] conditions@[i])@ == phrases@[i]@,
        decreases phrases@.len() - index,
    {
        conditions.push(Condition::new(Expression::new(phrases[index].clone())));
        index += 1;
    }
    assert(condition_texts(conditions@) =~= texts(phrases@));
    conditions
}

/// `generator_clause := 'for' pattern 'in' expression condition*`, from token `from`.
pub fn parse_clause(source: &TokenSource, from: usize) -> (outcome: Result<
    (GeneratorClause, usize),
    SyntaxError,
>)
    ensures
        match outcome {
            Ok((clause, next)) => clause_rule(source@, from as nat) == Ok::<_, SyntaxError>(
                (clause@, next as nat),
            ) && next <= source@.tokens.len(),
            Err(error) => clause_rule(source@, from as nat) == Err::<(ClauseModel, nat), _>(error),
        },
{
    if !source.word_at(from, "for") {
        return Err(
            SyntaxError { rule: Rule::GeneratorClause, expected: Expected::For, position: from },
        );
    }
    let (pattern, keyword) = match parse_pattern(source, from + 1) {
        Ok(found) => found,
        Err(error) => {
            return Err(error);
        },
    };
    if !source.word_at(keyword, "in") {
        return Err(
            SyntaxError { rule: Rule::GeneratorClause, expected: Expected::In, position: keyword },
        );
    }
    let (sequence, next) = match phrase(source, Phrase::Expression, keyword + 1) {
        Some(found) => found,
        None => {
            return Err(
                SyntaxError {
                    rule: Rule::GeneratorClause,
                    expected: Expected::Expression,
                    position: keyword + 1,
                },
            );
        },
    };
    let (phrases, end) = zero_or_more(source, Repeat::Condition, next);
    let conditions = conditions_from(phrases);
    Ok((GeneratorClause::new(pattern, Expression::new(sequence), conditions), end))
}

/// Parses a whole comprehension. Gives the tree that the grammar assigns to `source`,
/// or the first mismatch: no tree comes out of an input that the grammar rejects.
pub fn parse(source: &TokenSource) -> (outcome: Result<Comprehension, SyntaxError>)
    ensures
        match outcome {
            Ok(comprehension) => comprehension_rule(source@) == Ok::<_, SyntaxError>(
                comprehension@,
            ),
            Err(error) => comprehension_rule(source@) == Err::<ComprehensionModel, _>(error),
        },
{
    let (mapping, next) = match parse_mapping(source, 0) {
        Ok(found) => found,
        Err(error) => {
            return Err(error);
        },
    };
    let (clause, end) = match parse_clause(source, next) {
        Ok(found) => found,
        Err(error) => {
            return Err(error);
        },
    };
    if end == source.len() {
        Ok(Comprehension::new(mapping, clause))
    } else {
        Err(SyntaxError { rule: Rule::Comprehension, expected: Expected::End, position: end })
    }
}

} // verus!
