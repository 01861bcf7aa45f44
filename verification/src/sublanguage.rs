//! The host language's own grammar for expressions and patterns. This library does not
//! read either: it asks `syn` where one ends, and embeds it again as it was printed.

use vstd::prelude::*;
use crate::token::SourceModel;
use crate::token::TokenSource;

verus! {

/// The two kinds of phrase that the comprehension grammar takes from the host language.
#[derive(Clone, Copy, Debug, PartialEq, Eq, Structural)]
pub enum Phrase {
    /// An expression.
    Expression,
    /// A single pattern: one without `|` at its top level.
    Pattern,
}

/// What the host language's expression parser makes of the tokens of `text` from token
/// `from` on: the expression it reads there, printed as tokens, and how many tokens it
/// leaves unread behind it. `None` where `text` is no token stream or no expression
/// starts at token `from`.
pub uninterp spec fn expression_at(text: Seq<char>, from: nat) -> Option<(Seq<char>, nat)>;

/// What the host language's parser for single patterns makes of the tokens of `text`
/// from token `from` on: the pattern it reads there, printed as tokens, and how many
/// tokens it leaves unread behind it. `None` where `text` is no token stream or no
/// pattern starts at token `from`.
pub uninterp spec fn pattern_at(text: Seq<char>, from: nat) -> Option<(Seq<char>, nat)>;

/// A phrase and a count of tokens, as contracts speak of them.
pub open spec fn split_model(split: Option<(String, usize)>) -> Option<(Seq<char>, nat)> {
    match split {
        Some((printed, count)) => Some((printed@, count as nat)),
        None => None,
    }
}

/// Lexes `text` with `proc_macro2`, drops the first `from` top-level tokens and runs
/// `syn`'s parser for `syn::Expr` on the rest. Gives the expression as `quote` prints it
/// and the number of tokens that the parser left. The contract only gives the outcome
/// its name, `expression_at`.
#[verifier::external_body]
fn read_expression(text: &str, from: usize) -> (found: Option<(String, usize)>)
    ensures
        split_model(found) == expression_at(text@, from as nat),
{
    let stream = <proc_macro2::TokenStream as std::str::FromStr>::from_str(text).ok()?;
    let tail: proc_macro2::TokenStream = stream.into_iter().skip(from).collect();
    let split = |input: syn::parse::ParseStream| -> syn::Result<(syn::Expr, proc_macro2::TokenStream)> {
        Ok((input.parse()?, input.parse()?))
    };
    let (expression, rest) = syn::parse::Parser::parse2(split, tail).ok()?;
    Some((quote::ToTokens::to_token_stream(&expression).to_string(), rest.into_iter().count()))
}

/// Lexes `text` with `proc_macro2`, drops the first `from` top-level tokens and runs
/// `syn::Pat::parse_single` on the rest. Gives the pattern as `quote` prints it and the
/// number of tokens that the parser left. The contract only gives the outcome its name,
/// `pattern_at`.
#[verifier::external_body]
fn read_pattern(text: &str, from: usize) -> (found: Option<(String, usize)>)
    ensures
        split_model(found) == pattern_at(text@, from as nat),
{
    let stream = <proc_macro2::TokenStream as std::str::FromStr>::from_str(text).ok()?;
    let tail: proc_macro2::TokenStream = stream.into_iter().skip(from).collect();
    let split = |input: syn::parse::ParseStream| -> syn::Result<(syn::Pat, proc_macro2::TokenStream)> {
        Ok((syn::Pat::parse_single(input)?, input.parse()?))
    };
    let (pattern, rest) = syn::parse::Parser::parse2(split, tail).ok()?;
    Some((quote::ToTokens::to_token_stream(&pattern).to_string(), rest.into_iter().count()))
}

/// What the host language's parser for `kind` makes of `text` from token `from` on.
pub open spec fn phrase_at(kind: Phrase, text: Seq<char>, from: nat) -> Option<(Seq<char>, nat)> {
    match kind {
        Phrase::Expression => expression_at(text, from),
        Phrase::Pattern => pattern_at(text, from),
    }
}

/// Turns a parser's outcome at token `from` of `total` into the phrase and the position
/// behind it. The outcome counts only if the parser took at least one token: if it left
/// fewer than the `total - from` tokens it was given. The phrase then ends at
/// `total - left`.
pub open spec fn settled(outcome: Option<(Seq<char>, nat)>, total: nat, from: nat) -> Option<
    (Seq<char>, nat),
> {
    match outcome {
        Some((printed, left)) => if from + left < total {
            Some((printed, (total - left) as nat))
        } else {
            None
        },
        None => None,
    }
}

/// The phrase of `kind` that starts at token `from` of `source`, and the position
/// behind it.
pub open spec fn phrase_end(kind: Phrase, source: SourceModel, from: nat) -> Option<
    (Seq<char>, nat),
> {
    settled(phrase_at(kind, source.text, from), source.tokens.len(), from)
}

/// Turns a parser's outcome at token `from` of `total` into the phrase and the position
/// behind it, as `settled` says.
pub fn settle(outcome: Option<(String, usize)>, total: usize, from: usize) -> (found: Option<
    (String, usize),
>)
    ensures
        split_model(found) == settled(split_model(outcome), total as nat, from as nat),
        found matches Some((printed, end)) ==> from < end <= total,
{
    match outcome {
        Some((printed, left)) => {
            if from < total && left < total - from {
                Some((printed, total - left))
            } else {
                None
            }
        },
        None => None,
    }
}

/// Reads the phrase of `kind` that starts at token `from` of `source`.
pub fn phrase(source: &TokenSource, kind: Phrase, from: usize) -> (found: Option<(String, usize)>)
    ensures
        split_model(found) == phrase_end(kind, source@, from as nat),
        found matches Some((printed, end)) ==> from < end <= source@.tokens.len(),
{
    let outcome = match kind {
        Phrase::Expression => read_expression(source.text(), from),
        Phrase::Pattern => read_pattern(source.text(), from),
    };
    settle(outcome, source.len(), from)
}

} // verus!
