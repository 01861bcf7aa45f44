use comprehension::error::{Expected, Rule, SyntaxError};
use comprehension::grammar::Repeat;
use comprehension::parser::{attempt, parse, parse_clause, parse_mapping, parse_pattern, zero_or_more};
use comprehension::sublanguage::{phrase, settle, Phrase};
use comprehension::token::TokenSource;

fn lexed(text: &str) -> TokenSource {
    TokenSource::lex(text).unwrap()
}

fn error_of(text: &str) -> SyntaxError {
    parse(&lexed(text)).unwrap_err()
}

#[test]
fn lexing_counts_top_level_tokens() {
    let source = lexed("x*2 for x in [1,2,3]");
    assert_eq!(source.len(), 7);
    assert_eq!(source.text(), "x*2 for x in [1,2,3]");
    assert!(source.word_at(0, "x"));
    assert!(source.mark_at(1, '*'));
    assert!(source.word_at(3, "for"));
    assert!(source.word_at(5, "in"));
    assert!(!source.word_at(6, "in"));
    assert!(!source.word_at(7, "in"));
    assert!(!source.mark_at(0, '*'));
    assert!(!source.mark_at(7, '*'));
}

#[test]
fn lexing_rejects_an_unbalanced_group() {
    assert!(TokenSource::lex("x for x in [1,2").is_none());
    assert!(TokenSource::lex("x for x in \"abc").is_none());
}

#[test]
fn an_empty_text_has_no_token() {
    assert_eq!(lexed("").len(), 0);
}

#[test]
fn phrase_finds_the_end_of_an_expression() {
    let source = lexed("x*2 for x in [1,2,3]");
    let (printed, end) = phrase(&source, Phrase::Expression, 0).unwrap();
    assert_eq!(printed.parse::<proc_macro2::TokenStream>().unwrap().to_string(), "x * 2");
    assert_eq!(end, 3);
    let (sequence, end) = phrase(&source, Phrase::Expression, 6).unwrap();
    assert_eq!(
        sequence.parse::<proc_macro2::TokenStream>().unwrap().to_string(),
        "[1,2,3]".parse::<proc_macro2::TokenStream>().unwrap().to_string()
    );
    assert_eq!(end, 7);
    assert!(phrase(&source, Phrase::Expression, 7).is_none());
    assert!(phrase(&source, Phrase::Expression, 8).is_none());
}

#[test]
fn phrase_finds_the_end_of_a_pattern() {
    let source = lexed("x*2 for (a, b) in pairs");
    let (printed, end) = phrase(&source, Phrase::Pattern, 4).unwrap();
    assert_eq!(
        printed.parse::<proc_macro2::TokenStream>().unwrap().to_string(),
        "(a, b)".parse::<proc_macro2::TokenStream>().unwrap().to_string()
    );
    assert_eq!(end, 5);
    assert!(phrase(&source, Phrase::Pattern, 5).is_none());
}

#[test]
fn settle_turns_what_is_left_into_a_position() {
    assert_eq!(settle(Some(("x * 2".to_string(), 4)), 7, 0), Some(("x * 2".to_string(), 3)));
    assert_eq!(settle(Some(("y".to_string(), 0)), 7, 6), Some(("y".to_string(), 7)));
    assert_eq!(settle(Some(("y".to_string(), 1)), 7, 6), None);
    assert_eq!(settle(Some(("y".to_string(), 7)), 7, 0), None);
    assert_eq!(settle(Some(("y".to_string(), 9)), 7, 0), None);
    assert_eq!(settle(Some(("y".to_string(), 0)), 7, 7), None);
    assert_eq!(settle(None, 7, 0), None);
}

#[test]
fn a_failed_attempt_takes_nothing() {
    let source = lexed("x for x in xs if x > 1 if");
    assert_eq!(source.len(), 10);
    assert_eq!(attempt(&source, Repeat::Condition, 5), Some(("x > 1".to_string(), 9)));
    assert_eq!(attempt(&source, Repeat::Condition, 9), None);
    assert_eq!(attempt(&source, Repeat::Condition, 4), None);
    assert_eq!(attempt(&source, Repeat::Binder, 5), None);
    let (conditions, end) = zero_or_more(&source, Repeat::Condition, 5);
    assert_eq!(conditions, vec!["x > 1".to_string()]);
    assert_eq!(end, 9);
    let (none, end) = zero_or_more(&source, Repeat::Condition, 9);
    assert!(none.is_empty());
    assert_eq!(end, 9);
}

#[test]
fn zero_or_more_keeps_the_order() {
    let source = lexed("x for x in xs if a if b if c");
    let (conditions, end) = zero_or_more(&source, Repeat::Condition, 5);
    assert_eq!(conditions, vec!["a".to_string(), "b".to_string(), "c".to_string()]);
    assert_eq!(end, 11);
    let list = lexed("a, b, c in xs");
    let (binders, end) = zero_or_more(&list, Repeat::Binder, 1);
    assert_eq!(binders, vec!["b".to_string(), "c".to_string()]);
    assert_eq!(end, 5);
}

#[test]
fn the_rules_give_their_part_of_the_tree() {
    let source = lexed("x*2 for a, b in pairs if a < b");
    let (mapping, next) = parse_mapping(&source, 0).unwrap();
    assert_eq!(mapping.expression().text(), "x * 2");
    assert_eq!(next, 3);
    let (pattern, next) = parse_pattern(&source, 4).unwrap();
    assert_eq!(pattern.arity(), 2);
    assert_eq!(pattern.binder(0), Some("a"));
    assert_eq!(pattern.binder(1), Some("b"));
    assert_eq!(pattern.binder(2), None);
    assert_eq!(next, 7);
    let (clause, end) = parse_clause(&source, 3).unwrap();
    assert_eq!(clause.pattern().arity(), 2);
    assert_eq!(clause.sequence().text(), "pairs");
    assert_eq!(clause.conditions().len(), 1);
    assert_eq!(clause.conditions()[0].expression().text(), "a < b");
    assert_eq!(end, 13);
}

#[test]
fn parse_gives_the_whole_tree() {
    let comprehension = parse(&lexed("x for x in [1,2,3,4] if x>1 if x<4")).unwrap();
    assert_eq!(comprehension.mapping().expression().text(), "x");
    let clause = comprehension.clause();
    assert_eq!(clause.pattern().arity(), 1);
    assert_eq!(clause.pattern().binder(0), Some("x"));
    assert_eq!(clause.conditions().len(), 2);
    assert_eq!(clause.conditions()[0].expression().text(), "x > 1");
    assert_eq!(clause.conditions()[1].expression().text(), "x < 4");
}

#[test]
fn no_condition_is_a_valid_clause() {
    let comprehension = parse(&lexed("x for x in xs")).unwrap();
    assert!(comprehension.clause().conditions().is_empty());
}

#[test]
fn a_sequence_may_end_in_a_call_or_an_index() {
    let comprehension = parse(&lexed("f(x) for x in table.rows(1)[2..] if x.ok()")).unwrap();
    assert_eq!(comprehension.clause().conditions().len(), 1);
}

#[test]
fn missing_for_is_reported_behind_the_mapping() {
    assert_eq!(
        error_of("x*2 x in [1,2,3]"),
        SyntaxError { rule: Rule::GeneratorClause, expected: Expected::For, position: 3 }
    );
    assert_eq!(
        error_of("x*2"),
        SyntaxError { rule: Rule::GeneratorClause, expected: Expected::For, position: 3 }
    );
}

#[test]
fn missing_in_is_reported() {
    assert_eq!(
        error_of("x*2 for x [1,2,3]"),
        SyntaxError { rule: Rule::GeneratorClause, expected: Expected::In, position: 5 }
    );
    assert_eq!(
        error_of("x for x"),
        SyntaxError { rule: Rule::GeneratorClause, expected: Expected::In, position: 3 }
    );
}

#[test]
fn missing_sequence_is_reported_behind_in() {
    assert_eq!(
        error_of("x*2 for x in"),
        SyntaxError { rule: Rule::GeneratorClause, expected: Expected::Expression, position: 6 }
    );
    assert_eq!(
        error_of("x for x in if x > 1"),
        SyntaxError { rule: Rule::GeneratorClause, expected: Expected::Expression, position: 4 }
    );
}

#[test]
fn missing_mapping_is_reported_at_the_start() {
    assert_eq!(
        error_of(""),
        SyntaxError { rule: Rule::Mapping, expected: Expected::Expression, position: 0 }
    );
    assert_eq!(
        error_of("for x in xs"),
        SyntaxError { rule: Rule::Mapping, expected: Expected::Expression, position: 0 }
    );
}

#[test]
fn missing_pattern_is_reported_behind_for() {
    assert_eq!(
        error_of("x for in xs"),
        SyntaxError { rule: Rule::Pattern, expected: Expected::Pattern, position: 2 }
    );
    assert_eq!(
        error_of("x for"),
        SyntaxError { rule: Rule::Pattern, expected: Expected::Pattern, position: 2 }
    );
}

#[test]
fn a_comma_without_a_binder_is_not_taken() {
    assert_eq!(
        error_of("x for x, in xs"),
        SyntaxError { rule: Rule::GeneratorClause, expected: Expected::In, position: 3 }
    );
}

#[test]
fn what_follows_the_clause_is_rejected() {
    assert_eq!(
        error_of("x for x in xs ys"),
        SyntaxError { rule: Rule::Comprehension, expected: Expected::End, position: 5 }
    );
    assert_eq!(
        error_of("x for x in xs if"),
        SyntaxError { rule: Rule::Comprehension, expected: Expected::End, position: 5 }
    );
    assert_eq!(
        error_of("x for x in xs if x > 1 for y in ys"),
        SyntaxError { rule: Rule::Comprehension, expected: Expected::End, position: 9 }
    );
}

#[test]
fn expectations_have_their_wording() {
    assert_eq!(Expected::Expression.describe(), "expected an expression");
    assert_eq!(Expected::Pattern.describe(), "expected a pattern");
    assert_eq!(Expected::For.describe(), "expected `for`");
    assert_eq!(Expected::In.describe(), "expected `in`");
    assert_eq!(Expected::End.describe(), "expected the end of the comprehension");
}
