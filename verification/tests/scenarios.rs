use comprehension::error::{Expected, Rule, SyntaxError};
use comprehension::parser::parse;
use comprehension::render::render;
use comprehension::token::TokenSource;

fn normal(text: &str) -> String {
    text.parse::<proc_macro2::TokenStream>().unwrap().to_string()
}

fn translate(text: &str) -> Result<String, SyntaxError> {
    let source = TokenSource::lex(text).unwrap();
    let comprehension = parse(&source)?;
    Ok(render(&comprehension).to_text())
}

#[test]
fn it_works() {
    let text = translate("x*2 for x in [1,2,3]").unwrap();
    assert_eq!(
        normal(&text),
        normal("core::iter::IntoIterator::into_iter([1,2,3]).flat_map(move |x| { (true).then(|| { x*2 }) })")
    );
    let res: Vec<_> = core::iter::IntoIterator::into_iter([1, 2, 3])
        .flat_map(move |x| { (true).then(|| { x * 2 }) })
        .collect();
    assert_eq!(res, [2, 4, 6])
}

#[test]
fn pairs_with_a_zero_divisor_are_dropped() {
    let text = translate("x/y for x,y in pairs if y != 0").unwrap();
    assert_eq!(
        normal(&text),
        normal("core::iter::IntoIterator::into_iter(pairs).flat_map(move |(x, y)| { (true && (y != 0)).then(|| { x/y }) })")
    );
    let pairs = [(4, 2), (5, 0), (6, 3)];
    let res: Vec<i32> = core::iter::IntoIterator::into_iter(pairs)
        .flat_map(move |(x, y)| { (true && (y != 0)).then(|| { x / y }) })
        .collect();
    assert_eq!(res, [2, 2]);
}

#[test]
fn empty_sequence_gives_nothing() {
    let text = translate("x for x in []").unwrap();
    assert_eq!(
        normal(&text),
        normal("core::iter::IntoIterator::into_iter([]).flat_map(move |x| { (true).then(|| { x }) })")
    );
    let res: Vec<i32> = core::iter::IntoIterator::into_iter([])
        .flat_map(move |x| { (true).then(|| { x }) })
        .collect();
    assert_eq!(res, []);
}

#[test]
fn missing_in_is_reported_behind_the_pattern() {
    let error = translate("x*2 for x [1,2,3]").unwrap_err();
    assert_eq!(
        error,
        SyntaxError { rule: Rule::GeneratorClause, expected: Expected::In, position: 5 }
    );
}

#[test]
fn two_conditions_are_both_required() {
    let text = translate("x for x in [1,2,3,4] if x>1 if x<4").unwrap();
    assert_eq!(
        normal(&text),
        normal("core::iter::IntoIterator::into_iter([1,2,3,4]).flat_map(move |x| { (true && (x>1) && (x<4)).then(|| { x }) })")
    );
    let res: Vec<i32> = core::iter::IntoIterator::into_iter([1, 2, 3, 4])
        .flat_map(move |x| { (true && (x > 1) && (x < 4)).then(|| { x }) })
        .collect();
    assert_eq!(res, [2, 3]);
}
