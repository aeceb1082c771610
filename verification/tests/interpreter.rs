use neum::convert::{canonicalize, converts};
use neum::error::Fault;
use neum::lexer::{Span, Token};
use neum::parse::{parse, Name};

fn with_spans(tokens: Vec<Token>) -> Vec<(Token, Span)> {
    tokens
        .into_iter()
        .enumerate()
        .map(|(i, t)| (t, Span::new(i, i + 1)))
        .collect()
}

fn text(s: &str) -> Token {
    Token::Text(s.to_string())
}

fn num(s: &str) -> Token {
    Token::Number(s.to_string())
}

fn rules_of(tokens: Vec<Token>) -> Vec<(Name, Vec<Token>)> {
    parse(with_spans(tokens), None, String::new()).unwrap()
}

#[test]
fn anchoring_matches_only_the_exact_literal() {
    let rules = rules_of(vec![
        text("btn"),
        Token::ConvertTo,
        Token::Space,
        text("color:red"),
        Token::NewLine,
    ]);
    assert_eq!(converts(&rules, "btn"), Ok(Some("color:red;".to_string())));
    assert_eq!(converts(&rules, "btnx"), Ok(None));
    assert_eq!(converts(&rules, "xbtn"), Ok(None));
}

#[test]
fn captures_bind_in_left_to_right_order() {
    let rules = rules_of(vec![
        text("x-"),
        Token::ReplacementStart,
        text("a"),
        Token::ReplacementEnd,
        text("-"),
        Token::ReplacementStart,
        text("b"),
        Token::ReplacementEnd,
        Token::ConvertTo,
        Token::Space,
        Token::ReplacementStart,
        text("a"),
        Token::ReplacementEnd,
        Token::SemiColon,
        Token::ReplacementStart,
        text("b"),
        Token::ReplacementEnd,
        Token::NewLine,
    ]);
    assert_eq!(converts(&rules, "x-1-2"), Ok(Some("1;2;".to_string())));
}

#[test]
fn first_match_wins_between_two_matching_rules() {
    let rules = rules_of(vec![
        text("a"),
        Token::ConvertTo,
        text("one"),
        Token::NewLine,
        text("a"),
        Token::ConvertTo,
        text("two"),
        Token::NewLine,
    ]);
    assert_eq!(converts(&rules, "a"), Ok(Some("one;".to_string())));
}

#[test]
fn canonicalize_is_stable_on_canonical_input() {
    let s = "color:red;";
    let once = canonicalize(s);
    assert_eq!(once, s);
    assert_eq!(canonicalize(&once), once);
    let messy = canonicalize(" color: red; width: 1px;");
    assert_eq!(messy, "color:red;width:1px;");
    assert_eq!(canonicalize(&messy), messy);
}

#[test]
fn arithmetic_folds_left_to_right() {
    let rules = rules_of(vec![
        text("p-"),
        Token::ReplacementStart,
        text("x"),
        Token::ReplacementEnd,
        Token::ConvertTo,
        Token::Space,
        Token::ReplacementStart,
        text("x"),
        Token::Space,
        Token::Add,
        Token::Space,
        num("1"),
        Token::Space,
        Token::Subtract,
        Token::Space,
        num("2"),
        Token::ReplacementEnd,
        Token::NewLine,
    ]);
    assert_eq!(converts(&rules, "p-5"), Ok(Some("4;".to_string())));
}

#[test]
fn named_capture_substitutes_into_template() {
    let rules = rules_of(vec![
        text("btn-"),
        Token::ReplacementStart,
        text("n"),
        Token::ReplacementEnd,
        Token::ConvertTo,
        Token::Space,
        text("color:"),
        Token::Space,
        text("red"),
        Token::SemiColon,
        Token::Space,
        text("width:"),
        Token::Space,
        Token::ReplacementStart,
        text("n"),
        Token::ReplacementEnd,
        text("px"),
        Token::SemiColon,
        Token::NewLine,
    ]);
    assert_eq!(
        converts(&rules, "btn-42"),
        Ok(Some("color:red;width:42px;".to_string()))
    );
}

#[test]
fn anonymous_capture_with_leading_operator() {
    let rules = rules_of(vec![
        text("box-"),
        Token::ReplacementStart,
        Token::ReplacementEnd,
        Token::ConvertTo,
        Token::Space,
        text("padding:"),
        Token::Space,
        Token::ReplacementStart,
        Token::Add,
        num("5"),
        Token::ReplacementEnd,
        text("px"),
        Token::SemiColon,
        Token::NewLine,
    ]);
    assert_eq!(converts(&rules, "box-10"), Ok(Some("padding:15px;".to_string())));
}

#[test]
fn full_replacement_splices_another_rules_output() {
    let rules = rules_of(vec![
        text("alias"),
        Token::ConvertTo,
        Token::Space,
        Token::FullReplacementStart,
        text("base"),
        Token::FullReplacementEnd,
        Token::NewLine,
        text("base"),
        Token::ConvertTo,
        Token::Space,
        text("color:"),
        Token::Space,
        text("red"),
        Token::SemiColon,
        Token::NewLine,
    ]);
    assert_eq!(converts(&rules, "alias"), Ok(Some("color:red;".to_string())));
}

#[test]
fn full_replacement_with_no_inner_match_yields_none() {
    let rules = rules_of(vec![
        text("alias"),
        Token::ConvertTo,
        Token::FullReplacementStart,
        text("missing"),
        Token::FullReplacementEnd,
        Token::NewLine,
    ]);
    assert_eq!(converts(&rules, "alias"), Ok(None));
}

#[test]
fn operators_render_in_their_escaped_forms() {
    let rules = rules_of(vec![
        text("m"),
        Token::ConvertTo,
        Token::Space,
        num("1"),
        Token::Subtract,
        num("2"),
        Token::Times,
        num("3"),
        Token::Add,
        num("4"),
        Token::Divide,
        num("5"),
        Token::NewLine,
    ]);
    assert_eq!(converts(&rules, "m"), Ok(Some("1\\-2\\*3+4/5;".to_string())));
}

#[test]
fn decimal_division_renders_exact_fraction() {
    let rules = rules_of(vec![
        text("h-"),
        Token::ReplacementStart,
        text("x"),
        Token::ReplacementEnd,
        Token::ConvertTo,
        Token::ReplacementStart,
        text("x"),
        Token::Space,
        Token::Divide,
        Token::Space,
        num("2"),
        Token::ReplacementEnd,
        Token::NewLine,
    ]);
    assert_eq!(converts(&rules, "h-5"), Ok(Some("2.5;".to_string())));
}

#[test]
fn negative_capture_takes_part_in_arithmetic() {
    let rules = rules_of(vec![
        text("n-"),
        Token::ReplacementStart,
        text("x"),
        Token::ReplacementEnd,
        Token::ConvertTo,
        Token::ReplacementStart,
        text("x"),
        Token::Space,
        Token::Add,
        Token::Space,
        num("1"),
        Token::ReplacementEnd,
        Token::NewLine,
    ]);
    assert_eq!(converts(&rules, "n--3"), Ok(Some("-2;".to_string())));
}

#[test]
fn missing_variable_is_a_fault() {
    let rules = rules_of(vec![
        text("a"),
        Token::ConvertTo,
        Token::ReplacementStart,
        text("q"),
        Token::ReplacementEnd,
        Token::NewLine,
    ]);
    assert_eq!(converts(&rules, "a"), Err(Fault::MissingVariable));
}

#[test]
fn non_numeric_operand_is_a_fault() {
    let rules = rules_of(vec![
        text("a-"),
        Token::ReplacementStart,
        text("x"),
        Token::ReplacementEnd,
        Token::ConvertTo,
        Token::ReplacementStart,
        text("x"),
        Token::Space,
        Token::Add,
        Token::Space,
        num("1"),
        Token::ReplacementEnd,
        Token::NewLine,
    ]);
    assert_eq!(converts(&rules, "a-red"), Err(Fault::NonNumeric));
}

#[test]
fn capture_count_mismatch_is_a_fault() {
    let name = Name {
        regex: "^a(.*)$".to_string(),
        variables: Vec::new(),
    };
    let rules = vec![(name, vec![text("x")])];
    assert_eq!(converts(&rules, "ab"), Err(Fault::CaptureMismatch));
}

#[test]
fn division_by_zero_is_a_fault() {
    let rules = rules_of(vec![
        text("z-"),
        Token::ReplacementStart,
        text("x"),
        Token::ReplacementEnd,
        Token::ConvertTo,
        Token::ReplacementStart,
        text("x"),
        Token::Space,
        Token::Divide,
        Token::Space,
        num("0"),
        Token::ReplacementEnd,
        Token::NewLine,
    ]);
    assert_eq!(converts(&rules, "z-1"), Err(Fault::DivideByZero));
}

#[test]
fn non_terminating_division_is_a_fault() {
    let rules = rules_of(vec![
        text("t-"),
        Token::ReplacementStart,
        text("x"),
        Token::ReplacementEnd,
        Token::ConvertTo,
        Token::ReplacementStart,
        text("x"),
        Token::Space,
        Token::Divide,
        Token::Space,
        num("3"),
        Token::ReplacementEnd,
        Token::NewLine,
    ]);
    assert_eq!(converts(&rules, "t-1"), Err(Fault::Inexact));
}

#[test]
fn cyclic_full_replacement_is_a_fault() {
    let rules = rules_of(vec![
        text("a"),
        Token::ConvertTo,
        Token::FullReplacementStart,
        text("a"),
        Token::FullReplacementEnd,
        Token::NewLine,
    ]);
    assert_eq!(converts(&rules, "a"), Err(Fault::TooDeep));
}

#[test]
fn no_rule_matching_yields_none() {
    let rules = rules_of(vec![text("a"), Token::ConvertTo, text("x"), Token::NewLine]);
    assert_eq!(converts(&rules, "zzz"), Ok(None));
}

#[test]
fn anonymous_capture_substitutes_directly() {
    let rules = rules_of(vec![
        text("box-"),
        Token::ReplacementStart,
        Token::ReplacementEnd,
        Token::ConvertTo,
        Token::ReplacementStart,
        Token::ReplacementEnd,
        Token::NewLine,
    ]);
    assert_eq!(converts(&rules, "box-abc"), Ok(Some("abc;".to_string())));
}

#[test]
fn decimal_literal_operand_folds_exactly() {
    let rules = rules_of(vec![
        text("d-"),
        Token::ReplacementStart,
        text("x"),
        Token::ReplacementEnd,
        Token::ConvertTo,
        Token::ReplacementStart,
        text("x"),
        Token::Space,
        Token::Add,
        Token::Space,
        num("0.5"),
        Token::ReplacementEnd,
        Token::NewLine,
    ]);
    assert_eq!(converts(&rules, "d-1"), Ok(Some("1.5;".to_string())));
}

#[test]
fn oversized_operand_is_an_overflow_fault() {
    let rules = rules_of(vec![
        text("o-"),
        Token::ReplacementStart,
        text("x"),
        Token::ReplacementEnd,
        Token::ConvertTo,
        Token::ReplacementStart,
        text("x"),
        Token::Space,
        Token::Add,
        Token::Space,
        num("99999999999999999999999999999999999999999"),
        Token::ReplacementEnd,
        Token::NewLine,
    ]);
    assert_eq!(converts(&rules, "o-1"), Err(Fault::Overflow));
}
