use neum::error::ErrorType;
use neum::lexer::{Span, Token};
use neum::parse::parse;

fn with_spans(tokens: Vec<Token>) -> Vec<(Token, Span)> {
    tokens
        .into_iter()
        .enumerate()
        .map(|(i, t)| (t, Span::new(i, i + 1)))
        .collect()
}

fn text(s: &str) -> Token {
    Token::Text(s.to_string())
}

#[test]
fn literal_rule_compiles_anchored() {
    let toks = with_spans(vec![
        text("btn"),
        Token::ConvertTo,
        Token::Space,
        text("color"),
        Token::NewLine,
    ]);
    let rules = parse(toks, None, String::new()).unwrap();
    assert_eq!(rules.len(), 1);
    assert_eq!(rules[0].0.regex, "^btn$");
    assert!(rules[0].0.variables.is_empty());
    assert!(matches!(&rules[0].1[0], Token::Text(x) if x == "color"));
}

#[test]
fn placeholders_become_capture_groups_in_order() {
    let toks = with_spans(vec![
        text("w-"),
        Token::ReplacementStart,
        text("n"),
        Token::ReplacementEnd,
        text("-"),
        Token::ReplacementStart,
        Token::ReplacementEnd,
        Token::ConvertTo,
        text("x"),
        Token::NewLine,
    ]);
    let rules = parse(toks, None, String::new()).unwrap();
    assert_eq!(rules[0].0.regex, "^w\\-(.*)\\-(.*)$");
    assert_eq!(rules[0].0.variables, vec!["n".to_string(), String::new()]);
}

#[test]
fn literal_text_is_regex_escaped() {
    let toks = with_spans(vec![
        text("a.b*c"),
        Token::ConvertTo,
        text("x"),
        Token::NewLine,
    ]);
    let rules = parse(toks, None, String::new()).unwrap();
    assert_eq!(rules[0].0.regex, "^a\\.b\\*c$");
}

#[test]
fn operators_in_pattern_keep_their_escaped_forms() {
    let toks = with_spans(vec![
        text("m"),
        Token::Add,
        Token::Subtract,
        Token::Times,
        Token::Divide,
        Token::ConvertTo,
        text("x"),
        Token::NewLine,
    ]);
    let rules = parse(toks, None, String::new()).unwrap();
    assert_eq!(rules[0].0.regex, "^m+\\-\\*/$");
}

#[test]
fn leading_separator_is_unexpected_token() {
    let toks = with_spans(vec![Token::SemiColon]);
    let err = parse(toks, Some("f.neum".to_string()), ";".to_string()).unwrap_err();
    assert_eq!(err.error_type, ErrorType::UnexpectedToken);
    assert_eq!(err.span, Span::new(0, 1));
    assert_eq!(err.file, Some("f.neum".to_string()));
}

#[test]
fn missing_separator_is_unexpected_end_of_file() {
    let toks = with_spans(vec![text("a")]);
    let err = parse(toks, None, "a".to_string()).unwrap_err();
    assert_eq!(err.error_type, ErrorType::UnexpectedEndOfFile);
    assert_eq!(err.span, Span::new(1, 2));
}

#[test]
fn missing_template_terminator_is_unexpected_end_of_file() {
    let toks = with_spans(vec![text("a"), Token::ConvertTo, text("x")]);
    let err = parse(toks, None, String::new()).unwrap_err();
    assert_eq!(err.error_type, ErrorType::UnexpectedEndOfFile);
}

#[test]
fn duplicate_variable_is_reported() {
    let toks = with_spans(vec![
        text("a"),
        Token::ReplacementStart,
        text("x"),
        Token::ReplacementEnd,
        Token::ReplacementStart,
        text("x"),
        Token::ReplacementEnd,
        Token::ConvertTo,
        text("y"),
        Token::NewLine,
    ]);
    let err = parse(toks, None, String::new()).unwrap_err();
    assert_eq!(err.error_type, ErrorType::VariableMultiDefine);
    assert_eq!(err.span, Span::new(5, 6));
}

#[test]
fn duplicate_anonymous_variable_is_reported() {
    let toks = with_spans(vec![
        text("a"),
        Token::ReplacementStart,
        Token::ReplacementEnd,
        Token::ReplacementStart,
        Token::ReplacementEnd,
        Token::ConvertTo,
        text("y"),
        Token::NewLine,
    ]);
    let err = parse(toks, None, String::new()).unwrap_err();
    assert_eq!(err.error_type, ErrorType::VariableMultiDefine);
}

#[test]
fn multi_line_template_is_collected_to_end_marker() {
    let toks = with_spans(vec![
        text("a"),
        Token::ConvertTo,
        Token::Space,
        Token::MultiEqualStart,
        text("x"),
        Token::NewLine,
        text("y"),
        Token::MultiEqualEnd,
        text("b"),
        Token::ConvertTo,
        text("z"),
        Token::NewLine,
    ]);
    let rules = parse(toks, None, String::new()).unwrap();
    assert_eq!(rules.len(), 2);
    assert_eq!(rules[0].1.len(), 3);
    assert!(matches!(&rules[0].1[1], Token::NewLine));
    assert_eq!(rules[1].0.regex, "^b$");
}

#[test]
fn illegal_token_in_template_is_reported() {
    let toks = with_spans(vec![
        text("a"),
        Token::ConvertTo,
        text("x"),
        Token::ConvertTo,
        Token::NewLine,
    ]);
    let err = parse(toks, None, String::new()).unwrap_err();
    assert_eq!(err.error_type, ErrorType::UnexpectedToken);
    assert_eq!(err.span, Span::new(3, 4));
}
