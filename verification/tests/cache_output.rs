use neum::cache::{combine_priority, update_neum, Cache};
use neum::convert::converts;
use neum::error::ErrorType;
use neum::lexer::{Span, Token};
use neum::output::update;
use neum::parse::parse;

fn with_spans(tokens: Vec<Token>) -> Vec<(Token, Span)> {
    tokens
        .into_iter()
        .enumerate()
        .map(|(i, t)| (t, Span::new(i, i + 1)))
        .collect()
}

fn text(s: &str) -> Token {
    Token::Text(s.to_string())
}

fn rule_tokens(pattern: &str, body: &str) -> Vec<(Token, Span)> {
    with_spans(vec![
        text(pattern),
        Token::ConvertTo,
        Token::Space,
        text(body),
        Token::NewLine,
    ])
}

#[test]
fn merge_keeps_left_priority() {
    let a = parse(rule_tokens("a", "left"), None, String::new()).unwrap();
    let b = parse(rule_tokens("a", "right"), None, String::new()).unwrap();
    let merged = combine_priority(a, b);
    assert_eq!(converts(&merged, "a"), Ok(Some("left;".to_string())));
}

#[test]
fn merge_still_tries_right_rules() {
    let a = parse(rule_tokens("a", "left"), None, String::new()).unwrap();
    let b = parse(rule_tokens("b", "right"), None, String::new()).unwrap();
    let merged = combine_priority(a, b);
    assert_eq!(converts(&merged, "b"), Ok(Some("right;".to_string())));
}

#[test]
fn unmatched_candidate_in_merged_sets_is_none() {
    let a = parse(rule_tokens("a", "left"), None, String::new()).unwrap();
    let b = parse(rule_tokens("b", "right"), None, String::new()).unwrap();
    let merged = combine_priority(a, b);
    assert_eq!(converts(&merged, "zzz"), Ok(None));
}

#[test]
fn cache_update_inserts_and_aggregates_in_file_order() {
    let mut cache = Cache::new();
    update_neum(
        &mut cache,
        "one.neum".to_string(),
        Some((rule_tokens("a", "first"), String::new())),
    )
    .unwrap();
    update_neum(
        &mut cache,
        "two.neum".to_string(),
        Some((rule_tokens("a", "second"), String::new())),
    )
    .unwrap();
    let agg = cache.aggregate();
    assert_eq!(converts(&agg, "a"), Ok(Some("first;".to_string())));
}

#[test]
fn cache_replaces_an_entry_wholesale() {
    let mut cache = Cache::new();
    update_neum(
        &mut cache,
        "one.neum".to_string(),
        Some((rule_tokens("a", "old"), String::new())),
    )
    .unwrap();
    update_neum(
        &mut cache,
        "one.neum".to_string(),
        Some((rule_tokens("a", "new"), String::new())),
    )
    .unwrap();
    assert_eq!(cache.entries.len(), 1);
    let agg = cache.aggregate();
    assert_eq!(converts(&agg, "a"), Ok(Some("new;".to_string())));
}

#[test]
fn cache_removes_an_unreadable_file() {
    let mut cache = Cache::new();
    update_neum(
        &mut cache,
        "one.neum".to_string(),
        Some((rule_tokens("a", "x"), String::new())),
    )
    .unwrap();
    update_neum(&mut cache, "one.neum".to_string(), None).unwrap();
    assert!(cache.entries.is_empty());
    assert_eq!(converts(&cache.aggregate(), "a"), Ok(None));
}

#[test]
fn compile_error_keeps_the_prior_entry() {
    let mut cache = Cache::new();
    update_neum(
        &mut cache,
        "one.neum".to_string(),
        Some((rule_tokens("a", "good"), String::new())),
    )
    .unwrap();
    let bad = with_spans(vec![Token::SemiColon]);
    let err = update_neum(&mut cache, "one.neum".to_string(), Some((bad, ";".to_string())))
        .unwrap_err();
    assert_eq!(err.error_type, ErrorType::UnexpectedToken);
    assert_eq!(converts(&cache.aggregate(), "a"), Ok(Some("good;".to_string())));
}

#[test]
fn update_emits_one_fragment_per_distinct_resolving_class() {
    let mut cache = Cache::new();
    update_neum(
        &mut cache,
        "one.neum".to_string(),
        Some((rule_tokens("a", "color:red"), String::new())),
    )
    .unwrap();
    let classes = vec![
        "a".to_string(),
        "missing".to_string(),
        "a".to_string(),
    ];
    assert_eq!(update(classes, &cache), ".a{color:red;}");
}

#[test]
fn update_keeps_candidate_order() {
    let mut cache = Cache::new();
    let toks = with_spans(vec![
        text("a"),
        Token::ConvertTo,
        text("x"),
        Token::NewLine,
        text("b"),
        Token::ConvertTo,
        text("y"),
        Token::NewLine,
    ]);
    update_neum(&mut cache, "one.neum".to_string(), Some((toks, String::new()))).unwrap();
    let classes = vec!["b".to_string(), "a".to_string(), "b".to_string()];
    assert_eq!(update(classes, &cache), ".b{y;}.a{x;}");
}
