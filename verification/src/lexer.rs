//! Lexical tokens and source spans.
//!
//! Tokens are produced by an external tokenizer; each carries a half-open
//! byte span into the original source text, used for diagnostics.

use vstd::prelude::*;

verus! {

/// Half-open byte span into the source text.
#[derive(Clone, Copy, PartialEq, Eq, Structural, Debug)]
pub struct Span {
    pub start: usize,
    pub end: usize,
}

impl Span {
    pub fn new(start: usize, end: usize) -> (r: Span)
        ensures
            r == (Span { start, end }),
    {
        Span { start, end }
    }
}

/// One lexical unit of a rule file.
#[derive(Debug)]
pub enum Token {
    /// A run of literal text.
    Text(String),
    /// A numeric literal, kept as the text it was written as.
    Number(String),
    /// The `+` operator.
    Add,
    /// The `-` operator.
    Subtract,
    /// The `*` operator.
    Times,
    /// The `/` operator.
    Divide,
    /// Start of a placeholder.
    ReplacementStart,
    /// End of a placeholder.
    ReplacementEnd,
    /// Start of a full-replacement block.
    FullReplacementStart,
    /// End of a full-replacement block.
    FullReplacementEnd,
    /// The pattern/template separator.
    ConvertTo,
    /// Start of a multi-line template.
    MultiEqualStart,
    /// End of a multi-line template.
    MultiEqualEnd,
    /// A statement separator.
    SemiColon,
    /// A line break.
    NewLine,
    /// A run of whitespace.
    Space,
}

impl Token {
    /// An explicit copy whose value is known to equal the original.
    pub fn dup(&self) -> (r: Token)
        ensures
            r == *self,
    {
        match self {
            Token::Text(s) => Token::Text(s.clone()),
            Token::Number(s) => Token::Number(s.clone()),
            Token::Add => Token::Add,
            Token::Subtract => Token::Subtract,
            Token::Times => Token::Times,
            Token::Divide => Token::Divide,
            Token::ReplacementStart => Token::ReplacementStart,
            Token::ReplacementEnd => Token::ReplacementEnd,
            Token::FullReplacementStart => Token::FullReplacementStart,
            Token::FullReplacementEnd => Token::FullReplacementEnd,
            Token::ConvertTo => Token::ConvertTo,
            Token::MultiEqualStart => Token::MultiEqualStart,
            Token::MultiEqualEnd => Token::MultiEqualEnd,
            Token::SemiColon => Token::SemiColon,
            Token::NewLine => Token::NewLine,
            Token::Space => Token::Space,
        }
    }
}

} // verus!
