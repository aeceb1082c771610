//! User-facing compile errors and internal evaluation faults.

use vstd::prelude::*;
use crate::lexer::Span;

verus! {

/// The kind of a compile error in a rule file.
#[derive(Clone, Copy, PartialEq, Eq, Structural, Debug)]
pub enum ErrorType {
    /// A token appeared where the grammar does not allow it.
    UnexpectedToken,
    /// The token stream ended before a rule was complete.
    UnexpectedEndOfFile,
    /// A placeholder name was declared twice within one pattern.
    VariableMultiDefine,
}

/// A compile error, carrying enough context to render a pointer-style
/// diagnostic: the kind, an optional source name, the full source text and
/// the byte span of the offending position.
#[derive(Debug)]
pub struct NeumError {
    pub error_type: ErrorType,
    pub file: Option<String>,
    pub content: String,
    pub span: Span,
}

impl NeumError {
    pub fn new(error_type: ErrorType, file: Option<String>, content: String, span: Span) -> (r:
        NeumError)
        ensures
            r == (NeumError { error_type, file, content, span }),
    {
        NeumError { error_type, file, content, span }
    }
}

/// An internal fault: a contract violation between the pattern compiler and
/// the interpreter, or a numeric condition the evaluator cannot represent.
/// Faults abort the resolution of a single candidate, never the whole pass.
#[derive(Clone, Copy, PartialEq, Eq, Structural, Debug)]
pub enum Fault {
    /// A template referenced a placeholder name that the pattern never bound.
    MissingVariable,
    /// An arithmetic operand was not a numeric string.
    NonNumeric,
    /// The number of capture groups differed from the variable list length.
    CaptureMismatch,
    /// A placeholder reference or chain was structurally malformed.
    MalformedTemplate,
    /// Full-replacement expansion exceeded the recursion depth limit.
    TooDeep,
    /// Exact arithmetic left the representable range.
    Overflow,
    /// An arithmetic chain divided by zero.
    DivideByZero,
    /// A division produced a value with no finite decimal form.
    Inexact,
}

} // verus!
