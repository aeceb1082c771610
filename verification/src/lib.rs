//! A small rule-file compiler and matching/substitution interpreter.
//!
//! A rule file declares patterns, literal text mixed with named
//! placeholders, each paired with a replacement template. Candidate class
//! names are matched against the compiled rules in order; the first match
//! binds the captured placeholder values and the template is expanded,
//! including nested full-replacement sub-templates and left-to-right
//! arithmetic over numeric bindings, into a final CSS declaration string.

pub mod args;
pub mod cache;
pub mod convert;
pub mod error;
pub mod lexer;
pub mod num;
pub mod output;
pub mod parse;
pub mod strutil;
