//! The pattern compiler: turns a token stream into compiled rules.
//!
//! Each rule starts at a literal token, accumulates its pattern segment up
//! to the separator, and synthesizes one anchored regular expression with
//! an ordered list of capture variable names; the template body follows,
//! either single-line (up to a line break) or multi-line (between the
//! multi-line markers).

use vstd::prelude::*;
use crate::error::{ErrorType, NeumError};
use crate::lexer::{Span, Token};
use crate::strutil::{chars_to_string, push_chars, str_chars};

verus! {

/// A compiled pattern: the anchored regular expression source and the
/// capture variable names, one per capture group, in order of appearance.
#[derive(Debug)]
pub struct Name {
    pub regex: String,
    pub variables: Vec<String>,
}

impl Name {
    /// An explicit copy with the same regular expression and variables.
    pub fn dup(&self) -> (r: Name)
        ensures
            r.regex == self.regex,
            r.variables@ == self.variables@,
    {
        let mut vars: Vec<String> = Vec::new();
        let mut i: usize = 0;
        while i < self.variables.len()
            invariant
                i <= self.variables@.len(),
                vars@ == self.variables@.subrange(0, i as int),
            decreases self.variables@.len() - i,
        {
            vars.push(self.variables[i].clone());
            i = i + 1;
            proof {
                assert(vars@ =~= self.variables@.subrange(0, i as int));
            }
        }
        proof {
            assert(vars@ =~= self.variables@);
        }
        Name { regex: self.regex.clone(), variables: vars }
    }
}

/// The spec-level value of a compiled rule: the regular expression source,
/// the variable names, and the template tokens.
pub type RuleV = (Seq<char>, Seq<Seq<char>>, Seq<Token>);

/// The views of a sequence of strings.
pub open spec fn strs_view(v: Seq<String>) -> Seq<Seq<char>> {
    v.map_values(|s: String| s@)
}

/// Whether `x` occurs among `vs`.
pub open spec fn contains_seq(vs: Seq<Seq<char>>, x: Seq<char>) -> bool {
    exists|j: int| 0 <= j < vs.len() && vs[j] == x
}

fn contains_string(v: &Vec<String>, x: &String) -> (r: bool)
    ensures
        r == contains_seq(strs_view(v@), x@),
{
    let mut i: usize = 0;
    while i < v.len()
        invariant
            i <= v@.len(),
            forall|j: int| 0 <= j < i ==> strs_view(v@)[j] != x@,
        decreases v@.len() - i,
    {
        if v[i].eq(x) {
            proof {
                assert(strs_view(v@)[i as int] == x@);
            }
            return true;
        }
        i = i + 1;
    }
    false
}

/// The characters a regular expression assigns meaning to; exactly these
/// are preceded by a backslash when literal text is embedded in a pattern.
pub open spec fn is_meta_char(c: char) -> bool {
    c == '\\' || c == '.' || c == '+' || c == '*' || c == '?' || c == '(' || c == ')' || c == '|'
        || c == '[' || c == ']' || c == '{' || c == '}' || c == '^' || c == '$' || c == '#'
        || c == '&' || c == '-' || c == '~'
}

fn is_meta(c: char) -> (r: bool)
    ensures
        r == is_meta_char(c),
{
    c == '\\' || c == '.' || c == '+' || c == '*' || c == '?' || c == '(' || c == ')' || c == '|'
        || c == '[' || c == ']' || c == '{' || c == '}' || c == '^' || c == '$' || c == '#'
        || c == '&' || c == '-' || c == '~'
}

/// One character of literal text, escaped for use in a pattern.
pub open spec fn escape_char(c: char) -> Seq<char> {
    if is_meta_char(c) {
        seq!['\\', c]
    } else {
        seq![c]
    }
}

/// Tail of the escape scan from index `i` with output `acc`.
pub open spec fn escape_from(s: Seq<char>, i: int, acc: Seq<char>) -> Seq<char>
    decreases s.len() - i,
{
    if i < 0 || i >= s.len() {
        acc
    } else {
        escape_from(s, i + 1, acc + escape_char(s[i]))
    }
}

/// `s` with every regex metacharacter escaped.
pub open spec fn escape_spec(s: Seq<char>) -> Seq<char> {
    escape_from(s, 0, Seq::empty())
}

/// Escapes literal text for embedding in a pattern.
fn escape_chars(v: &Vec<char>) -> (r: Vec<char>)
    ensures
        r@ == escape_spec(v@),
{
    let mut r: Vec<char> = Vec::new();
    let mut i: usize = 0;
    while i < v.len()
        invariant
            i <= v@.len(),
            escape_spec(v@) == escape_from(v@, i as int, r@),
        decreases v@.len() - i,
    {
        let ghost r0 = r@;
        let c = v[i];
        if is_meta(c) {
            r.push('\\');
            r.push(c);
        } else {
            r.push(c);
        }
        proof {
            assert(r@ =~= r0 + escape_char(v@[i as int]));
        }
        i = i + 1;
    }
    r
}

/// Every span in the token stream can be extended by one byte without
/// leaving the machine's address range.
pub open spec fn spans_ok(toks: Seq<(Token, Span)>) -> bool {
    forall|k: int| 0 <= k < toks.len() ==> (#[trigger] toks[k].1).end < usize::MAX
}

/// The one-byte span just past `sp`, used to point at a missing token.
pub open spec fn end_span(sp: Span) -> Span {
    Span { start: sp.end, end: (sp.end + 1) as usize }
}

/// The index of the pattern/template separator at or after `k`, or the
/// length of the stream if there is none.
pub open spec fn seg_end(toks: Seq<(Token, Span)>, k: int) -> int
    decreases toks.len() - k,
{
    if k < 0 || k >= toks.len() {
        toks.len() as int
    } else if toks[k].0 is ConvertTo {
        k
    } else {
        seg_end(toks, k + 1)
    }
}

/// The pattern segment translation: from index `i` up to `hi`, appending
/// regex fragments to `rx` and capture names to `vars`.
pub open spec fn compile_pattern(
    toks: Seq<(Token, Span)>,
    hi: int,
    i: int,
    vars: Seq<Seq<char>>,
    rx: Seq<char>,
) -> Result<(Seq<char>, Seq<Seq<char>>), (ErrorType, Span)>
    decreases hi - i,
{
    if i < 0 || i >= hi || hi > toks.len() {
        Ok((rx, vars))
    } else {
        match toks[i].0 {
            Token::Text(x) => compile_pattern(toks, hi, i + 1, vars, rx + escape_spec(x@)),
            Token::Number(x) => compile_pattern(toks, hi, i + 1, vars, rx + escape_spec(x@)),
            Token::Add => compile_pattern(toks, hi, i + 1, vars, rx + seq!['+']),
            Token::Subtract => compile_pattern(toks, hi, i + 1, vars, rx + seq!['\\', '-']),
            Token::Times => compile_pattern(toks, hi, i + 1, vars, rx + seq!['\\', '*']),
            Token::Divide => compile_pattern(toks, hi, i + 1, vars, rx + seq!['/']),
            Token::Space => compile_pattern(toks, hi, i + 1, vars, rx),
            Token::ReplacementStart => {
                if i + 1 >= hi {
                    Err((ErrorType::UnexpectedEndOfFile, end_span(toks[i].1)))
                } else {
                    match toks[i + 1].0 {
                        Token::Text(x) => {
                            if contains_seq(vars, x@) {
                                Err((ErrorType::VariableMultiDefine, toks[i + 1].1))
                            } else if i + 2 >= hi {
                                Err((ErrorType::UnexpectedToken, toks[i + 1].1))
                            } else if !(toks[i + 2].0 is ReplacementEnd) {
                                Err((ErrorType::UnexpectedToken, toks[i + 1].1))
                            } else {
                                compile_pattern(
                                    toks,
                                    hi,
                                    i + 3,
                                    vars.push(x@),
                                    rx + seq!['(', '.', '*', ')'],
                                )
                            }
                        },
                        Token::ReplacementEnd => {
                            if contains_seq(vars, Seq::empty()) {
                                Err((ErrorType::VariableMultiDefine, toks[i + 1].1))
                            } else {
                                compile_pattern(
                                    toks,
                                    hi,
                                    i + 2,
                                    vars.push(Seq::empty()),
                                    rx + seq!['(', '.', '*', ')'],
                                )
                            }
                        },
                        _ => Err((ErrorType::UnexpectedToken, toks[i + 1].1)),
                    }
                }
            },
            _ => Err((ErrorType::UnexpectedToken, toks[i].1)),
        }
    }
}

/// Whether `t` may appear in a template body.
pub open spec fn template_legal(t: Token) -> bool {
    !(t is ConvertTo || t is MultiEqualStart || t is MultiEqualEnd)
}

/// Template collection from index `i`: tokens are accumulated until the
/// terminator (a line break when `stop_nl`, the multi-line end marker
/// otherwise); `last` is the index of the last consumed token, used to
/// point at the end of input.
pub open spec fn collect_template(
    toks: Seq<(Token, Span)>,
    i: int,
    stop_nl: bool,
    acc: Seq<Token>,
    last: int,
) -> Result<(Seq<Token>, int), (ErrorType, Span)>
    decreases toks.len() - i,
{
    if i < 0 || i >= toks.len() {
        if 0 <= last < toks.len() {
            Err((ErrorType::UnexpectedEndOfFile, end_span(toks[last].1)))
        } else {
            Err((ErrorType::UnexpectedEndOfFile, Span { start: 0, end: 0 }))
        }
    } else if (stop_nl && toks[i].0 is NewLine) || (!stop_nl && toks[i].0 is MultiEqualEnd) {
        Ok((acc, i + 1))
    } else if template_legal(toks[i].0) {
        collect_template(toks, i + 1, stop_nl, acc.push(toks[i].0), i)
    } else {
        Err((ErrorType::UnexpectedToken, toks[i].1))
    }
}

/// The compiled rules of the whole token stream from index `i` on: each
/// rule is its anchored regex, its capture names, and its template tokens.
pub open spec fn parse_spec(toks: Seq<(Token, Span)>, i: int) -> Result<
    Seq<RuleV>,
    (ErrorType, Span),
>
    decreases toks.len() - i,
{
    if i < 0 || i >= toks.len() {
        Ok(Seq::empty())
    } else if !(toks[i].0 is Text) {
        Err((ErrorType::UnexpectedToken, toks[i].1))
    } else {
        let j = seg_end(toks, i + 1);
        match compile_pattern(toks, j, i, Seq::empty(), seq!['^']) {
            Err(e) => Err(e),
            Ok((rx0, vars)) => {
                let rx = rx0.push('$');
                if j >= toks.len() {
                    Err((ErrorType::UnexpectedEndOfFile, end_span(toks[toks.len() - 1].1)))
                } else if j + 1 >= toks.len() {
                    Err((ErrorType::UnexpectedEndOfFile, end_span(toks[j].1)))
                } else {
                    let k0: int = if toks[j + 1].0 is Space {
                        j + 2
                    } else {
                        j + 1
                    };
                    if k0 >= toks.len() {
                        Err((ErrorType::UnexpectedEndOfFile, end_span(toks[j].1)))
                    } else {
                        let body = if toks[k0].0 is MultiEqualStart {
                            collect_template(toks, k0 + 1, false, Seq::empty(), j)
                        } else {
                            collect_template(toks, k0 + 1, true, seq![toks[k0].0], j)
                        };
                        match body {
                            Err(e) => Err(e),
                            Ok((tpl, ni0)) => {
                                let ni: int = if i + 1 <= ni0 <= toks.len() {
                                    ni0
                                } else {
                                    i + 1
                                };
                                match parse_spec(toks, ni) {
                                    Err(e) => Err(e),
                                    Ok(rest) => Ok(seq![(rx, vars, tpl)] + rest),
                                }
                            },
                        }
                    }
                }
            },
        }
    }
}

/// The spec-level value of one compiled rule.
pub open spec fn rule_view(r: (Name, Vec<Token>)) -> RuleV {
    (r.0.regex@, strs_view(r.0.variables@), r.1@)
}

/// The spec-level value of a compiled rule list.
pub open spec fn rules_view(rs: Seq<(Name, Vec<Token>)>) -> Seq<RuleV> {
    rs.map_values(|r: (Name, Vec<Token>)| rule_view(r))
}

fn end_span_of(sp: Span) -> (r: Span)
    requires
        sp.end < usize::MAX,
    ensures
        r == end_span(sp),
{
    Span { start: sp.end, end: sp.end + 1 }
}

fn compile_pattern_exec(
    toks: &Vec<(Token, Span)>,
    hi: usize,
    i: usize,
    vars: Vec<String>,
    rx: Vec<char>,
) -> (res: Result<(Vec<char>, Vec<String>), (ErrorType, Span)>)
    requires
        hi <= toks@.len(),
        spans_ok(toks@),
    ensures
        match (res, compile_pattern(toks@, hi as int, i as int, strs_view(vars@), rx@)) {
            (Ok((erx, evars)), Ok((srx, svars))) => erx@ == srx && strs_view(evars@) == svars,
            (Err(e), Err(se)) => e == se,
            _ => false,
        },
    decreases hi - i,
{
    if i >= hi {
        Ok((rx, vars))
    } else {
        match &toks[i].0 {
            Token::Text(x) => {
                let mut rx2 = rx;
                let xc = str_chars(x.as_str());
                let esc = escape_chars(&xc);
                push_chars(&mut rx2, &esc);
                compile_pattern_exec(toks, hi, i + 1, vars, rx2)
            },
            Token::Number(x) => {
                let mut rx2 = rx;
                let xc = str_chars(x.as_str());
                let esc = escape_chars(&xc);
                push_chars(&mut rx2, &esc);
                compile_pattern_exec(toks, hi, i + 1, vars, rx2)
            },
            Token::Add => {
                let mut rx2 = rx;
                rx2.push('+');
                proof {
                    assert(rx2@ =~= rx@ + seq!['+']);
                }
                compile_pattern_exec(toks, hi, i + 1, vars, rx2)
            },
            Token::Subtract => {
                let mut rx2 = rx;
                rx2.push('\\');
                rx2.push('-');
                proof {
                    assert(rx2@ =~= rx@ + seq!['\\', '-']);
                }
                compile_pattern_exec(toks, hi, i + 1, vars, rx2)
            },
            Token::Times => {
                let mut rx2 = rx;
                rx2.push('\\');
                rx2.push('*');
                proof {
                    assert(rx2@ =~= rx@ + seq!['\\', '*']);
                }
                compile_pattern_exec(toks, hi, i + 1, vars, rx2)
            },
            Token::Divide => {
                let mut rx2 = rx;
                rx2.push('/');
                proof {
                    assert(rx2@ =~= rx@ + seq!['/']);
                }
                compile_pattern_exec(toks, hi, i + 1, vars, rx2)
            },
            Token::Space => compile_pattern_exec(toks, hi, i + 1, vars, rx),
            Token::ReplacementStart => {
                if i + 1 >= hi {
                    Err((ErrorType::UnexpectedEndOfFile, end_span_of(toks[i].1)))
                } else {
                    match &toks[i + 1].0 {
                        Token::Text(x) => {
                            if contains_string(&vars, x) {
                                Err((ErrorType::VariableMultiDefine, toks[i + 1].1))
                            } else if i + 2 >= hi {
                                Err((ErrorType::UnexpectedToken, toks[i + 1].1))
                            } else if !(matches!(&toks[i + 2].0, Token::ReplacementEnd)) {
                                Err((ErrorType::UnexpectedToken, toks[i + 1].1))
                            } else {
                                let mut vars2 = vars;
                                vars2.push(x.clone());
                                let mut rx2 = rx;
                                rx2.push('(');
                                rx2.push('.');
                                rx2.push('*');
                                rx2.push(')');
                                proof {
                                    assert(rx2@ =~= rx@ + seq!['(', '.', '*', ')']);
                                    assert(strs_view(vars2@) =~= strs_view(vars@).push(x@));
                                }
                                compile_pattern_exec(toks, hi, i + 3, vars2, rx2)
                            }
                        },
                        Token::ReplacementEnd => {
                            let empty_name = String::new();
                            if contains_string(&vars, &empty_name) {
                                Err((ErrorType::VariableMultiDefine, toks[i + 1].1))
                            } else {
                                let mut vars2 = vars;
                                vars2.push(empty_name);
                                let mut rx2 = rx;
                                rx2.push('(');
                                rx2.push('.');
                                rx2.push('*');
                                rx2.push(')');
                                proof {
                                    assert(rx2@ =~= rx@ + seq!['(', '.', '*', ')']);
                                    assert(strs_view(vars2@) =~= strs_view(vars@).push(
                                        Seq::empty(),
                                    ));
                                }
                                compile_pattern_exec(toks, hi, i + 2, vars2, rx2)
                            }
                        },
                        _ => Err((ErrorType::UnexpectedToken, toks[i + 1].1)),
                    }
                }
            },
            _ => Err((ErrorType::UnexpectedToken, toks[i].1)),
        }
    }
}

fn collect_template_exec(
    toks: &Vec<(Token, Span)>,
    i: usize,
    stop_nl: bool,
    acc: Vec<Token>,
    last: usize,
) -> (res: Result<(Vec<Token>, usize), (ErrorType, Span)>)
    requires
        spans_ok(toks@),
        last < toks@.len(),
        i as int <= toks@.len(),
    ensures
        match (res, collect_template(toks@, i as int, stop_nl, acc@, last as int)) {
            (Ok((etpl, eni)), Ok((stpl, sni))) => etpl@ == stpl && eni as int == sni && (
            i as int) < eni as int <= toks@.len(),
            (Err(e), Err(se)) => e == se,
            _ => false,
        },
    decreases toks@.len() - i,
{
    if i >= toks.len() {
        Err((ErrorType::UnexpectedEndOfFile, end_span_of(toks[last].1)))
    } else {
        let stop_here = if stop_nl {
            matches!(&toks[i].0, Token::NewLine)
        } else {
            matches!(&toks[i].0, Token::MultiEqualEnd)
        };
        if stop_here {
            Ok((acc, i + 1))
        } else {
            let legal = !(matches!(
                &toks[i].0,
                Token::ConvertTo | Token::MultiEqualStart | Token::MultiEqualEnd
            ));
            if legal {
                let mut acc2 = acc;
                acc2.push(toks[i].0.dup());
                collect_template_exec(toks, i + 1, stop_nl, acc2, i)
            } else {
                Err((ErrorType::UnexpectedToken, toks[i].1))
            }
        }
    }
}

fn seg_end_exec(toks: &Vec<(Token, Span)>, k: usize) -> (r: usize)
    requires
        k as int <= toks@.len(),
    ensures
        r as int == seg_end(toks@, k as int),
        k <= r,
        r as int <= toks@.len(),
    decreases toks@.len() - k,
{
    if k >= toks.len() {
        k
    } else if matches!(&toks[k].0, Token::ConvertTo) {
        k
    } else {
        seg_end_exec(toks, k + 1)
    }
}

fn parse_rules(toks: &Vec<(Token, Span)>, i: usize) -> (res: Result<
    Vec<(Name, Vec<Token>)>,
    (ErrorType, Span),
>)
    requires
        spans_ok(toks@),
        i as int <= toks@.len(),
    ensures
        match (res, parse_spec(toks@, i as int)) {
            (Ok(rs), Ok(srs)) => rules_view(rs@) == srs,
            (Err(e), Err(se)) => e == se,
            _ => false,
        },
    decreases toks@.len() - i,
{
    if i >= toks.len() {
        let r: Vec<(Name, Vec<Token>)> = Vec::new();
        proof {
            assert(rules_view(r@) =~= Seq::<RuleV>::empty());
        }
        Ok(r)
    } else if !(matches!(&toks[i].0, Token::Text(_))) {
        Err((ErrorType::UnexpectedToken, toks[i].1))
    } else {
        let j = seg_end_exec(toks, i + 1);
        let empty_vars: Vec<String> = Vec::new();
        let mut caret: Vec<char> = Vec::new();
        caret.push('^');
        proof {
            assert(caret@ =~= seq!['^']);
            assert(strs_view(empty_vars@) =~= Seq::<Seq<char>>::empty());
        }
        match compile_pattern_exec(toks, j, i, empty_vars, caret) {
            Err(e) => Err(e),
            Ok((rx0, vars)) => {
                let mut rx = rx0;
                rx.push('$');
                if j >= toks.len() {
                    Err((ErrorType::UnexpectedEndOfFile, end_span_of(toks[toks.len() - 1].1)))
                } else if j + 1 >= toks.len() {
                    Err((ErrorType::UnexpectedEndOfFile, end_span_of(toks[j].1)))
                } else {
                    let k0: usize = if matches!(&toks[j + 1].0, Token::Space) {
                        j + 2
                    } else {
                        j + 1
                    };
                    if k0 >= toks.len() {
                        Err((ErrorType::UnexpectedEndOfFile, end_span_of(toks[j].1)))
                    } else {
                        let body = if matches!(&toks[k0].0, Token::MultiEqualStart) {
                            let acc0: Vec<Token> = Vec::new();
                            collect_template_exec(toks, k0 + 1, false, acc0, j)
                        } else {
                            let mut acc0: Vec<Token> = Vec::new();
                            acc0.push(toks[k0].0.dup());
                            proof {
                                assert(acc0@ =~= seq![toks@[k0 as int].0]);
                            }
                            collect_template_exec(toks, k0 + 1, true, acc0, j)
                        };
                        match body {
                            Err(e) => Err(e),
                            Ok((tpl, ni)) => {
                                match parse_rules(toks, ni) {
                                    Err(e) => Err(e),
                                    Ok(rest) => {
                                        let name = Name {
                                            regex: chars_to_string(&rx),
                                            variables: vars,
                                        };
                                        let mut out = rest;
                                        out.insert(0, (name, tpl));
                                        proof {
                                            let srs = parse_spec(toks@, i as int)->Ok_0;
                                            assert(rules_view(out@) =~= srs);
                                        }
                                        Ok(out)
                                    },
                                }
                            },
                        }
                    }
                }
            },
        }
    }
}

/// Compiles a token stream into the list of rules it declares.
///
/// On success the result holds, in order, one compiled rule per declaration
/// in the stream, exactly as `parse_spec` describes; on failure the error
/// carries the kind and span `parse_spec` assigns, together with the given
/// source name and content for diagnostics.
pub fn parse(tokens: Vec<(Token, Span)>, file: Option<String>, content: String) -> (res: Result<
    Vec<(Name, Vec<Token>)>,
    NeumError,
>)
    requires
        spans_ok(tokens@),
    ensures
        match (res, parse_spec(tokens@, 0)) {
            (Ok(rs), Ok(srs)) => rules_view(rs@) == srs,
            (Err(e), Err(se)) => e.error_type == se.0 && e.span == se.1,
            _ => false,
        },
        res is Err ==> res->Err_0.file == file && res->Err_0.content == content,
{
    match parse_rules(&tokens, 0) {
        Ok(rs) => Ok(rs),
        Err((t, sp)) => Err(NeumError::new(t, file, content, sp)),
    }
}

} // verus!
