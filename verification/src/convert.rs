//! The match/substitution interpreter.
//!
//! A candidate string is tried against each rule in order; the first whose
//! pattern matches binds its captures to the pattern's variable names, and
//! the rule's template is rendered: literal tokens emit their text,
//! placeholder references substitute bound values or fold an arithmetic
//! chain left to right, and full-replacement blocks resolve their rendered
//! text as a fresh candidate against the same rule list.

use vstd::prelude::*;
use crate::error::Fault;
use crate::lexer::Token;
use crate::num::{
    add_spec, div_spec, mul_spec, num_add, num_div, num_mul, num_sub, num_wf, parse_num,
    parse_num_spec, render_num, render_num_spec, sub_spec, Num,
};
use crate::parse::{rules_view, Name, RuleV};
use crate::strutil::{
    chars_to_string, collapse_chars, collapse_spec, ensure_semi, push_chars, push_str_chars,
    str_chars, trim_chars, trim_spec,
};

verus! {

/// The capture groups that the pattern `pattern` assigns to `input`:
/// `None` when the pattern matches nowhere in the input (or is not a
/// valid regular expression), otherwise one string per capture group of
/// the leftmost match, in order, the empty string standing for a group
/// absent from the match. The compiler only synthesizes anchored
/// patterns, so for the library's own rules a match is a whole-input
/// match. The result depends on the two strings alone.
pub uninterp spec fn captures_of(pattern: Seq<char>, input: Seq<char>) -> Option<Seq<Seq<char>>>;

/// Whether the strings `v` are exactly the sequences `s`.
pub open spec fn caps_match(v: Seq<String>, s: Seq<Seq<char>>) -> bool {
    v.len() == s.len() && forall|k: int| 0 <= k < v.len() ==> (#[trigger] v[k])@ == s[k]
}

/// Relies on `regex::Regex::new` and `regex::Regex::captures`: both are
/// deterministic in their string arguments, so the outcome is a function of
/// `pattern` and `input` alone, named `captures_of`. A pattern that fails
/// to compile is reported as a non-match.
#[verifier::external_body]
fn regex_captures(pattern: &str, input: &str) -> (r: Option<Vec<String>>)
    ensures
        match (r, captures_of(pattern@, input@)) {
            (Some(v), Some(s)) => caps_match(v@, s),
            (None, None) => true,
            _ => false,
        },
{
    match regex::Regex::new(pattern) {
        Ok(re) => re.captures(input).map(
            |caps|
                caps.iter().skip(1).map(
                    |m| match m {
                        Some(m) => m.as_str().to_string(),
                        None => String::new(),
                    },
                ).collect(),
        ),
        Err(_) => None,
    }
}

/// The bindings of variable names to captured values, in capture order.
pub open spec fn mk_binds(vars: Seq<Seq<char>>, caps: Seq<Seq<char>>) -> Seq<
    (Seq<char>, Seq<char>),
> {
    Seq::new(vars.len(), |i: int| (vars[i], caps[i]))
}

/// The value bound to `k`, the binding added last taking precedence.
pub open spec fn lookup(binds: Seq<(Seq<char>, Seq<char>)>, k: Seq<char>) -> Option<Seq<char>>
    decreases binds.len(),
{
    if binds.len() == 0 {
        None
    } else if binds.last().0 == k {
        Some(binds.last().1)
    } else {
        lookup(binds.drop_last(), k)
    }
}

/// The views of a binding list.
pub open spec fn binds_view(b: Seq<(String, String)>) -> Seq<(Seq<char>, Seq<char>)> {
    b.map_values(|p: (String, String)| (p.0@, p.1@))
}

fn lookup_exec(binds: &Vec<(String, String)>, k: &String) -> (r: Option<Vec<char>>)
    ensures
        match (r, lookup(binds_view(binds@), k@)) {
            (Some(ev), Some(sv)) => ev@ == sv,
            (None, None) => true,
            _ => false,
        },
{
    let mut j: usize = binds.len();
    proof {
        assert(binds_view(binds@).subrange(0, binds@.len() as int) =~= binds_view(binds@));
    }
    while j > 0
        invariant
            j <= binds@.len(),
            lookup(binds_view(binds@), k@) == lookup(
                binds_view(binds@).subrange(0, j as int),
                k@,
            ),
        decreases j,
    {
        proof {
            assert(binds_view(binds@).subrange(0, j as int).last() == (
                binds@[j - 1].0@,
                binds@[j - 1].1@,
            ));
            assert(binds_view(binds@).subrange(0, j as int).drop_last() =~= binds_view(
                binds@,
            ).subrange(0, j as int - 1));
        }
        if binds[j - 1].0.eq(k) {
            return Some(str_chars(binds[j - 1].1.as_str()));
        }
        j = j - 1;
    }
    proof {
        assert(binds_view(binds@).subrange(0, 0) =~= Seq::<(Seq<char>, Seq<char>)>::empty());
    }
    None
}

fn make_binds(vars: &Vec<String>, caps: &Vec<String>) -> (r: Vec<(String, String)>)
    requires
        vars@.len() == caps@.len(),
    ensures
        binds_view(r@) == mk_binds(
            crate::parse::strs_view(vars@),
            crate::parse::strs_view(caps@),
        ),
{
    let mut b: Vec<(String, String)> = Vec::new();
    let mut i: usize = 0;
    while i < vars.len()
        invariant
            vars@.len() == caps@.len(),
            i <= vars@.len(),
            binds_view(b@) == mk_binds(
                crate::parse::strs_view(vars@),
                crate::parse::strs_view(caps@),
            ).subrange(0, i as int),
        decreases vars@.len() - i,
    {
        let ghost b0 = b@;
        let vn = vars[i].clone();
        let cv = caps[i].clone();
        b.push((vn, cv));
        proof {
            assert(binds_view(b0).len() == b0.len());
            assert(b0.len() == i as int);
            assert(b@ == b0.push((vn, cv)));
            assert(b@[i as int] == (vn, cv));
            assert(vn@ == crate::parse::strs_view(vars@)[i as int]);
            assert(cv@ == crate::parse::strs_view(caps@)[i as int]);
        }
        i = i + 1;
        proof {
            assert(binds_view(b@) =~~= mk_binds(
                crate::parse::strs_view(vars@),
                crate::parse::strs_view(caps@),
            ).subrange(0, i as int));
        }
    }
    proof {
        assert(mk_binds(crate::parse::strs_view(vars@), crate::parse::strs_view(caps@)).subrange(
            0,
            vars@.len() as int,
        ) =~= mk_binds(crate::parse::strs_view(vars@), crate::parse::strs_view(caps@)));
    }
    b
}

/// The index just past an optional single whitespace token at `i`.
pub open spec fn skip1(toks: Seq<Token>, i: int) -> int {
    if 0 <= i < toks.len() && toks[i] is Space {
        i + 1
    } else {
        i
    }
}

fn skip1_exec(toks: &Vec<Token>, i: usize) -> (r: usize)
    requires
        i as int <= toks@.len(),
    ensures
        r as int == skip1(toks@, i as int),
        i <= r,
        r as int <= toks@.len(),
{
    if i < toks.len() && matches!(&toks[i], Token::Space) {
        i + 1
    } else {
        i
    }
}

pub open spec fn is_op(t: Token) -> bool {
    t is Add || t is Subtract || t is Times || t is Divide
}

/// One arithmetic step of a chain: the operator applied to `a` and `b`.
pub open spec fn chain_step(op: Token, a: Num, b: Num) -> Result<Num, Fault> {
    match op {
        Token::Add => add_spec(a, b),
        Token::Subtract => sub_spec(a, b),
        Token::Times => mul_spec(a, b),
        Token::Divide => div_spec(a, b),
        _ => Err(Fault::MalformedTemplate),
    }
}

fn chain_step_exec(op: &Token, a: &Num, b: &Num) -> (r: Result<Num, Fault>)
    requires
        num_wf(*a),
        num_wf(*b),
    ensures
        r == chain_step(*op, *a, *b),
        r is Ok ==> num_wf(r->Ok_0),
{
    match op {
        Token::Add => num_add(a, b),
        Token::Subtract => num_sub(a, b),
        Token::Times => num_mul(a, b),
        Token::Divide => num_div(a, b),
        _ => Err(Fault::MalformedTemplate),
    }
}

/// The numeric operand at `i`: a bound variable's value or a literal
/// number, parsed as a decimal.
pub open spec fn operand_at(
    binds: Seq<(Seq<char>, Seq<char>)>,
    toks: Seq<Token>,
    i: int,
) -> Result<(Num, int), Fault> {
    if i < 0 || i >= toks.len() {
        Err(Fault::MalformedTemplate)
    } else {
        match toks[i] {
            Token::Text(w) => match lookup(binds, w@) {
                None => Err(Fault::MissingVariable),
                Some(v) => match parse_num_spec(v) {
                    Err(f) => Err(f),
                    Ok(x) => Ok((x, i + 1)),
                },
            },
            Token::Number(n) => match parse_num_spec(n@) {
                Err(f) => Err(f),
                Ok(x) => Ok((x, i + 1)),
            },
            _ => Err(Fault::MalformedTemplate),
        }
    }
}

fn operand_exec(binds: &Vec<(String, String)>, toks: &Vec<Token>, i: usize) -> (r: Result<
    (Num, usize),
    Fault,
>)
    requires
        i as int <= toks@.len(),
    ensures
        match (r, operand_at(binds_view(binds@), toks@, i as int)) {
            (Ok((en, eni)), Ok((sn, sni))) => en == sn && eni as int == sni && num_wf(en),
            (Err(f), Err(g)) => f == g,
            _ => false,
        },
{
    if i >= toks.len() {
        Err(Fault::MalformedTemplate)
    } else {
        match &toks[i] {
            Token::Text(w) => match lookup_exec(binds, w) {
                None => Err(Fault::MissingVariable),
                Some(v) => match parse_num(&v) {
                    Err(f) => Err(f),
                    Ok(x) => Ok((x, i + 1)),
                },
            },
            Token::Number(n) => {
                let nc = str_chars(n.as_str());
                match parse_num(&nc) {
                    Err(f) => Err(f),
                    Ok(x) => Ok((x, i + 1)),
                }
            },
            _ => Err(Fault::MalformedTemplate),
        }
    }
}

/// The fold of an arithmetic chain: pairs of operator and operand are
/// applied to `acc` left to right until the placeholder ends; the final
/// value is rendered as a decimal.
pub open spec fn chain_spec(
    binds: Seq<(Seq<char>, Seq<char>)>,
    toks: Seq<Token>,
    i: int,
    acc: Num,
) -> Result<(Seq<char>, int), Fault>
    decreases toks.len() - i,
{
    let i1 = skip1(toks, i);
    if i1 >= toks.len() {
        match render_num_spec(acc) {
            Err(f) => Err(f),
            Ok(s) => Ok((s, i1)),
        }
    } else if toks[i1] is ReplacementEnd {
        match render_num_spec(acc) {
            Err(f) => Err(f),
            Ok(s) => Ok((s, i1 + 1)),
        }
    } else {
        let i3 = skip1(toks, i1 + 1);
        match operand_at(binds, toks, i3) {
            Err(f) => Err(f),
            Ok((b, ni)) => match chain_step(toks[i1], acc, b) {
                Err(f) => Err(f),
                Ok(acc2) => chain_spec(binds, toks, ni, acc2),
            },
        }
    }
}

fn chain_exec(binds: &Vec<(String, String)>, toks: &Vec<Token>, i: usize, acc: Num) -> (r: Result<
    (Vec<char>, usize),
    Fault,
>)
    requires
        i as int <= toks@.len(),
        num_wf(acc),
    ensures
        match (r, chain_spec(binds_view(binds@), toks@, i as int, acc)) {
            (Ok((ev, eni)), Ok((sv, sni))) => ev@ == sv && eni as int == sni && i <= eni && (
            eni as int) <= toks@.len(),
            (Err(f), Err(g)) => f == g,
            _ => false,
        },
    decreases toks@.len() - i,
{
    let i1 = skip1_exec(toks, i);
    if i1 >= toks.len() {
        match render_num(&acc) {
            Err(f) => Err(f),
            Ok(s) => Ok((s, i1)),
        }
    } else if matches!(&toks[i1], Token::ReplacementEnd) {
        match render_num(&acc) {
            Err(f) => Err(f),
            Ok(s) => Ok((s, i1 + 1)),
        }
    } else {
        let i3 = skip1_exec(toks, i1 + 1);
        match operand_exec(binds, toks, i3) {
            Err(f) => Err(f),
            Ok((b, ni)) => match chain_step_exec(&toks[i1], &acc, &b) {
                Err(f) => Err(f),
                Ok(acc2) => chain_exec(binds, toks, ni, acc2),
            },
        }
    }
}

/// A substituted value after the head of a placeholder reference: the
/// placeholder may end, handing the value back as text, or an operator may
/// begin an arithmetic chain over it.
pub open spec fn head_rest(
    binds: Seq<(Seq<char>, Seq<char>)>,
    toks: Seq<Token>,
    i: int,
    v: Seq<char>,
) -> Result<(Seq<char>, int), Fault> {
    let i2 = skip1(toks, i);
    if i2 >= toks.len() {
        Ok((trim_spec(v), i2))
    } else if toks[i2] is ReplacementEnd {
        Ok((trim_spec(v), i2 + 1))
    } else if is_op(toks[i2]) {
        match parse_num_spec(v) {
            Err(f) => Err(f),
            Ok(base) => chain_spec(binds, toks, i2, base),
        }
    } else {
        Err(Fault::MalformedTemplate)
    }
}

/// A placeholder that begins with an operator: the empty-named binding is
/// the base value and the chain starts immediately, its first operand read
/// with no whitespace allowance.
pub open spec fn head_op(
    binds: Seq<(Seq<char>, Seq<char>)>,
    toks: Seq<Token>,
    i: int,
    v: Seq<char>,
    op: Token,
) -> Result<(Seq<char>, int), Fault> {
    if i >= toks.len() {
        Ok((trim_spec(v), i))
    } else {
        match parse_num_spec(v) {
            Err(f) => Err(f),
            Ok(base) => match operand_at(binds, toks, i) {
                Err(f) => Err(f),
                Ok((b, ni)) => match chain_step(op, base, b) {
                    Err(f) => Err(f),
                    Ok(acc) => chain_spec(binds, toks, ni, acc),
                },
            },
        }
    }
}

/// A placeholder reference in a template, starting just after its opening
/// token: one optional leading whitespace is skipped; an immediate end
/// yields the empty-named binding, a name yields its binding, a number its
/// text, and an operator starts a chain on the empty-named binding.
pub open spec fn replacement_spec(
    binds: Seq<(Seq<char>, Seq<char>)>,
    toks: Seq<Token>,
    i: int,
) -> Result<(Seq<char>, int), Fault> {
    let i1 = skip1(toks, i);
    if i1 >= toks.len() {
        Err(Fault::MalformedTemplate)
    } else {
        match toks[i1] {
            Token::ReplacementEnd => match lookup(binds, Seq::empty()) {
                None => Err(Fault::MissingVariable),
                Some(v) => Ok((trim_spec(v), i1 + 1)),
            },
            Token::Text(w) => match lookup(binds, w@) {
                None => Err(Fault::MissingVariable),
                Some(v) => head_rest(binds, toks, i1 + 1, v),
            },
            Token::Number(n) => head_rest(binds, toks, i1 + 1, n@),
            Token::Add => match lookup(binds, Seq::empty()) {
                None => Err(Fault::MissingVariable),
                Some(v) => head_op(binds, toks, i1 + 1, v, Token::Add),
            },
            Token::Subtract => match lookup(binds, Seq::empty()) {
                None => Err(Fault::MissingVariable),
                Some(v) => head_op(binds, toks, i1 + 1, v, Token::Subtract),
            },
            Token::Times => match lookup(binds, Seq::empty()) {
                None => Err(Fault::MissingVariable),
                Some(v) => head_op(binds, toks, i1 + 1, v, Token::Times),
            },
            Token::Divide => match lookup(binds, Seq::empty()) {
                None => Err(Fault::MissingVariable),
                Some(v) => head_op(binds, toks, i1 + 1, v, Token::Divide),
            },
            _ => Err(Fault::MalformedTemplate),
        }
    }
}

fn head_rest_exec(binds: &Vec<(String, String)>, toks: &Vec<Token>, i: usize, v: Vec<char>) -> (r:
    Result<(Vec<char>, usize), Fault>)
    requires
        i as int <= toks@.len(),
    ensures
        match (r, head_rest(binds_view(binds@), toks@, i as int, v@)) {
            (Ok((ev, eni)), Ok((sv, sni))) => ev@ == sv && eni as int == sni && i <= eni && (
            eni as int) <= toks@.len(),
            (Err(f), Err(g)) => f == g,
            _ => false,
        },
{
    let i2 = skip1_exec(toks, i);
    if i2 >= toks.len() {
        Ok((trim_chars(&v), i2))
    } else if matches!(&toks[i2], Token::ReplacementEnd) {
        Ok((trim_chars(&v), i2 + 1))
    } else if matches!(
        &toks[i2],
        Token::Add | Token::Subtract | Token::Times | Token::Divide
    ) {
        match parse_num(&v) {
            Err(f) => Err(f),
            Ok(base) => chain_exec(binds, toks, i2, base),
        }
    } else {
        Err(Fault::MalformedTemplate)
    }
}

fn head_op_exec(
    binds: &Vec<(String, String)>,
    toks: &Vec<Token>,
    i: usize,
    v: Vec<char>,
    op: &Token,
) -> (r: Result<(Vec<char>, usize), Fault>)
    requires
        i as int <= toks@.len(),
    ensures
        match (r, head_op(binds_view(binds@), toks@, i as int, v@, *op)) {
            (Ok((ev, eni)), Ok((sv, sni))) => ev@ == sv && eni as int == sni && i <= eni && (
            eni as int) <= toks@.len(),
            (Err(f), Err(g)) => f == g,
            _ => false,
        },
{
    if i >= toks.len() {
        Ok((trim_chars(&v), i))
    } else {
        match parse_num(&v) {
            Err(f) => Err(f),
            Ok(base) => match operand_exec(binds, toks, i) {
                Err(f) => Err(f),
                Ok((b, ni)) => match chain_step_exec(op, &base, &b) {
                    Err(f) => Err(f),
                    Ok(acc) => chain_exec(binds, toks, ni, acc),
                },
            },
        }
    }
}

fn replacement_exec(binds: &Vec<(String, String)>, toks: &Vec<Token>, i: usize) -> (r: Result<
    (Vec<char>, usize),
    Fault,
>)
    requires
        i as int <= toks@.len(),
    ensures
        match (r, replacement_spec(binds_view(binds@), toks@, i as int)) {
            (Ok((ev, eni)), Ok((sv, sni))) => ev@ == sv && eni as int == sni && i < eni && (
            eni as int) <= toks@.len(),
            (Err(f), Err(g)) => f == g,
            _ => false,
        },
{
    let i1 = skip1_exec(toks, i);
    if i1 >= toks.len() {
        Err(Fault::MalformedTemplate)
    } else {
        match &toks[i1] {
            Token::ReplacementEnd => {
                let empty_name = String::new();
                match lookup_exec(binds, &empty_name) {
                    None => Err(Fault::MissingVariable),
                    Some(v) => Ok((trim_chars(&v), i1 + 1)),
                }
            },
            Token::Text(w) => match lookup_exec(binds, w) {
                None => Err(Fault::MissingVariable),
                Some(v) => head_rest_exec(binds, toks, i1 + 1, v),
            },
            Token::Number(n) => {
                let nc = str_chars(n.as_str());
                head_rest_exec(binds, toks, i1 + 1, nc)
            },
            Token::Add => {
                let empty_name = String::new();
                match lookup_exec(binds, &empty_name) {
                    None => Err(Fault::MissingVariable),
                    Some(v) => head_op_exec(binds, toks, i1 + 1, v, &Token::Add),
                }
            },
            Token::Subtract => {
                let empty_name = String::new();
                match lookup_exec(binds, &empty_name) {
                    None => Err(Fault::MissingVariable),
                    Some(v) => head_op_exec(binds, toks, i1 + 1, v, &Token::Subtract),
                }
            },
            Token::Times => {
                let empty_name = String::new();
                match lookup_exec(binds, &empty_name) {
                    None => Err(Fault::MissingVariable),
                    Some(v) => head_op_exec(binds, toks, i1 + 1, v, &Token::Times),
                }
            },
            Token::Divide => {
                let empty_name = String::new();
                match lookup_exec(binds, &empty_name) {
                    None => Err(Fault::MissingVariable),
                    Some(v) => head_op_exec(binds, toks, i1 + 1, v, &Token::Divide),
                }
            },
            _ => Err(Fault::MalformedTemplate),
        }
    }
}

/// The text a plain token contributes to the rendered output.
pub open spec fn render_piece(t: Token) -> Seq<char> {
    match t {
        Token::Add => seq!['+'],
        Token::Subtract => seq!['\\', '-'],
        Token::Times => seq!['\\', '*'],
        Token::Divide => seq!['/'],
        Token::Number(x) => x@,
        Token::Text(x) => x@,
        Token::SemiColon => seq![';'],
        Token::NewLine => seq![';'],
        Token::Space => seq![' '],
        _ => Seq::empty(),
    }
}

/// The text a plain token contributes inside a full-replacement block;
/// whitespace contributes nothing there.
pub open spec fn inner_piece(t: Token) -> Seq<char> {
    match t {
        Token::Space => Seq::empty(),
        _ => render_piece(t),
    }
}

fn push_piece(out: &mut Vec<char>, t: &Token, inner: bool)
    ensures
        final(out)@ == old(out)@ + (if inner {
            inner_piece(*t)
        } else {
            render_piece(*t)
        }),
{
    let ghost o0 = out@;
    match t {
        Token::Add => out.push('+'),
        Token::Subtract => {
            out.push('\\');
            out.push('-');
        },
        Token::Times => {
            out.push('\\');
            out.push('*');
        },
        Token::Divide => out.push('/'),
        Token::Number(x) => push_str_chars(out, x.as_str()),
        Token::Text(x) => push_str_chars(out, x.as_str()),
        Token::SemiColon => out.push(';'),
        Token::NewLine => out.push(';'),
        Token::Space => if !inner {
            out.push(' ');
        },
        _ => {},
    }
    proof {
        assert(out@ =~= o0 + (if inner {
            inner_piece(*t)
        } else {
            render_piece(*t)
        }));
    }
}

/// The text of a full-replacement block, collected from just after its
/// opening token to its closing token: plain tokens contribute their text,
/// placeholder references substitute, whitespace is dropped.
pub open spec fn collect_inner(
    binds: Seq<(Seq<char>, Seq<char>)>,
    toks: Seq<Token>,
    i: int,
) -> Result<(Seq<char>, int), Fault>
    decreases toks.len() - i,
{
    if i < 0 || i >= toks.len() {
        Ok((Seq::empty(), i))
    } else if toks[i] is FullReplacementEnd {
        Ok((Seq::empty(), i + 1))
    } else if toks[i] is ReplacementStart {
        match replacement_spec(binds, toks, i + 1) {
            Err(f) => Err(f),
            Ok((v, ni0)) => {
                let ni = if i < ni0 <= toks.len() {
                    ni0
                } else {
                    i + 1
                };
                match collect_inner(binds, toks, ni) {
                    Err(f) => Err(f),
                    Ok((rest, e)) => Ok((v + rest, e)),
                }
            },
        }
    } else {
        match collect_inner(binds, toks, i + 1) {
            Err(f) => Err(f),
            Ok((rest, e)) => Ok((inner_piece(toks[i]) + rest, e)),
        }
    }
}

fn collect_inner_exec(binds: &Vec<(String, String)>, toks: &Vec<Token>, i: usize) -> (r: Result<
    (Vec<char>, usize),
    Fault,
>)
    requires
        i as int <= toks@.len(),
    ensures
        match (r, collect_inner(binds_view(binds@), toks@, i as int)) {
            (Ok((ev, eni)), Ok((sv, sni))) => ev@ == sv && eni as int == sni && i <= eni && (
            eni as int) <= toks@.len(),
            (Err(f), Err(g)) => f == g,
            _ => false,
        },
    decreases toks@.len() - i,
{
    if i >= toks.len() {
        Ok((Vec::new(), i))
    } else if matches!(&toks[i], Token::FullReplacementEnd) {
        Ok((Vec::new(), i + 1))
    } else if matches!(&toks[i], Token::ReplacementStart) {
        match replacement_exec(binds, toks, i + 1) {
            Err(f) => Err(f),
            Ok((v, ni)) => {
                match collect_inner_exec(binds, toks, ni) {
                    Err(f) => Err(f),
                    Ok((rest, e)) => {
                        let mut out = v;
                        push_chars(&mut out, &rest);
                        Ok((out, e))
                    },
                }
            },
        }
    } else {
        match collect_inner_exec(binds, toks, i + 1) {
            Err(f) => Err(f),
            Ok((rest, e)) => {
                let mut out: Vec<char> = Vec::new();
                push_piece(&mut out, &toks[i], true);
                push_chars(&mut out, &rest);
                Ok((out, e))
            },
        }
    }
}

/// The post-processing of a rendered declaration: a terminating `;` is
/// appended if missing, the result is trimmed, and incidental spacing
/// after `;` and `:` is collapsed.
pub open spec fn canonicalize_spec(s: Seq<char>) -> Seq<char> {
    collapse_spec(collapse_spec(trim_spec(ensure_semi(s)), ';'), ':')
}

/// Applies the output post-processing to a rendered declaration.
pub fn canonicalize(s: &str) -> (r: String)
    ensures
        r@ == canonicalize_spec(s@),
{
    let mut v = str_chars(s);
    let n = v.len();
    let needs_semi = n == 0 || !(v[n - 1] == ';');
    if needs_semi {
        v.push(';');
    }
    proof {
        assert(v@ =~= ensure_semi(s@));
    }
    let t = trim_chars(&v);
    let c1 = collapse_chars(&t, ';');
    let c2 = collapse_chars(&c1, ':');
    chars_to_string(&c2)
}

/// The rendering of template `toks` from index `i` under `binds`, against
/// `rules` for full-replacement blocks: `Ok(Some)` is the rendered text,
/// `Ok(None)` means a full-replacement block's text resolved to no rule,
/// and `Err` is an internal fault. `fuel` bounds full-replacement
/// recursion.
pub open spec fn render_spec(
    rules: Seq<RuleV>,
    binds: Seq<(Seq<char>, Seq<char>)>,
    toks: Seq<Token>,
    i: int,
    fuel: nat,
) -> Result<Option<Seq<char>>, Fault>
    decreases fuel, 0nat, toks.len() - i,
{
    if i < 0 || i >= toks.len() {
        Ok(Some(Seq::empty()))
    } else if toks[i] is FullReplacementStart {
        match collect_inner(binds, toks, i + 1) {
            Err(f) => Err(f),
            Ok((text, ni0)) => {
                let ni = if i < ni0 <= toks.len() {
                    ni0
                } else {
                    i + 1
                };
                if fuel == 0 {
                    Err(Fault::TooDeep)
                } else {
                    match converts_spec(rules, 0, text, (fuel - 1) as nat) {
                        Err(f) => Err(f),
                        Ok(None) => Ok(None),
                        Ok(Some(out)) => {
                            let spliced = if out.len() > 0 {
                                out.drop_last()
                            } else {
                                out
                            };
                            match render_spec(rules, binds, toks, ni, fuel) {
                                Err(f) => Err(f),
                                Ok(None) => Ok(None),
                                Ok(Some(rest)) => Ok(Some(spliced + rest)),
                            }
                        },
                    }
                }
            },
        }
    } else if toks[i] is ReplacementStart {
        match replacement_spec(binds, toks, i + 1) {
            Err(f) => Err(f),
            Ok((v, ni0)) => {
                let ni = if i < ni0 <= toks.len() {
                    ni0
                } else {
                    i + 1
                };
                match render_spec(rules, binds, toks, ni, fuel) {
                    Err(f) => Err(f),
                    Ok(None) => Ok(None),
                    Ok(Some(rest)) => Ok(Some(v + rest)),
                }
            },
        }
    } else {
        match render_spec(rules, binds, toks, i + 1, fuel) {
            Err(f) => Err(f),
            Ok(None) => Ok(None),
            Ok(Some(rest)) => Ok(Some(render_piece(toks[i]) + rest)),
        }
    }
}

/// The outcome of applying one matched rule `r` to `input`: a capture
/// count differing from the variable count is a fault; otherwise the
/// template is rendered under the bindings and the result canonicalized.
pub open spec fn rule_result(rules: Seq<RuleV>, r: RuleV, input: Seq<char>, fuel: nat) -> Result<
    Option<Seq<char>>,
    Fault,
>
    decreases fuel, 1nat, 0nat,
{
    let caps = captures_of(r.0, input)->Some_0;
    if caps.len() != r.1.len() {
        Err(Fault::CaptureMismatch)
    } else {
        match render_spec(rules, mk_binds(r.1, caps), r.2, 0, fuel) {
            Err(f) => Err(f),
            Ok(None) => Ok(None),
            Ok(Some(t)) => Ok(Some(canonicalize_spec(t))),
        }
    }
}

/// The resolution of `input` against the rules from index `i` on: the
/// first rule whose pattern matches is applied; `Ok(None)` when none
/// matches.
pub open spec fn converts_spec(rules: Seq<RuleV>, i: int, input: Seq<char>, fuel: nat) -> Result<
    Option<Seq<char>>,
    Fault,
>
    decreases fuel, 1nat, rules.len() - i + 1,
{
    if i < 0 || i >= rules.len() {
        Ok(None)
    } else {
        match captures_of(rules[i].0, input) {
            None => converts_spec(rules, i + 1, input, fuel),
            Some(_) => rule_result(rules, rules[i], input, fuel),
        }
    }
}

fn render_exec(
    rules: &Vec<(Name, Vec<Token>)>,
    binds: &Vec<(String, String)>,
    toks: &Vec<Token>,
    i: usize,
    fuel: u32,
) -> (r: Result<Option<Vec<char>>, Fault>)
    requires
        i as int <= toks@.len(),
    ensures
        match (r, render_spec(rules_view(rules@), binds_view(binds@), toks@, i as int,
        fuel as nat)) {
            (Ok(Some(ev)), Ok(Some(sv))) => ev@ == sv,
            (Ok(None), Ok(None)) => true,
            (Err(f), Err(g)) => f == g,
            _ => false,
        },
    decreases fuel, 0int, toks@.len() - i,
{
    if i >= toks.len() {
        Ok(Some(Vec::new()))
    } else if matches!(&toks[i], Token::FullReplacementStart) {
        match collect_inner_exec(binds, toks, i + 1) {
            Err(f) => Err(f),
            Ok((text, ni)) => {
                if fuel == 0 {
                    Err(Fault::TooDeep)
                } else {
                    let inner_input = chars_to_string(&text);
                    match converts_fueled(rules, 0, inner_input.as_str(), fuel - 1) {
                        Err(f) => Err(f),
                        Ok(None) => Ok(None),
                        Ok(Some(out)) => {
                            let mut spliced = str_chars(out.as_str());
                            if spliced.len() > 0 {
                                spliced.pop();
                            }
                            match render_exec(rules, binds, toks, ni, fuel) {
                                Err(f) => Err(f),
                                Ok(None) => Ok(None),
                                Ok(Some(rest)) => {
                                    let mut o = spliced;
                                    push_chars(&mut o, &rest);
                                    Ok(Some(o))
                                },
                            }
                        },
                    }
                }
            },
        }
    } else if matches!(&toks[i], Token::ReplacementStart) {
        match replacement_exec(binds, toks, i + 1) {
            Err(f) => Err(f),
            Ok((v, ni)) => {
                match render_exec(rules, binds, toks, ni, fuel) {
                    Err(f) => Err(f),
                    Ok(None) => Ok(None),
                    Ok(Some(rest)) => {
                        let mut o = v;
                        push_chars(&mut o, &rest);
                        Ok(Some(o))
                    },
                }
            },
        }
    } else {
        match render_exec(rules, binds, toks, i + 1, fuel) {
            Err(f) => Err(f),
            Ok(None) => Ok(None),
            Ok(Some(rest)) => {
                let mut o: Vec<char> = Vec::new();
                push_piece(&mut o, &toks[i], false);
                push_chars(&mut o, &rest);
                Ok(Some(o))
            },
        }
    }
}

fn converts_fueled(rules: &Vec<(Name, Vec<Token>)>, i: usize, input: &str, fuel: u32) -> (r:
    Result<Option<String>, Fault>)
    requires
        i as int <= rules@.len(),
    ensures
        match (r, converts_spec(rules_view(rules@), i as int, input@, fuel as nat)) {
            (Ok(Some(ev)), Ok(Some(sv))) => ev@ == sv,
            (Ok(None), Ok(None)) => true,
            (Err(f), Err(g)) => f == g,
            _ => false,
        },
    decreases fuel, 1int, rules@.len() - i + 1,
{
    if i >= rules.len() {
        Ok(None)
    } else {
        match regex_captures(rules[i].0.regex.as_str(), input) {
            None => converts_fueled(rules, i + 1, input, fuel),
            Some(caps) => {
                proof {
                    assert(rules_view(rules@)[i as int] == crate::parse::rule_view(
                        rules@[i as int],
                    ));
                    assert(crate::parse::strs_view(caps@) =~~= captures_of(
                        rules@[i as int].0.regex@,
                        input@,
                    )->Some_0);
                    assert(crate::parse::strs_view(rules@[i as int].0.variables@).len()
                        == rules@[i as int].0.variables@.len());
                }
                proof {
                    let rv = rules_view(rules@);
                    assert(converts_spec(rv, i as int, input@, fuel as nat) == rule_result(
                        rv,
                        rv[i as int],
                        input@,
                        fuel as nat,
                    ));
                }
                if caps.len() != rules[i].0.variables.len() {
                    Err(Fault::CaptureMismatch)
                } else {
                    let binds = make_binds(&rules[i].0.variables, &caps);
                    proof {
                        let rv = rules_view(rules@);
                        assert(crate::parse::strs_view(caps@) == captures_of(
                            rv[i as int].0,
                            input@,
                        )->Some_0);
                        assert(binds_view(binds@) == mk_binds(
                            rv[i as int].1,
                            captures_of(rv[i as int].0, input@)->Some_0,
                        ));
                    }
                    match render_exec(rules, &binds, &rules[i].1, 0, fuel) {
                        Err(f) => Err(f),
                        Ok(None) => Ok(None),
                        Ok(Some(t)) => {
                            let ts = chars_to_string(&t);
                            Ok(Some(canonicalize(ts.as_str())))
                        },
                    }
                }
            },
        }
    }
}

/// Resolves `input` against the compiled rules, in order, first match
/// wins: `Ok(None)` when no rule matches, the rendered and canonicalized
/// declaration when one does, and a typed fault when a matched rule's
/// template violates the interpreter's contract. Full-replacement
/// recursion is limited to a depth of 64.
pub fn converts(rules: &Vec<(Name, Vec<Token>)>, input: &str) -> (r: Result<Option<String>, Fault>)
    ensures
        match (r, converts_spec(rules_view(rules@), 0, input@, 64)) {
            (Ok(Some(ev)), Ok(Some(sv))) => ev@ == sv,
            (Ok(None), Ok(None)) => true,
            (Err(f), Err(g)) => f == g,
            _ => false,
        },
{
    converts_fueled(rules, 0, input, 64)
}

/// The index of the first rule whose pattern matches `input`, at or after
/// `i`, or the number of rules when none does.
pub open spec fn first_match(rules: Seq<RuleV>, input: Seq<char>, i: int) -> int
    decreases rules.len() - i,
{
    if i < 0 || i >= rules.len() {
        rules.len() as int
    } else if captures_of(rules[i].0, input) is Some {
        i
    } else {
        first_match(rules, input, i + 1)
    }
}

proof fn lemma_first_match_props(rules: Seq<RuleV>, input: Seq<char>, i: int)
    requires
        0 <= i <= rules.len(),
    ensures
        i <= first_match(rules, input, i) <= rules.len(),
        first_match(rules, input, i) < rules.len() ==> captures_of(
            rules[first_match(rules, input, i)].0,
            input,
        ) is Some,
        forall|k: int|
            i <= k < first_match(rules, input, i) ==> captures_of(
                (#[trigger] rules[k]).0,
                input,
            ) is None,
    decreases rules.len() - i,
{
    if i < rules.len() && !(captures_of(rules[i].0, input) is Some) {
        lemma_first_match_props(rules, input, i + 1);
    }
}

proof fn lemma_converts_reaches(rules: Seq<RuleV>, input: Seq<char>, fuel: nat, j: int, i: int)
    requires
        0 <= j <= i < rules.len(),
        captures_of(rules[i].0, input) is Some,
        forall|k: int| j <= k < i ==> captures_of((#[trigger] rules[k]).0, input) is None,
    ensures
        converts_spec(rules, j, input, fuel) == rule_result(rules, rules[i], input, fuel),
    decreases i - j,
{
    if j < i {
        lemma_converts_reaches(rules, input, fuel, j + 1, i);
    }
}

/// First-match-wins: when the rule at `i` is the first whose pattern
/// matches the candidate, resolution is exactly the application of that
/// rule; the rules after it play no part in the selection.
pub proof fn lemma_first_match_wins(rules: Seq<RuleV>, input: Seq<char>, fuel: nat, i: int)
    requires
        0 <= i < rules.len(),
        captures_of(rules[i].0, input) is Some,
        forall|k: int| 0 <= k < i ==> captures_of((#[trigger] rules[k]).0, input) is None,
    ensures
        converts_spec(rules, 0, input, fuel) == rule_result(rules, rules[i], input, fuel),
{
    lemma_converts_reaches(rules, input, fuel, 0, i);
}

/// Whether a template holds no full-replacement block, so that its
/// rendering does not depend on the rule list.
pub open spec fn no_full_replacement(toks: Seq<Token>) -> bool {
    forall|k: int| 0 <= k < toks.len() ==> !((#[trigger] toks[k]) is FullReplacementStart)
}

proof fn lemma_render_rules_independent(
    rules1: Seq<RuleV>,
    rules2: Seq<RuleV>,
    binds: Seq<(Seq<char>, Seq<char>)>,
    toks: Seq<Token>,
    i: int,
    fuel: nat,
)
    requires
        no_full_replacement(toks),
    ensures
        render_spec(rules1, binds, toks, i, fuel) == render_spec(rules2, binds, toks, i, fuel),
    decreases toks.len() - i,
{
    if 0 <= i < toks.len() {
        if toks[i] is ReplacementStart {
            match replacement_spec(binds, toks, i + 1) {
                Ok((v, ni0)) => {
                    let ni = if i < ni0 <= toks.len() {
                        ni0
                    } else {
                        i + 1
                    };
                    lemma_render_rules_independent(rules1, rules2, binds, toks, ni, fuel);
                },
                Err(_) => {},
            }
        } else {
            lemma_render_rules_independent(rules1, rules2, binds, toks, i + 1, fuel);
        }
    }
}

proof fn lemma_first_match_concat(a: Seq<RuleV>, b: Seq<RuleV>, input: Seq<char>, j: int)
    requires
        0 <= j <= a.len(),
        first_match(a, input, j) < a.len(),
    ensures
        first_match(a + b, input, j) == first_match(a, input, j),
    decreases a.len() - j,
{
    assert((a + b)[j] == a[j]);
    if j < a.len() && !(captures_of(a[j].0, input) is Some) {
        lemma_first_match_concat(a, b, input, j + 1);
    }
}

/// Priority merge: against a candidate that some rule of `a` matches, the
/// merged rule set `a + b` selects exactly the rule `a` alone would
/// select, and, when that rule's template holds no full-replacement
/// block, resolves to exactly what `a` alone resolves to. (With a
/// full-replacement block the selected rule is still `a`'s, but the
/// block's inner candidate may itself resolve through `b`.)
pub proof fn lemma_priority_merge(a: Seq<RuleV>, b: Seq<RuleV>, input: Seq<char>, fuel: nat)
    requires
        first_match(a, input, 0) < a.len(),
        no_full_replacement(a[first_match(a, input, 0)].2),
    ensures
        first_match(a + b, input, 0) == first_match(a, input, 0),
        converts_spec(a + b, 0, input, fuel) == converts_spec(a, 0, input, fuel),
{
    let i = first_match(a, input, 0);
    lemma_first_match_props(a, input, 0);
    lemma_first_match_concat(a, b, input, 0);
    assert((a + b)[i] == a[i]);
    assert forall|k: int| 0 <= k < i implies captures_of(
        (#[trigger] (a + b)[k]).0,
        input,
    ) is None by {
        assert((a + b)[k] == a[k]);
    }
    lemma_first_match_wins(a, input, fuel, i);
    lemma_first_match_wins(a + b, input, fuel, i);
    let r = a[i];
    match captures_of(r.0, input) {
        Some(caps) => {
            if caps.len() == r.1.len() {
                lemma_render_rules_independent(a + b, a, mk_binds(r.1, caps), r.2, 0, fuel);
            }
        },
        None => {},
    }
}

/// A declaration already in canonical form: non-empty, ending with `;`,
/// not starting with whitespace, and with no space after any `;` or `:`.
pub open spec fn is_canonical(s: Seq<char>) -> bool {
    s.len() > 0 && s[s.len() - 1] == ';' && !crate::strutil::is_space_char(s[0]) && (forall|
        k: int,
    |
        0 <= k < s.len() - 1 ==> !((#[trigger] s[k]) == ';' && s[k + 1] == ' ')) && (forall|k: int|
        0 <= k < s.len() - 1 ==> !((#[trigger] s[k]) == ':' && s[k + 1] == ' '))
}

/// Post-processing is idempotent on canonical strings: applied to an
/// already-canonical string it changes nothing, so applying it twice
/// yields the same string as applying it once.
pub proof fn lemma_canonicalize_idempotent(s: Seq<char>)
    requires
        is_canonical(s),
    ensures
        canonicalize_spec(s) == s,
        canonicalize_spec(canonicalize_spec(s)) == canonicalize_spec(s),
{
    assert(ensure_semi(s) == s);
    assert(crate::strutil::skip_spaces_fwd(s, 0) == 0);
    assert(crate::strutil::skip_spaces_back(s, s.len() as int) == s.len() as int);
    assert(trim_spec(s) =~= s);
    crate::strutil::lemma_collapse_no_pair(s, ';', 0, Seq::empty());
    assert(collapse_spec(s, ';') =~= s);
    crate::strutil::lemma_collapse_no_pair(s, ':', 0, Seq::empty());
    assert(collapse_spec(s, ':') =~= s);
}

/// Arithmetic chains fold left to right: in a chain of two operations the
/// first operator is applied to the base and the first operand, and the
/// second operator to that intermediate result, with no operator
/// precedence.
pub proof fn lemma_chain_left_fold(
    binds: Seq<(Seq<char>, Seq<char>)>,
    n1: String,
    n2: String,
    op1: Token,
    op2: Token,
    acc: Num,
    v1: Num,
    v2: Num,
    out: Num,
)
    requires
        is_op(op1),
        is_op(op2),
        parse_num_spec(n1@) == Ok::<Num, Fault>(v1),
        parse_num_spec(n2@) == Ok::<Num, Fault>(v2),
        chain_step(op1, acc, v1) is Ok,
        chain_step(op2, chain_step(op1, acc, v1)->Ok_0, v2) == Ok::<Num, Fault>(out),
    ensures
        chain_spec(
            binds,
            seq![op1, Token::Number(n1), op2, Token::Number(n2), Token::ReplacementEnd],
            0,
            acc,
        ) == match render_num_spec(out) {
            Ok(s) => Ok::<(Seq<char>, int), Fault>((s, 5)),
            Err(f) => Err::<(Seq<char>, int), Fault>(f),
        },
{
    let toks = seq![op1, Token::Number(n1), op2, Token::Number(n2), Token::ReplacementEnd];
    reveal_with_fuel(chain_spec, 4);
    assert(!(toks[0] is Space) && !(toks[1] is Space) && !(toks[2] is Space) && !(toks[3]
        is Space) && !(toks[4] is Space));
    let mid = chain_step(op1, acc, v1)->Ok_0;
    assert(operand_at(binds, toks, 1) == Ok::<(Num, int), Fault>((v1, 2)));
    assert(operand_at(binds, toks, 3) == Ok::<(Num, int), Fault>((v2, 4)));
    assert(chain_spec(binds, toks, 4, out) == (match render_num_spec(out) {
        Ok(s) => Ok::<(Seq<char>, int), Fault>((s, 5)),
        Err(f) => Err::<(Seq<char>, int), Fault>(f),
    }));
    assert(chain_spec(binds, toks, 2, mid) == chain_spec(binds, toks, 4, out));
    assert(chain_spec(binds, toks, 0, acc) == chain_spec(binds, toks, 2, mid));
}


} // verus!
