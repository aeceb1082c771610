//! Exact decimal arithmetic for placeholder chains.
//!
//! Captured values taking part in arithmetic are parsed as decimal numbers
//! and held as exact rationals. Every operation either returns the exact
//! result or reports a fault: leaving the representable range, dividing by
//! zero, or producing a value with no finite decimal rendering.

use vstd::prelude::*;
use crate::error::Fault;

verus! {

/// A rational number `n / d` with `d > 0`.
pub struct Num {
    pub n: i128,
    pub d: i128,
}

pub open spec fn num_wf(x: Num) -> bool {
    x.d > 0
}

pub open spec fn in_i128(x: int) -> bool {
    i128::MIN <= x <= i128::MAX
}

/// The exact sum `a + b`, or an overflow fault.
pub open spec fn add_spec(a: Num, b: Num) -> Result<Num, Fault> {
    let x = a.n as int * b.d as int;
    let y = b.n as int * a.d as int;
    let nd = a.d as int * b.d as int;
    if !in_i128(x) || !in_i128(y) || !in_i128(x + y) || !in_i128(nd) {
        Err(Fault::Overflow)
    } else {
        Ok(Num { n: (x + y) as i128, d: nd as i128 })
    }
}

/// The exact difference `a - b`, or an overflow fault.
pub open spec fn sub_spec(a: Num, b: Num) -> Result<Num, Fault> {
    if b.n == i128::MIN {
        Err(Fault::Overflow)
    } else {
        add_spec(a, Num { n: (-b.n) as i128, d: b.d })
    }
}

/// The exact product `a * b`, or an overflow fault.
pub open spec fn mul_spec(a: Num, b: Num) -> Result<Num, Fault> {
    let x = a.n as int * b.n as int;
    let nd = a.d as int * b.d as int;
    if !in_i128(x) || !in_i128(nd) {
        Err(Fault::Overflow)
    } else {
        Ok(Num { n: x as i128, d: nd as i128 })
    }
}

/// The exact quotient `a / b`, a divide-by-zero fault, or an overflow fault.
pub open spec fn div_spec(a: Num, b: Num) -> Result<Num, Fault> {
    if b.n == 0 {
        Err(Fault::DivideByZero)
    } else {
        let x = a.n as int * b.d as int;
        let nd = a.d as int * b.n as int;
        if !in_i128(x) || !in_i128(nd) {
            Err(Fault::Overflow)
        } else if b.n > 0 {
            Ok(Num { n: x as i128, d: nd as i128 })
        } else if !in_i128(-x) || !in_i128(-nd) {
            Err(Fault::Overflow)
        } else {
            Ok(Num { n: (-x) as i128, d: (-nd) as i128 })
        }
    }
}

pub fn num_add(a: &Num, b: &Num) -> (r: Result<Num, Fault>)
    requires
        num_wf(*a),
        num_wf(*b),
    ensures
        r == add_spec(*a, *b),
        r is Ok ==> num_wf(r->Ok_0),
{
    match (a.n.checked_mul(b.d), b.n.checked_mul(a.d), a.d.checked_mul(b.d)) {
        (Some(x), Some(y), Some(nd)) => match x.checked_add(y) {
            Some(s) => {
                proof {
                    assert(a.d as int * b.d as int > 0) by (nonlinear_arith)
                        requires
                            a.d > 0,
                            b.d > 0;
                }
                Ok(Num { n: s, d: nd })
            },
            None => Err(Fault::Overflow),
        },
        _ => Err(Fault::Overflow),
    }
}

pub fn num_sub(a: &Num, b: &Num) -> (r: Result<Num, Fault>)
    requires
        num_wf(*a),
        num_wf(*b),
    ensures
        r == sub_spec(*a, *b),
        r is Ok ==> num_wf(r->Ok_0),
{
    if b.n == i128::MIN {
        Err(Fault::Overflow)
    } else {
        num_add(a, &Num { n: -b.n, d: b.d })
    }
}

pub fn num_mul(a: &Num, b: &Num) -> (r: Result<Num, Fault>)
    requires
        num_wf(*a),
        num_wf(*b),
    ensures
        r == mul_spec(*a, *b),
        r is Ok ==> num_wf(r->Ok_0),
{
    match (a.n.checked_mul(b.n), a.d.checked_mul(b.d)) {
        (Some(x), Some(nd)) => {
            proof {
                assert(a.d as int * b.d as int > 0) by (nonlinear_arith)
                    requires
                        a.d > 0,
                        b.d > 0;
            }
            Ok(Num { n: x, d: nd })
        },
        _ => Err(Fault::Overflow),
    }
}

pub fn num_div(a: &Num, b: &Num) -> (r: Result<Num, Fault>)
    requires
        num_wf(*a),
        num_wf(*b),
    ensures
        r == div_spec(*a, *b),
        r is Ok ==> num_wf(r->Ok_0),
{
    if b.n == 0 {
        Err(Fault::DivideByZero)
    } else {
        match (a.n.checked_mul(b.d), a.d.checked_mul(b.n)) {
            (Some(x), Some(nd)) => {
                proof {
                    assert((a.d > 0 && b.n > 0 ==> a.d as int * b.n as int > 0) && (a.d > 0
                        && b.n < 0 ==> (a.d as int * b.n as int) < 0)) by (nonlinear_arith);
                }
                if b.n > 0 {
                    Ok(Num { n: x, d: nd })
                } else {
                    if x == i128::MIN || nd == i128::MIN {
                        Err(Fault::Overflow)
                    } else {
                        Ok(Num { n: -x, d: -nd })
                    }
                }
            },
            _ => Err(Fault::Overflow),
        }
    }
}

/// The numeric value of a decimal digit character, or -1.
pub open spec fn digit_of(c: char) -> int {
    if c == '0' {
        0
    } else if c == '1' {
        1
    } else if c == '2' {
        2
    } else if c == '3' {
        3
    } else if c == '4' {
        4
    } else if c == '5' {
        5
    } else if c == '6' {
        6
    } else if c == '7' {
        7
    } else if c == '8' {
        8
    } else if c == '9' {
        9
    } else {
        -1
    }
}

pub open spec fn is_digit(c: char) -> bool {
    digit_of(c) >= 0
}

/// The digit character for a value 0 to 9.
pub open spec fn digit_char(k: int) -> char {
    if k == 0 {
        '0'
    } else if k == 1 {
        '1'
    } else if k == 2 {
        '2'
    } else if k == 3 {
        '3'
    } else if k == 4 {
        '4'
    } else if k == 5 {
        '5'
    } else if k == 6 {
        '6'
    } else if k == 7 {
        '7'
    } else if k == 8 {
        '8'
    } else if k == 9 {
        '9'
    } else {
        '?'
    }
}

fn digit_value(c: char) -> (r: i128)
    ensures
        r == digit_of(c),
{
    if c == '0' {
        0
    } else if c == '1' {
        1
    } else if c == '2' {
        2
    } else if c == '3' {
        3
    } else if c == '4' {
        4
    } else if c == '5' {
        5
    } else if c == '6' {
        6
    } else if c == '7' {
        7
    } else if c == '8' {
        8
    } else if c == '9' {
        9
    } else {
        -1
    }
}

fn digit_to_char(k: i128) -> (r: char)
    ensures
        r == digit_char(k as int),
{
    if k == 0 {
        '0'
    } else if k == 1 {
        '1'
    } else if k == 2 {
        '2'
    } else if k == 3 {
        '3'
    } else if k == 4 {
        '4'
    } else if k == 5 {
        '5'
    } else if k == 6 {
        '6'
    } else if k == 7 {
        '7'
    } else if k == 8 {
        '8'
    } else if k == 9 {
        '9'
    } else {
        '?'
    }
}

pub open spec fn pow10(k: int) -> int
    decreases k,
{
    if k <= 0 {
        1
    } else {
        10 * pow10(k - 1)
    }
}

proof fn lemma_pow10_pos(k: int)
    ensures
        pow10(k) >= 1,
    decreases k,
{
    if k > 0 {
        lemma_pow10_pos(k - 1);
    }
}

proof fn lemma_pow10_mono(k1: int, k2: int)
    requires
        k1 <= k2,
    ensures
        pow10(k1) <= pow10(k2),
    decreases k2,
{
    if k2 > 0 && k1 < k2 {
        lemma_pow10_mono(k1, k2 - 1);
        lemma_pow10_pos(k2 - 1);
    }
}

/// The digit/point scan of a decimal literal: accumulates the digits' value
/// and the count of digits after the point.
pub open spec fn scan_digits(
    s: Seq<char>,
    i: int,
    acc: int,
    fd: int,
    seen_point: bool,
    seen_digit: bool,
) -> Result<(int, int), Fault>
    decreases s.len() - i,
{
    if i < 0 || i >= s.len() {
        if !seen_digit {
            Err(Fault::NonNumeric)
        } else {
            Ok((acc, fd))
        }
    } else if is_digit(s[i]) {
        let a2 = acc * 10 + digit_of(s[i]);
        if !in_i128(a2) {
            Err(Fault::Overflow)
        } else {
            scan_digits(s, i + 1, a2, if seen_point {
                fd + 1
            } else {
                fd
            }, seen_point, true)
        }
    } else if s[i] == '.' {
        if seen_point {
            Err(Fault::NonNumeric)
        } else {
            scan_digits(s, i + 1, acc, fd, true, seen_digit)
        }
    } else {
        Err(Fault::NonNumeric)
    }
}

/// The exact rational value of a decimal literal: an optional sign, digits,
/// and at most one point. Anything else is a fault.
pub open spec fn parse_num_spec(s: Seq<char>) -> Result<Num, Fault> {
    let start: int = if s.len() > 0 && (s[0] == '-' || s[0] == '+') {
        1
    } else {
        0
    };
    let neg = s.len() > 0 && s[0] == '-';
    match scan_digits(s, start, 0, 0, false, false) {
        Err(f) => Err(f),
        Ok((acc, fd)) => if !in_i128(pow10(fd)) {
            Err(Fault::Overflow)
        } else {
            Ok(
                Num {
                    n: if neg {
                        (-acc) as i128
                    } else {
                        acc as i128
                    },
                    d: pow10(fd) as i128,
                },
            )
        },
    }
}

/// Parses a decimal literal to its exact rational value.
pub fn parse_num(s: &Vec<char>) -> (r: Result<Num, Fault>)
    ensures
        r == parse_num_spec(s@),
        r is Ok ==> num_wf(r->Ok_0),
{
    let n = s.len();
    let mut i: usize = 0;
    let mut neg = false;
    if n > 0 && s[0] == '-' {
        neg = true;
        i = 1;
    } else if n > 0 && s[0] == '+' {
        i = 1;
    }
    let ghost start = i as int;
    let mut acc: i128 = 0;
    let mut fd: usize = 0;
    let mut seen_point = false;
    let mut seen_digit = false;
    while i < n
        invariant
            n == s@.len(),
            start <= i as int <= n,
            acc >= 0,
            fd <= i,
            start == (if s@.len() > 0 && (s@[0] == '-' || s@[0] == '+') {
                1int
            } else {
                0int
            }),
            neg == (s@.len() > 0 && s@[0] == '-'),
            scan_digits(s@, start, 0, 0, false, false) == scan_digits(
                s@,
                i as int,
                acc as int,
                fd as int,
                seen_point,
                seen_digit,
            ),
        decreases n - i,
    {
        let c = s[i];
        let dv = digit_value(c);
        if dv >= 0 {
            let a1 = match acc.checked_mul(10) {
                Some(a1) => a1,
                None => {
                    proof {
                        assert(acc as int * 10 + digit_of(c) > i128::MAX);
                        assert(scan_digits(s@, i as int, acc as int, fd as int, seen_point,
                            seen_digit) == Err::<(int, int), Fault>(Fault::Overflow));
                    }
                    return Err(Fault::Overflow);
                },
            };
            let a2 = match a1.checked_add(dv) {
                Some(a2) => a2,
                None => {
                    proof {
                        assert(scan_digits(s@, i as int, acc as int, fd as int, seen_point,
                            seen_digit) == Err::<(int, int), Fault>(Fault::Overflow));
                    }
                    return Err(Fault::Overflow);
                },
            };
            acc = a2;
            if seen_point {
                fd = fd + 1;
            }
            seen_digit = true;
        } else if c == '.' {
            if seen_point {
                proof {
                    assert(scan_digits(s@, i as int, acc as int, fd as int, seen_point,
                        seen_digit) == Err::<(int, int), Fault>(Fault::NonNumeric));
                }
                return Err(Fault::NonNumeric);
            }
            seen_point = true;
        } else {
            proof {
                assert(scan_digits(s@, i as int, acc as int, fd as int, seen_point, seen_digit)
                    == Err::<(int, int), Fault>(Fault::NonNumeric));
            }
            return Err(Fault::NonNumeric);
        }
        i = i + 1;
    }
    proof {
        assert(scan_digits(s@, i as int, acc as int, fd as int, seen_point, seen_digit)
            == (if !seen_digit {
                Err::<(int, int), Fault>(Fault::NonNumeric)
            } else {
                Ok::<(int, int), Fault>((acc as int, fd as int))
            }));
    }
    if !seen_digit {
        return Err(Fault::NonNumeric);
    }
    // compute 10^fd with overflow checking
    let mut den: i128 = 1;
    let mut k: usize = 0;
    while k < fd
        invariant
            k <= fd,
            den == pow10(k as int),
            den >= 1,
            acc >= 0,
            neg == (s@.len() > 0 && s@[0] == '-'),
            scan_digits(s@, start, 0, 0, false, false) == Ok::<(int, int), Fault>(
                (acc as int, fd as int),
            ),
            start == (if s@.len() > 0 && (s@[0] == '-' || s@[0] == '+') {
                1int
            } else {
                0int
            }),
        decreases fd - k,
    {
        den = match den.checked_mul(10) {
            Some(d) => d,
            None => {
                proof {
                    lemma_pow10_mono(k as int + 1, fd as int);
                    lemma_pow10_pos(k as int);
                }
                return Err(Fault::Overflow);
            },
        };
        k = k + 1;
    }
    let nn: i128 = if neg {
        -acc
    } else {
        acc
    };
    Ok(Num { n: nn, d: den })
}

/// The decimal digits of a non-negative integer.
pub open spec fn dec_of(q: int) -> Seq<char>
    decreases q,
{
    if q < 10 {
        seq![digit_char(q)]
    } else {
        dec_of(q / 10).push(digit_char(q % 10))
    }
}

fn dec_digits(q: i128) -> (r: Vec<char>)
    requires
        q >= 0,
    ensures
        r@ == dec_of(q as int),
    decreases q,
{
    if q < 10 {
        let mut v: Vec<char> = Vec::new();
        v.push(digit_to_char(q));
        proof {
            assert(v@ =~= seq![digit_char(q as int)]);
        }
        v
    } else {
        let mut v = dec_digits(q / 10);
        v.push(digit_to_char(q % 10));
        v
    }
}

/// The fraction digits of `r / d` by long division; empty once the
/// remainder is zero, a fault if the expansion does not terminate within
/// `fuel` digits or an intermediate product overflows.
pub open spec fn frac_digits_spec(r: int, d: int, fuel: nat) -> Result<Seq<char>, Fault>
    decreases fuel,
{
    if r == 0 {
        Ok(Seq::empty())
    } else if fuel == 0 {
        Err(Fault::Inexact)
    } else if !in_i128(r * 10) {
        Err(Fault::Overflow)
    } else {
        match frac_digits_spec((r * 10) % d, d, (fuel - 1) as nat) {
            Err(f) => Err(f),
            Ok(rest) => Ok(seq![digit_char((r * 10) / d)] + rest),
        }
    }
}

fn frac_digits(r: i128, d: i128, fuel: u32) -> (res: Result<Vec<char>, Fault>)
    requires
        0 <= r < d,
    ensures
        match (res, frac_digits_spec(r as int, d as int, fuel as nat)) {
            (Ok(v), Ok(s)) => v@ == s,
            (Err(f), Err(g)) => f == g,
            _ => false,
        },
    decreases fuel,
{
    if r == 0 {
        Ok(Vec::new())
    } else if fuel == 0 {
        Err(Fault::Inexact)
    } else {
        match r.checked_mul(10) {
            None => Err(Fault::Overflow),
            Some(r10) => {
                let digit = digit_to_char(r10 / d);
                let rem = r10 % d;
                proof {
                    assert(0 <= (r10 as int) % (d as int) < d as int) by (nonlinear_arith)
                        requires
                            d > 0,
                            r10 >= 0;
                }
                match frac_digits(rem, d, fuel - 1) {
                    Err(f) => Err(f),
                    Ok(rest) => {
                        let mut v: Vec<char> = Vec::new();
                        v.push(digit);
                        let mut vv = v;
                        crate::strutil::push_chars(&mut vv, &rest);
                        proof {
                            assert(vv@ =~= seq![digit_char((r as int * 10) / (d as int))]
                                + rest@);
                        }
                        Ok(vv)
                    },
                }
            },
        }
    }
}

/// The decimal rendering of an exact rational: integer digits, and fraction
/// digits exactly until the remainder is exhausted, with 160 fraction
/// digits allowed before the expansion is reported as having no finite
/// decimal form.
pub open spec fn render_num_spec(x: Num) -> Result<Seq<char>, Fault> {
    if x.n == 0 {
        Ok(seq!['0'])
    } else if x.n == i128::MIN {
        Err(Fault::Overflow)
    } else {
        let a = if x.n < 0 {
            -x.n as int
        } else {
            x.n as int
        };
        let q = a / x.d as int;
        let r = a % x.d as int;
        match frac_digits_spec(r, x.d as int, 160) {
            Err(f) => Err(f),
            Ok(f) => {
                let body = if f.len() == 0 {
                    dec_of(q)
                } else {
                    dec_of(q) + seq!['.'] + f
                };
                Ok(
                    if x.n < 0 {
                        seq!['-'] + body
                    } else {
                        body
                    },
                )
            },
        }
    }
}

/// Renders an exact rational to its decimal form.
pub fn render_num(x: &Num) -> (res: Result<Vec<char>, Fault>)
    requires
        num_wf(*x),
    ensures
        match (res, render_num_spec(*x)) {
            (Ok(v), Ok(s)) => v@ == s,
            (Err(f), Err(g)) => f == g,
            _ => false,
        },
{
    if x.n == 0 {
        let mut v: Vec<char> = Vec::new();
        v.push('0');
        proof {
            assert(v@ =~= seq!['0']);
        }
        Ok(v)
    } else if x.n == i128::MIN {
        Err(Fault::Overflow)
    } else {
        let a: i128 = if x.n < 0 {
            -x.n
        } else {
            x.n
        };
        let q = a / x.d;
        let r = a % x.d;
        proof {
            assert(0 <= (a as int) % (x.d as int) < x.d as int) by (nonlinear_arith)
                requires
                    x.d > 0,
                    a >= 0;
        }
        match frac_digits(r, x.d, 160) {
            Err(f) => Err(f),
            Ok(frac) => {
                proof {
                    assert(a as int / x.d as int >= 0) by (nonlinear_arith)
                        requires
                            x.d > 0,
                            a >= 0;
                }
                let mut out: Vec<char> = Vec::new();
                if x.n < 0 {
                    out.push('-');
                }
                let digs = dec_digits(q);
                crate::strutil::push_chars(&mut out, &digs);
                if frac.len() > 0 {
                    out.push('.');
                    crate::strutil::push_chars(&mut out, &frac);
                    proof {
                        if x.n < 0 {
                            assert(out@ =~= seq!['-'] + (dec_of(a as int / x.d as int)
                                + seq!['.'] + frac@));
                        } else {
                            assert(out@ =~= dec_of(a as int / x.d as int) + seq!['.'] + frac@);
                        }
                    }
                } else {
                    proof {
                        if x.n < 0 {
                            assert(out@ =~= seq!['-'] + dec_of(a as int / x.d as int));
                        } else {
                            assert(out@ =~= dec_of(a as int / x.d as int));
                        }
                    }
                }
                Ok(out)
            },
        }
    }
}

} // verus!
