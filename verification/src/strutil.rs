//! Character-level string utilities shared by the compiler and interpreter.
//!
//! Strings are processed as `Vec<char>`, whose view matches the
//! `Seq<char>` view of `str`, so every transformation here has an exact
//! specification over sequences of characters.

use vstd::prelude::*;
use vstd::string::*;

verus! {

/// The whitespace characters recognised by trimming and rendering.
pub open spec fn is_space_char(c: char) -> bool {
    c == ' ' || c == '\t' || c == '\n' || c == '\r'
}

pub fn is_space(c: char) -> (r: bool)
    ensures
        r == is_space_char(c),
{
    c == ' ' || c == '\t' || c == '\n' || c == '\r'
}

/// The characters of `s`, in order.
pub fn str_chars(s: &str) -> (r: Vec<char>)
    ensures
        r@ == s@,
{
    let n = s.unicode_len();
    let mut v: Vec<char> = Vec::new();
    let mut i: usize = 0;
    while i < n
        invariant
            n == s@.len(),
            i <= n,
            v@ == s@.subrange(0, i as int),
        decreases n - i,
    {
        let c = s.get_char(i);
        v.push(c);
        i = i + 1;
        proof {
            assert(v@ =~= s@.subrange(0, i as int));
        }
    }
    proof {
        assert(v@ =~= s@);
    }
    v
}

/// Relies on std's `FromIterator` impl for `String`: collecting an iterator
/// of characters yields the string of exactly those characters in order.
#[verifier::external_body]
pub fn chars_to_string(v: &Vec<char>) -> (r: String)
    ensures
        r@ == v@,
{
    v.iter().collect()
}

/// Appends all characters of `src` to `dst`.
pub fn push_chars(dst: &mut Vec<char>, src: &Vec<char>)
    ensures
        final(dst)@ == old(dst)@ + src@,
{
    let mut i: usize = 0;
    while i < src.len()
        invariant
            i <= src@.len(),
            dst@ == old(dst)@ + src@.subrange(0, i as int),
        decreases src@.len() - i,
    {
        dst.push(src[i]);
        i = i + 1;
        proof {
            assert(dst@ =~= old(dst)@ + src@.subrange(0, i as int));
        }
    }
    proof {
        assert(dst@ =~= old(dst)@ + src@);
    }
}

/// Appends the characters of `s` to `dst`.
pub fn push_str_chars(dst: &mut Vec<char>, s: &str)
    ensures
        final(dst)@ == old(dst)@ + s@,
{
    let v = str_chars(s);
    push_chars(dst, &v);
}

/// The first index at or after `i` holding a non-space character, or the
/// length of `s` if there is none.
pub open spec fn skip_spaces_fwd(s: Seq<char>, i: int) -> int
    decreases s.len() - i,
{
    if i < 0 || i >= s.len() {
        i
    } else if is_space_char(s[i]) {
        skip_spaces_fwd(s, i + 1)
    } else {
        i
    }
}

/// The end (exclusive) of `s` once trailing spaces before `j` are dropped.
pub open spec fn skip_spaces_back(s: Seq<char>, j: int) -> int
    decreases j,
{
    if j <= 0 {
        0
    } else if j > s.len() {
        j
    } else if is_space_char(s[j - 1]) {
        skip_spaces_back(s, j - 1)
    } else {
        j
    }
}

/// `s` with leading and trailing whitespace removed.
pub open spec fn trim_spec(s: Seq<char>) -> Seq<char> {
    let lo = skip_spaces_fwd(s, 0);
    let hi = skip_spaces_back(s, s.len() as int);
    if lo <= hi {
        s.subrange(lo, hi)
    } else {
        Seq::empty()
    }
}

/// Trims leading and trailing whitespace characters.
pub fn trim_chars(v: &Vec<char>) -> (r: Vec<char>)
    ensures
        r@ == trim_spec(v@),
{
    let n = v.len();
    let mut lo: usize = 0;
    while lo < n && is_space(v[lo])
        invariant
            n == v@.len(),
            lo <= n,
            skip_spaces_fwd(v@, 0) == skip_spaces_fwd(v@, lo as int),
            forall|k: int| 0 <= k < lo ==> is_space_char(v@[k]),
        decreases n - lo,
    {
        lo = lo + 1;
    }
    let mut hi: usize = n;
    while hi > lo && is_space(v[hi - 1])
        invariant
            n == v@.len(),
            lo <= hi <= n,
            skip_spaces_back(v@, n as int) == skip_spaces_back(v@, hi as int),
        decreases hi,
    {
        hi = hi - 1;
    }
    let mut r: Vec<char> = Vec::new();
    let mut i: usize = lo;
    while i < hi
        invariant
            lo <= i <= hi <= v@.len(),
            r@ == v@.subrange(lo as int, i as int),
        decreases hi - i,
    {
        r.push(v[i]);
        i = i + 1;
        proof {
            assert(r@ =~= v@.subrange(lo as int, i as int));
        }
    }
    proof {
        let slo = skip_spaces_fwd(v@, 0);
        let shi = skip_spaces_back(v@, v@.len() as int);
        // the forward scan stopped at the spec's stopping point
        assert(slo == lo);
        if hi == lo {
            // everything below `lo` is space, so the backward spec scan,
            // having reached `lo`, continues all the way to 0
            lemma_skip_back_all_space(v@, lo as int);
            assert(shi == 0);
            if lo == 0 {
                assert(r@ =~= v@.subrange(0, 0));
            } else {
                assert(slo > shi);
                assert(r@ =~= Seq::<char>::empty());
            }
        } else {
            assert(!is_space_char(v@[hi - 1]));
            assert(shi == hi);
            assert(r@ =~= v@.subrange(slo, shi));
        }
    }
    r
}

/// If every character below `j` is a space, the backward scan from `j`
/// reaches 0.
proof fn lemma_skip_back_all_space(s: Seq<char>, j: int)
    requires
        0 <= j <= s.len(),
        forall|k: int| 0 <= k < j ==> is_space_char(s[k]),
    ensures
        skip_spaces_back(s, j) == 0,
    decreases j,
{
    if j > 0 {
        lemma_skip_back_all_space(s, j - 1);
    }
}

/// `s`, guaranteed to end with `;`: unchanged if it already does, with `;`
/// appended otherwise.
pub open spec fn ensure_semi(s: Seq<char>) -> Seq<char> {
    if s.len() > 0 && s[s.len() - 1] == ';' {
        s
    } else {
        s.push(';')
    }
}

/// Tail of the collapse scan: from index `i`, every occurrence of `x`
/// followed by a space becomes `x` alone; everything else is kept.
pub open spec fn collapse_from(s: Seq<char>, x: char, i: int, acc: Seq<char>) -> Seq<char>
    decreases s.len() - i,
{
    if i < 0 || i >= s.len() {
        acc
    } else if i + 1 < s.len() && s[i] == x && s[i + 1] == ' ' {
        collapse_from(s, x, i + 2, acc.push(x))
    } else {
        collapse_from(s, x, i + 1, acc.push(s[i]))
    }
}

/// `s` with every `x` + space pair collapsed to `x`, scanning left to right
/// over non-overlapping pairs.
pub open spec fn collapse_spec(s: Seq<char>, x: char) -> Seq<char> {
    collapse_from(s, x, 0, Seq::empty())
}

/// Collapses each occurrence of `x` followed by a space into `x` alone.
pub fn collapse_chars(v: &Vec<char>, x: char) -> (r: Vec<char>)
    ensures
        r@ == collapse_spec(v@, x),
{
    let n = v.len();
    let mut r: Vec<char> = Vec::new();
    let mut i: usize = 0;
    while i < n
        invariant
            n == v@.len(),
            i <= n,
            collapse_spec(v@, x) == collapse_from(v@, x, i as int, r@),
        decreases n - i,
    {
        if i + 1 < n && v[i] == x && v[i + 1] == ' ' {
            r.push(x);
            i = i + 2;
        } else {
            r.push(v[i]);
            i = i + 1;
        }
    }
    r
}

/// If no `x` + space pair occurs in `s`, collapsing leaves it unchanged.
pub proof fn lemma_collapse_no_pair(s: Seq<char>, x: char, i: int, acc: Seq<char>)
    requires
        0 <= i <= s.len(),
        forall|k: int| 0 <= k < s.len() - 1 ==> !(#[trigger] s[k] == x && s[k + 1] == ' '),
    ensures
        collapse_from(s, x, i, acc) == acc + s.subrange(i, s.len() as int),
    decreases s.len() - i,
{
    if i >= s.len() {
        assert(acc + s.subrange(i, s.len() as int) =~= acc);
    } else {
        lemma_collapse_no_pair(s, x, i + 1, acc.push(s[i]));
        assert(acc.push(s[i]) + s.subrange(i + 1, s.len() as int) =~= acc + s.subrange(
            i,
            s.len() as int,
        ));
    }
}

} // verus!
