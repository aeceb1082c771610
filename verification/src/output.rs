//! Output generation: the aggregate rule set applied to the candidate
//! class names, producing the combined CSS text.

use vstd::prelude::*;
use itertools::Itertools;
use crate::cache::{agg_spec, cache_view, Cache};
use crate::convert::{converts, converts_spec};
use crate::parse::{rules_view, strs_view, RuleV};
use crate::strutil::{chars_to_string, push_chars, push_str_chars};

verus! {

/// The distinct elements of `s` from index `i` on, keeping the first
/// occurrence of each and the order of first occurrences; `seen` holds the
/// values already emitted.
pub open spec fn dedup_first(s: Seq<Seq<char>>, i: int, seen: Set<Seq<char>>) -> Seq<Seq<char>>
    decreases s.len() - i,
{
    if i < 0 || i >= s.len() {
        Seq::empty()
    } else if seen.contains(s[i]) {
        dedup_first(s, i + 1, seen)
    } else {
        seq![s[i]] + dedup_first(s, i + 1, seen.insert(s[i]))
    }
}

/// Relies on itertools' `Itertools::unique`: it yields the distinct
/// elements in the order they first occur, keeping the first of each set
/// of duplicates.
#[verifier::external_body]
fn unique_strings(v: Vec<String>) -> (r: Vec<String>)
    ensures
        strs_view(r@) == dedup_first(strs_view(v@), 0, Set::empty()),
{
    v.into_iter().unique().collect()
}

/// The output fragment one candidate contributes: its selector and
/// declaration when it resolves, nothing when it does not resolve or its
/// resolution faults.
pub open spec fn frag_spec(c: Seq<char>, rules: Seq<RuleV>) -> Seq<char> {
    match converts_spec(rules, 0, c, 64) {
        Ok(Some(x)) => seq!['.'] + c + seq!['{'] + x + seq!['}'],
        _ => Seq::empty(),
    }
}

/// The concatenated fragments of the candidates from index `i` on.
pub open spec fn update_from(classes: Seq<Seq<char>>, i: int, rules: Seq<RuleV>) -> Seq<char>
    decreases classes.len() - i,
{
    if i < 0 || i >= classes.len() {
        Seq::empty()
    } else {
        frag_spec(classes[i], rules) + update_from(classes, i + 1, rules)
    }
}

/// Renders the whole output for the given candidate class names against
/// the cache's aggregate rule set: duplicates are dropped (the first
/// occurrence of each name is kept), and each remaining candidate that
/// resolves contributes `.<class>{<declaration>}`, in input order.
pub fn update(classes: Vec<String>, cache: &Cache) -> (r: String)
    ensures
        r@ == update_from(
            dedup_first(strs_view(classes@), 0, Set::empty()),
            0,
            agg_spec(cache_view(cache.entries@), 0),
        ),
{
    let ghost classes0 = strs_view(classes@);
    let uniq = unique_strings(classes);
    let rules = cache.aggregate();
    let ghost rv = rules_view(rules@);
    let ghost cls = strs_view(uniq@);
    let mut out: Vec<char> = Vec::new();
    let mut i: usize = 0;
    while i < uniq.len()
        invariant
            i <= uniq@.len(),
            cls == strs_view(uniq@),
            cls.len() == uniq@.len(),
            rv == rules_view(rules@),
            update_from(cls, 0, rv) == out@ + update_from(cls, i as int, rv),
        decreases uniq@.len() - i,
    {
        let ghost o0 = out@;
        proof {
            assert(cls[i as int] == uniq@[i as int]@);
        }
        match converts(&rules, uniq[i].as_str()) {
            Ok(Some(x)) => {
                out.push('.');
                push_str_chars(&mut out, uniq[i].as_str());
                out.push('{');
                push_str_chars(&mut out, x.as_str());
                out.push('}');
                proof {
                    assert(out@ =~= o0 + frag_spec(cls[i as int], rv));
                }
            },
            _ => {
                proof {
                    assert(out@ =~= o0 + frag_spec(cls[i as int], rv));
                }
            },
        }
        i = i + 1;
        proof {
            assert(o0 + frag_spec(cls[i as int - 1], rv) + update_from(cls, i as int, rv) =~= o0
                + (frag_spec(cls[i as int - 1], rv) + update_from(cls, i as int, rv)));
        }
    }
    proof {
        assert(out@ + update_from(cls, i as int, rv) =~= out@);
        assert(cls == dedup_first(classes0, 0, Set::empty()));
    }
    chars_to_string(&out)
}

} // verus!
