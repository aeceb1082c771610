//! The incremental rule cache.
//!
//! One compiled rule set is held per source file, keyed by the file's
//! path. A single-file event either replaces that file's entry wholesale
//! (on a successful recompile), leaves it untouched (on a compile error),
//! or removes it (when the file is gone). The aggregate rule set is the
//! priority-ordered merge of all entries, in the order the files first
//! appeared.

use vstd::prelude::*;
use crate::error::NeumError;
use crate::lexer::{Span, Token};
use crate::parse::{parse, parse_spec, rules_view, spans_ok, Name, RuleV};

verus! {

/// The cache: at most one rule set per path, replaced wholesale.
pub struct Cache {
    pub entries: Vec<(String, Vec<(Name, Vec<Token>)>)>,
}

/// The spec-level value of the cache: each entry's path and rules.
pub open spec fn cache_view(c: Seq<(String, Vec<(Name, Vec<Token>)>)>) -> Seq<
    (Seq<char>, Seq<RuleV>),
> {
    c.map_values(|e: (String, Vec<(Name, Vec<Token>)>)| (e.0@, rules_view(e.1@)))
}

/// No two entries share a path.
pub open spec fn cache_wf(c: Seq<(Seq<char>, Seq<RuleV>)>) -> bool {
    forall|p: int, q: int| 0 <= p < q < c.len() ==> (#[trigger] c[p]).0 != (#[trigger] c[q]).0
}

/// The index of the entry for `path` at or after `i`, or the length.
pub open spec fn find_from(c: Seq<(Seq<char>, Seq<RuleV>)>, i: int, path: Seq<char>) -> int
    decreases c.len() - i,
{
    if i < 0 || i >= c.len() {
        c.len() as int
    } else if c[i].0 == path {
        i
    } else {
        find_from(c, i + 1, path)
    }
}

/// The cache after a successful compile of `path`: its entry is replaced
/// in place if present, appended otherwise.
pub open spec fn cache_insert(
    c: Seq<(Seq<char>, Seq<RuleV>)>,
    path: Seq<char>,
    rules: Seq<RuleV>,
) -> Seq<(Seq<char>, Seq<RuleV>)> {
    let i = find_from(c, 0, path);
    if i < c.len() {
        c.update(i, (path, rules))
    } else {
        c.push((path, rules))
    }
}

/// The cache after `path` became unreadable: its entry is removed.
pub open spec fn cache_remove(c: Seq<(Seq<char>, Seq<RuleV>)>, path: Seq<char>) -> Seq<
    (Seq<char>, Seq<RuleV>),
> {
    let i = find_from(c, 0, path);
    if i < c.len() {
        c.remove(i)
    } else {
        c
    }
}

/// The aggregate: all entries' rules concatenated in entry order, so that
/// an earlier file's rules take priority over a later file's.
pub open spec fn agg_spec(c: Seq<(Seq<char>, Seq<RuleV>)>, i: int) -> Seq<RuleV>
    decreases c.len() - i,
{
    if i < 0 || i >= c.len() {
        Seq::empty()
    } else {
        c[i].1 + agg_spec(c, i + 1)
    }
}

proof fn lemma_find_from_props(c: Seq<(Seq<char>, Seq<RuleV>)>, i: int, path: Seq<char>)
    requires
        0 <= i <= c.len(),
    ensures
        i <= find_from(c, i, path) <= c.len(),
        find_from(c, i, path) < c.len() ==> c[find_from(c, i, path)].0 == path,
        forall|k: int| i <= k < find_from(c, i, path) ==> (#[trigger] c[k]).0 != path,
    decreases c.len() - i,
{
    if i < c.len() && c[i].0 != path {
        lemma_find_from_props(c, i + 1, path);
    }
}

fn dup_tokens(v: &Vec<Token>) -> (r: Vec<Token>)
    ensures
        r@ == v@,
{
    let mut out: Vec<Token> = Vec::new();
    let mut i: usize = 0;
    while i < v.len()
        invariant
            i <= v@.len(),
            out@ == v@.subrange(0, i as int),
        decreases v@.len() - i,
    {
        out.push(v[i].dup());
        i = i + 1;
        proof {
            assert(out@ =~= v@.subrange(0, i as int));
        }
    }
    proof {
        assert(out@ =~= v@);
    }
    out
}

fn dup_rules(v: &Vec<(Name, Vec<Token>)>) -> (r: Vec<(Name, Vec<Token>)>)
    ensures
        rules_view(r@) == rules_view(v@),
{
    let mut out: Vec<(Name, Vec<Token>)> = Vec::new();
    let mut i: usize = 0;
    while i < v.len()
        invariant
            i <= v@.len(),
            rules_view(out@) == rules_view(v@).subrange(0, i as int),
        decreases v@.len() - i,
    {
        let ghost o0 = out@;
        let name = v[i].0.dup();
        let tpl = dup_tokens(&v[i].1);
        out.push((name, tpl));
        proof {
            assert(rules_view(o0).len() == o0.len());
            assert(o0.len() == i as int);
            assert(out@ == o0.push((name, tpl)));
            assert(crate::parse::rule_view(out@[i as int])
                == crate::parse::rule_view(v@[i as int]));
        }
        i = i + 1;
        proof {
            assert(rules_view(out@) =~~= rules_view(v@).subrange(0, i as int));
        }
    }
    proof {
        assert(rules_view(out@) =~~= rules_view(v@));
    }
    out
}

/// Merges two rule sets under priority semantics: the left operand's rules
/// are tried before the right operand's for any candidate.
pub fn combine_priority(a: Vec<(Name, Vec<Token>)>, b: Vec<(Name, Vec<Token>)>) -> (r: Vec<
    (Name, Vec<Token>)
>)
    ensures
        rules_view(r@) == rules_view(a@) + rules_view(b@),
{
    let mut r = a;
    let mut b2 = b;
    r.append(&mut b2);
    proof {
        assert(rules_view(r@) =~~= rules_view(a@) + rules_view(b@));
    }
    r
}

impl Cache {
    /// An empty cache.
    pub fn new() -> (r: Cache)
        ensures
            r.entries@.len() == 0,
            cache_wf(cache_view(r.entries@)),
    {
        Cache { entries: Vec::new() }
    }

    fn find(&self, path: &String) -> (r: usize)
        ensures
            r as int == find_from(cache_view(self.entries@), 0, path@),
            r as int <= self.entries@.len(),
    {
        let ghost cv = cache_view(self.entries@);
        let mut i: usize = 0;
        while i < self.entries.len()
            invariant
                i <= self.entries@.len(),
                cv == cache_view(self.entries@),
                cv.len() == self.entries@.len(),
                find_from(cv, 0, path@) == find_from(cv, i as int, path@),
            decreases self.entries@.len() - i,
        {
            if self.entries[i].0.eq(path) {
                proof {
                    assert(cv[i as int].0 == path@);
                }
                return i;
            }
            proof {
                assert(cv[i as int].0 == self.entries@[i as int].0@);
            }
            i = i + 1;
        }
        self.entries.len()
    }

    /// Stores `rules` as the entry for `path`, replacing any prior entry
    /// for that exact path; at most one live entry per path is kept.
    pub fn set_rules(&mut self, path: String, rules: Vec<(Name, Vec<Token>)>)
        ensures
            cache_view(final(self).entries@) == cache_insert(
                cache_view(old(self).entries@),
                path@,
                rules_view(rules@),
            ),
            cache_wf(cache_view(old(self).entries@)) ==> cache_wf(
                cache_view(final(self).entries@),
            ),
    {
        let ghost cv0 = cache_view(self.entries@);
        let i = self.find(&path);
        proof {
            lemma_find_from_props(cv0, 0, path@);
        }
        if i < self.entries.len() {
            self.entries.set(i, (path, rules));
            proof {
                assert(cache_view(self.entries@) =~~= cv0.update(
                    i as int,
                    (path@, rules_view(rules@)),
                ));
            }
        } else {
            self.entries.push((path, rules));
            proof {
                assert(cache_view(self.entries@) =~~= cv0.push((path@, rules_view(rules@))));
            }
        }
    }

    /// Removes the entry for `path`, if any.
    pub fn remove_path(&mut self, path: &String)
        ensures
            cache_view(final(self).entries@) == cache_remove(
                cache_view(old(self).entries@),
                path@,
            ),
            cache_wf(cache_view(old(self).entries@)) ==> cache_wf(
                cache_view(final(self).entries@),
            ),
    {
        let ghost cv0 = cache_view(self.entries@);
        let i = self.find(path);
        proof {
            lemma_find_from_props(cv0, 0, path@);
        }
        if i < self.entries.len() {
            self.entries.remove(i);
            proof {
                assert(cache_view(self.entries@) =~~= cv0.remove(i as int));
            }
        }
    }

    /// The aggregate rule set: every entry's rules concatenated in entry
    /// order, an empty rule set for an empty cache.
    pub fn aggregate(&self) -> (r: Vec<(Name, Vec<Token>)>)
        ensures
            rules_view(r@) == agg_spec(cache_view(self.entries@), 0),
    {
        let ghost cv = cache_view(self.entries@);
        let mut out: Vec<(Name, Vec<Token>)> = Vec::new();
        let mut i: usize = 0;
        proof {
            assert(rules_view(out@) =~~= Seq::<RuleV>::empty());
        }
        while i < self.entries.len()
            invariant
                i <= self.entries@.len(),
                cv == cache_view(self.entries@),
                cv.len() == self.entries@.len(),
                agg_spec(cv, 0) == rules_view(out@) + agg_spec(cv, i as int),
            decreases self.entries@.len() - i,
        {
            let ghost out0 = rules_view(out@);
            let mut part = dup_rules(&self.entries[i].1);
            out.append(&mut part);
            proof {
                assert(cv[i as int].1 == rules_view(self.entries@[i as int].1@));
                assert(rules_view(out@) =~~= out0 + cv[i as int].1);
                assert((out0 + cv[i as int].1) + agg_spec(cv, i as int + 1) =~~= out0 + (
                cv[i as int].1 + agg_spec(cv, i as int + 1)));
            }
            i = i + 1;
        }
        proof {
            assert(rules_view(out@) + agg_spec(cv, i as int) =~~= rules_view(out@));
        }
        out
    }
}

/// Applies one file event to the cache. Fresh tokens recompile the file:
/// on success the file's entry is inserted or replaced wholesale, on a
/// compile error the cache is left untouched (the prior entry, if any,
/// stays) and the error is reported. `None` stands for an unreadable or
/// deleted file, whose entry is removed.
pub fn update_neum(
    cache: &mut Cache,
    path: String,
    source: Option<(Vec<(Token, Span)>, String)>,
) -> (r: Result<(), NeumError>)
    requires
        source matches Some(s) ==> spans_ok(s.0@),
    ensures
        match source {
            Some(s) => match parse_spec(s.0@, 0) {
                Ok(rs) => r is Ok && cache_view(final(cache).entries@) == cache_insert(
                    cache_view(old(cache).entries@),
                    path@,
                    rs,
                ),
                Err(e) => r is Err && r->Err_0.error_type == e.0 && r->Err_0.span == e.1
                    && r->Err_0.file == Some(path) && r->Err_0.content == s.1
                    && final(cache).entries@ == old(cache).entries@,
            },
            None => r is Ok && cache_view(final(cache).entries@) == cache_remove(
                cache_view(old(cache).entries@),
                path@,
            ),
        },
        cache_wf(cache_view(old(cache).entries@)) ==> cache_wf(cache_view(final(cache).entries@)),
{
    match source {
        Some((tokens, content)) => {
            match parse(tokens, Some(path.clone()), content) {
                Ok(rules) => {
                    cache.set_rules(path, rules);
                    Ok(())
                },
                Err(e) => Err(e),
            }
        },
        None => {
            cache.remove_path(&path);
            Ok(())
        },
    }
}

} // verus!
