//! What a parsing expression means: the outcome of matching it against an
//! input at a position.

use crate::pattern::{Pattern, RuleDef};
use crate::token::Token;
use crate::trace::{nested, within};
use vstd::prelude::*;
use vstd::string::StringSliceAdditionalSpecFns;

verus! {

/// The outcome of one match attempt.
pub struct Outcome {
    /// Whether the expression matched.
    pub matched: bool,
    /// The position after the match; the starting position on failure.
    pub end: nat,
    /// The tokens of the named rules that matched inside, parents before
    /// children; empty on failure.
    pub tokens: Seq<Token>,
    /// The farthest position at which a named rule, `Any` or `Eoi` failed
    /// during the attempt; 0 where none did.
    pub far: nat,
}

/// A match that ends at `end`.
pub open spec fn hit(end: nat, tokens: Seq<Token>, far: nat) -> Outcome {
    Outcome { matched: true, end, tokens, far }
}

/// A failure at `pos`.
pub open spec fn miss(pos: nat, far: nat) -> Outcome {
    Outcome { matched: false, end: pos, tokens: Seq::empty(), far }
}

/// The greater of two numbers.
pub open spec fn max_nat(a: nat, b: nat) -> nat {
    if a >= b {
        a
    } else {
        b
    }
}

/// Whether `lit` stands in `s` at `pos`.
pub open spec fn has_prefix_at(s: Seq<u8>, pos: nat, lit: Seq<u8>) -> bool {
    pos + lit.len() <= s.len() && s.subrange(pos as int, (pos + lit.len()) as int) == lit
}

/// Whether `b` is an ASCII byte between `lo` and `hi`.
pub open spec fn in_range(b: u8, lo: char, hi: char) -> bool {
    b < 0x80 && lo as u32 <= b as u32 <= hi as u32
}

/// The token of a rule that matched from `start` to `end`.
pub open spec fn token_of(def: RuleDef, start: nat, end: nat) -> Token {
    Token { rule: def.rule, start: start as usize, end: end as usize }
}

/// The outcome of matching `p` against `s` at `pos` under the grammar `g`.
///
/// Choice is ordered and repetition is greedy: an expression has one outcome,
/// and an enclosing expression never asks it for another.
///
/// `k` bounds the rules that may be called before any input is consumed:
/// only rules at an index below `k` are entered, and a rule's body runs
/// under the rule's own index. Once input has been consumed the bound is
/// lifted to `g.len()`. A grammar whose rules only call, at their left edge,
/// rules at lower indices has no left recursion and never meets the bound.
pub open spec fn eval(g: Seq<RuleDef>, p: Pattern, s: Seq<u8>, pos: nat, k: nat) -> Outcome
    decreases s.len() - pos, k, p,
{
    if pos > s.len() {
        miss(pos, 0)
    } else {
        match p {
            Pattern::Lit(l) => {
                if has_prefix_at(s, pos, l.spec_bytes()) {
                    hit(pos + l.spec_bytes().len(), Seq::empty(), 0)
                } else {
                    miss(pos, 0)
                }
            },
            Pattern::Range(lo, hi) => {
                if pos < s.len() && in_range(s[pos as int], lo, hi) {
                    hit(pos + 1, Seq::empty(), 0)
                } else {
                    miss(pos, 0)
                }
            },
            Pattern::Any => {
                if pos < s.len() {
                    hit(pos + 1, Seq::empty(), 0)
                } else {
                    miss(pos, pos)
                }
            },
            Pattern::Eoi => {
                if pos == s.len() {
                    hit(pos, Seq::empty(), 0)
                } else {
                    miss(pos, pos)
                }
            },
            Pattern::Call(i) => {
                if i < k && i < g.len() {
                    let o = eval(g, g[i as int].body, s, pos, i as nat);
                    if o.matched {
                        hit(o.end, seq![token_of(g[i as int], pos, o.end)] + o.tokens, o.far)
                    } else {
                        miss(pos, max_nat(o.far, pos))
                    }
                } else {
                    miss(pos, pos)
                }
            },
            Pattern::Then(a, b) => {
                let oa = eval(g, *a, s, pos, k);
                if oa.matched && pos <= oa.end <= s.len() {
                    let ob = eval(g, *b, s, oa.end, if oa.end > pos { g.len() } else { k });
                    if ob.matched {
                        hit(ob.end, oa.tokens + ob.tokens, max_nat(oa.far, ob.far))
                    } else {
                        miss(pos, max_nat(oa.far, ob.far))
                    }
                } else {
                    miss(pos, oa.far)
                }
            },
            Pattern::Or(a, b) => {
                let oa = eval(g, *a, s, pos, k);
                if oa.matched {
                    oa
                } else {
                    let ob = eval(g, *b, s, pos, k);
                    Outcome { far: max_nat(oa.far, ob.far), ..ob }
                }
            },
            Pattern::Opt(a) => {
                let oa = eval(g, *a, s, pos, k);
                if oa.matched {
                    oa
                } else {
                    hit(pos, Seq::empty(), oa.far)
                }
            },
            Pattern::Star(a) => {
                let oa = eval(g, *a, s, pos, k);
                if oa.matched && pos < oa.end <= s.len() {
                    let rest = eval(g, p, s, oa.end, g.len());
                    hit(rest.end, oa.tokens + rest.tokens, max_nat(oa.far, rest.far))
                } else {
                    hit(pos, Seq::empty(), oa.far)
                }
            },
            Pattern::Plus(a) => {
                let oa = eval(g, *a, s, pos, k);
                if oa.matched && pos < oa.end <= s.len() {
                    let rest = eval(g, Pattern::Star(a), s, oa.end, g.len());
                    hit(rest.end, oa.tokens + rest.tokens, max_nat(oa.far, rest.far))
                } else if oa.matched {
                    hit(pos, oa.tokens, oa.far)
                } else {
                    miss(pos, oa.far)
                }
            },
            Pattern::Not(a) => {
                let oa = eval(g, *a, s, pos, k);
                if oa.matched {
                    miss(pos, oa.far)
                } else {
                    hit(pos, Seq::empty(), oa.far)
                }
            },
            Pattern::Ahead(a) => {
                let oa = eval(g, *a, s, pos, k);
                if oa.matched {
                    hit(pos, Seq::empty(), oa.far)
                } else {
                    miss(pos, oa.far)
                }
            },
        }
    }
}

/// Two runs of tokens, the second after the first, make one run.
pub proof fn lemma_concat_shape(a: Seq<Token>, b: Seq<Token>, lo: nat, mid: nat, hi: nat)
    requires
        lo <= mid <= hi,
        within(a, lo, mid),
        within(b, mid, hi),
        nested(a),
        nested(b),
    ensures
        within(a + b, lo, hi),
        nested(a + b),
{
    let c = a + b;
    assert forall|i: int| 0 <= i < c.len() implies lo <= (#[trigger] c[i]).start <= c[i].end
        <= hi by {
        if i < a.len() {
            assert(c[i] == a[i]);
        } else {
            assert(c[i] == b[i - a.len()]);
        }
    }
    assert forall|i: int, j: int| 0 <= i < j < c.len() implies (#[trigger] c[j]).start >= (
    #[trigger] c[i]).end || (c[i].start <= c[j].start && c[j].end <= c[i].end) by {
        if j < a.len() {
            assert(c[i] == a[i] && c[j] == a[j]);
        } else if i >= a.len() {
            assert(c[i] == b[i - a.len()] && c[j] == b[j - a.len()]);
        } else {
            assert(c[i] == a[i] && c[j] == b[j - a.len()]);
        }
    }
}

/// A token in front of the tokens inside its span makes a run.
pub proof fn lemma_parent_shape(t: Token, inner: Seq<Token>)
    requires
        t.start <= t.end,
        within(inner, t.start as nat, t.end as nat),
        nested(inner),
    ensures
        within(seq![t] + inner, t.start as nat, t.end as nat),
        nested(seq![t] + inner),
{
    let c = seq![t] + inner;
    assert forall|i: int| 0 <= i < c.len() implies t.start <= (#[trigger] c[i]).start
        <= c[i].end <= t.end by {
        if i > 0 {
            assert(c[i] == inner[i - 1]);
        }
    }
    assert forall|i: int, j: int| 0 <= i < j < c.len() implies (#[trigger] c[j]).start >= (
    #[trigger] c[i]).end || (c[i].start <= c[j].start && c[j].end <= c[i].end) by {
        assert(c[j] == inner[j - 1]);
        if i > 0 {
            assert(c[i] == inner[i - 1]);
        }
    }
}

/// The shape of every outcome: a match ends inside the input, at or after
/// where it began; a failure consumes nothing and leaves no token; the
/// tokens lie between the start and the end of the match, each parent before
/// its children, and their spans never overlap in part.
pub proof fn lemma_eval_shape(g: Seq<RuleDef>, p: Pattern, s: Seq<u8>, pos: nat, k: nat)
    requires
        pos <= s.len() <= usize::MAX,
    ensures
        ({
            let o = eval(g, p, s, pos, k);
            &&& o.matched ==> pos <= o.end <= s.len()
            &&& !o.matched ==> o.end == pos && o.tokens.len() == 0
            &&& o.far <= s.len()
            &&& within(o.tokens, pos, o.end)
            &&& nested(o.tokens)
        }),
    decreases s.len() - pos, k, p,
{
    match p {
        Pattern::Lit(_) | Pattern::Range(_, _) | Pattern::Any | Pattern::Eoi => {},
        Pattern::Call(i) => {
            if i < k && i < g.len() {
                let o = eval(g, g[i as int].body, s, pos, i as nat);
                lemma_eval_shape(g, g[i as int].body, s, pos, i as nat);
                if o.matched {
                    lemma_parent_shape(token_of(g[i as int], pos, o.end), o.tokens);
                }
            }
        },
        Pattern::Then(a, b) => {
            let oa = eval(g, *a, s, pos, k);
            lemma_eval_shape(g, *a, s, pos, k);
            if oa.matched {
                let bound = if oa.end > pos {
                    g.len()
                } else {
                    k
                };
                let ob = eval(g, *b, s, oa.end, bound);
                lemma_eval_shape(g, *b, s, oa.end, bound);
                if ob.matched {
                    lemma_concat_shape(oa.tokens, ob.tokens, pos, oa.end, ob.end);
                }
            }
        },
        Pattern::Or(a, b) => {
            lemma_eval_shape(g, *a, s, pos, k);
            lemma_eval_shape(g, *b, s, pos, k);
        },
        Pattern::Opt(a) => {
            lemma_eval_shape(g, *a, s, pos, k);
        },
        Pattern::Star(a) => {
            let oa = eval(g, *a, s, pos, k);
            lemma_eval_shape(g, *a, s, pos, k);
            if oa.matched && pos < oa.end {
                let rest = eval(g, p, s, oa.end, g.len());
                lemma_eval_shape(g, p, s, oa.end, g.len());
                lemma_concat_shape(oa.tokens, rest.tokens, pos, oa.end, rest.end);
            }
        },
        Pattern::Plus(a) => {
            let oa = eval(g, *a, s, pos, k);
            lemma_eval_shape(g, *a, s, pos, k);
            if oa.matched && pos < oa.end {
                let rest = eval(g, Pattern::Star(a), s, oa.end, g.len());
                lemma_eval_shape(g, Pattern::Star(a), s, oa.end, g.len());
                lemma_concat_shape(oa.tokens, rest.tokens, pos, oa.end, rest.end);
            }
        },
        Pattern::Not(a) => {
            lemma_eval_shape(g, *a, s, pos, k);
        },
        Pattern::Ahead(a) => {
            lemma_eval_shape(g, *a, s, pos, k);
        },
    }
}

/// The rule at index `i` has the identifier of `t` and matches the span
/// of `t`.
pub open spec fn rule_matches(g: Seq<RuleDef>, i: int, s: Seq<u8>, t: Token) -> bool {
    &&& 0 <= i < g.len()
    &&& g[i].rule == t.rule
    &&& eval(g, g[i].body, s, t.start as nat, i as nat).matched
    &&& eval(g, g[i].body, s, t.start as nat, i as nat).end == t.end
}

/// Some rule of the grammar accounts for `t`.
pub open spec fn justified(g: Seq<RuleDef>, s: Seq<u8>, t: Token) -> bool {
    exists|i: int| #[trigger] rule_matches(g, i, s, t)
}

/// Some rule of the grammar accounts for each token of `q`.
pub open spec fn all_justified(g: Seq<RuleDef>, s: Seq<u8>, q: Seq<Token>) -> bool {
    forall|m: int| 0 <= m < q.len() ==> justified(g, s, #[trigger] q[m])
}

pub proof fn lemma_concat_justified(g: Seq<RuleDef>, s: Seq<u8>, a: Seq<Token>, b: Seq<Token>)
    requires
        all_justified(g, s, a),
        all_justified(g, s, b),
    ensures
        all_justified(g, s, a + b),
{
    let c = a + b;
    assert forall|m: int| 0 <= m < c.len() implies justified(g, s, #[trigger] c[m]) by {
        if m < a.len() {
            assert(c[m] == a[m]);
        } else {
            assert(c[m] == b[m - a.len()]);
        }
    }
}

/// Every token of an outcome is the token of a rule that matches its span.
pub proof fn lemma_eval_justified(g: Seq<RuleDef>, p: Pattern, s: Seq<u8>, pos: nat, k: nat)
    requires
        pos <= s.len() <= usize::MAX,
    ensures
        all_justified(g, s, eval(g, p, s, pos, k).tokens),
    decreases s.len() - pos, k, p,
{
    match p {
        Pattern::Lit(_) | Pattern::Range(_, _) | Pattern::Any | Pattern::Eoi => {},
        Pattern::Call(i) => {
            if i < k && i < g.len() {
                let o = eval(g, g[i as int].body, s, pos, i as nat);
                lemma_eval_shape(g, g[i as int].body, s, pos, i as nat);
                lemma_eval_justified(g, g[i as int].body, s, pos, i as nat);
                if o.matched {
                    let t = token_of(g[i as int], pos, o.end);
                    assert(rule_matches(g, i as int, s, t));
                    assert(all_justified(g, s, seq![t]));
                    lemma_concat_justified(g, s, seq![t], o.tokens);
                }
            }
        },
        Pattern::Then(a, b) => {
            let oa = eval(g, *a, s, pos, k);
            lemma_eval_shape(g, *a, s, pos, k);
            lemma_eval_justified(g, *a, s, pos, k);
            if oa.matched {
                let bound = if oa.end > pos {
                    g.len()
                } else {
                    k
                };
                lemma_eval_justified(g, *b, s, oa.end, bound);
                lemma_concat_justified(g, s, oa.tokens, eval(g, *b, s, oa.end, bound).tokens);
            }
        },
        Pattern::Or(a, b) => {
            lemma_eval_justified(g, *a, s, pos, k);
            lemma_eval_justified(g, *b, s, pos, k);
        },
        Pattern::Opt(a) => {
            lemma_eval_justified(g, *a, s, pos, k);
        },
        Pattern::Star(a) => {
            let oa = eval(g, *a, s, pos, k);
            lemma_eval_shape(g, *a, s, pos, k);
            lemma_eval_justified(g, *a, s, pos, k);
            if oa.matched && pos < oa.end {
                lemma_eval_justified(g, p, s, oa.end, g.len());
                lemma_concat_justified(g, s, oa.tokens, eval(g, p, s, oa.end, g.len()).tokens);
            }
        },
        Pattern::Plus(a) => {
            let oa = eval(g, *a, s, pos, k);
            lemma_eval_shape(g, *a, s, pos, k);
            lemma_eval_justified(g, *a, s, pos, k);
            if oa.matched && pos < oa.end {
                lemma_eval_justified(g, Pattern::Star(a), s, oa.end, g.len());
                lemma_concat_justified(
                    g,
                    s,
                    oa.tokens,
                    eval(g, Pattern::Star(a), s, oa.end, g.len()).tokens,
                );
            }
        },
        Pattern::Not(a) => {
            lemma_eval_justified(g, *a, s, pos, k);
        },
        Pattern::Ahead(a) => {
            lemma_eval_justified(g, *a, s, pos, k);
        },
    }
}

} // verus!
