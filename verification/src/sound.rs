//! Grammars without left recursion.
//!
//! The meaning of an expression is given under a bound on the rules that
//! may be entered before any input has been consumed. For a grammar whose
//! rules, at their left edge, only call rules that stand before them in the
//! table, the bound decides nothing.

use crate::pattern::{Pattern, RuleDef};
use crate::peg::{eval, lemma_eval_shape};
use vstd::prelude::*;
use vstd::string::StringSliceAdditionalSpecFns;

verus! {

/// Whether `p`, by its form alone, consumes input wherever it matches.
pub open spec fn consuming(g: Seq<RuleDef>, p: Pattern, k: nat) -> bool
    decreases k, p,
{
    match p {
        Pattern::Lit(l) => l.spec_bytes().len() > 0,
        Pattern::Range(_, _) => true,
        Pattern::Any => true,
        Pattern::Eoi => false,
        Pattern::Call(i) => i < k && i < g.len() && consuming(g, g[i as int].body, i as nat),
        Pattern::Then(a, b) => consuming(g, *a, k) || consuming(g, *b, k),
        Pattern::Or(a, b) => consuming(g, *a, k) && consuming(g, *b, k),
        Pattern::Plus(a) => consuming(g, *a, k),
        Pattern::Opt(_) => false,
        Pattern::Star(_) => false,
        Pattern::Not(_) => false,
        Pattern::Ahead(_) => false,
    }
}

/// Every rule that `p` may call before it has consumed input stands below
/// `k` in the table, and every other rule that it calls is in the table.
pub open spec fn left_bounded(g: Seq<RuleDef>, p: Pattern, k: nat) -> bool
    decreases p,
{
    match p {
        Pattern::Lit(_) => true,
        Pattern::Range(_, _) => true,
        Pattern::Any => true,
        Pattern::Eoi => true,
        Pattern::Call(i) => i < k && i < g.len(),
        Pattern::Then(a, b) => left_bounded(g, *a, k) && left_bounded(
            g,
            *b,
            if consuming(g, *a, k) {
                g.len()
            } else {
                k
            },
        ),
        Pattern::Or(a, b) => left_bounded(g, *a, k) && left_bounded(g, *b, k),
        Pattern::Opt(a) => left_bounded(g, *a, k),
        Pattern::Star(a) => left_bounded(g, *a, k),
        Pattern::Plus(a) => left_bounded(g, *a, k),
        Pattern::Not(a) => left_bounded(g, *a, k),
        Pattern::Ahead(a) => left_bounded(g, *a, k),
    }
}

/// No rule of `g` can come back to itself without having consumed input:
/// at its left edge, each rule only calls rules that stand before it.
pub open spec fn well_founded(g: Seq<RuleDef>) -> bool {
    forall|i: int| 0 <= i < g.len() ==> left_bounded(g, (#[trigger] g[i]).body, i as nat)
}

/// A higher bound admits what a lower one admits.
pub proof fn lemma_consuming_mono(g: Seq<RuleDef>, p: Pattern, k: nat, k2: nat)
    requires
        k <= k2,
        consuming(g, p, k),
    ensures
        consuming(g, p, k2),
    decreases p,
{
    match p {
        Pattern::Then(a, b) => {
            if consuming(g, *a, k) {
                lemma_consuming_mono(g, *a, k, k2);
            } else {
                lemma_consuming_mono(g, *b, k, k2);
            }
        },
        Pattern::Or(a, b) => {
            lemma_consuming_mono(g, *a, k, k2);
            lemma_consuming_mono(g, *b, k, k2);
        },
        Pattern::Plus(a) => {
            lemma_consuming_mono(g, *a, k, k2);
        },
        _ => {},
    }
}

/// A higher bound admits what a lower one admits.
pub proof fn lemma_left_bounded_mono(g: Seq<RuleDef>, p: Pattern, k: nat, k2: nat)
    requires
        k <= k2 <= g.len(),
        left_bounded(g, p, k),
    ensures
        left_bounded(g, p, k2),
    decreases p,
{
    match p {
        Pattern::Then(a, b) => {
            lemma_left_bounded_mono(g, *a, k, k2);
            if consuming(g, *a, k) {
                lemma_consuming_mono(g, *a, k, k2);
            } else if consuming(g, *a, k2) {
                lemma_left_bounded_mono(g, *b, k, g.len());
            } else {
                lemma_left_bounded_mono(g, *b, k, k2);
            }
        },
        Pattern::Or(a, b) => {
            lemma_left_bounded_mono(g, *a, k, k2);
            lemma_left_bounded_mono(g, *b, k, k2);
        },
        Pattern::Opt(a) | Pattern::Star(a) | Pattern::Plus(a) | Pattern::Not(a) | Pattern::Ahead(
            a,
        ) => {
            lemma_left_bounded_mono(g, *a, k, k2);
        },
        _ => {},
    }
}

/// What consumes input by its form does so in every match.
pub proof fn lemma_consuming_sound(g: Seq<RuleDef>, p: Pattern, s: Seq<u8>, pos: nat, k: nat)
    requires
        pos <= s.len() <= usize::MAX,
        consuming(g, p, k),
    ensures
        eval(g, p, s, pos, k).matched ==> eval(g, p, s, pos, k).end > pos,
    decreases s.len() - pos, k, p,
{
    match p {
        Pattern::Call(i) => {
            lemma_consuming_sound(g, g[i as int].body, s, pos, i as nat);
        },
        Pattern::Then(a, b) => {
            let oa = eval(g, *a, s, pos, k);
            lemma_eval_shape(g, *a, s, pos, k);
            if oa.matched {
                let bound = if oa.end > pos {
                    g.len()
                } else {
                    k
                };
                lemma_eval_shape(g, *b, s, oa.end, bound);
                if consuming(g, *a, k) {
                    lemma_consuming_sound(g, *a, s, pos, k);
                } else if oa.end == pos {
                    lemma_consuming_sound(g, *b, s, pos, k);
                }
            }
        },
        Pattern::Or(a, b) => {
            lemma_consuming_sound(g, *a, s, pos, k);
            lemma_consuming_sound(g, *b, s, pos, k);
        },
        Pattern::Plus(a) => {
            let oa = eval(g, *a, s, pos, k);
            lemma_eval_shape(g, *a, s, pos, k);
            lemma_consuming_sound(g, *a, s, pos, k);
            if oa.matched && pos < oa.end {
                lemma_eval_shape(g, Pattern::Star(a), s, oa.end, g.len());
            }
        },
        _ => {},
    }
}

/// Whether the bound refused a call while `p` was matched against `s` at
/// `pos`: a call of a rule at or above the bound, or of a rule that is not
/// in the table. Where no call was refused, the outcome is that of the
/// expression as parsing expressions are commonly understood.
pub open spec fn stuck(g: Seq<RuleDef>, p: Pattern, s: Seq<u8>, pos: nat, k: nat) -> bool
    decreases s.len() - pos, k, p,
{
    if pos > s.len() {
        false
    } else {
        match p {
            Pattern::Lit(_) => false,
            Pattern::Range(_, _) => false,
            Pattern::Any => false,
            Pattern::Eoi => false,
            Pattern::Call(i) => {
                if i < k && i < g.len() {
                    stuck(g, g[i as int].body, s, pos, i as nat)
                } else {
                    true
                }
            },
            Pattern::Then(a, b) => {
                let oa = eval(g, *a, s, pos, k);
                stuck(g, *a, s, pos, k) || (oa.matched && pos <= oa.end <= s.len() && stuck(
                    g,
                    *b,
                    s,
                    oa.end,
                    if oa.end > pos {
                        g.len()
                    } else {
                        k
                    },
                ))
            },
            Pattern::Or(a, b) => {
                stuck(g, *a, s, pos, k) || (!eval(g, *a, s, pos, k).matched && stuck(
                    g,
                    *b,
                    s,
                    pos,
                    k,
                ))
            },
            Pattern::Opt(a) => stuck(g, *a, s, pos, k),
            Pattern::Star(a) => {
                let oa = eval(g, *a, s, pos, k);
                stuck(g, *a, s, pos, k) || (oa.matched && pos < oa.end <= s.len() && stuck(
                    g,
                    p,
                    s,
                    oa.end,
                    g.len(),
                ))
            },
            Pattern::Plus(a) => {
                let oa = eval(g, *a, s, pos, k);
                stuck(g, *a, s, pos, k) || (oa.matched && pos < oa.end <= s.len() && stuck(
                    g,
                    Pattern::Star(a),
                    s,
                    oa.end,
                    g.len(),
                ))
            },
            Pattern::Not(a) => stuck(g, *a, s, pos, k),
            Pattern::Ahead(a) => stuck(g, *a, s, pos, k),
        }
    }
}

/// Under a grammar without left recursion the bound refuses no call.
pub proof fn lemma_never_stuck(g: Seq<RuleDef>, p: Pattern, s: Seq<u8>, pos: nat, k: nat)
    requires
        pos <= s.len() <= usize::MAX,
        k <= g.len(),
        well_founded(g),
        left_bounded(g, p, k),
    ensures
        !stuck(g, p, s, pos, k),
    decreases s.len() - pos, k, p,
{
    match p {
        Pattern::Lit(_) | Pattern::Range(_, _) | Pattern::Any | Pattern::Eoi => {},
        Pattern::Call(i) => {
            assert(left_bounded(g, g[i as int].body, i as nat));
            lemma_never_stuck(g, g[i as int].body, s, pos, i as nat);
        },
        Pattern::Then(a, b) => {
            lemma_never_stuck(g, *a, s, pos, k);
            let oa = eval(g, *a, s, pos, k);
            lemma_eval_shape(g, *a, s, pos, k);
            if oa.matched {
                if oa.end > pos {
                    if !consuming(g, *a, k) {
                        lemma_left_bounded_mono(g, *b, k, g.len());
                    }
                    lemma_never_stuck(g, *b, s, oa.end, g.len());
                } else {
                    if consuming(g, *a, k) {
                        lemma_consuming_sound(g, *a, s, pos, k);
                    }
                    lemma_never_stuck(g, *b, s, pos, k);
                }
            }
        },
        Pattern::Or(a, b) => {
            lemma_never_stuck(g, *a, s, pos, k);
            lemma_never_stuck(g, *b, s, pos, k);
        },
        Pattern::Opt(a) | Pattern::Not(a) | Pattern::Ahead(a) => {
            lemma_never_stuck(g, *a, s, pos, k);
        },
        Pattern::Star(a) => {
            lemma_never_stuck(g, *a, s, pos, k);
            let oa = eval(g, *a, s, pos, k);
            lemma_eval_shape(g, *a, s, pos, k);
            if oa.matched && pos < oa.end {
                lemma_left_bounded_mono(g, p, k, g.len());
                lemma_never_stuck(g, p, s, oa.end, g.len());
            }
        },
        Pattern::Plus(a) => {
            lemma_never_stuck(g, *a, s, pos, k);
            let oa = eval(g, *a, s, pos, k);
            lemma_eval_shape(g, *a, s, pos, k);
            if oa.matched && pos < oa.end {
                lemma_left_bounded_mono(g, *a, k, g.len());
                lemma_never_stuck(g, Pattern::Star(a), s, oa.end, g.len());
            }
        },
    }
}

} // verus!
