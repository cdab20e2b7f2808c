//! The matcher: runs a parsing expression over an input and records the
//! tokens of the rules that match.

use crate::pattern::{Grammar, Pattern};
use crate::peg::{eval, has_prefix_at, in_range, max_nat, Outcome};
use crate::token::Token;
use vstd::prelude::*;
use vstd::string::StringSliceAdditionalSpecFns;

verus! {

/// The state of a match in progress.
pub struct Cursor {
    /// The position in the input.
    pub pos: usize,
    /// The tokens of the rules matched so far, parents before children.
    pub queue: Vec<Token>,
    /// The farthest position at which a rule has failed so far.
    pub fail_pos: usize,
}

impl Cursor {
    /// A cursor at the start of an input, with no tokens and no failures.
    pub fn new() -> (c: Cursor)
        ensures
            c.pos == 0,
            c.queue@ == Seq::<Token>::empty(),
            c.fail_pos == 0,
    {
        Cursor { pos: 0, queue: Vec::new(), fail_pos: 0 }
    }

    /// Whether this cursor is what `before` becomes by an attempt with
    /// outcome `o`.
    pub open spec fn follows(self, before: Cursor, o: Outcome) -> bool {
        &&& self.pos == o.end
        &&& self.queue@ == before.queue@ + o.tokens
        &&& self.fail_pos == max_nat(before.fail_pos as nat, o.far)
    }

    fn note_failure(&mut self, pos: usize)
        ensures
            final(self).pos == old(self).pos,
            final(self).queue == old(self).queue,
            final(self).fail_pos == max_nat(old(self).fail_pos as nat, pos as nat),
    {
        if self.fail_pos < pos {
            self.fail_pos = pos;
        }
    }
}

/// Whether the bytes of `lit` stand in `input` at `pos`.
pub fn lit_matches(input: &[u8], pos: usize, lit: &str) -> (ok: bool)
    requires
        pos <= input@.len(),
    ensures
        ok == has_prefix_at(input@, pos as nat, lit.spec_bytes()),
{
    let bytes = lit.as_bytes();
    let n = bytes.len();
    if n > input.len() - pos {
        return false;
    }
    let mut i: usize = 0;
    while i < n
        invariant
            i <= n,
            n == bytes@.len(),
            bytes@ == lit.spec_bytes(),
            pos + n <= input@.len() <= usize::MAX,
            forall|j: int| 0 <= j < i ==> input@[pos + j] == bytes@[j],
        decreases n - i,
    {
        if input[pos + i] != bytes[i] {
            assert(input@.subrange(pos as int, pos + n)[i as int] == input@[pos + i]);
            return false;
        }
        i += 1;
    }
    assert(input@.subrange(pos as int, pos + n) =~= bytes@);
    true
}

/// Whether `b` is an ASCII byte between `lo` and `hi`.
pub fn byte_in_range(b: u8, lo: char, hi: char) -> (ok: bool)
    ensures
        ok == in_range(b, lo, hi),
{
    b < 0x80 && lo as u32 <= b as u32 && b as u32 <= hi as u32
}

/// Matches `p` at the cursor. On success the cursor stands after the match
/// and holds the tokens of the rules matched inside; on failure its position
/// and tokens are as before. Either way it remembers the farthest failure.
pub fn run(g: &Grammar, input: &[u8], cur: &mut Cursor, p: &Pattern, k: usize) -> (ok: bool)
    requires
        old(cur).pos <= input@.len(),
        k <= g@.len(),
    ensures
        ok == eval(g@, *p, input@, old(cur).pos as nat, k as nat).matched,
        final(cur).follows(*old(cur), eval(g@, *p, input@, old(cur).pos as nat, k as nat)),
        old(cur).pos <= final(cur).pos <= input@.len(),
        !ok ==> final(cur).pos == old(cur).pos && final(cur).queue@ == old(cur).queue@,
    decreases input@.len() - old(cur).pos, k, *p, 1nat,
{
    let start = cur.pos;
    let mark = cur.queue.len();
    let ghost q0 = cur.queue@;
    assert(input@.len() == input.len());
    match p {
        Pattern::Lit(l) => {
            if lit_matches(input, start, l) {
                cur.pos = start + l.len();
                assert(cur.queue@ =~= q0 + Seq::<Token>::empty());
                true
            } else {
                assert(cur.queue@ =~= q0 + Seq::<Token>::empty());
                false
            }
        },
        Pattern::Range(lo, hi) => {
            if start < input.len() && byte_in_range(input[start], *lo, *hi) {
                cur.pos = start + 1;
                assert(cur.queue@ =~= q0 + Seq::<Token>::empty());
                true
            } else {
                assert(cur.queue@ =~= q0 + Seq::<Token>::empty());
                false
            }
        },
        Pattern::Any => {
            if start < input.len() {
                cur.pos = start + 1;
                assert(cur.queue@ =~= q0 + Seq::<Token>::empty());
                true
            } else {
                cur.note_failure(start);
                assert(cur.queue@ =~= q0 + Seq::<Token>::empty());
                false
            }
        },
        Pattern::Eoi => {
            if start == input.len() {
                assert(cur.queue@ =~= q0 + Seq::<Token>::empty());
                true
            } else {
                cur.note_failure(start);
                assert(cur.queue@ =~= q0 + Seq::<Token>::empty());
                false
            }
        },
        Pattern::Call(i) => {
            if *i < k {
                let def = &g.rules[*i];
                cur.queue.push(Token { rule: def.rule, start, end: start });
                let ghost o = eval(g@, def.body, input@, start as nat, *i as nat);
                let ok = run(g, input, cur, &def.body, *i);
                if ok {
                    cur.queue.set(mark, Token { rule: def.rule, start, end: cur.pos });
                    assert(cur.queue@ =~= q0 + (seq![
                        Token { rule: def.rule, start, end: cur.pos },
                    ] + o.tokens));
                } else {
                    cur.queue.truncate(mark);
                    cur.note_failure(start);
                    assert(cur.queue@ =~= q0 + Seq::<Token>::empty());
                }
                ok
            } else {
                cur.note_failure(start);
                assert(cur.queue@ =~= q0 + Seq::<Token>::empty());
                false
            }
        },
        Pattern::Then(a, b) => {
            let ghost oa = eval(g@, **a, input@, start as nat, k as nat);
            if !run(g, input, cur, a, k) {
                return false;
            }
            let bound = if cur.pos > start {
                g.rules.len()
            } else {
                k
            };
            let ghost ob = eval(g@, **b, input@, cur.pos as nat, bound as nat);
            if run(g, input, cur, b, bound) {
                assert(cur.queue@ =~= q0 + (oa.tokens + ob.tokens));
                true
            } else {
                cur.pos = start;
                cur.queue.truncate(mark);
                assert(cur.queue@ =~= q0 + Seq::<Token>::empty());
                false
            }
        },
        Pattern::Or(a, b) => {
            if run(g, input, cur, a, k) {
                true
            } else {
                run(g, input, cur, b, k)
            }
        },
        Pattern::Opt(a) => {
            run(g, input, cur, a, k);
            true
        },
        Pattern::Star(a) => {
            repeat(g, input, cur, a, k);
            true
        },
        Pattern::Plus(a) => {
            let ghost oa = eval(g@, **a, input@, start as nat, k as nat);
            if !run(g, input, cur, a, k) {
                return false;
            }
            if cur.pos > start {
                let ghost rest = eval(g@, Pattern::Star(*a), input@, cur.pos as nat, g@.len());
                repeat(g, input, cur, a, g.rules.len());
                assert(cur.queue@ =~= q0 + (oa.tokens + rest.tokens));
            }
            true
        },
        Pattern::Not(a) => {
            let ok = run(g, input, cur, a, k);
            cur.pos = start;
            cur.queue.truncate(mark);
            assert(cur.queue@ =~= q0 + Seq::<Token>::empty());
            !ok
        },
        Pattern::Ahead(a) => {
            let ok = run(g, input, cur, a, k);
            cur.pos = start;
            cur.queue.truncate(mark);
            assert(cur.queue@ =~= q0 + Seq::<Token>::empty());
            ok
        },
    }
}

/// Matches `a` as often as it matches and moves the cursor on: the outcome
/// of `Pattern::Star` around `a`.
pub fn repeat(g: &Grammar, input: &[u8], cur: &mut Cursor, a: &Pattern, k: usize)
    requires
        old(cur).pos <= input@.len(),
        k <= g@.len(),
    ensures
        eval(g@, Pattern::Star(Box::new(*a)), input@, old(cur).pos as nat, k as nat).matched,
        final(cur).follows(
            *old(cur),
            eval(g@, Pattern::Star(Box::new(*a)), input@, old(cur).pos as nat, k as nat),
        ),
        old(cur).pos <= final(cur).pos <= input@.len(),
    decreases input@.len() - old(cur).pos, k, Pattern::Star(Box::new(*a)), 0nat,
{
    let ghost star = Pattern::Star(Box::new(*a));
    let ghost first = *cur;
    let ghost total = eval(g@, star, input@, first.pos as nat, k as nat);
    let mut bound = k;
    loop
        invariant_except_break
            first == *old(cur),
            star == Pattern::Star(Box::new(*a)),
            total == eval(g@, star, input@, first.pos as nat, k as nat),
            first.pos <= cur.pos <= input@.len(),
            bound <= g@.len(),
            k <= g@.len(),
            cur.pos == first.pos ==> bound == k,
            total.matched,
            total.end == eval(g@, star, input@, cur.pos as nat, bound as nat).end,
            first.queue@ + total.tokens == cur.queue@ + eval(
                g@,
                star,
                input@,
                cur.pos as nat,
                bound as nat,
            ).tokens,
            max_nat(first.fail_pos as nat, total.far) == max_nat(
                cur.fail_pos as nat,
                eval(g@, star, input@, cur.pos as nat, bound as nat).far,
            ),
        ensures
            total.matched,
            cur.follows(first, total),
            first.pos <= cur.pos <= input@.len(),
        decreases input@.len() - cur.pos,
    {
        let before = cur.pos;
        let mark = cur.queue.len();
        let ghost q1 = cur.queue@;
        let ghost oa = eval(g@, *a, input@, before as nat, bound as nat);
        let ghost here = eval(g@, star, input@, before as nat, bound as nat);
        let ok = run(g, input, cur, a, bound);
        if !ok || cur.pos == before {
            cur.queue.truncate(mark);
            assert(cur.queue@ =~= q1);
            assert(here.tokens =~= Seq::<Token>::empty());
            assert(cur.queue@ =~= first.queue@ + total.tokens);
            break ;
        }
        bound = g.rules.len();
        proof {
            let rest = eval(g@, star, input@, cur.pos as nat, bound as nat);
            assert(here.tokens == oa.tokens + rest.tokens);
            assert(cur.queue@ + rest.tokens =~= q1 + (oa.tokens + rest.tokens));
        }
    }
}

} // verus!
