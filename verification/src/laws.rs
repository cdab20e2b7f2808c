//! What holds of every line that the grammar accepts.

use crate::canon::{accepts, canonical_text, parse_outcome, parse_trace};
use crate::grammar::{abc_grammar, MUSIC_CODE_LINE, RULE_COUNT};
use crate::lexis::{
    is_line_ending, lemma_abc_eol_token, lemma_abc_well_founded, lemma_chord_newline_token,
    lemma_wsp_token, BACKSLASH,
};
use crate::sound::{lemma_never_stuck, stuck};
use crate::pattern::Pattern;
use crate::peg::{all_justified, eval, lemma_eval_justified, lemma_eval_shape};
use crate::token::{Rule, Token};
use crate::trace::{
    canonical, joins, lemma_after_limit, lemma_skip_nested, lemma_top_related,
    lemma_render_related, lemma_trim_bare, lemma_without_blanks_add,
    lemma_without_blanks_of_blanks, lemma_without_blanks_trim, reflexive, render,
    render_inside, render_top, rewrites_related, span, subtree_end, tiles, trim, verbatim,
    well_formed, without_blanks, SEMICOLON, SPACE,
};
use vstd::prelude::*;

verus! {

/// From index `j` on, every token is empty and stands at `n`.
spec fn all_at(q: Seq<Token>, j: int, n: nat) -> bool {
    forall|m: int| j <= m < q.len() ==> (#[trigger] q[m]).start == n && q[m].end == n
}

proof fn lemma_tiles_tail(q: Seq<Token>, j: int, n: nat)
    requires
        0 <= j <= q.len(),
        all_at(q, j, n),
    ensures
        tiles(q, j, n, n),
    decreases q.len() - j,
{
    if j < q.len() {
        assert(q[j].start == n && q[j].end == n);
        if j + 1 < q.len() {
            assert(q[j + 1].start == n);
        }
        assert(subtree_end(q, j) == j + 1);
        lemma_tiles_tail(q, j + 1, n);
    }
}

/// The trace of an accepted line: its first token is that of the top rule
/// and covers the whole line; the trace is well formed, some rule accounts
/// for each token, and the top-level tokens tile the line.
pub proof fn lemma_parse_shape(line: Seq<u8>)
    requires
        line.len() <= usize::MAX,
        accepts(line),
    ensures
        parse_trace(line).len() > 0,
        parse_trace(line)[0] == (Token {
            rule: Rule::MusicCodeLine,
            start: 0,
            end: line.len() as usize,
        }),
        well_formed(parse_trace(line), line.len()),
        all_justified(abc_grammar(), line, parse_trace(line)),
        tiles(parse_trace(line), 0, 0, line.len()),
{
    let g = abc_grammar();
    let q = parse_trace(line);
    let n = line.len();
    lemma_eval_shape(g, Pattern::Call(MUSIC_CODE_LINE), line, 0, RULE_COUNT as nat);
    lemma_eval_justified(g, Pattern::Call(MUSIC_CODE_LINE), line, 0, RULE_COUNT as nat);
    assert(q[0].rule == Rule::MusicCodeLine && q[0].start == 0 && q[0].end == n) by {
        reveal_with_fuel(eval, 3);
        lemma_eval_shape(g, g[MUSIC_CODE_LINE as int].body, line, 0, MUSIC_CODE_LINE as nat);
    }
    let e = subtree_end(q, 0);
    lemma_skip_nested(q, q[0].end, 1);
    assert forall|m: int| e <= m < q.len() implies (#[trigger] q[m]).start == n && q[m].end
        == n by {
        lemma_after_limit(q, n, q[0].end, e, m);
    }
    lemma_tiles_tail(q, e, n);
}

/// The top-level tokens of the trace of an accepted line cover the line
/// from its first byte to its last, with no gap and no overlap.
pub proof fn law_total_coverage(line: Seq<u8>)
    requires
        line.len() <= usize::MAX,
        accepts(line),
    ensures
        tiles(parse_trace(line), 0, 0, line.len()),
{
    lemma_parse_shape(line);
}

/// Equal texts.
pub open spec fn same() -> spec_fn(Seq<u8>, Seq<u8>) -> bool {
    |a: Seq<u8>, b: Seq<u8>| a == b
}

/// With no rewrite applied, the tokens of an accepted line stand for the
/// line itself: the default rule alone gives every byte back.
pub proof fn law_default_rule_reproduces_input(line: Seq<u8>)
    requires
        line.len() <= usize::MAX,
        accepts(line),
    ensures
        render_top(parse_trace(line), line, 0, verbatim()) == line,
{
    lemma_parse_shape(line);
    let q = parse_trace(line);
    assert(reflexive(same()));
    assert(joins(same()));
    assert(rewrites_related(q, line, verbatim(), same()));
    lemma_top_related(q, line, 0, 0, line.len(), verbatim(), same());
    assert(line.subrange(0, line.len() as int) =~= line);
}

/// Texts that are equal but for their spaces and tabs.
pub open spec fn same_marks() -> spec_fn(Seq<u8>, Seq<u8>) -> bool {
    |a: Seq<u8>, b: Seq<u8>| without_blanks(a) == without_blanks(b)
}

/// Every separator inside quoted text is spelled as a semicolon.
pub open spec fn semicolons_only(line: Seq<u8>) -> bool {
    forall|m: int|
        0 <= m < parse_trace(line).len() && (#[trigger] parse_trace(line)[m]).rule
            == Rule::ChordNewline ==> span(line, parse_trace(line)[m]) == seq![SEMICOLON]
}

/// The canonical text of an accepted line has, but for spaces and tabs, the
/// bytes of the line in the order of the line, where the line spells its
/// separators as semicolons. (A separator spelled otherwise becomes a
/// semicolon, which the line did not hold.)
pub proof fn law_order_preserved(line: Seq<u8>)
    requires
        line.len() <= usize::MAX,
        accepts(line),
        semicolons_only(line),
    ensures
        without_blanks(canonical_text(line)) == without_blanks(line),
{
    lemma_parse_shape(line);
    let q = parse_trace(line);
    let rel = same_marks();
    assert(reflexive(rel));
    assert forall|a: Seq<u8>, b: Seq<u8>, c: Seq<u8>, d: Seq<u8>|
        rel(a, b) && rel(c, d) implies #[trigger] rel(a + c, b + d) by {
        lemma_without_blanks_add(a, c);
        lemma_without_blanks_add(b, d);
    }
    assert forall|i: int| 0 <= i < q.len() implies {
        &&& (#[trigger] q[i]).rule == Rule::Wsp ==> rel(span(line, q[i]), seq![SPACE])
        &&& q[i].rule == Rule::ChordNewline ==> rel(span(line, q[i]), seq![SEMICOLON])
        &&& q[i].rule == Rule::AbcEol ==> forall|t: Seq<u8>|
            rel(span(line, q[i]), t) ==> #[trigger] rel(span(line, q[i]), trim(t))
    } by {
        if q[i].rule == Rule::Wsp {
            lemma_wsp_token(line, q[i]);
            lemma_without_blanks_of_blanks(span(line, q[i]));
            lemma_without_blanks_of_blanks(seq![SPACE]);
        }
        assert forall|t: Seq<u8>| rel(span(line, q[i]), t) implies #[trigger] rel(
            span(line, q[i]),
            trim(t),
        ) by {
            lemma_without_blanks_trim(t);
        }
    }
    lemma_top_related(q, line, 0, 0, line.len(), canonical(), rel);
    assert(line.subrange(0, line.len() as int) =~= line);
}

/// The line is in canonical form already: every whitespace run is one
/// space, every separator inside quoted text is a semicolon, and the line
/// ending neither starts nor ends with whitespace.
pub open spec fn is_canonical(line: Seq<u8>) -> bool {
    forall|m: int|
        0 <= m < parse_trace(line).len() ==> {
            let t = #[trigger] parse_trace(line)[m];
            &&& t.rule == Rule::Wsp ==> span(line, t) == seq![SPACE]
            &&& t.rule == Rule::ChordNewline ==> span(line, t) == seq![SEMICOLON]
            &&& t.rule == Rule::AbcEol ==> trim(span(line, t)) == span(line, t)
        }
}

/// A line in canonical form is its own canonical text.
pub proof fn law_canonical_is_fixed(line: Seq<u8>)
    requires
        line.len() <= usize::MAX,
        accepts(line),
        is_canonical(line),
    ensures
        canonical_text(line) == line,
{
    lemma_parse_shape(line);
    let q = parse_trace(line);
    let rel = same();
    assert(reflexive(rel));
    assert(joins(rel));
    assert forall|i: int| 0 <= i < q.len() implies {
        &&& (#[trigger] q[i]).rule == Rule::Wsp ==> rel(span(line, q[i]), seq![SPACE])
        &&& q[i].rule == Rule::ChordNewline ==> rel(span(line, q[i]), seq![SEMICOLON])
        &&& q[i].rule == Rule::AbcEol ==> forall|t: Seq<u8>|
            rel(span(line, q[i]), t) ==> #[trigger] rel(span(line, q[i]), trim(t))
    } by {}
    lemma_top_related(q, line, 0, 0, line.len(), canonical(), rel);
    assert(line.subrange(0, line.len() as int) =~= line);
}

/// Texts that are equal but for their spaces and tabs, where the first is
/// the text of a line ending.
pub open spec fn same_ending() -> spec_fn(Seq<u8>, Seq<u8>) -> bool {
    |a: Seq<u8>, b: Seq<u8>| is_line_ending(a) ==> without_blanks(a) == without_blanks(b)
}

/// The whitespace that trails an accepted line is not in its canonical
/// text: the canonical text of the line ending is the continuation mark, or
/// nothing.
pub proof fn law_line_ending_is_bare(line: Seq<u8>, m: int)
    requires
        line.len() <= usize::MAX,
        accepts(line),
        0 <= m < parse_trace(line).len(),
        parse_trace(line)[m].rule == Rule::AbcEol,
    ensures
        render(parse_trace(line), line, m, canonical()) == Seq::<u8>::empty() || render(
            parse_trace(line),
            line,
            m,
            canonical(),
        ) == seq![BACKSLASH],
{
    lemma_parse_shape(line);
    let q = parse_trace(line);
    let rel = same_ending();
    assert(reflexive(rel));
    assert forall|a: Seq<u8>, b: Seq<u8>, c: Seq<u8>, d: Seq<u8>|
        rel(a, b) && rel(c, d) implies #[trigger] rel(a + c, b + d) by {
        lemma_without_blanks_add(a, c);
        lemma_without_blanks_add(b, d);
        if is_line_ending(a + c) {
            let wa = without_blanks(a);
            let wc = without_blanks(c);
            assert((wa + wc).len() == wa.len() + wc.len());
            assert(Seq::<u8>::empty().len() == 0 && seq![BACKSLASH].len() == 1);
            assert(wa.len() + wc.len() <= 1);
            if wa.len() == 0 {
                assert(wa =~= Seq::<u8>::empty());
                assert(wa + wc =~= wc);
            } else {
                assert(wc =~= Seq::<u8>::empty());
                assert(wa + wc =~= wa);
            }
            assert(is_line_ending(a) && is_line_ending(c));
        }
    }
    assert forall|i: int| 0 <= i < q.len() implies {
        &&& (#[trigger] q[i]).rule == Rule::Wsp ==> rel(span(line, q[i]), seq![SPACE])
        &&& q[i].rule == Rule::ChordNewline ==> rel(span(line, q[i]), seq![SEMICOLON])
        &&& q[i].rule == Rule::AbcEol ==> forall|t: Seq<u8>|
            rel(span(line, q[i]), t) ==> #[trigger] rel(span(line, q[i]), trim(t))
    } by {
        if q[i].rule == Rule::Wsp {
            lemma_wsp_token(line, q[i]);
            lemma_without_blanks_of_blanks(span(line, q[i]));
            lemma_without_blanks_of_blanks(seq![SPACE]);
        }
        if q[i].rule == Rule::ChordNewline {
            lemma_chord_newline_token(line, q[i]);
            reveal_with_fuel(without_blanks, 3);
            let x = span(line, q[i]);
            if x.len() == 2 {
                assert(x.drop_last() =~= seq![x[0]]);
                assert(x.drop_last().drop_last() =~= Seq::<u8>::empty());
                assert(without_blanks(x).len() == 2);
            } else {
                assert(x.drop_last() =~= Seq::<u8>::empty());
                assert(without_blanks(x) =~= seq![SEMICOLON]);
            }
            assert(!is_line_ending(x));
        }
        assert forall|t: Seq<u8>| rel(span(line, q[i]), t) implies #[trigger] rel(
            span(line, q[i]),
            trim(t),
        ) by {
            lemma_without_blanks_trim(t);
        }
    }
    lemma_render_related(q, line, m, canonical(), rel);
    lemma_abc_eol_token(line, q[m]);
    let inside = render_inside(q, line, m, canonical());
    assert(render(q, line, m, canonical()) == trim(inside));
    assert(without_blanks(trim(inside)) == without_blanks(span(line, q[m])));
    lemma_trim_bare(inside);
}

/// The grammar has no left recursion, so the bound under which its
/// expressions are given their meaning refuses no call: a line is matched
/// as parsing expressions are commonly understood.
pub proof fn law_bound_is_never_met(line: Seq<u8>)
    requires
        line.len() <= usize::MAX,
    ensures
        !stuck(abc_grammar(), Pattern::Call(MUSIC_CODE_LINE), line, 0, RULE_COUNT as nat),
{
    lemma_abc_well_founded();
    lemma_never_stuck(abc_grammar(), Pattern::Call(MUSIC_CODE_LINE), line, 0, RULE_COUNT as nat);
}

} // verus!
