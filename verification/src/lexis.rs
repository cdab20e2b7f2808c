//! What the grammar says of the tokens that the canonical form rewrites,
//! and that it has no left recursion.

use crate::grammar::{
    abc_grammar, abc_rule, chords_rule, decorations_rule, fields_rule, keys_rule, lexical_rule,
    lines_rule, notes_rule, ABC_EOL, CHORD_NEWLINE, CLEF, LINE_CONTINUATION, RULE_COUNT, WSP,
};
use crate::sound::{consuming, left_bounded, well_founded};
use crate::pattern::{call, lit, opt, or, plus, star, then, then3, Pattern};
use crate::peg::{eval, has_prefix_at, justified, rule_matches};
use crate::token::{Rule, Token};
use crate::trace::{
    is_blank, lemma_without_blanks_add, lemma_without_blanks_of_blanks, span, without_blanks,
    SEMICOLON, SPACE, TAB,
};
use vstd::prelude::*;
use vstd::string::StringSliceAdditionalSpecFns;

verus! {

/// The backslash.
pub const BACKSLASH: u8 = 0x5c;

/// The letter `n`.
pub const LETTER_N: u8 = 0x6e;

/// Every byte of `t` is a space or a tab.
pub open spec fn all_blank(t: Seq<u8>) -> bool {
    forall|p: int| 0 <= p < t.len() ==> is_blank(#[trigger] t[p])
}

/// Every byte of `t` is ASCII.
pub open spec fn all_ascii(t: Seq<u8>) -> bool {
    forall|p: int| 0 <= p < t.len() ==> #[trigger] t[p] < 0x80
}

/// The bytes of the literals that the rewritten rules are made of.
pub proof fn lemma_literal_bytes()
    ensures
        " ".spec_bytes() == seq![SPACE],
        "\t".spec_bytes() == seq![TAB],
        ";".spec_bytes() == seq![SEMICOLON],
        "\\n".spec_bytes() == seq![BACKSLASH, LETTER_N],
{
    broadcast use vstd::string::is_ascii_spec_bytes;

    reveal_strlit(" ");
    reveal_strlit("\t");
    reveal_strlit(";");
    reveal_strlit("\\n");
    assert(vstd::string::is_ascii(" "));
    assert(vstd::string::is_ascii("\t"));
    assert(vstd::string::is_ascii(";"));
    assert(vstd::string::is_ascii("\\n"));
    assert(" ".spec_bytes() =~= seq![SPACE]);
    assert("\t".spec_bytes() =~= seq![TAB]);
    assert(";".spec_bytes() =~= seq![SEMICOLON]);
    assert("\\n".spec_bytes() =~= seq![BACKSLASH, LETTER_N]);
}

/// A space or a tab.
pub open spec fn blank() -> Pattern {
    or(lit(" "), lit("\t"))
}

/// A match of one blank covers one byte, a space or a tab.
pub proof fn lemma_blank(s: Seq<u8>, pos: nat, k: nat)
    requires
        pos <= s.len(),
    ensures
        ({
            let o = eval(abc_grammar(), blank(), s, pos, k);
            o.matched ==> o.end == pos + 1 && pos < s.len() && is_blank(s[pos as int])
        }),
{
    reveal_with_fuel(eval, 3);
    lemma_literal_bytes();
    let o = eval(abc_grammar(), blank(), s, pos, k);
    if o.matched {
        if has_prefix_at(s, pos, " ".spec_bytes()) {
            assert(s.subrange(pos as int, pos as int + 1)[0] == SPACE);
        } else {
            assert(has_prefix_at(s, pos, "\t".spec_bytes()));
            assert(s.subrange(pos as int, pos as int + 1)[0] == TAB);
        }
    }
}

/// A run of blanks covers spaces and tabs only.
pub proof fn lemma_blank_star(s: Seq<u8>, pos: nat, k: nat)
    requires
        pos <= s.len(),
    ensures
        ({
            let o = eval(abc_grammar(), star(blank()), s, pos, k);
            &&& o.matched
            &&& pos <= o.end <= s.len()
            &&& forall|p: int| pos <= p < o.end ==> is_blank(#[trigger] s[p])
        }),
    decreases s.len() - pos,
{
    let g = abc_grammar();
    let oa = eval(g, blank(), s, pos, k);
    lemma_blank(s, pos, k);
    if oa.matched {
        lemma_blank_star(s, pos + 1, g.len());
    }
}

/// A token of the whitespace rule covers at least one byte, and spaces
/// and tabs only.
pub proof fn lemma_wsp_token(s: Seq<u8>, t: Token)
    requires
        s.len() <= usize::MAX,
        t.start <= s.len(),
        justified(abc_grammar(), s, t),
        t.rule == Rule::Wsp,
    ensures
        t.start < t.end <= s.len(),
        all_blank(span(s, t)),
{
    let g = abc_grammar();
    let i = choose|i: int| rule_matches(g, i, s, t);
    lemma_rule_ids(i);
    assert(g[WSP as int].body == plus(blank()));
    let pos = t.start as nat;
    lemma_blank(s, pos, WSP as nat);
    let oa = eval(g, blank(), s, pos, WSP as nat);
    assert(oa.matched);
    lemma_blank_star(s, pos + 1, g.len());
    assert forall|p: int| 0 <= p < span(s, t).len() implies is_blank(#[trigger] span(s, t)[p]) by {
        assert(span(s, t)[p] == s[t.start + p]);
    }
}

/// A token of the separator rule covers a backslash and `n`, or a
/// semicolon.
pub proof fn lemma_chord_newline_token(s: Seq<u8>, t: Token)
    requires
        s.len() <= usize::MAX,
        t.start <= s.len(),
        justified(abc_grammar(), s, t),
        t.rule == Rule::ChordNewline,
    ensures
        t.start < t.end <= s.len(),
        span(s, t) == seq![BACKSLASH, LETTER_N] || span(s, t) == seq![SEMICOLON],
{
    let g = abc_grammar();
    let i = choose|i: int| rule_matches(g, i, s, t);
    lemma_rule_ids(i);
    assert(g[CHORD_NEWLINE as int].body == or(lit("\\n"), lit(";")));
    reveal_with_fuel(eval, 3);
    lemma_literal_bytes();
}

/// A match of the whitespace rule covers at least one byte, and spaces
/// and tabs only.
pub proof fn lemma_wsp_call(s: Seq<u8>, pos: nat, k: nat)
    requires
        pos <= s.len(),
    ensures
        ({
            let o = eval(abc_grammar(), call(WSP), s, pos, k);
            o.matched ==> pos < o.end <= s.len() && forall|p: int|
                pos <= p < o.end ==> is_blank(#[trigger] s[p])
        }),
{
    let g = abc_grammar();
    assert(g[WSP as int].body == plus(blank()));
    lemma_blank(s, pos, WSP as nat);
    if pos < s.len() {
        lemma_blank_star(s, pos + 1, g.len());
    }
    reveal_with_fuel(eval, 2);
}

/// A run of whitespace tokens covers spaces and tabs only.
pub proof fn lemma_wsp_star(s: Seq<u8>, pos: nat, k: nat)
    requires
        pos <= s.len(),
    ensures
        ({
            let o = eval(abc_grammar(), star(call(WSP)), s, pos, k);
            &&& o.matched
            &&& pos <= o.end <= s.len()
            &&& all_blank(s.subrange(pos as int, o.end as int))
        }),
    decreases s.len() - pos,
{
    let g = abc_grammar();
    let oa = eval(g, call(WSP), s, pos, k);
    let o = eval(g, star(call(WSP)), s, pos, k);
    lemma_wsp_call(s, pos, k);
    if oa.matched {
        lemma_wsp_star(s, oa.end, g.len());
        let rest = s.subrange(oa.end as int, o.end as int);
        assert forall|p: int| 0 <= p < o.end - pos implies is_blank(
            #[trigger] s.subrange(pos as int, o.end as int)[p],
        ) by {
            if pos + p >= oa.end {
                assert(rest[pos + p - oa.end] == s[pos + p]);
            }
        }
    }
}

/// A continuation mark, if any, is one backslash.
pub proof fn lemma_opt_continuation(s: Seq<u8>, pos: nat, k: nat)
    requires
        pos <= s.len(),
    ensures
        ({
            let o = eval(abc_grammar(), opt(call(LINE_CONTINUATION)), s, pos, k);
            &&& o.matched
            &&& o.end == pos || (o.end == pos + 1 && pos < s.len() && s[pos as int] == BACKSLASH)
        }),
{
    let g = abc_grammar();
    assert(g[LINE_CONTINUATION as int].body == lit("\\"));
    lemma_backslash_bytes();
    reveal_with_fuel(eval, 3);
    let o = eval(g, opt(call(LINE_CONTINUATION)), s, pos, k);
    if o.end != pos {
        assert(s.subrange(pos as int, pos as int + 1)[0] == BACKSLASH);
    }
}

/// The text of a line ending: spaces and tabs and, among them, at most one
/// backslash.
pub open spec fn is_line_ending(t: Seq<u8>) -> bool {
    without_blanks(t) == Seq::<u8>::empty() || without_blanks(t) == seq![BACKSLASH]
}

/// A match of the body of the line-ending rule covers a line ending.
pub proof fn lemma_abc_eol_body(s: Seq<u8>, pos: nat, k: nat)
    requires
        pos <= s.len(),
    ensures
        ({
            let o = eval(
                abc_grammar(),
                then3(star(call(WSP)), opt(call(LINE_CONTINUATION)), star(call(WSP))),
                s,
                pos,
                k,
            );
            &&& o.matched
            &&& pos <= o.end <= s.len()
            &&& is_line_ending(s.subrange(pos as int, o.end as int))
        }),
{
    let g = abc_grammar();
    let o1 = eval(g, star(call(WSP)), s, pos, k);
    lemma_wsp_star(s, pos, k);
    let k2 = if o1.end > pos {
        g.len()
    } else {
        k
    };
    let o2 = eval(g, opt(call(LINE_CONTINUATION)), s, o1.end, k2);
    lemma_opt_continuation(s, o1.end, k2);
    let k3 = if o2.end > o1.end {
        g.len()
    } else {
        k2
    };
    let o3 = eval(g, star(call(WSP)), s, o2.end, k3);
    lemma_wsp_star(s, o2.end, k3);
    let o = eval(
        g,
        then3(star(call(WSP)), opt(call(LINE_CONTINUATION)), star(call(WSP))),
        s,
        pos,
        k,
    );
    assert(o.matched && o.end == o3.end) by {
        reveal_with_fuel(eval, 2);
    }
    let a = s.subrange(pos as int, o1.end as int);
    let m = s.subrange(o1.end as int, o2.end as int);
    let b = s.subrange(o2.end as int, o3.end as int);
    let whole = s.subrange(pos as int, o.end as int);
    assert(whole =~= a + m + b);
    lemma_without_blanks_add(a + m, b);
    lemma_without_blanks_add(a, m);
    lemma_without_blanks_of_blanks(a);
    lemma_without_blanks_of_blanks(b);
    if o2.end == o1.end {
        assert(m =~= Seq::<u8>::empty());
        assert(without_blanks(whole) =~= Seq::<u8>::empty());
    } else {
        assert(m =~= seq![BACKSLASH]);
        assert(m.drop_last() =~= Seq::<u8>::empty());
        assert(without_blanks(m) == seq![BACKSLASH]) by {
            reveal_with_fuel(without_blanks, 2);
        }
        assert(without_blanks(whole) =~= seq![BACKSLASH]);
    }
}

/// A token of the line ending covers spaces and tabs and, among them, at
/// most one backslash: the continuation mark.
pub proof fn lemma_abc_eol_token(s: Seq<u8>, t: Token)
    requires
        s.len() <= usize::MAX,
        t.start <= s.len(),
        justified(abc_grammar(), s, t),
        t.rule == Rule::AbcEol,
    ensures
        t.start <= t.end <= s.len(),
        is_line_ending(span(s, t)),
{
    let g = abc_grammar();
    let i = choose|i: int| rule_matches(g, i, s, t);
    lemma_rule_ids(i);
    assert(g[ABC_EOL as int].body == then3(
        star(call(WSP)),
        opt(call(LINE_CONTINUATION)),
        star(call(WSP)),
    ));
    lemma_abc_eol_body(s, t.start as nat, ABC_EOL as nat);
}

/// The bytes of the continuation mark.
pub proof fn lemma_backslash_bytes()
    ensures
        "\\".spec_bytes() == seq![BACKSLASH],
{
    broadcast use vstd::string::is_ascii_spec_bytes;

    reveal_strlit("\\");
    assert(vstd::string::is_ascii("\\"));
    assert("\\".spec_bytes() =~= seq![BACKSLASH]);
}

/// Each of the rules whose tokens are rewritten has its identifier to
/// itself.
pub proof fn lemma_rule_ids(i: int)
    requires
        0 <= i < RULE_COUNT,
    ensures
        abc_rule(i).rule == Rule::Wsp ==> i == WSP,
        abc_rule(i).rule == Rule::ChordNewline ==> i == CHORD_NEWLINE,
        abc_rule(i).rule == Rule::AbcEol ==> i == ABC_EOL,
{
}

proof fn lemma_lexical_bounded(i: int)
    requires
        0 <= i < 13,
    ensures
        left_bounded(abc_grammar(), lexical_rule(i).body, i as nat),
{
    reveal_with_fuel(left_bounded, 24);
}

proof fn lemma_notes_bounded(i: int)
    requires
        13 <= i < 35,
    ensures
        left_bounded(abc_grammar(), notes_rule(i).body, i as nat),
{
    reveal_with_fuel(left_bounded, 24);
}

proof fn lemma_decorations_bounded(i: int)
    requires
        35 <= i < 44,
    ensures
        left_bounded(abc_grammar(), decorations_rule(i).body, i as nat),
{
    reveal_with_fuel(left_bounded, 24);
}

proof fn lemma_chords_bounded(i: int)
    requires
        44 <= i < 53,
    ensures
        left_bounded(abc_grammar(), chords_rule(i).body, i as nat),
{
    reveal_with_fuel(left_bounded, 24);
}

proof fn lemma_keys_bounded(i: int)
    requires
        53 <= i < 75,
    ensures
        left_bounded(abc_grammar(), keys_rule(i).body, i as nat),
{
    reveal_with_fuel(left_bounded, 24);
    if i == CLEF {
        reveal_with_fuel(consuming, 6);
        lemma_literal_bytes();
        assert(abc_grammar()[WSP as int].body == plus(blank()));
        assert(seq![SPACE].len() == 1 && seq![TAB].len() == 1);
        assert(consuming(abc_grammar(), plus(call(WSP)), CLEF as nat));
        assert(consuming(abc_grammar(), plus(call(WSP)), RULE_COUNT as nat));
    }
}

proof fn lemma_fields_bounded(i: int)
    requires
        75 <= i < 90,
    ensures
        left_bounded(abc_grammar(), fields_rule(i).body, i as nat),
{
    reveal_with_fuel(left_bounded, 24);
}

proof fn lemma_lines_bounded(i: int)
    requires
        90 <= i < 101,
    ensures
        left_bounded(abc_grammar(), lines_rule(i).body, i as nat),
{
    reveal_with_fuel(left_bounded, 24);
}

/// The grammar has no left recursion: each rule calls rules that stand
/// before it, but for the clef rule, which calls itself after whitespace.
pub proof fn lemma_abc_well_founded()
    ensures
        well_founded(abc_grammar()),
{
    let g = abc_grammar();
    assert forall|i: int| 0 <= i < g.len() implies left_bounded(
        g,
        (#[trigger] g[i]).body,
        i as nat,
    ) by {
        if i < 13 {
            lemma_lexical_bounded(i);
        } else if i < 35 {
            lemma_notes_bounded(i);
        } else if i < 44 {
            lemma_decorations_bounded(i);
        } else if i < 53 {
            lemma_chords_bounded(i);
        } else if i < 75 {
            lemma_keys_bounded(i);
        } else if i < 90 {
            lemma_fields_bounded(i);
        } else {
            lemma_lines_bounded(i);
        }
    }
}

} // verus!
