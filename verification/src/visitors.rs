//! The walk over a token trace that builds the canonical text.

use crate::canon::canonical_text;
use crate::encoding::{lemma_canonical_is_utf8, string_from_utf8};
use crate::rdp::Rdp;
use crate::rstring::{push_bytes, push_span, RSlice, RString};
use crate::token::{Rule, Token};
use crate::trace::{
    canonical, children, lemma_skip_nested, lemma_skip_nested_mono, lemma_skip_nested_resume,
    render, siblings,
    render_forest, render_inside, render_top, rewritten, rewritten_forest, skip_nested, span,
    subtree_end, trim, trim_end, trim_start, well_formed, SEMICOLON, SPACE, TAB,
};
use vstd::pervasive::unreached;
use vstd::prelude::*;
use vstd::utf8::{decode_utf8, valid_utf8};

verus! {

/// The first index from `j` on whose token starts at or after `limit`.
pub fn skip_tokens(q: &Vec<Token>, limit: usize, j: usize) -> (r: usize)
    ensures
        r == skip_nested(q@, limit, j as int),
        j <= r,
        j <= q@.len() ==> r <= q@.len(),
{
    let mut r = j;
    while r < q.len() && q[r].start < limit
        invariant
            j <= r,
            j <= q@.len() ==> r <= q@.len(),
            skip_nested(q@, limit, r as int) == skip_nested(q@, limit, j as int),
        decreases q@.len() - r,
    {
        r += 1;
    }
    r
}

/// The indices of the children of token `i`, in their order: the tokens
/// after it that start before its end, but for those that lie inside
/// another of them. One pass over the descendants of the token finds them.
pub fn children_of(q: &Vec<Token>, i: usize) -> (found: Vec<usize>)
    ensures
        found@.len() == children(q@, i as int).len(),
        forall|m: int| 0 <= m < found@.len() ==> found@[m] == children(q@, i as int)[m],
{
    let mut found: Vec<usize> = Vec::new();
    if i >= q.len() {
        return found;
    }
    let limit = q[i].end;
    let mut j = i + 1;
    let ghost all = siblings(q@, i + 1, limit);
    let ghost mut rest = all;
    while j < q.len() && q[j].start < limit
        invariant
            i < j <= q@.len(),
            rest == siblings(q@, j as int, limit),
            all.len() == found@.len() + rest.len(),
            forall|m: int| 0 <= m < found@.len() ==> found@[m] == all[m],
            forall|m: int| 0 <= m < rest.len() ==> rest[m] == all[found@.len() + m],
        decreases q@.len() - j,
    {
        proof {
            lemma_skip_nested(q@, q@[j as int].end, j + 1);
        }
        let ghost here = rest;
        found.push(j);
        j = skip_tokens(q, q[j].end, j + 1);
        proof {
            rest = siblings(q@, j as int, limit);
            assert(here == seq![here[0]] + rest);
            assert forall|m: int| 0 <= m < rest.len() implies rest[m] == all[found@.len() + m] by {
                assert(rest[m] == here[m + 1]);
            }
        }
    }
    found
}

/// `t` without the spaces and tabs at its ends.
pub fn trim_blanks(t: Vec<u8>) -> (r: Vec<u8>)
    ensures
        r@ == trim(t@),
{
    let mut t = t;
    let ghost whole = t@;
    let mut n = t.len();
    assert(whole.subrange(0, whole.len() as int) =~= whole);
    while n > 0 && (t[n - 1] == SPACE || t[n - 1] == TAB)
        invariant
            t@ == whole,
            n <= whole.len(),
            trim_end(whole.subrange(0, n as int)) == trim_end(whole),
        decreases n,
    {
        assert(whole.subrange(0, n as int).drop_last() =~= whole.subrange(0, n - 1));
        n -= 1;
    }
    let ghost kept = whole.subrange(0, n as int);
    let mut m: usize = 0;
    assert(kept.subrange(0, n as int) =~= kept);
    while m < n && (t[m] == SPACE || t[m] == TAB)
        invariant
            t@ == whole,
            m <= n <= whole.len(),
            kept == whole.subrange(0, n as int),
            trim_start(kept.subrange(m as int, n as int)) == trim_start(kept),
        decreases n - m,
    {
        assert(kept.subrange(m as int, n as int).drop_first() =~= kept.subrange(m + 1, n as int));
        m += 1;
    }
    assert(kept.subrange(m as int, n as int) =~= whole.subrange(m as int, n as int));
    if m == 0 {
        t.truncate(n);
        assert(t@ =~= whole.subrange(0, n as int));
        t
    } else {
        let mut r: Vec<u8> = Vec::new();
        push_span(&mut r, t.as_slice(), m, n);
        r
    }
}

/// The text of token `i` by the default rule, and the index after its
/// descendants: the texts of its children, with the input between them,
/// before the first and after the last.
pub fn gather_children(i: usize, q: &Vec<Token>, qlen: usize, input: &[u8]) -> (r: (
    RString,
    usize,
))
    requires
        well_formed(q@, input@.len()),
        qlen == q@.len(),
        i < qlen,
    ensures
        r.0.fits(input@),
        r.0.text(input@) == render_inside(q@, input@, i as int, canonical()),
        rewritten_forest(q@, input@, i + 1, q@[i as int].end) ==> r.0 is Str,
        !rewritten_forest(q@, input@, i + 1, q@[i as int].end) ==> r.0 == RString::Slice(
            RSlice { start: q@[i as int].start, end: q@[i as int].end },
        ),
        r.1 == subtree_end(q@, i as int),
        i < r.1 <= qlen,
    decreases qlen - i, 0nat,
{
    let limit = q[i].end;
    let mut child_i = i + 1;
    proof {
        lemma_skip_nested(q@, limit, i + 1);
    }
    if child_i < qlen && q[child_i].start < limit {
        // there are children to recurse into
        let mut text_offset = q[i].start;
        let mut rstr;
        let ghost first = child_i as int;
        proof {
            lemma_skip_nested(q@, q[first].end, first + 1);
            lemma_skip_nested_mono(q@, q[first].end, limit, first + 1);
            lemma_skip_nested_resume(q@, limit, first, subtree_end(q@, first));
        }
        if text_offset < q[child_i].start {
            // gather plain text before first child
            rstr = RString::from_slice(text_offset, q[child_i].start);
            // gather first child
            let (rstr2, new_i) = recurse_children(child_i, q, qlen, input);
            rstr = rstr.add(rstr2, input);
            text_offset = q[child_i].end;
            child_i = new_i;
        } else {
            // gather first child
            let (rstr2, new_i) = recurse_children(child_i, q, qlen, input);
            rstr = rstr2;
            assert(rstr.text(input@) =~= input@.subrange(text_offset as int, q@[first].start as int)
                + render(q@, input@, first, canonical()));
            text_offset = q[child_i].end;
            child_i = new_i;
        }
        while child_i < qlen && q[child_i].start < limit
            invariant
                well_formed(q@, input@.len()),
                qlen == q@.len(),
                i < qlen,
                limit == q@[i as int].end,
                i < child_i <= qlen,
                text_offset <= limit <= input@.len(),
                child_i < qlen ==> q@[child_i as int].start >= text_offset,
                rstr.fits(input@),
                rstr is Slice ==> rstr == RString::Slice(
                    RSlice { start: q@[i as int].start, end: text_offset },
                ),
                (rstr is Str || rewritten_forest(q@, input@, child_i as int, limit))
                    == rewritten_forest(q@, input@, i + 1, limit),
                skip_nested(q@, limit, child_i as int) == subtree_end(q@, i as int),
                rstr.text(input@) + render_forest(
                    q@,
                    input@,
                    child_i as int,
                    text_offset as int,
                    limit,
                    canonical(),
                ) == render_inside(q@, input@, i as int, canonical()),
            decreases qlen - child_i,
        {
            let ghost c = child_i as int;
            let ghost before = rstr.text(input@);
            let ghost gap = input@.subrange(text_offset as int, q@[c].start as int);
            proof {
                lemma_skip_nested(q@, q[c].end, c + 1);
                lemma_skip_nested_mono(q@, q[c].end, limit, c + 1);
                lemma_skip_nested_resume(q@, limit, c, subtree_end(q@, c));
            }
            // gather plain text before child, if any
            if text_offset < q[child_i].start {
                rstr = rstr.add(RString::from_slice(text_offset, q[child_i].start), input);
            }
            assert(rstr.text(input@) =~= before + gap);
            // gather child
            let (rstr2, new_i) = recurse_children(child_i, q, qlen, input);
            rstr = rstr.add(rstr2, input);
            text_offset = q[child_i].end;
            child_i = new_i;
            assert(rstr.text(input@) + render_forest(
                q@,
                input@,
                child_i as int,
                text_offset as int,
                limit,
                canonical(),
            ) =~= before + (gap + render(q@, input@, c, canonical()) + render_forest(
                q@,
                input@,
                subtree_end(q@, c),
                q@[c].end as int,
                limit,
                canonical(),
            )));
        }
        // gather plain text after last child, if any
        let ghost before = rstr.text(input@);
        if text_offset < limit {
            rstr = rstr.add(RString::from_slice(text_offset, limit), input);
        }
        assert(rstr.text(input@) =~= before + input@.subrange(text_offset as int, limit as int));
        (rstr, child_i)
    } else {
        // no children, just return the text of this match
        (RString::from_slice(q[i].start, q[i].end), i + 1)
    }
}

/// The canonical text of token `i`, and the index after its descendants.
pub fn recurse_children(i: usize, q: &Vec<Token>, qlen: usize, input: &[u8]) -> (r: (
    RString,
    usize,
))
    requires
        well_formed(q@, input@.len()),
        qlen == q@.len(),
        i < qlen,
    ensures
        r.0.fits(input@),
        r.0.text(input@) == render(q@, input@, i as int, canonical()),
        rewritten(q@, input@, i as int) ==> r.0 is Str,
        !rewritten(q@, input@, i as int) ==> r.0 == RString::Slice(
            RSlice { start: q@[i as int].start, end: q@[i as int].end },
        ),
        r.1 == subtree_end(q@, i as int),
        i < r.1 <= qlen,
    decreases qlen - i, 1nat,
{
    match q[i].rule {
        Rule::AbcEol => {
            let (rstr, new_i) = gather_children(i, q, qlen, input);
            // trim the whitespace around the continuation mark
            let s = trim_blanks(rstr.to_string(input));
            (RString::Str(s), new_i)
        },
        Rule::ChordNewline => {
            // canonicize to ';'
            let mut s: Vec<u8> = Vec::new();
            s.push(SEMICOLON);
            assert(s@ =~= seq![SEMICOLON]);
            (RString::Str(s), skip_tokens(q, q[i].end, i + 1))
        },
        Rule::Wsp => {
            // squash any whitespace to a single space
            let new_i = skip_tokens(q, q[i].end, i + 1);
            if q[i].end - q[i].start == 1 && input[q[i].start] == SPACE {
                assert(span(input@, q@[i as int]) =~= seq![SPACE]);
                (RString::from_slice(q[i].start, q[i].end), new_i)
            } else {
                assert(span(input@, q@[i as int]) != seq![SPACE]) by {
                    if span(input@, q@[i as int]) == seq![SPACE] {
                        assert(span(input@, q@[i as int]).len() == 1);
                        assert(span(input@, q@[i as int])[0] == SPACE);
                    }
                }
                let mut s: Vec<u8> = Vec::new();
                s.push(SPACE);
                assert(s@ =~= seq![SPACE]);
                (RString::Str(s), new_i)
            }
        },
        _ => {
            // default rule, recursively gather children, if any
            gather_children(i, q, qlen, input)
        },
    }
}

/// The canonical text of what the parser has matched: the canonical texts
/// of its top-level tokens, one after another.
pub fn visit_parse_tree(parser: &Rdp) -> (result: Vec<u8>)
    requires
        parser.wf(),
    ensures
        result@ == render_top(parser.trace(), parser.text(), 0, canonical()),
{
    let q = parser.queue();
    let qlen = q.len();
    let input = parser.input();
    proof {
        parser.lemma_wf();
    }
    let mut result: Vec<u8> = Vec::new();
    let mut i: usize = 0;
    while i < qlen
        invariant
            well_formed(q@, input@.len()),
            qlen == q@.len(),
            i <= qlen,
            result@ + render_top(q@, input@, i as int, canonical()) == render_top(
                q@,
                input@,
                0,
                canonical(),
            ),
        decreases qlen - i,
    {
        let ghost before = result@;
        let ghost here = i as int;
        let (rstring, new_i) = recurse_children(i, q, qlen, input);
        i = new_i;
        push_bytes(&mut result, &rstring.to_string(input));
        assert(result@ + render_top(q@, input@, i as int, canonical()) =~= before + (render(
            q@,
            input@,
            here,
            canonical(),
        ) + render_top(q@, input@, subtree_end(q@, here), canonical())));
    }
    assert(result@ + Seq::<u8>::empty() =~= result@);
    result
}

/// The canonical text of the line that the parser has matched.
pub fn canonify_abc_visitor(parser: &Rdp) -> (text: String)
    requires
        parser.wf(),
        parser.matched_line(),
    ensures
        valid_utf8(canonical_text(parser.text())),
        text@ == decode_utf8(canonical_text(parser.text())),
{
    proof {
        parser.lemma_wf();
        lemma_canonical_is_utf8(parser.text());
    }
    match string_from_utf8(visit_parse_tree(parser)) {
        Some(text) => text,
        None => unreached(),
    }
}

} // verus!
