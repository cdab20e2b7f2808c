//! Token traces: the flat record of a parse, and the text it stands for.
//!
//! A trace lists the tokens of a parse with every parent before its
//! children. No token points at another: a token's descendants are the
//! tokens that follow it and start before its end.

use crate::token::{Rule, Token};
use vstd::prelude::*;

verus! {

/// Every token of `q` lies inside `[lo, hi]`.
pub open spec fn within(q: Seq<Token>, lo: nat, hi: nat) -> bool {
    forall|i: int| 0 <= i < q.len() ==> lo <= (#[trigger] q[i]).start <= q[i].end <= hi
}

/// A later token lies after an earlier one, or inside it: spans never
/// overlap in part.
pub open spec fn nested(q: Seq<Token>) -> bool {
    forall|i: int, j: int|
        0 <= i < j < q.len() ==> (#[trigger] q[j]).start >= (#[trigger] q[i]).end || (q[i].start
            <= q[j].start && q[j].end <= q[i].end)
}

/// `q` is the trace of a parse of an input of `n` bytes.
pub open spec fn well_formed(q: Seq<Token>, n: nat) -> bool {
    within(q, 0, n) && nested(q)
}

/// The first index from `j` on whose token starts at or after `limit`;
/// `q.len()` if there is none.
pub open spec fn skip_nested(q: Seq<Token>, limit: usize, j: int) -> int
    decreases q.len() - j,
{
    if 0 <= j < q.len() && q[j].start < limit {
        skip_nested(q, limit, j + 1)
    } else {
        j
    }
}

/// The index after the last descendant of token `i`.
pub open spec fn subtree_end(q: Seq<Token>, i: int) -> int {
    skip_nested(q, q[i].end, i + 1)
}

pub proof fn lemma_skip_nested(q: Seq<Token>, limit: usize, j: int)
    requires
        0 <= j <= q.len(),
    ensures
        j <= skip_nested(q, limit, j) <= q.len(),
        skip_nested(q, limit, j) < q.len() ==> q[skip_nested(q, limit, j)].start >= limit,
        forall|m: int| j <= m < skip_nested(q, limit, j) ==> (#[trigger] q[m]).start < limit,
    decreases q.len() - j,
{
    if j < q.len() && q[j].start < limit {
        lemma_skip_nested(q, limit, j + 1);
    }
}

/// Tokens that start before `limit` are skipped the same from anywhere
/// among them.
pub proof fn lemma_skip_nested_resume(q: Seq<Token>, limit: usize, j: int, m: int)
    requires
        0 <= j <= m <= skip_nested(q, limit, j),
        m <= q.len(),
    ensures
        skip_nested(q, limit, m) == skip_nested(q, limit, j),
    decreases m - j,
{
    if j < m {
        lemma_skip_nested(q, limit, j);
        lemma_skip_nested_resume(q, limit, j + 1, m);
    }
}

/// A lower limit stops the skipping no later.
pub proof fn lemma_skip_nested_mono(q: Seq<Token>, a: usize, b: usize, j: int)
    requires
        0 <= j <= q.len(),
        a <= b,
    ensures
        skip_nested(q, a, j) <= skip_nested(q, b, j),
    decreases q.len() - j,
{
    if j < q.len() && q[j].start < a {
        lemma_skip_nested_mono(q, a, b, j + 1);
    } else if j < q.len() && q[j].start < b {
        lemma_skip_nested(q, b, j + 1);
    }
}

/// In a well-formed trace, once a token starts at or after `limit` all
/// later ones do.
pub proof fn lemma_after_limit(q: Seq<Token>, n: nat, limit: usize, j: int, m: int)
    requires
        well_formed(q, n),
        0 <= j <= m < q.len(),
        q[j].start >= limit,
    ensures
        q[m].start >= limit,
{
}

/// The indices of the tokens from index `j` on that start before `limit`
/// and lie inside no other such token: siblings, in their order.
pub open spec fn siblings(q: Seq<Token>, j: int, limit: usize) -> Seq<int>
    decreases q.len() - j,
{
    if 0 <= j < q.len() && q[j].start < limit {
        proof {
            lemma_skip_nested(q, q[j].end, j + 1);
        }
        seq![j] + siblings(q, subtree_end(q, j), limit)
    } else {
        Seq::empty()
    }
}

/// The indices of the children of token `i`, in their order. A token
/// that no token follows which starts before its end is a leaf.
pub open spec fn children(q: Seq<Token>, i: int) -> Seq<int> {
    if 0 <= i < q.len() {
        siblings(q, i + 1, q[i].end)
    } else {
        Seq::empty()
    }
}

/// The part of the input that token `t` covers.
pub open spec fn span(input: Seq<u8>, t: Token) -> Seq<u8> {
    input.subrange(t.start as int, t.end as int)
}

/// Which rewrites a rendering applies.
pub struct Style {
    /// A whitespace run becomes one space.
    pub squash: bool,
    /// A separator inside quoted text becomes `;`.
    pub separators: bool,
    /// The text of a line ending loses the whitespace at its ends.
    pub trim: bool,
}

/// Every rewrite: the canonical form.
pub open spec fn canonical() -> Style {
    Style { squash: true, separators: true, trim: true }
}

/// No rewrite: every token stands for the text it covers.
pub open spec fn verbatim() -> Style {
    Style { squash: false, separators: false, trim: false }
}

/// The ASCII space.
pub const SPACE: u8 = 0x20;

/// The ASCII tab.
pub const TAB: u8 = 0x09;

/// The ASCII semicolon.
pub const SEMICOLON: u8 = 0x3b;

/// Whether `b` is a space or a tab.
pub open spec fn is_blank(b: u8) -> bool {
    b == SPACE || b == TAB
}

/// `t` without the spaces and tabs at its end.
pub open spec fn trim_end(t: Seq<u8>) -> Seq<u8>
    decreases t.len(),
{
    if t.len() > 0 && is_blank(t.last()) {
        trim_end(t.drop_last())
    } else {
        t
    }
}

/// `t` without the spaces and tabs at its start.
pub open spec fn trim_start(t: Seq<u8>) -> Seq<u8>
    decreases t.len(),
{
    if t.len() > 0 && is_blank(t.first()) {
        trim_start(t.drop_first())
    } else {
        t
    }
}

/// `t` without the spaces and tabs at its ends.
pub open spec fn trim(t: Seq<u8>) -> Seq<u8> {
    trim_start(trim_end(t))
}

/// `t` without its spaces and tabs.
pub open spec fn without_blanks(t: Seq<u8>) -> Seq<u8>
    decreases t.len(),
{
    if t.len() == 0 {
        t
    } else if is_blank(t.last()) {
        without_blanks(t.drop_last())
    } else {
        without_blanks(t.drop_last()).push(t.last())
    }
}

pub proof fn lemma_without_blanks_add(a: Seq<u8>, b: Seq<u8>)
    ensures
        without_blanks(a + b) == without_blanks(a) + without_blanks(b),
    decreases b.len(),
{
    if b.len() == 0 {
        assert(a + b =~= a);
        assert(without_blanks(a) + without_blanks(b) =~= without_blanks(a));
    } else {
        assert((a + b).drop_last() =~= a + b.drop_last());
        lemma_without_blanks_add(a, b.drop_last());
        assert(without_blanks(a + b) =~= without_blanks(a) + without_blanks(b));
    }
}

pub proof fn lemma_without_blanks_of_blanks(t: Seq<u8>)
    requires
        forall|p: int| 0 <= p < t.len() ==> is_blank(#[trigger] t[p]),
    ensures
        without_blanks(t) == Seq::<u8>::empty(),
    decreases t.len(),
{
    if t.len() > 0 {
        lemma_without_blanks_of_blanks(t.drop_last());
    }
}

pub proof fn lemma_without_blanks_trim_end(t: Seq<u8>)
    ensures
        without_blanks(trim_end(t)) == without_blanks(t),
    decreases t.len(),
{
    if t.len() > 0 && is_blank(t.last()) {
        lemma_without_blanks_trim_end(t.drop_last());
    }
}

pub proof fn lemma_without_blanks_trim_start(t: Seq<u8>)
    ensures
        without_blanks(trim_start(t)) == without_blanks(t),
    decreases t.len(),
{
    if t.len() > 0 && is_blank(t.first()) {
        lemma_without_blanks_trim_start(t.drop_first());
        assert(t =~= seq![t.first()] + t.drop_first());
        lemma_without_blanks_add(seq![t.first()], t.drop_first());
        lemma_without_blanks_of_blanks(seq![t.first()]);
        assert(Seq::<u8>::empty() + without_blanks(t.drop_first()) =~= without_blanks(
            t.drop_first(),
        ));
    }
}

pub proof fn lemma_without_blanks_trim(t: Seq<u8>)
    ensures
        without_blanks(trim(t)) == without_blanks(t),
{
    lemma_without_blanks_trim_end(t);
    lemma_without_blanks_trim_start(trim_end(t));
}

/// A text that has none but spaces and tabs holds nothing else.
pub proof fn lemma_without_blanks_empty(t: Seq<u8>)
    requires
        without_blanks(t).len() == 0,
    ensures
        forall|p: int| 0 <= p < t.len() ==> is_blank(#[trigger] t[p]),
    decreases t.len(),
{
    if t.len() > 0 {
        lemma_without_blanks_empty(t.drop_last());
        assert forall|p: int| 0 <= p < t.len() implies is_blank(#[trigger] t[p]) by {
            if p < t.len() - 1 {
                assert(t[p] == t.drop_last()[p]);
            }
        }
    }
}

/// What is left of a text without its leading blanks starts with none, and
/// ends as the text ended.
pub proof fn lemma_trim_start_ends(t: Seq<u8>)
    ensures
        trim_start(t).len() > 0 ==> !is_blank(trim_start(t).first()) && trim_start(t).last()
            == t.last(),
    decreases t.len(),
{
    if t.len() > 0 && is_blank(t.first()) {
        lemma_trim_start_ends(t.drop_first());
        if trim_start(t).len() > 0 {
            lemma_trim_start_len(t.drop_first());
            assert(t.drop_first().last() == t.last());
        }
    }
}

pub proof fn lemma_trim_start_len(t: Seq<u8>)
    ensures
        trim_start(t).len() <= t.len(),
    decreases t.len(),
{
    if t.len() > 0 && is_blank(t.first()) {
        lemma_trim_start_len(t.drop_first());
    }
}

/// What is left of a text without its trailing blanks ends with none.
pub proof fn lemma_trim_end_ends(t: Seq<u8>)
    ensures
        trim_end(t).len() > 0 ==> !is_blank(trim_end(t).last()),
    decreases t.len(),
{
    if t.len() > 0 && is_blank(t.last()) {
        lemma_trim_end_ends(t.drop_last());
    }
}

/// A trimmed text neither starts nor ends with a blank.
pub proof fn lemma_trim_ends(t: Seq<u8>)
    ensures
        trim(t).len() > 0 ==> !is_blank(trim(t).first()) && !is_blank(trim(t).last()),
{
    lemma_trim_end_ends(t);
    lemma_trim_start_ends(trim_end(t));
    lemma_trim_start_len(trim_end(t));
}

/// A trimmed text that holds at most one byte beside blanks is that byte,
/// or empty.
pub proof fn lemma_trim_bare(t: Seq<u8>)
    requires
        without_blanks(trim(t)).len() <= 1,
    ensures
        trim(t) == without_blanks(trim(t)),
{
    let r = trim(t);
    lemma_trim_ends(t);
    if r.len() > 0 {
        let head = r.drop_last();
        assert(without_blanks(r) == without_blanks(head).push(r.last()));
        lemma_without_blanks_empty(head);
        if head.len() > 0 {
            assert(head[0] == r.first());
        }
        assert(r =~= without_blanks(r));
    }
}

/// The text that token `i` stands for.
pub open spec fn render(q: Seq<Token>, input: Seq<u8>, i: int, style: Style) -> Seq<u8>
    decreases q.len() - i, 1nat,
{
    if 0 <= i < q.len() {
        match q[i].rule {
            Rule::Wsp if style.squash => seq![SPACE],
            Rule::ChordNewline if style.separators => seq![SEMICOLON],
            Rule::AbcEol if style.trim => trim(render_inside(q, input, i, style)),
            _ => render_inside(q, input, i, style),
        }
    } else {
        Seq::empty()
    }
}

/// The text of token `i` by the default rule: the texts of its children,
/// with the input between them, before the first and after the last.
pub open spec fn render_inside(q: Seq<Token>, input: Seq<u8>, i: int, style: Style) -> Seq<u8>
    decreases q.len() - i, 0nat,
{
    if 0 <= i < q.len() {
        render_forest(q, input, i + 1, q[i].start as int, q[i].end, style)
    } else {
        Seq::empty()
    }
}

/// The input from `from` to `limit`, with the tokens from index `j` on that
/// start before `limit` replaced by their texts.
pub open spec fn render_forest(
    q: Seq<Token>,
    input: Seq<u8>,
    j: int,
    from: int,
    limit: usize,
    style: Style,
) -> Seq<u8>
    decreases q.len() - j, 2nat,
{
    if 0 <= j < q.len() && q[j].start < limit {
        proof {
            lemma_skip_nested(q, q[j].end, j + 1);
        }
        input.subrange(from, q[j].start as int) + render(q, input, j, style) + render_forest(
            q,
            input,
            subtree_end(q, j),
            q[j].end as int,
            limit,
            style,
        )
    } else {
        input.subrange(from, limit as int)
    }
}

/// Whether the canonical text of token `i` is text of its own: a rewrite
/// applies to the token or to a token inside it. Where none does, the
/// canonical text of the token is its span of the input.
pub open spec fn rewritten(q: Seq<Token>, input: Seq<u8>, i: int) -> bool
    decreases q.len() - i, 1nat,
{
    if 0 <= i < q.len() {
        match q[i].rule {
            Rule::Wsp => span(input, q[i]) != seq![SPACE],
            Rule::ChordNewline => true,
            Rule::AbcEol => true,
            _ => rewritten_forest(q, input, i + 1, q[i].end),
        }
    } else {
        false
    }
}

/// Whether a rewrite applies among the tokens from index `j` on that start
/// before `limit`.
pub open spec fn rewritten_forest(q: Seq<Token>, input: Seq<u8>, j: int, limit: usize) -> bool
    decreases q.len() - j, 2nat,
{
    if 0 <= j < q.len() && q[j].start < limit {
        proof {
            lemma_skip_nested(q, q[j].end, j + 1);
        }
        rewritten(q, input, j) || rewritten_forest(q, input, subtree_end(q, j), limit)
    } else {
        false
    }
}

/// The texts of the top-level tokens from index `j` on, one after another.
pub open spec fn render_top(q: Seq<Token>, input: Seq<u8>, j: int, style: Style) -> Seq<u8>
    decreases q.len() - j,
{
    if 0 <= j < q.len() {
        proof {
            lemma_skip_nested(q, q[j].end, j + 1);
        }
        render(q, input, j, style) + render_top(q, input, subtree_end(q, j), style)
    } else {
        Seq::empty()
    }
}

/// The top-level tokens from index `j` on cover `[from, to)` with no gap
/// and no overlap: each starts where the one before it ended.
pub open spec fn tiles(q: Seq<Token>, j: int, from: nat, to: nat) -> bool
    decreases q.len() - j,
{
    if 0 <= j < q.len() {
        proof {
            lemma_skip_nested(q, q[j].end, j + 1);
        }
        q[j].start == from && tiles(q, subtree_end(q, j), q[j].end as nat, to)
    } else {
        from == to
    }
}

/// Every text is related to itself.
pub open spec fn reflexive(rel: spec_fn(Seq<u8>, Seq<u8>) -> bool) -> bool {
    forall|a: Seq<u8>| #[trigger] rel(a, a)
}

/// Related texts, put one after another, are related.
pub open spec fn joins(rel: spec_fn(Seq<u8>, Seq<u8>) -> bool) -> bool {
    forall|a: Seq<u8>, b: Seq<u8>, c: Seq<u8>, d: Seq<u8>|
        rel(a, b) && rel(c, d) ==> #[trigger] rel(a + c, b + d)
}

/// Each rewrite that `style` applies takes the span of its token to a text
/// related to it.
pub open spec fn rewrites_related(
    q: Seq<Token>,
    input: Seq<u8>,
    style: Style,
    rel: spec_fn(Seq<u8>, Seq<u8>) -> bool,
) -> bool {
    forall|i: int|
        0 <= i < q.len() ==> {
            &&& (#[trigger] q[i]).rule == Rule::Wsp && style.squash ==> rel(
                span(input, q[i]),
                seq![SPACE],
            )
            &&& q[i].rule == Rule::ChordNewline && style.separators ==> rel(
                span(input, q[i]),
                seq![SEMICOLON],
            )
            &&& q[i].rule == Rule::AbcEol && style.trim ==> forall|t: Seq<u8>|
                rel(span(input, q[i]), t) ==> #[trigger] rel(span(input, q[i]), trim(t))
        }
}

/// The text of a token is related to its span, for any relation that
/// holds of equal texts, goes through concatenation, and holds of what the
/// rewrites do.
pub proof fn lemma_render_related(
    q: Seq<Token>,
    input: Seq<u8>,
    i: int,
    style: Style,
    rel: spec_fn(Seq<u8>, Seq<u8>) -> bool,
)
    requires
        well_formed(q, input.len()),
        0 <= i < q.len(),
        reflexive(rel),
        joins(rel),
        rewrites_related(q, input, style, rel),
    ensures
        rel(span(input, q[i]), render(q, input, i, style)),
        rel(span(input, q[i]), render_inside(q, input, i, style)),
    decreases q.len() - i, 1nat,
{
    assert forall|m: int| i + 1 <= m < q.len() && q[m].start < q[i].end implies (#[trigger] q[m]).end
        <= q[i].end by {}
    if i + 1 < q.len() {
        assert(q[i + 1].start >= q[i].start);
    }
    lemma_forest_related(q, input, i + 1, q[i].start as int, q[i].end, style, rel);
    let inside = render_inside(q, input, i, style);
    assert(rel(span(input, q[i]), inside));
    if q[i].rule == Rule::AbcEol && style.trim {
        assert(rel(span(input, q[i]), trim(inside)));
    }
}

/// The text of a run of sibling tokens, with the input around them, is
/// related to the input that it stands for.
pub proof fn lemma_forest_related(
    q: Seq<Token>,
    input: Seq<u8>,
    j: int,
    from: int,
    limit: usize,
    style: Style,
    rel: spec_fn(Seq<u8>, Seq<u8>) -> bool,
)
    requires
        well_formed(q, input.len()),
        0 <= j <= q.len(),
        0 <= from <= limit <= input.len(),
        j < q.len() ==> from <= q[j].start,
        forall|m: int| j <= m < q.len() && q[m].start < limit ==> (#[trigger] q[m]).end <= limit,
        reflexive(rel),
        joins(rel),
        rewrites_related(q, input, style, rel),
    ensures
        rel(input.subrange(from, limit as int), render_forest(q, input, j, from, limit, style)),
    decreases q.len() - j, 2nat,
{
    if j < q.len() && q[j].start < limit {
        let next = subtree_end(q, j);
        lemma_skip_nested(q, q[j].end, j + 1);
        lemma_render_related(q, input, j, style, rel);
        lemma_forest_related(q, input, next, q[j].end as int, limit, style, rel);
        let gap = input.subrange(from, q[j].start as int);
        let here = render(q, input, j, style);
        let rest = render_forest(q, input, next, q[j].end as int, limit, style);
        assert(rel(gap, gap));
        assert(rel(gap + span(input, q[j]), gap + here));
        assert(rel(
            gap + span(input, q[j]) + input.subrange(q[j].end as int, limit as int),
            gap + here + rest,
        ));
        assert(gap + span(input, q[j]) + input.subrange(q[j].end as int, limit as int)
            =~= input.subrange(from, limit as int));
    } else {
        assert(rel(input.subrange(from, limit as int), input.subrange(from, limit as int)));
    }
}

/// The texts of the top-level tokens, where these tile a part of the input,
/// are related to that part.
pub proof fn lemma_top_related(
    q: Seq<Token>,
    input: Seq<u8>,
    j: int,
    from: nat,
    to: nat,
    style: Style,
    rel: spec_fn(Seq<u8>, Seq<u8>) -> bool,
)
    requires
        well_formed(q, input.len()),
        0 <= j <= q.len(),
        from <= input.len(),
        tiles(q, j, from, to),
        reflexive(rel),
        joins(rel),
        rewrites_related(q, input, style, rel),
    ensures
        from <= to <= input.len(),
        rel(input.subrange(from as int, to as int), render_top(q, input, j, style)),
    decreases q.len() - j,
{
    if j < q.len() {
        let next = subtree_end(q, j);
        lemma_skip_nested(q, q[j].end, j + 1);
        lemma_render_related(q, input, j, style, rel);
        lemma_top_related(q, input, next, q[j].end as nat, to, style, rel);
        assert(rel(
            span(input, q[j]) + input.subrange(q[j].end as int, to as int),
            render(q, input, j, style) + render_top(q, input, next, style),
        ));
        assert(span(input, q[j]) + input.subrange(q[j].end as int, to as int)
            =~= input.subrange(from as int, to as int));
    } else {
        assert(rel(
            input.subrange(from as int, to as int),
            input.subrange(from as int, to as int),
        ));
        assert(input.subrange(from as int, to as int) =~= Seq::<u8>::empty());
    }
}

} // verus!
