//! The canonical text of a line of UTF-8 is UTF-8.
//!
//! The parser works on bytes, and a token may end inside a character. The
//! rewrites only ever replace ASCII by ASCII, so the characters around
//! them stay whole.

use crate::canon::{accepts, canonical_text, parse_trace};
use crate::laws::lemma_parse_shape;
use crate::lexis::{all_ascii, all_blank, lemma_chord_newline_token, lemma_wsp_token};
use crate::token::Rule;
use crate::trace::{
    canonical, is_blank, joins, lemma_top_related, reflexive, rewrites_related, span, trim,
    trim_end, trim_start, SEMICOLON, SPACE,
};
use vstd::prelude::*;
use vstd::utf8::{
    decode_utf8, is_char_boundary, is_char_boundary_iff_not_is_continuation_byte,
    is_continuation_byte, is_leading_byte_width_1, length_of_first_scalar, partial_valid_utf8,
    partial_valid_utf8_extend_ascii_block, pop_first_scalar, valid_first_scalar, valid_utf8,
    valid_utf8_concat, valid_utf8_split,
};

verus! {

/// Wherever `a` stands in UTF-8 text, `b` can stand in its place.
pub open spec fn keeps_utf8(a: Seq<u8>, b: Seq<u8>) -> bool {
    forall|u: Seq<u8>, v: Seq<u8>| #[trigger] valid_utf8(u + a + v) ==> valid_utf8(u + b + v)
}

pub open spec fn keeping_utf8() -> spec_fn(Seq<u8>, Seq<u8>) -> bool {
    |a: Seq<u8>, b: Seq<u8>| keeps_utf8(a, b)
}

/// ASCII text is UTF-8.
pub proof fn lemma_ascii_is_utf8(a: Seq<u8>)
    requires
        all_ascii(a),
    ensures
        valid_utf8(a),
{
    assert(a.subrange(0, 0) =~= Seq::<u8>::empty());
    assert(partial_valid_utf8(a, 0));
    assert forall|i: int| 0 <= i < a.len() implies #[trigger] is_leading_byte_width_1(a[i]) by {}
    partial_valid_utf8_extend_ascii_block(a, 0, a.len() as int);
    assert(a.subrange(0, a.len() as int) =~= a);
}

/// What follows ASCII text in UTF-8 text is UTF-8.
pub proof fn lemma_after_ascii(a: Seq<u8>, v: Seq<u8>)
    requires
        all_ascii(a),
        valid_utf8(a + v),
    ensures
        valid_utf8(v),
    decreases a.len(),
{
    if a.len() == 0 {
        assert(a + v =~= v);
    } else {
        let x = a + v;
        assert(x[0] == a[0]);
        assert(is_leading_byte_width_1(x[0]));
        assert(length_of_first_scalar(x) == 1);
        assert(pop_first_scalar(x) =~= a.drop_first() + v);
        lemma_after_ascii(a.drop_first(), v);
    }
}

/// UTF-8 text parts in two before an ASCII byte.
pub proof fn lemma_split_before_ascii(u: Seq<u8>, w: Seq<u8>)
    requires
        valid_utf8(u + w),
        w.len() > 0,
        w[0] < 0x80,
    ensures
        valid_utf8(u),
        valid_utf8(w),
{
    let x = u + w;
    assert(x[u.len() as int] == w[0]);
    is_char_boundary_iff_not_is_continuation_byte(x, u.len() as int);
    valid_utf8_split(x, u.len() as int);
    assert(x.subrange(0, u.len() as int) =~= u);
    assert(x.subrange(u.len() as int, x.len() as int) =~= w);
}

/// ASCII text can stand in the place of ASCII text that is not empty.
pub proof fn lemma_ascii_for_ascii(a: Seq<u8>, b: Seq<u8>)
    requires
        a.len() > 0,
        all_ascii(a),
        all_ascii(b),
    ensures
        keeps_utf8(a, b),
{
    assert forall|u: Seq<u8>, v: Seq<u8>| #[trigger] valid_utf8(u + a + v) implies valid_utf8(
        u + b + v,
    ) by {
        assert(u + a + v =~= u + (a + v));
        assert((a + v)[0] == a[0]);
        lemma_split_before_ascii(u, a + v);
        lemma_after_ascii(a, v);
        lemma_ascii_is_utf8(b);
        valid_utf8_concat(u, b);
        valid_utf8_concat(u + b, v);
    }
}

/// A text is what is left of it without its trailing blanks, and then
/// blanks.
pub proof fn lemma_trim_end_split(t: Seq<u8>)
    ensures
        trim_end(t).len() <= t.len(),
        trim_end(t) == t.subrange(0, trim_end(t).len() as int),
        all_blank(t.subrange(trim_end(t).len() as int, t.len() as int)),
    decreases t.len(),
{
    if t.len() > 0 && is_blank(t.last()) {
        let r = t.drop_last();
        lemma_trim_end_split(r);
        let n = trim_end(t).len() as int;
        assert(trim_end(t) =~= t.subrange(0, n));
        assert forall|p: int| 0 <= p < t.len() - n implies is_blank(
            #[trigger] t.subrange(n, t.len() as int)[p],
        ) by {
            if p < r.len() - n {
                assert(t.subrange(n, t.len() as int)[p] == r.subrange(n, r.len() as int)[p]);
            }
        }
    } else {
        assert(t.subrange(0, t.len() as int) =~= t);
    }
}

/// What can stand in a place can stand there without its trailing blanks.
pub proof fn lemma_trim_end_keeps_utf8(a: Seq<u8>, t: Seq<u8>)
    requires
        keeps_utf8(a, t),
    ensures
        keeps_utf8(a, trim_end(t)),
{
    lemma_trim_end_split(t);
    let head = trim_end(t);
    let tail = t.subrange(head.len() as int, t.len() as int);
    assert(t =~= head + tail);
    assert forall|u: Seq<u8>, v: Seq<u8>| #[trigger] valid_utf8(u + a + v) implies valid_utf8(
        u + head + v,
    ) by {
        assert(valid_utf8(u + t + v));
        if tail.len() == 0 {
            assert(head =~= t);
        } else {
            assert(u + t + v =~= (u + head) + (tail + v));
            assert((tail + v)[0] == tail[0]);
            lemma_split_before_ascii(u + head, tail + v);
            lemma_after_ascii(tail, v);
            valid_utf8_concat(u + head, v);
        }
    }
}

/// A text is blanks, and then what is left of it without its leading
/// blanks.
pub proof fn lemma_trim_start_split(t: Seq<u8>)
    ensures
        trim_start(t).len() <= t.len(),
        trim_start(t) == t.subrange(t.len() - trim_start(t).len(), t.len() as int),
        all_blank(t.subrange(0, t.len() - trim_start(t).len())),
    decreases t.len(),
{
    if t.len() > 0 && is_blank(t.first()) {
        let r = t.drop_first();
        lemma_trim_start_split(r);
        let n = t.len() - trim_start(t).len();
        assert(trim_start(t) =~= t.subrange(n, t.len() as int));
        assert forall|p: int| 0 <= p < n implies is_blank(#[trigger] t.subrange(0, n)[p]) by {
            if p > 0 {
                assert(t.subrange(0, n)[p] == r.subrange(0, n - 1)[p - 1]);
            }
        }
    } else {
        assert(t.subrange(0, t.len() as int) =~= t);
    }
}

/// What can stand in a place can stand there without its leading blanks.
pub proof fn lemma_trim_start_keeps_utf8(a: Seq<u8>, t: Seq<u8>)
    requires
        keeps_utf8(a, t),
    ensures
        keeps_utf8(a, trim_start(t)),
{
    lemma_trim_start_split(t);
    let tail = trim_start(t);
    let head = t.subrange(0, t.len() - tail.len());
    assert(t =~= head + tail);
    assert forall|u: Seq<u8>, v: Seq<u8>| #[trigger] valid_utf8(u + a + v) implies valid_utf8(
        u + tail + v,
    ) by {
        assert(valid_utf8(u + t + v));
        if head.len() == 0 {
            assert(tail =~= t);
        } else {
            assert(u + t + v =~= u + (head + (tail + v)));
            assert((head + (tail + v))[0] == head[0]);
            lemma_split_before_ascii(u, head + (tail + v));
            lemma_after_ascii(head, tail + v);
            valid_utf8_concat(u, tail + v);
            assert(u + (tail + v) =~= u + tail + v);
        }
    }
}

/// What can stand in a place can stand there without the blanks at its
/// ends.
pub proof fn lemma_trim_keeps_utf8(a: Seq<u8>, t: Seq<u8>)
    requires
        keeps_utf8(a, t),
    ensures
        keeps_utf8(a, trim(t)),
{
    lemma_trim_end_keeps_utf8(a, t);
    lemma_trim_start_keeps_utf8(a, trim_end(t));
}

pub proof fn lemma_keeps_utf8_joins(a: Seq<u8>, b: Seq<u8>, c: Seq<u8>, d: Seq<u8>)
    requires
        keeps_utf8(a, b),
        keeps_utf8(c, d),
    ensures
        keeps_utf8(a + c, b + d),
{
    assert forall|u: Seq<u8>, v: Seq<u8>| #[trigger] valid_utf8(u + (a + c) + v) implies valid_utf8(
        u + (b + d) + v,
    ) by {
        assert(u + (a + c) + v =~= u + a + (c + v));
        assert(valid_utf8(u + b + (c + v)));
        assert(u + b + (c + v) =~= (u + b) + c + v);
        assert(valid_utf8((u + b) + d + v));
        assert((u + b) + d + v =~= u + (b + d) + v);
    }
}

/// The canonical text of an accepted line of UTF-8 is UTF-8.
pub proof fn lemma_canonical_is_utf8(line: Seq<u8>)
    requires
        line.len() <= usize::MAX,
        accepts(line),
        valid_utf8(line),
    ensures
        valid_utf8(canonical_text(line)),
{
    lemma_parse_shape(line);
    let q = parse_trace(line);
    let rel = keeping_utf8();
    assert(reflexive(rel));
    assert forall|a: Seq<u8>, b: Seq<u8>, c: Seq<u8>, d: Seq<u8>|
        rel(a, b) && rel(c, d) implies #[trigger] rel(a + c, b + d) by {
        lemma_keeps_utf8_joins(a, b, c, d);
    }
    assert forall|i: int| 0 <= i < q.len() implies {
        &&& (#[trigger] q[i]).rule == Rule::Wsp ==> rel(span(line, q[i]), seq![SPACE])
        &&& q[i].rule == Rule::ChordNewline ==> rel(span(line, q[i]), seq![SEMICOLON])
        &&& q[i].rule == Rule::AbcEol ==> forall|t: Seq<u8>|
            rel(span(line, q[i]), t) ==> #[trigger] rel(span(line, q[i]), trim(t))
    } by {
        if q[i].rule == Rule::Wsp {
            lemma_wsp_token(line, q[i]);
            lemma_ascii_for_ascii(span(line, q[i]), seq![SPACE]);
        }
        if q[i].rule == Rule::ChordNewline {
            lemma_chord_newline_token(line, q[i]);
            lemma_ascii_for_ascii(span(line, q[i]), seq![SEMICOLON]);
        }
        assert forall|t: Seq<u8>| rel(span(line, q[i]), t) implies #[trigger] rel(
            span(line, q[i]),
            trim(t),
        ) by {
            lemma_trim_keeps_utf8(span(line, q[i]), t);
        }
    }
    lemma_top_related(q, line, 0, 0, line.len(), canonical(), rel);
    let c = canonical_text(line);
    assert(line.subrange(0, line.len() as int) =~= line);
    assert(keeps_utf8(line, c));
    assert(Seq::<u8>::empty() + line + Seq::<u8>::empty() =~= line);
    assert(Seq::<u8>::empty() + c + Seq::<u8>::empty() =~= c);
}

/// The text that `bytes` encode, where they are UTF-8.
///
/// This is `String::from_utf8`, which gives the text exactly when the bytes
/// are UTF-8, and an error otherwise.
#[verifier::external_body]
pub(crate) fn string_from_utf8(bytes: Vec<u8>) -> (r: Option<String>)
    ensures
        r is Some <==> valid_utf8(bytes@),
        r matches Some(s) ==> s@ == decode_utf8(bytes@),
{
    match String::from_utf8(bytes) {
        Ok(s) => Some(s),
        Err(_) => None,
    }
}

} // verus!
