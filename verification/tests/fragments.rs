use abcparser_peg::rstring::{push_bytes, push_span, RSlice, RString};
use abcparser_peg::token::{Rule, Token};
use abcparser_peg::visitors::{
    children_of, gather_children, recurse_children, skip_tokens, trim_blanks,
};

fn slice_of(r: &RString) -> Option<(usize, usize)> {
    match r {
        RString::Slice(RSlice { start, end }) => Some((*start, *end)),
        RString::Str(_) => None,
    }
}

fn owned(r: &RString) -> Option<Vec<u8>> {
    match r {
        RString::Slice(_) => None,
        RString::Str(t) => Some(t.clone()),
    }
}

#[test]
fn adjacent_spans_become_one_span() {
    let input = b"abcdef";
    let r = RString::from_slice(1, 3).add(RString::from_slice(3, 5), input);
    assert_eq!(slice_of(&r), Some((1, 5)));
    assert_eq!(r.to_string(input), b"bcde".to_vec());
}

#[test]
fn an_empty_span_joins_its_neighbour() {
    let input = b"abcdef";
    let r = RString::from_slice(2, 2).add(RString::from_slice(2, 4), input);
    assert_eq!(slice_of(&r), Some((2, 4)));
}

#[test]
fn spans_apart_become_text() {
    let input = b"abcdef";
    let r = RString::from_slice(0, 2).add(RString::from_slice(3, 5), input);
    assert_eq!(owned(&r), Some(b"abde".to_vec()));
    let r = RString::from_slice(3, 5).add(RString::from_slice(0, 2), input);
    assert_eq!(owned(&r), Some(b"deab".to_vec()));
}

#[test]
fn span_and_text_become_text() {
    let input = b"abcdef";
    let r = RString::from_slice(0, 2).add(RString::from_str(b"XY"), input);
    assert_eq!(owned(&r), Some(b"abXY".to_vec()));
    let r = RString::from_str(b"XY").add(RString::from_slice(4, 6), input);
    assert_eq!(owned(&r), Some(b"XYef".to_vec()));
    let r = RString::from_str(b"XY").add(RString::from_str(b"Z"), input);
    assert_eq!(owned(&r), Some(b"XYZ".to_vec()));
}

#[test]
fn text_of_a_fragment() {
    let input = b"abcdef";
    assert_eq!(RString::from_slice(2, 5).to_string(input), b"cde".to_vec());
    assert_eq!(RString::from_slice(6, 6).to_string(input), Vec::<u8>::new());
    assert_eq!(RString::from_str(b"xyz").to_string(input), b"xyz".to_vec());
    assert_eq!(owned(&RString::from_str(b"")), Some(vec![]));
}

#[test]
fn bytes_are_appended() {
    let mut out = b"ab".to_vec();
    push_span(&mut out, b"012345", 2, 4);
    assert_eq!(out, b"ab23".to_vec());
    push_span(&mut out, b"012345", 3, 3);
    assert_eq!(out, b"ab23".to_vec());
    push_bytes(&mut out, &b"xy".to_vec());
    assert_eq!(out, b"ab23xy".to_vec());
    push_bytes(&mut out, &Vec::new());
    assert_eq!(out, b"ab23xy".to_vec());
}

#[test]
fn blanks_at_the_ends_are_trimmed() {
    assert_eq!(trim_blanks(b"\\ \t ".to_vec()), b"\\".to_vec());
    assert_eq!(trim_blanks(b" \t\\ ".to_vec()), b"\\".to_vec());
    assert_eq!(trim_blanks(b" a b ".to_vec()), b"a b".to_vec());
    assert_eq!(trim_blanks(b"a \t b".to_vec()), b"a \t b".to_vec());
    assert_eq!(trim_blanks(b" \t".to_vec()), Vec::<u8>::new());
    assert_eq!(trim_blanks(Vec::new()), Vec::<u8>::new());
    assert_eq!(trim_blanks(b"a\n".to_vec()), b"a\n".to_vec());
    assert_eq!(trim_blanks(b"\n a".to_vec()), b"\n a".to_vec());
}

fn trace() -> (Vec<Token>, &'static [u8]) {
    // a note, a whitespace run, quoted text with a separator, a space and a
    // bar line
    let input: &'static [u8] = b"A \t\"x\\ny\" |";
    let q = vec![
        Token::new(Rule::AbcLine, 0, 11),
        Token::new(Rule::Note, 0, 1),
        Token::new(Rule::Basenote, 0, 1),
        Token::new(Rule::Wsp, 1, 3),
        Token::new(Rule::ChordOrText, 3, 9),
        Token::new(Rule::NonQuote, 4, 5),
        Token::new(Rule::ChordNewline, 5, 7),
        Token::new(Rule::NonQuote, 7, 8),
        Token::new(Rule::Wsp, 9, 10),
        Token::new(Rule::Barline, 10, 11),
        Token::new(Rule::AbcEol, 11, 11),
    ];
    (q, input)
}

#[test]
fn tokens_are_skipped_up_to_a_limit() {
    let (q, _) = trace();
    assert_eq!(skip_tokens(&q, 11, 1), 10);
    assert_eq!(skip_tokens(&q, 9, 5), 8);
    assert_eq!(skip_tokens(&q, 1, 2), 3);
    assert_eq!(skip_tokens(&q, 3, 4), 4);
    assert_eq!(skip_tokens(&q, 12, 0), 11);
    assert_eq!(skip_tokens(&q, 5, 11), 11);
}

#[test]
fn a_leaf_is_its_span() {
    let (q, input) = trace();
    let (r, next) = recurse_children(2, &q, q.len(), input);
    assert_eq!(slice_of(&r), Some((0, 1)));
    assert_eq!(next, 3);
    let (r, next) = gather_children(9, &q, q.len(), input);
    assert_eq!(slice_of(&r), Some((10, 11)));
    assert_eq!(next, 10);
}

#[test]
fn an_unchanged_subtree_is_its_span() {
    let (q, input) = trace();
    let (r, next) = recurse_children(1, &q, q.len(), input);
    assert_eq!(slice_of(&r), Some((0, 1)));
    assert_eq!(next, 3);
}

#[test]
fn a_whitespace_run_becomes_a_space() {
    let (q, input) = trace();
    let (r, next) = recurse_children(3, &q, q.len(), input);
    assert_eq!(owned(&r), Some(b" ".to_vec()));
    assert_eq!(next, 4);
}

#[test]
fn a_single_space_is_borrowed() {
    let (q, input) = trace();
    let (r, next) = recurse_children(8, &q, q.len(), input);
    assert_eq!(slice_of(&r), Some((9, 10)));
    assert_eq!(next, 9);
}

#[test]
fn a_single_tab_is_rewritten() {
    let q = vec![Token::new(Rule::Wsp, 0, 1)];
    let (r, next) = recurse_children(0, &q, 1, b"\t");
    assert_eq!(owned(&r), Some(b" ".to_vec()));
    assert_eq!(next, 1);
}

#[test]
fn a_separator_becomes_a_semicolon() {
    let (q, input) = trace();
    let (r, next) = recurse_children(6, &q, q.len(), input);
    assert_eq!(owned(&r), Some(b";".to_vec()));
    assert_eq!(next, 7);
    let q = vec![Token::new(Rule::ChordNewline, 1, 2)];
    let (r, _) = recurse_children(0, &q, 1, b"a;b");
    assert_eq!(owned(&r), Some(b";".to_vec()));
}

#[test]
fn text_between_children_is_kept() {
    let (q, input) = trace();
    let (r, next) = recurse_children(4, &q, q.len(), input);
    assert_eq!(owned(&r), Some(b"\"x;y\"".to_vec()));
    assert_eq!(next, 8);
    let (r, next) = gather_children(0, &q, q.len(), input);
    assert_eq!(owned(&r), Some(b"A \"x;y\" |".to_vec()));
    assert_eq!(next, 10);
}

#[test]
fn an_empty_token_at_the_end_stands_alone() {
    let (q, input) = trace();
    let (r, next) = recurse_children(10, &q, q.len(), input);
    assert_eq!(owned(&r), Some(vec![]));
    assert_eq!(next, 11);
}

#[test]
fn a_line_ending_is_trimmed() {
    let input = b"A\\ \t ";
    let q = vec![
        Token::new(Rule::AbcEol, 1, 5),
        Token::new(Rule::LineContinuation, 1, 2),
        Token::new(Rule::Wsp, 2, 5),
    ];
    let (r, next) = recurse_children(0, &q, 3, input);
    assert_eq!(owned(&r), Some(b"\\".to_vec()));
    assert_eq!(next, 3);
    let (r, _) = gather_children(0, &q, 3, input);
    assert_eq!(owned(&r), Some(b"\\ ".to_vec()));
}

#[test]
fn a_line_ending_is_trimmed_at_both_ends() {
    let input = b"A \t\\ ";
    let q = vec![
        Token::new(Rule::AbcEol, 1, 5),
        Token::new(Rule::Wsp, 1, 3),
        Token::new(Rule::LineContinuation, 3, 4),
        Token::new(Rule::Wsp, 4, 5),
    ];
    let (r, next) = recurse_children(0, &q, 4, input);
    assert_eq!(owned(&r), Some(b"\\".to_vec()));
    assert_eq!(next, 4);
    let q = vec![Token::new(Rule::AbcEol, 1, 3), Token::new(Rule::Wsp, 1, 3)];
    let (r, _) = recurse_children(0, &q, 2, b"A  ");
    assert_eq!(owned(&r), Some(vec![]));
}

#[test]
fn a_line_ending_owns_its_text() {
    let q = vec![Token::new(Rule::AbcEol, 1, 2), Token::new(Rule::LineContinuation, 1, 2)];
    let (r, _) = recurse_children(0, &q, 2, b"A\\");
    assert_eq!(owned(&r), Some(b"\\".to_vec()));
    let (r, _) = gather_children(0, &q, 2, b"A\\");
    assert_eq!(slice_of(&r), Some((1, 2)));
}

#[test]
fn children_are_found_in_one_pass() {
    let (q, _) = trace();
    assert_eq!(children_of(&q, 0), vec![1, 3, 4, 8, 9]);
    assert_eq!(children_of(&q, 1), vec![2]);
    assert_eq!(children_of(&q, 4), vec![5, 6, 7]);
    assert_eq!(children_of(&q, 2), Vec::<usize>::new());
    assert_eq!(children_of(&q, 9), Vec::<usize>::new());
    assert_eq!(children_of(&q, 10), Vec::<usize>::new());
    assert_eq!(children_of(&q, 11), Vec::<usize>::new());
    assert_eq!(children_of(&Vec::new(), 0), Vec::<usize>::new());
}
