//! The canonical form of a line: what it is, and the function that
//! computes it.

use crate::grammar::{abc_grammar, MUSIC_CODE_LINE, RULE_COUNT};
use crate::pattern::Pattern;
use crate::peg::{lemma_eval_shape, Outcome};
use crate::rdp::{rule_outcome, Rdp};
use crate::token::Token;
use crate::trace::{canonical, render_top, well_formed};
use crate::visitors::canonify_abc_visitor;
use vstd::prelude::*;
use vstd::string::StringSliceAdditionalSpecFns;
use vstd::utf8::{
    decode_utf8, encode_utf8_valid_utf8, is_char_boundary_iff_not_is_continuation_byte,
    valid_utf8,
};

verus! {

/// The ASCII line feed.
pub const NEWLINE: u8 = 0x0a;

/// The outcome of matching a whole line against the top rule.
pub open spec fn parse_outcome(line: Seq<u8>) -> Outcome {
    rule_outcome(MUSIC_CODE_LINE, line, 0)
}

/// Whether the grammar accepts `line` as a whole.
pub open spec fn accepts(line: Seq<u8>) -> bool {
    parse_outcome(line).matched
}

/// The trace of the parse of `line`.
pub open spec fn parse_trace(line: Seq<u8>) -> Seq<Token> {
    parse_outcome(line).tokens
}

/// The canonical text of `line`: each whitespace run is one space, each
/// separator inside quoted text is a semicolon, the whitespace that trails
/// the line is gone, and every other byte is as it was.
pub open spec fn canonical_text(line: Seq<u8>) -> Seq<u8> {
    render_top(parse_trace(line), line, 0, canonical())
}

/// The farthest position at which a rule failed while `line` was matched.
pub open spec fn farthest_failure(line: Seq<u8>) -> nat {
    parse_outcome(line).far
}

/// `input` without the line feed at its end, if it has one.
pub open spec fn line_of(input: Seq<u8>) -> Seq<u8> {
    if input.len() > 0 && input.last() == NEWLINE {
        input.drop_last()
    } else {
        input
    }
}

/// The grammar does not accept the line.
#[derive(Clone, Copy, Debug, PartialEq, Eq)]
pub struct SyntaxError {
    /// The farthest position in the line at which a rule failed.
    pub farthest_offset: usize,
}

/// `input` without the line feed at its end, if it has one.
pub fn chomp(input: &str) -> (line: &str)
    ensures
        line.spec_bytes() == line_of(input.spec_bytes()),
{
    let bytes = input.as_bytes();
    let n = bytes.len();
    if n > 0 && bytes[n - 1] == NEWLINE {
        proof {
            encode_utf8_valid_utf8(input@);
            is_char_boundary_iff_not_is_continuation_byte(bytes@, n - 1);
        }
        let (line, _) = input.split_at(n - 1);
        assert(bytes@.subrange(0, n - 1) =~= bytes@.drop_last());
        line
    } else {
        input
    }
}

/// The trace of the parse of a line of a tune body.
///
/// The line may end in a line feed, which is not part of it. Where the
/// grammar accepts the line, the result is the tokens of the rules that
/// matched, each parent before its children; where it does not, the result
/// is an error that holds the farthest position at which a rule failed.
pub fn match_line(input: &str) -> (r: Result<Vec<Token>, SyntaxError>)
    ensures
        match r {
            Ok(q) => {
                &&& accepts(line_of(input.spec_bytes()))
                &&& q@ == parse_trace(line_of(input.spec_bytes()))
                &&& well_formed(q@, line_of(input.spec_bytes()).len())
            },
            Err(e) => {
                &&& !accepts(line_of(input.spec_bytes()))
                &&& e.farthest_offset == farthest_failure(line_of(input.spec_bytes()))
                &&& e.farthest_offset <= line_of(input.spec_bytes()).len()
            },
        },
{
    let mut parser = Rdp::new(chomp(input));
    proof {
        parser.lemma_wf();
        lemma_eval_shape(
            abc_grammar(),
            Pattern::Call(MUSIC_CODE_LINE),
            parser.text(),
            0,
            RULE_COUNT as nat,
        );
    }
    if parser.music_code_line() {
        Ok(parser.into_queue())
    } else {
        Err(SyntaxError { farthest_offset: parser.expected() })
    }
}

/// The canonical text of a line of a tune body.
///
/// The line may end in a line feed, which is not part of it. Where the
/// grammar accepts the line, the result is its canonical text; where it does
/// not, the result is an error that holds the farthest position at which a
/// rule failed.
pub fn canonicalize(input: &str) -> (r: Result<String, SyntaxError>)
    ensures
        match r {
            Ok(text) => {
                &&& accepts(line_of(input.spec_bytes()))
                &&& valid_utf8(canonical_text(line_of(input.spec_bytes())))
                &&& text@ == decode_utf8(canonical_text(line_of(input.spec_bytes())))
            },
            Err(e) => {
                &&& !accepts(line_of(input.spec_bytes()))
                &&& e.farthest_offset == farthest_failure(line_of(input.spec_bytes()))
                &&& e.farthest_offset <= line_of(input.spec_bytes()).len()
            },
        },
{
    let mut parser = Rdp::new(chomp(input));
    proof {
        parser.lemma_wf();
        lemma_eval_shape(
            abc_grammar(),
            Pattern::Call(MUSIC_CODE_LINE),
            parser.text(),
            0,
            RULE_COUNT as nat,
        );
    }
    if parser.music_code_line() {
        Ok(canonify_abc_visitor(&parser))
    } else {
        Err(SyntaxError { farthest_offset: parser.expected() })
    }
}

} // verus!
