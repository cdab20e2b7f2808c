//! The parser of a tune-body line.

use crate::canon::{accepts, parse_trace};
use crate::grammar::{abc_grammar, MUSIC_CODE_LINE, RULE_COUNT};
use crate::matcher::{run, Cursor};
use crate::pattern::{call, Grammar, Pattern};
use crate::peg::{eval, lemma_concat_shape, lemma_eval_shape, max_nat, Outcome};
use crate::token::Token;
use crate::trace::{nested, well_formed, within};
use vstd::prelude::*;
use vstd::string::StringSliceAdditionalSpecFns;
use vstd::utf8::{encode_utf8_valid_utf8, valid_utf8};

verus! {

/// The outcome of matching the rule at `index` of the grammar against
/// `text` at `pos`.
pub open spec fn rule_outcome(index: usize, text: Seq<u8>, pos: nat) -> Outcome {
    eval(abc_grammar(), Pattern::Call(index), text, pos, RULE_COUNT as nat)
}

/// A parser over one input. It stands at a position of the input and holds
/// the tokens of the rules that it has matched so far.
pub struct Rdp<'a> {
    grammar: Grammar,
    input: &'a [u8],
    cursor: Cursor,
}

impl<'a> Rdp<'a> {
    /// What holds of every parser: it stands inside its input, which is
    /// UTF-8, and its tokens lie before its position and form a trace.
    pub closed spec fn wf(self) -> bool {
        &&& self.grammar@ == abc_grammar()
        &&& valid_utf8(self.input@)
        &&& self.cursor.pos <= self.input@.len() <= usize::MAX
        &&& within(self.cursor.queue@, 0, self.cursor.pos as nat)
        &&& nested(self.cursor.queue@)
    }

    /// The bytes of the input.
    pub closed spec fn text(self) -> Seq<u8> {
        self.input@
    }

    /// The position in the input.
    pub closed spec fn pos(self) -> nat {
        self.cursor.pos as nat
    }

    /// The tokens of the rules matched so far.
    pub closed spec fn trace(self) -> Seq<Token> {
        self.cursor.queue@
    }

    /// The farthest position at which a rule has failed so far.
    pub closed spec fn fail_pos(self) -> nat {
        self.cursor.fail_pos as nat
    }

    /// The parser has matched its input as a whole line, and holds the
    /// trace of that parse.
    pub open spec fn matched_line(self) -> bool {
        accepts(self.text()) && self.trace() == parse_trace(self.text())
    }

    /// A parser at the start of `input`.
    pub fn new(input: &'a str) -> (parser: Rdp<'a>)
        ensures
            parser.wf(),
            parser.text() == input.spec_bytes(),
            parser.pos() == 0,
            parser.trace() == Seq::<Token>::empty(),
            parser.fail_pos() == 0,
    {
        broadcast use encode_utf8_valid_utf8;

        let bytes = input.as_bytes();
        assert(bytes@.len() == bytes.len());
        Rdp { grammar: Grammar::abc(), input: bytes, cursor: Cursor::new() }
    }

    /// Matches the rule at `index` of the grammar at the position of the
    /// parser. On success the parser stands after the match and has the
    /// rule's token, and those of the rules matched inside it, after the
    /// ones it had. On failure it stands where it stood, with the tokens it
    /// had.
    pub fn parse_rule(&mut self, index: usize) -> (ok: bool)
        requires
            old(self).wf(),
        ensures
            final(self).wf(),
            ok == rule_outcome(index, old(self).text(), old(self).pos()).matched,
            final(self).text() == old(self).text(),
            final(self).pos() == rule_outcome(index, old(self).text(), old(self).pos()).end,
            final(self).trace() == old(self).trace() + rule_outcome(
                index,
                old(self).text(),
                old(self).pos(),
            ).tokens,
            final(self).fail_pos() == max_nat(
                old(self).fail_pos(),
                rule_outcome(index, old(self).text(), old(self).pos()).far,
            ),
    {
        proof {
            lemma_eval_shape(
                abc_grammar(),
                Pattern::Call(index),
                self.input@,
                self.cursor.pos as nat,
                RULE_COUNT as nat,
            );
            let o = rule_outcome(index, self.input@, self.cursor.pos as nat);
            lemma_concat_shape(self.cursor.queue@, o.tokens, 0, self.cursor.pos as nat, o.end);
        }
        let top = call(index);
        run(&self.grammar, self.input, &mut self.cursor, &top, RULE_COUNT)
    }

    /// Matches a whole line: the top rule of the grammar.
    pub fn music_code_line(&mut self) -> (ok: bool)
        requires
            old(self).wf(),
        ensures
            final(self).wf(),
            ok == rule_outcome(MUSIC_CODE_LINE, old(self).text(), old(self).pos()).matched,
            final(self).text() == old(self).text(),
            final(self).pos() == rule_outcome(
                MUSIC_CODE_LINE,
                old(self).text(),
                old(self).pos(),
            ).end,
            final(self).trace() == old(self).trace() + rule_outcome(
                MUSIC_CODE_LINE,
                old(self).text(),
                old(self).pos(),
            ).tokens,
            final(self).fail_pos() == max_nat(
                old(self).fail_pos(),
                rule_outcome(MUSIC_CODE_LINE, old(self).text(), old(self).pos()).far,
            ),
    {
        self.parse_rule(MUSIC_CODE_LINE)
    }

    /// Whether the parser stands at the end of the input.
    pub fn end(&self) -> (b: bool)
        ensures
            b == (self.pos() == self.text().len()),
    {
        self.cursor.pos == self.input.len()
    }

    /// The bytes of the input.
    pub fn input(&self) -> (bytes: &'a [u8])
        ensures
            bytes@ == self.text(),
    {
        self.input
    }

    /// The tokens of the rules matched so far, each parent before its
    /// children.
    pub fn queue(&self) -> (q: &Vec<Token>)
        ensures
            q@ == self.trace(),
    {
        &self.cursor.queue
    }

    /// The tokens of the rules matched so far, given away.
    pub fn into_queue(self) -> (q: Vec<Token>)
        ensures
            q@ == self.trace(),
    {
        self.cursor.queue
    }

    /// The tokens of a parser form a trace over its input, and the input is
    /// UTF-8.
    pub proof fn lemma_wf(self)
        requires
            self.wf(),
        ensures
            well_formed(self.trace(), self.text().len()),
            within(self.trace(), 0, self.pos()),
            self.pos() <= self.text().len() <= usize::MAX,
            valid_utf8(self.text()),
    {
    }

    /// The farthest position at which a rule has failed so far; 0 if none
    /// has.
    pub fn expected(&self) -> (pos: usize)
        ensures
            pos == self.fail_pos(),
    {
        self.cursor.fail_pos
    }
}

} // verus!
