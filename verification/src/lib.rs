//! Canonical form of the lines of an ABC tune body.
//!
//! A line of notes, bar lines, chord symbols, decorations and inline fields
//! is parsed and written out again with its surface form made regular:
//! every run of whitespace between elements is one space, a separator
//! between the lines of a chord symbol or annotation is a semicolon, and
//! the whitespace that trails the line is gone. Every other byte is given
//! back as it was read.
//!
//! The parts, leaves first:
//!
//! - [`token`]: the rules of the grammar by name, and tokens.
//! - [`pattern`]: parsing expressions and grammar tables.
//! - [`peg`]: what a parsing expression means.
//! - [`sound`]: grammars without left recursion.
//! - [`matcher`]: the matcher, which runs an expression over an input.
//! - [`grammar`]: the grammar of a tune-body line.
//! - [`lexis`]: what the grammar says of whitespace and separators.
//! - [`trace`]: token traces, the tree they hold, and the text they stand
//!   for.
//! - [`rstring`]: fragments of text that borrow from the input while they
//!   can.
//! - [`rdp`]: the parser of a line.
//! - [`visitors`]: the walk over a trace that builds the canonical text.
//! - [`canon`]: the canonical form of a line, and `canonicalize`.
//! - [`laws`]: what holds of every line that the grammar accepts.
//! - [`encoding`]: the canonical text of UTF-8 is UTF-8.

pub mod canon;
pub mod encoding;
pub mod grammar;
pub mod laws;
pub mod lexis;
pub mod matcher;
pub mod pattern;
pub mod peg;
pub mod rdp;
pub mod rstring;
pub mod sound;
pub mod token;
pub mod trace;
pub mod visitors;
