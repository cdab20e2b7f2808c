//! Parsing expressions and grammar tables.

use crate::token::Rule;
use vstd::prelude::*;

verus! {

/// A parsing expression over bytes.
pub enum Pattern {
    /// The bytes of a literal string.
    Lit(&'static str),
    /// One ASCII byte between two bounds, both included.
    Range(char, char),
    /// Any one byte.
    Any,
    /// The end of the input.
    Eoi,
    /// The rule at an index of the grammar table.
    Call(usize),
    /// The first expression, then the second.
    Then(Box<Pattern>, Box<Pattern>),
    /// The first expression, or else the second.
    Or(Box<Pattern>, Box<Pattern>),
    /// The expression, or nothing.
    Opt(Box<Pattern>),
    /// The expression as often as it matches.
    Star(Box<Pattern>),
    /// The expression once, and then as often as it matches.
    Plus(Box<Pattern>),
    /// Succeeds, consuming nothing, where the expression fails.
    Not(Box<Pattern>),
    /// Succeeds, consuming nothing, where the expression matches.
    Ahead(Box<Pattern>),
}

/// A named rule of a grammar: the identifier its tokens carry, and its body.
pub struct RuleDef {
    pub rule: Rule,
    pub body: Pattern,
}

/// A grammar: a table of rules. `Pattern::Call(i)` names the rule at index `i`.
pub struct Grammar {
    pub rules: Vec<RuleDef>,
}

impl View for Grammar {
    type V = Seq<RuleDef>;

    open spec fn view(&self) -> Seq<RuleDef> {
        self.rules@
    }
}

// Constructors, for writing grammars down. Each has the same meaning in
// specifications and in code.

pub open spec fn spec_lit(s: &'static str) -> Pattern {
    Pattern::Lit(s)
}

/// The bytes of `s`.
#[verifier::when_used_as_spec(spec_lit)]
pub fn lit(s: &'static str) -> (p: Pattern)
    ensures
        p == spec_lit(s),
{
    Pattern::Lit(s)
}

pub open spec fn spec_range(lo: char, hi: char) -> Pattern {
    Pattern::Range(lo, hi)
}

/// One ASCII byte from `lo` to `hi`.
#[verifier::when_used_as_spec(spec_range)]
pub fn range(lo: char, hi: char) -> (p: Pattern)
    ensures
        p == spec_range(lo, hi),
{
    Pattern::Range(lo, hi)
}

pub open spec fn spec_any() -> Pattern {
    Pattern::Any
}

/// Any one byte.
#[verifier::when_used_as_spec(spec_any)]
pub fn any() -> (p: Pattern)
    ensures
        p == spec_any(),
{
    Pattern::Any
}

pub open spec fn spec_eoi() -> Pattern {
    Pattern::Eoi
}

/// The end of the input.
#[verifier::when_used_as_spec(spec_eoi)]
pub fn eoi() -> (p: Pattern)
    ensures
        p == spec_eoi(),
{
    Pattern::Eoi
}

pub open spec fn spec_call(i: usize) -> Pattern {
    Pattern::Call(i)
}

/// The rule at index `i`.
#[verifier::when_used_as_spec(spec_call)]
pub fn call(i: usize) -> (p: Pattern)
    ensures
        p == spec_call(i),
{
    Pattern::Call(i)
}

pub open spec fn spec_then(a: Pattern, b: Pattern) -> Pattern {
    Pattern::Then(Box::new(a), Box::new(b))
}

/// `a`, then `b`.
#[verifier::when_used_as_spec(spec_then)]
pub fn then(a: Pattern, b: Pattern) -> (p: Pattern)
    ensures
        p == spec_then(a, b),
{
    Pattern::Then(Box::new(a), Box::new(b))
}

pub open spec fn spec_or(a: Pattern, b: Pattern) -> Pattern {
    Pattern::Or(Box::new(a), Box::new(b))
}

/// `a`, or else `b`.
#[verifier::when_used_as_spec(spec_or)]
pub fn or(a: Pattern, b: Pattern) -> (p: Pattern)
    ensures
        p == spec_or(a, b),
{
    Pattern::Or(Box::new(a), Box::new(b))
}

pub open spec fn spec_opt(a: Pattern) -> Pattern {
    Pattern::Opt(Box::new(a))
}

/// `a`, or nothing.
#[verifier::when_used_as_spec(spec_opt)]
pub fn opt(a: Pattern) -> (p: Pattern)
    ensures
        p == spec_opt(a),
{
    Pattern::Opt(Box::new(a))
}

pub open spec fn spec_star(a: Pattern) -> Pattern {
    Pattern::Star(Box::new(a))
}

/// `a` as often as it matches.
#[verifier::when_used_as_spec(spec_star)]
pub fn star(a: Pattern) -> (p: Pattern)
    ensures
        p == spec_star(a),
{
    Pattern::Star(Box::new(a))
}

pub open spec fn spec_plus(a: Pattern) -> Pattern {
    Pattern::Plus(Box::new(a))
}

/// `a` at least once.
#[verifier::when_used_as_spec(spec_plus)]
pub fn plus(a: Pattern) -> (p: Pattern)
    ensures
        p == spec_plus(a),
{
    Pattern::Plus(Box::new(a))
}

pub open spec fn spec_not(a: Pattern) -> Pattern {
    Pattern::Not(Box::new(a))
}

/// Not followed by `a`.
#[verifier::when_used_as_spec(spec_not)]
pub fn not(a: Pattern) -> (p: Pattern)
    ensures
        p == spec_not(a),
{
    Pattern::Not(Box::new(a))
}

pub open spec fn spec_then3(a: Pattern, b: Pattern, c: Pattern) -> Pattern {
    then(a, then(b, c))
}

/// Three in a row.
#[verifier::when_used_as_spec(spec_then3)]
pub fn then3(a: Pattern, b: Pattern, c: Pattern) -> (p: Pattern)
    ensures
        p == spec_then3(a, b, c),
{
    then(a, then(b, c))
}

pub open spec fn spec_then4(a: Pattern, b: Pattern, c: Pattern, d: Pattern) -> Pattern {
    then(a, then3(b, c, d))
}

/// Four in a row.
#[verifier::when_used_as_spec(spec_then4)]
pub fn then4(a: Pattern, b: Pattern, c: Pattern, d: Pattern) -> (p: Pattern)
    ensures
        p == spec_then4(a, b, c, d),
{
    then(a, then3(b, c, d))
}

pub open spec fn spec_then5(a: Pattern, b: Pattern, c: Pattern, d: Pattern, e: Pattern) -> Pattern {
    then(a, then4(b, c, d, e))
}

/// Five in a row.
#[verifier::when_used_as_spec(spec_then5)]
pub fn then5(a: Pattern, b: Pattern, c: Pattern, d: Pattern, e: Pattern) -> (p: Pattern)
    ensures
        p == spec_then5(a, b, c, d, e),
{
    then(a, then4(b, c, d, e))
}

pub open spec fn spec_or3(a: Pattern, b: Pattern, c: Pattern) -> Pattern {
    or(a, or(b, c))
}

/// The first of three that matches.
#[verifier::when_used_as_spec(spec_or3)]
pub fn or3(a: Pattern, b: Pattern, c: Pattern) -> (p: Pattern)
    ensures
        p == spec_or3(a, b, c),
{
    or(a, or(b, c))
}

pub open spec fn spec_or4(a: Pattern, b: Pattern, c: Pattern, d: Pattern) -> Pattern {
    or(a, or3(b, c, d))
}

/// The first of four that matches.
#[verifier::when_used_as_spec(spec_or4)]
pub fn or4(a: Pattern, b: Pattern, c: Pattern, d: Pattern) -> (p: Pattern)
    ensures
        p == spec_or4(a, b, c, d),
{
    or(a, or3(b, c, d))
}

pub open spec fn spec_or5(a: Pattern, b: Pattern, c: Pattern, d: Pattern, e: Pattern) -> Pattern {
    or(a, or4(b, c, d, e))
}

/// The first of five that matches.
#[verifier::when_used_as_spec(spec_or5)]
pub fn or5(a: Pattern, b: Pattern, c: Pattern, d: Pattern, e: Pattern) -> (p: Pattern)
    ensures
        p == spec_or5(a, b, c, d, e),
{
    or(a, or4(b, c, d, e))
}

pub open spec fn spec_or6(a: Pattern, b: Pattern, c: Pattern, d: Pattern, e: Pattern, f: Pattern) -> Pattern {
    or(a, or5(b, c, d, e, f))
}

/// The first of six that matches.
#[verifier::when_used_as_spec(spec_or6)]
pub fn or6(a: Pattern, b: Pattern, c: Pattern, d: Pattern, e: Pattern, f: Pattern) -> (p: Pattern)
    ensures
        p == spec_or6(a, b, c, d, e, f),
{
    or(a, or5(b, c, d, e, f))
}

pub open spec fn spec_def(rule: Rule, body: Pattern) -> RuleDef {
    RuleDef { rule, body }
}

/// The rule `rule` with the body `body`.
#[verifier::when_used_as_spec(spec_def)]
pub fn def(rule: Rule, body: Pattern) -> (d: RuleDef)
    ensures
        d == spec_def(rule, body),
{
    RuleDef { rule, body }
}

} // verus!
