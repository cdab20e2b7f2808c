//! Rule identifiers and the records that make up a token trace.

use vstd::prelude::*;

verus! {

/// The named rules of the tune-body grammar.
#[derive(Clone, Copy, Debug, PartialEq, Eq, Hash, Structural)]
pub enum Rule {
    MusicCodeLine,
    AbcLine,
    Element,
    ChordOrText,
    Gracing,
    Note,
    UnusedChar,
    Meter,
    MeterNum,
    Tempo,
    TempoSpec,
    TempoDesc,
    Key,
    KeyDef,
    Mode,
    Major,
    Lydian,
    Ionian,
    Mixolydian,
    Dorian,
    Aeolian,
    Phrygian,
    Locrian,
    Minor,
    GlobalAccidental,
    InlineField,
    IfieldText,
    IfieldKey,
    IfieldLength,
    IfieldMeter,
    IfieldPart,
    IfieldTempo,
    IfieldUserdef,
    IfieldVoice,
    Pitch,
    Basenote,
    Octave,
    Accidental,
    NoteLength,
    NoteLengthBigger,
    NoteLengthSmaller,
    NoteLengthFull,
    NoteLengthSlashes,
    NoteLengthStrict,
    BrokenRhythm,
    BSep,
    BElem,
    Rest,
    MultiMeasureRest,
    Clef,
    ClefSpec,
    ClefNote,
    ClefName,
    ClefLine,
    ClefMiddle,
    ClefTranspose,
    ClefOctave,
    ClefStafflines,
    Backquote,
    Barline,
    InvisibleBarline,
    DoubleRepeatBarline,
    DashedBarline,
    NthRepeat,
    NthRepeatNum,
    NthRepeatText,
    EndNthRepeat,
    Tie,
    SlurBegin,
    SlurEnd,
    GraceNotes,
    GraceNoteStem,
    GraceNote,
    Acciaccatura,
    Tuplet,
    LongGracing,
    Gracing1,
    Gracing2,
    Gracing3,
    Gracing4,
    GracingNonstandard,
    GracingCatchall,
    UserdefSymbol,
    Stem,
    Chord,
    ChordAccidental,
    ChordType,
    TextExpression,
    BadTextExpression,
    AbcEol,
    LineContinuation,
    HardLineBreak,
    Voice,
    Rollback,
    ReservedChar,
    ChordNewline,
    MeasureRepeat,
    NonQuote,
    NonRightBracket,
    Digits,
    Wsp,
}

/// One successful match of a named rule: the rule and the byte span
/// `[start, end)` of the input that it covers.
#[derive(Clone, Copy, Debug, PartialEq, Eq, Hash, Structural)]
pub struct Token {
    pub rule: Rule,
    pub start: usize,
    pub end: usize,
}

impl Token {
    pub fn new(rule: Rule, start: usize, end: usize) -> (t: Token)
        ensures
            t == (Token { rule, start, end }),
    {
        Token { rule, start, end }
    }
}

} // verus!
