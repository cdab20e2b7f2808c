//! The grammar of a line of an ABC tune body.
//!
//! The grammar follows Henrik Norbeck's ABNF grammar for ABC 2.0, with its
//! rules put in the order that ordered choice needs, and widened where tunes
//! in the wild do not keep to the standard: it takes in what it can and
//! refuses only what it cannot place at all.
//!
//! The rules stand in a table, each after the rules that it calls. A rule is
//! named by its index. The table is written down twice: `abc_rule` says what
//! it holds, and `Grammar::abc` builds it.

use crate::pattern::{
    any, call, def, eoi, lit, not, opt, or, or3, or4, or5, or6, plus, range, star, then, then3,
    then4, then5, Grammar, RuleDef,
};
use crate::token::Rule;
use vstd::prelude::*;

verus! {
pub const WSP: usize = 0;
pub const DIGITS: usize = 1;
pub const NON_QUOTE: usize = 2;
pub const NON_RIGHT_BRACKET: usize = 3;
pub const CHORD_NEWLINE: usize = 4;
pub const MEASURE_REPEAT: usize = 5;
pub const RESERVED_CHAR: usize = 6;
pub const ROLLBACK: usize = 7;
pub const HARD_LINE_BREAK: usize = 8;
pub const LINE_CONTINUATION: usize = 9;
pub const ABC_EOL: usize = 10;
pub const BACKQUOTE: usize = 11;
pub const UNUSED_CHAR: usize = 12;
pub const BASENOTE: usize = 13;
pub const OCTAVE: usize = 14;
pub const ACCIDENTAL: usize = 15;
pub const PITCH: usize = 16;
pub const NOTE_LENGTH_BIGGER: usize = 17;
pub const NOTE_LENGTH_SMALLER: usize = 18;
pub const NOTE_LENGTH_FULL: usize = 19;
pub const NOTE_LENGTH_SLASHES: usize = 20;
pub const NOTE_LENGTH: usize = 21;
pub const NOTE_LENGTH_STRICT: usize = 22;
pub const TIE: usize = 23;
pub const SLUR_BEGIN: usize = 24;
pub const SLUR_END: usize = 25;
pub const NOTE: usize = 26;
pub const REST: usize = 27;
pub const MULTI_MEASURE_REST: usize = 28;
pub const STEM: usize = 29;
pub const ACCIACCATURA: usize = 30;
pub const GRACE_NOTE: usize = 31;
pub const GRACE_NOTE_STEM: usize = 32;
pub const GRACE_NOTES: usize = 33;
pub const TUPLET: usize = 34;
pub const GRACING1: usize = 35;
pub const GRACING2: usize = 36;
pub const GRACING3: usize = 37;
pub const GRACING4: usize = 38;
pub const GRACING_NONSTANDARD: usize = 39;
pub const GRACING_CATCHALL: usize = 40;
pub const LONG_GRACING: usize = 41;
pub const USERDEF_SYMBOL: usize = 42;
pub const GRACING: usize = 43;
pub const CHORD_ACCIDENTAL: usize = 44;
pub const CHORD_TYPE: usize = 45;
pub const CHORD: usize = 46;
pub const BAD_TEXT_EXPRESSION: usize = 47;
pub const TEXT_EXPRESSION: usize = 48;
pub const CHORD_OR_TEXT: usize = 49;
pub const B_SEP: usize = 50;
pub const B_ELEM: usize = 51;
pub const BROKEN_RHYTHM: usize = 52;
pub const CLEF_NOTE: usize = 53;
pub const CLEF_NAME: usize = 54;
pub const CLEF_LINE: usize = 55;
pub const CLEF_MIDDLE: usize = 56;
pub const CLEF_TRANSPOSE: usize = 57;
pub const CLEF_OCTAVE: usize = 58;
pub const CLEF_STAFFLINES: usize = 59;
pub const CLEF_SPEC: usize = 60;
pub const CLEF: usize = 61;
pub const MAJOR: usize = 62;
pub const LYDIAN: usize = 63;
pub const IONIAN: usize = 64;
pub const MIXOLYDIAN: usize = 65;
pub const DORIAN: usize = 66;
pub const AEOLIAN: usize = 67;
pub const PHRYGIAN: usize = 68;
pub const LOCRIAN: usize = 69;
pub const MINOR: usize = 70;
pub const MODE: usize = 71;
pub const GLOBAL_ACCIDENTAL: usize = 72;
pub const KEY_DEF: usize = 73;
pub const KEY: usize = 74;
pub const METER_NUM: usize = 75;
pub const METER: usize = 76;
pub const TEMPO_SPEC: usize = 77;
pub const TEMPO_DESC: usize = 78;
pub const TEMPO: usize = 79;
pub const VOICE: usize = 80;
pub const IFIELD_TEXT: usize = 81;
pub const IFIELD_KEY: usize = 82;
pub const IFIELD_LENGTH: usize = 83;
pub const IFIELD_METER: usize = 84;
pub const IFIELD_PART: usize = 85;
pub const IFIELD_TEMPO: usize = 86;
pub const IFIELD_USERDEF: usize = 87;
pub const IFIELD_VOICE: usize = 88;
pub const INLINE_FIELD: usize = 89;
pub const INVISIBLE_BARLINE: usize = 90;
pub const DOUBLE_REPEAT_BARLINE: usize = 91;
pub const DASHED_BARLINE: usize = 92;
pub const NTH_REPEAT_NUM: usize = 93;
pub const NTH_REPEAT_TEXT: usize = 94;
pub const NTH_REPEAT: usize = 95;
pub const END_NTH_REPEAT: usize = 96;
pub const BARLINE: usize = 97;
pub const ELEMENT: usize = 98;
pub const ABC_LINE: usize = 99;
pub const MUSIC_CODE_LINE: usize = 100;

/// The number of rules.
pub const RULE_COUNT: usize = 101;

/// Whitespace, digits, free text and the characters that stand alone.
pub open spec fn lexical_rule(i: int) -> RuleDef {
    if i == WSP {
        def(Rule::Wsp, plus(or(lit(" "), lit("\t"))))
    } else if i == DIGITS {
        def(Rule::Digits, plus(range('0', '9')))
    } else if i == NON_QUOTE {
        def(Rule::NonQuote, then(not(lit("\"")), any()))
    } else if i == NON_RIGHT_BRACKET {
        def(Rule::NonRightBracket, then(not(lit("]")), any()))
    } else if i == CHORD_NEWLINE {
        def(Rule::ChordNewline, or(lit("\\n"), lit(";")))
    } else if i == MEASURE_REPEAT {
        def(Rule::MeasureRepeat, then(lit("/"), opt(lit("/"))))
    } else if i == RESERVED_CHAR {
        def(Rule::ReservedChar, or5(lit("#"), lit("*"), lit(";"), lit("?"), lit("@")))
    } else if i == ROLLBACK {
        def(Rule::Rollback, lit("&"))
    } else if i == HARD_LINE_BREAK {
        def(Rule::HardLineBreak, or(lit("$"), lit("!")))
    } else if i == LINE_CONTINUATION {
        def(Rule::LineContinuation, lit("\\"))
    } else if i == ABC_EOL {
        def(Rule::AbcEol, then3(star(call(WSP)), opt(call(LINE_CONTINUATION)), star(call(WSP))))
    } else if i == BACKQUOTE {
        def(Rule::Backquote, lit("`"))
    } else {
        def(Rule::UnusedChar, or(call(RESERVED_CHAR), call(BACKQUOTE)))
    }
}

/// Pitches, note lengths, notes and rests, grace notes and tuplets.
pub open spec fn notes_rule(i: int) -> RuleDef {
    if i == BASENOTE {
        def(Rule::Basenote, or(range('A', 'G'), range('a', 'g')))
    } else if i == OCTAVE {
        def(Rule::Octave, or(plus(lit("'")), plus(lit(","))))
    } else if i == ACCIDENTAL {
        def(Rule::Accidental, or5(lit("^^"), lit("^"), lit("__"), lit("_"), lit("=")))
    } else if i == PITCH {
        def(Rule::Pitch, then3(opt(call(ACCIDENTAL)), call(BASENOTE), opt(call(OCTAVE))))
    } else if i == NOTE_LENGTH_BIGGER {
        def(Rule::NoteLengthBigger, call(DIGITS))
    } else if i == NOTE_LENGTH_SMALLER {
        def(Rule::NoteLengthSmaller, then(lit("/"), call(DIGITS)))
    } else if i == NOTE_LENGTH_FULL {
        def(Rule::NoteLengthFull, then3(call(DIGITS), lit("/"), call(DIGITS)))
    } else if i == NOTE_LENGTH_SLASHES {
        def(Rule::NoteLengthSlashes, plus(lit("/")))
    } else if i == NOTE_LENGTH {
        def(
            Rule::NoteLength,
            or4(
                call(NOTE_LENGTH_SMALLER),
                call(NOTE_LENGTH_FULL),
                call(NOTE_LENGTH_BIGGER),
                call(NOTE_LENGTH_SLASHES),
            ),
        )
    } else if i == NOTE_LENGTH_STRICT {
        def(Rule::NoteLengthStrict, or(then3(call(DIGITS), lit("/"), call(DIGITS)), lit("1")))
    } else if i == TIE {
        def(Rule::Tie, lit("-"))
    } else if i == SLUR_BEGIN {
        def(Rule::SlurBegin, lit("("))
    } else if i == SLUR_END {
        def(Rule::SlurEnd, lit(")"))
    } else if i == NOTE {
        def(Rule::Note, then3(call(PITCH), opt(call(NOTE_LENGTH)), opt(call(TIE))))
    } else if i == REST {
        def(Rule::Rest, then(or3(lit("x"), lit("y"), lit("z")), opt(call(NOTE_LENGTH))))
    } else if i == MULTI_MEASURE_REST {
        def(Rule::MultiMeasureRest, then(lit("Z"), star(range('0', '9'))))
    } else if i == STEM {
        def(
            Rule::Stem,
            or3(
                then5(lit("["), call(NOTE), plus(call(NOTE)), lit("]"), opt(call(TIE))),
                call(NOTE),
                call(REST),
            ),
        )
    } else if i == ACCIACCATURA {
        def(Rule::Acciaccatura, lit("/"))
    } else if i == GRACE_NOTE {
        def(Rule::GraceNote, then(call(PITCH), opt(call(NOTE_LENGTH))))
    } else if i == GRACE_NOTE_STEM {
        def(
            Rule::GraceNoteStem,
            or(
                call(GRACE_NOTE),
                then4(lit("["), call(GRACE_NOTE), plus(call(GRACE_NOTE)), lit("]")),
            ),
        )
    } else if i == GRACE_NOTES {
        def(
            Rule::GraceNotes,
            then4(lit("{"), opt(call(ACCIACCATURA)), plus(call(GRACE_NOTE_STEM)), lit("}")),
        )
    } else {
        def(
            Rule::Tuplet,
            then3(
                lit("("),
                call(DIGITS),
                opt(then4(lit(":"), opt(call(DIGITS)), lit(":"), opt(call(DIGITS)))),
            ),
        )
    }
}

/// Decorations.
pub open spec fn decorations_rule(i: int) -> RuleDef {
    if i == GRACING1 {
        def(
            Rule::Gracing1,
            or4(
                or4(lit("<("), lit("<)"), lit(">("), lit(">)")),
                or4(lit("D.C."), lit("D.S."), lit("accent"), lit("arpeggio")),
                or4(lit("breath"), lit("coda"), lit("crescendo("), lit("crescendo)")),
                or3(lit("dacapo"), lit("dacoda"), lit("diminuendo(")),
            ),
        )
    } else if i == GRACING2 {
        def(
            Rule::Gracing2,
            or4(
                or4(lit("diminuendo)"), lit("downbow"), lit("emphasis"), lit("fermata")),
                or3(lit("ffff"), lit("fff"), lit("ff")),
                or3(lit("fine"), lit("invertedfermata"), lit("invertedturnx")),
                or3(lit("invertedturn"), lit("longphrase"), lit("lowermordent")),
            ),
        )
    } else if i == GRACING3 {
        def(
            Rule::Gracing3,
            or4(
                or4(lit("mediumphrase"), lit("mf"), lit("mordent"), lit("mp")),
                or4(lit("open"), lit("plus"), lit("pppp"), lit("ppp")),
                or4(lit("pp"), lit("pralltriller"), lit("roll"), lit("segno")),
                or4(lit("sfz"), lit("shortphrase"), lit("slide"), lit("snap")),
            ),
        )
    } else if i == GRACING4 {
        def(
            Rule::Gracing4,
            or4(
                or4(lit("tenuto"), lit("thumb"), lit("trill("), lit("trill)")),
                or4(lit("trill"), lit("turnx"), lit("turn"), lit("upbow")),
                or4(lit("uppermordent"), lit("wedge"), lit("+"), range('0', '5')),
                or4(lit("<"), lit(">"), lit("f"), lit("p")),
            ),
        )
    } else if i == GRACING_NONSTANDARD {
        def(
            Rule::GracingNonstandard,
            or5(
                lit("cresc"),
                lit("decresc"),
                lit("dimin"),
                lit("fp"),
                then(lit("repeatbar"), call(DIGITS)),
            ),
        )
    } else if i == GRACING_CATCHALL {
        def(Rule::GracingCatchall, plus(range('\"', '~')))
    } else if i == LONG_GRACING {
        def(
            Rule::LongGracing,
            or(
                then3(
                    lit("!"),
                    or5(
                        call(GRACING1),
                        call(GRACING2),
                        call(GRACING3),
                        call(GRACING_NONSTANDARD),
                        call(GRACING4),
                    ),
                    lit("!"),
                ),
                then3(lit("!"), call(GRACING_CATCHALL), lit("!")),
            ),
        )
    } else if i == USERDEF_SYMBOL {
        def(Rule::UserdefSymbol, or3(lit("~"), range('H', 'Y'), range('h', 'w')))
    } else {
        def(Rule::Gracing, or3(lit("."), call(USERDEF_SYMBOL), call(LONG_GRACING)))
    }
}

/// Chord symbols, annotations and broken rhythm.
pub open spec fn chords_rule(i: int) -> RuleDef {
    if i == CHORD_ACCIDENTAL {
        def(
            Rule::ChordAccidental,
            or6(lit("#"), lit("b"), lit("="), lit("♯"), lit("♭"), lit("♮")),
        )
    } else if i == CHORD_TYPE {
        def(
            Rule::ChordType,
            plus(or4(range('A', 'Z'), range('a', 'z'), plus(range('0', '9')), lit("-"))),
        )
    } else if i == CHORD {
        def(
            Rule::Chord,
            then5(
                call(BASENOTE),
                opt(call(CHORD_ACCIDENTAL)),
                opt(call(CHORD_TYPE)),
                opt(then3(lit("/"), call(BASENOTE), opt(call(CHORD_ACCIDENTAL)))),
                star(then(not(call(CHORD_NEWLINE)), call(NON_QUOTE))),
            ),
        )
    } else if i == BAD_TEXT_EXPRESSION {
        def(Rule::BadTextExpression, plus(then(not(call(CHORD_NEWLINE)), call(NON_QUOTE))))
    } else if i == TEXT_EXPRESSION {
        def(
            Rule::TextExpression,
            or(
                then(
                    or5(lit("^"), lit("<"), lit(">"), lit("_"), lit("@")),
                    plus(then(not(call(CHORD_NEWLINE)), call(NON_QUOTE))),
                ),
                call(BAD_TEXT_EXPRESSION),
            ),
        )
    } else if i == CHORD_OR_TEXT {
        def(
            Rule::ChordOrText,
            then4(
                lit("\""),
                or(call(CHORD), call(TEXT_EXPRESSION)),
                star(then(call(CHORD_NEWLINE), or(call(CHORD), call(TEXT_EXPRESSION)))),
                lit("\""),
            ),
        )
    } else if i == B_SEP {
        def(Rule::BSep, or(lit("<"), lit(">")))
    } else if i == B_ELEM {
        def(
            Rule::BElem,
            or6(
                call(WSP),
                call(CHORD_OR_TEXT),
                call(GRACING),
                call(GRACE_NOTES),
                call(SLUR_BEGIN),
                call(SLUR_END),
            ),
        )
    } else {
        def(
            Rule::BrokenRhythm,
            then(
                call(STEM),
                then(
                    star(call(B_ELEM)),
                    then5(
                        call(B_SEP),
                        opt(call(B_SEP)),
                        opt(call(B_SEP)),
                        star(call(B_ELEM)),
                        call(STEM),
                    ),
                ),
            ),
        )
    }
}

/// Clefs, modes and keys.
pub open spec fn keys_rule(i: int) -> RuleDef {
    if i == CLEF_NOTE {
        def(Rule::ClefNote, or4(lit("G"), lit("C"), lit("F"), lit("P")))
    } else if i == CLEF_NAME {
        def(
            Rule::ClefName,
            or6(lit("treble"), lit("alto"), lit("tenor"), lit("bass"), lit("perc"), lit("none")),
        )
    } else if i == CLEF_LINE {
        def(Rule::ClefLine, range('1', '5'))
    } else if i == CLEF_MIDDLE {
        def(Rule::ClefMiddle, then3(lit("middle="), call(BASENOTE), opt(call(OCTAVE))))
    } else if i == CLEF_TRANSPOSE {
        def(Rule::ClefTranspose, then3(lit("transpose="), opt(lit("-")), call(DIGITS)))
    } else if i == CLEF_OCTAVE {
        def(Rule::ClefOctave, then3(lit("octave="), opt(lit("-")), call(DIGITS)))
    } else if i == CLEF_STAFFLINES {
        def(Rule::ClefStafflines, then(lit("stafflines="), call(DIGITS)))
    } else if i == CLEF_SPEC {
        def(
            Rule::ClefSpec,
            then4(
                or(then(lit("clef="), or(call(CLEF_NOTE), call(CLEF_NAME))), call(CLEF_NAME)),
                opt(call(CLEF_LINE)),
                opt(or(lit("+8"), lit("-8"))),
                opt(then(plus(call(WSP)), call(CLEF_MIDDLE))),
            ),
        )
    } else if i == CLEF {
        def(
            Rule::Clef,
            then(
                or5(
                    call(CLEF_SPEC),
                    call(CLEF_MIDDLE),
                    call(CLEF_TRANSPOSE),
                    call(CLEF_OCTAVE),
                    call(CLEF_STAFFLINES),
                ),
                opt(then(plus(call(WSP)), call(CLEF))),
            ),
        )
    } else if i == MAJOR {
        def(Rule::Major, then(lit("maj"), opt(then(lit("o"), opt(lit("r"))))))
    } else if i == LYDIAN {
        def(
            Rule::Lydian,
            then(lit("lyd"), opt(then(lit("i"), opt(then(lit("a"), opt(lit("n"))))))),
        )
    } else if i == IONIAN {
        def(
            Rule::Ionian,
            then(lit("ion"), opt(then(lit("i"), opt(then(lit("a"), opt(lit("n"))))))),
        )
    } else if i == MIXOLYDIAN {
        def(
            Rule::Mixolydian,
            then(
                lit("mix"),
                opt(
                    then(
                        lit("o"),
                        opt(
                            then(
                                lit("l"),
                                opt(
                                    then(
                                        lit("y"),
                                        opt(
                                            then(
                                                lit("d"),
                                                opt(
                                                    then(
                                                        lit("i"),
                                                        opt(then(lit("a"), opt(lit("n")))),
                                                    ),
                                                ),
                                            ),
                                        ),
                                    ),
                                ),
                            ),
                        ),
                    ),
                ),
            ),
        )
    } else if i == DORIAN {
        def(
            Rule::Dorian,
            then(lit("dor"), opt(then(lit("i"), opt(then(lit("a"), opt(lit("n"))))))),
        )
    } else if i == AEOLIAN {
        def(
            Rule::Aeolian,
            then(
                lit("aeo"),
                opt(then(lit("l"), opt(then(lit("i"), opt(then(lit("a"), opt(lit("n")))))))),
            ),
        )
    } else if i == PHRYGIAN {
        def(
            Rule::Phrygian,
            then(
                lit("phr"),
                opt(
                    then(
                        lit("y"),
                        opt(
                            then(
                                lit("g"),
                                opt(then(lit("i"), opt(then(lit("a"), opt(lit("n")))))),
                            ),
                        ),
                    ),
                ),
            ),
        )
    } else if i == LOCRIAN {
        def(
            Rule::Locrian,
            then(
                lit("loc"),
                opt(then(lit("r"), opt(then(lit("i"), opt(then(lit("a"), opt(lit("n")))))))),
            ),
        )
    } else if i == MINOR {
        def(
            Rule::Minor,
            then(lit("m"), opt(then(lit("in"), opt(then(lit("o"), opt(lit("r"))))))),
        )
    } else if i == MODE {
        def(
            Rule::Mode,
            or4(
                or3(call(MAJOR), call(LYDIAN), call(IONIAN)),
                or3(call(MIXOLYDIAN), call(DORIAN), call(AEOLIAN)),
                or(call(PHRYGIAN), call(LOCRIAN)),
                or(call(MINOR), lit("exp")),
            ),
        )
    } else if i == GLOBAL_ACCIDENTAL {
        def(Rule::GlobalAccidental, then(call(ACCIDENTAL), call(BASENOTE)))
    } else if i == KEY_DEF {
        def(
            Rule::KeyDef,
            then4(
                call(BASENOTE),
                opt(or4(lit("#"), lit("b"), lit("♯"), lit("♭"))),
                opt(then(star(call(WSP)), call(MODE))),
                star(then(call(WSP), plus(then(star(call(WSP)), call(GLOBAL_ACCIDENTAL))))),
            ),
        )
    } else {
        def(
            Rule::Key,
            or4(
                then(call(KEY_DEF), opt(then(plus(call(WSP)), call(CLEF)))),
                call(CLEF),
                lit("HP"),
                lit("Hp"),
            ),
        )
    }
}

/// Meter, tempo, voice and the fields inside a tune body.
pub open spec fn fields_rule(i: int) -> RuleDef {
    if i == METER_NUM {
        def(
            Rule::MeterNum,
            then5(
                or(
                    then(
                        lit("("),
                        then5(
                            star(call(WSP)),
                            call(DIGITS),
                            star(
                                then4(star(call(WSP)), lit("+"), star(call(WSP)), call(DIGITS)),
                            ),
                            star(call(WSP)),
                            lit(")"),
                        ),
                    ),
                    then(
                        call(DIGITS),
                        star(then4(star(call(WSP)), lit("+"), star(call(WSP)), call(DIGITS))),
                    ),
                ),
                star(call(WSP)),
                lit("/"),
                star(call(WSP)),
                call(DIGITS),
            ),
        )
    } else if i == METER {
        def(
            Rule::Meter,
            or3(call(METER_NUM), then(or(lit("C"), lit("c")), opt(lit("|"))), lit("none")),
        )
    } else if i == TEMPO_SPEC {
        def(
            Rule::TempoSpec,
            or3(
                then3(call(NOTE_LENGTH_STRICT), lit("="), call(DIGITS)),
                then4(or(lit("C"), lit("c")), opt(call(NOTE_LENGTH)), lit("="), call(DIGITS)),
                call(DIGITS),
            ),
        )
    } else if i == TEMPO_DESC {
        def(Rule::TempoDesc, then3(lit("\""), star(call(NON_QUOTE)), lit("\"")))
    } else if i == TEMPO {
        def(
            Rule::Tempo,
            or(
                then(call(TEMPO_SPEC), opt(then(plus(call(WSP)), call(TEMPO_DESC)))),
                then(call(TEMPO_DESC), opt(then(plus(call(WSP)), call(TEMPO_SPEC)))),
            ),
        )
    } else if i == VOICE {
        def(
            Rule::Voice,
            then(
                plus(then(not(or(lit(" "), lit("]"))), any())),
                star(
                    then4(
                        plus(call(WSP)),
                        plus(then(not(or3(lit(" "), lit("="), lit("]"))), any())),
                        lit("="),
                        or(
                            then3(lit("\""), star(call(NON_QUOTE)), lit("\"")),
                            plus(then(not(or(lit(" "), lit("]"))), any())),
                        ),
                    ),
                ),
            ),
        )
    } else if i == IFIELD_TEXT {
        def(
            Rule::IfieldText,
            then5(
                lit("["),
                or4(lit("I"), lit("N"), lit("R"), lit("r")),
                lit(":"),
                plus(call(NON_RIGHT_BRACKET)),
                lit("]"),
            ),
        )
    } else if i == IFIELD_KEY {
        def(
            Rule::IfieldKey,
            then4(lit("[K:"), star(call(WSP)), or(lit("none"), opt(call(KEY))), lit("]")),
        )
    } else if i == IFIELD_LENGTH {
        def(
            Rule::IfieldLength,
            then4(lit("[L:"), star(call(WSP)), call(NOTE_LENGTH_STRICT), lit("]")),
        )
    } else if i == IFIELD_METER {
        def(Rule::IfieldMeter, then4(lit("[M:"), star(call(WSP)), call(METER), lit("]")))
    } else if i == IFIELD_PART {
        def(Rule::IfieldPart, then3(lit("[P:"), plus(call(NON_RIGHT_BRACKET)), lit("]")))
    } else if i == IFIELD_TEMPO {
        def(Rule::IfieldTempo, then4(lit("[Q:"), star(call(WSP)), call(TEMPO), lit("]")))
    } else if i == IFIELD_USERDEF {
        def(Rule::IfieldUserdef, then3(lit("[U:"), plus(call(NON_RIGHT_BRACKET)), lit("]")))
    } else if i == IFIELD_VOICE {
        def(Rule::IfieldVoice, then4(lit("[V:"), star(call(WSP)), call(VOICE), lit("]")))
    } else {
        def(
            Rule::InlineField,
            or3(
                or3(call(IFIELD_TEXT), call(IFIELD_KEY), call(IFIELD_LENGTH)),
                or3(call(IFIELD_METER), call(IFIELD_PART), call(IFIELD_TEMPO)),
                or(call(IFIELD_USERDEF), call(IFIELD_VOICE)),
            ),
        )
    }
}

/// Bar lines, repeats, and the line as a whole.
pub open spec fn lines_rule(i: int) -> RuleDef {
    if i == INVISIBLE_BARLINE {
        def(Rule::InvisibleBarline, or(lit("[|]"), lit("[]")))
    } else if i == DOUBLE_REPEAT_BARLINE {
        def(Rule::DoubleRepeatBarline, lit("::"))
    } else if i == DASHED_BARLINE {
        def(Rule::DashedBarline, lit(":"))
    } else if i == NTH_REPEAT_NUM {
        def(
            Rule::NthRepeatNum,
            then(call(DIGITS), star(then(or(lit(","), lit("-")), call(DIGITS)))),
        )
    } else if i == NTH_REPEAT_TEXT {
        def(Rule::NthRepeatText, then3(lit("\""), star(call(NON_QUOTE)), lit("\"")))
    } else if i == NTH_REPEAT {
        def(Rule::NthRepeat, then(lit("["), or(call(NTH_REPEAT_NUM), call(NTH_REPEAT_TEXT))))
    } else if i == END_NTH_REPEAT {
        def(Rule::EndNthRepeat, lit("]"))
    } else if i == BARLINE {
        def(
            Rule::Barline,
            or4(
                call(INVISIBLE_BARLINE),
                then4(
                    star(lit(":")),
                    opt(lit("[")),
                    plus(then(opt(lit(".")), lit("|"))),
                    opt(or3(lit("]"), plus(lit(":")), call(NTH_REPEAT_NUM))),
                ),
                call(DOUBLE_REPEAT_BARLINE),
                call(DASHED_BARLINE),
            ),
        )
    } else if i == ELEMENT {
        def(
            Rule::Element,
            or5(
                or4(
                    call(BROKEN_RHYTHM),
                    call(STEM),
                    then(not(then(call(ABC_EOL), eoi())), call(WSP)),
                    call(CHORD_OR_TEXT),
                ),
                or4(call(GRACING), call(GRACE_NOTES), call(TUPLET), call(SLUR_BEGIN)),
                or3(call(SLUR_END), call(ROLLBACK), call(MULTI_MEASURE_REST)),
                or3(call(MEASURE_REPEAT), call(NTH_REPEAT), call(END_NTH_REPEAT)),
                or3(call(INLINE_FIELD), call(HARD_LINE_BREAK), call(UNUSED_CHAR)),
            ),
        )
    } else if i == ABC_LINE {
        def(
            Rule::AbcLine,
            then(
                opt(
                    or(
                        then4(
                            opt(call(BARLINE)),
                            plus(call(ELEMENT)),
                            star(then(call(BARLINE), plus(call(ELEMENT)))),
                            opt(call(BARLINE)),
                        ),
                        call(BARLINE),
                    ),
                ),
                call(ABC_EOL),
            ),
        )
    } else {
        def(Rule::MusicCodeLine, then(call(ABC_LINE), eoi()))
    }
}

/// The rule at index `i` of the grammar.
pub open spec fn abc_rule(i: int) -> RuleDef {
    if i < 13 {
        lexical_rule(i)
    } else if i < 35 {
        notes_rule(i)
    } else if i < 44 {
        decorations_rule(i)
    } else if i < 53 {
        chords_rule(i)
    } else if i < 75 {
        keys_rule(i)
    } else if i < 90 {
        fields_rule(i)
    } else {
        lines_rule(i)
    }
}

/// The grammar: `RULE_COUNT` rules, `abc_rule(i)` at index `i`.
pub open spec fn abc_grammar() -> Seq<RuleDef> {
    Seq::new(RULE_COUNT as nat, |i: int| abc_rule(i))
}

/// Appends the rules from index 0 on: whitespace, digits, free text and the characters that stand alone.
fn push_lexical(rules: &mut Vec<RuleDef>)
    requires
        old(rules)@.len() == 0,
    ensures
        final(rules)@.len() == 13,
        forall|i: int| 0 <= i < 13 ==> final(rules)@[i] == lexical_rule(i),
{
    // A run of spaces and tabs, taken as a whole.
    rules.push(def(Rule::Wsp, plus(or(lit(" "), lit("\t")))));
    rules.push(def(Rule::Digits, plus(range('0', '9'))));
    // Any byte but a double quote.
    rules.push(def(Rule::NonQuote, then(not(lit("\"")), any())));
    // Any byte but a closing bracket.
    rules.push(def(Rule::NonRightBracket, then(not(lit("]")), any())));
    // The separator between the lines of a chord symbol or annotation: a
    // backslash and `n`, or a semicolon.
    rules.push(def(Rule::ChordNewline, or(lit("\\n"), lit(";"))));
    rules.push(def(Rule::MeasureRepeat, then(lit("/"), opt(lit("/")))));
    rules.push(def(Rule::ReservedChar, or5(lit("#"), lit("*"), lit(";"), lit("?"), lit("@"))));
    // The voice overlay mark.
    rules.push(def(Rule::Rollback, lit("&")));
    rules.push(def(Rule::HardLineBreak, or(lit("$"), lit("!"))));
    // A backslash at the end of a line.
    rules.push(def(Rule::LineContinuation, lit("\\")));
    // The end of a line: the whitespace that trails the line and a
    // continuation mark, if any. It may be empty.
    rules.push(
        def(Rule::AbcEol, then3(star(call(WSP)), opt(call(LINE_CONTINUATION)), star(call(WSP)))),
    );
    // Set between beamed notes for legibility; it means nothing.
    rules.push(def(Rule::Backquote, lit("`")));
    rules.push(def(Rule::UnusedChar, or(call(RESERVED_CHAR), call(BACKQUOTE))));
}

/// Appends the rules from index 13 on: pitches, note lengths, notes and rests, grace notes and tuplets.
fn push_notes(rules: &mut Vec<RuleDef>)
    requires
        old(rules)@.len() == 13,
    ensures
        final(rules)@.len() == 35,
        forall|i: int| 0 <= i < 13 ==> final(rules)@[i] == old(rules)@[i],
        forall|i: int| 13 <= i < 35 ==> final(rules)@[i] == notes_rule(i),
{
    rules.push(def(Rule::Basenote, or(range('A', 'G'), range('a', 'g'))));
    rules.push(def(Rule::Octave, or(plus(lit("'")), plus(lit(",")))));
    // The double marks stand before the single ones, or they would never
    // match.
    rules.push(def(Rule::Accidental, or5(lit("^^"), lit("^"), lit("__"), lit("_"), lit("="))));
    rules.push(
        def(Rule::Pitch, then3(opt(call(ACCIDENTAL)), call(BASENOTE), opt(call(OCTAVE)))),
    );
    rules.push(def(Rule::NoteLengthBigger, call(DIGITS)));
    rules.push(def(Rule::NoteLengthSmaller, then(lit("/"), call(DIGITS))));
    rules.push(def(Rule::NoteLengthFull, then3(call(DIGITS), lit("/"), call(DIGITS))));
    rules.push(def(Rule::NoteLengthSlashes, plus(lit("/"))));
    // A note length never matches the empty string. The full form stands
    // before the bare numerator, and that before the bare slashes: `2`, `/2`,
    // `3/2`, `/` and `//` are all lengths.
    rules.push(
        def(
            Rule::NoteLength,
            or4(
                call(NOTE_LENGTH_SMALLER),
                call(NOTE_LENGTH_FULL),
                call(NOTE_LENGTH_BIGGER),
                call(NOTE_LENGTH_SLASHES),
            ),
        ),
    );
    // The note length of a field.
    rules.push(
        def(Rule::NoteLengthStrict, or(then3(call(DIGITS), lit("/"), call(DIGITS)), lit("1"))),
    );
    rules.push(def(Rule::Tie, lit("-")));
    rules.push(def(Rule::SlurBegin, lit("(")));
    rules.push(def(Rule::SlurEnd, lit(")")));
    rules.push(def(Rule::Note, then3(call(PITCH), opt(call(NOTE_LENGTH)), opt(call(TIE)))));
    rules.push(
        def(Rule::Rest, then(or3(lit("x"), lit("y"), lit("z")), opt(call(NOTE_LENGTH)))),
    );
    rules.push(def(Rule::MultiMeasureRest, then(lit("Z"), star(range('0', '9')))));
    // A note, a rest, or several notes sounded together.
    rules.push(
        def(
            Rule::Stem,
            or3(
                then5(lit("["), call(NOTE), plus(call(NOTE)), lit("]"), opt(call(TIE))),
                call(NOTE),
                call(REST),
            ),
        ),
    );
    rules.push(def(Rule::Acciaccatura, lit("/")));
    rules.push(def(Rule::GraceNote, then(call(PITCH), opt(call(NOTE_LENGTH)))));
    rules.push(
        def(
            Rule::GraceNoteStem,
            or(
                call(GRACE_NOTE),
                then4(lit("["), call(GRACE_NOTE), plus(call(GRACE_NOTE)), lit("]")),
            ),
        ),
    );
    rules.push(
        def(
            Rule::GraceNotes,
            then4(lit("{"), opt(call(ACCIACCATURA)), plus(call(GRACE_NOTE_STEM)), lit("}")),
        ),
    );
    // The opening of a tuplet; the notes that belong to it are not counted.
    rules.push(
        def(
            Rule::Tuplet,
            then3(
                lit("("),
                call(DIGITS),
                opt(then4(lit(":"), opt(call(DIGITS)), lit(":"), opt(call(DIGITS)))),
            ),
        ),
    );
}

/// Appends the rules from index 35 on: decorations.
fn push_decorations(rules: &mut Vec<RuleDef>)
    requires
        old(rules)@.len() == 35,
    ensures
        final(rules)@.len() == 44,
        forall|i: int| 0 <= i < 35 ==> final(rules)@[i] == old(rules)@[i],
        forall|i: int| 35 <= i < 44 ==> final(rules)@[i] == decorations_rule(i),
{
    rules.push(
        def(
            Rule::Gracing1,
            or4(
                or4(lit("<("), lit("<)"), lit(">("), lit(">)")),
                or4(lit("D.C."), lit("D.S."), lit("accent"), lit("arpeggio")),
                or4(lit("breath"), lit("coda"), lit("crescendo("), lit("crescendo)")),
                or3(lit("dacapo"), lit("dacoda"), lit("diminuendo(")),
            ),
        ),
    );
    rules.push(
        def(
            Rule::Gracing2,
            or4(
                or4(lit("diminuendo)"), lit("downbow"), lit("emphasis"), lit("fermata")),
                or3(lit("ffff"), lit("fff"), lit("ff")),
                or3(lit("fine"), lit("invertedfermata"), lit("invertedturnx")),
                or3(lit("invertedturn"), lit("longphrase"), lit("lowermordent")),
            ),
        ),
    );
    rules.push(
        def(
            Rule::Gracing3,
            or4(
                or4(lit("mediumphrase"), lit("mf"), lit("mordent"), lit("mp")),
                or4(lit("open"), lit("plus"), lit("pppp"), lit("ppp")),
                or4(lit("pp"), lit("pralltriller"), lit("roll"), lit("segno")),
                or4(lit("sfz"), lit("shortphrase"), lit("slide"), lit("snap")),
            ),
        ),
    );
    rules.push(
        def(
            Rule::Gracing4,
            or4(
                or4(lit("tenuto"), lit("thumb"), lit("trill("), lit("trill)")),
                or4(lit("trill"), lit("turnx"), lit("turn"), lit("upbow")),
                or4(lit("uppermordent"), lit("wedge"), lit("+"), range('0', '5')),
                or4(lit("<"), lit(">"), lit("f"), lit("p")),
            ),
        ),
    );
    rules.push(
        def(
            Rule::GracingNonstandard,
            or5(
                lit("cresc"),
                lit("decresc"),
                lit("dimin"),
                lit("fp"),
                then(lit("repeatbar"), call(DIGITS)),
            ),
        ),
    );
    // Whatever else stands between two exclamation marks.
    rules.push(def(Rule::GracingCatchall, plus(range('\"', '~'))));
    rules.push(
        def(
            Rule::LongGracing,
            or(
                then3(
                    lit("!"),
                    or5(
                        call(GRACING1),
                        call(GRACING2),
                        call(GRACING3),
                        call(GRACING_NONSTANDARD),
                        call(GRACING4),
                    ),
                    lit("!"),
                ),
                then3(lit("!"), call(GRACING_CATCHALL), lit("!")),
            ),
        ),
    );
    rules.push(def(Rule::UserdefSymbol, or3(lit("~"), range('H', 'Y'), range('h', 'w'))));
    rules.push(def(Rule::Gracing, or3(lit("."), call(USERDEF_SYMBOL), call(LONG_GRACING))));
}

/// Appends the rules from index 44 on: chord symbols, annotations and broken rhythm.
fn push_chords(rules: &mut Vec<RuleDef>)
    requires
        old(rules)@.len() == 44,
    ensures
        final(rules)@.len() == 53,
        forall|i: int| 0 <= i < 44 ==> final(rules)@[i] == old(rules)@[i],
        forall|i: int| 44 <= i < 53 ==> final(rules)@[i] == chords_rule(i),
{
    rules.push(
        def(
            Rule::ChordAccidental,
            or6(lit("#"), lit("b"), lit("="), lit("♯"), lit("♭"), lit("♮")),
        ),
    );
    rules.push(
        def(
            Rule::ChordType,
            plus(or4(range('A', 'Z'), range('a', 'z'), plus(range('0', '9')), lit("-"))),
        ),
    );
    // A chord symbol. What follows the chord proper is taken as it comes, up
    // to the closing quote or the next separator.
    rules.push(
        def(
            Rule::Chord,
            then5(
                call(BASENOTE),
                opt(call(CHORD_ACCIDENTAL)),
                opt(call(CHORD_TYPE)),
                opt(then3(lit("/"), call(BASENOTE), opt(call(CHORD_ACCIDENTAL)))),
                star(then(not(call(CHORD_NEWLINE)), call(NON_QUOTE))),
            ),
        ),
    );
    // An annotation without its placement mark.
    rules.push(
        def(Rule::BadTextExpression, plus(then(not(call(CHORD_NEWLINE)), call(NON_QUOTE)))),
    );
    rules.push(
        def(
            Rule::TextExpression,
            or(
                then(
                    or5(lit("^"), lit("<"), lit(">"), lit("_"), lit("@")),
                    plus(then(not(call(CHORD_NEWLINE)), call(NON_QUOTE))),
                ),
                call(BAD_TEXT_EXPRESSION),
            ),
        ),
    );
    rules.push(
        def(
            Rule::ChordOrText,
            then4(
                lit("\""),
                or(call(CHORD), call(TEXT_EXPRESSION)),
                star(then(call(CHORD_NEWLINE), or(call(CHORD), call(TEXT_EXPRESSION)))),
                lit("\""),
            ),
        ),
    );
    rules.push(def(Rule::BSep, or(lit("<"), lit(">"))));
    rules.push(
        def(
            Rule::BElem,
            or6(
                call(WSP),
                call(CHORD_OR_TEXT),
                call(GRACING),
                call(GRACE_NOTES),
                call(SLUR_BEGIN),
                call(SLUR_END),
            ),
        ),
    );
    rules.push(
        def(
            Rule::BrokenRhythm,
            then(
                call(STEM),
                then(
                    star(call(B_ELEM)),
                    then5(
                        call(B_SEP),
                        opt(call(B_SEP)),
                        opt(call(B_SEP)),
                        star(call(B_ELEM)),
                        call(STEM),
                    ),
                ),
            ),
        ),
    );
}

/// Appends the rules from index 53 on: clefs, modes and keys.
fn push_keys(rules: &mut Vec<RuleDef>)
    requires
        old(rules)@.len() == 53,
    ensures
        final(rules)@.len() == 75,
        forall|i: int| 0 <= i < 53 ==> final(rules)@[i] == old(rules)@[i],
        forall|i: int| 53 <= i < 75 ==> final(rules)@[i] == keys_rule(i),
{
    rules.push(def(Rule::ClefNote, or4(lit("G"), lit("C"), lit("F"), lit("P"))));
    rules.push(
        def(
            Rule::ClefName,
            or6(lit("treble"), lit("alto"), lit("tenor"), lit("bass"), lit("perc"), lit("none")),
        ),
    );
    rules.push(def(Rule::ClefLine, range('1', '5')));
    rules.push(def(Rule::ClefMiddle, then3(lit("middle="), call(BASENOTE), opt(call(OCTAVE)))));
    rules.push(def(Rule::ClefTranspose, then3(lit("transpose="), opt(lit("-")), call(DIGITS))));
    rules.push(def(Rule::ClefOctave, then3(lit("octave="), opt(lit("-")), call(DIGITS))));
    rules.push(def(Rule::ClefStafflines, then(lit("stafflines="), call(DIGITS))));
    rules.push(
        def(
            Rule::ClefSpec,
            then4(
                or(then(lit("clef="), or(call(CLEF_NOTE), call(CLEF_NAME))), call(CLEF_NAME)),
                opt(call(CLEF_LINE)),
                opt(or(lit("+8"), lit("-8"))),
                opt(then(plus(call(WSP)), call(CLEF_MIDDLE))),
            ),
        ),
    );
    // One clef setting, and the ones after it.
    rules.push(
        def(
            Rule::Clef,
            then(
                or5(
                    call(CLEF_SPEC),
                    call(CLEF_MIDDLE),
                    call(CLEF_TRANSPOSE),
                    call(CLEF_OCTAVE),
                    call(CLEF_STAFFLINES),
                ),
                opt(then(plus(call(WSP)), call(CLEF))),
            ),
        ),
    );
    rules.push(def(Rule::Major, then(lit("maj"), opt(then(lit("o"), opt(lit("r")))))));
    rules.push(
        def(
            Rule::Lydian,
            then(lit("lyd"), opt(then(lit("i"), opt(then(lit("a"), opt(lit("n"))))))),
        ),
    );
    rules.push(
        def(
            Rule::Ionian,
            then(lit("ion"), opt(then(lit("i"), opt(then(lit("a"), opt(lit("n"))))))),
        ),
    );
    rules.push(
        def(
            Rule::Mixolydian,
            then(
                lit("mix"),
                opt(
                    then(
                        lit("o"),
                        opt(
                            then(
                                lit("l"),
                                opt(
                                    then(
                                        lit("y"),
                                        opt(
                                            then(
                                                lit("d"),
                                                opt(
                                                    then(
                                                        lit("i"),
                                                        opt(then(lit("a"), opt(lit("n")))),
                                                    ),
                                                ),
                                            ),
                                        ),
                                    ),
                                ),
                            ),
                        ),
                    ),
                ),
            ),
        ),
    );
    rules.push(
        def(
            Rule::Dorian,
            then(lit("dor"), opt(then(lit("i"), opt(then(lit("a"), opt(lit("n"))))))),
        ),
    );
    rules.push(
        def(
            Rule::Aeolian,
            then(
                lit("aeo"),
                opt(then(lit("l"), opt(then(lit("i"), opt(then(lit("a"), opt(lit("n")))))))),
            ),
        ),
    );
    rules.push(
        def(
            Rule::Phrygian,
            then(
                lit("phr"),
                opt(
                    then(
                        lit("y"),
                        opt(
                            then(
                                lit("g"),
                                opt(then(lit("i"), opt(then(lit("a"), opt(lit("n")))))),
                            ),
                        ),
                    ),
                ),
            ),
        ),
    );
    rules.push(
        def(
            Rule::Locrian,
            then(
                lit("loc"),
                opt(then(lit("r"), opt(then(lit("i"), opt(then(lit("a"), opt(lit("n")))))))),
            ),
        ),
    );
    rules.push(
        def(
            Rule::Minor,
            then(lit("m"), opt(then(lit("in"), opt(then(lit("o"), opt(lit("r"))))))),
        ),
    );
    rules.push(
        def(
            Rule::Mode,
            or4(
                or3(call(MAJOR), call(LYDIAN), call(IONIAN)),
                or3(call(MIXOLYDIAN), call(DORIAN), call(AEOLIAN)),
                or(call(PHRYGIAN), call(LOCRIAN)),
                or(call(MINOR), lit("exp")),
            ),
        ),
    );
    rules.push(def(Rule::GlobalAccidental, then(call(ACCIDENTAL), call(BASENOTE))));
    rules.push(
        def(
            Rule::KeyDef,
            then4(
                call(BASENOTE),
                opt(or4(lit("#"), lit("b"), lit("♯"), lit("♭"))),
                opt(then(star(call(WSP)), call(MODE))),
                star(then(call(WSP), plus(then(star(call(WSP)), call(GLOBAL_ACCIDENTAL))))),
            ),
        ),
    );
    rules.push(
        def(
            Rule::Key,
            or4(
                then(call(KEY_DEF), opt(then(plus(call(WSP)), call(CLEF)))),
                call(CLEF),
                lit("HP"),
                lit("Hp"),
            ),
        ),
    );
}

/// Appends the rules from index 75 on: meter, tempo, voice and the fields inside a tune body.
fn push_fields(rules: &mut Vec<RuleDef>)
    requires
        old(rules)@.len() == 75,
    ensures
        final(rules)@.len() == 90,
        forall|i: int| 0 <= i < 75 ==> final(rules)@[i] == old(rules)@[i],
        forall|i: int| 75 <= i < 90 ==> final(rules)@[i] == fields_rule(i),
{
    rules.push(
        def(
            Rule::MeterNum,
            then5(
                or(
                    then(
                        lit("("),
                        then5(
                            star(call(WSP)),
                            call(DIGITS),
                            star(
                                then4(star(call(WSP)), lit("+"), star(call(WSP)), call(DIGITS)),
                            ),
                            star(call(WSP)),
                            lit(")"),
                        ),
                    ),
                    then(
                        call(DIGITS),
                        star(then4(star(call(WSP)), lit("+"), star(call(WSP)), call(DIGITS))),
                    ),
                ),
                star(call(WSP)),
                lit("/"),
                star(call(WSP)),
                call(DIGITS),
            ),
        ),
    );
    rules.push(
        def(
            Rule::Meter,
            or3(call(METER_NUM), then(or(lit("C"), lit("c")), opt(lit("|"))), lit("none")),
        ),
    );
    rules.push(
        def(
            Rule::TempoSpec,
            or3(
                then3(call(NOTE_LENGTH_STRICT), lit("="), call(DIGITS)),
                then4(or(lit("C"), lit("c")), opt(call(NOTE_LENGTH)), lit("="), call(DIGITS)),
                call(DIGITS),
            ),
        ),
    );
    rules.push(def(Rule::TempoDesc, then3(lit("\""), star(call(NON_QUOTE)), lit("\""))));
    rules.push(
        def(
            Rule::Tempo,
            or(
                then(call(TEMPO_SPEC), opt(then(plus(call(WSP)), call(TEMPO_DESC)))),
                then(call(TEMPO_DESC), opt(then(plus(call(WSP)), call(TEMPO_SPEC)))),
            ),
        ),
    );
    // The name of a voice, and its settings.
    rules.push(
        def(
            Rule::Voice,
            then(
                plus(then(not(or(lit(" "), lit("]"))), any())),
                star(
                    then4(
                        plus(call(WSP)),
                        plus(then(not(or3(lit(" "), lit("="), lit("]"))), any())),
                        lit("="),
                        or(
                            then3(lit("\""), star(call(NON_QUOTE)), lit("\"")),
                            plus(then(not(or(lit(" "), lit("]"))), any())),
                        ),
                    ),
                ),
            ),
        ),
    );
    rules.push(
        def(
            Rule::IfieldText,
            then5(
                lit("["),
                or4(lit("I"), lit("N"), lit("R"), lit("r")),
                lit(":"),
                plus(call(NON_RIGHT_BRACKET)),
                lit("]"),
            ),
        ),
    );
    rules.push(
        def(
            Rule::IfieldKey,
            then4(lit("[K:"), star(call(WSP)), or(lit("none"), opt(call(KEY))), lit("]")),
        ),
    );
    rules.push(
        def(
            Rule::IfieldLength,
            then4(lit("[L:"), star(call(WSP)), call(NOTE_LENGTH_STRICT), lit("]")),
        ),
    );
    rules.push(
        def(Rule::IfieldMeter, then4(lit("[M:"), star(call(WSP)), call(METER), lit("]"))),
    );
    // A part label. Labels in the wild follow no rule, so any text will do.
    rules.push(
        def(Rule::IfieldPart, then3(lit("[P:"), plus(call(NON_RIGHT_BRACKET)), lit("]"))),
    );
    rules.push(
        def(Rule::IfieldTempo, then4(lit("[Q:"), star(call(WSP)), call(TEMPO), lit("]"))),
    );
    rules.push(
        def(Rule::IfieldUserdef, then3(lit("[U:"), plus(call(NON_RIGHT_BRACKET)), lit("]"))),
    );
    rules.push(
        def(Rule::IfieldVoice, then4(lit("[V:"), star(call(WSP)), call(VOICE), lit("]"))),
    );
    rules.push(
        def(
            Rule::InlineField,
            or3(
                or3(call(IFIELD_TEXT), call(IFIELD_KEY), call(IFIELD_LENGTH)),
                or3(call(IFIELD_METER), call(IFIELD_PART), call(IFIELD_TEMPO)),
                or(call(IFIELD_USERDEF), call(IFIELD_VOICE)),
            ),
        ),
    );
}

/// Appends the rules from index 90 on: bar lines, repeats, and the line as a whole.
fn push_lines(rules: &mut Vec<RuleDef>)
    requires
        old(rules)@.len() == 90,
    ensures
        final(rules)@.len() == 101,
        forall|i: int| 0 <= i < 90 ==> final(rules)@[i] == old(rules)@[i],
        forall|i: int| 90 <= i < 101 ==> final(rules)@[i] == lines_rule(i),
{
    rules.push(def(Rule::InvisibleBarline, or(lit("[|]"), lit("[]"))));
    rules.push(def(Rule::DoubleRepeatBarline, lit("::")));
    rules.push(def(Rule::DashedBarline, lit(":")));
    rules.push(
        def(
            Rule::NthRepeatNum,
            then(call(DIGITS), star(then(or(lit(","), lit("-")), call(DIGITS)))),
        ),
    );
    rules.push(def(Rule::NthRepeatText, then3(lit("\""), star(call(NON_QUOTE)), lit("\""))));
    rules.push(
        def(Rule::NthRepeat, then(lit("["), or(call(NTH_REPEAT_NUM), call(NTH_REPEAT_TEXT)))),
    );
    rules.push(def(Rule::EndNthRepeat, lit("]")));
    rules.push(
        def(
            Rule::Barline,
            or4(
                call(INVISIBLE_BARLINE),
                then4(
                    star(lit(":")),
                    opt(lit("[")),
                    plus(then(opt(lit(".")), lit("|"))),
                    opt(or3(lit("]"), plus(lit(":")), call(NTH_REPEAT_NUM))),
                ),
                call(DOUBLE_REPEAT_BARLINE),
                call(DASHED_BARLINE),
            ),
        ),
    );
    // One element of a line. Broken rhythm stands before the stem it begins
    // with. Whitespace is an element unless the line ends with it: then it
    // belongs to the line ending.
    rules.push(
        def(
            Rule::Element,
            or5(
                or4(
                    call(BROKEN_RHYTHM),
                    call(STEM),
                    then(not(then(call(ABC_EOL), eoi())), call(WSP)),
                    call(CHORD_OR_TEXT),
                ),
                or4(call(GRACING), call(GRACE_NOTES), call(TUPLET), call(SLUR_BEGIN)),
                or3(call(SLUR_END), call(ROLLBACK), call(MULTI_MEASURE_REST)),
                or3(call(MEASURE_REPEAT), call(NTH_REPEAT), call(END_NTH_REPEAT)),
                or3(call(INLINE_FIELD), call(HARD_LINE_BREAK), call(UNUSED_CHAR)),
            ),
        ),
    );
    // The elements of a line, between bar lines, and the line ending. A line
    // may hold nothing but its ending.
    rules.push(
        def(
            Rule::AbcLine,
            then(
                opt(
                    or(
                        then4(
                            opt(call(BARLINE)),
                            plus(call(ELEMENT)),
                            star(then(call(BARLINE), plus(call(ELEMENT)))),
                            opt(call(BARLINE)),
                        ),
                        call(BARLINE),
                    ),
                ),
                call(ABC_EOL),
            ),
        ),
    );
    // A whole line: the top rule.
    rules.push(def(Rule::MusicCodeLine, then(call(ABC_LINE), eoi())));
}

impl Grammar {
    /// The grammar of a line of an ABC tune body.
    pub fn abc() -> (g: Grammar)
        ensures
            g@ == abc_grammar(),
    {
        let mut rules: Vec<RuleDef> = Vec::new();
        push_lexical(&mut rules);
        push_notes(&mut rules);
        push_decorations(&mut rules);
        push_chords(&mut rules);
        push_keys(&mut rules);
        push_fields(&mut rules);
        push_lines(&mut rules);
        assert(rules@ =~= abc_grammar());
        Grammar { rules }
    }
}

} // verus!
