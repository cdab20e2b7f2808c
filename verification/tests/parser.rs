use abcparser_peg::grammar::{
    ACCIDENTAL, BARLINE, CHORD_NEWLINE, CHORD_OR_TEXT, DIGITS, ELEMENT, KEY, MUSIC_CODE_LINE,
    NOTE, NOTE_LENGTH, RULE_COUNT, VOICE, WSP,
};
use abcparser_peg::pattern::Grammar;
use abcparser_peg::rdp::Rdp;
use abcparser_peg::token::{Rule, Token};

fn tokens(parser: &Rdp) -> Vec<(Rule, usize, usize)> {
    parser.queue().iter().map(|t| (t.rule, t.start, t.end)).collect()
}

fn parse(rule: usize, input: &str) -> Option<Vec<(Rule, usize, usize)>> {
    let mut parser = Rdp::new(input);
    if parser.parse_rule(rule) {
        Some(tokens(&parser))
    } else {
        assert_eq!(tokens(&parser), vec![]);
        assert_eq!(parser.input(), input.as_bytes());
        None
    }
}

#[test]
fn grammar_has_every_rule_once() {
    let g = Grammar::abc();
    assert_eq!(g.rules.len(), RULE_COUNT);
    assert_eq!(RULE_COUNT, 101);
    assert_eq!(g.rules[WSP].rule, Rule::Wsp);
    assert_eq!(g.rules[NOTE].rule, Rule::Note);
    assert_eq!(g.rules[MUSIC_CODE_LINE].rule, Rule::MusicCodeLine);
    for i in 0..g.rules.len() {
        for j in 0..i {
            assert_ne!(g.rules[i].rule, g.rules[j].rule);
        }
    }
}

#[test]
fn new_parser_stands_at_the_start() {
    let parser = Rdp::new("A2");
    assert!(!parser.end());
    assert_eq!(parser.expected(), 0);
    assert_eq!(parser.queue().len(), 0);
    assert_eq!(parser.input(), b"A2");
    assert!(Rdp::new("").end());
}

#[test]
fn trace_of_a_note() {
    let mut parser = Rdp::new("A2");
    assert!(parser.music_code_line());
    assert!(parser.end());
    assert_eq!(
        tokens(&parser),
        vec![
            (Rule::MusicCodeLine, 0, 2),
            (Rule::AbcLine, 0, 2),
            (Rule::Element, 0, 2),
            (Rule::Stem, 0, 2),
            (Rule::Note, 0, 2),
            (Rule::Pitch, 0, 1),
            (Rule::Basenote, 0, 1),
            (Rule::NoteLength, 1, 2),
            (Rule::NoteLengthBigger, 1, 2),
            (Rule::Digits, 1, 2),
            (Rule::AbcEol, 2, 2),
        ]
    );
    assert_eq!(parser.queue()[0], Token::new(Rule::MusicCodeLine, 0, 2));
}

#[test]
fn trace_of_broken_rhythm() {
    assert_eq!(
        parse(MUSIC_CODE_LINE, "A>B"),
        Some(vec![
            (Rule::MusicCodeLine, 0, 3),
            (Rule::AbcLine, 0, 3),
            (Rule::Element, 0, 3),
            (Rule::BrokenRhythm, 0, 3),
            (Rule::Stem, 0, 1),
            (Rule::Note, 0, 1),
            (Rule::Pitch, 0, 1),
            (Rule::Basenote, 0, 1),
            (Rule::BSep, 1, 2),
            (Rule::Stem, 2, 3),
            (Rule::Note, 2, 3),
            (Rule::Pitch, 2, 3),
            (Rule::Basenote, 2, 3),
            (Rule::AbcEol, 3, 3),
        ])
    );
}

#[test]
fn trace_of_a_line_ending() {
    let mut parser = Rdp::new("A \\ \t");
    assert!(parser.music_code_line());
    assert_eq!(
        tokens(&parser),
        vec![
            (Rule::MusicCodeLine, 0, 5),
            (Rule::AbcLine, 0, 5),
            (Rule::Element, 0, 1),
            (Rule::Stem, 0, 1),
            (Rule::Note, 0, 1),
            (Rule::Pitch, 0, 1),
            (Rule::Basenote, 0, 1),
            (Rule::AbcEol, 1, 5),
            (Rule::Wsp, 1, 2),
            (Rule::LineContinuation, 2, 3),
            (Rule::Wsp, 3, 5),
        ]
    );
}

#[test]
fn whitespace_before_the_end_belongs_to_the_ending() {
    assert_eq!(
        parse(MUSIC_CODE_LINE, "A | "),
        Some(vec![
            (Rule::MusicCodeLine, 0, 4),
            (Rule::AbcLine, 0, 4),
            (Rule::Element, 0, 1),
            (Rule::Stem, 0, 1),
            (Rule::Note, 0, 1),
            (Rule::Pitch, 0, 1),
            (Rule::Basenote, 0, 1),
            (Rule::Element, 1, 2),
            (Rule::Wsp, 1, 2),
            (Rule::Barline, 2, 3),
            (Rule::AbcEol, 3, 4),
            (Rule::Wsp, 3, 4),
        ])
    );
    assert_eq!(
        parse(MUSIC_CODE_LINE, " "),
        Some(vec![
            (Rule::MusicCodeLine, 0, 1),
            (Rule::AbcLine, 0, 1),
            (Rule::AbcEol, 0, 1),
            (Rule::Wsp, 0, 1),
        ])
    );
    assert_eq!(
        parse(MUSIC_CODE_LINE, ""),
        Some(vec![(Rule::MusicCodeLine, 0, 0), (Rule::AbcLine, 0, 0), (Rule::AbcEol, 0, 0)])
    );
}

#[test]
fn whitespace_amid_the_line_is_an_element() {
    assert_eq!(parse(ELEMENT, "  A"), Some(vec![(Rule::Element, 0, 2), (Rule::Wsp, 0, 2)]));
    assert_eq!(parse(ELEMENT, "  "), None);
    assert_eq!(parse(ELEMENT, " \\ "), None);
    assert_eq!(
        parse(ELEMENT, " \\ A"),
        Some(vec![(Rule::Element, 0, 1), (Rule::Wsp, 0, 1)])
    );
}

#[test]
fn whitespace_is_taken_as_a_whole() {
    assert_eq!(parse(WSP, " \t  x"), Some(vec![(Rule::Wsp, 0, 4)]));
    assert_eq!(parse(WSP, "x"), None);
    assert_eq!(parse(WSP, ""), None);
}

#[test]
fn note_length_takes_the_longest_form() {
    assert_eq!(
        parse(NOTE_LENGTH, "3/2"),
        Some(vec![
            (Rule::NoteLength, 0, 3),
            (Rule::NoteLengthFull, 0, 3),
            (Rule::Digits, 0, 1),
            (Rule::Digits, 2, 3),
        ])
    );
    assert_eq!(
        parse(NOTE_LENGTH, "/2"),
        Some(vec![(Rule::NoteLength, 0, 2), (Rule::NoteLengthSmaller, 0, 2), (Rule::Digits, 1, 2)])
    );
    assert_eq!(
        parse(NOTE_LENGTH, "12"),
        Some(vec![(Rule::NoteLength, 0, 2), (Rule::NoteLengthBigger, 0, 2), (Rule::Digits, 0, 2)])
    );
    assert_eq!(
        parse(NOTE_LENGTH, "3/"),
        Some(vec![(Rule::NoteLength, 0, 1), (Rule::NoteLengthBigger, 0, 1), (Rule::Digits, 0, 1)])
    );
    assert_eq!(
        parse(NOTE_LENGTH, "/"),
        Some(vec![(Rule::NoteLength, 0, 1), (Rule::NoteLengthSlashes, 0, 1)])
    );
    assert_eq!(
        parse(NOTE_LENGTH, "///A"),
        Some(vec![(Rule::NoteLength, 0, 3), (Rule::NoteLengthSlashes, 0, 3)])
    );
    assert_eq!(parse(NOTE_LENGTH, "A"), None);
    assert_eq!(parse(NOTE_LENGTH, ""), None);
}

#[test]
fn double_accidental_before_single() {
    assert_eq!(parse(ACCIDENTAL, "^^A"), Some(vec![(Rule::Accidental, 0, 2)]));
    assert_eq!(parse(ACCIDENTAL, "^A"), Some(vec![(Rule::Accidental, 0, 1)]));
    assert_eq!(parse(ACCIDENTAL, "__A"), Some(vec![(Rule::Accidental, 0, 2)]));
}

#[test]
fn separator_has_two_spellings() {
    assert_eq!(parse(CHORD_NEWLINE, "\\n"), Some(vec![(Rule::ChordNewline, 0, 2)]));
    assert_eq!(parse(CHORD_NEWLINE, ";"), Some(vec![(Rule::ChordNewline, 0, 1)]));
    assert_eq!(parse(CHORD_NEWLINE, "\n"), None);
    assert_eq!(parse(CHORD_NEWLINE, "\\"), None);
}

#[test]
fn quoted_text_stops_at_the_separator() {
    assert_eq!(
        parse(CHORD_OR_TEXT, "\"^a;b\""),
        Some(vec![
            (Rule::ChordOrText, 0, 6),
            (Rule::TextExpression, 1, 3),
            (Rule::NonQuote, 2, 3),
            (Rule::ChordNewline, 3, 4),
            (Rule::Chord, 4, 5),
            (Rule::Basenote, 4, 5),
        ])
    );
}

#[test]
fn any_takes_one_byte() {
    assert_eq!(
        parse(CHORD_OR_TEXT, "\"\u{e9}\""),
        Some(vec![
            (Rule::ChordOrText, 0, 4),
            (Rule::TextExpression, 1, 3),
            (Rule::BadTextExpression, 1, 3),
            (Rule::NonQuote, 1, 2),
            (Rule::NonQuote, 2, 3),
        ])
    );
}

#[test]
fn range_takes_ascii_only() {
    assert_eq!(parse(DIGITS, "\u{660}"), None);
    assert_eq!(parse(DIGITS, "42x"), Some(vec![(Rule::Digits, 0, 2)]));
}

#[test]
fn clefs_follow_one_another() {
    assert_eq!(
        parse(KEY, "treble middle=B transpose=-2"),
        Some(vec![
            (Rule::Key, 0, 28),
            (Rule::Clef, 0, 28),
            (Rule::ClefSpec, 0, 15),
            (Rule::ClefName, 0, 6),
            (Rule::Wsp, 6, 7),
            (Rule::ClefMiddle, 7, 15),
            (Rule::Basenote, 14, 15),
            (Rule::Wsp, 15, 16),
            (Rule::Clef, 16, 28),
            (Rule::ClefTranspose, 16, 28),
            (Rule::Digits, 27, 28),
        ])
    );
}

#[test]
fn voice_name_runs_to_the_first_space() {
    assert_eq!(
        parse(VOICE, "T1 \t n=x]"),
        Some(vec![(Rule::Voice, 0, 8), (Rule::Wsp, 2, 5)])
    );
    assert_eq!(parse(VOICE, "a\tb]"), Some(vec![(Rule::Voice, 0, 3)]));
    assert_eq!(parse(VOICE, "]"), None);
}

#[test]
fn bar_line_forms() {
    for (text, end) in [("|", 1), ("||", 2), ("|]", 2), ("[|", 2), ("|:", 2), (":|", 2), ("::", 2),
        (":|:", 3), ("|1", 2), ("|1,3-5", 6), (".|", 2), ("[|]", 3), ("[]", 2), (":", 1), (":::|", 4)]
    {
        let got = parse(BARLINE, text).unwrap();
        assert_eq!(got[0], (Rule::Barline, 0, end), "{}", text);
    }
    assert_eq!(parse(BARLINE, "A"), None);
    assert_eq!(parse(BARLINE, "["), None);
}

#[test]
fn failed_rule_leaves_the_parser_as_it_was() {
    let mut parser = Rdp::new("A2 %");
    assert!(parser.parse_rule(NOTE));
    let before = tokens(&parser);
    assert!(parser.parse_rule(WSP));
    assert!(!parser.parse_rule(ELEMENT));
    assert_eq!(parser.expected(), 3);
    assert!(!parser.end());
    let mut expected = before.clone();
    expected.push((Rule::Wsp, 2, 3));
    assert_eq!(tokens(&parser), expected);
}

#[test]
fn unknown_rule_index_fails() {
    let mut parser = Rdp::new("A");
    assert!(!parser.parse_rule(RULE_COUNT));
    assert!(!parser.parse_rule(usize::MAX));
    assert_eq!(tokens(&parser), vec![]);
}

#[test]
fn farthest_failure_is_remembered() {
    let mut parser = Rdp::new("\"x");
    assert!(!parser.music_code_line());
    assert_eq!(parser.expected(), 2);
    let mut parser = Rdp::new("A B C %");
    assert!(!parser.music_code_line());
    assert_eq!(parser.expected(), 6);
}
