use abcparser_peg::canon::{canonicalize, chomp, match_line, SyntaxError};
use abcparser_peg::rdp::Rdp;
use abcparser_peg::token::{Rule, Token};
use abcparser_peg::visitors::{canonify_abc_visitor, visit_parse_tree};

fn canon(input: &str) -> Option<String> {
    canonicalize(input).ok()
}

fn refused_at(input: &str) -> Option<usize> {
    canonicalize(input).err().map(|e| e.farthest_offset)
}

#[test]
fn line_feed_is_not_part_of_the_line() {
    assert_eq!(canonicalize("A2 B2 | C2 D2\n"), Ok("A2 B2 | C2 D2".to_string()));
}

#[test]
fn single_spaces_are_kept() {
    assert_eq!(canonicalize("A2 B2 | C2 D2"), Ok("A2 B2 | C2 D2".to_string()));
}

#[test]
fn whitespace_runs_become_one_space() {
    assert_eq!(canonicalize("A   B\t\t C"), Ok("A B C".to_string()));
}

#[test]
fn a_single_tab_becomes_a_space() {
    assert_eq!(canon("A\tB"), Some("A B".to_string()));
}

#[test]
fn chord_separator_becomes_semicolon() {
    assert_eq!(canon("\"Am\\nC\""), Some("\"Am;C\"".to_string()));
}

#[test]
fn semicolon_separator_stays() {
    assert_eq!(canon("\"Am;C\"A"), Some("\"Am;C\"A".to_string()));
}

#[test]
fn annotation_separator_becomes_semicolon() {
    assert_eq!(canon("\"^slowly\\nand softly\"A"), Some("\"^slowly;and softly\"A".to_string()));
}

#[test]
fn whitespace_inside_quotes_is_kept() {
    assert_eq!(canon("\"^two  spaces\"A"), Some("\"^two  spaces\"A".to_string()));
}

#[test]
fn unmatched_slur_is_accepted() {
    assert_eq!(canonicalize("A(B"), Ok("A(B".to_string()));
}

#[test]
fn unknown_leading_character_is_refused() {
    assert_eq!(canonicalize("%A"), Err(SyntaxError { farthest_offset: 0 }));
}

#[test]
fn unknown_character_is_refused_where_it_stands() {
    assert_eq!(refused_at("A2 B2 | C2 %"), Some(11));
    assert_eq!(refused_at("A%"), Some(1));
}

#[test]
fn a_line_may_hold_nothing_but_its_ending() {
    assert_eq!(canon(""), Some("".to_string()));
    assert_eq!(canon("\n"), Some("".to_string()));
    assert_eq!(canon(" \t "), Some("".to_string()));
    assert_eq!(canon("\\"), Some("\\".to_string()));
    assert_eq!(canon(" \\ "), Some("\\".to_string()));
}

#[test]
fn unclosed_quote_is_refused() {
    assert!(canonicalize("\"Am").is_err());
}

#[test]
fn only_one_line_feed_is_taken_off() {
    assert!(canonicalize("A\n\n").is_err());
}

#[test]
fn continuation_loses_the_whitespace_around_it() {
    assert_eq!(canon("A B\\  \t"), Some("A B\\".to_string()));
    assert_eq!(canon("A B\\"), Some("A B\\".to_string()));
    assert_eq!(canon("A B\\ \n"), Some("A B\\".to_string()));
    assert_eq!(canon("A B \t\\"), Some("A B\\".to_string()));
    assert_eq!(canon("A B  \\ \t"), Some("A B\\".to_string()));
}

#[test]
fn whitespace_at_the_end_of_a_line_is_trimmed() {
    assert_eq!(canon("A B  "), Some("A B".to_string()));
    assert_eq!(canon("A B \t\n"), Some("A B".to_string()));
    assert_eq!(canon("A | "), Some("A |".to_string()));
    assert_eq!(canon("| "), Some("|".to_string()));
    assert_eq!(canon("A2 B2 | C2 D2 \n"), Some("A2 B2 | C2 D2".to_string()));
}

#[test]
fn whitespace_at_the_start_of_a_line_is_squashed() {
    assert_eq!(canon("  A"), Some(" A".to_string()));
    assert_eq!(canon(" \t|"), Some(" |".to_string()));
}

#[test]
fn a_continuation_mark_amid_the_line_is_refused() {
    assert_eq!(refused_at("A \\ B"), Some(4));
}

#[test]
fn canonical_text_is_a_fixed_point() {
    for line in ["A2 B2 | C2 D2", "A B C", "\"Am;C\"A", "A B\\", "|:A B:|", "{/g}A [CEG] z2"] {
        assert_eq!(canon(line), Some(line.to_string()));
    }
    for line in ["A   B\t\t C", "\"Am\\nC\" \t A", "A B\\  ", "A B  ", " \t", "A \\ ", " | "] {
        let once = canon(line).unwrap();
        assert_eq!(canon(&once), Some(once.clone()));
    }
}

#[test]
fn order_of_marks_is_kept() {
    let line = "A \t B2 |  [CE]  \"Am;C\"z";
    let out = canon(line).unwrap();
    let marks = |s: &str| s.chars().filter(|c| *c != ' ' && *c != '\t').collect::<String>();
    assert_eq!(marks(&out), marks(line));
    assert_eq!(out, "A B2 | [CE] \"Am;C\"z");
}

#[test]
fn text_beyond_ascii_is_kept() {
    assert_eq!(canon("\"^caf\u{e9}  \\n\u{266f}\"A"), Some("\"^caf\u{e9}  ;\u{266f}\"A".to_string()));
    assert_eq!(canon("\"C\u{266f}m\"A \t B"), Some("\"C\u{266f}m\"A B".to_string()));
    assert_eq!(canon("[K:F\u{266f} dor]A"), Some("[K:F\u{266f} dor]A".to_string()));
}

#[test]
fn bar_lines_and_repeats() {
    for line in ["|:A B:|", "A|]", "[|]A", "A::B", "A|1B:|2C||", "A [1 B", "A.|B", ":A", "|"] {
        assert_eq!(canon(line), Some(line.to_string()), "{}", line);
    }
}

#[test]
fn notes_rests_and_decorations() {
    for line in [
        "^A,2 _b'/2 =c3/2 d/ e//",
        "z2 x y/ Z4",
        "A>B c<<d",
        "{/g}A {ab}c {[ce]g}a",
        "(3ABC (3:2:3DEF",
        ".A ~B Hc !trill!d !fermata!e !xyzzy!f",
        "[CEG] [C2E2]-",
        "A-B (AB)",
        "A&B $ A`B",
        "#*;?@",
    ] {
        assert_eq!(canon(line), Some(line.to_string()), "{}", line);
    }
}

#[test]
fn inline_fields() {
    for line in [
        "[K:G]A",
        "[K:none]A",
        "[K:]A",
        "[K:Dmix]A",
        "[K:D mixolydian]A",
        "[K:Am clef=bass]A",
        "[K:treble+8 middle=B]A",
        "[K:HP]A",
        "[L:1/8]A",
        "[M:6/8]A",
        "[M:C|]A",
        "[M:(2+3)/8]A",
        "[P:A]A",
        "[Q:1/4=120]A",
        "[Q:\"Allegro\" 1/4=120]A",
        "[V:T1]A",
        "[V:T1 name=\"Tenor I\" clef=treble]A",
        "[I:anything goes]A",
        "[U:T=!trill!]A",
    ] {
        assert_eq!(canon(line), Some(line.to_string()), "{}", line);
    }
}

#[test]
fn whitespace_inside_fields_is_squashed() {
    assert_eq!(canon("[K:  G]A"), Some("[K: G]A".to_string()));
    assert_eq!(canon("[M: 2 +  3 / 8]A"), Some("[M: 2 + 3 / 8]A".to_string()));
    assert_eq!(canon("[V:T1 \t name=x]A"), Some("[V:T1 name=x]A".to_string()));
}

#[test]
fn whitespace_taken_as_text_is_kept() {
    assert_eq!(canon("[V:T1\tx]A"), Some("[V:T1\tx]A".to_string()));
    assert_eq!(canon("[P:A  B]A"), Some("[P:A  B]A".to_string()));
}

#[test]
fn what_the_grammar_refuses() {
    for line in ["2", "A2 2", "[CEG", "{}", "[X:1]", "[L:2]", "[K:G", "A\rB", "\u{e9}"] {
        assert!(canonicalize(line).is_err(), "{}", line);
    }
}

#[test]
fn chomp_takes_off_one_line_feed() {
    assert_eq!(chomp("A\n"), "A");
    assert_eq!(chomp("A\n\n"), "A\n");
    assert_eq!(chomp("A"), "A");
    assert_eq!(chomp(""), "");
    assert_eq!(chomp("\n"), "");
    assert_eq!(chomp("A\r\n"), "A\r");
}

#[test]
fn visitor_on_a_matched_parser() {
    let mut parser = Rdp::new("A  B");
    assert!(parser.music_code_line());
    assert!(parser.end());
    assert_eq!(canonify_abc_visitor(&parser), "A B");
    assert_eq!(visit_parse_tree(&parser), b"A B".to_vec());
}

#[test]
fn visitor_on_a_parser_that_has_matched_nothing() {
    let mut parser = Rdp::new("%");
    assert!(!parser.music_code_line());
    assert_eq!(visit_parse_tree(&parser), Vec::<u8>::new());
    let fresh = Rdp::new("A");
    assert_eq!(visit_parse_tree(&fresh), Vec::<u8>::new());
}

#[test]
fn trace_of_a_line_or_where_it_fails() {
    let q = match_line("A \n").unwrap();
    assert_eq!(
        q,
        vec![
            Token::new(Rule::MusicCodeLine, 0, 2),
            Token::new(Rule::AbcLine, 0, 2),
            Token::new(Rule::Element, 0, 1),
            Token::new(Rule::Stem, 0, 1),
            Token::new(Rule::Note, 0, 1),
            Token::new(Rule::Pitch, 0, 1),
            Token::new(Rule::Basenote, 0, 1),
            Token::new(Rule::AbcEol, 1, 2),
            Token::new(Rule::Wsp, 1, 2),
        ]
    );
    assert_eq!(match_line("A %"), Err(SyntaxError { farthest_offset: 2 }));
    let mut parser = Rdp::new("A");
    assert!(parser.music_code_line());
    assert_eq!(parser.into_queue().len(), 8);
}

#[test]
fn lines_of_tunes_are_kept() {
    for line in [
        "|:G3 GAB|A3 ABd|edd gdd|edB dBA|",
        "GAB d2B|A2A ABd|edd gdB|1 AGF G3:|2 AGF G2A||",
        "\"G\"G3 GAB|\"D7\"A3 ABd|\"Em\"edd gdd|\"C/G\"edB dBA|]",
        "d2 (3def g2 f>e | d<c B/A/G/F/ E4 :|",
        "[V:1] c2 !fermata!d2 | {/B}c4 [C8E8G8c8] |\\",
        "a'b,, ^c/4 __D3/2 =e z4 | Z2 | x8 |",
        "[M:6/8][L:1/8][K:Dmix] A2d fed | [Q:1/4=100] cAG E3 ||",
        "\"^Intro\" D2 | \"_pp\" E2 | \"<(\" F2 \">)\" G2 | \"@1,2 x\" A2",
        ".A ~B HA LB MA OB PA SB TA uB vA",
    ] {
        assert_eq!(canonicalize(line), Ok(line.to_string()), "{}", line);
    }
}

#[test]
fn lines_of_tunes_are_made_regular() {
    assert_eq!(
        canonicalize("|: G3  GAB |\tA3 ABd |  \"G\\nD\" edd gdd | edB dBA :|  \n"),
        Ok("|: G3 GAB | A3 ABd | \"G;D\" edd gdd | edB dBA :|".to_string())
    );
    assert_eq!(
        canonicalize("[K: D   dor  ^c _b]  A2 \\   \n"),
        Ok("[K: D dor ^c _b] A2\\".to_string())
    );
}
