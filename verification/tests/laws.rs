use abcparser_peg::canon::canonicalize;
use abcparser_peg::rdp::Rdp;
use abcparser_peg::rstring::push_bytes;
use abcparser_peg::token::{Rule, Token};
use abcparser_peg::visitors::{recurse_children, skip_tokens};

const LINES: [&str; 11] = [
    "",
    " \t",
    "A B | \t",
    "A2 B2 | C2 D2",
    "A   B\t\t C",
    "\"Am\\nC\" \t [CEG]  z2 \\ \t",
    "|: {/g}A>B (3cde :|",
    "[V:T1 \t name=\"Tenor  I\"]  [K:D  mix] A",
    "\"^caf\u{e9};au lait\"A \t b",
    "|",
    "A \\",
];

fn trace_of(line: &str) -> Vec<Token> {
    let mut parser = Rdp::new(line);
    assert!(parser.music_code_line(), "{}", line);
    parser.queue().clone()
}

fn top_level_text(q: &Vec<Token>, input: &[u8]) -> Vec<u8> {
    let mut out = Vec::new();
    let mut i = 0;
    while i < q.len() {
        let (r, next) = recurse_children(i, q, q.len(), input);
        push_bytes(&mut out, &r.to_string(input));
        i = next;
    }
    out
}

#[test]
fn top_level_tokens_cover_the_line() {
    for line in LINES {
        let q = trace_of(line);
        assert_eq!(q[0], Token::new(Rule::MusicCodeLine, 0, line.len()));
        let mut at = 0;
        let mut i = 0;
        while i < q.len() {
            assert_eq!(q[i].start, at, "{}", line);
            at = q[i].end;
            i = skip_tokens(&q, q[i].end, i + 1);
        }
        assert_eq!(at, line.len(), "{}", line);
    }
}

#[test]
fn tokens_nest_or_follow() {
    for line in LINES {
        let q = trace_of(line);
        for j in 0..q.len() {
            assert!(q[j].start <= q[j].end && q[j].end <= line.len());
            for i in 0..j {
                let after = q[j].start >= q[i].end;
                let inside = q[i].start <= q[j].start && q[j].end <= q[i].end;
                assert!(after || inside, "{} {:?} {:?}", line, q[i], q[j]);
            }
        }
    }
}

#[test]
fn default_rule_gives_the_line_back() {
    for line in LINES {
        let plain: Vec<Token> = trace_of(line)
            .iter()
            .map(|t| match t.rule {
                Rule::Wsp | Rule::ChordNewline | Rule::AbcEol => Token::new(Rule::Element, t.start, t.end),
                _ => *t,
            })
            .collect();
        assert_eq!(top_level_text(&plain, line.as_bytes()), line.as_bytes().to_vec());
    }
}

#[test]
fn walk_over_the_trace_is_the_canonical_text() {
    for line in LINES {
        let q = trace_of(line);
        let text = String::from_utf8(top_level_text(&q, line.as_bytes())).unwrap();
        assert_eq!(Ok(text), canonicalize(line));
    }
}

#[test]
fn canonical_text_is_canonical() {
    for line in LINES {
        let once = canonicalize(line).unwrap();
        assert_eq!(canonicalize(&once), Ok(once.clone()), "{}", line);
        for t in trace_of(&once) {
            let span = &once.as_bytes()[t.start..t.end];
            match t.rule {
                Rule::Wsp => assert_eq!(span, b" "),
                Rule::ChordNewline => assert_eq!(span, b";"),
                Rule::AbcEol => assert!(span.is_empty() || span == b"\\"),
                _ => {}
            }
        }
    }
}

#[test]
fn canonical_text_ends_in_no_whitespace() {
    for line in LINES {
        let out = canonicalize(line).unwrap();
        assert!(!out.ends_with(' ') && !out.ends_with('\t'), "{:?}", out);
        assert!(!out.contains("  ") || line.contains('"'), "{:?}", out);
    }
}

#[test]
fn line_ending_becomes_the_mark_or_nothing() {
    for line in LINES {
        let q = trace_of(line);
        let mut seen = 0;
        for i in 0..q.len() {
            if q[i].rule == Rule::AbcEol {
                let (r, _) = recurse_children(i, &q, q.len(), line.as_bytes());
                let text = r.to_string(line.as_bytes());
                assert!(text.is_empty() || text == b"\\".to_vec(), "{:?}", line);
                assert_eq!(q[i].end, line.len());
                seen += 1;
            }
        }
        assert_eq!(seen, 1);
    }
}

#[test]
fn marks_keep_their_order() {
    let marks = |s: &str| s.bytes().filter(|b| *b != b' ' && *b != b'\t').collect::<Vec<u8>>();
    for line in LINES {
        if line.contains("\\n") {
            continue;
        }
        let out = canonicalize(line).unwrap();
        assert_eq!(marks(&out), marks(line), "{}", line);
    }
    assert_eq!(canonicalize(LINES[5]), Ok("\"Am;C\" [CEG] z2\\".to_string()));
}

#[test]
fn whitespace_tokens_hold_blanks_only() {
    for line in LINES {
        for t in trace_of(line) {
            let span = &line.as_bytes()[t.start..t.end];
            if t.rule == Rule::Wsp {
                assert!(!span.is_empty() && span.iter().all(|b| *b == b' ' || *b == b'\t'));
            }
            if t.rule == Rule::ChordNewline {
                assert!(span == b";" || span == b"\\n");
            }
        }
    }
}
