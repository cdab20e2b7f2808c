use abcparser_peg::matcher::{byte_in_range, lit_matches, repeat, run, Cursor};
use abcparser_peg::pattern::{
    any, call, def, eoi, lit, not, opt, or, or3, plus, range, star, then, then3, Grammar, Pattern,
};
use abcparser_peg::token::{Rule, Token};

fn toy() -> Grammar {
    // 0: a digit; 1: digits; 2: a sum; 3: a rule that calls itself first
    Grammar {
        rules: vec![
            def(Rule::ClefLine, range('0', '9')),
            def(Rule::Digits, plus(call(0))),
            def(Rule::Meter, then(call(1), star(then(lit("+"), call(1))))),
            def(Rule::Clef, then(call(3), lit("x"))),
        ],
    }
}

fn attempt(p: &Pattern, input: &[u8], pos: usize) -> (bool, usize, Vec<Token>, usize) {
    let g = toy();
    let mut cur = Cursor::new();
    cur.pos = pos;
    let ok = run(&g, input, &mut cur, p, g.rules.len());
    (ok, cur.pos, cur.queue, cur.fail_pos)
}

#[test]
fn literal() {
    assert!(lit_matches(b"abcd", 1, "bc"));
    assert!(lit_matches(b"abcd", 4, ""));
    assert!(!lit_matches(b"abcd", 3, "de"));
    assert!(!lit_matches(b"abcd", 1, "bd"));
    assert!(lit_matches("\u{266f}".as_bytes(), 0, "\u{266f}"));
    assert_eq!(attempt(&lit("bc"), b"abcd", 1), (true, 3, vec![], 0));
    assert_eq!(attempt(&lit("bc"), b"abcd", 0), (false, 0, vec![], 0));
}

#[test]
fn byte_range() {
    assert!(byte_in_range(b'A', 'A', 'G'));
    assert!(byte_in_range(b'G', 'A', 'G'));
    assert!(!byte_in_range(b'H', 'A', 'G'));
    assert!(!byte_in_range(b'@', 'A', 'G'));
    assert!(!byte_in_range(0xc3, '\u{0}', '\u{ff}'));
    assert_eq!(attempt(&range('a', 'c'), b"b", 0), (true, 1, vec![], 0));
    assert_eq!(attempt(&range('a', 'c'), b"b", 1), (false, 1, vec![], 0));
}

#[test]
fn any_and_end() {
    assert_eq!(attempt(&any(), b"\xff", 0), (true, 1, vec![], 0));
    assert_eq!(attempt(&any(), b"ab", 2), (false, 2, vec![], 2));
    assert_eq!(attempt(&eoi(), b"ab", 2), (true, 2, vec![], 0));
    assert_eq!(attempt(&eoi(), b"ab", 1), (false, 1, vec![], 1));
}

#[test]
fn rule_call_leaves_a_token() {
    assert_eq!(
        attempt(&call(1), b"42+", 0),
        (
            true,
            2,
            vec![
                Token::new(Rule::Digits, 0, 2),
                Token::new(Rule::ClefLine, 0, 1),
                Token::new(Rule::ClefLine, 1, 2),
            ],
            2
        )
    );
    assert_eq!(attempt(&call(1), b"x", 0), (false, 0, vec![], 0));
    assert_eq!(attempt(&call(1), b"1x", 1), (false, 1, vec![], 1));
}

#[test]
fn sequence_gives_back_what_it_took() {
    assert_eq!(
        attempt(&call(2), b"1+2+", 0),
        (
            true,
            3,
            vec![
                Token::new(Rule::Meter, 0, 3),
                Token::new(Rule::Digits, 0, 1),
                Token::new(Rule::ClefLine, 0, 1),
                Token::new(Rule::Digits, 2, 3),
                Token::new(Rule::ClefLine, 2, 3),
            ],
            4
        )
    );
    assert_eq!(attempt(&then3(lit("a"), call(1), lit("b")), b"a1c", 0), (false, 0, vec![], 2));
}

#[test]
fn choice_is_ordered() {
    assert_eq!(attempt(&or(lit("a"), lit("ab")), b"ab", 0), (true, 1, vec![], 0));
    assert_eq!(attempt(&or(lit("ab"), lit("a")), b"ab", 0), (true, 2, vec![], 0));
    assert_eq!(attempt(&or3(call(1), any(), eoi()), b"", 0), (true, 0, vec![], 0));
    assert_eq!(attempt(&or(call(0), call(1)), b"x", 0), (false, 0, vec![], 0));
}

#[test]
fn repetition_is_greedy() {
    assert_eq!(attempt(&then(star(lit("a")), lit("a")), b"aaa", 0), (false, 0, vec![], 0));
    assert_eq!(attempt(&star(lit("a")), b"aaab", 0), (true, 3, vec![], 0));
    assert_eq!(attempt(&star(lit("a")), b"b", 0), (true, 0, vec![], 0));
    assert_eq!(attempt(&plus(lit("a")), b"b", 0), (false, 0, vec![], 0));
    assert_eq!(attempt(&plus(lit("a")), b"aab", 0), (true, 2, vec![], 0));
    assert_eq!(attempt(&opt(lit("a")), b"aab", 0), (true, 1, vec![], 0));
    assert_eq!(attempt(&opt(lit("a")), b"b", 0), (true, 0, vec![], 0));
}

#[test]
fn repetition_of_nothing_stops() {
    assert_eq!(attempt(&star(opt(lit("a"))), b"b", 0), (true, 0, vec![], 0));
    assert_eq!(attempt(&star(lit("")), b"b", 0), (true, 0, vec![], 0));
    assert_eq!(attempt(&plus(opt(lit("a"))), b"aab", 0), (true, 2, vec![], 0));
}

#[test]
fn lookahead_takes_nothing() {
    assert_eq!(attempt(&not(call(1)), b"x", 0), (true, 0, vec![], 0));
    assert_eq!(attempt(&not(call(1)), b"1", 0), (false, 0, vec![], 1));
    let ahead = Pattern::Ahead(Box::new(call(1)));
    assert_eq!(attempt(&ahead, b"12", 0), (true, 0, vec![], 2));
    assert_eq!(attempt(&ahead, b"x", 0), (false, 0, vec![], 0));
}

#[test]
fn left_recursion_fails() {
    assert_eq!(attempt(&call(3), b"xx", 0), (false, 0, vec![], 0));
    assert_eq!(attempt(&call(7), b"xx", 0), (false, 0, vec![], 0));
}

#[test]
fn repeat_is_the_star() {
    let g = toy();
    let mut cur = Cursor::new();
    repeat(&g, b"123x", &mut cur, &call(0), g.rules.len());
    assert_eq!(cur.pos, 3);
    assert_eq!(cur.queue.len(), 3);
    assert_eq!(cur.fail_pos, 3);
}

#[test]
fn constructors_build_the_expressions() {
    assert!(matches!(lit("a"), Pattern::Lit("a")));
    assert!(matches!(range('a', 'z'), Pattern::Range('a', 'z')));
    assert!(matches!(call(5), Pattern::Call(5)));
    assert!(matches!(any(), Pattern::Any));
    assert!(matches!(eoi(), Pattern::Eoi));
    match then3(lit("a"), any(), eoi()) {
        Pattern::Then(a, rest) => {
            assert!(matches!(*a, Pattern::Lit("a")));
            match *rest {
                Pattern::Then(b, c) => {
                    assert!(matches!(*b, Pattern::Any));
                    assert!(matches!(*c, Pattern::Eoi));
                }
                _ => panic!("nesting"),
            }
        }
        _ => panic!("nesting"),
    }
    match or3(lit("a"), any(), eoi()) {
        Pattern::Or(a, rest) => {
            assert!(matches!(*a, Pattern::Lit("a")));
            assert!(matches!(*rest, Pattern::Or(_, _)));
        }
        _ => panic!("nesting"),
    }
    assert!(matches!(opt(any()), Pattern::Opt(_)));
    assert!(matches!(star(any()), Pattern::Star(_)));
    assert!(matches!(plus(any()), Pattern::Plus(_)));
    assert!(matches!(not(any()), Pattern::Not(_)));
    let d = def(Rule::Wsp, any());
    assert_eq!(d.rule, Rule::Wsp);
    assert!(matches!(d.body, Pattern::Any));
}
