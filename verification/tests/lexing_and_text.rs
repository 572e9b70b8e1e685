use nu_engine::errors::ParseError;
use nu_engine::lex::{lex, token_to_spanned_string, Token, TokenContents};
use nu_engine::order::comes_before;
use nu_engine::span::{Span, Spanned, Tag};
use nu_engine::text::{
    byte_length, chars_of, decimal_of, ends_with, find_char, is_whitespace, replace_all,
    rfind_char, starts_with, string_of, trim, width_of,
};
use nu_engine::token_split::{lex_split_baseline_tokens_on, lex_split_shortflag_from_longflag};

fn baseline(text: &str, start: usize, end: usize) -> Token {
    Token::new(TokenContents::Baseline(text.to_string()), Span::new(start, end))
}

fn chars(text: &str) -> Vec<char> {
    text.chars().collect()
}

#[test]
fn the_lexer_cuts_at_white_space_and_marks_the_other_tokens() {
    let (tokens, err) = lex("ls -l | wc;\nx # note\r", 10);
    assert_eq!(err, None);
    assert_eq!(
        tokens,
        vec![
            baseline("ls", 10, 12),
            baseline("-l", 13, 15),
            Token::new(TokenContents::Pipe, Span::new(16, 17)),
            baseline("wc", 18, 20),
            Token::new(TokenContents::Semicolon, Span::new(20, 21)),
            Token::new(TokenContents::EOL, Span::new(21, 22)),
            baseline("x", 22, 23),
            Token::new(TokenContents::Comment(" note\r".to_string()), Span::new(25, 31)),
        ]
    );
    assert_eq!(lex("", 0), (vec![], None));
    assert_eq!(lex("   \t ", 3), (vec![], None));
    assert_eq!(lex("a||b", 0).0, vec![baseline("a", 0, 1), baseline("||", 1, 3), baseline("b", 3, 4)]);
}

#[test]
fn inside_quotes_and_delimiters_a_token_runs_on() {
    let (tokens, err) = lex("echo 'a b' [x, y] { ls | wc } \"p;q\"", 0);
    assert_eq!(err, None);
    let texts: Vec<String> = tokens.iter().map(|t| token_to_spanned_string(t).item).collect();
    assert_eq!(texts, vec!["echo", "'a b'", "[x, y]", "{ ls | wc }", "\"p;q\""]);
    // A closing delimiter that does not match what is open closes nothing.
    let (tokens, err) = lex("(a ] b) c", 0);
    assert_eq!(err, None);
    assert_eq!(tokens, vec![baseline("(a ] b)", 0, 7), baseline("c", 8, 9)]);
}

#[test]
fn a_token_that_the_end_cuts_off_is_an_error() {
    let (tokens, err) = lex("ls [a b", 0);
    assert_eq!(tokens, vec![baseline("ls", 0, 2), baseline("[a b", 3, 7)]);
    assert_eq!(
        err,
        Some(ParseError::UnexpectedEof { expected: "]".to_string(), span: Span::new(3, 7) })
    );
    let (_, err) = lex("'open", 0);
    assert_eq!(
        err,
        Some(ParseError::UnexpectedEof { expected: "'".to_string(), span: Span::new(0, 5) })
    );
    // The first error is the one that is reported.
    let (_, err) = lex("{ ( [", 0);
    assert_eq!(
        err,
        Some(ParseError::UnexpectedEof { expected: "]".to_string(), span: Span::new(0, 5) })
    );
}

#[test]
fn spans_count_bytes() {
    // "né" takes three bytes, "日本" six.
    let (tokens, err) = lex("né 日本 x", 0);
    assert_eq!(err, None);
    assert_eq!(
        tokens,
        vec![baseline("né", 0, 3), baseline("日本", 4, 10), baseline("x", 11, 12)]
    );
    assert_eq!(byte_length("né 日本 x"), 12);
    assert_eq!(byte_length(""), 0);
    assert_eq!(width_of('a'), 1);
    assert_eq!(width_of('é'), 2);
    assert_eq!(width_of('日'), 3);
    assert_eq!(width_of('😀'), 4);
}

#[test]
fn separators_become_tokens_of_their_own() {
    let tokens = vec![
        baseline("x,", 1, 3),
        baseline("y?:int", 4, 10),
        Token::new(TokenContents::EOL, Span::new(10, 11)),
        baseline(",,", 11, 13),
        baseline("é:", 14, 17),
    ];
    assert_eq!(
        lex_split_baseline_tokens_on(tokens, &[',', ':', '?']),
        vec![
            baseline("x", 1, 2),
            baseline(",", 2, 3),
            baseline("y", 4, 5),
            baseline("?", 5, 6),
            baseline(":", 6, 7),
            baseline("int", 7, 10),
            Token::new(TokenContents::EOL, Span::new(10, 11)),
            baseline(",", 11, 12),
            baseline(",", 12, 13),
            baseline("é", 14, 16),
            baseline(":", 16, 17),
        ]
    );
    let untouched = vec![baseline("plain", 0, 5)];
    assert_eq!(lex_split_baseline_tokens_on(untouched, &[',']), vec![baseline("plain", 0, 5)]);
}

#[test]
fn a_short_flag_is_cut_off_its_long_flag() {
    let tokens = vec![
        baseline("--flag(-f)", 2, 12),
        baseline("(-g)", 13, 17),
        baseline("plain", 18, 23),
        Token::new(TokenContents::Pipe, Span::new(24, 25)),
        baseline("a(b(c", 26, 31),
    ];
    assert_eq!(
        lex_split_shortflag_from_longflag(tokens),
        vec![
            baseline("--flag", 2, 8),
            baseline("(-f)", 8, 12),
            baseline("(-g)", 13, 17),
            baseline("plain", 18, 23),
            Token::new(TokenContents::Pipe, Span::new(24, 25)),
            baseline("a", 26, 27),
            baseline("(b(c", 27, 31),
        ]
    );
}

#[test]
fn tokens_are_quoted_in_diagnostics_by_their_text() {
    let at = Span::new(4, 5);
    for (contents, text) in [
        (TokenContents::Pipe, "|"),
        (TokenContents::Semicolon, ";"),
        (TokenContents::EOL, "\n"),
        (TokenContents::Comment("c".to_string()), "c"),
        (TokenContents::Baseline("b".to_string()), "b"),
    ] {
        assert_eq!(
            token_to_spanned_string(&Token::new(contents, at)),
            Spanned { item: text.to_string(), span: at }
        );
    }
    assert!(TokenContents::EOL.is_eol());
    assert!(!TokenContents::Pipe.is_eol());
}

#[test]
fn spans_and_tags() {
    assert_eq!(Span::unknown(), Span::new(0, 0));
    let s = Span::new(3, 7);
    assert_eq!((s.start(), s.end()), (3, 7));
    assert_eq!(s.until(Span::new(9, 12)), Span::new(3, 12));
    assert_eq!(Tag::unknown(), Tag::new(Span::unknown()));
    assert_eq!(Tag::new(s).until(Tag::new(Span::new(9, 12))), Tag::new(Span::new(3, 12)));
}

#[test]
fn text_helpers() {
    assert_eq!(chars_of("aé"), vec!['a', 'é']);
    assert_eq!(string_of(&chars("aé")), "aé");
    assert!(starts_with(&chars("--all"), &chars("--")));
    assert!(!starts_with(&chars("-"), &chars("--")));
    assert!(starts_with(&chars("x"), &chars("")));
    assert!(ends_with(&chars("x..."), &chars("...")));
    assert!(!ends_with(&chars(".."), &chars("...")));
    assert_eq!(find_char(&chars("a(b(c"), '('), Some(1));
    assert_eq!(find_char(&chars("abc"), '('), None);
    assert_eq!(rfind_char(&chars("a}b}c"), '}'), Some(3));
    assert_eq!(rfind_char(&chars("abc"), '}'), None);
    assert_eq!(trim(&chars(" \t be loud \n")), "be loud");
    assert_eq!(trim(&chars("   ")), "");
    assert_eq!(trim(&chars("")), "");
    assert!(is_whitespace('\u{3000}'));
    assert!(!is_whitespace('x'));
    assert_eq!(replace_all(&chars("aaa"), &chars("aa"), &chars("b")), chars("ba"));
    assert_eq!(replace_all(&chars("a-b-c"), &chars("-"), &chars("")), chars("abc"));
    assert_eq!(replace_all(&chars("abc"), &chars("abcd"), &chars("x")), chars("abc"));
    assert_eq!(decimal_of(0), "0");
    assert_eq!(decimal_of(-7), "-7");
    assert_eq!(decimal_of(1203), "1203");
    assert_eq!(decimal_of(i64::MIN), "-9223372036854775808");
    assert_eq!(decimal_of(i64::MAX), "9223372036854775807");
}

#[test]
fn names_are_ordered_like_strings() {
    let names = ["", "a", "ab", "b", "é", "日", "A", "a b"];
    for x in names {
        for y in names {
            assert_eq!(comes_before(&chars(x), &chars(y)), x < y, "{:?} {:?}", x, y);
        }
    }
}
