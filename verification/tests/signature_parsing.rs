use nu_engine::errors::ParseError;
use nu_engine::lex::{lex, Token, TokenContents};
use nu_engine::param_flag_list::{is_flag, is_rest, parse_signature, Flag};
use nu_engine::parse_lib::Parse;
use nu_engine::shape::SyntaxShape;
use nu_engine::signature::{NamedType, PositionalType};
use nu_engine::span::{Span, Spanned};
use nu_engine::token_split::{lex_split_baseline_tokens_on, lex_split_shortflag_from_longflag};

fn spanned(text: &str) -> Spanned<String> {
    Spanned { item: text.to_string(), span: Span::new(0, text.len()) }
}

fn baseline(text: &str, start: usize, end: usize) -> Token {
    Token::new(TokenContents::Baseline(text.to_string()), Span::new(start, end))
}

#[test]
fn signature_with_optional_typed_parameter() {
    let (sig, err) = parse_signature("cmd", &spanned("[x, y?: int]"));
    assert_eq!(err, None);
    assert_eq!(sig.name, "cmd");
    assert_eq!(
        sig.positional,
        vec![
            (PositionalType::Mandatory("x".to_string(), SyntaxShape::Any), String::new()),
            (PositionalType::Optional("y".to_string(), SyntaxShape::Int), String::new()),
        ]
    );
    assert_eq!(sig.rest_positional, None);
    assert_eq!(sig.named.len(), 1);
}

#[test]
fn flag_with_shortform_and_type_is_split_and_parsed() {
    let (tokens, err) = lex("--output(-o): path", 0);
    assert_eq!(err, None);
    assert_eq!(tokens, vec![baseline("--output(-o):", 0, 13), baseline("path", 14, 18)]);
    let tokens = lex_split_baseline_tokens_on(tokens, &[',', ':', '?']);
    let tokens = lex_split_shortflag_from_longflag(tokens);
    assert_eq!(
        tokens,
        vec![
            baseline("--output", 0, 8),
            baseline("(-o)", 8, 12),
            baseline(":", 12, 13),
            baseline("path", 14, 18),
        ]
    );
    let parsed = <Flag as Parse>::parse(&tokens, 0);
    assert_eq!(parsed.err, None);
    assert_eq!(parsed.i, 4);
    assert_eq!(parsed.value.long_name, "output");
    assert_eq!(parsed.value.named_type, NamedType::Optional(Some('o'), SyntaxShape::FilePath));
}

#[test]
fn signature_with_flags_and_rest() {
    let (sig, err) = parse_signature("cmd", &spanned("[--verbose(-v) # be loud\n ...items: string]"));
    assert_eq!(err, None);
    assert!(sig.positional.is_empty());
    assert_eq!(sig.rest_positional, Some((SyntaxShape::String, String::new())));
    assert_eq!(sig.named.len(), 2);
    let (name, value) = sig.named.entry_at(1);
    assert_eq!(name, "verbose");
    assert_eq!(value, &(NamedType::Switch(Some('v')), "be loud".to_string()));
}

#[test]
fn missing_brackets_are_reported_and_the_interior_is_still_parsed() {
    let (sig, err) = parse_signature("cmd", &spanned("(x)"));
    assert!(matches!(err, Some(ParseError::Mismatch { .. })));
    assert_eq!(
        sig.positional,
        vec![(PositionalType::Mandatory("x".to_string(), SyntaxShape::Any), String::new())]
    );
}

#[test]
fn colon_without_type_is_an_error_with_a_default_shape() {
    let (sig, err) = parse_signature("cmd", &spanned("[x:]"));
    assert!(matches!(err, Some(ParseError::UnexpectedEof { .. })));
    assert_eq!(
        sig.positional,
        vec![(PositionalType::Mandatory("x".to_string(), SyntaxShape::Any), String::new())]
    );
}

#[test]
fn classification_of_tokens() {
    assert!(is_flag(&baseline("--all", 0, 5)));
    assert!(is_flag(&baseline("-a", 0, 2)));
    assert!(!is_flag(&baseline("all", 0, 3)));
    assert!(is_rest(&baseline("...rest", 0, 7)));
    assert!(!is_rest(&baseline("..rest", 0, 6)));
    assert!(!is_rest(&Token::new(TokenContents::EOL, Span::new(0, 1))));
}

#[test]
fn the_optional_modifier_may_stand_behind_the_type() {
    let (sig, err) = parse_signature("f", &spanned("[y: int?]"));
    assert_eq!(err, None);
    assert_eq!(
        sig.positional,
        vec![(PositionalType::Optional("y".to_string(), SyntaxShape::Int), String::new())]
    );
    let (sig, err) = parse_signature("f", &spanned("[a: string?, b?, c: int, d? : path, e]"));
    assert_eq!(err, None);
    assert_eq!(
        sig.positional,
        vec![
            (PositionalType::Optional("a".to_string(), SyntaxShape::String), String::new()),
            (PositionalType::Optional("b".to_string(), SyntaxShape::Any), String::new()),
            (PositionalType::Mandatory("c".to_string(), SyntaxShape::Int), String::new()),
            (PositionalType::Optional("d".to_string(), SyntaxShape::FilePath), String::new()),
            (PositionalType::Mandatory("e".to_string(), SyntaxShape::Any), String::new()),
        ]
    );
    let (sig, err) = parse_signature("f", &spanned("[y?: int?]"));
    assert_eq!(err, None);
    assert_eq!(
        sig.positional,
        vec![(PositionalType::Optional("y".to_string(), SyntaxShape::Int), String::new())]
    );
}
