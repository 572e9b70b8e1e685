use nu_engine::errors::ParseError;
use nu_engine::lex::{Token, TokenContents};
use nu_engine::param_flag_list::{Flag, ItemEnd, OptionalType, Parameter, Rest};
use nu_engine::parse_lib::{
    And2, And3, Discard, Expect, IfSuccessThen, Maybe, Parse, ParseResult, WithSpan,
};
use nu_engine::primitives::{
    Comma, Comment, DoublePoint, FlagName, FlagShortName, OptionalModifier, ParameterName,
    RestName, Shape, EOL,
};
use nu_engine::shape::SyntaxShape;
use nu_engine::signature::{NamedType, PositionalType};
use nu_engine::span::{Span, Spanned};

fn word(text: &str, start: usize) -> Token {
    Token::new(TokenContents::Baseline(text.to_string()), Span::new(start, start + text.len()))
}

fn words(texts: &[&str]) -> Vec<Token> {
    let mut at = 0;
    let mut out = vec![];
    for t in texts {
        out.push(word(t, at));
        at += t.len() + 1;
    }
    out
}

fn all_outcomes(tokens: &[Token], i: usize) -> Vec<(usize, bool)> {
    vec![
        {
            let r = ParameterName::parse(tokens, i);
            (r.i, r.err.is_some())
        },
        {
            let r = Expect::<Comma>::parse(tokens, i);
            (r.i, r.err.is_some())
        },
        {
            let r = Maybe::<OptionalModifier>::parse(tokens, i);
            (r.i, r.err.is_some())
        },
        {
            let r = And2::<ParameterName, Comma>::parse(tokens, i);
            (r.i, r.err.is_some())
        },
        {
            let r = And3::<ParameterName, Maybe<OptionalModifier>, OptionalType>::parse(tokens, i);
            (r.i, r.err.is_some())
        },
        {
            let r = IfSuccessThen::<DoublePoint, Shape>::parse(tokens, i);
            (r.i, r.err.is_some())
        },
        {
            let r = Discard::<EOL>::parse(tokens, i);
            (r.i, r.err.is_some())
        },
        {
            let r = WithSpan::<FlagName>::parse(tokens, i);
            (r.i, r.err.is_some())
        },
        {
            let r = <Parameter as Parse>::parse(tokens, i);
            (r.i, r.err.is_some())
        },
        {
            let r = <Flag as Parse>::parse(tokens, i);
            (r.i, r.err.is_some())
        },
        {
            let r = Rest::parse(tokens, i);
            (r.i, r.err.is_some())
        },
        {
            let r = ItemEnd::parse(tokens, i);
            (r.i, r.err.is_some())
        },
    ]
}

#[test]
fn no_parser_moves_the_cursor_back_or_past_the_end() {
    let inputs: Vec<Vec<Token>> = vec![
        vec![],
        words(&["x"]),
        words(&["x", ",", "y", "?", ":", "int"]),
        words(&["--flag", "(-f)", ":", "path", ","]),
        words(&["...rest", ":", "string"]),
        words(&[":", ":", "?", ","]),
        vec![Token::new(TokenContents::EOL, Span::new(0, 1)), word("x", 1)],
        vec![Token::new(TokenContents::Comment(" note ".to_string()), Span::new(1, 7))],
    ];
    for tokens in &inputs {
        for i in 0..=tokens.len() {
            for (next, _) in all_outcomes(tokens, i) {
                assert!(i <= next && next <= tokens.len(), "{:?} from {}", tokens, i);
            }
        }
    }
}

#[test]
fn a_required_single_token_parser_that_fails_reads_nothing() {
    let tokens = words(&["x", ":", "nonsense"]);
    for i in 0..=tokens.len() {
        let comma = Expect::<Comma>::parse(&tokens, i);
        if comma.err.is_some() {
            assert_eq!(comma.i, i);
        }
        let shape = Expect::<Shape>::parse(&tokens, i);
        if shape.err.is_some() {
            assert_eq!(shape.i, i);
        }
        let discarded = Discard::<Expect<FlagShortName>>::parse(&tokens, i);
        if discarded.err.is_some() {
            assert_eq!(discarded.i, i);
        }
    }
    // The unknown type name is reported and stays unread.
    let shape = Expect::<Shape>::parse(&tokens, 2);
    assert_eq!(shape.value, SyntaxShape::Any);
    assert_eq!(shape.i, 2);
    assert_eq!(
        shape.err,
        Some(ParseError::Mismatch {
            expected: "type".to_string(),
            actual: Spanned { item: "nonsense".to_string(), span: Span::new(4, 12) },
        })
    );
}

#[test]
fn a_sequence_may_report_an_error_and_still_move_on() {
    // The first parser fails on `x`, the second one reads it.
    let tokens = words(&["x"]);
    let r = And2::<Comma, ParameterName>::parse(&tokens, 0);
    assert!(r.err.is_some());
    assert_eq!(r.i, 1);
    assert_eq!(r.value, ((), "x".to_string()));
}

#[test]
fn maybe_gives_nothing_exactly_when_the_inner_parser_fails() {
    let tokens = words(&["x", "?", ","]);
    for i in 0..=tokens.len() {
        let inner = OptionalModifier::parse(&tokens, i);
        let outer = Maybe::<OptionalModifier>::parse(&tokens, i);
        assert_eq!(outer.err, None);
        assert_eq!(
            outer == ParseResult { value: None, i, err: None },
            inner.err.is_some()
        );
    }
    assert_eq!(
        Maybe::<OptionalModifier>::parse(&tokens, 1),
        ParseResult { value: Some(()), i: 2, err: None }
    );
    assert_eq!(Maybe::<Comma>::display_name(), ",?");
    assert_eq!(Maybe::<Comma>::default_error_value(), Some(()));
}

#[test]
fn expect_reports_the_end_of_input_at_the_last_token() {
    let tokens = words(&["x", ":"]);
    let r = Expect::<Shape>::parse(&tokens, 2);
    assert_eq!(r.value, SyntaxShape::Any);
    assert_eq!(r.i, 2);
    assert_eq!(
        r.err,
        Some(ParseError::UnexpectedEof { expected: "type".to_string(), span: Span::new(2, 3) })
    );
    let none: Vec<Token> = vec![];
    let r = Expect::<ParameterName>::parse(&none, 0);
    assert_eq!(r.value, "Internal Error");
    assert_eq!(
        r.err,
        Some(ParseError::UnexpectedEof {
            expected: "parameter name".to_string(),
            span: Span::unknown()
        })
    );
}

#[test]
fn a_colon_owes_a_type() {
    let tokens = words(&["x", ":", "int", ","]);
    assert_eq!(
        IfSuccessThen::<DoublePoint, Shape>::parse(&tokens, 1),
        ParseResult { value: Some(((), SyntaxShape::Int)), i: 3, err: None }
    );
    // No colon: nothing is read and nothing is reported.
    assert_eq!(
        IfSuccessThen::<DoublePoint, Shape>::parse(&tokens, 0),
        ParseResult { value: None, i: 0, err: None }
    );
    // A colon without a type behind it is an error.
    let tokens = words(&["x", ":", ","]);
    let r = OptionalType::parse(&tokens, 1);
    assert_eq!(r.value, Some(SyntaxShape::Any));
    assert_eq!(r.i, 2);
    assert!(matches!(r.err, Some(ParseError::Mismatch { .. })));
    assert_eq!(
        IfSuccessThen::<DoublePoint, Shape>::display_name(),
        "(: >> type)?"
    );
}

#[test]
fn discard_keeps_cursor_and_error_only() {
    let tokens = words(&[",", "x"]);
    assert_eq!(Discard::<Comma>::parse(&tokens, 0), ParseResult { value: (), i: 1, err: None });
    let r = Discard::<Comma>::parse(&tokens, 1);
    assert_eq!(r.i, 1);
    assert!(r.err.is_some());
}

#[test]
fn with_span_covers_the_tokens_that_were_read() {
    let tokens = words(&["name", "?", ":", "int"]);
    let r = WithSpan::<And3<ParameterName, Maybe<OptionalModifier>, OptionalType>>::parse(
        &tokens, 0,
    );
    assert_eq!(r.err, None);
    assert_eq!(r.i, 4);
    assert_eq!(r.value.span, Span::new(0, 12));
    assert_eq!(r.value.item, ("name".to_string(), Some(()), Some(SyntaxShape::Int)));
    let none: Vec<Token> = vec![];
    let r = WithSpan::<Maybe<Comma>>::parse(&none, 0);
    assert_eq!(r.value.span, Span::unknown());
}

#[test]
fn single_token_parsers_read_what_they_are_for() {
    let tokens = words(&["--all", "(-a)", "...rest", "x"]);
    assert_eq!(FlagName::parse(&tokens, 0).value, "all");
    assert_eq!(FlagShortName::parse(&tokens, 1).value, 'a');
    assert_eq!(RestName::parse(&tokens, 2).value, "rest");
    assert!(FlagName::parse(&tokens, 3).err.is_some());
    assert!(FlagShortName::parse(&tokens, 0).err.is_some());
    assert!(RestName::parse(&tokens, 0).err.is_some());
    let comment = vec![Token::new(TokenContents::Comment("  be loud ".to_string()), Span::new(1, 11))];
    assert_eq!(Comment::parse(&comment, 0).value, "be loud");
    for (name, shape) in [
        ("int", SyntaxShape::Int),
        ("string", SyntaxShape::String),
        ("path", SyntaxShape::FilePath),
        ("table", SyntaxShape::Table),
        ("unit", SyntaxShape::Unit),
        ("number", SyntaxShape::Number),
        ("pattern", SyntaxShape::Pattern),
        ("range", SyntaxShape::Range),
        ("block", SyntaxShape::Block),
        ("any", SyntaxShape::Any),
    ] {
        let r = Shape::parse(&words(&[name]), 0);
        assert_eq!((r.value, r.i, r.err), (shape, 1, None));
    }
}

#[test]
fn items_are_assembled_from_their_parts() {
    let tokens = words(&["y", "?", ":", "int", ","]);
    let p = <Parameter as Parse>::parse(&tokens, 0);
    assert_eq!(p.err, None);
    assert_eq!(p.i, 5);
    assert_eq!(p.value.pos_type, PositionalType::Optional("y".to_string(), SyntaxShape::Int));
    assert_eq!(p.value.desc, None);
    assert_eq!(p.value.span, Span::new(0, 9));

    let tokens = words(&["--verbose", "(-v)"]);
    let f = <Flag as Parse>::parse(&tokens, 0);
    assert_eq!(f.err, None);
    assert_eq!(f.value.long_name, "verbose");
    assert_eq!(f.value.named_type, NamedType::Switch(Some('v')));

    let tokens = words(&["...items", ":", "string"]);
    let r = Rest::parse(&tokens, 0);
    assert_eq!(r.err, None);
    assert_eq!(r.value, (SyntaxShape::String, String::new()));

    assert_eq!(<Parameter as Parse>::default_error_value(), Parameter::error());
    assert_eq!(<Flag as Parse>::default_error_value(), Flag::error());
    assert_eq!(<Parameter as Parse>::display_name(), "parameter item");
}
