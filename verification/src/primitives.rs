//! The parsers that read a single token: names, separators, types.

use crate::errors::{ParseError, ParseErrorView};
use crate::lex::{Token, TokenContents, TokenContentsView, TokenView};
use crate::parse_lib::{last_span, mismatch_at, Parse, ParseResult, Parsed, Rewinds};
use crate::shape::SyntaxShape;
use crate::span::Span;
use crate::text::{chars_of, has_prefix, same_text, starts_with, string_between, trim, trimmed};
use std::marker::PhantomData;
use vstd::prelude::*;

verus! {

/// A rule that says which single token is accepted, and what it stands for.
pub trait Terminal {
    /// What an accepted token stands for.
    type Output: DeepView;

    /// The name by which diagnostics call the token.
    spec fn name() -> Seq<char>;

    /// The value that stands in where the token is missing.
    spec fn fallback() -> <Self::Output as DeepView>::V;

    /// What `token` stands for, if it is accepted.
    spec fn accepts(token: TokenView) -> Option<<Self::Output as DeepView>::V>;

    /// What `token` stands for, if it is accepted.
    fn read(token: &Token) -> (r: Option<Self::Output>)
        ensures
            r.deep_view() == Self::accepts(token.deep_view()),
    ;

    fn display_name() -> (s: String)
        ensures
            s@ == Self::name(),
    ;

    fn default_error_value() -> (v: Self::Output)
        ensures
            v.deep_view() == Self::fallback(),
    ;
}

/// The parser that reads one token by the rule `T`. A token that the rule does
/// not accept is a mismatch, and a missing token an unexpected end of input;
/// in both cases nothing is read.
pub struct One<T> {
    _marker: PhantomData<T>,
}

impl<T: Terminal> Parse for One<T> {
    type Output = T::Output;

    open spec fn name() -> Seq<char> {
        T::name()
    }

    open spec fn fallback() -> <T::Output as DeepView>::V {
        T::fallback()
    }

    open spec fn outcome(tokens: Seq<TokenView>, i: int) -> Parsed<<T::Output as DeepView>::V> {
        if 0 <= i < tokens.len() {
            match T::accepts(tokens[i]) {
                Some(v) => Parsed { value: v, i: i + 1, err: None },
                None => Parsed {
                    value: T::fallback(),
                    i,
                    err: Some(mismatch_at(T::name(), tokens[i])),
                },
            }
        } else {
            Parsed {
                value: T::fallback(),
                i,
                err: Some(
                    ParseErrorView::UnexpectedEof { expected: T::name(), span: last_span(tokens) },
                ),
            }
        }
    }

    proof fn lemma_cursor(tokens: Seq<TokenView>, i: int) {
    }

    fn parse(tokens: &[Token], i: usize) -> (res: ParseResult<T::Output>) {
        if i < tokens.len() {
            match T::read(&tokens[i]) {
                Some(v) => ParseResult::new(v, i + 1, None),
                None => Self::mismatch_default_return(&tokens[i], i),
            }
        } else {
            let span = if tokens.len() > 0 {
                tokens[tokens.len() - 1].span
            } else {
                Span::unknown()
            };
            ParseResult::new(
                T::default_error_value(),
                i,
                Some(ParseError::unexpected_eof(T::display_name(), span)),
            )
        }
    }

    fn display_name() -> (s: String) {
        T::display_name()
    }

    fn default_error_value() -> (v: T::Output) {
        T::default_error_value()
    }
}

impl<T: Terminal> Rewinds for One<T> {
    proof fn lemma_rewinds(tokens: Seq<TokenView>, i: int) {
    }
}

/// The text of a baseline token.
pub open spec fn baseline_text(token: TokenView) -> Option<Seq<char>> {
    match token.contents {
        TokenContentsView::Baseline(s) => Some(s),
        _ => None,
    }
}

/// Whether `token` is the baseline token with exactly the text `text`.
pub open spec fn is_word(token: TokenView, text: Seq<char>) -> bool {
    baseline_text(token) == Some(text)
}

fn reads_word(token: &Token, text: &str) -> (b: bool)
    ensures
        b == is_word(token.deep_view(), text@),
{
    match &token.contents {
        TokenContents::Baseline(s) => same_text(s.as_str(), text),
        _ => false,
    }
}

/// The name of a positional parameter: any baseline token.
pub struct ParameterNameToken;

impl Terminal for ParameterNameToken {
    type Output = String;

    open spec fn name() -> Seq<char> {
        "parameter name"@
    }

    open spec fn fallback() -> Seq<char> {
        "Internal Error"@
    }

    open spec fn accepts(token: TokenView) -> Option<Seq<char>> {
        baseline_text(token)
    }

    fn read(token: &Token) -> (r: Option<String>) {
        match &token.contents {
            TokenContents::Baseline(s) => Some(s.clone()),
            _ => None,
        }
    }

    fn display_name() -> (s: String) {
        "parameter name".to_owned()
    }

    fn default_error_value() -> (v: String) {
        "Internal Error".to_owned()
    }
}

/// The `?` that marks a parameter as optional.
pub struct OptionalModifierToken;

impl Terminal for OptionalModifierToken {
    type Output = ();

    open spec fn name() -> Seq<char> {
        "optional modifier"@
    }

    open spec fn fallback() -> () {
        ()
    }

    open spec fn accepts(token: TokenView) -> Option<()> {
        if is_word(token, "?"@) {
            Some(())
        } else {
            None
        }
    }

    fn read(token: &Token) -> (r: Option<()>) {
        let r = if reads_word(token, "?") {
            Some(())
        } else {
            None
        };
        assert(r.deep_view() == r);
        r
    }

    fn display_name() -> (s: String) {
        "optional modifier".to_owned()
    }

    fn default_error_value() -> (v: ()) {
        ()
    }
}

/// The `:` that announces a type.
pub struct DoublePointToken;

impl Terminal for DoublePointToken {
    type Output = ();

    open spec fn name() -> Seq<char> {
        ":"@
    }

    open spec fn fallback() -> () {
        ()
    }

    open spec fn accepts(token: TokenView) -> Option<()> {
        if is_word(token, ":"@) {
            Some(())
        } else {
            None
        }
    }

    fn read(token: &Token) -> (r: Option<()>) {
        let r = if reads_word(token, ":") {
            Some(())
        } else {
            None
        };
        assert(r.deep_view() == r);
        r
    }

    fn display_name() -> (s: String) {
        ":".to_owned()
    }

    fn default_error_value() -> (v: ()) {
        ()
    }
}

/// The `,` that may follow an item.
pub struct CommaToken;

impl Terminal for CommaToken {
    type Output = ();

    open spec fn name() -> Seq<char> {
        ","@
    }

    open spec fn fallback() -> () {
        ()
    }

    open spec fn accepts(token: TokenView) -> Option<()> {
        if is_word(token, ","@) {
            Some(())
        } else {
            None
        }
    }

    fn read(token: &Token) -> (r: Option<()>) {
        let r = if reads_word(token, ",") {
            Some(())
        } else {
            None
        };
        assert(r.deep_view() == r);
        r
    }

    fn display_name() -> (s: String) {
        ",".to_owned()
    }

    fn default_error_value() -> (v: ()) {
        ()
    }
}

/// An end of line.
pub struct EolToken;

impl Terminal for EolToken {
    type Output = ();

    open spec fn name() -> Seq<char> {
        "end of line"@
    }

    open spec fn fallback() -> () {
        ()
    }

    open spec fn accepts(token: TokenView) -> Option<()> {
        if token.contents is EOL {
            Some(())
        } else {
            None
        }
    }

    fn read(token: &Token) -> (r: Option<()>) {
        let r = if token.contents.is_eol() {
            Some(())
        } else {
            None
        };
        assert(r.deep_view() == r);
        r
    }

    fn display_name() -> (s: String) {
        "end of line".to_owned()
    }

    fn default_error_value() -> (v: ()) {
        ()
    }
}

/// A comment; it stands for its text without the white space around it.
pub struct CommentToken;

impl Terminal for CommentToken {
    type Output = String;

    open spec fn name() -> Seq<char> {
        "comment"@
    }

    open spec fn fallback() -> Seq<char> {
        Seq::empty()
    }

    open spec fn accepts(token: TokenView) -> Option<Seq<char>> {
        match token.contents {
            TokenContentsView::Comment(s) => Some(trimmed(s)),
            _ => None,
        }
    }

    fn read(token: &Token) -> (r: Option<String>) {
        match &token.contents {
            TokenContents::Comment(s) => {
                let cs = chars_of(s.as_str());
                Some(trim(&cs))
            },
            _ => None,
        }
    }

    fn display_name() -> (s: String) {
        "comment".to_owned()
    }

    fn default_error_value() -> (v: String) {
        String::new()
    }
}

/// The shape that the type name `name` stands for.
pub open spec fn shape_named(name: Seq<char>) -> Option<SyntaxShape> {
    if name == "int"@ {
        Some(SyntaxShape::Int)
    } else if name == "string"@ {
        Some(SyntaxShape::String)
    } else if name == "path"@ {
        Some(SyntaxShape::FilePath)
    } else if name == "table"@ {
        Some(SyntaxShape::Table)
    } else if name == "unit"@ {
        Some(SyntaxShape::Unit)
    } else if name == "number"@ {
        Some(SyntaxShape::Number)
    } else if name == "pattern"@ {
        Some(SyntaxShape::Pattern)
    } else if name == "range"@ {
        Some(SyntaxShape::Range)
    } else if name == "block"@ {
        Some(SyntaxShape::Block)
    } else if name == "any"@ {
        Some(SyntaxShape::Any)
    } else {
        None
    }
}

/// The shape that the type name `name` stands for.
pub fn parse_type_name(name: &str) -> (r: Option<SyntaxShape>)
    ensures
        r == shape_named(name@),
{
    if same_text(name, "int") {
        Some(SyntaxShape::Int)
    } else if same_text(name, "string") {
        Some(SyntaxShape::String)
    } else if same_text(name, "path") {
        Some(SyntaxShape::FilePath)
    } else if same_text(name, "table") {
        Some(SyntaxShape::Table)
    } else if same_text(name, "unit") {
        Some(SyntaxShape::Unit)
    } else if same_text(name, "number") {
        Some(SyntaxShape::Number)
    } else if same_text(name, "pattern") {
        Some(SyntaxShape::Pattern)
    } else if same_text(name, "range") {
        Some(SyntaxShape::Range)
    } else if same_text(name, "block") {
        Some(SyntaxShape::Block)
    } else if same_text(name, "any") {
        Some(SyntaxShape::Any)
    } else {
        None
    }
}

/// The name of a type.
pub struct ShapeToken;

impl Terminal for ShapeToken {
    type Output = SyntaxShape;

    open spec fn name() -> Seq<char> {
        "type"@
    }

    open spec fn fallback() -> SyntaxShape {
        SyntaxShape::Any
    }

    open spec fn accepts(token: TokenView) -> Option<SyntaxShape> {
        match token.contents {
            TokenContentsView::Baseline(s) => shape_named(s),
            _ => None,
        }
    }

    fn read(token: &Token) -> (r: Option<SyntaxShape>) {
        let r = match &token.contents {
            TokenContents::Baseline(s) => parse_type_name(s.as_str()),
            _ => None,
        };
        assert(r.deep_view() == r);
        r
    }

    fn display_name() -> (s: String) {
        "type".to_owned()
    }

    fn default_error_value() -> (v: SyntaxShape) {
        SyntaxShape::Any
    }
}

/// What is left of the baseline token `token` after `prefix`, if the token
/// starts with it and something is left.
pub open spec fn after_prefix(token: TokenView, prefix: Seq<char>) -> Option<Seq<char>> {
    match token.contents {
        TokenContentsView::Baseline(s) => if has_prefix(s, prefix) && s.len() > prefix.len() {
            Some(s.skip(prefix.len() as int))
        } else {
            None
        },
        _ => None,
    }
}

fn read_after_prefix(token: &Token, prefix: &Vec<char>) -> (r: Option<String>)
    ensures
        r.deep_view() == after_prefix(token.deep_view(), prefix@),
{
    match &token.contents {
        TokenContents::Baseline(s) => {
            let cs = chars_of(s.as_str());
            if starts_with(&cs, prefix) && cs.len() > prefix.len() {
                let rest = string_between(&cs, prefix.len(), cs.len());
                assert(cs@.subrange(prefix.len() as int, cs.len() as int) =~= cs@.skip(
                    prefix.len() as int,
                ));
                Some(rest)
            } else {
                None
            }
        },
        _ => None,
    }
}

/// The long name of a flag, written `--name`; it stands for `name`.
pub struct FlagNameToken;

impl Terminal for FlagNameToken {
    type Output = String;

    open spec fn name() -> Seq<char> {
        "flag name"@
    }

    open spec fn fallback() -> Seq<char> {
        "Internal Error"@
    }

    open spec fn accepts(token: TokenView) -> Option<Seq<char>> {
        after_prefix(token, seq!['-', '-'])
    }

    fn read(token: &Token) -> (r: Option<String>) {
        let mut prefix: Vec<char> = Vec::new();
        prefix.push('-');
        prefix.push('-');
        assert(prefix@ =~= seq!['-', '-']);
        read_after_prefix(token, &prefix)
    }

    fn display_name() -> (s: String) {
        "flag name".to_owned()
    }

    fn default_error_value() -> (v: String) {
        "Internal Error".to_owned()
    }
}

/// The name of the parameter that takes the remaining arguments, written
/// `...name`; it stands for `name`.
pub struct RestNameToken;

impl Terminal for RestNameToken {
    type Output = String;

    open spec fn name() -> Seq<char> {
        "rest argument name"@
    }

    open spec fn fallback() -> Seq<char> {
        "Internal Error"@
    }

    open spec fn accepts(token: TokenView) -> Option<Seq<char>> {
        after_prefix(token, seq!['.', '.', '.'])
    }

    fn read(token: &Token) -> (r: Option<String>) {
        let mut prefix: Vec<char> = Vec::new();
        prefix.push('.');
        prefix.push('.');
        prefix.push('.');
        assert(prefix@ =~= seq!['.', '.', '.']);
        read_after_prefix(token, &prefix)
    }

    fn display_name() -> (s: String) {
        "rest argument name".to_owned()
    }

    fn default_error_value() -> (v: String) {
        "Internal Error".to_owned()
    }
}

/// The one-letter form of a flag, written `(-c)`; it stands for `c`.
pub struct FlagShortNameToken;

impl Terminal for FlagShortNameToken {
    type Output = char;

    open spec fn name() -> Seq<char> {
        "flag shortform"@
    }

    open spec fn fallback() -> char {
        ' '
    }

    open spec fn accepts(token: TokenView) -> Option<char> {
        match token.contents {
            TokenContentsView::Baseline(s) => if s.len() == 4 && s[0] == '(' && s[1] == '-' && s[2]
                != '-' && s[3] == ')' {
                Some(s[2])
            } else {
                None
            },
            _ => None,
        }
    }

    fn read(token: &Token) -> (r: Option<char>) {
        let r = match &token.contents {
            TokenContents::Baseline(s) => {
                let cs = chars_of(s.as_str());
                if cs.len() == 4 && cs[0] == '(' && cs[1] == '-' && cs[2] != '-' && cs[3] == ')' {
                    Some(cs[2])
                } else {
                    None
                }
            },
            _ => None,
        };
        assert(r.deep_view() == r);
        r
    }

    fn display_name() -> (s: String) {
        "flag shortform".to_owned()
    }

    fn default_error_value() -> (v: char) {
        ' '
    }
}

pub type ParameterName = One<ParameterNameToken>;

pub type OptionalModifier = One<OptionalModifierToken>;

pub type DoublePoint = One<DoublePointToken>;

pub type Comma = One<CommaToken>;

pub type EOL = One<EolToken>;

pub type Comment = One<CommentToken>;

pub type Shape = One<ShapeToken>;

pub type FlagName = One<FlagNameToken>;

pub type RestName = One<RestNameToken>;

pub type FlagShortName = One<FlagShortNameToken>;

} // verus!
