//! Composable parsers over a slice of tokens.
//!
//! A parser reads tokens from a cursor index and hands back a value, the new
//! cursor and, if something was amiss, a diagnostic. It never fails hard: where
//! it cannot parse, it still returns a value to go on with.
//!
//! What a parser returns is fixed by its [`Parse::outcome`], a function of the
//! tokens and the cursor alone; [`Parse::parse`] computes exactly that.

use crate::errors::{first_error, first_of, ParseError, ParseErrorView};
use crate::lex::{token_to_spanned_string, Token, TokenView};
use crate::span::{Span, Spanned};
use std::marker::PhantomData;
use vstd::prelude::*;
use vstd::string::StringExecFns;

verus! {

/// What a parser hands back: a value, the cursor after what was read, and the
/// first error met, if any.
#[derive(Debug, PartialEq, Eq)]
pub struct ParseResult<T> {
    pub value: T,
    pub i: usize,
    pub err: Option<ParseError>,
}

/// A [`ParseResult`] as specifications see it.
pub struct Parsed<V> {
    pub value: V,
    pub i: int,
    pub err: Option<ParseErrorView>,
}

impl<T: DeepView> DeepView for ParseResult<T> {
    type V = Parsed<T::V>;

    open spec fn deep_view(&self) -> Parsed<T::V> {
        Parsed { value: self.value.deep_view(), i: self.i as int, err: self.err.deep_view() }
    }
}

impl<T> ParseResult<T> {
    pub fn new(value: T, i: usize, err: Option<ParseError>) -> (r: ParseResult<T>)
        ensures
            r == (ParseResult { value, i, err }),
    {
        ParseResult { value, i, err }
    }
}

/// The diagnostic that says that `expected` was owed where `token` stands.
pub open spec fn mismatch_at(expected: Seq<char>, token: TokenView) -> ParseErrorView {
    ParseErrorView::Mismatch {
        expected,
        actual: Spanned { item: token.contents.text(), span: token.span },
    }
}

/// The span that reaches from the first to the last of the tokens
/// `tokens[from..to]`, or the unknown span if there is no such token.
pub open spec fn span_of_tokens(tokens: Seq<TokenView>, from: int, to: int) -> Span {
    if 0 <= from < to <= tokens.len() {
        Span { start: tokens[from].span.start, end: tokens[to - 1].span.end }
    } else {
        Span::spec_unknown()
    }
}

/// A parser over tokens.
pub trait Parse {
    /// What the parser produces.
    type Output: DeepView;

    /// The name by which diagnostics call what the parser reads.
    spec fn name() -> Seq<char>;

    /// The value that stands in where nothing could be parsed.
    spec fn fallback() -> <Self::Output as DeepView>::V;

    /// What parsing `tokens` from index `i` yields.
    spec fn outcome(tokens: Seq<TokenView>, i: int) -> Parsed<<Self::Output as DeepView>::V>;

    /// The cursor never moves backwards, and never beyond the end of the
    /// tokens unless it started there.
    proof fn lemma_cursor(tokens: Seq<TokenView>, i: int)
        requires
            0 <= i,
        ensures
            i <= Self::outcome(tokens, i).i,
            Self::outcome(tokens, i).i <= tokens.len() || Self::outcome(tokens, i).i == i,
    ;

    /// Parses `tokens` from index `i`.
    fn parse(tokens: &[Token], i: usize) -> (res: ParseResult<Self::Output>)
        ensures
            res.deep_view() == Self::outcome(tokens.deep_view(), i as int),
    ;

    /// The name by which diagnostics call what the parser reads.
    fn display_name() -> (s: String)
        ensures
            s@ == Self::name(),
    ;

    /// The value that stands in where nothing could be parsed.
    fn default_error_value() -> (v: Self::Output)
        ensures
            v.deep_view() == Self::fallback(),
    ;

    /// The diagnostic for a token that is not what this parser reads.
    fn mismatch_error(token: &Token) -> (e: Option<ParseError>)
        ensures
            e.deep_view() == Some(mismatch_at(Self::name(), token.deep_view())),
    {
        Some(ParseError::mismatch(Self::display_name(), token_to_spanned_string(token)))
    }

    /// The result for a token that is not what this parser reads: the
    /// stand-in value, the cursor unmoved, and the diagnostic.
    fn mismatch_default_return(token: &Token, i: usize) -> (res: ParseResult<Self::Output>)
        ensures
            res.deep_view() == (Parsed {
                value: Self::fallback(),
                i: i as int,
                err: Some(mismatch_at(Self::name(), token.deep_view())),
            }),
    {
        ParseResult::new(Self::default_error_value(), i, Self::mismatch_error(token))
    }
}

/// A parser that leaves the cursor where it was whenever it reports an error.
pub trait Rewinds: Parse {
    proof fn lemma_rewinds(tokens: Seq<TokenView>, i: int)
        requires
            0 <= i,
        ensures
            Self::outcome(tokens, i).err is Some ==> Self::outcome(tokens, i).i == i,
    ;
}

/// Requires `P`: where no token is left, that is an error.
pub struct Expect<P> {
    _marker: PhantomData<P>,
}

/// The span that an "unexpected end of input" refers to: that of the last
/// token, or the unknown span where there is no token at all.
pub open spec fn last_span(tokens: Seq<TokenView>) -> Span {
    if tokens.len() > 0 {
        tokens.last().span
    } else {
        Span::spec_unknown()
    }
}

impl<P: Parse> Parse for Expect<P> {
    type Output = P::Output;

    open spec fn name() -> Seq<char> {
        P::name()
    }

    open spec fn fallback() -> <P::Output as DeepView>::V {
        P::fallback()
    }

    open spec fn outcome(tokens: Seq<TokenView>, i: int) -> Parsed<<P::Output as DeepView>::V> {
        if i < tokens.len() {
            P::outcome(tokens, i)
        } else {
            Parsed {
                value: P::fallback(),
                i,
                err: Some(
                    ParseErrorView::UnexpectedEof { expected: P::name(), span: last_span(tokens) },
                ),
            }
        }
    }

    proof fn lemma_cursor(tokens: Seq<TokenView>, i: int) {
        P::lemma_cursor(tokens, i);
    }

    fn parse(tokens: &[Token], i: usize) -> (res: ParseResult<P::Output>) {
        if i < tokens.len() {
            P::parse(tokens, i)
        } else {
            let span = if tokens.len() > 0 {
                tokens[tokens.len() - 1].span
            } else {
                Span::unknown()
            };
            ParseResult::new(
                P::default_error_value(),
                i,
                Some(ParseError::unexpected_eof(P::display_name(), span)),
            )
        }
    }

    fn display_name() -> (s: String) {
        P::display_name()
    }

    fn default_error_value() -> (v: P::Output) {
        P::default_error_value()
    }
}

impl<P: Rewinds> Rewinds for Expect<P> {
    proof fn lemma_rewinds(tokens: Seq<TokenView>, i: int) {
        P::lemma_rewinds(tokens, i);
    }
}

/// Tries `P`: where `P` reports an error, nothing is read and nothing is
/// reported.
pub struct Maybe<P> {
    _marker: PhantomData<P>,
}

impl<P: Parse> Parse for Maybe<P> {
    type Output = Option<P::Output>;

    open spec fn name() -> Seq<char> {
        P::name() + "?"@
    }

    open spec fn fallback() -> Option<<P::Output as DeepView>::V> {
        Some(P::fallback())
    }

    open spec fn outcome(tokens: Seq<TokenView>, i: int) -> Parsed<
        Option<<P::Output as DeepView>::V>,
    > {
        let r = P::outcome(tokens, i);
        if r.err is Some {
            Parsed { value: None, i, err: None }
        } else {
            Parsed { value: Some(r.value), i: r.i, err: None }
        }
    }

    proof fn lemma_cursor(tokens: Seq<TokenView>, i: int) {
        P::lemma_cursor(tokens, i);
    }

    fn parse(tokens: &[Token], i: usize) -> (res: ParseResult<Option<P::Output>>) {
        let r = P::parse(tokens, i);
        if r.err.is_some() {
            ParseResult::new(None, i, None)
        } else {
            ParseResult::new(Some(r.value), r.i, None)
        }
    }

    fn display_name() -> (s: String) {
        let mut s = P::display_name();
        s.append("?");
        s
    }

    fn default_error_value() -> (v: Option<P::Output>) {
        Some(P::default_error_value())
    }
}

impl<P: Parse> Rewinds for Maybe<P> {
    proof fn lemma_rewinds(tokens: Seq<TokenView>, i: int) {
    }
}

/// Parses `A`, then `B` from where `A` stopped. Both are run whatever the
/// first reports; the first error met is the one reported.
pub struct AndThen<A, B> {
    _marker1: PhantomData<A>,
    _marker2: PhantomData<B>,
}

/// Sequential composition of two parsers.
pub type And2<A, B> = AndThen<A, B>;

impl<A: Parse, B: Parse> Parse for AndThen<A, B> {
    type Output = (A::Output, B::Output);

    open spec fn name() -> Seq<char> {
        A::name() + " >> "@ + B::name()
    }

    open spec fn fallback() -> (<A::Output as DeepView>::V, <B::Output as DeepView>::V) {
        (A::fallback(), B::fallback())
    }

    open spec fn outcome(tokens: Seq<TokenView>, i: int) -> Parsed<
        (<A::Output as DeepView>::V, <B::Output as DeepView>::V),
    > {
        let a = A::outcome(tokens, i);
        let b = B::outcome(tokens, a.i);
        Parsed { value: (a.value, b.value), i: b.i, err: first_of(a.err, b.err) }
    }

    proof fn lemma_cursor(tokens: Seq<TokenView>, i: int) {
        A::lemma_cursor(tokens, i);
        B::lemma_cursor(tokens, A::outcome(tokens, i).i);
    }

    fn parse(tokens: &[Token], i: usize) -> (res: ParseResult<(A::Output, B::Output)>) {
        let a = A::parse(tokens, i);
        let b = B::parse(tokens, a.i);
        ParseResult::new((a.value, b.value), b.i, first_error(a.err, b.err))
    }

    fn display_name() -> (s: String) {
        let mut s = A::display_name();
        s.append(" >> ");
        let b = B::display_name();
        s.append(b.as_str());
        s
    }

    fn default_error_value() -> (v: (A::Output, B::Output)) {
        let a = A::default_error_value();
        let b = B::default_error_value();
        let v = (a, b);
        assert(v.deep_view() == (a.deep_view(), b.deep_view()));
        v
    }
}

/// Parses `A`, then `B`, then `C`, each from where the one before stopped.
pub struct And3<A, B, C> {
    _marker1: PhantomData<A>,
    _marker2: PhantomData<B>,
    _marker3: PhantomData<C>,
}

impl<A: Parse, B: Parse, C: Parse> Parse for And3<A, B, C> {
    type Output = (A::Output, B::Output, C::Output);

    open spec fn name() -> Seq<char> {
        A::name() + " >> "@ + B::name() + " >> "@ + C::name()
    }

    open spec fn fallback() -> (
        <A::Output as DeepView>::V,
        <B::Output as DeepView>::V,
        <C::Output as DeepView>::V,
    ) {
        (A::fallback(), B::fallback(), C::fallback())
    }

    open spec fn outcome(tokens: Seq<TokenView>, i: int) -> Parsed<
        (<A::Output as DeepView>::V, <B::Output as DeepView>::V, <C::Output as DeepView>::V),
    > {
        let a = A::outcome(tokens, i);
        let b = B::outcome(tokens, a.i);
        let c = C::outcome(tokens, b.i);
        Parsed {
            value: (a.value, b.value, c.value),
            i: c.i,
            err: first_of(first_of(a.err, b.err), c.err),
        }
    }

    proof fn lemma_cursor(tokens: Seq<TokenView>, i: int) {
        A::lemma_cursor(tokens, i);
        B::lemma_cursor(tokens, A::outcome(tokens, i).i);
        C::lemma_cursor(tokens, B::outcome(tokens, A::outcome(tokens, i).i).i);
    }

    fn parse(tokens: &[Token], i: usize) -> (res: ParseResult<(A::Output, B::Output, C::Output)>) {
        let a = A::parse(tokens, i);
        let b = B::parse(tokens, a.i);
        let c = C::parse(tokens, b.i);
        ParseResult::new(
            (a.value, b.value, c.value),
            c.i,
            first_error(first_error(a.err, b.err), c.err),
        )
    }

    fn display_name() -> (s: String) {
        let mut s = A::display_name();
        s.append(" >> ");
        let b = B::display_name();
        s.append(b.as_str());
        s.append(" >> ");
        let c = C::display_name();
        s.append(c.as_str());
        s
    }

    fn default_error_value() -> (v: (A::Output, B::Output, C::Output)) {
        let a = A::default_error_value();
        let b = B::default_error_value();
        let c = C::default_error_value();
        let v = (a, b, c);
        assert(v.deep_view() == (a.deep_view(), b.deep_view(), c.deep_view()));
        v
    }
}

/// Tries `Try`; if and only if it is there, `Then` must follow. Where `Try` is
/// absent, nothing is read and nothing is reported.
pub struct IfSuccessThen<Try, Then> {
    _marker1: PhantomData<Try>,
    _marker2: PhantomData<Then>,
}

impl<Try: Parse, Then: Parse> Parse for IfSuccessThen<Try, Then> {
    type Output = Option<(Try::Output, Then::Output)>;

    open spec fn name() -> Seq<char> {
        "("@ + Try::name() + " >> "@ + Then::name() + ")?"@
    }

    open spec fn fallback() -> Option<
        (<Try::Output as DeepView>::V, <Then::Output as DeepView>::V),
    > {
        Some((Try::fallback(), Then::fallback()))
    }

    open spec fn outcome(tokens: Seq<TokenView>, i: int) -> Parsed<
        Option<(<Try::Output as DeepView>::V, <Then::Output as DeepView>::V)>,
    > {
        let t = Maybe::<Try>::outcome(tokens, i);
        match t.value {
            Some(v) => {
                let n = Expect::<Then>::outcome(tokens, t.i);
                Parsed { value: Some((v, n.value)), i: n.i, err: n.err }
            },
            None => Parsed { value: None, i, err: None },
        }
    }

    proof fn lemma_cursor(tokens: Seq<TokenView>, i: int) {
        Maybe::<Try>::lemma_cursor(tokens, i);
        Expect::<Then>::lemma_cursor(tokens, Maybe::<Try>::outcome(tokens, i).i);
    }

    fn parse(tokens: &[Token], i: usize) -> (res: ParseResult<
        Option<(Try::Output, Then::Output)>,
    >) {
        let t = Maybe::<Try>::parse(tokens, i);
        match t.value {
            Some(v) => {
                let n = Expect::<Then>::parse(tokens, t.i);
                ParseResult::new(Some((v, n.value)), n.i, first_error(t.err, n.err))
            },
            None => ParseResult::new(None, i, None),
        }
    }

    fn display_name() -> (s: String) {
        let mut s = "(".to_owned();
        let a = Try::display_name();
        s.append(a.as_str());
        s.append(" >> ");
        let b = Then::display_name();
        s.append(b.as_str());
        s.append(")?");
        s
    }

    fn default_error_value() -> (v: Option<(Try::Output, Then::Output)>) {
        let a = Try::default_error_value();
        let b = Then::default_error_value();
        let v = (a, b);
        assert(v.deep_view() == (a.deep_view(), b.deep_view()));
        Some(v)
    }
}

/// Runs `P` and keeps its cursor and error, but not its value.
pub struct Discard<P> {
    _marker: PhantomData<P>,
}

impl<P: Parse> Parse for Discard<P> {
    type Output = ();

    open spec fn name() -> Seq<char> {
        P::name()
    }

    open spec fn fallback() -> () {
        ()
    }

    open spec fn outcome(tokens: Seq<TokenView>, i: int) -> Parsed<()> {
        let r = P::outcome(tokens, i);
        Parsed { value: (), i: r.i, err: r.err }
    }

    proof fn lemma_cursor(tokens: Seq<TokenView>, i: int) {
        P::lemma_cursor(tokens, i);
    }

    fn parse(tokens: &[Token], i: usize) -> (res: ParseResult<()>) {
        let r = P::parse(tokens, i);
        ParseResult::new((), r.i, r.err)
    }

    fn display_name() -> (s: String) {
        P::display_name()
    }

    fn default_error_value() -> (v: ()) {
        ()
    }
}

impl<P: Rewinds> Rewinds for Discard<P> {
    proof fn lemma_rewinds(tokens: Seq<TokenView>, i: int) {
        P::lemma_rewinds(tokens, i);
    }
}

/// Runs `P` and adds the span of the tokens that it read.
pub struct WithSpan<P> {
    _marker: PhantomData<P>,
}

impl<P: Parse> Parse for WithSpan<P> {
    type Output = Spanned<P::Output>;

    open spec fn name() -> Seq<char> {
        P::name()
    }

    open spec fn fallback() -> Spanned<<P::Output as DeepView>::V> {
        Spanned { item: P::fallback(), span: Span::spec_unknown() }
    }

    open spec fn outcome(tokens: Seq<TokenView>, i: int) -> Parsed<
        Spanned<<P::Output as DeepView>::V>,
    > {
        let r = P::outcome(tokens, i);
        Parsed {
            value: Spanned { item: r.value, span: span_of_tokens(tokens, i, r.i) },
            i: r.i,
            err: r.err,
        }
    }

    proof fn lemma_cursor(tokens: Seq<TokenView>, i: int) {
        P::lemma_cursor(tokens, i);
    }

    fn parse(tokens: &[Token], i: usize) -> (res: ParseResult<Spanned<P::Output>>) {
        let r = P::parse(tokens, i);
        let span = if i < r.i && r.i <= tokens.len() {
            Span::new(tokens[i].span.start(), tokens[r.i - 1].span.end())
        } else {
            Span::unknown()
        };
        ParseResult::new(Spanned { item: r.value, span }, r.i, r.err)
    }

    fn display_name() -> (s: String) {
        P::display_name()
    }

    fn default_error_value() -> (v: Spanned<P::Output>) {
        Spanned { item: P::default_error_value(), span: Span::unknown() }
    }
}

impl<P: Rewinds> Rewinds for WithSpan<P> {
    proof fn lemma_rewinds(tokens: Seq<TokenView>, i: int) {
        P::lemma_rewinds(tokens, i);
    }
}

/// Every parser returns a cursor that is not before the one it was given, and
/// within the tokens if the given one was.
pub proof fn law_cursor_never_moves_back<P: Parse>(tokens: Seq<TokenView>, i: int)
    requires
        0 <= i <= tokens.len(),
    ensures
        i <= P::outcome(tokens, i).i <= tokens.len(),
{
    P::lemma_cursor(tokens, i);
}

/// A required parser that reports an error has read nothing, provided the
/// parser that it wraps rewinds on its own errors.
pub proof fn law_expect_rewinds_on_error<P: Rewinds>(tokens: Seq<TokenView>, i: int)
    requires
        0 <= i <= tokens.len(),
        Expect::<P>::outcome(tokens, i).err is Some,
    ensures
        Expect::<P>::outcome(tokens, i).i == i,
{
    Expect::<P>::lemma_rewinds(tokens, i);
}

/// An optional parser never reports an error, and it returns nothing with the
/// cursor unmoved exactly when the parser that it wraps reports one.
pub proof fn law_maybe_swallows_errors<P: Parse>(tokens: Seq<TokenView>, i: int)
    ensures
        Maybe::<P>::outcome(tokens, i).err is None,
        (Maybe::<P>::outcome(tokens, i) == (Parsed {
            value: None::<<P::Output as DeepView>::V>,
            i,
            err: None::<ParseErrorView>,
        })) <==> P::outcome(tokens, i).err is Some,
{
}

/// Where the first parser of an optional pair is absent, the pair reads
/// nothing and reports nothing; where it is present, a missing second parser
/// is an error.
pub proof fn law_if_success_then<Try: Parse, Then: Parse>(tokens: Seq<TokenView>, i: int)
    requires
        0 <= i,
    ensures
        Try::outcome(tokens, i).err is Some ==> IfSuccessThen::<Try, Then>::outcome(tokens, i) == (
        Parsed {
            value: None::<(<Try::Output as DeepView>::V, <Then::Output as DeepView>::V)>,
            i,
            err: None::<ParseErrorView>,
        }),
        Try::outcome(tokens, i).err is None && Try::outcome(tokens, i).i >= tokens.len()
            ==> IfSuccessThen::<Try, Then>::outcome(tokens, i).err is Some,
{
}

} // verus!
