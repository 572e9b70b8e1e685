//! The tokenizer: turns source text into a flat sequence of spanned tokens.
//!
//! A token is a run of text that is not broken by white space (a *baseline*
//! token), a comment, a pipe, a semicolon or an end of line. Inside quotes and
//! inside paired delimiters a baseline token runs on over white space.

use crate::errors::{ParseError, ParseErrorView};
use crate::span::{Span, Spanned};
use crate::text::{
    byte_len, bytes_between, chars_of, is_space, is_whitespace, lemma_byte_len_bounds,
    lemma_byte_len_concat, lemma_byte_len_take, string_between,
};
use vstd::prelude::*;

verus! {

/// What a token holds.
#[derive(Debug, PartialEq, Eq)]
pub enum TokenContents {
    /// A run of text that the lexer did not classify further.
    Baseline(String),
    /// The text of a comment, without the leading `#`.
    Comment(String),
    /// `|`
    Pipe,
    /// `;`
    Semicolon,
    /// An end of line.
    EOL,
}

/// One token and the place in the source where it stands.
#[derive(Debug, PartialEq, Eq)]
pub struct Token {
    pub contents: TokenContents,
    pub span: Span,
}

/// [`TokenContents`] with text as character sequences.
pub enum TokenContentsView {
    Baseline(Seq<char>),
    Comment(Seq<char>),
    Pipe,
    Semicolon,
    EOL,
}

/// [`Token`] with text as character sequences.
pub struct TokenView {
    pub contents: TokenContentsView,
    pub span: Span,
}

impl DeepView for TokenContents {
    type V = TokenContentsView;

    open spec fn deep_view(&self) -> TokenContentsView {
        match *self {
            TokenContents::Baseline(s) => TokenContentsView::Baseline(s@),
            TokenContents::Comment(s) => TokenContentsView::Comment(s@),
            TokenContents::Pipe => TokenContentsView::Pipe,
            TokenContents::Semicolon => TokenContentsView::Semicolon,
            TokenContents::EOL => TokenContentsView::EOL,
        }
    }
}

impl DeepView for Token {
    type V = TokenView;

    open spec fn deep_view(&self) -> TokenView {
        TokenView { contents: self.contents.deep_view(), span: self.span }
    }
}

impl Clone for TokenContents {
    fn clone(&self) -> (res: Self)
        ensures
            res == *self,
    {
        match self {
            TokenContents::Baseline(s) => TokenContents::Baseline(s.clone()),
            TokenContents::Comment(s) => TokenContents::Comment(s.clone()),
            TokenContents::Pipe => TokenContents::Pipe,
            TokenContents::Semicolon => TokenContents::Semicolon,
            TokenContents::EOL => TokenContents::EOL,
        }
    }
}

impl Clone for Token {
    fn clone(&self) -> (res: Self)
        ensures
            res == *self,
    {
        Token { contents: self.contents.clone(), span: self.span }
    }
}

impl TokenContents {
    /// Whether this is an end-of-line token.
    pub fn is_eol(&self) -> (b: bool)
        ensures
            b == (self is EOL),
    {
        match self {
            TokenContents::EOL => true,
            _ => false,
        }
    }
}

impl TokenContentsView {
    /// The text that stands for the token in a diagnostic.
    pub open spec fn text(self) -> Seq<char> {
        match self {
            TokenContentsView::Baseline(s) => s,
            TokenContentsView::Comment(s) => s,
            TokenContentsView::Pipe => seq!['|'],
            TokenContentsView::Semicolon => seq![';'],
            TokenContentsView::EOL => seq!['\n'],
        }
    }
}

impl Token {
    pub fn new(contents: TokenContents, span: Span) -> (t: Token)
        ensures
            t == (Token { contents, span }),
    {
        Token { contents, span }
    }
}

/// The text of `token` with its span, as diagnostics quote it.
pub fn token_to_spanned_string(token: &Token) -> (s: Spanned<String>)
    ensures
        s.deep_view() == (Spanned { item: token.deep_view().contents.text(), span: token.span }),
{
    let item = match &token.contents {
        TokenContents::Baseline(s) => s.clone(),
        TokenContents::Comment(s) => s.clone(),
        TokenContents::Pipe => {
            let mut s = String::new();
            s.push('|');
            assert(s@ =~= seq!['|']);
            s
        },
        TokenContents::Semicolon => {
            let mut s = String::new();
            s.push(';');
            assert(s@ =~= seq![';']);
            s
        },
        TokenContents::EOL => {
            let mut s = String::new();
            s.push('\n');
            assert(s@ =~= seq!['\n']);
            s
        },
    };
    Spanned { item, span: token.span }
}

/// Whether the text of a baseline token, laid out from the start of its span,
/// ends at a byte offset that a `usize` can hold.
pub open spec fn in_bounds(t: TokenView) -> bool {
    match t.contents {
        TokenContentsView::Baseline(s) => t.span.start + byte_len(s) <= usize::MAX,
        _ => true,
    }
}

pub open spec fn all_in_bounds(tokens: Seq<TokenView>) -> bool {
    forall|i: int| 0 <= i < tokens.len() ==> in_bounds(#[trigger] tokens[i])
}

/// Whether `c` opens or closes a string literal.
pub open spec fn is_quote(c: char) -> bool {
    c == '\'' || c == '"' || c == '`'
}

/// Whether `c` ends a baseline token that is not inside quotes or delimiters.
pub open spec fn is_terminator(c: char) -> bool {
    is_space(c) || c == '|' || c == ';' || c == '#'
}

/// The delimiter that closes what `c` opens.
pub open spec fn closer_of(c: char) -> char {
    if c == '[' {
        ']'
    } else if c == '{' {
        '}'
    } else {
        ')'
    }
}

/// Where the scan of a baseline token stands: inside which quote, and which
/// closing delimiters are still owed (innermost last).
pub struct ScanState {
    pub quote: Option<char>,
    pub owed: Seq<char>,
}

/// The state after reading `c` in state `st`.
pub open spec fn scan_step(st: ScanState, c: char) -> ScanState {
    if st.quote is Some {
        if st.quote == Some(c) {
            ScanState { quote: None, owed: st.owed }
        } else {
            st
        }
    } else if is_quote(c) {
        ScanState { quote: Some(c), owed: st.owed }
    } else if c == '[' || c == '{' || c == '(' {
        ScanState { quote: None, owed: st.owed.push(closer_of(c)) }
    } else if (c == ']' || c == '}' || c == ')') && st.owed.len() > 0 && st.owed.last() == c {
        ScanState { quote: None, owed: st.owed.drop_last() }
    } else {
        st
    }
}

/// Whether a baseline token that has reached `c` in state `st` ends before it.
pub open spec fn scan_stops(st: ScanState, c: char) -> bool {
    st.quote is None && st.owed.len() == 0 && is_terminator(c)
}

/// Index at which the baseline token scanned from `p` in state `st` ends, and
/// the state at that point.
pub open spec fn baseline_end(s: Seq<char>, p: int, st: ScanState) -> (int, ScanState)
    decreases s.len() - p,
{
    if p < 0 || p >= s.len() {
        (p, st)
    } else if scan_stops(st, s[p]) {
        (p, st)
    } else {
        baseline_end(s, p + 1, scan_step(st, s[p]))
    }
}

/// Index of the first line feed at or after `p`, or the length of `s`.
pub open spec fn comment_end(s: Seq<char>, p: int) -> int
    decreases s.len() - p,
{
    if p < 0 || p >= s.len() || s[p] == '\n' {
        p
    } else {
        comment_end(s, p + 1)
    }
}

/// What a baseline token that was cut off by the end of the input still owed.
pub open spec fn unclosed(st: ScanState) -> Option<char> {
    if st.owed.len() > 0 {
        Some(st.owed.last())
    } else {
        st.quote
    }
}

/// The tokens of a text and the first error met while lexing it.
pub struct Lexed {
    pub tokens: Seq<TokenView>,
    pub err: Option<ParseErrorView>,
}

/// `t` followed by the tokens of `rest`; the error `e` of `t` comes first.
pub open spec fn lexed_cons(t: TokenView, e: Option<ParseErrorView>, rest: Lexed) -> Lexed {
    Lexed {
        tokens: seq![t] + rest.tokens,
        err: if e is Some {
            e
        } else {
            rest.err
        },
    }
}

/// The byte offset of character index `p` of `s`, where `s` starts at `offset`.
pub open spec fn byte_pos(s: Seq<char>, p: int, offset: int) -> int {
    offset + byte_len(s.take(p))
}

pub open spec fn span_between(s: Seq<char>, p: int, e: int, offset: int) -> Span {
    Span { start: byte_pos(s, p, offset) as usize, end: byte_pos(s, e, offset) as usize }
}

/// What the lexer reads at one position: a token, if one starts there, with the
/// error that it gives rise to, and the position at which to go on.
pub struct LexStep {
    pub token: Option<TokenView>,
    pub err: Option<ParseErrorView>,
    pub next: int,
}

/// What the lexer reads at character index `p` of `s`.
pub open spec fn lex_step(s: Seq<char>, p: int, offset: int) -> LexStep
    recommends
        0 <= p < s.len(),
{
    let c = s[p];
    if c == '|' {
        if p + 1 < s.len() && s[p + 1] == '|' {
            LexStep {
                token: Some(
                    TokenView {
                        contents: TokenContentsView::Baseline(seq!['|', '|']),
                        span: span_between(s, p, p + 2, offset),
                    },
                ),
                err: None,
                next: p + 2,
            }
        } else {
            LexStep {
                token: Some(
                    TokenView {
                        contents: TokenContentsView::Pipe,
                        span: span_between(s, p, p + 1, offset),
                    },
                ),
                err: None,
                next: p + 1,
            }
        }
    } else if c == ';' {
        LexStep {
            token: Some(
                TokenView {
                    contents: TokenContentsView::Semicolon,
                    span: span_between(s, p, p + 1, offset),
                },
            ),
            err: None,
            next: p + 1,
        }
    } else if c == '\n' || c == '\r' {
        LexStep {
            token: Some(
                TokenView {
                    contents: TokenContentsView::EOL,
                    span: span_between(s, p, p + 1, offset),
                },
            ),
            err: None,
            next: p + 1,
        }
    } else if c == '#' {
        let e = comment_end(s, p + 1);
        LexStep {
            token: Some(
                TokenView {
                    contents: TokenContentsView::Comment(s.subrange(p + 1, e)),
                    span: span_between(s, p + 1, e, offset),
                },
            ),
            err: None,
            next: e,
        }
    } else if is_space(c) {
        LexStep { token: None, err: None, next: p + 1 }
    } else {
        let (e, st) = baseline_end(
            s,
            p + 1,
            scan_step(ScanState { quote: None, owed: Seq::empty() }, c),
        );
        let span = span_between(s, p, e, offset);
        LexStep {
            token: Some(TokenView { contents: TokenContentsView::Baseline(s.subrange(p, e)), span }),
            err: match unclosed(st) {
                Some(d) => Some(ParseErrorView::UnexpectedEof { expected: seq![d], span }),
                None => None,
            },
            next: e,
        }
    }
}

/// The tokens of `s` from character index `p` on, where `s` starts at byte
/// `offset` of the source.
pub open spec fn lexed_from(s: Seq<char>, p: int, offset: int) -> Lexed
    decreases s.len() - p,
{
    if p < 0 || p >= s.len() {
        Lexed { tokens: Seq::empty(), err: None }
    } else {
        let step = lex_step(s, p, offset);
        if p < step.next <= s.len() {
            let rest = lexed_from(s, step.next, offset);
            match step.token {
                Some(t) => lexed_cons(t, step.err, rest),
                None => rest,
            }
        } else {
            Lexed { tokens: Seq::empty(), err: None }
        }
    }
}

/// The tokens of the text `s` that starts at byte `offset` of the source, and
/// the first error met: a baseline token that the end of the input cut off
/// inside a quote or a paired delimiter.
pub open spec fn lexed(s: Seq<char>, offset: int) -> Lexed {
    lexed_from(s, 0, offset)
}

pub proof fn lemma_baseline_end(s: Seq<char>, p: int, st: ScanState)
    requires
        0 <= p <= s.len(),
    ensures
        p <= baseline_end(s, p, st).0 <= s.len(),
    decreases s.len() - p,
{
    if p < s.len() && !scan_stops(st, s[p]) {
        lemma_baseline_end(s, p + 1, scan_step(st, s[p]));
    }
}

pub proof fn lemma_comment_end(s: Seq<char>, p: int)
    requires
        0 <= p <= s.len(),
    ensures
        p <= comment_end(s, p) <= s.len(),
    decreases s.len() - p,
{
    if p < s.len() && s[p] != '\n' {
        lemma_comment_end(s, p + 1);
    }
}

/// Byte offsets grow with character indices and stay within the text.
pub proof fn lemma_byte_pos(s: Seq<char>, p: int, e: int, offset: int)
    requires
        0 <= p <= e <= s.len(),
    ensures
        byte_pos(s, e, offset) == byte_pos(s, p, offset) + byte_len(s.subrange(p, e)),
        offset <= byte_pos(s, p, offset) <= byte_pos(s, e, offset) <= offset + byte_len(s),
        e - p <= byte_pos(s, e, offset) - byte_pos(s, p, offset),
{
    lemma_byte_len_concat(s.take(p), s.subrange(p, e));
    assert(s.take(p) + s.subrange(p, e) =~= s.take(e));
    lemma_byte_len_take(s, e);
    lemma_byte_len_bounds(s.take(p));
    lemma_byte_len_bounds(s.subrange(p, e));
    lemma_byte_len_bounds(s.skip(e));
}

/// The closing delimiter that `c` opens, if it opens one.
fn opened_by(c: char) -> (r: Option<char>)
    ensures
        r is Some <==> (c == '[' || c == '{' || c == '('),
        r is Some ==> r == Some(closer_of(c)),
{
    if c == '[' {
        Some(']')
    } else if c == '{' {
        Some('}')
    } else if c == '(' {
        Some(')')
    } else {
        None
    }
}

/// Scans a baseline token whose first character stands at `p`.
fn scan_baseline(s: &Vec<char>, p: usize) -> (r: (usize, Option<char>))
    requires
        p < s.len(),
    ensures
        ({
            let (e, st) = baseline_end(
                s@,
                p + 1,
                scan_step(ScanState { quote: None, owed: Seq::empty() }, s@[p as int]),
            );
            &&& r.0 == e
            &&& p < r.0 <= s.len()
            &&& r.1 == unclosed(st)
        }),
{
    let mut quote: Option<char> = None;
    let mut owed: Vec<char> = Vec::new();
    let mut q: usize = p;
    let ghost start = ScanState { quote: None, owed: Seq::<char>::empty() };
    let ghost goal = baseline_end(s@, p + 1, scan_step(start, s@[p as int]));
    proof {
        lemma_baseline_end(s@, p + 1, scan_step(start, s@[p as int]));
    }
    let mut first = true;
    loop
        invariant_except_break
            p <= q <= s.len(),
            first <==> q == p,
            first ==> quote is None && owed@.len() == 0,
            !first ==> baseline_end(s@, q as int, ScanState { quote, owed: owed@ }) == goal,
            first ==> baseline_end(
                s@,
                p + 1,
                scan_step(ScanState { quote, owed: owed@ }, s@[p as int]),
            ) == goal,
            p < s.len(),
            p < goal.0 <= s.len(),
        ensures
            p < q <= s.len(),
            q == goal.0,
            unclosed(ScanState { quote, owed: owed@ }) == unclosed(goal.1),
        decreases s.len() - q,
    {
        if q >= s.len() {
            break;
        }
        let c = s[q];
        let ghost st = ScanState { quote, owed: owed@ };
        if !first && quote.is_none() && owed.len() == 0 && (is_whitespace(c) || c == '|' || c
            == ';' || c == '#') {
            break;
        }
        match quote {
            Some(open) => {
                if c == open {
                    quote = None;
                }
            },
            None => {
                if c == '\'' || c == '"' || c == '`' {
                    quote = Some(c);
                } else {
                    match opened_by(c) {
                        Some(closer) => {
                            owed.push(closer);
                        },
                        None => {
                            if (c == ']' || c == '}' || c == ')') && owed.len() > 0 && owed[owed.len()
                                - 1] == c {
                                owed.pop();
                            }
                        },
                    }
                }
            },
        }
        assert(ScanState { quote, owed: owed@ } == scan_step(st, c)) by {
            assert(scan_step(st, c).owed =~= owed@);
        }
        first = false;
        q += 1;
    }
    let r = if owed.len() > 0 {
        Some(owed[owed.len() - 1])
    } else {
        quote
    };
    (q, r)
}

/// Scans the text of a comment that starts at `p`.
fn scan_comment(s: &Vec<char>, p: usize) -> (e: usize)
    requires
        p <= s.len(),
    ensures
        e == comment_end(s@, p as int),
        p <= e <= s.len(),
{
    let mut q: usize = p;
    proof {
        lemma_comment_end(s@, p as int);
    }
    while q < s.len() && s[q] != '\n'
        invariant
            p <= q <= s.len(),
            comment_end(s@, q as int) == comment_end(s@, p as int),
        decreases s.len() - q,
    {
        q += 1;
    }
    q
}

/// The byte offset of character index `e`, given that of `p`.
fn advance(s: &Vec<char>, p: usize, e: usize, b: usize, Ghost(offset): Ghost<int>) -> (r: usize)
    requires
        p <= e <= s.len(),
        b == byte_pos(s@, p as int, offset),
        0 <= offset,
        offset + byte_len(s@) <= usize::MAX,
    ensures
        r == byte_pos(s@, e as int, offset),
{
    proof {
        lemma_byte_pos(s@, p as int, e as int, offset);
    }
    match bytes_between(s, p, e) {
        Some(n) => b + n,
        None => b,
    }
}

/// Every step of the lexer moves on, and stays within the text.
pub proof fn lemma_lex_step(s: Seq<char>, p: int, offset: int)
    requires
        0 <= p < s.len(),
    ensures
        p < lex_step(s, p, offset).next <= s.len(),
{
    lemma_comment_end(s, p + 1);
    lemma_baseline_end(
        s,
        p + 1,
        scan_step(ScanState { quote: None, owed: Seq::empty() }, s[p]),
    );
}

/// Every token that the lexer gives is in bounds.
pub proof fn lemma_lexed_in_bounds(s: Seq<char>, p: int, offset: int)
    requires
        0 <= p <= s.len(),
        0 <= offset,
        offset + byte_len(s) <= usize::MAX,
    ensures
        all_in_bounds(lexed_from(s, p, offset).tokens),
    decreases s.len() - p,
{
    if p < s.len() {
        lemma_lex_step(s, p, offset);
        let step = lex_step(s, p, offset);
        lemma_lexed_in_bounds(s, step.next, offset);
        let rest = lexed_from(s, step.next, offset);
        match step.token {
            Some(t) => {
                lemma_byte_pos(s, p, step.next, offset);
                if s[p] == '|' && p + 1 < s.len() && s[p + 1] == '|' {
                    assert(s.subrange(p, p + 2) =~= seq!['|', '|']);
                }
                assert(in_bounds(t));
                assert forall|i: int| 0 <= i < (seq![t] + rest.tokens).len() implies in_bounds(
                    #[trigger] (seq![t] + rest.tokens)[i],
                ) by {
                    if i > 0 {
                        assert((seq![t] + rest.tokens)[i] == rest.tokens[i - 1]);
                    }
                }
            },
            None => {},
        }
    }
}

/// What the lexer reads at one position.
struct Step {
    token: Option<Token>,
    err: Option<ParseError>,
    next: usize,
    byte: usize,
}

/// Reads what stands at character index `p`, whose byte offset is `b`.
fn lex_one(s: &Vec<char>, p: usize, b: usize, Ghost(offset): Ghost<int>) -> (r: Step)
    requires
        p < s.len(),
        b == byte_pos(s@, p as int, offset),
        0 <= offset,
        offset + byte_len(s@) <= usize::MAX,
    ensures
        r.token.deep_view() == lex_step(s@, p as int, offset).token,
        r.err.deep_view() == lex_step(s@, p as int, offset).err,
        r.next == lex_step(s@, p as int, offset).next,
        p < r.next <= s.len(),
        r.byte == byte_pos(s@, r.next as int, offset),
{
    let c = s[p];
    if c == '|' {
        if p + 1 < s.len() && s[p + 1] == '|' {
            let e = advance(s, p, p + 2, b, Ghost(offset));
            let text = string_between(s, p, p + 2);
            assert(text@ =~= seq!['|', '|']);
            Step {
                token: Some(Token::new(TokenContents::Baseline(text), Span::new(b, e))),
                err: None,
                next: p + 2,
                byte: e,
            }
        } else {
            let e = advance(s, p, p + 1, b, Ghost(offset));
            Step {
                token: Some(Token::new(TokenContents::Pipe, Span::new(b, e))),
                err: None,
                next: p + 1,
                byte: e,
            }
        }
    } else if c == ';' {
        let e = advance(s, p, p + 1, b, Ghost(offset));
        Step {
            token: Some(Token::new(TokenContents::Semicolon, Span::new(b, e))),
            err: None,
            next: p + 1,
            byte: e,
        }
    } else if c == '\n' || c == '\r' {
        let e = advance(s, p, p + 1, b, Ghost(offset));
        Step {
            token: Some(Token::new(TokenContents::EOL, Span::new(b, e))),
            err: None,
            next: p + 1,
            byte: e,
        }
    } else if c == '#' {
        let next = scan_comment(s, p + 1);
        let from = advance(s, p, p + 1, b, Ghost(offset));
        let e = advance(s, p + 1, next, from, Ghost(offset));
        let text = string_between(s, p + 1, next);
        Step {
            token: Some(Token::new(TokenContents::Comment(text), Span::new(from, e))),
            err: None,
            next,
            byte: e,
        }
    } else if is_whitespace(c) {
        let e = advance(s, p, p + 1, b, Ghost(offset));
        Step { token: None, err: None, next: p + 1, byte: e }
    } else {
        let (next, open) = scan_baseline(s, p);
        let e = advance(s, p, next, b, Ghost(offset));
        let text = string_between(s, p, next);
        let span = Span::new(b, e);
        let err = match open {
            Some(d) => {
                let mut expected = String::new();
                expected.push(d);
                assert(expected@ =~= seq![d]);
                Some(ParseError::unexpected_eof(expected, span))
            },
            None => None,
        };
        Step { token: Some(Token::new(TokenContents::Baseline(text), span)), err, next, byte: e }
    }
}

/// Splits `input` into tokens. `span_offset` is the byte offset of `input`
/// within the source, so that spans refer to the source.
///
/// The second component is the first error met: a baseline token that the end
/// of the input cut off inside a quote or a paired delimiter.
pub fn lex(input: &str, span_offset: usize) -> (res: (Vec<Token>, Option<ParseError>))
    requires
        span_offset + byte_len(input@) <= usize::MAX,
    ensures
        res.0.deep_view() == lexed(input@, span_offset as int).tokens,
        res.1.deep_view() == lexed(input@, span_offset as int).err,
        all_in_bounds(res.0.deep_view()),
{
    let s = chars_of(input);
    proof {
        lemma_lexed_in_bounds(input@, 0, span_offset as int);
    }
    let mut out: Vec<Token> = Vec::new();
    let mut err: Option<ParseError> = None;
    let mut p: usize = 0;
    let mut b: usize = span_offset;
    let ghost offset = span_offset as int;
    let ghost whole = lexed_from(s@, 0, offset);
    assert(s@.take(0) =~= Seq::<char>::empty());
    assert(out.deep_view() =~= Seq::<TokenView>::empty());
    while p < s.len()
        invariant
            0 <= p <= s.len(),
            0 <= offset,
            offset + byte_len(s@) <= usize::MAX,
            b == byte_pos(s@, p as int, offset),
            out.deep_view() + lexed_from(s@, p as int, offset).tokens == whole.tokens,
            whole.err == (if err is Some {
                err.deep_view()
            } else {
                lexed_from(s@, p as int, offset).err
            }),
        decreases s.len() - p,
    {
        let ghost before = out.deep_view();
        let step = lex_one(&s, p, b, Ghost(offset));
        let ghost tail = lexed_from(s@, step.next as int, offset);
        match step.token {
            Some(t) => {
                let ghost tv = t.deep_view();
                out.push(t);
                assert(out.deep_view() =~= before.push(tv));
                assert(before.push(tv) + tail.tokens =~= before + (seq![tv] + tail.tokens));
                if err.is_none() {
                    err = step.err;
                }
            },
            None => {},
        }
        p = step.next;
        b = step.byte;
    }
    assert(out.deep_view() + Seq::<TokenView>::empty() =~= out.deep_view());
    (out, err)
}

} // verus!
