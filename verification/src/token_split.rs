//! Two repairs of a lexed token stream that the signature grammar needs.
//!
//! The lexer ends a baseline token only at white space. In a signature, `,`,
//! `:` and `?` stand directly beside names, and the one-letter form of a flag
//! stands directly behind its long name, as in `--flag(-f)`. The passes here
//! cut such baseline tokens apart and give each piece its own span.

use crate::lex::{all_in_bounds, in_bounds, Token, TokenContents, TokenContentsView, TokenView};
use crate::span::Span;
use crate::text::{
    byte_len, chars_of, find_char, first_index_of, lemma_byte_len_bounds, lemma_byte_len_concat,
    lemma_byte_len_take, string_between, width_of,
};
use vstd::prelude::*;

verus! {

/// The tokens that `pieces` makes of each token of `tokens`, in order.
pub open spec fn expand(tokens: Seq<TokenView>, pieces: spec_fn(TokenView) -> Seq<TokenView>) -> Seq<
    TokenView,
>
    decreases tokens.len(),
{
    if tokens.len() == 0 {
        Seq::empty()
    } else {
        expand(tokens.drop_last(), pieces) + pieces(tokens.last())
    }
}

/// The baseline token for the characters `base[from..to]`, where `base` starts
/// at byte offset `start`.
pub open spec fn word(base: Seq<char>, from: int, to: int, start: int) -> TokenView {
    TokenView {
        contents: TokenContentsView::Baseline(base.subrange(from, to)),
        span: Span {
            start: (start + byte_len(base.take(from))) as usize,
            end: (start + byte_len(base.take(to))) as usize,
        },
    }
}

/// What the short-flag pass makes of one token: a baseline token that holds a
/// `(` anywhere but in first place is cut in two before its first `(`.
pub open spec fn shortflag_pieces(t: TokenView) -> Seq<TokenView> {
    match t.contents {
        TokenContentsView::Baseline(base) => {
            let k = first_index_of(base, '(');
            if 0 < k < base.len() {
                let cut = (t.span.start + byte_len(base.take(k))) as usize;
                seq![
                    TokenView {
                        contents: TokenContentsView::Baseline(base.take(k)),
                        span: Span { start: t.span.start, end: cut },
                    },
                    TokenView {
                        contents: TokenContentsView::Baseline(base.skip(k)),
                        span: Span { start: cut, end: t.span.end },
                    },
                ]
            } else {
                seq![t]
            }
        },
        _ => seq![t],
    }
}

/// The token stream after the short-flag pass.
pub open spec fn shortflag_split(tokens: Seq<TokenView>) -> Seq<TokenView> {
    expand(tokens, |t: TokenView| shortflag_pieces(t))
}

/// Index at which the run of characters that are no separators begins that is
/// still open after the first `n` characters of `base`.
pub open spec fn run_start(base: Seq<char>, seps: Seq<char>, n: int) -> int
    decreases n,
{
    if n <= 0 {
        0
    } else if seps.contains(base[n - 1]) {
        n
    } else {
        run_start(base, seps, n - 1)
    }
}

/// The tokens that the first `n` characters of `base` give: at each
/// separator, the run before it (if it is not empty) and the separator itself.
pub open spec fn pieces_upto(base: Seq<char>, seps: Seq<char>, start: int, n: int) -> Seq<
    TokenView,
>
    decreases n,
{
    if n <= 0 {
        Seq::empty()
    } else {
        let prev = pieces_upto(base, seps, start, n - 1);
        if seps.contains(base[n - 1]) {
            let r = run_start(base, seps, n - 1);
            let flushed = if r < n - 1 {
                prev.push(word(base, r, n - 1, start))
            } else {
                prev
            };
            flushed.push(word(base, n - 1, n, start))
        } else {
            prev
        }
    }
}

/// What the separator pass makes of one token: a baseline token is cut into
/// its separators, each a token of its own, and the runs of other characters
/// between them. Empty runs give no token.
pub open spec fn separator_pieces(t: TokenView, seps: Seq<char>) -> Seq<TokenView> {
    match t.contents {
        TokenContentsView::Baseline(base) => {
            let n = base.len() as int;
            let prev = pieces_upto(base, seps, t.span.start as int, n);
            let r = run_start(base, seps, n);
            if r < n {
                prev.push(word(base, r, n, t.span.start as int))
            } else {
                prev
            }
        },
        _ => seq![t],
    }
}

/// The token stream after the separator pass.
pub open spec fn separator_split(tokens: Seq<TokenView>, seps: Seq<char>) -> Seq<TokenView> {
    expand(tokens, |t: TokenView| separator_pieces(t, seps))
}

proof fn lemma_expand_push(
    tokens: Seq<TokenView>,
    k: int,
    pieces: spec_fn(TokenView) -> Seq<TokenView>,
)
    requires
        0 <= k < tokens.len(),
    ensures
        expand(tokens.take(k + 1), pieces) == expand(tokens.take(k), pieces) + pieces(tokens[k]),
{
    assert(tokens.take(k + 1).drop_last() =~= tokens.take(k));
}

proof fn lemma_run_start(base: Seq<char>, seps: Seq<char>, n: int)
    requires
        0 <= n <= base.len(),
    ensures
        0 <= run_start(base, seps, n) <= n,
    decreases n,
{
    if n > 0 && !seps.contains(base[n - 1]) {
        lemma_run_start(base, seps, n - 1);
    }
}

/// A word of a text that is in bounds is in bounds, and its span is as wide
/// as its text.
proof fn lemma_word(base: Seq<char>, from: int, to: int, start: int)
    requires
        0 <= from <= to <= base.len(),
        0 <= start,
        start + byte_len(base) <= usize::MAX,
    ensures
        in_bounds(word(base, from, to, start)),
        word(base, from, to, start).span.start == start + byte_len(base.take(from)),
        word(base, from, to, start).span.end == start + byte_len(base.take(to)),
        word(base, from, to, start).span.end == word(base, from, to, start).span.start + byte_len(
            base.subrange(from, to),
        ),
{
    lemma_byte_len_take(base, from);
    lemma_byte_len_take(base, to);
    lemma_byte_len_concat(base.take(from), base.subrange(from, to));
    assert(base.take(from) + base.subrange(from, to) =~= base.take(to));
    lemma_byte_len_bounds(base.subrange(from, to));
}

proof fn lemma_pieces_in_bounds(base: Seq<char>, seps: Seq<char>, start: int, n: int)
    requires
        0 <= n <= base.len(),
        0 <= start,
        start + byte_len(base) <= usize::MAX,
    ensures
        all_in_bounds(pieces_upto(base, seps, start, n)),
    decreases n,
{
    if n > 0 {
        lemma_pieces_in_bounds(base, seps, start, n - 1);
        lemma_run_start(base, seps, n - 1);
        let r = run_start(base, seps, n - 1);
        lemma_word(base, r, n - 1, start);
        lemma_word(base, n - 1, n, start);
    }
}

fn push_view(out: &mut Vec<Token>, t: Token)
    ensures
        final(out).deep_view() == old(out).deep_view().push(t.deep_view()),
{
    let ghost before = out.deep_view();
    out.push(t);
    assert(out.deep_view() =~= before.push(t.deep_view()));
}

/// Cuts every baseline token that holds a `(` anywhere but in first place in
/// two before its first `(`, so that `--flag(-f)` becomes `--flag` and `(-f)`.
/// All other tokens stay as they are.
pub fn lex_split_shortflag_from_longflag(tokens: Vec<Token>) -> (result: Vec<Token>)
    requires
        all_in_bounds(tokens.deep_view()),
    ensures
        result.deep_view() == shortflag_split(tokens.deep_view()),
{
    let mut result: Vec<Token> = Vec::new();
    let ghost pieces = |t: TokenView| shortflag_pieces(t);
    let ghost all = tokens.deep_view();
    let mut k: usize = 0;
    assert(result.deep_view() =~= Seq::<TokenView>::empty());
    assert(all.take(0) =~= Seq::<TokenView>::empty());
    while k < tokens.len()
        invariant
            k <= tokens.len(),
            all == tokens.deep_view(),
            all_in_bounds(all),
            pieces == (|t: TokenView| shortflag_pieces(t)),
            result.deep_view() == expand(all.take(k as int), pieces),
        decreases tokens.len() - k,
    {
        let token = &tokens[k];
        let ghost tv = all[k as int];
        assert(tv == token.deep_view());
        assert(in_bounds(tv));
        proof {
            lemma_expand_push(all, k as int, pieces);
        }
        let ghost before = result.deep_view();
        let mut processed = false;
        match &token.contents {
            TokenContents::Baseline(base) => {
                let cs = chars_of(base.as_str());
                match find_char(&cs, '(') {
                    Some(paren) => {
                        if paren != 0 {
                            processed = true;
                            proof {
                                lemma_byte_len_take(cs@, paren as int);
                            }
                            let mut cut: usize = token.span.start();
                            let mut j: usize = 0;
                            assert(cs@.take(0) =~= Seq::<char>::empty());
                            while j < paren
                                invariant
                                    j <= paren < cs.len(),
                                    cut == token.span.start + byte_len(cs@.take(j as int)),
                                    token.span.start + byte_len(cs@) <= usize::MAX,
                                decreases paren - j,
                            {
                                proof {
                                    lemma_byte_len_take(cs@, j as int);
                                    lemma_byte_len_take(cs@, j + 1);
                                }
                                cut = cut + width_of(cs[j]);
                                j += 1;
                            }
                            let head = string_between(&cs, 0, paren);
                            let tail = string_between(&cs, paren, cs.len());
                            assert(cs@.subrange(0, paren as int) =~= cs@.take(paren as int));
                            assert(cs@.subrange(paren as int, cs.len() as int) =~= cs@.skip(
                                paren as int,
                            ));
                            let first = Token::new(
                                TokenContents::Baseline(head),
                                Span::new(token.span.start(), cut),
                            );
                            let second = Token::new(
                                TokenContents::Baseline(tail),
                                Span::new(cut, token.span.end()),
                            );
                            push_view(&mut result, first);
                            push_view(&mut result, second);
                            assert(result.deep_view() =~= before + shortflag_pieces(tv));
                        }
                    },
                    None => {},
                }
            },
            _ => {},
        }
        if !processed {
            push_view(&mut result, token.clone());
            assert(result.deep_view() =~= before + shortflag_pieces(tv));
        }
        k += 1;
    }
    assert(all.take(tokens.len() as int) =~= all);
    result
}

fn holds(seps: &[char], c: char) -> (b: bool)
    ensures
        b == seps@.contains(c),
{
    let mut i: usize = 0;
    while i < seps.len()
        invariant
            i <= seps.len(),
            forall|j: int| 0 <= j < i ==> seps@[j] != c,
        decreases seps.len() - i,
    {
        if seps[i] == c {
            return true;
        }
        i += 1;
    }
    false
}

/// Pushes the baseline token for `cs[from..to]` with the span `[b_from, b_to)`.
fn push_word(
    out: &mut Vec<Token>,
    cs: &Vec<char>,
    from: usize,
    to: usize,
    b_from: usize,
    b_to: usize,
    Ghost(start): Ghost<int>,
)
    requires
        from <= to <= cs.len(),
        0 <= start,
        start + byte_len(cs@) <= usize::MAX,
        b_from == start + byte_len(cs@.take(from as int)),
        b_to == start + byte_len(cs@.take(to as int)),
    ensures
        final(out).deep_view() == old(out).deep_view().push(
            word(cs@, from as int, to as int, start),
        ),
{
    let text = string_between(cs, from, to);
    proof {
        lemma_word(cs@, from as int, to as int, start);
    }
    push_view(out, Token::new(TokenContents::Baseline(text), Span::new(b_from, b_to)));
}

/// Cuts every baseline token at the characters of
/// `extra_baseline_terminal_tokens`: each such character becomes a token of
/// its own, and so does each run of other characters between them. All other
/// tokens stay as they are.
pub fn lex_split_baseline_tokens_on(
    tokens: Vec<Token>,
    extra_baseline_terminal_tokens: &[char],
) -> (result: Vec<Token>)
    requires
        all_in_bounds(tokens.deep_view()),
    ensures
        result.deep_view() == separator_split(
            tokens.deep_view(),
            extra_baseline_terminal_tokens@,
        ),
        all_in_bounds(result.deep_view()),
{
    let mut result: Vec<Token> = Vec::new();
    let ghost seps = extra_baseline_terminal_tokens@;
    let ghost pieces = |t: TokenView| separator_pieces(t, seps);
    let ghost all = tokens.deep_view();
    let mut k: usize = 0;
    assert(result.deep_view() =~= Seq::<TokenView>::empty());
    assert(all.take(0) =~= Seq::<TokenView>::empty());
    while k < tokens.len()
        invariant
            k <= tokens.len(),
            all == tokens.deep_view(),
            all_in_bounds(all),
            seps == extra_baseline_terminal_tokens@,
            pieces == (|t: TokenView| separator_pieces(t, seps)),
            result.deep_view() == expand(all.take(k as int), pieces),
            all_in_bounds(result.deep_view()),
        decreases tokens.len() - k,
    {
        let token = &tokens[k];
        let ghost tv = all[k as int];
        assert(tv == token.deep_view());
        assert(in_bounds(tv));
        proof {
            lemma_expand_push(all, k as int, pieces);
        }
        let ghost before = result.deep_view();
        match &token.contents {
            TokenContents::Baseline(base) => {
                let cs = chars_of(base.as_str());
                let ghost start = token.span.start as int;
                let mut i: usize = 0;
                let mut run: usize = 0;
                let mut b_i: usize = token.span.start();
                let mut b_run: usize = token.span.start();
                assert(cs@.take(0) =~= Seq::<char>::empty());
                assert(before + pieces_upto(cs@, seps, start, 0) =~= before);
                while i < cs.len()
                    invariant
                        i <= cs.len(),
                        run <= i,
                        0 <= start,
                        start + byte_len(cs@) <= usize::MAX,
                        seps == extra_baseline_terminal_tokens@,
                        run == run_start(cs@, seps, i as int),
                        b_i == start + byte_len(cs@.take(i as int)),
                        b_run == start + byte_len(cs@.take(run as int)),
                        result.deep_view() == before + pieces_upto(cs@, seps, start, i as int),
                    decreases cs.len() - i,
                {
                    let c = cs[i];
                    proof {
                        lemma_byte_len_take(cs@, i as int);
                        lemma_byte_len_take(cs@, i + 1);
                    }
                    let b_next = b_i + width_of(c);
                    let ghost so_far = pieces_upto(cs@, seps, start, i as int);
                    if holds(extra_baseline_terminal_tokens, c) {
                        if run < i {
                            push_word(&mut result, &cs, run, i, b_run, b_i, Ghost(start));
                        }
                        push_word(&mut result, &cs, i, i + 1, b_i, b_next, Ghost(start));
                        run = i + 1;
                        b_run = b_next;
                        assert(result.deep_view() =~= before + pieces_upto(
                            cs@,
                            seps,
                            start,
                            i + 1,
                        ));
                    }
                    i += 1;
                    b_i = b_next;
                }
                if run < cs.len() {
                    proof {
                        lemma_byte_len_take(cs@, cs.len() as int);
                        assert(cs@.take(cs.len() as int) =~= cs@);
                    }
                    push_word(&mut result, &cs, run, cs.len(), b_run, b_i, Ghost(start));
                }
                assert(result.deep_view() =~= before + separator_pieces(tv, seps));
                proof {
                    lemma_pieces_in_bounds(cs@, seps, start, cs.len() as int);
                    lemma_run_start(cs@, seps, cs.len() as int);
                    lemma_word(cs@, run as int, cs.len() as int, start);
                }
            },
            _ => {
                push_view(&mut result, token.clone());
                assert(result.deep_view() =~= before + separator_pieces(tv, seps));
            },
        }
        k += 1;
    }
    assert(all.take(tokens.len() as int) =~= all);
    result
}

} // verus!
