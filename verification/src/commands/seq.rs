//! The `seq` command: prints sequences of numbers.

use crate::command::{Example, WholeStreamCommand};
use crate::shape::SyntaxShape;
use crate::signature::{NamedType, Signature, SignatureView};
use crate::errors::{ShellError, ShellErrorView};
use crate::span::Span;
use crate::text::{
    byte_len, byte_length, bytes_between, chars_of, find_char, first_index_of,
    lemma_byte_len_take, lemma_first_index_of, repeat_char, repeated, replace_all, replaced,
    string_of,
};
use crate::value::{Primitive, UntaggedValue, Value};
use vstd::prelude::*;

verus! {

/// The `seq` command.
pub struct SeqCommand;

/// The arguments of `seq`.
#[derive(Debug, PartialEq, Eq)]
pub struct SeqArgs {
    pub separator: Option<Value>,
    pub terminator: Option<Value>,
    pub widths: bool,
    pub rest: Vec<Value>,
}

impl WholeStreamCommand for SeqCommand {
    open spec fn spec_name(&self) -> Seq<char> {
        "seq"@
    }

    open spec fn spec_usage(&self) -> Seq<char> {
        "print sequences of numbers"@
    }

    open spec fn spec_signature(&self) -> SignatureView {
        SignatureView::new("seq"@)
            .with_named(
                "separator"@,
                NamedType::Optional(Some('s'), SyntaxShape::String),
                "separator character (defaults to \\n)"@,
            )
            .with_named(
                "terminator"@,
                NamedType::Optional(Some('t'), SyntaxShape::String),
                "terminator character (defaults to separator)"@,
            )
            .with_named(
                "widths"@,
                NamedType::Switch(Some('w')),
                "equalize widths of all numbers by padding with zeros"@,
            )
            .with_rest(SyntaxShape::Any, "sequence values"@)
    }

    fn name(&self) -> (n: &str) {
        "seq"
    }

    fn signature(&self) -> (s: Signature) {
        Signature::build("seq")
            .named(
                "separator",
                SyntaxShape::String,
                "separator character (defaults to \\n)",
                Some('s'),
            )
            .named(
                "terminator",
                SyntaxShape::String,
                "terminator character (defaults to separator)",
                Some('t'),
            )
            .switch("widths", "equalize widths of all numbers by padding with zeros", Some('w'))
            .rest(SyntaxShape::Any, "sequence values")
    }

    fn usage(&self) -> (u: &str) {
        "print sequences of numbers"
    }
}

impl SeqCommand {
    /// Command lines that show how the command is used.
    pub fn examples(&self) -> (r: Vec<Example>)
        ensures
            r.len() == 2,
            r[0].description@ == "Select just the name column"@
                && r[0].example@ == "ls | select name"@
                && r[0].result is None,
            r[1].description@ == "Select the name and size columns"@
                && r[1].example@ == "ls | select name size"@
                && r[1].result is None,
    {
        let mut r: Vec<Example> = Vec::new();
        r.push(
            Example {
                description: "Select just the name column",
                example: "ls | select name",
                result: None,
            },
        );
        r.push(
            Example {
                description: "Select the name and size columns",
                example: "ls | select name size",
                result: None,
            },
        );
        r
    }
}

/// `s` with the two characters `\n` replaced by a line feed and then the two
/// characters `\t` by a tab.
pub open spec fn unescaped(s: Seq<char>) -> Seq<char> {
    replaced(replaced(s, seq!['\\', 'n'], seq!['\n']), seq!['\\', 't'], seq!['\t'])
}

/// Replaces the escape sequences `\n` and `\t` by the characters that they
/// stand for.
pub fn escape_sequences(s: &str) -> (r: String)
    ensures
        r@ == unescaped(s@),
{
    let cs = chars_of(s);
    let mut backslash_n: Vec<char> = Vec::new();
    backslash_n.push('\\');
    backslash_n.push('n');
    assert(backslash_n@ =~= seq!['\\', 'n']);
    let mut line_feed: Vec<char> = Vec::new();
    line_feed.push('\n');
    assert(line_feed@ =~= seq!['\n']);
    let mut backslash_t: Vec<char> = Vec::new();
    backslash_t.push('\\');
    backslash_t.push('t');
    assert(backslash_t@ =~= seq!['\\', 't']);
    let mut tab: Vec<char> = Vec::new();
    tab.push('\t');
    assert(tab@ =~= seq!['\t']);
    let first = replace_all(&cs, &backslash_n, &line_feed);
    let second = replace_all(&first, &backslash_t, &tab);
    string_of(&second)
}

/// The character that the text of a separator or terminator stands for: a tab
/// for the two characters `\t`, else the text's only character.
pub open spec fn single_char(s: Seq<char>) -> Option<char> {
    if s == seq!['\\', 't'] {
        Some('\t')
    } else if s.len() == 1 {
        Some(s[0])
    } else {
        None
    }
}

/// The error for a separator that is not a single character.
pub open spec fn separator_error(span: Span) -> ShellErrorView {
    ShellErrorView::Labeled {
        msg: "Expected a single separator char from --separator"@,
        label: "requires a single character string input"@,
        span,
    }
}

/// The error for a terminator that is not a single character.
pub open spec fn terminator_error(span: Span) -> ShellErrorView {
    ShellErrorView::Labeled {
        msg: "expected a single terminator char from --terminator"@,
        label: "requires a single character string input"@,
        span,
    }
}

/// The value of a flag that holds a string, with its place in the source.
pub open spec fn string_flag(flag: Option<Value>) -> Option<(Seq<char>, Span)> {
    match flag {
        Some(v) => match v.value {
            UntaggedValue::Primitive(Primitive::String(s)) => Some((s@, v.tag.span)),
            _ => None,
        },
        None => None,
    }
}

/// The character that a flag stands for: `fallback` if the flag is not given
/// as a string, else what its text stands for, if it stands for a character.
pub open spec fn flag_char(flag: Option<Value>, fallback: char) -> Option<char> {
    match string_flag(flag) {
        Some((s, _)) => single_char(s),
        None => Some(fallback),
    }
}

fn read_flag_char(flag: &Option<Value>, fallback: char) -> (r: Result<char, Span>)
    ensures
        match r {
            Ok(c) => flag_char(*flag, fallback) == Some(c),
            Err(span) => flag_char(*flag, fallback) is None && (string_flag(*flag) matches Some(
                (_, at),
            ) && at == span),
        },
{
    match flag {
        Some(v) => match &v.value {
            UntaggedValue::Primitive(Primitive::String(s)) => {
                let cs = chars_of(s.as_str());
                if cs.len() == 2 && cs[0] == '\\' && cs[1] == 't' {
                    assert(cs@ =~= seq!['\\', 't']);
                    Ok('\t')
                } else if cs.len() == 1 {
                    Ok(cs[0])
                } else {
                    Err(v.tag.span)
                }
            },
            _ => Ok(fallback),
        },
        None => Ok(fallback),
    }
}

/// The separator and the terminator that the arguments ask for. The separator
/// is a line feed unless it is given; the terminator is the separator unless
/// it is given. Each must be a single character, or `\t` for a tab.
pub fn separators(args: &SeqArgs) -> (r: Result<(char, char), ShellError>)
    ensures
        match r {
            Ok((sep, term)) => flag_char(args.separator, '\n') == Some(sep) && flag_char(
                args.terminator,
                sep,
            ) == Some(term),
            Err(e) => match flag_char(args.separator, '\n') {
                None => string_flag(args.separator) matches Some((_, span)) && e.deep_view()
                    == separator_error(span),
                Some(sep) => flag_char(args.terminator, sep) is None && (string_flag(
                    args.terminator,
                ) matches Some((_, span)) && e.deep_view() == terminator_error(span)),
            },
        },
{
    let sep = match read_flag_char(&args.separator, '\n') {
        Ok(c) => c,
        Err(span) => {
            return Err(
                ShellError::labeled_error(
                    "Expected a single separator char from --separator",
                    "requires a single character string input",
                    span,
                ),
            );
        },
    };
    let term = match read_flag_char(&args.terminator, sep) {
        Ok(c) => c,
        Err(span) => {
            return Err(
                ShellError::labeled_error(
                    "expected a single terminator char from --terminator",
                    "requires a single character string input",
                    span,
                ),
            );
        },
    };
    Ok((sep, term))
}

/// Number of bytes of `s` before its first point, or of all of `s` if it
/// has none.
pub open spec fn point(s: Seq<char>) -> int {
    byte_len(s.take(first_index_of(s, '.')))
}

/// Number of bytes of `s` from its first point on.
pub open spec fn decimals(s: Seq<char>) -> int {
    byte_len(s) - point(s)
}

/// The larger of two numbers.
pub open spec fn larger(a: int, b: int) -> int {
    if a >= b {
        a
    } else {
        b
    }
}

/// How the numbers of a sequence are written, for the arguments `free`, the
/// last of which is the end of the sequence; before it may stand the start,
/// and between the two the step. The first number is the number of digits
/// behind the point: the most that the start and the step have. The second is
/// the number of bytes before the point to pad to: the most that any of the
/// arguments has.
pub open spec fn layout_of(free: Seq<Seq<char>>) -> (int, int) {
    let first = if free.len() > 1 {
        (decimals(free[0]), point(free[0]))
    } else {
        (0, 0)
    };
    let both = if free.len() > 2 {
        (larger(first.0, decimals(free[1])), larger(first.1, point(free[1])))
    } else {
        first
    };
    (
        if both.0 > 0 {
            both.0 - 1
        } else {
            0
        },
        larger(both.1, point(free.last())),
    )
}

/// Number of bytes of `s` before its first point, and from it on.
fn split_at_point(s: &str) -> (r: (usize, usize))
    ensures
        r.0 == point(s@),
        r.1 == decimals(s@),
{
    let chars = chars_of(s);
    let len = byte_length(s);
    proof {
        lemma_first_index_of(s@, '.');
        lemma_byte_len_take(s@, first_index_of(s@, '.'));
        assert(s@.take(s@.len() as int) =~= s@);
    }
    match find_char(&chars, '.') {
        Some(k) => {
            assert(chars@.subrange(0, k as int) =~= s@.take(k as int));
            match bytes_between(&chars, 0, k) {
                Some(n) => (n, len - n),
                None => (len, 0),
            }
        },
        None => (len, 0),
    }
}

/// How the numbers of a sequence are written, for the arguments `free`.
pub fn layout(free: &Vec<String>) -> (r: (usize, usize))
    requires
        free.len() > 0,
    ensures
        r.0 == layout_of(free.deep_view()).0,
        r.1 == layout_of(free.deep_view()).1,
{
    let ghost all = free.deep_view();
    let mut largest_dec: usize = 0;
    let mut padding: usize = 0;
    if free.len() > 1 {
        assert(all[0] == free[0]@);
        let (dec, rest) = split_at_point(free[0].as_str());
        largest_dec = rest;
        padding = dec;
    }
    if free.len() > 2 {
        assert(all[1] == free[1]@);
        let (dec, rest) = split_at_point(free[1].as_str());
        if rest > largest_dec {
            largest_dec = rest;
        }
        if dec > padding {
            padding = dec;
        }
    }
    assert(all.last() == free[free.len() - 1]@);
    let (dec, _) = split_at_point(free[free.len() - 1].as_str());
    if dec > padding {
        padding = dec;
    }
    if largest_dec > 0 {
        largest_dec -= 1;
    }
    (largest_dec, padding)
}

/// A number as it is written in a sequence: with zeros in front, where
/// padding is asked for, until `padding` bytes stand before its point.
pub open spec fn zero_padded(number: Seq<char>, pad: bool, padding: int) -> Seq<char> {
    if pad && point(number) < padding {
        repeated('0', padding - point(number)) + number
    } else {
        number
    }
}

/// A number as it is written in a sequence.
pub fn pad_number(number: &str, pad: bool, padding: usize) -> (r: String)
    ensures
        r@ == zero_padded(number@, pad, padding as int),
{
    let (before_dec, _) = split_at_point(number);
    if pad && before_dec < padding {
        let mut r = repeat_char('0', padding - before_dec);
        r.append(number);
        r
    } else {
        number.to_owned()
    }
}

} // verus!
