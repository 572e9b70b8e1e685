//! Diagnostics: recoverable grammar errors and errors that abort an operation.

use crate::span::{Span, Spanned};
use vstd::prelude::*;

verus! {

/// A grammar-level diagnostic. It is recorded beside a best-effort value and
/// never stops the parse.
#[derive(Debug, PartialEq, Eq)]
pub enum ParseError {
    /// The input ended where `expected` was still owed.
    UnexpectedEof { expected: String, span: Span },
    /// `expected` was owed but `actual` was found.
    Mismatch { expected: String, actual: Spanned<String> },
}

/// What a [`ParseError`] says, with text as character sequences.
pub enum ParseErrorView {
    UnexpectedEof { expected: Seq<char>, span: Span },
    Mismatch { expected: Seq<char>, actual: Spanned<Seq<char>> },
}

impl DeepView for ParseError {
    type V = ParseErrorView;

    open spec fn deep_view(&self) -> ParseErrorView {
        match *self {
            ParseError::UnexpectedEof { expected, span } => ParseErrorView::UnexpectedEof {
                expected: expected@,
                span,
            },
            ParseError::Mismatch { expected, actual } => ParseErrorView::Mismatch {
                expected: expected@,
                actual: actual.deep_view(),
            },
        }
    }
}

impl Clone for ParseError {
    fn clone(&self) -> (res: Self)
        ensures
            res == *self,
    {
        match self {
            ParseError::UnexpectedEof { expected, span } => ParseError::UnexpectedEof {
                expected: expected.clone(),
                span: *span,
            },
            ParseError::Mismatch { expected, actual } => ParseError::Mismatch {
                expected: expected.clone(),
                actual: actual.clone(),
            },
        }
    }
}

impl ParseError {
    /// The input ended although `expected` was still owed; `span` is where.
    pub fn unexpected_eof(expected: String, span: Span) -> (e: ParseError)
        ensures
            e == (ParseError::UnexpectedEof { expected, span }),
    {
        ParseError::UnexpectedEof { expected, span }
    }

    /// `expected` was owed where `actual` stands.
    pub fn mismatch(expected: String, actual: Spanned<String>) -> (e: ParseError)
        ensures
            e == (ParseError::Mismatch { expected, actual }),
    {
        ParseError::Mismatch { expected, actual }
    }
}

/// The first of two optional errors that is present.
pub open spec fn first_of(a: Option<ParseErrorView>, b: Option<ParseErrorView>) -> Option<
    ParseErrorView,
> {
    if a is Some {
        a
    } else {
        b
    }
}

/// Keeps the error that was met first: `a` if there is one, else `b`.
pub fn first_error(a: Option<ParseError>, b: Option<ParseError>) -> (r: Option<ParseError>)
    ensures
        r == (if a is Some {
            a
        } else {
            b
        }),
        r.deep_view() == first_of(a.deep_view(), b.deep_view()),
{
    match a {
        Some(e) => Some(e),
        None => b,
    }
}

/// An error that aborts the operation in which it arises.
#[derive(Debug, PartialEq, Eq)]
pub enum ShellError {
    /// A message, a short label and the place in the source they refer to.
    Labeled { msg: String, label: String, span: Span },
    /// A failure at run time that has no place in the source.
    UntaggedRuntime { reason: String },
    /// Something that should not have happened.
    Unexpected { reason: String },
    /// Something that is not supported.
    Unimplemented { reason: String },
}

/// What a [`ShellError`] says, with text as character sequences.
pub enum ShellErrorView {
    Labeled { msg: Seq<char>, label: Seq<char>, span: Span },
    UntaggedRuntime { reason: Seq<char> },
    Unexpected { reason: Seq<char> },
    Unimplemented { reason: Seq<char> },
}

impl DeepView for ShellError {
    type V = ShellErrorView;

    open spec fn deep_view(&self) -> ShellErrorView {
        match *self {
            ShellError::Labeled { msg, label, span } => ShellErrorView::Labeled {
                msg: msg@,
                label: label@,
                span,
            },
            ShellError::UntaggedRuntime { reason } => ShellErrorView::UntaggedRuntime {
                reason: reason@,
            },
            ShellError::Unexpected { reason } => ShellErrorView::Unexpected { reason: reason@ },
            ShellError::Unimplemented { reason } => ShellErrorView::Unimplemented {
                reason: reason@,
            },
        }
    }
}

impl Clone for ShellError {
    fn clone(&self) -> (res: Self)
        ensures
            res == *self,
    {
        match self {
            ShellError::Labeled { msg, label, span } => ShellError::Labeled {
                msg: msg.clone(),
                label: label.clone(),
                span: *span,
            },
            ShellError::UntaggedRuntime { reason } => ShellError::UntaggedRuntime {
                reason: reason.clone(),
            },
            ShellError::Unexpected { reason } => ShellError::Unexpected { reason: reason.clone() },
            ShellError::Unimplemented { reason } => ShellError::Unimplemented {
                reason: reason.clone(),
            },
        }
    }
}

impl ShellError {
    pub fn labeled_error(msg: &str, label: &str, span: Span) -> (e: ShellError)
        ensures
            e.deep_view() == (ShellErrorView::Labeled { msg: msg@, label: label@, span }),
    {
        ShellError::Labeled { msg: msg.to_owned(), label: label.to_owned(), span }
    }

    pub fn untagged_runtime_error(reason: &str) -> (e: ShellError)
        ensures
            e.deep_view() == (ShellErrorView::UntaggedRuntime { reason: reason@ }),
    {
        ShellError::UntaggedRuntime { reason: reason.to_owned() }
    }

    pub fn unexpected(reason: &str) -> (e: ShellError)
        ensures
            e.deep_view() == (ShellErrorView::Unexpected { reason: reason@ }),
    {
        ShellError::Unexpected { reason: reason.to_owned() }
    }

    pub fn unimplemented(reason: &str) -> (e: ShellError)
        ensures
            e.deep_view() == (ShellErrorView::Unimplemented { reason: reason@ }),
    {
        ShellError::Unimplemented { reason: reason.to_owned() }
    }
}

} // verus!
