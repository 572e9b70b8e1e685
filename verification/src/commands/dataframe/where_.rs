//! The `pls where` command.

use crate::command::{Example, WholeStreamCommand};
use crate::errors::{ShellError, ShellErrorView};
use crate::hir::{
    Binary, Block, ClassifiedCommand, Expression, Operator, SpannedExpression,
    UnspannedPathMember,
};
use crate::span::{Span, Tag};
use crate::value::{Decimal, Primitive, UntaggedValue, Value};
use crate::shape::SyntaxShape;
use crate::signature::{PositionalTypeView, Signature, SignatureView};
use vstd::prelude::*;

verus! {

/// The `pls where` command.
pub struct DataFrame;

impl WholeStreamCommand for DataFrame {
    open spec fn spec_name(&self) -> Seq<char> {
        "pls where"@
    }

    open spec fn spec_usage(&self) -> Seq<char> {
        "Filter dataframe to match the condition"@
    }

    open spec fn spec_signature(&self) -> SignatureView {
        SignatureView::new("pls where"@)
            .with_positional(
                PositionalTypeView::Mandatory("condition"@, SyntaxShape::RowCondition),
                "the condition that must match"@,
            )
    }

    fn name(&self) -> (n: &str) {
        "pls where"
    }

    fn signature(&self) -> (s: Signature) {
        Signature::build("pls where")
            .required("condition", SyntaxShape::RowCondition, "the condition that must match")
    }

    fn usage(&self) -> (u: &str) {
        "Filter dataframe to match the condition"
    }
}

impl DataFrame {
    /// Command lines that show how the command is used.
    pub fn examples(&self) -> (r: Vec<Example>)
        ensures
            r.len() == 1,
            r[0].description@ == ""@ && r[0].example@ == ""@ && r[0].result is None,
    {
        let mut r: Vec<Example> = Vec::new();
        r.push(Example { description: "", example: "", result: None });
        r
    }
}

/// The error for a block that holds no comparison.
pub open spec fn no_condition(tag: Tag) -> ShellErrorView {
    ShellErrorView::Labeled {
        msg: "Expected a condition"@,
        label: "expected a condition"@,
        span: tag.span,
    }
}

/// The comparison that a block stands for: the first command of the first
/// pipeline of its first group, if that is two operands with an operator
/// between them.
pub open spec fn comparison_in(block: Block) -> Option<Binary> {
    if block.block@.len() > 0 && block.block@[0].pipelines@.len() > 0
        && block.block@[0].pipelines@[0].list@.len() > 0 {
        match block.block@[0].pipelines@[0].list@[0] {
            ClassifiedCommand::Expr(e) => match e.expr {
                Expression::Binary(b) => Some(*b),
                _ => None,
            },
            _ => None,
        }
    } else {
        None
    }
}

/// The comparison that the block of `pls where` stands for, or an error at
/// the place of the command.
pub fn condition<'a>(block: &'a Block, tag: Tag) -> (r: Result<&'a Binary, ShellError>)
    ensures
        match r {
            Ok(b) => comparison_in(*block) == Some(*b),
            Err(e) => comparison_in(*block) is None && e.deep_view() == no_condition(tag),
        },
{
    if block.block.len() > 0 && block.block[0].pipelines.len() > 0
        && block.block[0].pipelines[0].list.len() > 0 {
        match &block.block[0].pipelines[0].list[0] {
            ClassifiedCommand::Expr(e) => match &e.expr {
                Expression::Binary(b) => {
                    return Ok(&**b);
                },
                _ => {},
            },
            _ => {},
        }
    }
    Err(ShellError::labeled_error("Expected a condition", "expected a condition", tag.span))
}

/// The error for a left-hand side that names no column.
pub open spec fn no_column(span: Span) -> ShellErrorView {
    ShellErrorView::Labeled {
        msg: "No column name"@,
        label: "Not a column name found in left hand side of comparison"@,
        span,
    }
}

/// The error for a left-hand side whose first step is no name.
pub open spec fn no_name(span: Span) -> ShellErrorView {
    ShellErrorView::Labeled {
        msg: "No column name"@,
        label: "Not a string as column name"@,
        span,
    }
}

/// The column that the left-hand side of a comparison names, with its place:
/// the first step of a path, which must be a name.
pub open spec fn column_named(left: SpannedExpression) -> Result<(Seq<char>, Span), ShellErrorView> {
    match left.expr {
        Expression::FullColumnPath(p) => if p.tail@.len() > 0 {
            match p.tail@[0].unspanned {
                UnspannedPathMember::String(name) => Ok((name@, p.tail@[0].span)),
                _ => Err(no_name(p.tail@[0].span)),
            }
        } else {
            Err(no_column(left.span))
        },
        _ => Err(no_column(left.span)),
    }
}

/// The column that the left-hand side of a comparison names, with its place.
pub fn column_of<'a>(left: &'a SpannedExpression) -> (r: Result<(&'a String, Span), ShellError>)
    ensures
        match r {
            Ok(found) => column_named(*left) == Ok::<(Seq<char>, Span), ShellErrorView>(
                (found.0@, found.1),
            ),
            Err(e) => column_named(*left) == Err::<(Seq<char>, Span), ShellErrorView>(
                e.deep_view(),
            ),
        },
{
    match &left.expr {
        Expression::FullColumnPath(p) => {
            if p.tail.len() > 0 {
                match &p.tail[0].unspanned {
                    UnspannedPathMember::String(name) => Ok((name, p.tail[0].span)),
                    _ => Err(
                        ShellError::labeled_error(
                            "No column name",
                            "Not a string as column name",
                            p.tail[0].span,
                        ),
                    ),
                }
            } else {
                Err(
                    ShellError::labeled_error(
                        "No column name",
                        "Not a column name found in left hand side of comparison",
                        left.span,
                    ),
                )
            }
        },
        _ => Err(
            ShellError::labeled_error(
                "No column name",
                "Not a column name found in left hand side of comparison",
                left.span,
            ),
        ),
    }
}

/// How a column is compared with a value.
#[derive(Clone, Copy, Debug, PartialEq, Eq, Structural)]
pub enum Comparison {
    Equal,
    NotEqual,
    LessThan,
    LessThanOrEqual,
    GreaterThan,
    GreaterThanOrEqual,
}

/// The error for an operator that compares nothing.
pub open spec fn no_comparison(span: Span) -> ShellErrorView {
    ShellErrorView::Labeled {
        msg: "Incorrect operator"@,
        label: "Not implemented operator for dataframes filter"@,
        span,
    }
}

/// The comparison that an operator asks for.
pub open spec fn compares(op: Operator) -> Option<Comparison> {
    match op {
        Operator::Equal => Some(Comparison::Equal),
        Operator::NotEqual => Some(Comparison::NotEqual),
        Operator::LessThan => Some(Comparison::LessThan),
        Operator::LessThanOrEqual => Some(Comparison::LessThanOrEqual),
        Operator::GreaterThan => Some(Comparison::GreaterThan),
        Operator::GreaterThanOrEqual => Some(Comparison::GreaterThanOrEqual),
        _ => None,
    }
}

/// The comparison that an operator asks for, or an error at `span` for an
/// operator that compares nothing.
pub fn comparison_of(op: Operator, span: Span) -> (r: Result<Comparison, ShellError>)
    ensures
        match r {
            Ok(c) => compares(op) == Some(c),
            Err(e) => compares(op) is None && e.deep_view() == no_comparison(span),
        },
{
    match op {
        Operator::Equal => Ok(Comparison::Equal),
        Operator::NotEqual => Ok(Comparison::NotEqual),
        Operator::LessThan => Ok(Comparison::LessThan),
        Operator::LessThanOrEqual => Ok(Comparison::LessThanOrEqual),
        Operator::GreaterThan => Ok(Comparison::GreaterThan),
        Operator::GreaterThanOrEqual => Ok(Comparison::GreaterThanOrEqual),
        _ => Err(
            ShellError::labeled_error(
                "Incorrect operator",
                "Not implemented operator for dataframes filter",
                span,
            ),
        ),
    }
}

/// What a column is compared with.
#[derive(Debug, PartialEq, Eq)]
pub enum Operand {
    Int(i64),
    Decimal(Decimal),
    String(String),
}

/// What a column is compared with, by what it holds.
pub enum OperandView {
    Int(i64),
    Decimal(Decimal),
    String(Seq<char>),
}

impl DeepView for Operand {
    type V = OperandView;

    open spec fn deep_view(&self) -> OperandView {
        match *self {
            Operand::Int(i) => OperandView::Int(i),
            Operand::Decimal(d) => OperandView::Decimal(d),
            Operand::String(s) => OperandView::String(s@),
        }
    }
}

/// The error for a right-hand side that is no single value.
pub open spec fn no_primitive(tag: Tag) -> ShellErrorView {
    ShellErrorView::Labeled {
        msg: "Incorrect argument"@,
        label: "Expected primitive values"@,
        span: tag.span,
    }
}

/// The error for a value that a column of the type `dtype` cannot be compared
/// with.
pub open spec fn no_operand(dtype: Seq<char>, span: Span) -> ShellErrorView {
    ShellErrorView::Labeled {
        msg: "Invalid datatype"@,
        label: "this operator cannot be used with the selected '"@ + dtype + "' datatype"@,
        span,
    }
}

/// What a column of the type `dtype` is compared with, for the value on the
/// right-hand side of a comparison: a whole number, a decimal or a string.
/// An error at the place of the value if it is no single value; an error at
/// `span`, the place of the operator, if it is a single value of another
/// kind.
pub open spec fn operand_for(right: Value, dtype: Seq<char>, span: Span) -> Result<
    OperandView,
    ShellErrorView,
> {
    match right.value {
        UntaggedValue::Primitive(p) => match p {
            Primitive::Int(i) => Ok(OperandView::Int(i)),
            Primitive::Decimal(d) => Ok(OperandView::Decimal(d)),
            Primitive::String(s) => Ok(OperandView::String(s@)),
            _ => Err(no_operand(dtype, span)),
        },
        _ => Err(no_primitive(right.tag)),
    }
}

/// What a column of the type `dtype` is compared with, for the value on the
/// right-hand side of a comparison.
pub fn operand_of(right: &Value, dtype: &str, span: Span) -> (r: Result<Operand, ShellError>)
    ensures
        match r {
            Ok(o) => operand_for(*right, dtype@, span) == Ok::<OperandView, ShellErrorView>(
                o.deep_view(),
            ),
            Err(e) => operand_for(*right, dtype@, span) == Err::<OperandView, ShellErrorView>(
                e.deep_view(),
            ),
        },
{
    match &right.value {
        UntaggedValue::Primitive(p) => match p {
            Primitive::Int(i) => Ok(Operand::Int(*i)),
            Primitive::Decimal(d) => Ok(Operand::Decimal(*d)),
            Primitive::String(s) => Ok(Operand::String(s.clone())),
            _ => {
                let mut label = "this operator cannot be used with the selected '".to_owned();
                label.append(dtype);
                label.append("' datatype");
                Err(
                    ShellError::Labeled { msg: "Invalid datatype".to_owned(), label, span },
                )
            },
        },
        _ => Err(
            ShellError::labeled_error("Incorrect argument", "Expected primitive values", right.tag.span),
        ),
    }
}

} // verus!
