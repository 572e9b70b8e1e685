//! The `first` command: the first rows of the input.

use crate::command::{Example, WholeStreamCommand};
use crate::shape::SyntaxShape;
use crate::signature::{PositionalTypeView, Signature, SignatureView};
use crate::value::{int_view, Value};
use vstd::prelude::*;

verus! {

/// The `first` command.
pub struct First;

/// The arguments of `first`.
#[derive(Debug, PartialEq, Eq)]
pub struct FirstArgs {
    /// How many rows are asked for; one if nothing is said.
    pub rows: Option<usize>,
}

impl WholeStreamCommand for First {
    open spec fn spec_name(&self) -> Seq<char> {
        "first"@
    }

    open spec fn spec_usage(&self) -> Seq<char> {
        "Show only the first number of rows."@
    }

    open spec fn spec_signature(&self) -> SignatureView {
        SignatureView::new("first"@)
            .with_positional(
                PositionalTypeView::Optional("rows"@, SyntaxShape::Int),
                "starting from the front, the number of rows to return"@,
            )
    }

    fn name(&self) -> (n: &str) {
        "first"
    }

    fn signature(&self) -> (s: Signature) {
        Signature::build("first")
            .optional(
                "rows",
                SyntaxShape::Int,
                "starting from the front, the number of rows to return",
            )
    }

    fn usage(&self) -> (u: &str) {
        "Show only the first number of rows."
    }
}

impl First {
    /// Command lines that show how the command is used, with what they give.
    pub fn examples(&self) -> (r: Vec<Example>)
        ensures
            r.len() == 2,
            r[0].description@ == "Return the first item of a list/table"@,
            r[0].example@ == "echo [1 2 3] | first"@,
            r[0].result.deep_view() == Some(seq![int_view(1)]),
            r[1].description@ == "Return the first 2 items of a list/table"@,
            r[1].example@ == "echo [1 2 3] | first 2"@,
            r[1].result.deep_view() == Some(seq![int_view(1), int_view(2)]),
    {
        let mut one: Vec<Value> = Vec::new();
        one.push(Value::from_int(1));
        assert(one.deep_view() =~= seq![int_view(1)]);
        let mut two: Vec<Value> = Vec::new();
        two.push(Value::from_int(1));
        two.push(Value::from_int(2));
        assert(two.deep_view() =~= seq![int_view(1), int_view(2)]);
        let mut r: Vec<Example> = Vec::new();
        r.push(
            Example {
                description: "Return the first item of a list/table",
                example: "echo [1 2 3] | first",
                result: Some(one),
            },
        );
        r.push(
            Example {
                description: "Return the first 2 items of a list/table",
                example: "echo [1 2 3] | first 2",
                result: Some(two),
            },
        );
        r
    }
}

/// How many rows `first` hands on: as many as were asked for, one if nothing
/// was said.
pub open spec fn rows_desired(rows: Option<usize>) -> int {
    match rows {
        Some(n) => n as int,
        None => 1,
    }
}

/// The first rows of `input`: as many as were asked for, or all of them if
/// there are fewer.
pub open spec fn first_rows<T>(rows: Option<usize>, input: Seq<T>) -> Seq<T> {
    if rows_desired(rows) < input.len() {
        input.take(rows_desired(rows))
    } else {
        input
    }
}

/// Hands on the first rows of the input, in their order, and drops the rest.
pub fn first(args: FirstArgs, input: Vec<Value>) -> (out: Vec<Value>)
    ensures
        out@ == first_rows(args.rows, input@),
{
    let rows_desired: usize = match args.rows {
        Some(quantity) => quantity,
        None => 1,
    };
    let mut values = input;
    if rows_desired < values.len() {
        values.truncate(rows_desired);
        assert(values@ =~= input@.take(rows_desired as int));
    }
    values
}

} // verus!
