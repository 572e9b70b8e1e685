//! The `append` command: adds a row behind the input.

use crate::command::{Example, WholeStreamCommand};
use crate::shape::SyntaxShape;
use crate::signature::{PositionalTypeView, Signature, SignatureView};
use crate::span::Tag;
use crate::value::{
    int_view, lemma_row_view, string_view, Dictionary, UntaggedValue, UntaggedValueView, Value,
    ValueView,
};
use vstd::prelude::*;

verus! {

/// The `append` command.
pub struct Command;

/// The arguments of `append`.
#[derive(Debug, PartialEq, Eq)]
pub struct Arguments {
    pub value: Value,
}

impl WholeStreamCommand for Command {
    open spec fn spec_name(&self) -> Seq<char> {
        "append"@
    }

    open spec fn spec_usage(&self) -> Seq<char> {
        "Append a row to the table."@
    }

    open spec fn spec_signature(&self) -> SignatureView {
        SignatureView::new("append"@)
            .with_positional(
                PositionalTypeView::Mandatory("row value"@, SyntaxShape::Any),
                "the value of the row to append to the table"@,
            )
    }

    fn name(&self) -> (n: &str) {
        "append"
    }

    fn signature(&self) -> (s: Signature) {
        Signature::build("append")
            .required("row value", SyntaxShape::Any, "the value of the row to append to the table")
    }

    fn usage(&self) -> (u: &str) {
        "Append a row to the table."
    }
}

/// The row that a table with a single row stands for, if `value` is one.
pub open spec fn row_literal(value: Value) -> Option<Value> {
    match value.value {
        UntaggedValue::Table(values) => if values@.len() == 1 && values@[0].value is Row {
            Some(Value { value: values@[0].value, tag: value.tag })
        } else {
            None
        },
        _ => None,
    }
}

/// The value that `append` adds behind `input`: `value` with the tag of the
/// first row of the input, if there is one; and if that is a table with a
/// single row, that row.
pub open spec fn appended(value: Value, input: Seq<Value>) -> Value {
    let tagged = if input.len() > 0 {
        Value { value: value.value, tag: input[0].tag }
    } else {
        value
    };
    match row_literal(tagged) {
        Some(row) => row,
        None => tagged,
    }
}

/// Hands on the input and, behind it, the value.
pub fn append(args: Arguments, input: Vec<Value>) -> (out: Vec<Value>)
    ensures
        out@ == input@.push(appended(args.value, input@)),
{
    let mut value = args.value;
    if input.len() > 0 {
        value.tag = input[0].tag();
    }
    let tag = value.tag;
    let single = match &value.value {
        UntaggedValue::Table(values) => values.len() == 1 && values[0].is_row(),
        _ => false,
    };
    if single {
        match value.value {
            UntaggedValue::Table(values) => {
                let mut values = values;
                let row = values.pop().unwrap();
                value = Value { value: row.value, tag };
            },
            other => {
                value = Value { value: other, tag };
            },
        }
    }
    let mut out = input;
    out.push(value);
    out
}

impl Command {
    /// Command lines that show how the command is used.
    pub fn examples(&self) -> (r: Vec<Example>)
        ensures
            r.len() == 2,
            r[0].description@ == "Add values to the end of the table"@,
            r[0].example@ == "echo [1 2 3] | append 4"@,
            r[0].result.deep_view() == Some(
                seq![int_view(1), int_view(2), int_view(3), int_view(4)],
            ),
            r[1].description@ == "Add row value to the end of the table"@,
            r[1].example@
                == "echo [[country]; [Ecuador] ['New Zealand']] | append [[country]; [USA]]"@,
            r[1].result.deep_view() == Some(
                seq![country_row("Ecuador"@), country_row("New Zealand"@), country_row("USA"@)],
            ),
    {
        let mut numbers: Vec<Value> = Vec::new();
        numbers.push(Value::from_int(1));
        numbers.push(Value::from_int(2));
        numbers.push(Value::from_int(3));
        numbers.push(Value::from_int(4));
        assert(numbers.deep_view() =~= seq![int_view(1), int_view(2), int_view(3), int_view(4)]);
        let mut countries: Vec<Value> = Vec::new();
        countries.push(country("Ecuador"));
        countries.push(country("New Zealand"));
        countries.push(country("USA"));
        assert(countries.deep_view() =~= seq![
            country_row("Ecuador"@),
            country_row("New Zealand"@),
            country_row("USA"@),
        ]);
        let mut r: Vec<Example> = Vec::new();
        r.push(
            Example {
                description: "Add values to the end of the table",
                example: "echo [1 2 3] | append 4",
                result: Some(numbers),
            },
        );
        r.push(
            Example {
                description: "Add row value to the end of the table",
                example: "echo [[country]; [Ecuador] ['New Zealand']] | append [[country]; [USA]]",
                result: Some(countries),
            },
        );
        r
    }
}

/// The row whose single cell, `country`, holds the name of a country.
pub open spec fn country_row(name: Seq<char>) -> ValueView {
    ValueView {
        value: UntaggedValueView::Row(seq![("country"@, string_view(name))]),
        tag: Tag::spec_unknown(),
    }
}

/// The row whose single cell, `country`, holds `name`.
fn country(name: &str) -> (v: Value)
    ensures
        v.deep_view() == country_row(name@),
{
    let mut entries: Vec<(String, Value)> = Vec::new();
    let cell = ("country".to_owned(), Value::from_string(name));
    assert(cell.deep_view() == (cell.0@, cell.1.deep_view()));
    entries.push(cell);
    let d = Dictionary { entries };
    assert(d.deep_view() =~= seq![("country"@, string_view(name@))]);
    proof {
        lemma_row_view(d, Tag::spec_unknown());
    }
    Value { value: UntaggedValue::Row(d), tag: Tag::unknown() }
}

} // verus!
