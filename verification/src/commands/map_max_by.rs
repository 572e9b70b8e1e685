//! The `map-max-by` command.

use crate::command::WholeStreamCommand;
use crate::shape::SyntaxShape;
use crate::signature::{NamedType, Signature, SignatureView};
use crate::errors::{ShellError, ShellErrorView};
use crate::span::{Span, Tag};
use crate::value::Value;
use vstd::prelude::*;

verus! {

/// The `map-max-by` command.
pub struct MapMaxBy;

impl WholeStreamCommand for MapMaxBy {
    open spec fn spec_name(&self) -> Seq<char> {
        "map-max-by"@
    }

    open spec fn spec_usage(&self) -> Seq<char> {
        "Creates a new table with the data from the tables rows maxed by the column given."@
    }

    open spec fn spec_signature(&self) -> SignatureView {
        SignatureView::new("map-max-by"@)
            .with_named(
                "column_name"@,
                NamedType::Optional(Some('c'), SyntaxShape::String),
                "the name of the column to map-max the table's rows"@,
            )
    }

    fn name(&self) -> (n: &str) {
        "map-max-by"
    }

    fn signature(&self) -> (s: Signature) {
        Signature::build("map-max-by")
            .named(
                "column_name",
                SyntaxShape::String,
                "the name of the column to map-max the table's rows",
                Some('c'),
            )
    }

    fn usage(&self) -> (u: &str) {
        "Creates a new table with the data from the tables rows maxed by the column given."
    }
}

/// The arguments of `map-max-by`.
#[derive(Debug, PartialEq, Eq)]
pub struct MapMaxByArgs {
    pub column_name: Option<String>,
}

/// The error for an input without rows.
pub open spec fn expected_table(span: Span) -> ShellErrorView {
    ShellErrorView::Labeled {
        msg: "Expected table from pipeline"@,
        label: "requires a table input"@,
        span,
    }
}

/// The table that `map-max-by` works on: the first value of the input. An
/// input without values is an error at the place of the command's name.
pub fn map_max_by_input(values: &Vec<Value>, name: Tag) -> (r: Result<&Value, ShellError>)
    ensures
        match r {
            Ok(v) => values.len() > 0 && *v == values[0],
            Err(e) => values.len() == 0 && e.deep_view() == expected_table(name.span),
        },
{
    if values.len() == 0 {
        Err(ShellError::labeled_error("Expected table from pipeline", "requires a table input", name.span))
    } else {
        Ok(&values[0])
    }
}

} // verus!
