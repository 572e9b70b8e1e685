//! The `path split` command.

use crate::command::{Example, WholeStreamCommand};
use crate::shape::SyntaxShape;
use crate::signature::{Signature, SignatureView};
use crate::commands::insert::{
    found_at, get_data_by_column_path, insert_data_at_column_path, inserted,
};
use crate::errors::{ShellError, ShellErrorView};
use crate::span::{Span, Tag};
use crate::value::{
    expected_string, lemma_table_view, string_view, PrimitiveView, UntaggedValue,
    UntaggedValueView, Value, ValueView,
};
use vstd::prelude::*;

verus! {

/// The `path split` command.
pub struct PathSplit;

impl WholeStreamCommand for PathSplit {
    open spec fn spec_name(&self) -> Seq<char> {
        "path split"@
    }

    open spec fn spec_usage(&self) -> Seq<char> {
        "Split a path into parts along a separator."@
    }

    open spec fn spec_signature(&self) -> SignatureView {
        SignatureView::new("path split"@)
            .with_rest(SyntaxShape::ColumnPath, "Optionally operate by column path"@)
    }

    fn name(&self) -> (n: &str) {
        "path split"
    }

    fn signature(&self) -> (s: Signature) {
        Signature::build("path split")
            .rest(SyntaxShape::ColumnPath, "Optionally operate by column path")
    }

    fn usage(&self) -> (u: &str) {
        "Split a path into parts along a separator."
    }
}

impl PathSplit {
    /// Command lines that show how the command is used, with what they give.
    pub fn examples(&self) -> (r: Vec<Example>)
        ensures
            r.len() == 1,
            r[0].description@ == "Split a path into parts"@,
            r[0].example@ == "echo '/home/viking/spam.txt' | path split"@,
            r[0].result.deep_view() == Some(
                seq![
                    string_view("/"@),
                    string_view("home"@),
                    string_view("viking"@),
                    string_view("spam.txt"@),
                ],
            ),
    {
        let mut result: Vec<Value> = Vec::new();
        result.push(Value::from_string("/"));
        result.push(Value::from_string("home"));
        result.push(Value::from_string("viking"));
        result.push(Value::from_string("spam.txt"));
        assert(result.deep_view() =~= seq![
            string_view("/"@),
            string_view("home"@),
            string_view("viking"@),
            string_view("spam.txt"@),
        ]);
        let mut r: Vec<Example> = Vec::new();
        r.push(
            Example {
                description: "Split a path into parts",
                example: "echo '/home/viking/spam.txt' | path split",
                result: Some(result),
            },
        );
        r
    }
}

/// The views of the parts of a path as strings with the tag `tag`.
pub open spec fn part_views(parts: Seq<Seq<char>>, tag: Tag) -> Seq<ValueView> {
    Seq::new(
        parts.len(),
        |i: int|
            ValueView { value: UntaggedValueView::Primitive(PrimitiveView::String(parts[i])), tag },
    )
}

/// What `path split` gives for one path: the table of its components, each a
/// string with the tag of the path.
pub fn action(components: &Vec<String>, tag: Tag) -> (v: Value)
    ensures
        v.deep_view() == (ValueView {
            value: UntaggedValueView::Table(part_views(components.deep_view(), tag)),
            tag,
        }),
{
    let mut parts: Vec<Value> = Vec::new();
    let mut i: usize = 0;
    assert(parts.deep_view() =~= part_views(components.deep_view(), tag).take(0));
    while i < components.len()
        invariant
            i <= components.len(),
            parts.deep_view() == part_views(components.deep_view(), tag).take(i as int),
        decreases components.len() - i,
    {
        let ghost before = parts.deep_view();
        let part = UntaggedValue::string(components[i].as_str()).into_value(tag);
        assert(part.deep_view().value == part.value.deep_view());
        parts.push(part);
        assert(parts.deep_view() =~= before.push(part.deep_view()));
        assert(parts.deep_view() =~= part_views(components.deep_view(), tag).take(i + 1));
        i += 1;
    }
    assert(part_views(components.deep_view(), tag).take(components.len() as int) =~= part_views(
        components.deep_view(),
        tag,
    ));
    proof {
        lemma_table_view(parts, tag);
    }
    UntaggedValue::table(parts).into_value(tag)
}

/// The parts that a split gave, as rows of their own: the values of the
/// table. Anything but a table is an error at the place of the command.
pub fn split_parts(value: Value, span: Span) -> (r: Result<Vec<Value>, ShellError>)
    ensures
        match r {
            Ok(parts) => value.value == UntaggedValue::Table(parts),
            Err(e) => !(value.value is Table) && e.deep_view() == (ShellErrorView::Labeled {
                msg: "Internal Error"@,
                label: "unexpected result from the split function"@,
                span,
            }),
        },
{
    match value.value {
        UntaggedValue::Table(parts) => Ok(parts),
        _ => Err(
            ShellError::labeled_error(
                "Internal Error",
                "unexpected result from the split function",
                span,
            ),
        ),
    }
}

/// The rows that `path split` hands on for a path that stands by itself:
/// its components, each a string with the tag of the path.
pub fn split_rows(components: &Vec<String>, tag: Tag) -> (rows: Vec<Value>)
    ensures
        rows.deep_view() == part_views(components.deep_view(), tag),
{
    let table = action(components, tag);
    match table.value {
        UntaggedValue::Table(parts) => {
            proof {
                lemma_table_view(parts, tag);
            }
            parts
        },
        _ => Vec::new(),
    }
}

/// The error for a column path that leads to nothing.
pub open spec fn unknown_column(tag: Tag) -> ShellErrorView {
    ShellErrorView::Labeled {
        msg: "Unknown column"@,
        label: "did not find anything under this name"@,
        span: tag.span,
    }
}

/// The text of the path that stands in `v` where the column path leads: an
/// error at the place of `v` if it leads to nothing, an error at the place
/// of what it leads to if that is no text.
pub open spec fn path_in_column(v: ValueView, column: Seq<Seq<char>>) -> Result<
    Seq<char>,
    ShellErrorView,
> {
    match found_at(v, column, 0) {
        Some(cell) => match cell.text() {
            Some(text) => Ok(text),
            None => Err(expected_string(cell.tag.span)),
        },
        None => Err(unknown_column(v.tag)),
    }
}

/// The text of the path that stands in `value` where the column path leads.
pub fn path_at(value: &Value, column: &Vec<String>) -> (r: Result<String, ShellError>)
    ensures
        match r {
            Ok(text) => path_in_column(value.deep_view(), column.deep_view()) == Ok::<
                Seq<char>,
                ShellErrorView,
            >(text@),
            Err(e) => path_in_column(value.deep_view(), column.deep_view()) == Err::<
                Seq<char>,
                ShellErrorView,
            >(e.deep_view()),
        },
{
    match get_data_by_column_path(value, column, 0) {
        Some(cell) => cell.as_string(),
        None => Err(
            ShellError::labeled_error(
                "Unknown column",
                "did not find anything under this name",
                value.tag.span,
            ),
        ),
    }
}

/// `v` with the table of the components of a path in the place of the path
/// to which the column path leads. The parts have the tag of the path.
pub open spec fn with_split_column(
    v: ValueView,
    column: Seq<Seq<char>>,
    components: Seq<Seq<char>>,
) -> Result<ValueView, ShellErrorView> {
    match found_at(v, column, 0) {
        Some(cell) => match inserted(
            v,
            column,
            0,
            ValueView {
                value: UntaggedValueView::Table(part_views(components, cell.tag)),
                tag: cell.tag,
            },
        ) {
            Ok(changed) => Ok(changed),
            Err(_) => Err(unknown_column(v.tag)),
        },
        None => Err(unknown_column(v.tag)),
    }
}

/// Puts the table of the components of a path in the place of the path to
/// which the column path leads in `value`.
pub fn split_column(value: Value, column: &Vec<String>, components: &Vec<String>) -> (r: Result<
    Value,
    ShellError,
>)
    ensures
        match r {
            Ok(v) => with_split_column(
                value.deep_view(),
                column.deep_view(),
                components.deep_view(),
            ) == Ok::<ValueView, ShellErrorView>(v.deep_view()),
            Err(e) => with_split_column(
                value.deep_view(),
                column.deep_view(),
                components.deep_view(),
            ) == Err::<ValueView, ShellErrorView>(e.deep_view()),
        },
{
    let tag = value.tag;
    let parts = match get_data_by_column_path(&value, column, 0) {
        Some(cell) => action(components, cell.tag),
        None => {
            return Err(
                ShellError::labeled_error(
                    "Unknown column",
                    "did not find anything under this name",
                    tag.span,
                ),
            );
        },
    };
    match insert_data_at_column_path(value, column, 0, parts) {
        Ok(changed) => Ok(changed),
        Err(_) => Err(
            ShellError::labeled_error(
                "Unknown column",
                "did not find anything under this name",
                tag.span,
            ),
        ),
    }
}

} // verus!
