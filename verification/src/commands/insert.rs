//! The `insert` command: a new column with a given value.

use crate::command::WholeStreamCommand;
use crate::shape::SyntaxShape;
use crate::signature::{PositionalTypeView, Signature, SignatureView};
use crate::errors::{ShellError, ShellErrorView};
use crate::span::Tag;
use crate::value::{
    cell, lemma_row_view, Dictionary, UntaggedValue, UntaggedValueView, Value, ValueView,
};
use vstd::prelude::*;

verus! {

/// The `insert` command.
pub struct Insert;

/// The arguments of `insert`.
#[derive(Debug, PartialEq, Eq)]
pub struct InsertArgs {
    /// The path to the new cell: the names of the cells to go through, and
    /// last the name of the new cell.
    pub column: Vec<String>,
    pub value: Value,
}

impl WholeStreamCommand for Insert {
    open spec fn spec_name(&self) -> Seq<char> {
        "insert"@
    }

    open spec fn spec_usage(&self) -> Seq<char> {
        "Insert a new column with a given value."@
    }

    open spec fn spec_signature(&self) -> SignatureView {
        SignatureView::new("insert"@)
            .with_positional(
                PositionalTypeView::Mandatory("column"@, SyntaxShape::ColumnPath),
                "the column name to insert"@,
            )
            .with_positional(
                PositionalTypeView::Mandatory("value"@, SyntaxShape::String),
                "the value to give the cell(s)"@,
            )
    }

    fn name(&self) -> (n: &str) {
        "insert"
    }

    fn signature(&self) -> (s: Signature) {
        Signature::build("insert")
            .required("column", SyntaxShape::ColumnPath, "the column name to insert")
            .required("value", SyntaxShape::String, "the value to give the cell(s)")
    }

    fn usage(&self) -> (u: &str) {
        "Insert a new column with a given value."
    }
}

/// Why a value cannot be put at a path.
#[derive(Clone, Copy, Debug, PartialEq, Eq, Structural)]
pub enum PathError {
    /// The path names nothing.
    EmptyPath,
    /// What the path leads through is no row.
    NotARow,
    /// A cell that the path leads through is not there.
    MissingCell,
}

/// `entries` with the first cell called `name` set to `value`, or with such
/// a cell added behind if there is none.
pub open spec fn with_cell(
    entries: Seq<(Seq<char>, ValueView)>,
    name: Seq<char>,
    value: ValueView,
) -> Seq<(Seq<char>, ValueView)>
    decreases entries.len(),
{
    if entries.len() == 0 {
        seq![(name, value)]
    } else if entries[0].0 == name {
        seq![(name, value)] + entries.drop_first()
    } else {
        seq![entries[0]] + with_cell(entries.drop_first(), name, value)
    }
}

/// The row `v` with `new` put at the path `path[from..]`: the last name of the
/// path names the cell that is set or added; the names before it name the
/// cells, rows themselves, through which the way leads.
pub open spec fn inserted(v: ValueView, path: Seq<Seq<char>>, from: int, new: ValueView) -> Result<
    ValueView,
    PathError,
>
    decreases path.len() - from,
{
    if from < 0 || from >= path.len() {
        Err(PathError::EmptyPath)
    } else {
        match v.value {
            UntaggedValueView::Row(entries) => if from == path.len() - 1 {
                Ok(
                    ValueView {
                        value: UntaggedValueView::Row(with_cell(entries, path[from], new)),
                        tag: v.tag,
                    },
                )
            } else {
                match cell(entries, path[from]) {
                    None => Err(PathError::MissingCell),
                    Some(inner) => match inserted(inner, path, from + 1, new) {
                        Err(e) => Err(e),
                        Ok(changed) => Ok(
                            ValueView {
                                value: UntaggedValueView::Row(
                                    with_cell(entries, path[from], changed),
                                ),
                                tag: v.tag,
                            },
                        ),
                    },
                }
            },
            _ => Err(PathError::NotARow),
        }
    }
}

/// Sets the first cell called `name` to `value`, or adds such a cell behind.
fn set_cell(entries: &mut Vec<(String, Value)>, name: &str, value: Value)
    ensures
        final(entries).deep_view() == with_cell(old(entries).deep_view(), name@, value.deep_view()),
{
    let ghost before = entries.deep_view();
    let ghost target = with_cell(before, name@, value.deep_view());
    let mut i: usize = 0;
    assert(before.skip(0) =~= before);
    while i < entries.len()
        invariant
            i <= entries.len(),
            entries.deep_view() == before,
            before == old(entries).deep_view(),
            target == with_cell(before, name@, value.deep_view()),
            target == before.take(i as int) + with_cell(
                before.skip(i as int),
                name@,
                value.deep_view(),
            ),
        decreases entries.len() - i,
    {
        let ghost rest = before.skip(i as int);
        assert(rest[0] == before[i as int]);
        assert(before[i as int].0 == entries@[i as int].0@);
        assert(rest.drop_first() =~= before.skip(i + 1));
        if crate::text::same_text(entries[i].0.as_str(), name) {
            let ghost vv = value.deep_view();
            assert(with_cell(rest, name@, vv) == seq![(name@, vv)] + rest.drop_first());
            let e = (name.to_owned(), value);
            assert(e.deep_view() == (e.0@, e.1.deep_view()));
            entries.set(i, e);
            assert(entries.deep_view() =~= before.take(i as int) + (seq![(name@, vv)]
                + before.skip(i + 1)));
            return;
        }
        assert(before.take(i + 1) + with_cell(before.skip(i + 1), name@, value.deep_view())
            =~= before.take(i as int) + (seq![rest[0]] + with_cell(
            rest.drop_first(),
            name@,
            value.deep_view(),
        )));
        i += 1;
    }
    assert(before.skip(entries.len() as int) =~= Seq::empty());
    let e = (name.to_owned(), value);
    assert(e.deep_view() == (e.0@, e.1.deep_view()));
    entries.push(e);
    assert(entries.deep_view() =~= before + seq![(name@, value.deep_view())]);
    assert(before.take(before.len() as int) =~= before);
}

/// The position of the first cell called `name`.
fn find_cell(entries: &Vec<(String, Value)>, name: &str) -> (r: Option<usize>)
    ensures
        match r {
            Some(i) => i < entries.len() && cell(entries.deep_view(), name@) == Some(
                entries@[i as int].1.deep_view(),
            ),
            None => cell(entries.deep_view(), name@) is None,
        },
{
    let ghost all = entries.deep_view();
    let mut i: usize = 0;
    assert(all.skip(0) =~= all);
    while i < entries.len()
        invariant
            i <= entries.len(),
            all == entries.deep_view(),
            cell(all.skip(i as int), name@) == cell(all, name@),
        decreases entries.len() - i,
    {
        assert(all.skip(i as int).drop_first() =~= all.skip(i + 1));
        assert(all.skip(i as int)[0] == all[i as int]);
        assert(all[i as int] == (entries@[i as int].0@, entries@[i as int].1.deep_view()));
        if crate::text::same_text(entries[i].0.as_str(), name) {
            return Some(i);
        }
        i += 1;
    }
    None
}

/// The value that the path `path[from..]` leads to in `v`: each name of the
/// path names a cell of the row that the way has reached. Where the way
/// reaches something that is no row, or a row without the cell, it leads to
/// nothing.
pub open spec fn found_at(v: ValueView, path: Seq<Seq<char>>, from: int) -> Option<ValueView>
    decreases path.len() - from,
{
    if from < 0 || from >= path.len() {
        Some(v)
    } else {
        match v.value {
            UntaggedValueView::Row(entries) => match cell(entries, path[from]) {
                Some(inner) => found_at(inner, path, from + 1),
                None => None,
            },
            _ => None,
        }
    }
}

/// The value that the path `path[from..]` leads to in `value`.
pub fn get_data_by_column_path<'a>(value: &'a Value, path: &Vec<String>, from: usize) -> (r: Option<
    &'a Value,
>)
    ensures
        match r {
            Some(v) => found_at(value.deep_view(), path.deep_view(), from as int) == Some(
                v.deep_view(),
            ),
            None => found_at(value.deep_view(), path.deep_view(), from as int) is None,
        },
    decreases path.len() - from,
{
    if from >= path.len() {
        return Some(value);
    }
    assert(path.deep_view()[from as int] == path@[from as int]@);
    match &value.value {
        UntaggedValue::Row(d) => {
            proof {
                lemma_row_view(*d, value.tag);
            }
            assert(d.entries.deep_view() =~= d.deep_view());
            match find_cell(&d.entries, path[from].as_str()) {
                Some(i) => get_data_by_column_path(&d.entries[i].1, path, from + 1),
                None => None,
            }
        },
        _ => None,
    }
}

/// Puts `new` into the row `value` at the path `path[from..]`.
pub fn insert_data_at_column_path(value: Value, path: &Vec<String>, from: usize, new: Value) -> (r:
    Result<Value, PathError>)
    ensures
        match r {
            Ok(v) => inserted(value.deep_view(), path.deep_view(), from as int, new.deep_view())
                == Ok::<ValueView, PathError>(v.deep_view()),
            Err(e) => inserted(value.deep_view(), path.deep_view(), from as int, new.deep_view())
                == Err::<ValueView, PathError>(e),
        },
    decreases path.len() - from,
{
    if from >= path.len() {
        return Err(PathError::EmptyPath);
    }
    let tag = value.tag;
    let ghost vv = value.deep_view();
    assert(path.deep_view()[from as int] == path@[from as int]@);
    match value.value {
        UntaggedValue::Row(d) => {
            proof {
                lemma_row_view(d, tag);
            }
            let mut entries = d.entries;
            assert(entries.deep_view() =~= d.deep_view());
            if from == path.len() - 1 {
                set_cell(&mut entries, path[from].as_str(), new);
                let d2 = Dictionary { entries };
                assert(d2.deep_view() =~= entries.deep_view());
                proof {
                    lemma_row_view(d2, tag);
                }
                Ok(Value { value: UntaggedValue::Row(d2), tag })
            } else {
                match find_cell(&entries, path[from].as_str()) {
                    None => Err(PathError::MissingCell),
                    Some(i) => {
                        let inner = entries[i].1.clone();
                        match insert_data_at_column_path(inner, path, from + 1, new) {
                            Err(e) => Err(e),
                            Ok(changed) => {
                                set_cell(&mut entries, path[from].as_str(), changed);
                                let d2 = Dictionary { entries };
                                assert(d2.deep_view() =~= entries.deep_view());
                                proof {
                                    lemma_row_view(d2, tag);
                                }
                                Ok(Value { value: UntaggedValue::Row(d2), tag })
                            },
                        }
                    },
                }
            }
        },
        _ => Err(PathError::NotARow),
    }
}

/// The error for a value of the input that is no row.
pub open spec fn unrecognized(tag: Tag) -> ShellErrorView {
    ShellErrorView::Labeled {
        msg: "Unrecognized type in stream"@,
        label: "original value"@,
        span: tag.span,
    }
}

/// The error for a path at which nothing can be put.
pub open spec fn no_place(tag: Tag) -> ShellErrorView {
    ShellErrorView::Labeled {
        msg: "Could not insert the value at the column path"@,
        label: "column path"@,
        span: tag.span,
    }
}

/// What `insert` hands on for one value of its input: the row with the new
/// cell. A value that is no row is an error, and so is a path that does not
/// lead through rows.
pub fn insert(args: &InsertArgs, row: Value) -> (r: Result<Value, ShellError>)
    ensures
        match r {
            Ok(v) => row.value is Row && inserted(
                row.deep_view(),
                args.column.deep_view(),
                0,
                args.value.deep_view(),
            ) == Ok::<ValueView, PathError>(v.deep_view()),
            Err(e) => if row.value is Row {
                inserted(row.deep_view(), args.column.deep_view(), 0, args.value.deep_view()) is Err
                    && e.deep_view() == no_place(row.tag)
            } else {
                e.deep_view() == unrecognized(row.tag)
            },
        },
{
    let tag = row.tag;
    if row.is_row() {
        match insert_data_at_column_path(row, &args.column, 0, args.value.clone()) {
            Ok(v) => Ok(v),
            Err(_) => Err(
                ShellError::labeled_error(
                    "Could not insert the value at the column path",
                    "column path",
                    tag.span,
                ),
            ),
        }
    } else {
        Err(ShellError::labeled_error("Unrecognized type in stream", "original value", tag.span))
    }
}

} // verus!
