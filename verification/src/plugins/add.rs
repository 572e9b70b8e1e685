//! The `add` plugin: adds a field with a given value to every row.

use crate::command::CallInfo;
use crate::commands::insert::{insert_data_at_column_path, inserted};
use crate::errors::{ShellError, ShellErrorView};
use crate::ps::{join, joined};
use crate::shape::SyntaxShape;
use crate::signature::{PositionalTypeView, Signature, SignatureView};
use crate::value::{UntaggedValue, UntaggedValueView, Value, ValueView};
use vstd::prelude::*;
use vstd::string::StringExecFns;

verus! {

/// The path to a cell: the names of the cells to go through, and last the
/// name of the cell itself.
pub type ColumnPath = Vec<String>;

/// The `add` plugin with what it was asked to add.
#[derive(Debug, PartialEq, Eq)]
pub struct Add {
    pub field: Option<ColumnPath>,
    pub value: Option<Value>,
}

/// The error for a field that cannot be put where the path says.
pub open spec fn no_place(path: Seq<Seq<char>>) -> ShellErrorView {
    ShellErrorView::UntaggedRuntime {
        reason: "add could not find place to insert field "@ + joined(path, seq!['.']),
    }
}

/// The error for a value without the name of its field.
pub open spec fn no_column() -> ShellErrorView {
    ShellErrorView::UntaggedRuntime {
        reason: "add needs a column name when adding a value to a table"@,
    }
}

/// The error for something that is no row.
pub open spec fn unrecognized() -> ShellErrorView {
    ShellErrorView::UntaggedRuntime { reason: "Unrecognized type in stream"@ }
}

/// The error for a field that is not given as a table of names.
pub open spec fn bad_field() -> ShellErrorView {
    ShellErrorView::UntaggedRuntime { reason: "Unrecognized type in params"@ }
}

/// What the plugin makes of a value of its input: a row gets the field, if a
/// value and the name of its field are set; anything else is an error.
pub open spec fn added(
    field: Option<Seq<Seq<char>>>,
    value: Option<ValueView>,
    input: ValueView,
) -> Result<ValueView, ShellErrorView> {
    if input.value is Row && value is Some {
        match field {
            Some(f) => match inserted(input, f, 0, value->0) {
                Ok(v) => Ok(v),
                Err(_) => Err(no_place(f)),
            },
            None => Err(no_column()),
        }
    } else {
        Err(unrecognized())
    }
}

/// The names that a table of strings holds, if it is one.
pub open spec fn column_path_of(v: ValueView) -> Option<Seq<Seq<char>>> {
    match v.value {
        UntaggedValueView::Table(items) => if forall|i: int|
            0 <= i < items.len() ==> (#[trigger] items[i]).text() is Some {
            Some(Seq::new(items.len(), |i: int| items[i].text()->0))
        } else {
            None
        },
        _ => None,
    }
}

/// The names that a table of strings holds.
pub fn as_column_path(v: &Value) -> (r: Option<ColumnPath>)
    ensures
        r.deep_view() == column_path_of(v.deep_view()),
{
    match &v.value {
        UntaggedValue::Table(items) => {
            proof {
                crate::value::lemma_table_view(*items, v.tag);
            }
            let mut path: Vec<String> = Vec::new();
            let ghost all = items.deep_view();
            let mut i: usize = 0;
            while i < items.len()
                invariant
                    i <= items.len(),
                    all == items.deep_view(),
                    v.deep_view().value == UntaggedValueView::Table(all),
                    path.len() == i,
                    forall|j: int| 0 <= j < i ==> (#[trigger] all[j]).text() == Some(path@[j]@),
                decreases items.len() - i,
            {
                assert(all[i as int] == items@[i as int].deep_view());
                match items[i].as_string() {
                    Ok(s) => {
                        path.push(s);
                    },
                    Err(_) => {
                        assert(all[i as int].text() is None);
                        return None;
                    },
                }
                i += 1;
            }
            assert(path.deep_view() =~= column_path_of(v.deep_view())->0);
            Some(path)
        },
        _ => None,
    }
}

impl Add {
    /// The plugin before it is told what to add.
    pub fn new() -> (a: Add)
        ensures
            a.field is None,
            a.value is None,
    {
        Add { field: None, value: None }
    }

    /// Adds the field to the row `value`.
    pub fn add(&self, value: Value) -> (r: Result<Value, ShellError>)
        ensures
            match r {
                Ok(v) => added(self.field.deep_view(), self.value.deep_view(), value.deep_view())
                    == Ok::<ValueView, ShellErrorView>(v.deep_view()),
                Err(e) => added(self.field.deep_view(), self.value.deep_view(), value.deep_view())
                    == Err::<ValueView, ShellErrorView>(e.deep_view()),
            },
    {
        if !value.is_row() {
            return Err(ShellError::untagged_runtime_error("Unrecognized type in stream"));
        }
        match &self.value {
            Some(v) => match &self.field {
                Some(f) => {
                    match insert_data_at_column_path(value, f, 0, v.clone()) {
                        Ok(changed) => Ok(changed),
                        Err(_) => {
                            let mut reason = "add could not find place to insert field ".to_owned();
                            let mut dot = String::new();
                            dot.push('.');
                            assert(dot@ =~= seq!['.']);
                            let path = join(f, dot.as_str());
                            reason.append(path.as_str());
                            Err(ShellError::UntaggedRuntime { reason })
                        },
                    }
                },
                None => Err(
                    ShellError::untagged_runtime_error(
                        "add needs a column name when adding a value to a table",
                    ),
                ),
            },
            None => Err(ShellError::untagged_runtime_error("Unrecognized type in stream")),
        }
    }

    /// The signature under which the plugin is called.
    pub fn config(&mut self) -> (s: Signature)
        ensures
            *final(self) == *old(self),
            s.deep_view() == SignatureView::new("add"@).described(
                "Add a new field to the table."@,
            ).with_positional(
                PositionalTypeView::Mandatory("Field"@, SyntaxShape::ColumnPath),
                ""@,
            ).with_positional(PositionalTypeView::Mandatory("Value"@, SyntaxShape::String), ""@).with_rest(
                SyntaxShape::String,
                ""@,
            ).filtered(),
    {
        Signature::build("add").desc("Add a new field to the table.").required(
            "Field",
            SyntaxShape::ColumnPath,
            "",
        ).required("Value", SyntaxShape::String, "").rest(SyntaxShape::String, "").filter()
    }

    /// Takes what to add from the call: its first argument names the field,
    /// its second is the value. A call without arguments sets nothing. Where
    /// there are arguments, there must be two.
    pub fn begin_filter(&mut self, call_info: CallInfo) -> (r: Result<(), ShellError>)
        requires
            call_info.args.positional matches Some(args) ==> args.len() >= 2,
        ensures
            match call_info.args.positional {
                None => r is Ok && *final(self) == *old(self),
                Some(args) => match column_path_of(args[0].deep_view()) {
                    Some(path) => r is Ok && final(self).field.deep_view() == Some(path)
                        && final(self).value.deep_view() == Some(args[1].deep_view()),
                    None => (r matches Err(e) && e.deep_view() == bad_field()) && *final(self)
                        == *old(self),
                },
            },
    {
        match call_info.args.positional {
            Some(args) => {
                match as_column_path(&args[0]) {
                    Some(path) => {
                        self.field = Some(path);
                    },
                    None => {
                        return Err(
                            ShellError::untagged_runtime_error("Unrecognized type in params"),
                        );
                    },
                }
                self.value = Some(args[1].clone());
                Ok(())
            },
            None => Ok(()),
        }
    }

    /// What the plugin hands on for a value of its input: the row with the
    /// new field.
    pub fn filter(&mut self, input: Value) -> (r: Result<Vec<Value>, ShellError>)
        ensures
            *final(self) == *old(self),
            match r {
                Ok(out) => out.len() == 1 && added(
                    old(self).field.deep_view(),
                    old(self).value.deep_view(),
                    input.deep_view(),
                ) == Ok::<ValueView, ShellErrorView>(out[0].deep_view()),
                Err(e) => added(old(self).field.deep_view(), old(self).value.deep_view(), input.deep_view())
                    == Err::<ValueView, ShellErrorView>(e.deep_view()),
            },
    {
        match self.add(input) {
            Ok(v) => {
                let mut out: Vec<Value> = Vec::new();
                out.push(v);
                Ok(out)
            },
            Err(e) => Err(e),
        }
    }
}

} // verus!
