//! The `which` command: where a command comes from.

use crate::command::WholeStreamCommand;
use crate::shape::SyntaxShape;
use crate::signature::{NamedType, Signature, SignatureView};
use crate::errors::{ShellError, ShellErrorView};
use crate::scope::{command_in, Scope};
use crate::span::Tag;
use crate::value::{
    lemma_row_view, Dictionary, Primitive, PrimitiveView, UntaggedValue, UntaggedValueView, Value,
    ValueView,
};
use vstd::prelude::*;

verus! {

/// The `which` command.
pub struct Which;

/// The arguments of `which`.
#[derive(Debug, PartialEq, Eq)]
pub struct WhichArgs {
    /// The name that is looked for, with its place in the source.
    pub bin: String,
    pub bin_tag: Tag,
    pub all: bool,
}

impl WholeStreamCommand for Which {
    open spec fn spec_name(&self) -> Seq<char> {
        "which"@
    }

    open spec fn spec_usage(&self) -> Seq<char> {
        "Finds a program file."@
    }

    open spec fn spec_signature(&self) -> SignatureView {
        SignatureView::new("which"@)
            .with_named("all"@, NamedType::Switch(None), "list all executables"@)
            .with_rest(SyntaxShape::String, "the names of the commands to find the path to"@)
    }

    fn name(&self) -> (n: &str) {
        "which"
    }

    fn signature(&self) -> (s: Signature) {
        Signature::build("which")
            .switch("all", "list all executables", None)
            .rest(SyntaxShape::String, "the names of the commands to find the path to")
    }

    fn usage(&self) -> (u: &str) {
        "Finds a program file."
    }
}

/// The view of a row of the output: what was asked for, where it was found,
/// and whether it is built in. The row and its cells that are made here have
/// the tag `tag`.
pub open spec fn entry_view(arg: Seq<char>, path: ValueView, builtin: bool, tag: Tag) -> ValueView {
    ValueView {
        value: UntaggedValueView::Row(
            seq![
                (
                    "arg"@,
                    ValueView {
                        value: UntaggedValueView::Primitive(PrimitiveView::String(arg)),
                        tag,
                    },
                ),
                ("path"@, path),
                (
                    "builtin"@,
                    ValueView {
                        value: UntaggedValueView::Primitive(PrimitiveView::Boolean(builtin)),
                        tag,
                    },
                ),
            ],
        ),
        tag,
    }
}

/// A row of the output.
pub fn entry(arg: &str, path: Value, builtin: bool, tag: Tag) -> (v: Value)
    ensures
        v.deep_view() == entry_view(arg@, path.deep_view(), builtin, tag),
{
    let mut map: Vec<(String, Value)> = Vec::new();
    let a = ("arg".to_owned(), UntaggedValue::string(arg).into_value(tag));
    assert(a.1.deep_view().value == a.1.value.deep_view());
    assert(a.deep_view() == (a.0@, a.1.deep_view()));
    let p = ("path".to_owned(), path);
    assert(p.deep_view() == (p.0@, p.1.deep_view()));
    let b = ("builtin".to_owned(), UntaggedValue::boolean(builtin).into_value(tag));
    assert(b.deep_view() == (b.0@, b.1.deep_view()));
    map.push(a);
    map.push(p);
    map.push(b);
    let d = Dictionary { entries: map };
    assert(d.deep_view() =~= entry_view(arg@, path.deep_view(), builtin, tag).value->Row_0);
    proof {
        lemma_row_view(d, tag);
    }
    Value { value: UntaggedValue::Row(d), tag }
}

/// The view of the row for a command that is built in.
pub open spec fn builtin_view(arg: Seq<char>, tag: Tag) -> ValueView {
    entry_view(
        arg,
        ValueView {
            value: UntaggedValueView::Primitive(PrimitiveView::String("nushell built-in command"@)),
            tag,
        },
        true,
        tag,
    )
}

/// The view of the row for a program that was found at `path`.
pub open spec fn path_view(arg: Seq<char>, path: Seq<char>, tag: Tag) -> ValueView {
    entry_view(
        arg,
        ValueView { value: UntaggedValueView::Primitive(PrimitiveView::Path(path)), tag },
        false,
        tag,
    )
}

/// The error for a name that is neither built in nor a program.
pub open spec fn not_found(tag: Tag) -> ShellErrorView {
    ShellErrorView::Labeled {
        msg: "Binary not found for argument, and argument is not a builtin"@,
        label: "not found"@,
        span: tag.span,
    }
}

/// The row for `bin` if it is a command of the scope.
pub fn which_builtin(bin: &str, tag: Tag, scope: &Scope) -> (r: Option<Value>)
    ensures
        r.deep_view() == if command_in(scope.frames(), bin@) is Some {
            Some(builtin_view(bin@, tag))
        } else {
            None
        },
{
    if scope.has_command(bin) {
        let path = UntaggedValue::string("nushell built-in command").into_value(tag);
        assert(path.deep_view().value == path.value.deep_view());
        Some(entry(bin, path, true, tag))
    } else {
        None
    }
}

/// The row for a name that is no command of the scope: where the program of
/// that name was found, or an error if none was found.
pub fn which_external(bin: &str, tag: Tag, found: Option<String>) -> (r: Result<Value, ShellError>)
    ensures
        match r {
            Ok(v) => found matches Some(path) && v.deep_view() == path_view(bin@, path@, tag),
            Err(e) => found is None && e.deep_view() == not_found(tag),
        },
{
    match found {
        Some(path) => {
            let p = Value { value: UntaggedValue::Primitive(Primitive::Path(path)), tag };
            Ok(entry(bin, p, false, tag))
        },
        None => Err(
            ShellError::labeled_error(
                "Binary not found for argument, and argument is not a builtin",
                "not found",
                tag.span,
            ),
        ),
    }
}

} // verus!
