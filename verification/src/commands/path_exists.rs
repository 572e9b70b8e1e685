//! The `path exists` command.

use crate::command::{Example, WholeStreamCommand};
use crate::shape::SyntaxShape;
use crate::signature::{Signature, SignatureView};
use crate::value::{bool_view, Primitive, UntaggedValue, Value};
use vstd::prelude::*;

verus! {

/// The `path exists` command.
pub struct PathExists;

impl WholeStreamCommand for PathExists {
    open spec fn spec_name(&self) -> Seq<char> {
        "path exists"@
    }

    open spec fn spec_usage(&self) -> Seq<char> {
        "Checks whether a path exists"@
    }

    open spec fn spec_signature(&self) -> SignatureView {
        SignatureView::new("path exists"@)
            .with_rest(SyntaxShape::ColumnPath, "Optionally operate by column path"@)
    }

    fn name(&self) -> (n: &str) {
        "path exists"
    }

    fn signature(&self) -> (s: Signature) {
        Signature::build("path exists")
            .rest(SyntaxShape::ColumnPath, "Optionally operate by column path")
    }

    fn usage(&self) -> (u: &str) {
        "Checks whether a path exists"
    }
}

impl PathExists {
    /// Command lines that show how the command is used, with what they give.
    pub fn examples(&self) -> (r: Vec<Example>)
        ensures
            r.len() == 1,
            r[0].description@ == "Check if file exists"@,
            r[0].example@ == "echo '/home/joe/todo.txt' | path exists"@,
            r[0].result.deep_view() == Some(seq![bool_view(false)]),
    {
        let mut result: Vec<Value> = Vec::new();
        result.push(Value::from_bool(false));
        assert(result.deep_view() =~= seq![bool_view(false)]);
        let mut r: Vec<Example> = Vec::new();
        r.push(
            Example {
                description: "Check if file exists",
                example: "echo '/home/joe/todo.txt' | path exists",
                result: Some(result),
            },
        );
        r
    }
}

/// What `path exists` gives for one path: whether something is there.
pub fn action(exists: bool) -> (v: UntaggedValue)
    ensures
        v == UntaggedValue::Primitive(Primitive::Boolean(exists)),
{
    UntaggedValue::boolean(exists)
}

} // verus!
