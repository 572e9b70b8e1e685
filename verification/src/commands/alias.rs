//! The `alias` command in its older form: a name for an expansion.

use crate::command::{Example, WholeStreamCommand};
use crate::shape::SyntaxShape;
use crate::signature::{PositionalTypeView, Signature, SignatureView};
use crate::value::Value;
use vstd::prelude::*;

verus! {

/// The `alias` command.
pub struct Alias;

impl WholeStreamCommand for Alias {
    open spec fn spec_name(&self) -> Seq<char> {
        "alias"@
    }

    open spec fn spec_usage(&self) -> Seq<char> {
        "Alias a command to an expansion."@
    }

    open spec fn spec_signature(&self) -> SignatureView {
        SignatureView::new("alias"@)
            .with_positional(
                PositionalTypeView::Mandatory("name"@, SyntaxShape::String),
                "the name of the alias"@,
            )
            .with_positional(
                PositionalTypeView::Mandatory("equals"@, SyntaxShape::String),
                "the equals sign"@,
            )
            .with_rest(SyntaxShape::Any, "the expansion for the alias"@)
    }

    fn name(&self) -> (n: &str) {
        "alias"
    }

    fn signature(&self) -> (s: Signature) {
        Signature::build("alias")
            .required("name", SyntaxShape::String, "the name of the alias")
            .required("equals", SyntaxShape::String, "the equals sign")
            .rest(SyntaxShape::Any, "the expansion for the alias")
    }

    fn usage(&self) -> (u: &str) {
        "Alias a command to an expansion."
    }
}

impl Alias {
    /// Command lines that show how the command is used.
    pub fn examples(&self) -> (r: Vec<Example>)
        ensures
            r.len() == 0,
    {
        let mut r: Vec<Example> = Vec::new();

        r
    }
}

/// What the command hands on: nothing. The alias itself is set up while the
/// command line is parsed.
pub fn alias(input: Vec<Value>) -> (out: Vec<Value>)
    ensures
        out@ == Seq::<Value>::empty(),
{
    Vec::new()
}

} // verus!
