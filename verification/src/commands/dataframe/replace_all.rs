//! The `dataframe replace-all` command.

use crate::command::{Example, WholeStreamCommand};
use crate::shape::SyntaxShape;
use crate::signature::{NamedType, Signature, SignatureView};
use vstd::prelude::*;

verus! {

/// The `dataframe replace-all` command.
pub struct DataFrame;

impl WholeStreamCommand for DataFrame {
    open spec fn spec_name(&self) -> Seq<char> {
        "dataframe replace-all"@
    }

    open spec fn spec_usage(&self) -> Seq<char> {
        "[Series] Replace all (sub)strings by a regex pattern"@
    }

    open spec fn spec_signature(&self) -> SignatureView {
        SignatureView::new("dataframe replace"@)
            .with_named(
                "pattern"@,
                NamedType::Mandatory(Some('p'), SyntaxShape::String),
                "Regex pattern to be matched"@,
            )
            .with_named(
                "replace"@,
                NamedType::Mandatory(Some('r'), SyntaxShape::String),
                "replacing string"@,
            )
    }

    fn name(&self) -> (n: &str) {
        "dataframe replace-all"
    }

    fn signature(&self) -> (s: Signature) {
        Signature::build("dataframe replace")
            .required_named(
                "pattern",
                SyntaxShape::String,
                "Regex pattern to be matched",
                Some('p'),
            )
            .required_named("replace", SyntaxShape::String, "replacing string", Some('r'))
    }

    fn usage(&self) -> (u: &str) {
        "[Series] Replace all (sub)strings by a regex pattern"
    }
}

impl DataFrame {
    /// Command lines that show how the command is used.
    pub fn examples(&self) -> (r: Vec<Example>)
        ensures
            r.len() == 1,
            r[0].description@ == "Replaces string"@
                && r[0].example@ == "[abac abac abac] | dataframe to-df | dataframe replace-all -p a -r A"@
                && r[0].result is None,
    {
        let mut r: Vec<Example> = Vec::new();
        r.push(
            Example {
                description: "Replaces string",
                example: "[abac abac abac] | dataframe to-df | dataframe replace-all -p a -r A",
                result: None,
            },
        );
        r
    }
}

} // verus!
