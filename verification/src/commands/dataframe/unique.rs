//! The `dataframe unique` command.

use crate::command::{Example, WholeStreamCommand};
use crate::signature::{Signature, SignatureView};
use vstd::prelude::*;

verus! {

/// The `dataframe unique` command.
pub struct DataFrame;

impl WholeStreamCommand for DataFrame {
    open spec fn spec_name(&self) -> Seq<char> {
        "dataframe unique"@
    }

    open spec fn spec_usage(&self) -> Seq<char> {
        "[Series] Returns unique values from a series"@
    }

    open spec fn spec_signature(&self) -> SignatureView {
        SignatureView::new("dataframe unique"@)
    }

    fn name(&self) -> (n: &str) {
        "dataframe unique"
    }

    fn signature(&self) -> (s: Signature) {
        Signature::build("dataframe unique")
    }

    fn usage(&self) -> (u: &str) {
        "[Series] Returns unique values from a series"
    }
}

impl DataFrame {
    /// Command lines that show how the command is used.
    pub fn examples(&self) -> (r: Vec<Example>)
        ensures
            r.len() == 1,
            r[0].description@ == "Returns unique values from a series"@
                && r[0].example@ == "[1 2 2 3 3] | dataframe to-df | dataframe unique"@
                && r[0].result is None,
    {
        let mut r: Vec<Example> = Vec::new();
        r.push(
            Example {
                description: "Returns unique values from a series",
                example: "[1 2 2 3 3] | dataframe to-df | dataframe unique",
                result: None,
            },
        );
        r
    }
}

} // verus!
