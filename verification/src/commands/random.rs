//! The `random` command: the parent of the commands that give random values.

use crate::command::WholeStreamCommand;
use crate::signature::{Signature, SignatureView};
use vstd::prelude::*;

verus! {

/// The `random` command.
pub struct Command;

impl WholeStreamCommand for Command {
    open spec fn spec_name(&self) -> Seq<char> {
        "random"@
    }

    open spec fn spec_usage(&self) -> Seq<char> {
        "Generate random values"@
    }

    open spec fn spec_signature(&self) -> SignatureView {
        SignatureView::new("random"@)
    }

    fn name(&self) -> (n: &str) {
        "random"
    }

    fn signature(&self) -> (s: Signature) {
        Signature::build("random")
    }

    fn usage(&self) -> (u: &str) {
        "Generate random values"
    }
}

} // verus!
