//! The `shuffle` command: the rows of the input in random order.

use crate::command::WholeStreamCommand;
use crate::signature::{Signature, SignatureView};
use crate::value::Value;
use rand::seq::SliceRandom;
use vstd::prelude::*;

verus! {

/// The `shuffle` command.
pub struct Shuffle;

impl WholeStreamCommand for Shuffle {
    open spec fn spec_name(&self) -> Seq<char> {
        "shuffle"@
    }

    open spec fn spec_usage(&self) -> Seq<char> {
        "Shuffle rows randomly."@
    }

    open spec fn spec_signature(&self) -> SignatureView {
        SignatureView::new("shuffle"@).described("Shuffle rows randomly."@).filtered()
    }

    fn name(&self) -> (n: &str) {
        "shuffle"
    }

    fn signature(&self) -> (s: Signature) {
        Signature::build("shuffle").desc("Shuffle rows randomly.").filter()
    }

    fn usage(&self) -> (u: &str) {
        "Shuffle rows randomly."
    }
}

/// `SliceRandom::shuffle` with `thread_rng`: the values are swapped among
/// themselves in place. Which order comes out is left to chance; the values
/// are the same ones, each as often as before.
#[verifier::external_body]
fn shuffle_in_place(values: &mut Vec<Value>)
    ensures
        final(values)@.to_multiset() == old(values)@.to_multiset(),
{
    values.shuffle(&mut rand::thread_rng());
}

/// Hands on the rows of the input in an order that is left to chance.
pub fn shuffle(input: Vec<Value>) -> (out: Vec<Value>)
    ensures
        out@.to_multiset() == input@.to_multiset(),
        out.len() == input.len(),
{
    let mut values = input;
    shuffle_in_place(&mut values);
    proof {
        values@.to_multiset_ensures();
        input@.to_multiset_ensures();
    }
    values
}

} // verus!
