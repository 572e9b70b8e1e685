//! Running an alias: the arguments of the call are bound for its block.

use crate::command::Example;
use crate::hir::Block;
use crate::scope::{with_var, FrameView, Scope};
use crate::signature::{PositionalTypeView, Signature, SignatureView};
use crate::span::{Span, Tag};
use crate::value::{lemma_table_view, UntaggedValue, UntaggedValueView, Value, ValueView};
use vstd::prelude::*;

verus! {

/// A command that stands for a block of code: what an alias is registered
/// as.
#[derive(Debug, PartialEq, Eq)]
pub struct AliasCommand {
    sig: Signature,
    block: Block,
}

/// The frames after the first `n` parameters were bound to the arguments in
/// the same places, in the innermost frame.
pub open spec fn bound_params(
    frames: Seq<FrameView>,
    params: Seq<(PositionalTypeView, Seq<char>)>,
    args: Seq<ValueView>,
    n: int,
) -> Seq<FrameView>
    decreases n,
{
    if n <= 0 {
        frames
    } else {
        with_var(bound_params(frames, params, args, n - 1), params[n - 1].0.name(), args[n - 1])
    }
}

/// The table of the arguments from `from` on, tagged from the first of them
/// to the last.
pub open spec fn rest_value(args: Seq<ValueView>, from: int) -> ValueView {
    ValueView {
        value: UntaggedValueView::Table(args.skip(from)),
        tag: Tag { span: Span { start: args[from].tag.span.start, end: args.last().tag.span.end } },
    }
}

/// The frames after the arguments `args` of a call of the alias were bound:
/// each parameter to the argument in its place, and the rest parameter, if
/// there is one and arguments are left, to the table of those. The rest
/// parameter is bound under its description, which holds its name.
pub open spec fn bound(frames: Seq<FrameView>, sig: SignatureView, args: Seq<ValueView>) -> Seq<
    FrameView,
> {
    let n = sig.positional.len() as int;
    let with_params = bound_params(frames, sig.positional, args, n);
    match sig.rest_positional {
        Some((_, desc)) => if n < args.len() {
            with_var(with_params, desc, rest_value(args, n))
        } else {
            with_params
        },
        None => with_params,
    }
}

impl AliasCommand {
    pub closed spec fn sig(&self) -> Signature {
        self.sig
    }

    pub closed spec fn block(&self) -> Block {
        self.block
    }

    pub fn new(sig: Signature, block: Block) -> (c: AliasCommand)
        ensures
            c.sig() == sig,
            c.block() == block,
    {
        AliasCommand { sig, block }
    }

    /// The name by which the alias is called.
    pub fn name(&self) -> (n: &str)
        ensures
            n@ == self.sig().name@,
    {
        self.sig.name.as_str()
    }

    /// The parameters of the alias.
    pub fn signature(&self) -> (s: &Signature)
        ensures
            *s == self.sig(),
    {
        &self.sig
    }

    /// The block that is run in place of the alias.
    pub fn body(&self) -> (b: &Block)
        ensures
            *b == self.block(),
    {
        &self.block
    }

    pub fn usage(&self) -> (u: &str)
        ensures
            u@ == ""@,
    {
        ""
    }

    pub fn is_binary(&self) -> (b: bool)
        ensures
            !b,
    {
        false
    }

    pub fn examples(&self) -> (r: Vec<Example>)
        ensures
            r.len() == 0,
    {
        Vec::new()
    }

    /// Binds the arguments of a call in the innermost frame of `scope`, for
    /// the block to run in. There must be an argument for every parameter.
    pub fn bind_arguments(&self, positional: &Vec<Value>, scope: &mut Scope)
        requires
            positional.len() >= self.sig().positional.len(),
        ensures
            final(scope).frames() == bound(
                old(scope).frames(),
                self.sig().deep_view(),
                positional.deep_view(),
            ),
    {
        let ghost start = scope.frames();
        let ghost params = self.sig.deep_view().positional;
        let ghost args = positional.deep_view();
        let n = self.sig.positional.len();
        let mut idx: usize = 0;
        while idx < n
            invariant
                idx <= n,
                n == self.sig.positional.len(),
                n <= positional.len(),
                params == self.sig.deep_view().positional,
                args == positional.deep_view(),
                scope.frames() == bound_params(start, params, args, idx as int),
            decreases n - idx,
        {
            let arg = positional[idx].clone();
            assert(params[idx as int] == self.sig.positional@[idx as int].deep_view());
            assert(self.sig.positional@[idx as int].deep_view() == (
                self.sig.positional@[idx as int].0.deep_view(),
                self.sig.positional@[idx as int].1@,
            ));
            let name = self.sig.positional[idx].0.name();
            scope.add_var(name, arg);
            idx += 1;
        }
        match &self.sig.rest_positional {
            Some(rest) => {
                assert(self.sig.rest_positional.deep_view() == Some(rest.deep_view()));
                assert(rest.deep_view() == (rest.0, rest.1@));
                if n < positional.len() {
                    let mut values: Vec<Value> = Vec::new();
                    let mut k: usize = n;
                    assert(values.deep_view() =~= args.subrange(n as int, n as int));
                    while k < positional.len()
                        invariant
                            n <= k <= positional.len(),
                            args == positional.deep_view(),
                            values.deep_view() == args.subrange(n as int, k as int),
                        decreases positional.len() - k,
                    {
                        let ghost before = values.deep_view();
                        let v = positional[k].clone();
                        values.push(v);
                        assert(values.deep_view() =~= before.push(args[k as int]));
                        assert(values.deep_view() =~= args.subrange(n as int, k + 1));
                        k += 1;
                    }
                    assert(values.deep_view() =~= args.skip(n as int));
                    let tag = positional[n].tag.until(positional[positional.len() - 1].tag);
                    assert(args[n as int].tag == positional@[n as int].tag);
                    assert(args.last().tag == positional@[positional.len() - 1].tag);
                    proof {
                        lemma_table_view(values, tag);
                    }
                    let var_arg_val = Value { value: UntaggedValue::Table(values), tag };
                    scope.add_var(rest.1.as_str(), var_arg_val);
                }
            },
            None => {},
        }
    }
}

} // verus!
