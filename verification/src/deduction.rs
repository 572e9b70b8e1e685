//! Shape deduction: which shapes the free variables of a block must have,
//! judged by where the block uses them.
//!
//! A use of a variable as an argument of a command whose signature is known
//! gives the shape that the signature asks for in that place. A use as an
//! operand gives the shape of arithmetic expressions. Other uses give
//! nothing.

use crate::hir::{
    Binary, Block, Call, ClassifiedCommand, Expression, Group, NamedValue, Pipeline,
    SpannedExpression,
};
use crate::name_map::lookup;
use crate::scope::{command_in, lemma_lookup_deep, FrameView, Scope};
use crate::shape::SyntaxShape;
use crate::signature::{NamedType, Signature, SignatureView};
use crate::span::Span;
use crate::text::same_text;
use vstd::prelude::*;

verus! {

/// A free variable that an alias declares.
#[derive(Debug, PartialEq, Eq)]
pub struct VarDeclaration {
    /// The name, with the leading `$`.
    pub name: String,
    /// Whether the variable takes all remaining arguments.
    pub is_var_arg: bool,
    /// Where the variable is declared.
    pub span: Span,
}

/// [`VarDeclaration`] with text as character sequences.
pub struct VarDeclarationView {
    pub name: Seq<char>,
    pub is_var_arg: bool,
    pub span: Span,
}

impl DeepView for VarDeclaration {
    type V = VarDeclarationView;

    open spec fn deep_view(&self) -> VarDeclarationView {
        VarDeclarationView { name: self.name@, is_var_arg: self.is_var_arg, span: self.span }
    }
}

impl Clone for VarDeclaration {
    fn clone(&self) -> (res: Self)
        ensures
            res == *self,
    {
        VarDeclaration { name: self.name.clone(), is_var_arg: self.is_var_arg, span: self.span }
    }
}

/// One hypothesis on the shape of a variable, with the places in the source
/// that gave rise to it.
#[derive(Debug, PartialEq, Eq)]
pub struct VarShapeDeduction {
    pub deduction: SyntaxShape,
    pub deducted_from: Vec<Span>,
    pub many_of_shapes: bool,
}

/// [`VarShapeDeduction`] as specifications see it.
pub struct VarShapeDeductionView {
    pub deduction: SyntaxShape,
    pub deducted_from: Seq<Span>,
    pub many_of_shapes: bool,
}

impl DeepView for VarShapeDeduction {
    type V = VarShapeDeductionView;

    open spec fn deep_view(&self) -> VarShapeDeductionView {
        VarShapeDeductionView {
            deduction: self.deduction,
            deducted_from: self.deducted_from@,
            many_of_shapes: self.many_of_shapes,
        }
    }
}

impl Clone for VarShapeDeduction {
    fn clone(&self) -> (res: Self)
        ensures
            res.deep_view() == self.deep_view(),
    {
        let mut from: Vec<Span> = Vec::new();
        let mut i: usize = 0;
        while i < self.deducted_from.len()
            invariant
                i <= self.deducted_from.len(),
                from@ == self.deducted_from@.take(i as int),
            decreases self.deducted_from.len() - i,
        {
            from.push(self.deducted_from[i]);
            assert(self.deducted_from@.take(i + 1) =~= self.deducted_from@.take(i as int).push(
                self.deducted_from@[i as int],
            ));
            i += 1;
        }
        assert(self.deducted_from@.take(self.deducted_from.len() as int) =~= self.deducted_from@);
        VarShapeDeduction {
            deduction: self.deduction,
            deducted_from: from,
            many_of_shapes: self.many_of_shapes,
        }
    }
}

/// The hypothesis that a single use at `span` in a place that expects `shape`
/// gives.
pub open spec fn hypothesis(shape: SyntaxShape, span: Span) -> VarShapeDeductionView {
    VarShapeDeductionView { deduction: shape, deducted_from: seq![span], many_of_shapes: false }
}

/// The sequences of `parts`, one after the other.
pub open spec fn concat_all<T>(parts: Seq<Seq<T>>) -> Seq<T>
    decreases parts.len(),
{
    if parts.len() == 0 {
        Seq::empty()
    } else {
        concat_all(parts.drop_last()) + parts.last()
    }
}

pub proof fn lemma_concat_all_take<T>(parts: Seq<Seq<T>>, i: int)
    requires
        0 <= i < parts.len(),
    ensures
        concat_all(parts.take(i + 1)) == concat_all(parts.take(i)) + parts[i],
        concat_all(parts.take(0)) == Seq::<T>::empty(),
        concat_all(parts.take(parts.len() as int)) == concat_all(parts),
{
    assert(parts.take(i + 1).drop_last() =~= parts.take(i));
    assert(parts.take(parts.len() as int) =~= parts);
}

/// The shape that a command with the signature `sig` expects of its `k`-th
/// positional argument: that of the `k`-th parameter, else that of the rest
/// parameter, else any.
pub open spec fn positional_shape(sig: SignatureView, k: int) -> SyntaxShape {
    if 0 <= k < sig.positional.len() {
        sig.positional[k].0.syntax_type()
    } else {
        match sig.rest_positional {
            Some((shape, _)) => shape,
            None => SyntaxShape::Any,
        }
    }
}

/// The shape that a command with the signature `sig` expects of the value of
/// its flag `flag`: that which the flag declares, else any.
pub open spec fn flag_shape(sig: SignatureView, flag: Seq<char>) -> SyntaxShape {
    match lookup(sig.named, flag) {
        Some((NamedType::Optional(_, shape), _)) => shape,
        Some((NamedType::Mandatory(_, shape), _)) => shape,
        _ => SyntaxShape::Any,
    }
}

/// The shape that is expected of an argument, where the signature of the
/// command is known.
pub open spec fn expected_at(sig: Option<SignatureView>, k: int) -> Option<SyntaxShape> {
    match sig {
        Some(s) => Some(positional_shape(s, k)),
        None => None,
    }
}

/// The shape that is expected of the value of a flag, where the signature of
/// the command is known.
pub open spec fn expected_for(sig: Option<SignatureView>, flag: Seq<char>) -> Option<SyntaxShape> {
    match sig {
        Some(s) => Some(flag_shape(s, flag)),
        None => None,
    }
}

/// The signature of the command that `name` resolves to in `frames`.
pub open spec fn signature_in(frames: Seq<FrameView>, name: Seq<char>) -> Option<SignatureView> {
    match command_in(frames, name) {
        Some(c) => Some(c.info().signature),
        None => None,
    }
}

/// The hypotheses that the uses of the variable `var` in the expression `e`
/// give, in the order of the source. `ctx` is the shape that is expected
/// where `e` stands, if that is known.
pub open spec fn uses_in_expr(
    e: SpannedExpression,
    var: Seq<char>,
    ctx: Option<SyntaxShape>,
    frames: Seq<FrameView>,
) -> Seq<VarShapeDeductionView>
    decreases e,
{
    match e.expr {
        Expression::Variable(name) => if name@ == var {
            match ctx {
                Some(shape) => seq![hypothesis(shape, e.span)],
                None => Seq::empty(),
            }
        } else {
            Seq::empty()
        },
        Expression::Binary(b) => uses_in_expr(b.left, var, Some(SyntaxShape::Math), frames)
            + uses_in_expr(b.right, var, Some(SyntaxShape::Math), frames),
        Expression::Block(b) => uses_in_block(b, var, frames),
        Expression::Invocation(b) => uses_in_block(b, var, frames),
        Expression::List(items) => concat_all(uses_in_items(items, var, frames)),
        _ => Seq::empty(),
    }
}

/// For each expression of a list, the hypotheses that the uses of `var` in it
/// give.
pub open spec fn uses_in_items(
    items: Vec<SpannedExpression>,
    var: Seq<char>,
    frames: Seq<FrameView>,
) -> Seq<Seq<VarShapeDeductionView>>
    decreases items,
{
    Seq::new(
        items@.len(),
        |i: int|
            if 0 <= i < items@.len() {
                uses_in_expr(items@[i], var, None, frames)
            } else {
                Seq::empty()
            },
    )
}

/// The hypotheses that the uses of `var` in the value of a flag give.
pub open spec fn uses_in_named(
    value: NamedValue,
    var: Seq<char>,
    ctx: Option<SyntaxShape>,
    frames: Seq<FrameView>,
) -> Seq<VarShapeDeductionView>
    decreases value,
{
    match value {
        NamedValue::Value(_, e) => uses_in_expr(e, var, ctx, frames),
        _ => Seq::empty(),
    }
}

/// The hypotheses that the uses of `var` in the arguments `call` of a command
/// with the signature `sig` give: first the positional arguments, then the
/// flags.
pub open spec fn uses_in_call(
    call: Call,
    sig: Option<SignatureView>,
    var: Seq<char>,
    frames: Seq<FrameView>,
) -> Seq<VarShapeDeductionView>
    decreases call, 1int,
{
    concat_all(uses_in_positional(call, sig, var, frames)) + concat_all(
        uses_in_flags(call, sig, var, frames),
    )
}

/// For each positional argument of `call`, the hypotheses that the uses of
/// `var` in it give.
pub open spec fn uses_in_positional(
    call: Call,
    sig: Option<SignatureView>,
    var: Seq<char>,
    frames: Seq<FrameView>,
) -> Seq<Seq<VarShapeDeductionView>>
    decreases call, 0int,
{
    Seq::new(
        call.positional@.len(),
        |k: int|
            if 0 <= k < call.positional@.len() {
                uses_in_expr(call.positional@[k], var, expected_at(sig, k), frames)
            } else {
                Seq::empty()
            },
    )
}

/// For each flag of `call`, the hypotheses that the uses of `var` in its
/// value give.
pub open spec fn uses_in_flags(
    call: Call,
    sig: Option<SignatureView>,
    var: Seq<char>,
    frames: Seq<FrameView>,
) -> Seq<Seq<VarShapeDeductionView>>
    decreases call, 0int,
{
    Seq::new(
        call.named@.len(),
        |k: int|
            if 0 <= k < call.named@.len() {
                uses_in_named(call.named@[k].1, var, expected_for(sig, call.named@[k].0@), frames)
            } else {
                Seq::empty()
            },
    )
}

/// The hypotheses that the uses of `var` in one stage of a pipeline give.
pub open spec fn uses_in_command(c: ClassifiedCommand, var: Seq<char>, frames: Seq<FrameView>) -> Seq<
    VarShapeDeductionView,
>
    decreases c,
{
    match c {
        ClassifiedCommand::Expr(e) => uses_in_expr(e, var, None, frames),
        ClassifiedCommand::Internal(ic) => uses_in_call(
            ic.args,
            signature_in(frames, ic.name@),
            var,
            frames,
        ),
        ClassifiedCommand::Dynamic(call) => uses_in_call(call, None, var, frames),
    }
}

/// The hypotheses that the uses of `var` in a pipeline give.
pub open spec fn uses_in_pipeline(p: Pipeline, var: Seq<char>, frames: Seq<FrameView>) -> Seq<
    VarShapeDeductionView,
>
    decreases p, 1int,
{
    concat_all(uses_in_stages(p, var, frames))
}

/// For each stage of a pipeline, the hypotheses that the uses of `var` in it
/// give.
pub open spec fn uses_in_stages(p: Pipeline, var: Seq<char>, frames: Seq<FrameView>) -> Seq<
    Seq<VarShapeDeductionView>,
>
    decreases p, 0int,
{
    Seq::new(
        p.list@.len(),
        |i: int|
            if 0 <= i < p.list@.len() {
                uses_in_command(p.list@[i], var, frames)
            } else {
                Seq::empty()
            },
    )
}

/// The hypotheses that the uses of `var` in a group of pipelines give.
pub open spec fn uses_in_group(g: Group, var: Seq<char>, frames: Seq<FrameView>) -> Seq<
    VarShapeDeductionView,
>
    decreases g, 1int,
{
    concat_all(uses_in_pipelines(g, var, frames))
}

/// For each pipeline of a group, the hypotheses that the uses of `var` in it
/// give.
pub open spec fn uses_in_pipelines(g: Group, var: Seq<char>, frames: Seq<FrameView>) -> Seq<
    Seq<VarShapeDeductionView>,
>
    decreases g, 0int,
{
    Seq::new(
        g.pipelines@.len(),
        |i: int|
            if 0 <= i < g.pipelines@.len() {
                uses_in_pipeline(g.pipelines@[i], var, frames)
            } else {
                Seq::empty()
            },
    )
}

/// The hypotheses that the uses of `var` in a block give.
pub open spec fn uses_in_block(b: Block, var: Seq<char>, frames: Seq<FrameView>) -> Seq<
    VarShapeDeductionView,
>
    decreases b, 1int,
{
    concat_all(uses_in_groups(b, var, frames))
}

/// For each group of a block, the hypotheses that the uses of `var` in it
/// give.
pub open spec fn uses_in_groups(b: Block, var: Seq<char>, frames: Seq<FrameView>) -> Seq<
    Seq<VarShapeDeductionView>,
>
    decreases b, 0int,
{
    Seq::new(
        b.block@.len(),
        |i: int|
            if 0 <= i < b.block@.len() {
                uses_in_group(b.block@[i], var, frames)
            } else {
                Seq::empty()
            },
    )
}

/// What is deduced for the variable `var` from the block `b`: its hypotheses
/// in the order of the source, or nothing if there is none.
pub open spec fn deduced(b: Block, var: Seq<char>, frames: Seq<FrameView>) -> Option<
    Seq<VarShapeDeductionView>,
> {
    let uses = uses_in_block(b, var, frames);
    if uses.len() == 0 {
        None
    } else {
        Some(uses)
    }
}

fn push_deduction(out: &mut Vec<VarShapeDeduction>, d: VarShapeDeduction)
    ensures
        final(out).deep_view() == old(out).deep_view().push(d.deep_view()),
{
    let ghost before = out.deep_view();
    out.push(d);
    assert(out.deep_view() =~= before.push(d.deep_view()));
}

/// The shape that `sig` expects of its `k`-th positional argument.
pub fn shape_at(sig: &Signature, k: usize) -> (s: SyntaxShape)
    ensures
        s == positional_shape(sig.deep_view(), k as int),
{
    if k < sig.positional.len() {
        assert(sig.deep_view().positional[k as int] == sig.positional@[k as int].deep_view());
        sig.positional[k].0.syntax_type()
    } else {
        match &sig.rest_positional {
            Some(rest) => {
                assert(sig.rest_positional.deep_view() == Some(rest.deep_view()));
                rest.0
            },
            None => SyntaxShape::Any,
        }
    }
}

/// The shape that `sig` expects of the value of its flag `flag`.
pub fn shape_of_flag(sig: &Signature, flag: &str) -> (s: SyntaxShape)
    ensures
        s == flag_shape(sig.deep_view(), flag@),
{
    proof {
        lemma_lookup_deep(sig.named.entries(), flag@);
    }
    match sig.named.get(flag) {
        Some(entry) => {
            assert(entry.deep_view() == (entry.0, entry.1@));
            match entry.0 {
                NamedType::Optional(_, shape) => shape,
                NamedType::Mandatory(_, shape) => shape,
                NamedType::Switch(_) => SyntaxShape::Any,
            }
        },
        None => SyntaxShape::Any,
    }
}

#[verifier::loop_isolation(false)]
fn collect_expr(
    e: &SpannedExpression,
    var: &str,
    ctx: Option<SyntaxShape>,
    scope: &Scope,
    out: &mut Vec<VarShapeDeduction>,
)
    ensures
        final(out).deep_view() == old(out).deep_view() + uses_in_expr(
            *e,
            var@,
            ctx,
            scope.frames(),
        ),
    decreases e,
{
    let ghost start = out.deep_view();
    let ghost frames = scope.frames();
    match &e.expr {
        Expression::Variable(name) => {
            if same_text(name.as_str(), var) {
                match ctx {
                    Some(shape) => {
                        let mut from: Vec<Span> = Vec::new();
                        from.push(e.span);
                        assert(from@ =~= seq![e.span]);
                        push_deduction(
                            out,
                            VarShapeDeduction {
                                deduction: shape,
                                deducted_from: from,
                                many_of_shapes: false,
                            },
                        );
                        assert(out.deep_view() =~= start + seq![hypothesis(shape, e.span)]);
                    },
                    None => {
                        assert(out.deep_view() =~= start + Seq::empty());
                    },
                }
            } else {
                assert(out.deep_view() =~= start + Seq::empty());
            }
        },
        Expression::Binary(b) => {
            collect_expr(&b.left, var, Some(SyntaxShape::Math), scope, out);
            collect_expr(&b.right, var, Some(SyntaxShape::Math), scope, out);
            assert(out.deep_view() =~= start + (uses_in_expr(
                b.left,
                var@,
                Some(SyntaxShape::Math),
                frames,
            ) + uses_in_expr(b.right, var@, Some(SyntaxShape::Math), frames)));
        },
        Expression::Block(b) => {
            collect_block(b, var, scope, out);
        },
        Expression::Invocation(b) => {
            collect_block(b, var, scope, out);
        },
        Expression::List(items) => {
            let ghost parts = uses_in_items(*items, var@, frames);
            let mut i: usize = 0;
            assert(parts.take(0) =~= Seq::empty());
            assert(out.deep_view() =~= start + concat_all(parts.take(0)));
            while i < items.len()
                invariant
                    i <= items.len(),
                    out.deep_view() == start + concat_all(parts.take(i as int)),
                decreases items.len() - i,
            {
                proof {
                    lemma_concat_all_take(parts, i as int);
                }
                let ghost before = out.deep_view();
                collect_expr(&items[i], var, None, scope, out);
                assert(out.deep_view() =~= start + concat_all(parts.take(i + 1)));
                i += 1;
            }
            assert(parts.take(items.len() as int) =~= parts);
        },
        _ => {
            assert(out.deep_view() =~= start + Seq::empty());
        },
    }
}

#[verifier::loop_isolation(false)]
fn collect_call(
    call: &Call,
    sig: Option<&Signature>,
    var: &str,
    scope: &Scope,
    out: &mut Vec<VarShapeDeduction>,
)
    ensures
        final(out).deep_view() == old(out).deep_view() + uses_in_call(
            *call,
            sig.deep_view(),
            var@,
            scope.frames(),
        ),
    decreases call,
{
    let ghost start = out.deep_view();
    let ghost frames = scope.frames();
    let ghost sv = sig.deep_view();
    let ghost first = uses_in_positional(*call, sv, var@, frames);
    let ghost second = uses_in_flags(*call, sv, var@, frames);
    let mut k: usize = 0;
    assert(first.take(0) =~= Seq::empty());
    assert(out.deep_view() =~= start + concat_all(first.take(0)));
    while k < call.positional.len()
        invariant
            k <= call.positional.len(),
            out.deep_view() == start + concat_all(first.take(k as int)),
        decreases call.positional.len() - k,
    {
        proof {
            lemma_concat_all_take(first, k as int);
        }
        let ctx = match sig {
            Some(s) => Some(shape_at(s, k)),
            None => None,
        };
        collect_expr(&call.positional[k], var, ctx, scope, out);
        assert(out.deep_view() =~= start + concat_all(first.take(k + 1)));
        k += 1;
    }
    assert(first.take(call.positional.len() as int) =~= first);
    let ghost middle = out.deep_view();
    let mut j: usize = 0;
    assert(second.take(0) =~= Seq::empty());
    assert(out.deep_view() =~= middle + concat_all(second.take(0)));
    while j < call.named.len()
        invariant
            j <= call.named.len(),
            middle == start + concat_all(first),
            out.deep_view() == middle + concat_all(second.take(j as int)),
        decreases call.named.len() - j,
    {
        proof {
            lemma_concat_all_take(second, j as int);
        }
        let ctx = match sig {
            Some(s) => Some(shape_of_flag(s, call.named[j].0.as_str())),
            None => None,
        };
        match &call.named[j].1 {
            NamedValue::Value(_, e) => {
                collect_expr(e, var, ctx, scope, out);
            },
            _ => {},
        }
        assert(out.deep_view() =~= middle + concat_all(second.take(j + 1)));
        j += 1;
    }
    assert(second.take(call.named.len() as int) =~= second);
    assert(out.deep_view() =~= start + (concat_all(first) + concat_all(second)));
}

#[verifier::loop_isolation(false)]
fn collect_command(
    c: &ClassifiedCommand,
    var: &str,
    scope: &Scope,
    out: &mut Vec<VarShapeDeduction>,
)
    ensures
        final(out).deep_view() == old(out).deep_view() + uses_in_command(
            *c,
            var@,
            scope.frames(),
        ),
    decreases c,
{
    match c {
        ClassifiedCommand::Expr(e) => {
            collect_expr(e, var, None, scope, out);
        },
        ClassifiedCommand::Internal(ic) => {
            let sig = scope.get_signature(ic.name.as_str());
            collect_call(&ic.args, sig, var, scope, out);
        },
        ClassifiedCommand::Dynamic(call) => {
            collect_call(call, None, var, scope, out);
        },
    }
}

#[verifier::loop_isolation(false)]
fn collect_pipeline(p: &Pipeline, var: &str, scope: &Scope, out: &mut Vec<VarShapeDeduction>)
    ensures
        final(out).deep_view() == old(out).deep_view() + uses_in_pipeline(
            *p,
            var@,
            scope.frames(),
        ),
    decreases p,
{
    let ghost start = out.deep_view();
    let ghost frames = scope.frames();
    let ghost parts = uses_in_stages(*p, var@, frames);
    let mut i: usize = 0;
    assert(parts.take(0) =~= Seq::empty());
    assert(out.deep_view() =~= start + concat_all(parts.take(0)));
    while i < p.list.len()
        invariant
            i <= p.list.len(),
            out.deep_view() == start + concat_all(parts.take(i as int)),
        decreases p.list.len() - i,
    {
        proof {
            lemma_concat_all_take(parts, i as int);
        }
        collect_command(&p.list[i], var, scope, out);
        assert(out.deep_view() =~= start + concat_all(parts.take(i + 1)));
        i += 1;
    }
    assert(parts.take(p.list.len() as int) =~= parts);
}

#[verifier::loop_isolation(false)]
fn collect_group(g: &Group, var: &str, scope: &Scope, out: &mut Vec<VarShapeDeduction>)
    ensures
        final(out).deep_view() == old(out).deep_view() + uses_in_group(*g, var@, scope.frames()),
    decreases g,
{
    let ghost start = out.deep_view();
    let ghost frames = scope.frames();
    let ghost parts = uses_in_pipelines(*g, var@, frames);
    let mut i: usize = 0;
    assert(parts.take(0) =~= Seq::empty());
    assert(out.deep_view() =~= start + concat_all(parts.take(0)));
    while i < g.pipelines.len()
        invariant
            i <= g.pipelines.len(),
            out.deep_view() == start + concat_all(parts.take(i as int)),
        decreases g.pipelines.len() - i,
    {
        proof {
            lemma_concat_all_take(parts, i as int);
        }
        collect_pipeline(&g.pipelines[i], var, scope, out);
        assert(out.deep_view() =~= start + concat_all(parts.take(i + 1)));
        i += 1;
    }
    assert(parts.take(g.pipelines.len() as int) =~= parts);
}

#[verifier::loop_isolation(false)]
fn collect_block(b: &Block, var: &str, scope: &Scope, out: &mut Vec<VarShapeDeduction>)
    ensures
        final(out).deep_view() == old(out).deep_view() + uses_in_block(*b, var@, scope.frames()),
    decreases b,
{
    let ghost start = out.deep_view();
    let ghost frames = scope.frames();
    let ghost parts = uses_in_groups(*b, var@, frames);
    let mut i: usize = 0;
    assert(parts.take(0) =~= Seq::empty());
    assert(out.deep_view() =~= start + concat_all(parts.take(0)));
    while i < b.block.len()
        invariant
            i <= b.block.len(),
            out.deep_view() == start + concat_all(parts.take(i as int)),
        decreases b.block.len() - i,
    {
        proof {
            lemma_concat_all_take(parts, i as int);
        }
        collect_group(&b.block[i], var, scope, out);
        assert(out.deep_view() =~= start + concat_all(parts.take(i + 1)));
        i += 1;
    }
    assert(parts.take(b.block.len() as int) =~= parts);
}

/// The engine that deduces the shapes of variables.
pub struct VarSyntaxShapeDeductor {}

impl VarSyntaxShapeDeductor {
    /// For each variable of `vars_to_find`, in order, what the uses of the
    /// variable in `block` say of its shape: the hypotheses in the order of
    /// the source, or `None` where no use says anything. Commands are looked
    /// up in `scope`.
    pub fn infer_vars(vars_to_find: &Vec<VarDeclaration>, block: &Block, scope: &Scope) -> (r: Vec<
        (VarDeclaration, Option<Vec<VarShapeDeduction>>),
    >)
        ensures
            r.len() == vars_to_find.len(),
            forall|i: int|
                0 <= i < r.len() ==> (#[trigger] r[i]).0 == vars_to_find[i] && r[i].1.deep_view()
                    == deduced(*block, vars_to_find[i].name@, scope.frames()),
    {
        let mut r: Vec<(VarDeclaration, Option<Vec<VarShapeDeduction>>)> = Vec::new();
        let mut i: usize = 0;
        while i < vars_to_find.len()
            invariant
                i <= vars_to_find.len(),
                r.len() == i,
                forall|j: int|
                    0 <= j < i ==> (#[trigger] r[j]).0 == vars_to_find[j] && r[j].1.deep_view()
                        == deduced(*block, vars_to_find[j].name@, scope.frames()),
            decreases vars_to_find.len() - i,
        {
            let decl = vars_to_find[i].clone();
            let mut uses: Vec<VarShapeDeduction> = Vec::new();
            assert(uses.deep_view() =~= Seq::empty());
            collect_block(block, decl.name.as_str(), scope, &mut uses);
            assert(uses.deep_view() =~= uses_in_block(*block, decl.name@, scope.frames()));
            let found = if uses.len() == 0 {
                None
            } else {
                Some(uses)
            };
            r.push((decl, found));
            i += 1;
        }
        r
    }
}

} // verus!
