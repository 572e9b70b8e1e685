//! The `all?` command: whether a condition holds for every row.

use crate::command::{Example, WholeStreamCommand};
use crate::shape::SyntaxShape;
use crate::signature::{PositionalTypeView, Signature, SignatureView};
use crate::errors::{ShellError, ShellErrorView};
use crate::hir::{condition_of, sole_expression, Block, SpannedExpression};
use crate::scope::{entered, exited, with_var, with_vars, FrameView, Scope};
use crate::span::{Span, Tag};
use crate::value::{bool_view, expected_boolean, Primitive, UntaggedValue, Value, ValueView};
use crate::name_map::NameMap;
use vstd::prelude::*;

verus! {

/// The `all?` command.
pub struct Command;

/// The arguments of `all?`.
#[derive(Debug, PartialEq, Eq)]
pub struct Arguments {
    /// The condition, as a block.
    pub block: Block,
    /// The variables that the block took along from where it was written.
    pub captured: NameMap<Value>,
}

impl WholeStreamCommand for Command {
    open spec fn spec_name(&self) -> Seq<char> {
        "all?"@
    }

    open spec fn spec_usage(&self) -> Seq<char> {
        "Find if the table rows matches the condition."@
    }

    open spec fn spec_signature(&self) -> SignatureView {
        SignatureView::new("all?"@)
            .with_positional(
                PositionalTypeView::Mandatory("condition"@, SyntaxShape::RowCondition),
                "the condition that must match"@,
            )
    }

    fn name(&self) -> (n: &str) {
        "all?"
    }

    fn signature(&self) -> (s: Signature) {
        Signature::build("all?")
            .required("condition", SyntaxShape::RowCondition, "the condition that must match")
    }

    fn usage(&self) -> (u: &str) {
        "Find if the table rows matches the condition."
    }
}

impl Command {
    /// Command lines that show how the command is used, with what they give.
    pub fn examples(&self) -> (r: Vec<Example>)
        ensures
            r.len() == 2,
            r[0].description@ == "Find if services are running"@,
            r[0].example@ == "echo [[status]; [UP] [UP]] | all? status == UP"@,
            r[0].result.deep_view() == Some(seq![bool_view(true)]),
            r[1].description@ == "Check that all values are even"@,
            r[1].example@ == "echo [2 4 6 8] | all? $(= $it mod 2) == 0"@,
            r[1].result.deep_view() == Some(seq![bool_view(true)]),
    {
        let mut first: Vec<Value> = Vec::new();
        first.push(Value::from_bool(true));
        assert(first.deep_view() =~= seq![bool_view(true)]);
        let mut second: Vec<Value> = Vec::new();
        second.push(Value::from_bool(true));
        assert(second.deep_view() =~= seq![bool_view(true)]);
        let mut r: Vec<Example> = Vec::new();
        r.push(
            Example {
                description: "Find if services are running",
                example: "echo [[status]; [UP] [UP]] | all? status == UP",
                result: Some(first),
            },
        );
        r.push(
            Example {
                description: "Check that all values are even",
                example: "echo [2 4 6 8] | all? $(= $it mod 2) == 0",
                result: Some(second),
            },
        );
        r
    }
}

/// The error for a block that is no condition.
pub open spec fn expected_condition(span: Span) -> ShellErrorView {
    ShellErrorView::Labeled {
        msg: "Expected a condition"@,
        label: "expected a condition"@,
        span,
    }
}

/// The condition that the block stands for: the expression that stands alone
/// in it. A block of any other form is an error at the place of the command.
pub fn condition(block: &Block, tag: Tag) -> (r: Result<&SpannedExpression, ShellError>)
    ensures
        match r {
            Ok(e) => sole_expression(*block) == Some(*e),
            Err(e) => sole_expression(*block) is None && e.deep_view() == expected_condition(
                tag.span,
            ),
        },
{
    match condition_of(block) {
        Some(e) => Ok(e),
        None => Err(
            ShellError::labeled_error("Expected a condition", "expected a condition", tag.span),
        ),
    }
}

/// The frames in which the condition is judged for one row: a new frame with
/// the captured variables and with the row as `$it`.
pub open spec fn row_frames(
    frames: Seq<FrameView>,
    captured: Seq<(Seq<char>, ValueView)>,
    row: ValueView,
) -> Seq<FrameView> {
    with_var(with_vars(entered(frames), captured), "$it"@, row)
}

/// Enters the frame in which the condition is judged for `row`.
pub fn begin_row(scope: &mut Scope, captured: &NameMap<Value>, row: Value)
    ensures
        final(scope).frames() == row_frames(
            old(scope).frames(),
            captured.deep_view(),
            row.deep_view(),
        ),
        final(scope).frames().len() == old(scope).frames().len() + 1,
{
    scope.enter_scope();
    scope.add_vars(captured);
    scope.add_var("$it", row);
    proof {
        lemma_row_frames(old(scope).frames(), captured.deep_view(), row.deep_view());
    }
}

/// Leaves the frame that [`begin_row`] entered.
pub fn end_row(scope: &mut Scope)
    requires
        old(scope).frames().len() > 1,
    ensures
        final(scope).frames() == exited(old(scope).frames()),
{
    scope.exit_scope();
}

proof fn lemma_with_vars_keeps_outer(frames: Seq<FrameView>, vars: Seq<(Seq<char>, ValueView)>)
    requires
        frames.len() >= 1,
    ensures
        with_vars(frames, vars).len() == frames.len(),
        with_vars(frames, vars).drop_last() == frames.drop_last(),
    decreases vars.len(),
{
    if vars.len() > 0 {
        lemma_with_vars_keeps_outer(frames, vars.drop_last());
        let before = with_vars(frames, vars.drop_last());
        assert(with_vars(frames, vars).drop_last() =~= before.drop_last());
    } else {
        assert(with_vars(frames, vars) == frames);
    }
}

/// The frame for a row lies on top of the frames that were there, which stay
/// as they are.
pub proof fn lemma_row_frames(
    frames: Seq<FrameView>,
    captured: Seq<(Seq<char>, ValueView)>,
    row: ValueView,
)
    ensures
        row_frames(frames, captured, row).len() == frames.len() + 1,
        exited(row_frames(frames, captured, row)) == frames,
{
    lemma_with_vars_keeps_outer(entered(frames), captured);
    let mid = with_vars(entered(frames), captured);
    assert(row_frames(frames, captured, row).drop_last() =~= mid.drop_last());
    assert(entered(frames).drop_last() =~= frames);
}

/// Entering the frame for a row and leaving it again leaves the scope as it
/// was, whatever was bound for the row.
pub proof fn law_row_scope_is_paired(
    frames: Seq<FrameView>,
    captured: Seq<(Seq<char>, ValueView)>,
    row: ValueView,
)
    ensures
        exited(row_frames(frames, captured, row)) == frames,
{
    lemma_row_frames(frames, captured, row);
}

/// The outcome of a condition, with text as character sequences.
pub open spec fn outcome_view(outcome: Result<Value, ShellError>) -> Result<ValueView, ShellErrorView> {
    match outcome {
        Ok(v) => Ok(v.deep_view()),
        Err(e) => Err(e.deep_view()),
    }
}

/// An answer so far, with text as character sequences.
pub open spec fn answer_view(answer: Result<bool, ShellError>) -> Result<bool, ShellErrorView> {
    match answer {
        Ok(b) => Ok(b),
        Err(e) => Err(e.deep_view()),
    }
}

/// What one row adds to the answer so far. An error that came up before
/// stays. Else the truth value that was found so far is joined with that of
/// the condition for this row; a condition that failed or that is no truth
/// value is an error.
pub open spec fn step(
    acc: Result<bool, ShellErrorView>,
    condition: Result<ValueView, ShellErrorView>,
) -> Result<bool, ShellErrorView> {
    match acc {
        Err(e) => Err(e),
        Ok(so_far) => match condition {
            Err(e) => Err(e),
            Ok(v) => match v.truth() {
                Some(b) => Ok(so_far && b),
                None => Err(expected_boolean(v.tag.span)),
            },
        },
    }
}

/// The answer after the first `n` rows.
pub open spec fn answer(conditions: Seq<Result<Value, ShellError>>, n: int) -> Result<
    bool,
    ShellErrorView,
>
    decreases n,
{
    if n <= 0 {
        Ok(true)
    } else {
        step(answer(conditions, n - 1), outcome_view(conditions[n - 1]))
    }
}

/// What one row adds to the answer so far.
pub fn all_step(acc: Result<bool, ShellError>, condition: Result<Value, ShellError>) -> (r: Result<
    bool,
    ShellError,
>)
    ensures
        answer_view(r) == step(answer_view(acc), outcome_view(condition)),
{
    let so_far = match acc {
        Ok(b) => b,
        Err(e) => {
            return Err(e);
        },
    };
    match condition {
        Ok(v) => match v.as_bool() {
            Ok(b) => Ok(so_far && b),
            Err(e) => Err(e),
        },
        Err(e) => Err(e),
    }
}

/// Whether the conditions of all rows hold: `true` for no rows, and the
/// first error if a condition failed or is no truth value. `conditions` holds
/// the outcome of the condition for each row.
pub fn all(conditions: Vec<Result<Value, ShellError>>, tag: Tag) -> (r: Result<Value, ShellError>)
    ensures
        outcome_view(r) == match answer(conditions@, conditions.len() as int) {
            Ok(b) => Ok::<ValueView, ShellErrorView>(
                ValueView {
                    value: crate::value::UntaggedValueView::Primitive(
                        crate::value::PrimitiveView::Boolean(b),
                    ),
                    tag,
                },
            ),
            Err(e) => Err(e),
        },
{
    let mut acc: Result<bool, ShellError> = Ok(true);
    let mut rest = conditions;
    let ghost all = conditions@;
    let mut taken: Vec<Result<Value, ShellError>> = Vec::new();
    while rest.len() > 0
        invariant
            rest.len() + taken.len() == all.len(),
            forall|i: int| 0 <= i < rest.len() ==> #[trigger] rest@[i] == all[i],
            forall|i: int| 0 <= i < taken.len() ==> #[trigger] taken@[i] == all[all.len() - 1 - i],
        decreases rest.len(),
    {
        let c = rest.pop().unwrap();
        taken.push(c);
    }
    let ghost n = all.len() as int;
    while taken.len() > 0
        invariant
            n == all.len(),
            taken.len() <= n,
            forall|i: int| 0 <= i < taken.len() ==> #[trigger] taken@[i] == all[n - 1 - i],
            answer_view(acc) == answer(all, n - taken.len()),
        decreases taken.len(),
    {
        let ghost k = n - taken.len();
        let c = taken.pop().unwrap();
        assert(c == all[k]);
        acc = all_step(acc, c);
    }
    match acc {
        Ok(b) => Ok(UntaggedValue::boolean(b).into_value(tag)),
        Err(e) => Err(e),
    }
}

} // verus!
