//! The `keep until` command: the rows up to the first that meets a condition.

use crate::command::WholeStreamCommand;
use crate::shape::SyntaxShape;
use crate::signature::{PositionalTypeView, Signature, SignatureView};
use crate::errors::{ShellError, ShellErrorView};
use crate::hir::{condition_of, sole_expression, Block, SpannedExpression};
use crate::scope::{entered, exited, with_var, with_vars, FrameView, Scope};
use crate::span::{Span, Tag};
use crate::value::{Value, ValueView};
use crate::name_map::NameMap;
use vstd::prelude::*;

verus! {

/// The `keep until` command.
pub struct SubCommand;

impl WholeStreamCommand for SubCommand {
    open spec fn spec_name(&self) -> Seq<char> {
        "keep until"@
    }

    open spec fn spec_usage(&self) -> Seq<char> {
        "Keeps rows until the condition matches."@
    }

    open spec fn spec_signature(&self) -> SignatureView {
        SignatureView::new("keep until"@)
            .with_positional(
                PositionalTypeView::Mandatory("condition"@, SyntaxShape::RowCondition),
                "The condition that must be met to stop keeping rows"@,
            )
            .filtered()
    }

    fn name(&self) -> (n: &str) {
        "keep until"
    }

    fn signature(&self) -> (s: Signature) {
        Signature::build("keep until")
            .required(
                "condition",
                SyntaxShape::RowCondition,
                "The condition that must be met to stop keeping rows",
            )
            .filter()
    }

    fn usage(&self) -> (u: &str) {
        "Keeps rows until the condition matches."
    }
}

/// The error for a block that is no condition.
pub open spec fn expected_condition(span: Span) -> ShellErrorView {
    ShellErrorView::Labeled {
        msg: "Expected a condition"@,
        label: "expected a condition"@,
        span,
    }
}

/// The condition that the block stands for: the expression that stands alone
/// in it. A block of any other form is an error at the place of the command.
pub fn condition(block: &Block, tag: Tag) -> (r: Result<&SpannedExpression, ShellError>)
    ensures
        match r {
            Ok(e) => sole_expression(*block) == Some(*e),
            Err(e) => sole_expression(*block) is None && e.deep_view() == expected_condition(
                tag.span,
            ),
        },
{
    match condition_of(block) {
        Some(e) => Ok(e),
        None => Err(
            ShellError::labeled_error("Expected a condition", "expected a condition", tag.span),
        ),
    }
}

/// Whether the outcome of the condition for a row is that the condition
/// holds.
pub open spec fn holds(outcome: Result<Value, ShellError>) -> bool {
    outcome matches Ok(v) && v.deep_view().truth() == Some(true)
}

/// Whether a row is kept, given the outcome of the condition for it: it is
/// kept unless the condition holds. A condition that fails does not hold.
pub fn keeps(outcome: &Result<Value, ShellError>) -> (b: bool)
    ensures
        b == !holds(*outcome),
{
    match outcome {
        Ok(v) => !v.is_true(),
        Err(_) => true,
    }
}

/// Number of rows at the front for which the condition does not hold.
pub open spec fn kept_count(outcomes: Seq<Result<Value, ShellError>>) -> int
    decreases outcomes.len(),
{
    if outcomes.len() == 0 || holds(outcomes[0]) {
        0
    } else {
        1 + kept_count(outcomes.drop_first())
    }
}

/// Hands on the rows up to the first one for which the condition holds, and
/// drops that row and all behind it. `outcomes` holds the outcome of the
/// condition for each row.
pub fn keep_until(rows: Vec<Value>, outcomes: &Vec<Result<Value, ShellError>>) -> (out: Vec<Value>)
    requires
        outcomes.len() == rows.len(),
    ensures
        out@ == rows@.take(kept_count(outcomes@)),
{
    let mut n: usize = 0;
    assert(outcomes@.skip(0) =~= outcomes@);
    while n < outcomes.len() && keeps(&outcomes[n])
        invariant
            n <= outcomes.len(),
            kept_count(outcomes@) == n + kept_count(outcomes@.skip(n as int)),
        decreases outcomes.len() - n,
    {
        assert(outcomes@.skip(n as int).drop_first() =~= outcomes@.skip(n + 1));
        n += 1;
    }
    let mut out = rows;
    out.truncate(n);
    out
}

/// The frames in which the condition is judged for one row: a new frame with
/// the captured variables and, if the block has a parameter, the row under
/// its name.
pub open spec fn row_frames(
    frames: Seq<FrameView>,
    captured: Seq<(Seq<char>, ValueView)>,
    param: Option<Seq<char>>,
    row: ValueView,
) -> Seq<FrameView> {
    match param {
        Some(name) => with_var(with_vars(entered(frames), captured), name, row),
        None => with_vars(entered(frames), captured),
    }
}

/// Enters the frame in which the condition is judged for `row`.
pub fn begin_row(
    scope: &mut Scope,
    captured: &NameMap<Value>,
    param: Option<&str>,
    row: Value,
)
    ensures
        final(scope).frames() == row_frames(
            old(scope).frames(),
            captured.deep_view(),
            param.deep_view(),
            row.deep_view(),
        ),
{
    scope.enter_scope();
    scope.add_vars(captured);
    match param {
        Some(name) => {
            scope.add_var(name, row);
        },
        None => {},
    }
}

/// Leaves the frame that [`begin_row`] entered.
pub fn end_row(scope: &mut Scope)
    requires
        old(scope).frames().len() > 1,
    ensures
        final(scope).frames() == exited(old(scope).frames()),
{
    scope.exit_scope();
}

} // verus!
