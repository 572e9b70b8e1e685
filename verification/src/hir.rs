//! The parse tree of a block of code, as far as the engine looks into it.

use crate::span::Span;
use crate::text::same_text;
use vstd::prelude::*;

verus! {

/// An operator between two operands.
#[derive(Clone, Copy, Debug, PartialEq, Eq, Structural)]
pub enum Operator {
    Equal,
    NotEqual,
    LessThan,
    GreaterThan,
    LessThanOrEqual,
    GreaterThanOrEqual,
    Contains,
    NotContains,
    Plus,
    Minus,
    Multiply,
    Divide,
    Modulo,
    And,
    Or,
}

/// A value that is written out in the source.
#[derive(Debug, PartialEq, Eq)]
pub enum Literal {
    Number(i64),
    String(String),
    Bare(String),
    Operator(Operator),
}

/// An expression.
#[derive(Debug, PartialEq, Eq)]
pub enum Expression {
    /// A value that is written out.
    Literal(Literal),
    /// A variable, by its name with the leading `$`.
    Variable(String),
    /// Two operands with an operator between them.
    Binary(Box<Binary>),
    /// A block of code.
    Block(Block),
    /// A list of expressions.
    List(Vec<SpannedExpression>),
    /// A block of code that is run where it stands.
    Invocation(Block),
    /// A path into a value: where to start, and the cells to go through.
    FullColumnPath(Box<Path>),
    /// Something that could not be parsed.
    Garbage,
}

/// An expression and its place in the source.
#[derive(Debug, PartialEq, Eq)]
pub struct SpannedExpression {
    pub expr: Expression,
    pub span: Span,
}

/// One step of a path into a value: the name of a cell, or the number of a
/// row.
#[derive(Debug, PartialEq, Eq)]
pub enum UnspannedPathMember {
    String(String),
    Int(i64),
}

/// One step of a path into a value, and its place in the source.
#[derive(Debug, PartialEq, Eq)]
pub struct PathMember {
    pub unspanned: UnspannedPathMember,
    pub span: Span,
}

/// A path into a value: where to start, and the cells to go through.
#[derive(Debug, PartialEq, Eq)]
pub struct Path {
    pub head: SpannedExpression,
    pub tail: Vec<PathMember>,
}

/// Two operands with an operator between them.
#[derive(Debug, PartialEq, Eq)]
pub struct Binary {
    pub left: SpannedExpression,
    pub op: Operator,
    pub right: SpannedExpression,
}

/// What a call says of one flag.
#[derive(Debug, PartialEq, Eq)]
pub enum NamedValue {
    /// The switch is not set.
    AbsentSwitch,
    /// The switch is set, at the given place.
    PresentSwitch(Span),
    /// The flag is not given.
    AbsentValue,
    /// The flag is given, at the given place, with the given value.
    Value(Span, SpannedExpression),
}

/// The arguments of a call of a command.
#[derive(Debug, PartialEq, Eq)]
pub struct Call {
    pub positional: Vec<SpannedExpression>,
    pub named: Vec<(String, NamedValue)>,
    pub span: Span,
}

impl Call {
    /// Whether the call sets the switch `switch`.
    pub open spec fn sets_switch(self, switch: Seq<char>) -> bool {
        exists|i: int|
            0 <= i < self.named@.len() && (#[trigger] self.named@[i]).0@ == switch
                && self.named@[i].1 is PresentSwitch
    }

    /// Whether the call sets the switch `switch`.
    pub fn switch_preset(&self, switch: &str) -> (b: bool)
        ensures
            b == self.sets_switch(switch@),
    {
        let mut i: usize = 0;
        while i < self.named.len()
            invariant
                i <= self.named.len(),
                forall|j: int|
                    0 <= j < i ==> !((#[trigger] self.named@[j]).0@ == switch@
                        && self.named@[j].1 is PresentSwitch),
            decreases self.named.len() - i,
        {
            if same_text(self.named[i].0.as_str(), switch) {
                match &self.named[i].1 {
                    NamedValue::PresentSwitch(_) => {
                        return true;
                    },
                    _ => {},
                }
            }
            i += 1;
        }
        false
    }
}

/// A call of a command that the engine knows by name.
#[derive(Debug, PartialEq, Eq)]
pub struct InternalCommand {
    pub name: String,
    pub name_span: Span,
    pub args: Call,
}

/// One stage of a pipeline.
#[derive(Debug, PartialEq, Eq)]
pub enum ClassifiedCommand {
    /// An expression that stands where a command could.
    Expr(SpannedExpression),
    /// A call of a command that the engine knows by name.
    Internal(InternalCommand),
    /// A call that is resolved only when it is run.
    Dynamic(Call),
}

/// Commands joined by pipes.
#[derive(Debug, PartialEq, Eq)]
pub struct Pipeline {
    pub list: Vec<ClassifiedCommand>,
    pub span: Span,
}

/// Pipelines joined by semicolons.
#[derive(Debug, PartialEq, Eq)]
pub struct Group {
    pub pipelines: Vec<Pipeline>,
    pub span: Span,
}

/// A block of code: groups of pipelines, one per line.
#[derive(Debug, PartialEq, Eq)]
pub struct Block {
    pub block: Vec<Group>,
    pub span: Span,
}

impl Block {
    /// A block that holds `block`.
    pub fn new(block: Vec<Group>, span: Span) -> (b: Block)
        ensures
            b == (Block { block, span }),
    {
        Block { block, span }
    }
}

/// The expression that stands alone in `block`: the first command of the
/// first pipeline of its only group, if that is an expression.
pub open spec fn sole_expression(block: Block) -> Option<SpannedExpression> {
    if block.block@.len() == 1 && block.block@[0].pipelines@.len() > 0
        && block.block@[0].pipelines@[0].list@.len() > 0 {
        match block.block@[0].pipelines@[0].list@[0] {
            ClassifiedCommand::Expr(e) => Some(e),
            _ => None,
        }
    } else {
        None
    }
}

/// The condition that `block` stands for: the expression that stands alone in
/// it.
pub fn condition_of(block: &Block) -> (r: Option<&SpannedExpression>)
    ensures
        match r {
            Some(e) => sole_expression(*block) == Some(*e),
            None => sole_expression(*block) is None,
        },
{
    if block.block.len() != 1 {
        return None;
    }
    let group = &block.block[0];
    if group.pipelines.len() == 0 {
        return None;
    }
    let pipeline = &group.pipelines[0];
    if pipeline.list.len() == 0 {
        return None;
    }
    match &pipeline.list[0] {
        ClassifiedCommand::Expr(e) => Some(e),
        _ => None,
    }
}

} // verus!
