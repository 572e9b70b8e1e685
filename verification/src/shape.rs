//! The closed set of argument kinds that a signature can ask for.

use vstd::prelude::*;

verus! {

/// The kind of argument a parameter or flag expects.
#[derive(Clone, Copy, Debug, PartialEq, Eq, Structural)]
pub enum SyntaxShape {
    /// Any syntactic form is allowed.
    Any,
    /// Strings and string-like bare words.
    String,
    /// A (possibly dotted) path into a row.
    ColumnPath,
    /// A column path that must be written out in full.
    FullColumnPath,
    /// Integers and decimals.
    Number,
    /// A range of numbers.
    Range,
    /// Integers only.
    Int,
    /// A path in the file system.
    FilePath,
    /// A glob pattern.
    Pattern,
    /// A block of code.
    Block,
    /// A table literal.
    Table,
    /// A number with a unit.
    Unit,
    /// An operator.
    Operator,
    /// The shorthand for a condition on a row.
    RowCondition,
    /// An arithmetic expression.
    Math,
}

impl DeepView for SyntaxShape {
    type V = SyntaxShape;

    open spec fn deep_view(&self) -> SyntaxShape {
        *self
    }
}

} // verus!
