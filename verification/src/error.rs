//! The error type shared by rule construction and evaluation.

use vstd::prelude::*;

verus! {

/// Everything that can go wrong while building or evaluating a rule.
#[derive(Debug)]
pub enum Error {
    /// The rule text failed to parse as JSON; holds the parser's message.
    JsonError(String),
    /// A would-be expression node is not an array.
    ExprIsNotArrayError,
    /// An expression's first element is not a plain string.
    ExprOpIsNotStringError,
    /// An expression could not be assembled.
    ExprBuildError,
    /// An expression names an operator that is not registered.
    NoSuchOpError,
    /// An expression is an empty array, so there is no operator to extract.
    EmptyExprError,
    /// The evaluation context is not a key-value mapping at top level.
    ContextNotDictError,
    /// The `var` operator's key is not present in the context.
    ContextNoSuchVarError,
    /// The `var` operator's first argument is missing or is not a string.
    ExprVarArgNotStringError,
    /// The root expression evaluated to a non-boolean value.
    FinalResultNotBoolError,
    /// Division or remainder by a zero-valued operand.
    DivisionByZeroError,
}

} // verus!
