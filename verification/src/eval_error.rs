//! The semantic error taxonomy: evaluation stops at the first of these, with
//! no partial result.

use vstd::prelude::*;

use crate::ast::Operator;
use crate::object::Object;

verus! {

/// A runtime fault. Evaluation of a program aborts on the first one.
#[derive(Debug, Clone, Copy, PartialEq, Eq, Structural)]
pub enum EvalError {
    /// The program holds no statement, so it has no value.
    EmptyProgram,
    /// A prefix operator was applied to a value of the wrong type:
    /// `!` demands a boolean operand and `-` an integer one.
    IncorrectBangSuffix(Object),
    /// An infix operator was applied to operands whose types do not pair:
    /// carries both evaluated operand values.
    InfixRightLeft(Object, Object),
    /// Two booleans were combined with an operator other than `==` or `!=`.
    BooleanInfixOperator(Operator),
    /// Two integers were combined with an operator that has no integer
    /// meaning.
    IntegerInfixOperatorError(Operator),
    /// Integer division with a zero divisor.
    DivisionByZero,
    /// An arithmetic result does not fit in a 32-bit signed integer.
    IntegerOverflow,
    /// The construct has no evaluation semantics yet: identifier lookup,
    /// assignment, `return`, conditionals, function literals.
    Unsupported,
}

/// The three-way outcome of running source text end to end: parse failure and
/// evaluation failure are distinct, and a caller can tell them apart.
#[derive(Debug)]
pub enum EvaledProgram {
    ParseError(Vec<crate::parse_errors::ParseError>),
    EvalError(EvalError),
    Valid(Object),
}

} // verus!
