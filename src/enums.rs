//! The tags of the calculation model: unary modifiers of an operand and the
//! binary operators between operands.

use vstd::prelude::*;

verus! {

/// A unary operation applied to an operand.
#[derive(Debug, PartialEq, Eq, PartialOrd, Ord, Hash, Clone, Copy, Structural)]
pub enum Modifier {
    Negate,
    Percent,
    OneOver,
    Square,
    SquareRoot,
    Cube,
    CubeRoot,
    Abs,
    Floor,
    Ceil,
    Exponent,
    Factorial,
    TenToTheX,
    TwoToTheX,
    Ln,
    Log,
    EToTheX,
    Sin,
    Cos,
    Tan,
    Csc,
    Sec,
    Cot,
    ArcSin,
    ArcCos,
    ArcTan,
    ArcCsc,
    ArcSec,
    ArcCot,
    Sinh,
    Cosh,
    Tanh,
    Csch,
    Sech,
    Coth,
    ArcSinh,
    ArcCosh,
    ArcTanh,
    ArcCsch,
    ArcSech,
    ArcCoth,
    ToDegrees,
    ToDMS,
    NoModifier,
}

impl Default for Modifier {
    /// No modifier.
    fn default() -> (r: Modifier)
        ensures
            r == Modifier::NoModifier,
    {
        Modifier::NoModifier
    }
}

/// A binary operation between two operands; `NoOperator` until one is chosen.
#[derive(Debug, PartialEq, Eq, PartialOrd, Ord, Hash, Clone, Copy, Structural)]
pub enum Operator {
    Add,
    Subtract,
    Multiply,
    Divide,
    Power,
    Modulo,
    NthRoot,
    LogBaseY,
    And,
    Or,
    Xor,
    Not,
    Nor,
    Nand,
    NoOperator,
}

impl Default for Operator {
    /// No operator.
    fn default() -> (r: Operator)
        ensures
            r == Operator::NoOperator,
    {
        Operator::NoOperator
    }
}

} // verus!
