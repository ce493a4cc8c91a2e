use vstd::prelude::*;

verus! {

/// A number, held as the bits of its IEEE 754 double-precision value.
#[derive(Clone, Copy, PartialEq, Eq, Structural, Debug)]
pub struct Number {
    pub value_bits: u64,
}

/// A named variable.
pub struct Variable {
    pub identifier: String,
}

/// `left + right`.
pub struct Add {
    pub left: Box<Expr>,
    pub right: Box<Expr>,
}

/// `left - right`.
pub struct Subtract {
    pub left: Box<Expr>,
    pub right: Box<Expr>,
}

/// `left * right`.
pub struct Multiply {
    pub left: Box<Expr>,
    pub right: Box<Expr>,
}

/// `left / right`.
pub struct Divide {
    pub left: Box<Expr>,
    pub right: Box<Expr>,
}

/// `left` to the power `right`.
pub struct Power {
    pub left: Box<Expr>,
    pub right: Box<Expr>,
}

/// `-value`.
pub struct Negate {
    pub value: Box<Expr>,
}

/// The logarithm of `left` in base `right`.
pub struct Logarithm {
    pub left: Box<Expr>,
    pub right: Box<Expr>,
}

/// The constant pi.
#[derive(Clone, Copy, PartialEq, Eq, Structural, Debug)]
pub struct Pi {
    pub _dummy: i32,
}

/// The constant tau (two pi).
#[derive(Clone, Copy, PartialEq, Eq, Structural, Debug)]
pub struct Tau {
    pub _dummy: i32,
}

/// The constant e.
#[derive(Clone, Copy, PartialEq, Eq, Structural, Debug)]
pub struct E {
    pub _dummy: i32,
}

/// The sine of `value`.
pub struct Sine {
    pub value: Box<Expr>,
}

/// The cosine of `value`.
pub struct Cosine {
    pub value: Box<Expr>,
}

/// The absolute value of `value`.
pub struct Abs {
    pub value: Box<Expr>,
}

/// `value` rounded down.
pub struct Floor {
    pub value: Box<Expr>,
}

/// `value` rounded up.
pub struct Ceil {
    pub value: Box<Expr>,
}

/// `value` rounded to the nearest integer.
pub struct Round {
    pub value: Box<Expr>,
}

/// An arithmetic expression.
pub enum Expr {
    Number(Number),
    Variable(Variable),
    Add(Add),
    Subtract(Subtract),
    Multiply(Multiply),
    Divide(Divide),
    Power(Power),
    Negate(Negate),
    Logarithm(Logarithm),
    Pi(Pi),
    Tau(Tau),
    E(E),
    Sine(Sine),
    Cosine(Cosine),
    Abs(Abs),
    Floor(Floor),
    Ceil(Ceil),
    Round(Round),
}

impl Expr {
    /// The number whose double-precision value has the bits `value_bits`.
    pub fn from_bits(value_bits: u64) -> (r: Expr)
        ensures
            r == Expr::Number(Number { value_bits }),
    {
        Expr::Number(Number { value_bits })
    }
}

} // verus!
