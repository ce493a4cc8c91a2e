use vstd::prelude::*;

use crate::float_order::F64Bits;

verus! {

#[derive(Clone, Copy, PartialEq, Eq, Structural, Debug)]
pub struct Rgb {
    pub r: F64Bits,
    pub g: F64Bits,
    pub b: F64Bits,
}

#[derive(Clone, Copy, PartialEq, Eq, Structural, Debug)]
pub enum Color {
    Rgb(Rgb),
}

} // verus!
