use vstd::prelude::*;

use crate::float_order::F64Bits;

verus! {

#[derive(Clone, Copy, PartialEq, Eq, Structural, Debug)]
pub struct Vector2 {
    pub x: F64Bits,
    pub y: F64Bits,
}

#[derive(Clone, Copy, PartialEq, Eq, Structural, Debug)]
pub struct Vector3 {
    pub x: F64Bits,
    pub y: F64Bits,
    pub z: F64Bits,
}

#[derive(Clone, Copy, PartialEq, Eq, Structural, Debug)]
pub struct Quaternion {
    pub x: F64Bits,
    pub y: F64Bits,
    pub z: F64Bits,
    pub w: F64Bits,
}

#[derive(Clone, Copy, PartialEq, Eq, Structural, Debug)]
pub struct AxisAngle {
    pub axis: Vector3,
    pub angle: F64Bits,
}

#[derive(Clone, Copy, PartialEq, Eq, Structural, Debug)]
pub enum EulerOrder {
    XYZ,
    XZY,
    YXZ,
    YZX,
    ZXY,
    ZYX,
}

#[derive(Clone, Copy, PartialEq, Eq, Structural, Debug)]
pub struct Euler {
    pub x: F64Bits,
    pub y: F64Bits,
    pub z: F64Bits,
    pub order: EulerOrder,
}

#[derive(Clone, Copy, PartialEq, Eq, Structural, Debug)]
pub struct ReferenceFrame {
    pub position: Vector3,
    pub orientation: Quaternion,
    pub scale: Vector3,
}

#[derive(Clone, Copy, PartialEq, Eq, Structural, Debug)]
pub struct MultiBezier2Chunk {
    pub p0: Vector2,
    pub p1: Vector2,
    pub p2: Vector2,
}

pub struct MultiBezier2 {
    pub chunks: Vec<MultiBezier2Chunk>,
    pub last: Vector2,
}

pub struct MultiBezier2View {
    pub chunks: Seq<MultiBezier2Chunk>,
    pub last: Vector2,
}

impl View for MultiBezier2 {
    type V = MultiBezier2View;

    open spec fn view(&self) -> MultiBezier2View {
        MultiBezier2View { chunks: self.chunks@, last: self.last }
    }
}

impl Clone for MultiBezier2 {
    fn clone(&self) -> (r: Self)
        ensures
            r@ == self@,
    {
        let mut chunks: Vec<MultiBezier2Chunk> = Vec::new();
        let n = self.chunks.len();
        let mut i: usize = 0;
        while i < n
            invariant
                n == self.chunks@.len(),
                i <= n,
                chunks@ == self.chunks@.subrange(0, i as int),
            decreases n - i,
        {
            chunks.push(self.chunks[i]);
            i = i + 1;
            assert(chunks@ =~= self.chunks@.subrange(0, i as int));
        }
        assert(self.chunks@.subrange(0, n as int) =~= self.chunks@);
        MultiBezier2 { chunks, last: self.last }
    }
}

} // verus!
