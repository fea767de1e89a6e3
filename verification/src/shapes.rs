//! Layer shapes: a triple of spatial extents with its flattened unit count.

use vstd::prelude::*;

verus! {

/// The shape of one network layer: three spatial extents and the
/// flattened unit count `range == x * y * z`.
pub struct DenseShape {
    pub x: usize,
    pub y: usize,
    pub z: usize,
    pub range: usize,
}

impl DenseShape {
    /// The derived scalar is the product of the three extents.
    pub open spec fn wf(self) -> bool {
        self.range == self.x * self.y * self.z
    }

    pub fn new(x: usize, y: usize, z: usize) -> (s: DenseShape)
        requires
            x * y <= usize::MAX,
            x * y * z <= usize::MAX,
        ensures
            s.wf(),
            s.x == x,
            s.y == y,
            s.z == z,
            s.range == x * y * z,
    {
        let xy: usize = x * y;
        DenseShape { x, y, z, range: xy * z }
    }

    /// A one-dimensional shape: `d` units in a single row.
    pub fn one_d(d: usize) -> (s: DenseShape)
        ensures
            s.wf(),
            s.x == d,
            s.y == 1,
            s.z == 1,
            s.range == d,
    {
        DenseShape::new(d, 1, 1)
    }
}

} // verus!
