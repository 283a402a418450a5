//! The input to the mesher: a rectangular grid of non-negative heights,
//! stored as one flat buffer with an explicit stride.

use vstd::prelude::*;

verus! {

/// The single failure the mesher can report: the input does not describe a
/// grid the algorithm is defined on (a dimension below 2, or a buffer whose
/// length does not match the stated dimensions).
#[derive(Clone, Copy, Debug, PartialEq, Eq, Structural)]
pub enum MeshError {
    InvalidInput,
}

/// An immutable `width` x `height` grid of heights, indexed `[x][y]` with
/// `x` along the width and `y` along the height. The value at `(x, y)` is
/// stored at `x * height + y`, so one column of the image is contiguous.
///
/// Heights are non-negative by construction (`u32`); a dimension is at most
/// `u32::MAX`, which keeps every derived coordinate inside `i64`.
pub struct HeightGrid {
    width: usize,
    height: usize,
    data: Vec<u32>,
}

impl HeightGrid {
    /// Number of grid points along the x axis.
    pub closed spec fn spec_width(self) -> int {
        self.width as int
    }

    /// Number of grid points along the y axis.
    pub closed spec fn spec_height(self) -> int {
        self.height as int
    }

    /// The stored buffer, column by column.
    pub closed spec fn spec_data(self) -> Seq<u32> {
        self.data@
    }

    /// Shape invariant: the buffer holds exactly one value per grid point,
    /// and both dimensions fit in 32 bits.
    pub open spec fn wf(self) -> bool {
        &&& self.spec_width() * self.spec_height() == self.spec_data().len()
        &&& self.spec_width() * self.spec_height() <= usize::MAX
        &&& self.spec_width() <= u32::MAX
        &&& self.spec_height() <= u32::MAX
    }

    /// The height sampled at grid point `(x, y)`, as a mathematical integer.
    pub open spec fn at(self, x: int, y: int) -> int {
        self.spec_data()[x * self.spec_height() + y] as int
    }

    /// Builds a grid from its dimensions and a flat buffer in column-major
    /// order. Succeeds exactly when the buffer length matches the dimensions
    /// and each dimension fits in 32 bits; dimensions below 2 are accepted
    /// here and rejected by the mesher itself.
    pub fn new(width: usize, height: usize, data: Vec<u32>) -> (r: Result<HeightGrid, MeshError>)
        ensures
            match r {
                Ok(g) => {
                    &&& g.wf()
                    &&& g.spec_width() == width
                    &&& g.spec_height() == height
                    &&& g.spec_data() == data@
                },
                Err(e) => {
                    &&& e == MeshError::InvalidInput
                    &&& !(width * height == data@.len() && width <= u32::MAX && height
                        <= u32::MAX)
                },
            },
    {
        if width as u64 > u32::MAX as u64 || height as u64 > u32::MAX as u64 {
            return Err(MeshError::InvalidInput);
        }
        let l = data.len();
        match width.checked_mul(height) {
            Some(n) if n == l => Ok(HeightGrid { width, height, data }),
            _ => Err(MeshError::InvalidInput),
        }
    }

    /// Number of grid points along the x axis.
    pub fn width(&self) -> (r: usize)
        ensures
            r == self.spec_width(),
    {
        self.width
    }

    /// Number of grid points along the y axis.
    pub fn height(&self) -> (r: usize)
        ensures
            r == self.spec_height(),
    {
        self.height
    }

    /// Reads the height sampled at `(x, y)`.
    pub fn get(&self, x: usize, y: usize) -> (r: u32)
        requires
            self.wf(),
            x < self.spec_width(),
            y < self.spec_height(),
        ensures
            r == self.at(x as int, y as int),
    {
        let l = self.data.len();
        assert(x * self.height + y < l) by (nonlinear_arith)
            requires
                x < self.width,
                y < self.height,
                l == self.width * self.height,
        ;
        self.data[x * self.height + y]
    }
}

} // verus!
