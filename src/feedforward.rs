//! Shape rules of the position-wise feed-forward block.

use vstd::prelude::*;
use crate::shape::{LinearShape, Shape3, ShapeError};

verus! {

/// Sizes of the two affine maps of a feed-forward block, with the
/// activation applied between them.
#[derive(PartialEq, Eq, Structural, Clone, Copy, Debug)]
pub struct FeedForwardShape {
    pub dense1: LinearShape,
    pub dense2: LinearShape,
}

impl FeedForwardShape {
    /// Shape of the block applied to a tensor of shape `x`.
    pub open spec fn apply(self, x: Shape3) -> Result<Shape3, ShapeError> {
        match self.dense1.apply(x) {
            Ok(mid) => self.dense2.apply(mid),
            Err(e) => Err(e),
        }
    }

    /// Checks both maps against `x` and gives the output shape.
    pub fn output_shape(&self, x: Shape3) -> (r: Result<Shape3, ShapeError>)
        ensures
            r == self.apply(x),
            r matches Ok(s) ==> s.batch == x.batch && s.seq == x.seq
                && s.width == self.dense2.out_features,
    {
        match self.dense1.output_shape(x) {
            Ok(mid) => self.dense2.output_shape(mid),
            Err(e) => Err(e),
        }
    }
}

} // verus!
