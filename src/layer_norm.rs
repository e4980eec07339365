//! Shape rules of layer normalization over the feature axis.

use vstd::prelude::*;
use crate::shape::{Shape3, ShapeError};

verus! {

/// Lengths of the learned scale and shift of a layer normalization.
#[derive(PartialEq, Eq, Structural, Clone, Copy, Debug)]
pub struct NormShape {
    pub weight_len: usize,
    pub bias_len: usize,
}

impl NormShape {
    /// Shape of the normalization applied to a tensor of shape `x`: unchanged,
    /// when scale and shift both have one entry per feature.
    pub open spec fn apply(self, x: Shape3) -> Result<Shape3, ShapeError> {
        if self.weight_len != x.width {
            Err(ShapeError::FeatureMismatch { expected: x.width, actual: self.weight_len })
        } else if self.bias_len != x.width {
            Err(ShapeError::FeatureMismatch { expected: x.width, actual: self.bias_len })
        } else {
            Ok(x)
        }
    }

    /// Checks scale and shift against the feature axis of `x`.
    pub fn output_shape(&self, x: Shape3) -> (r: Result<Shape3, ShapeError>)
        ensures
            r == self.apply(x),
    {
        if self.weight_len != x.width {
            Err(ShapeError::FeatureMismatch { expected: x.width, actual: self.weight_len })
        } else if self.bias_len != x.width {
            Err(ShapeError::FeatureMismatch { expected: x.width, actual: self.bias_len })
        } else {
            Ok(x)
        }
    }
}

} // verus!
