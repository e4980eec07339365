//! Shapes and the errors raised when they do not fit together.

use vstd::prelude::*;

verus! {

/// Dimensions of a hidden-state tensor: batch, sequence, features.
#[derive(PartialEq, Eq, Structural, Clone, Copy, Debug)]
pub struct Shape3 {
    pub batch: usize,
    pub seq: usize,
    pub width: usize,
}

/// A shape or configuration that does not fit; each carries the sizes involved.
#[derive(PartialEq, Eq, Structural, Clone, Copy, Debug)]
pub enum ShapeError {
    /// The number of heads is zero or does not divide the hidden size.
    HeadsDoNotDivide { hidden_size: usize, num_heads: usize },
    /// A feature axis does not have the width an operand expects.
    FeatureMismatch { expected: usize, actual: usize },
    /// Two tensors that must share a batch size do not.
    BatchMismatch { expected: usize, actual: usize },
    /// A buffer or table is too short for the requested shape.
    LengthMismatch { expected: usize, actual: usize },
    /// An index points past the end of a table.
    IndexOutOfRange { index: usize, len: usize },
}

/// Sizes of an affine map `x * W + b`, with `W` stored `in_features` by `out_features`.
#[derive(PartialEq, Eq, Structural, Clone, Copy, Debug)]
pub struct LinearShape {
    pub in_features: usize,
    pub out_features: usize,
    pub bias_len: usize,
}

impl LinearShape {
    /// Shape of the affine map applied to each row of a tensor of shape `x`.
    pub open spec fn apply(self, x: Shape3) -> Result<Shape3, ShapeError> {
        if x.width != self.in_features {
            Err(ShapeError::FeatureMismatch { expected: self.in_features, actual: x.width })
        } else if self.bias_len != self.out_features {
            Err(ShapeError::FeatureMismatch { expected: self.out_features, actual: self.bias_len })
        } else {
            Ok(Shape3 { batch: x.batch, seq: x.seq, width: self.out_features })
        }
    }

    /// Checks that the map fits rows of width `x.width` and gives the result's shape.
    pub fn output_shape(&self, x: Shape3) -> (r: Result<Shape3, ShapeError>)
        ensures
            r == self.apply(x),
    {
        if x.width != self.in_features {
            Err(ShapeError::FeatureMismatch { expected: self.in_features, actual: x.width })
        } else if self.bias_len != self.out_features {
            Err(ShapeError::FeatureMismatch { expected: self.out_features, actual: self.bias_len })
        } else {
            Ok(Shape3 { batch: x.batch, seq: x.seq, width: self.out_features })
        }
    }

    /// A map from `n_in` features to `n_out` features with a fitting bias.
    pub open spec fn maps(self, n_in: usize, n_out: usize) -> bool {
        self.in_features == n_in && self.out_features == n_out && self.bias_len == n_out
    }
}

/// Whether `hidden_size` splits evenly over `num_heads` heads.
pub open spec fn heads_divide(hidden_size: usize, num_heads: usize) -> bool {
    num_heads > 0 && hidden_size % num_heads == 0
}

/// Width of one head when `hidden_size` features are split over `num_heads`.
pub fn head_dim(hidden_size: usize, num_heads: usize) -> (r: Result<usize, ShapeError>)
    ensures
        num_heads > 0 && hidden_size % num_heads == 0 ==> r == Ok::<usize, ShapeError>(
            (hidden_size / num_heads) as usize,
        ),
        !(num_heads > 0 && hidden_size % num_heads == 0) ==> r == Err::<usize, ShapeError>(
            ShapeError::HeadsDoNotDivide { hidden_size, num_heads },
        ),
{
    if num_heads == 0 || hidden_size % num_heads != 0 {
        Err(ShapeError::HeadsDoNotDivide { hidden_size, num_heads })
    } else {
        Ok(hidden_size / num_heads)
    }
}

} // verus!
