//! The activation kinds a model may be configured with.

use vstd::prelude::*;

verus! {

/// Activation applied between the two affine maps of a feed-forward block.
#[derive(PartialEq, Eq, Structural, Clone, Copy, Debug)]
pub enum Activation {
    Gelu,
    Relu,
    Tanh,
    Swish,
}

} // verus!
