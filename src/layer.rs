//! Shape rules of a post-normalization transformer layer.

use vstd::prelude::*;
use crate::attention::AttentionShape;
use crate::feedforward::FeedForwardShape;
use crate::layer_norm::NormShape;
use crate::shape::{heads_divide, Shape3, ShapeError};

verus! {

/// Sizes of a transformer layer: attention, then residual and norm, then
/// feed-forward, then residual and norm.
#[derive(PartialEq, Eq, Structural, Clone, Copy, Debug)]
pub struct LayerShape {
    pub attention: AttentionShape,
    pub feed_forward: FeedForwardShape,
    pub norm1: NormShape,
    pub norm2: NormShape,
}

/// Shape of `a + b`: both operands must have the same shape.
pub open spec fn residual(a: Shape3, b: Shape3) -> Result<Shape3, ShapeError> {
    if a.batch != b.batch {
        Err(ShapeError::BatchMismatch { expected: b.batch, actual: a.batch })
    } else if a.width != b.width {
        Err(ShapeError::FeatureMismatch { expected: b.width, actual: a.width })
    } else if a.seq != b.seq {
        Err(ShapeError::LengthMismatch { expected: b.seq, actual: a.seq })
    } else {
        Ok(a)
    }
}

/// Checks that `a` and `b` can be added entry by entry.
pub fn residual_shape(a: Shape3, b: Shape3) -> (r: Result<Shape3, ShapeError>)
    ensures
        r == residual(a, b),
{
    if a.batch != b.batch {
        Err(ShapeError::BatchMismatch { expected: b.batch, actual: a.batch })
    } else if a.width != b.width {
        Err(ShapeError::FeatureMismatch { expected: b.width, actual: a.width })
    } else if a.seq != b.seq {
        Err(ShapeError::LengthMismatch { expected: b.seq, actual: a.seq })
    } else {
        Ok(a)
    }
}

impl LayerShape {
    /// Shape of the layer applied to `x` (self-attention).
    pub open spec fn apply(self, x: Shape3) -> Result<Shape3, ShapeError> {
        match self.attention.apply(x, None) {
            Err(e) => Err(e),
            Ok(a) => match residual(a, x) {
                Err(e) => Err(e),
                Ok(a) => match self.norm1.apply(a) {
                    Err(e) => Err(e),
                    Ok(a) => match self.feed_forward.apply(a) {
                        Err(e) => Err(e),
                        Ok(f) => match residual(f, a) {
                            Err(e) => Err(e),
                            Ok(f) => self.norm2.apply(f),
                        },
                    },
                },
            },
        }
    }

    /// Checks every size the layer depends on against `x` and gives the
    /// output shape.
    pub fn output_shape(&self, x: Shape3) -> (r: Result<Shape3, ShapeError>)
        ensures
            r == self.apply(x),
    {
        let a = match self.attention.output_shape(x, None) {
            Ok(a) => a,
            Err(e) => { return Err(e); },
        };
        let a = match residual_shape(a, x) {
            Ok(a) => a,
            Err(e) => { return Err(e); },
        };
        let a = match self.norm1.output_shape(a) {
            Ok(a) => a,
            Err(e) => { return Err(e); },
        };
        let f = match self.feed_forward.output_shape(a) {
            Ok(f) => f,
            Err(e) => { return Err(e); },
        };
        let f = match residual_shape(f, a) {
            Ok(f) => f,
            Err(e) => { return Err(e); },
        };
        self.norm2.output_shape(f)
    }

    /// A layer whose every part maps `hidden` features to `hidden` features,
    /// with an inner feed-forward width of `inner` and heads that divide `hidden`.
    pub open spec fn consistent(self, hidden: usize, inner: usize) -> bool {
        &&& self.attention.hidden_size == hidden
        &&& heads_divide(hidden, self.attention.num_heads)
        &&& self.attention.query.maps(hidden, hidden)
        &&& self.attention.key.maps(hidden, hidden)
        &&& self.attention.value.maps(hidden, hidden)
        &&& self.attention.output.maps(hidden, hidden)
        &&& self.feed_forward.dense1.maps(hidden, inner)
        &&& self.feed_forward.dense2.maps(inner, hidden)
        &&& self.norm1.weight_len == hidden && self.norm1.bias_len == hidden
        &&& self.norm2.weight_len == hidden && self.norm2.bias_len == hidden
    }
}

/// A consistent layer maps every `(batch, seq, hidden)` input to an output of
/// the same shape.
pub proof fn lemma_layer_preserves_shape(layer: LayerShape, hidden: usize, inner: usize, x: Shape3)
    requires
        layer.consistent(hidden, inner),
        x.width == hidden,
    ensures
        layer.apply(x) == Ok::<Shape3, ShapeError>(x),
{
    let h = layer.attention.num_heads;
    vstd::arithmetic::div_mod::lemma_fundamental_div_mod(hidden as int, h as int);
    assert(h * (hidden / h) == hidden);
}

/// Cross-attention keeps the batch and sequence length of its queries,
/// whatever the sequence length of the encoder states.
pub proof fn lemma_cross_attention_keeps_query_shape(
    attention: AttentionShape,
    hidden: usize,
    x: Shape3,
    encoder: Shape3,
)
    requires
        attention.hidden_size == hidden,
        heads_divide(hidden, attention.num_heads),
        attention.query.maps(hidden, hidden),
        attention.key.maps(hidden, hidden),
        attention.value.maps(hidden, hidden),
        attention.output.maps(hidden, hidden),
        x.width == hidden,
        encoder.width == hidden,
        encoder.batch == x.batch,
    ensures
        attention.apply(x, Some(encoder)) == Ok::<Shape3, ShapeError>(x),
{
    let h = attention.num_heads;
    vstd::arithmetic::div_mod::lemma_fundamental_div_mod(hidden as int, h as int);
    assert(h * (hidden / h) == hidden);
}

} // verus!
