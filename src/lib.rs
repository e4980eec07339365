//! Shape rules, memory layouts and element plumbing of a transformer core.
//!
//! Tensors are flat row-major buffers with explicit dimensions, generic over
//! the element type. Arithmetic on elements is supplied by the caller as
//! closures, so the layout logic is proved once for any numeric type.

pub mod activations;
pub mod attention;
pub mod elementwise;
pub mod embeddings;
pub mod feedforward;
pub mod index;
pub mod layer;
pub mod layer_norm;
pub mod layout;
pub mod quantizable;
pub mod shape;
pub mod tensor;

pub use activations::Activation;
pub use attention::{apply_attention_mask, AttentionShape};
pub use elementwise::{map_elements, zip_elements};
pub use embeddings::{gather_rows, position_ids, zero_ids, EmbeddingConfig};
pub use feedforward::FeedForwardShape;
pub use layer::{residual_shape, LayerShape};
pub use layer_norm::NormShape;
pub use layout::{merge_heads, split_heads, transpose_last_two};
pub use quantizable::QuantizableTensor;
pub use shape::{head_dim, LinearShape, Shape3, ShapeError};
pub use tensor::{Matrix, Tensor3, Tensor4};
