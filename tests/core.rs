use transformer_core::{
    apply_attention_mask, gather_rows, head_dim, map_elements, merge_heads, position_ids,
    residual_shape, split_heads, transpose_last_two, zero_ids, zip_elements, Activation, AttentionShape,
    EmbeddingConfig, FeedForwardShape, LayerShape, LinearShape, Matrix, NormShape,
    QuantizableTensor, Shape3, ShapeError, Tensor3, Tensor4,
};

fn lin(n_in: usize, n_out: usize) -> LinearShape {
    LinearShape { in_features: n_in, out_features: n_out, bias_len: n_out }
}

fn attention(hidden: usize, heads: usize) -> AttentionShape {
    AttentionShape {
        hidden_size: hidden,
        num_heads: heads,
        query: lin(hidden, hidden),
        key: lin(hidden, hidden),
        value: lin(hidden, hidden),
        output: lin(hidden, hidden),
    }
}

fn layer(hidden: usize, heads: usize, inner: usize) -> LayerShape {
    LayerShape {
        attention: attention(hidden, heads),
        feed_forward: FeedForwardShape { dense1: lin(hidden, inner), dense2: lin(inner, hidden) },
        norm1: NormShape { weight_len: hidden, bias_len: hidden },
        norm2: NormShape { weight_len: hidden, bias_len: hidden },
    }
}

fn shape(batch: usize, seq: usize, width: usize) -> Shape3 {
    Shape3 { batch, seq, width }
}

fn counting(batch: usize, seq: usize, width: usize) -> Tensor3<u32> {
    let data: Vec<u32> = (0..(batch * seq * width) as u32).collect();
    Tensor3::from_vec(batch, seq, width, data).unwrap()
}

#[test]
fn head_dim_divides_evenly() {
    assert_eq!(head_dim(8, 2), Ok(4));
    assert_eq!(head_dim(768, 12), Ok(64));
}

#[test]
fn head_dim_rejects_uneven_or_zero_heads() {
    assert_eq!(
        head_dim(10, 3),
        Err(ShapeError::HeadsDoNotDivide { hidden_size: 10, num_heads: 3 })
    );
    assert_eq!(
        head_dim(8, 0),
        Err(ShapeError::HeadsDoNotDivide { hidden_size: 8, num_heads: 0 })
    );
}

#[test]
fn split_heads_moves_each_head_to_its_own_block() {
    // (1, 2, 4) with two heads of width 2.
    let x = counting(1, 2, 4);
    let t = split_heads(&x, 2).unwrap();
    assert_eq!((t.d0, t.d1, t.d2, t.d3), (1, 2, 2, 2));
    assert_eq!(t.data, vec![0, 1, 4, 5, 2, 3, 6, 7]);
}

#[test]
fn split_heads_rejects_uneven_heads() {
    let x = counting(1, 2, 6);
    assert!(matches!(
        split_heads(&x, 4),
        Err(ShapeError::HeadsDoNotDivide { hidden_size: 6, num_heads: 4 })
    ));
}

#[test]
fn merge_heads_undoes_split_heads() {
    let x = counting(2, 3, 8);
    let t = split_heads(&x, 4).unwrap();
    let back = merge_heads(&t);
    assert_eq!((back.batch, back.seq, back.width), (2, 3, 8));
    assert_eq!(back.data, x.data);
}

#[test]
fn merge_heads_places_heads_side_by_side() {
    let t = Tensor4 { d0: 1, d1: 2, d2: 2, d3: 2, data: vec![0u32, 1, 4, 5, 2, 3, 6, 7] };
    let x = merge_heads(&t);
    assert_eq!(x.data, vec![0, 1, 2, 3, 4, 5, 6, 7]);
}

#[test]
fn split_heads_twice_gives_identical_results() {
    let x = counting(1, 4, 8);
    let a = split_heads(&x, 2).unwrap();
    let b = split_heads(&x, 2).unwrap();
    assert_eq!(a.data, b.data);
    assert_eq!((a.d0, a.d1, a.d2, a.d3), (b.d0, b.d1, b.d2, b.d3));
}

#[test]
fn layer_output_shape_equals_input_shape() {
    for &(batch, seq, hidden, heads) in &[(1, 4, 8, 2), (2, 7, 12, 3), (3, 1, 16, 16), (1, 0, 8, 4)] {
        let x = shape(batch, seq, hidden);
        assert_eq!(layer(hidden, heads, 4 * hidden).output_shape(x), Ok(x));
    }
}

#[test]
fn layer_rejects_uneven_heads() {
    let x = shape(1, 4, 10);
    assert_eq!(
        layer(10, 4, 20).output_shape(x),
        Err(ShapeError::HeadsDoNotDivide { hidden_size: 10, num_heads: 4 })
    );
}

#[test]
fn layer_rejects_wrong_norm_width() {
    let mut l = layer(8, 2, 16);
    l.norm2 = NormShape { weight_len: 7, bias_len: 8 };
    assert_eq!(
        l.output_shape(shape(1, 4, 8)),
        Err(ShapeError::FeatureMismatch { expected: 8, actual: 7 })
    );
}

#[test]
fn self_attention_keeps_input_shape() {
    let x = shape(1, 4, 8);
    assert_eq!(attention(8, 2).output_shape(x, None), Ok(x));
}

#[test]
fn cross_attention_keeps_query_batch_and_length() {
    let x = shape(1, 4, 8);
    let encoder = shape(1, 9, 8);
    assert_eq!(attention(8, 2).output_shape(x, Some(encoder)), Ok(x));
}

#[test]
fn cross_attention_rejects_other_batch() {
    let x = shape(2, 4, 8);
    let encoder = shape(3, 9, 8);
    assert_eq!(
        attention(8, 2).output_shape(x, Some(encoder)),
        Err(ShapeError::BatchMismatch { expected: 2, actual: 3 })
    );
}

#[test]
fn attention_rejects_wrong_input_width() {
    assert_eq!(
        attention(8, 2).output_shape(shape(1, 4, 6), None),
        Err(ShapeError::FeatureMismatch { expected: 8, actual: 6 })
    );
}

#[test]
fn feed_forward_maps_back_to_hidden_width() {
    let ff = FeedForwardShape { dense1: lin(8, 32), dense2: lin(32, 8) };
    assert_eq!(ff.output_shape(shape(2, 3, 8)), Ok(shape(2, 3, 8)));
    assert_eq!(
        ff.output_shape(shape(2, 3, 5)),
        Err(ShapeError::FeatureMismatch { expected: 8, actual: 5 })
    );
}

#[test]
fn linear_rejects_bias_of_wrong_length() {
    let w = LinearShape { in_features: 4, out_features: 3, bias_len: 2 };
    assert_eq!(
        w.output_shape(shape(1, 1, 4)),
        Err(ShapeError::FeatureMismatch { expected: 3, actual: 2 })
    );
}

#[test]
fn residual_requires_equal_shapes() {
    assert_eq!(residual_shape(shape(1, 2, 3), shape(1, 2, 3)), Ok(shape(1, 2, 3)));
    assert_eq!(
        residual_shape(shape(1, 2, 3), shape(1, 5, 3)),
        Err(ShapeError::LengthMismatch { expected: 5, actual: 2 })
    );
}

#[test]
fn relu_through_map_is_elementwise_and_keeps_shape() {
    let x = Tensor3::from_vec(1, 2, 3, vec![-1.5f32, 0.0, 2.0, -0.25, 3.5, -7.0]).unwrap();
    let r = map_elements(&x, |v: f32| v.max(0.0));
    assert_eq!((r.batch, r.seq, r.width), (1, 2, 3));
    assert_eq!(r.data, vec![0.0, 0.0, 2.0, 0.0, 3.5, 0.0]);
    assert!(r.data.iter().all(|v| *v >= 0.0));
    for (a, b) in x.data.iter().zip(r.data.iter()) {
        if *a >= 0.0 {
            assert_eq!(a, b);
        }
    }
}

#[test]
fn zip_adds_residual_entry_by_entry() {
    let a = Tensor3::from_vec(1, 1, 3, vec![1.0f32, 2.0, 3.0]).unwrap();
    let b = Tensor3::from_vec(1, 1, 3, vec![0.5f32, -2.0, 10.0]).unwrap();
    let r = zip_elements(&a, &b, |x: f32, y: f32| x + y).unwrap();
    assert_eq!(r.data, vec![1.5, 0.0, 13.0]);
}

#[test]
fn zip_rejects_different_shapes() {
    let a = Tensor3::from_vec(1, 1, 3, vec![1.0f32, 2.0, 3.0]).unwrap();
    let b = Tensor3::from_vec(1, 3, 1, vec![1.0f32, 2.0, 3.0]).unwrap();
    assert!(matches!(
        zip_elements(&a, &b, |x: f32, y: f32| x + y),
        Err(ShapeError::FeatureMismatch { expected: 1, actual: 3 })
    ));
}

#[test]
fn dequantize_scales_each_entry() {
    let q = Matrix::from_vec(2, 2, vec![1i8, 2, 3, 4]).unwrap();
    let t = QuantizableTensor::Quantized(q, 0.5f32);
    let m = t.dequantize(|v: i8, s: f32| v as f32 * s);
    assert_eq!((m.rows, m.cols), (2, 2));
    assert_eq!(m.data, vec![0.5, 1.0, 1.5, 2.0]);
}

#[test]
fn dequantize_full_precision_is_unchanged() {
    let m = Matrix::from_vec(1, 3, vec![0.25f32, -1.0, 8.0]).unwrap();
    let t = QuantizableTensor::Float(m);
    let r = t.dequantize(|v: i8, s: f32| v as f32 * s);
    assert_eq!((r.rows, r.cols), (1, 3));
    assert_eq!(r.data, vec![0.25, -1.0, 8.0]);
}

#[test]
fn gather_rows_looks_up_each_id() {
    let table = Matrix::from_vec(3, 2, vec![10u32, 11, 20, 21, 30, 31]).unwrap();
    let ids = Matrix::from_vec(2, 2, vec![2usize, 0, 1, 1]).unwrap();
    let t = gather_rows(&table, &ids).unwrap();
    assert_eq!((t.batch, t.seq, t.width), (2, 2, 2));
    assert_eq!(t.data, vec![30, 31, 10, 11, 20, 21, 20, 21]);
}

#[test]
fn gather_rows_rejects_unknown_id() {
    let table = Matrix::from_vec(3, 2, vec![10u32, 11, 20, 21, 30, 31]).unwrap();
    let ids = Matrix::from_vec(1, 3, vec![0usize, 5, 1]).unwrap();
    assert!(matches!(
        gather_rows(&table, &ids),
        Err(ShapeError::IndexOutOfRange { index: 5, len: 3 })
    ));
}

#[test]
fn position_lookup_needs_enough_rows() {
    let positions = Matrix::from_vec(2, 1, vec![7u32, 8]).unwrap();
    let ok = gather_rows(&positions, &position_ids(3, 2)).unwrap();
    assert_eq!(ok.data, vec![7, 8, 7, 8, 7, 8]);
    assert!(matches!(
        gather_rows(&positions, &position_ids(1, 3)),
        Err(ShapeError::IndexOutOfRange { index: 2, len: 2 })
    ));
}

#[test]
fn position_and_zero_ids() {
    assert_eq!(position_ids(2, 3).data, vec![0, 1, 2, 0, 1, 2]);
    let z = zero_ids(2, 2);
    assert_eq!((z.rows, z.cols), (2, 2));
    assert_eq!(z.data, vec![0, 0, 0, 0]);
}

#[test]
fn mask_is_broadcast_over_heads_and_queries() {
    // (batch 1, heads 2, queries 2, keys 2), mask keeps key 0 and blocks key 1.
    let scores = Tensor4 { d0: 1, d1: 2, d2: 2, d3: 2, data: vec![1.0f32, 2.0, 3.0, 4.0, 5.0, 6.0, 7.0, 8.0] };
    let mask = Matrix::from_vec(1, 2, vec![1.0f32, 0.0]).unwrap();
    let r = apply_attention_mask(&scores, &mask, |s: f32, m: f32| s + (1.0 - m) * -10000.0).unwrap();
    assert_eq!(r.data, vec![1.0, -9998.0, 3.0, -9996.0, 5.0, -9994.0, 7.0, -9992.0]);
}

#[test]
fn mask_of_wrong_size_is_rejected() {
    let scores = Tensor4 { d0: 1, d1: 1, d2: 1, d3: 2, data: vec![1.0f32, 2.0] };
    let short = Matrix::from_vec(1, 3, vec![1.0f32, 1.0, 1.0]).unwrap();
    assert!(matches!(
        apply_attention_mask(&scores, &short, |s: f32, m: f32| s * m),
        Err(ShapeError::LengthMismatch { expected: 2, actual: 3 })
    ));
    let other_batch = Matrix::from_vec(2, 2, vec![1.0f32, 1.0, 1.0, 1.0]).unwrap();
    assert!(matches!(
        apply_attention_mask(&scores, &other_batch, |s: f32, m: f32| s * m),
        Err(ShapeError::BatchMismatch { expected: 1, actual: 2 })
    ));
}

#[test]
fn constructors_check_lengths() {
    assert!(Matrix::from_vec(2, 3, vec![0u8; 6]).is_some());
    assert!(Matrix::from_vec(2, 3, vec![0u8; 5]).is_none());
    assert!(Tensor3::from_vec(2, 3, 4, vec![0u8; 24]).is_some());
    assert!(Tensor3::from_vec(2, 3, 4, vec![0u8; 25]).is_none());
    assert!(Tensor3::from_vec(usize::MAX, 2, 0, Vec::<u8>::new()).is_some());
}

#[test]
fn embedding_config_and_activation_kinds() {
    let c = EmbeddingConfig { vocab_size: 100, hidden_size: 8, max_position_embeddings: 16, type_vocab_size: 2 };
    assert_eq!(c.hidden_size, 8);
    assert_ne!(Activation::Gelu, Activation::Relu);
    assert_eq!(Activation::Swish, Activation::Swish);
}

#[test]
fn transpose_swaps_the_last_two_axes() {
    // One block of 2 keys by 3 features becomes 3 by 2.
    let k = Tensor4 { d0: 1, d1: 1, d2: 2, d3: 3, data: vec![1u32, 2, 3, 4, 5, 6] };
    let t = transpose_last_two(&k);
    assert_eq!((t.d0, t.d1, t.d2, t.d3), (1, 1, 3, 2));
    assert_eq!(t.data, vec![1, 4, 2, 5, 3, 6]);
    let back = transpose_last_two(&t);
    assert_eq!(back.data, k.data);
}
