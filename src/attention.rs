//! Shape rules of multi-head attention.

use vstd::prelude::*;
use crate::index::{flat, lemma_flat_bound, lemma_flat_split, lemma_parts4};
use crate::shape::{head_dim, heads_divide, LinearShape, Shape3, ShapeError};
use crate::tensor::{Matrix, Tensor4};

verus! {

/// Sizes of a multi-head attention block: its head count and its four
/// projections (query, key, value, output).
#[derive(PartialEq, Eq, Structural, Clone, Copy, Debug)]
pub struct AttentionShape {
    pub hidden_size: usize,
    pub num_heads: usize,
    pub query: LinearShape,
    pub key: LinearShape,
    pub value: LinearShape,
    pub output: LinearShape,
}

impl AttentionShape {
    /// Shape of attention of queries from `x` over keys and values from
    /// `encoder` when given (cross-attention), else from `x` (self-attention).
    pub open spec fn apply(self, x: Shape3, encoder: Option<Shape3>) -> Result<Shape3, ShapeError> {
        let src = match encoder {
            Some(e) => e,
            None => x,
        };
        let hd = (self.hidden_size / self.num_heads) as usize;
        let merged = (self.num_heads * hd) as usize;
        if !heads_divide(self.hidden_size, self.num_heads) {
            Err(ShapeError::HeadsDoNotDivide { hidden_size: self.hidden_size, num_heads: self.num_heads })
        } else if self.query.apply(x) is Err {
            self.query.apply(x)
        } else if self.key.apply(src) is Err {
            self.key.apply(src)
        } else if self.value.apply(src) is Err {
            self.value.apply(src)
        } else if src.batch != x.batch {
            Err(ShapeError::BatchMismatch { expected: x.batch, actual: src.batch })
        } else if self.query.out_features != merged {
            Err(ShapeError::FeatureMismatch { expected: merged, actual: self.query.out_features })
        } else if self.key.out_features != merged {
            Err(ShapeError::FeatureMismatch { expected: merged, actual: self.key.out_features })
        } else if self.value.out_features != merged {
            Err(ShapeError::FeatureMismatch { expected: merged, actual: self.value.out_features })
        } else {
            self.output.apply(Shape3 { batch: x.batch, seq: x.seq, width: merged })
        }
    }

    /// Checks every size that attention over `x` (and `encoder`, if given)
    /// depends on and gives the shape of the output.
    pub fn output_shape(&self, x: Shape3, encoder: Option<Shape3>) -> (r: Result<Shape3, ShapeError>)
        ensures
            r == self.apply(x, encoder),
            r matches Ok(s) ==> s.batch == x.batch && s.seq == x.seq,
    {
        let src = match encoder {
            Some(e) => e,
            None => x,
        };
        let hd = match head_dim(self.hidden_size, self.num_heads) {
            Ok(hd) => hd,
            Err(e) => { return Err(e); },
        };
        proof {
            vstd::arithmetic::div_mod::lemma_fundamental_div_mod(self.hidden_size as int, self.num_heads as int);
        }
        let merged = self.num_heads * hd;
        let q = self.query.output_shape(x);
        if q.is_err() {
            return q;
        }
        let k = self.key.output_shape(src);
        if k.is_err() {
            return k;
        }
        let v = self.value.output_shape(src);
        if v.is_err() {
            return v;
        }
        if src.batch != x.batch {
            return Err(ShapeError::BatchMismatch { expected: x.batch, actual: src.batch });
        }
        if self.query.out_features != merged {
            return Err(ShapeError::FeatureMismatch { expected: merged, actual: self.query.out_features });
        }
        if self.key.out_features != merged {
            return Err(ShapeError::FeatureMismatch { expected: merged, actual: self.key.out_features });
        }
        if self.value.out_features != merged {
            return Err(ShapeError::FeatureMismatch { expected: merged, actual: self.value.out_features });
        }
        self.output.output_shape(Shape3 { batch: x.batch, seq: x.seq, width: merged })
    }
}

/// Combines each attention score with the mask entry of its batch row and
/// key position: `scores` is `(batch, heads, queries, keys)` and `mask` is
/// `batch` by `keys`, broadcast over heads and queries. `combine` turns a
/// score and a mask entry into the masked score.
pub fn apply_attention_mask<T: Copy, C: Fn(T, T) -> T>(scores: &Tensor4<T>, mask: &Matrix<T>, combine: C) -> (r: Result<Tensor4<T>, ShapeError>)
    requires
        scores.wf(),
        mask.wf(),
        forall|a: T, b: T| #[trigger] combine.requires((a, b)),
    ensures
        mask.rows != scores.d0 ==> r == Err::<Tensor4<T>, ShapeError>(
            ShapeError::BatchMismatch { expected: scores.d0, actual: mask.rows },
        ),
        mask.rows == scores.d0 && mask.cols != scores.d3 ==> r == Err::<Tensor4<T>, ShapeError>(
            ShapeError::LengthMismatch { expected: scores.d3, actual: mask.cols },
        ),
        mask.rows == scores.d0 && mask.cols == scores.d3 ==> r is Ok,
        r matches Ok(t) ==> {
            &&& t.wf()
            &&& t.d0 == scores.d0 && t.d1 == scores.d1 && t.d2 == scores.d2 && t.d3 == scores.d3
            &&& forall|b: int, h: int, q: int, k: int|
                0 <= b < t.d0 && 0 <= h < t.d1 && 0 <= q < t.d2 && 0 <= k < t.d3
                    ==> combine.ensures((scores.at(b, h, q, k), mask.at(b, k)), #[trigger] t.at(b, h, q, k))
        },
{
    if mask.rows != scores.d0 {
        return Err(ShapeError::BatchMismatch { expected: scores.d0, actual: mask.rows });
    }
    if mask.cols != scores.d3 {
        return Err(ShapeError::LengthMismatch { expected: scores.d3, actual: mask.cols });
    }
    let n = scores.data.len();
    let ghost (n0, n1, n2, n3) = (scores.d0 as int, scores.d1 as int, scores.d2 as int, scores.d3 as int);
    let mut out: Vec<T> = Vec::with_capacity(n);
    if scores.d1 == 0 || scores.d2 == 0 || scores.d3 == 0 {
        proof {
            assert(n == 0) by (nonlinear_arith)
                requires
                    n == n0 * n1 * n2 * n3,
                    n1 == 0 || n2 == 0 || n3 == 0,
            ;
        }
        let r = Tensor4 { d0: scores.d0, d1: scores.d1, d2: scores.d2, d3: scores.d3, data: out };
        proof {
            assert forall|b: int, h: int, q: int, k: int|
                0 <= b < r.d0 && 0 <= h < r.d1 && 0 <= q < r.d2 && 0 <= k < r.d3
                    implies combine.ensures((scores.at(b, h, q, k), mask.at(b, k)), #[trigger] r.at(b, h, q, k)) by {
                assert(false);
            }
        }
        return Ok(r);
    }
    let mask_len = mask.data.len();
    let mut i: usize = 0;
    while i < n
        invariant
            n == scores.data@.len(),
            n == n0 * n1 * n2 * n3,
            n0 == scores.d0 && n1 == scores.d1 && n2 == scores.d2 && n3 == scores.d3,
            n1 > 0 && n2 > 0 && n3 > 0,
            mask.wf(),
            mask_len == mask.data@.len(),
            mask.rows == scores.d0,
            mask.cols == scores.d3,
            forall|a: T, b: T| #[trigger] combine.requires((a, b)),
            i <= n,
            out@.len() == i,
            forall|j: int| 0 <= j < i ==> combine.ensures(
                (scores.data@[j], mask.data@[flat(j / n3 / n2 / n1, j % n3, n3)]),
                #[trigger] out@[j],
            ),
        decreases n - i,
    {
        let k = i % scores.d3;
        let b = i / scores.d3 / scores.d2 / scores.d1;
        proof {
            lemma_parts4(i as int, n0, n1, n2, n3);
            lemma_flat_bound(b as int, k as int, n0, n3);
            assert(mask.data@.len() == n0 * n3);
            assert(b * n3 <= flat(b as int, k as int, n3));
        }
        let v = combine(scores.data[i], mask.data[b * scores.d3 + k]);
        out.push(v);
        i = i + 1;
    }
    let r = Tensor4 { d0: scores.d0, d1: scores.d1, d2: scores.d2, d3: scores.d3, data: out };
    proof {
        assert forall|b: int, h: int, q: int, k: int|
            0 <= b < r.d0 && 0 <= h < r.d1 && 0 <= q < r.d2 && 0 <= k < r.d3
                implies combine.ensures((scores.at(b, h, q, k), mask.at(b, k)), #[trigger] r.at(b, h, q, k)) by {
            lemma_flat_bound(b, h, n0, n1);
            lemma_flat_bound(flat(b, h, n1), q, n0 * n1, n2);
            lemma_flat_bound(flat(flat(b, h, n1), q, n2), k, n0 * n1 * n2, n3);
            lemma_flat_split(flat(flat(b, h, n1), q, n2), k, n3);
            lemma_flat_split(flat(b, h, n1), q, n2);
            lemma_flat_split(b, h, n1);
        }
    }
    Ok(r)
}

} // verus!
