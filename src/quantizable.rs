//! Weights held at full precision or as 8-bit integers with one scale.

use vstd::prelude::*;
use crate::tensor::Matrix;

verus! {

/// A weight matrix, either at full precision or quantized symmetrically:
/// entry `q` of a quantized matrix with scale `s` stands for `q * s`.
pub enum QuantizableTensor<F> {
    Float(Matrix<F>),
    Quantized(Matrix<i8>, F),
}

impl<F: Copy> QuantizableTensor<F> {
    pub open spec fn wf(&self) -> bool {
        match self {
            QuantizableTensor::Float(m) => m.wf(),
            QuantizableTensor::Quantized(q, _) => q.wf(),
        }
    }

    /// The matrix at full precision. A full-precision matrix is copied as it
    /// is; a quantized one has each entry turned into `scale_by(q, scale)`,
    /// where the caller's `scale_by` converts and multiplies.
    pub fn dequantize<S: Fn(i8, F) -> F>(&self, scale_by: S) -> (r: Matrix<F>)
        requires
            self.wf(),
            forall|q: i8, s: F| #[trigger] scale_by.requires((q, s)),
        ensures
            r.wf(),
            self matches QuantizableTensor::Float(m) ==> r.rows == m.rows && r.cols == m.cols
                && r.data@ == m.data@,
            self matches QuantizableTensor::Quantized(q, s) ==> {
                &&& r.rows == q.rows && r.cols == q.cols
                &&& r.data@.len() == q.data@.len()
                &&& forall|i: int| 0 <= i < q.data@.len()
                    ==> scale_by.ensures((q.data@[i], *s), #[trigger] r.data@[i])
            },
    {
        match self {
            QuantizableTensor::Float(m) => {
                let n = m.data.len();
                let mut out: Vec<F> = Vec::with_capacity(n);
                let mut i: usize = 0;
                while i < n
                    invariant
                        n == m.data@.len(),
                        i <= n,
                        out@ == m.data@.subrange(0, i as int),
                    decreases n - i,
                {
                    out.push(m.data[i]);
                    i = i + 1;
                    proof {
                        assert(out@ =~= m.data@.subrange(0, i as int));
                    }
                }
                proof {
                    assert(out@ =~= m.data@);
                }
                Matrix { rows: m.rows, cols: m.cols, data: out }
            },
            QuantizableTensor::Quantized(q, s) => {
                let n = q.data.len();
                let mut out: Vec<F> = Vec::with_capacity(n);
                let mut i: usize = 0;
                while i < n
                    invariant
                        n == q.data@.len(),
                        i <= n,
                        out@.len() == i,
                        forall|a: i8, b: F| #[trigger] scale_by.requires((a, b)),
                        forall|j: int| 0 <= j < i ==> scale_by.ensures((q.data@[j], *s), #[trigger] out@[j]),
                    decreases n - i,
                {
                    let v = scale_by(q.data[i], *s);
                    out.push(v);
                    i = i + 1;
                }
                Matrix { rows: q.rows, cols: q.cols, data: out }
            },
        }
    }
}

} // verus!
