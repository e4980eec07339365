//! Dense row-major tensors of two, three and four axes.

use vstd::prelude::*;
use crate::index::flat;
use crate::shape::Shape3;

verus! {

/// A `rows` by `cols` matrix stored row by row.
pub struct Matrix<T> {
    pub rows: usize,
    pub cols: usize,
    pub data: Vec<T>,
}

/// A `batch` by `seq` by `width` tensor; the last axis is the feature axis.
pub struct Tensor3<T> {
    pub batch: usize,
    pub seq: usize,
    pub width: usize,
    pub data: Vec<T>,
}

/// A tensor of four axes `(d0, d1, d2, d3)`, the last one innermost.
pub struct Tensor4<T> {
    pub d0: usize,
    pub d1: usize,
    pub d2: usize,
    pub d3: usize,
    pub data: Vec<T>,
}

impl<T> Matrix<T> {
    pub open spec fn wf(&self) -> bool {
        self.data@.len() == self.rows * self.cols
    }

    /// Entry `(r, c)`.
    pub open spec fn at(&self, r: int, c: int) -> T {
        self.data@[r * self.cols + c]
    }

    /// Wraps `data` as a matrix; `None` when its length is not `rows * cols`.
    pub fn from_vec(rows: usize, cols: usize, data: Vec<T>) -> (r: Option<Matrix<T>>)
        ensures
            r is Some <==> data@.len() == rows * cols,
            r matches Some(m) ==> m.rows == rows && m.cols == cols && m.data@ == data@,
    {
        if cols == 0 {
            if data.len() == 0 {
                return Some(Matrix { rows, cols, data });
            }
            return None;
        }
        if data.len() % cols != 0 || data.len() / cols != rows {
            proof {
                if data@.len() == rows * cols {
                    crate::index::lemma_flat_split(rows as int, 0, cols as int);
                }
            }
            return None;
        }
        proof {
            let n = data@.len() as int;
            let c = cols as int;
            vstd::arithmetic::div_mod::lemma_fundamental_div_mod(n, c);
            assert(n == rows * cols) by (nonlinear_arith)
                requires
                    n == c * (n / c) + n % c,
                    n % c == 0,
                    n / c == rows,
                    c == cols,
            ;
        }
        Some(Matrix { rows, cols, data })
    }
}

impl<T> Tensor3<T> {
    pub open spec fn wf(&self) -> bool {
        self.data@.len() == self.batch * self.seq * self.width
    }

    /// Flat position of entry `(b, s, f)`.
    pub open spec fn pos(&self, b: int, s: int, f: int) -> int {
        flat(flat(b, s, self.seq as int), f, self.width as int)
    }

    /// Entry `(b, s, f)`.
    pub open spec fn at(&self, b: int, s: int, f: int) -> T {
        self.data@[self.pos(b, s, f)]
    }

    pub open spec fn shape(&self) -> Shape3 {
        Shape3 { batch: self.batch, seq: self.seq, width: self.width }
    }

    /// Wraps `data` as a `batch` by `seq` by `width` tensor; `None` when its
    /// length is not the product of the three.
    pub fn from_vec(batch: usize, seq: usize, width: usize, data: Vec<T>) -> (r: Option<Tensor3<T>>)
        ensures
            r is Some <==> data@.len() == batch * seq * width,
            r matches Some(t) ==> t.batch == batch && t.seq == seq && t.width == width
                && t.data@ == data@,
    {
        let len = data.len();
        if width == 0 {
            proof {
                assert(batch * seq * width == 0) by (nonlinear_arith)
                    requires
                        width == 0,
                ;
            }
            if len == 0 {
                return Some(Tensor3 { batch, seq, width, data });
            }
            return None;
        }
        let rows = match batch.checked_mul(seq) {
            Some(rows) => rows,
            None => {
                proof {
                    assert(batch * seq * width >= batch * seq) by (nonlinear_arith)
                        requires
                            batch * seq >= 0,
                            width >= 1,
                    ;
                }
                return None;
            },
        };
        match Matrix::from_vec(rows, width, data) {
            Some(m) => Some(Tensor3 { batch, seq, width, data: m.data }),
            None => None,
        }
    }

    /// The tensor's dimensions.
    pub fn shape_of(&self) -> (r: Shape3)
        ensures
            r == self.shape(),
    {
        Shape3 { batch: self.batch, seq: self.seq, width: self.width }
    }
}

impl<T> Tensor4<T> {
    pub open spec fn wf(&self) -> bool {
        self.data@.len() == self.d0 * self.d1 * self.d2 * self.d3
    }

    /// Flat position of entry `(a, b, c, d)`.
    pub open spec fn pos(&self, a: int, b: int, c: int, d: int) -> int {
        flat(flat(flat(a, b, self.d1 as int), c, self.d2 as int), d, self.d3 as int)
    }

    /// Entry `(a, b, c, d)`.
    pub open spec fn at(&self, a: int, b: int, c: int, d: int) -> T {
        self.data@[self.pos(a, b, c, d)]
    }
}

} // verus!
