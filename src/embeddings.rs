//! Row lookups that build hidden states from token, position and segment ids.

use vstd::prelude::*;
use crate::index::{flat, lemma_flat_bound, lemma_flat_parts, lemma_flat_split};
use crate::shape::ShapeError;
use crate::tensor::{Matrix, Tensor3};

verus! {

/// Sizes of the three embedding tables.
#[derive(PartialEq, Eq, Structural, Clone, Copy, Debug)]
pub struct EmbeddingConfig {
    pub vocab_size: usize,
    pub hidden_size: usize,
    pub max_position_embeddings: usize,
    pub type_vocab_size: usize,
}

/// Whether every id in `ids` names a row of a table with `rows` rows.
pub open spec fn ids_in_range(ids: Seq<usize>, rows: usize) -> bool {
    forall|i: int| 0 <= i < ids.len() ==> #[trigger] ids[i] < rows
}

/// Replaces every id of the `batch` by `seq` matrix `ids` with its row of
/// `table`, giving a `(batch, seq, table.cols)` tensor.
pub fn gather_rows<T: Copy>(table: &Matrix<T>, ids: &Matrix<usize>) -> (r: Result<Tensor3<T>, ShapeError>)
    requires
        table.wf(),
        ids.wf(),
        ids.data@.len() * table.cols <= usize::MAX,
    ensures
        r is Ok <==> ids_in_range(ids.data@, table.rows),
        r matches Err(e) ==> e matches ShapeError::IndexOutOfRange { index, len }
            && len == table.rows && index >= table.rows && ids.data@.contains(index),
        r matches Ok(t) ==> {
            &&& t.wf()
            &&& t.batch == ids.rows && t.seq == ids.cols && t.width == table.cols
            &&& forall|b: int, s: int, f: int|
                0 <= b < t.batch && 0 <= s < t.seq && 0 <= f < t.width
                    ==> #[trigger] t.at(b, s, f) == table.at(ids.at(b, s) as int, f)
        },
{
    let m = ids.data.len();
    let mut k: usize = 0;
    while k < m
        invariant
            m == ids.data@.len(),
            k <= m,
            forall|j: int| 0 <= j < k ==> #[trigger] ids.data@[j] < table.rows,
        decreases m - k,
    {
        let id = ids.data[k];
        if id >= table.rows {
            proof {
                assert(ids.data@[k as int] == id);
            }
            return Err(ShapeError::IndexOutOfRange { index: id, len: table.rows });
        }
        k = k + 1;
    }
    let width = table.cols;
    let n = m * width;
    let table_len = table.data.len();
    let mut out: Vec<T> = Vec::with_capacity(n);
    if width == 0 {
        proof {
            assert(n == 0) by (nonlinear_arith)
                requires
                    n == m * width,
                    width == 0,
            ;
        }
    } else {
        let mut i: usize = 0;
        while i < n
            invariant
                m == ids.data@.len(),
                n == m * width,
                width == table.cols,
                width > 0,
                table.wf(),
                ids_in_range(ids.data@, table.rows),
                i <= n,
                table_len == table.data@.len(),
                out@.len() == i,
                forall|j: int| 0 <= j < i ==> #[trigger] out@[j]
                    == table.data@[flat(ids.data@[j / width as int] as int, j % width as int, width as int)],
            decreases n - i,
        {
            let row = i / width;
            let col = i % width;
            proof {
                lemma_flat_parts(i as int, m as int, width as int);
                lemma_flat_bound(ids.data@[row as int] as int, col as int, table.rows as int, width as int);
                assert(table.rows * width == table.data@.len()) by (nonlinear_arith)
                    requires
                        table.data@.len() == table.rows * table.cols,
                        width == table.cols,
                ;
                assert(ids.data@[row as int] < table.rows);
                assert(ids.data@[row as int] * width <= flat(ids.data@[row as int] as int, col as int, width as int));
            }
            let src = ids.data[row] * width + col;
            out.push(table.data[src]);
            i = i + 1;
        }
    }
    assert(out@.len() == n);
    let r = Tensor3 { batch: ids.rows, seq: ids.cols, width, data: out };
    proof {
        assert(r.wf()) by (nonlinear_arith)
            requires
                r.data@.len() == m * width,
                m == ids.rows * ids.cols,
                r.batch == ids.rows,
                r.seq == ids.cols,
                r.width == width,
        ;
        assert forall|b: int, s: int, f: int|
            0 <= b < r.batch && 0 <= s < r.seq && 0 <= f < r.width
                implies #[trigger] r.at(b, s, f) == table.at(ids.at(b, s) as int, f) by {
            let k = flat(b, s, ids.cols as int);
            lemma_flat_bound(b, s, ids.rows as int, ids.cols as int);
            lemma_flat_bound(k, f, m as int, width as int);
            lemma_flat_split(k, f, width as int);
        }
    }
    Ok(r)
}

/// The `batch` by `seq` matrix whose entry `(b, s)` is the position `s`.
pub fn position_ids(batch: usize, seq: usize) -> (r: Matrix<usize>)
    requires
        batch * seq <= usize::MAX,
    ensures
        r.wf(),
        r.rows == batch && r.cols == seq,
        forall|b: int, s: int| 0 <= b < batch && 0 <= s < seq ==> #[trigger] r.at(b, s) == s,
{
    let n = batch * seq;
    let mut data: Vec<usize> = Vec::with_capacity(n);
    if seq > 0 {
        let mut i: usize = 0;
        while i < n
            invariant
                n == batch * seq,
                seq > 0,
                i <= n,
                data@.len() == i,
                forall|j: int| 0 <= j < i ==> #[trigger] data@[j] == j % seq as int,
            decreases n - i,
        {
            data.push(i % seq);
            i = i + 1;
        }
    }
    let r = Matrix { rows: batch, cols: seq, data };
    proof {
        assert forall|b: int, s: int| 0 <= b < batch && 0 <= s < seq implies #[trigger] r.at(b, s) == s by {
            lemma_flat_bound(b, s, batch as int, seq as int);
            lemma_flat_split(b, s, seq as int);
        }
    }
    r
}

/// The `batch` by `seq` matrix of segment ids used when none are given: all zero.
pub fn zero_ids(batch: usize, seq: usize) -> (r: Matrix<usize>)
    requires
        batch * seq <= usize::MAX,
    ensures
        r.wf(),
        r.rows == batch && r.cols == seq,
        forall|i: int| 0 <= i < r.data@.len() ==> #[trigger] r.data@[i] == 0,
{
    let n = batch * seq;
    let mut data: Vec<usize> = Vec::with_capacity(n);
    let mut i: usize = 0;
    while i < n
        invariant
            i <= n,
            data@.len() == i,
            forall|j: int| 0 <= j < i ==> #[trigger] data@[j] == 0,
        decreases n - i,
    {
        data.push(0);
        i = i + 1;
    }
    Matrix { rows: batch, cols: seq, data }
}

} // verus!
