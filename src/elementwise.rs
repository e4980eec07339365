//! Elementwise application of a function to one tensor or to two of the
//! same shape.

use vstd::prelude::*;
use crate::layer::{residual, residual_shape};
use crate::shape::ShapeError;
use crate::tensor::Tensor3;

verus! {

/// Applies `f` to every entry of `x`, keeping its shape.
pub fn map_elements<A: Copy, B, F: Fn(A) -> B>(x: &Tensor3<A>, f: F) -> (r: Tensor3<B>)
    requires
        x.wf(),
        forall|i: int| 0 <= i < x.data@.len() ==> f.requires((#[trigger] x.data@[i],)),
    ensures
        r.wf(),
        r.shape() == x.shape(),
        r.data@.len() == x.data@.len(),
        forall|i: int| 0 <= i < x.data@.len() ==> f.ensures((x.data@[i],), #[trigger] r.data@[i]),
{
    let n = x.data.len();
    let mut out: Vec<B> = Vec::with_capacity(n);
    let mut i: usize = 0;
    while i < n
        invariant
            n == x.data@.len(),
            i <= n,
            out@.len() == i,
            forall|j: int| 0 <= j < n ==> f.requires((#[trigger] x.data@[j],)),
            forall|j: int| 0 <= j < i ==> f.ensures((x.data@[j],), #[trigger] out@[j]),
        decreases n - i,
    {
        let v = f(x.data[i]);
        out.push(v);
        i = i + 1;
    }
    Tensor3 { batch: x.batch, seq: x.seq, width: x.width, data: out }
}

/// Combines `a` and `b` entry by entry with `f`; they must have the same shape.
pub fn zip_elements<A: Copy, B, F: Fn(A, A) -> B>(a: &Tensor3<A>, b: &Tensor3<A>, f: F) -> (r: Result<Tensor3<B>, ShapeError>)
    requires
        a.wf(),
        b.wf(),
        forall|i: int| 0 <= i < a.data@.len() && i < b.data@.len()
            ==> f.requires((#[trigger] a.data@[i], b.data@[i])),
    ensures
        residual(a.shape(), b.shape()) is Err ==> r == Err::<Tensor3<B>, ShapeError>(
            residual(a.shape(), b.shape())->Err_0,
        ),
        residual(a.shape(), b.shape()) is Ok ==> r is Ok,
        r matches Ok(t) ==> {
            &&& t.wf()
            &&& t.shape() == a.shape()
            &&& t.data@.len() == a.data@.len()
            &&& forall|i: int| 0 <= i < a.data@.len()
                ==> f.ensures((a.data@[i], b.data@[i]), #[trigger] t.data@[i])
        },
{
    match residual_shape(a.shape_of(), b.shape_of()) {
        Err(e) => { return Err(e); },
        Ok(_) => {},
    }
    let n = a.data.len();
    let mut out: Vec<B> = Vec::with_capacity(n);
    let mut i: usize = 0;
    while i < n
        invariant
            n == a.data@.len(),
            n == b.data@.len(),
            i <= n,
            out@.len() == i,
            forall|j: int| 0 <= j < n ==> f.requires((#[trigger] a.data@[j], b.data@[j])),
            forall|j: int| 0 <= j < i ==> f.ensures((a.data@[j], b.data@[j]), #[trigger] out@[j]),
        decreases n - i,
    {
        let v = f(a.data[i], b.data[i]);
        out.push(v);
        i = i + 1;
    }
    Ok(Tensor3 { batch: a.batch, seq: a.seq, width: a.width, data: out })
}

} // verus!
