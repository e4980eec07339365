//! Splitting the feature axis into attention heads and merging it back.

use vstd::prelude::*;
use crate::index::{flat, lemma_flat_bound, lemma_flat_parts, lemma_flat_split, lemma_parts4};
use crate::shape::{head_dim, ShapeError};
use crate::tensor::{Tensor3, Tensor4};

verus! {

/// Where output entry `i` of a `(batch, heads, seq, hd)` head split reads
/// its `(batch, seq, heads * hd)` input.
pub open spec fn split_source(i: int, heads: int, seq: int, hd: int) -> int {
    let d = i % hd;
    let s = (i / hd) % seq;
    let h = (i / hd / seq) % heads;
    let b = i / hd / seq / heads;
    flat(flat(flat(b, s, seq), h, heads), d, hd)
}

/// Where output entry `i` of a `(batch, seq, heads * hd)` head merge reads
/// its `(batch, heads, seq, hd)` input.
pub open spec fn merge_source(i: int, heads: int, seq: int, hd: int) -> int {
    let d = i % hd;
    let h = (i / hd) % heads;
    let s = (i / hd / heads) % seq;
    let b = i / hd / heads / seq;
    flat(flat(flat(b, h, heads), s, seq), d, hd)
}

/// `t` is `x` with its feature axis split into `heads` heads of equal width,
/// laid out as `(batch, heads, seq, head width)`.
pub open spec fn is_head_split<T>(x: Tensor3<T>, heads: usize, t: Tensor4<T>) -> bool {
    &&& t.wf()
    &&& t.d0 == x.batch && t.d1 == heads && t.d2 == x.seq
    &&& t.d3 == x.width / heads
    &&& forall|b: int, h: int, s: int, d: int|
        0 <= b < t.d0 && 0 <= h < t.d1 && 0 <= s < t.d2 && 0 <= d < t.d3
            ==> #[trigger] t.at(b, h, s, d) == x.at(b, s, flat(h, d, t.d3 as int))
}

/// `r` is the `(batch, seq, heads * head width)` tensor whose features are the
/// heads of `x` side by side.
pub open spec fn is_head_merge<T>(x: Tensor4<T>, r: Tensor3<T>) -> bool {
    &&& r.wf()
    &&& r.batch == x.d0 && r.seq == x.d2 && r.width == x.d1 * x.d3
    &&& forall|b: int, s: int, h: int, d: int|
        0 <= b < x.d0 && 0 <= s < x.d2 && 0 <= h < x.d1 && 0 <= d < x.d3
            ==> #[trigger] r.at(b, s, flat(h, d, x.d3 as int)) == x.at(b, h, s, d)
}

proof fn lemma_mul4(a: int, b: int, c: int, d: int)
    ensures
        a * b * (c * d) == a * c * b * d,
        a * c * b * d == a * b * c * d,
{
    assert(a * b * (c * d) == a * c * b * d) by (nonlinear_arith);
    assert(a * c * b * d == a * b * c * d) by (nonlinear_arith);
}

proof fn lemma_flat_nest(k: int, h: int, d: int, heads: int, hd: int)
    ensures
        flat(k, flat(h, d, hd), heads * hd) == flat(flat(k, h, heads), d, hd),
{
    assert(k * (heads * hd) + (h * hd + d) == (k * heads + h) * hd + d) by (nonlinear_arith);
}

/// Reorders a `(batch, seq, heads * hd)` tensor into `(batch, heads, seq, hd)`,
/// so that each head becomes an independent block of `seq` rows.
pub fn split_heads<T: Copy>(x: &Tensor3<T>, num_heads: usize) -> (r: Result<Tensor4<T>, ShapeError>)
    requires
        x.wf(),
    ensures
        r is Err <==> !(num_heads > 0 && x.width % num_heads == 0),
        r is Err ==> r == Err::<Tensor4<T>, ShapeError>(
            ShapeError::HeadsDoNotDivide { hidden_size: x.width, num_heads },
        ),
        r matches Ok(t) ==> is_head_split(*x, num_heads, t),
{
    let hd = match head_dim(x.width, num_heads) {
        Ok(hd) => hd,
        Err(e) => { return Err(e); },
    };
    let n = x.data.len();
    proof {
        vstd::arithmetic::div_mod::lemma_fundamental_div_mod(x.width as int, num_heads as int);
        assert(x.width == num_heads * hd);
        lemma_mul4(x.batch as int, x.seq as int, num_heads as int, hd as int);
    }
    let ghost heads = num_heads as int;
    let ghost seq = x.seq as int;
    let mut out: Vec<T> = Vec::with_capacity(n);
    if hd == 0 || x.seq == 0 {
        proof {
            assert(n == 0) by (nonlinear_arith)
                requires
                    n == x.batch * num_heads * x.seq * hd,
                    hd == 0 || x.seq == 0,
            ;
        }
        let r = Tensor4 { d0: x.batch, d1: num_heads, d2: x.seq, d3: hd, data: out };
        proof {
            assert forall|b: int, h: int, s: int, d: int|
                0 <= b < r.d0 && 0 <= h < r.d1 && 0 <= s < r.d2 && 0 <= d < r.d3
                    implies #[trigger] r.at(b, h, s, d) == x.at(b, s, flat(h, d, r.d3 as int)) by {
                assert(false);
            }
        }
        return Ok(r);
    }
    let mut i: usize = 0;
    while i < n
        invariant
            n == x.data@.len(),
            n == x.batch * num_heads * x.seq * hd,
            x.width == num_heads * hd,
            hd > 0,
            x.seq > 0,
            num_heads > 0,
            heads == num_heads,
            seq == x.seq,
            i <= n,
            out@.len() == i,
            forall|j: int| 0 <= j < i ==> #[trigger] out@[j] == x.data@[split_source(j, heads, seq, hd as int)],
        decreases n - i,
    {
        let d = i % hd;
        let t = i / hd;
        let s = t % x.seq;
        let u = t / x.seq;
        let h = u % num_heads;
        let b = u / num_heads;
        proof {
            lemma_parts4(i as int, x.batch as int, heads, seq, hd as int);
            lemma_flat_bound(b as int, s as int, x.batch as int, seq);
            lemma_flat_bound(flat(b as int, s as int, seq), h as int, x.batch * seq, heads);
            lemma_flat_bound(flat(flat(b as int, s as int, seq), h as int, heads), d as int, x.batch * seq * heads, hd as int);
            lemma_mul4(x.batch as int, seq, heads, hd as int);
            let bs = x.batch * seq;
            assert(bs <= bs * heads <= bs * heads * hd) by (nonlinear_arith)
                requires
                    bs >= 0,
                    heads >= 1,
                    hd >= 1,
            ;
            assert(b * x.seq <= flat(b as int, s as int, seq));
            assert(flat(b as int, s as int, seq) * heads <= flat(flat(b as int, s as int, seq), h as int, heads));
            assert(flat(flat(b as int, s as int, seq), h as int, heads) * hd <= flat(flat(flat(b as int, s as int, seq), h as int, heads), d as int, hd as int));
        }
        let src = ((b * x.seq + s) * num_heads + h) * hd + d;
        out.push(x.data[src]);
        i = i + 1;
    }
    let r = Tensor4 { d0: x.batch, d1: num_heads, d2: x.seq, d3: hd, data: out };
    proof {
        assert forall|b: int, h: int, s: int, d: int|
            0 <= b < r.d0 && 0 <= h < r.d1 && 0 <= s < r.d2 && 0 <= d < r.d3
                implies #[trigger] r.at(b, h, s, d) == x.at(b, s, flat(h, d, r.d3 as int)) by {
            let j = r.pos(b, h, s, d);
            lemma_flat_bound(b, h, x.batch as int, heads);
            lemma_flat_bound(flat(b, h, heads), s, x.batch * heads, seq);
            lemma_flat_bound(flat(flat(b, h, heads), s, seq), d, x.batch * heads * seq, hd as int);
            lemma_flat_split(flat(flat(b, h, heads), s, seq), d, hd as int);
            lemma_flat_split(flat(b, h, heads), s, seq);
            lemma_flat_split(b, h, heads);
            assert(split_source(j, heads, seq, hd as int) == flat(flat(flat(b, s, seq), h, heads), d, hd as int));
            lemma_flat_nest(flat(b, s, seq), h, d, heads, hd as int);
        }
    }
    Ok(r)
}

/// Reorders a `(batch, heads, seq, hd)` tensor back into `(batch, seq, heads * hd)`,
/// restoring the feature order that `split_heads` took apart.
pub fn merge_heads<T: Copy>(x: &Tensor4<T>) -> (r: Tensor3<T>)
    requires
        x.wf(),
        x.d1 * x.d3 <= usize::MAX,
    ensures
        is_head_merge(*x, r),
{
    let heads = x.d1;
    let seq = x.d2;
    let hd = x.d3;
    let n = x.data.len();
    let width = heads * hd;
    proof {
        lemma_mul4(x.d0 as int, seq as int, heads as int, hd as int);
    }
    let mut out: Vec<T> = Vec::with_capacity(n);
    if hd == 0 || seq == 0 || heads == 0 {
        proof {
            assert(n == 0) by (nonlinear_arith)
                requires
                    n == x.d0 * heads * seq * hd,
                    hd == 0 || seq == 0 || heads == 0,
            ;
        }
        let r = Tensor3 { batch: x.d0, seq, width, data: out };
        proof {
            assert(r.wf()) by (nonlinear_arith)
                requires
                    r.data@.len() == 0,
                    r.width == heads * hd,
                    r.seq == seq,
                    hd == 0 || seq == 0 || heads == 0,
            ;
        }
        return r;
    }
    let mut i: usize = 0;
    while i < n
        invariant
            n == x.data@.len(),
            n == x.d0 * heads * seq * hd,
            heads == x.d1,
            seq == x.d2,
            hd == x.d3,
            hd > 0,
            seq > 0,
            heads > 0,
            i <= n,
            out@.len() == i,
            forall|j: int| 0 <= j < i ==> #[trigger] out@[j] == x.data@[merge_source(j, heads as int, seq as int, hd as int)],
        decreases n - i,
    {
        let d = i % hd;
        let t = i / hd;
        let h = t % heads;
        let u = t / heads;
        let s = u % seq;
        let b = u / seq;
        proof {
            lemma_mul4(x.d0 as int, seq as int, heads as int, hd as int);
            lemma_parts4(i as int, x.d0 as int, seq as int, heads as int, hd as int);
            lemma_flat_bound(b as int, h as int, x.d0 as int, heads as int);
            lemma_flat_bound(flat(b as int, h as int, heads as int), s as int, x.d0 * heads, seq as int);
            lemma_flat_bound(flat(flat(b as int, h as int, heads as int), s as int, seq as int), d as int, x.d0 * heads * seq, hd as int);
            let bh = x.d0 * heads;
            assert(bh <= bh * seq <= bh * seq * hd) by (nonlinear_arith)
                requires
                    bh >= 0,
                    seq >= 1,
                    hd >= 1,
            ;
        }
        let src = ((b * heads + h) * seq + s) * hd + d;
        out.push(x.data[src]);
        i = i + 1;
    }
    let r = Tensor3 { batch: x.d0, seq, width, data: out };
    proof {
        lemma_mul4(x.d0 as int, seq as int, heads as int, hd as int);
        assert forall|b: int, s: int, h: int, d: int|
            0 <= b < x.d0 && 0 <= s < x.d2 && 0 <= h < x.d1 && 0 <= d < x.d3
                implies #[trigger] r.at(b, s, flat(h, d, x.d3 as int)) == x.at(b, h, s, d) by {
            let j = flat(flat(flat(b, s, seq as int), h, heads as int), d, hd as int);
            lemma_flat_nest(flat(b, s, seq as int), h, d, heads as int, hd as int);
            lemma_flat_bound(b, s, x.d0 as int, seq as int);
            lemma_flat_bound(flat(b, s, seq as int), h, x.d0 * seq, heads as int);
            lemma_flat_bound(flat(flat(b, s, seq as int), h, heads as int), d, x.d0 * seq * heads, hd as int);
            lemma_flat_split(flat(flat(b, s, seq as int), h, heads as int), d, hd as int);
            lemma_flat_split(flat(b, s, seq as int), h, heads as int);
            lemma_flat_split(b, s, seq as int);
            assert(r.pos(b, s, flat(h, d, hd as int)) == j);
            assert(merge_source(j, heads as int, seq as int, hd as int) == x.pos(b, h, s, d));
        }
    }
    r
}

/// Swaps the last two axes: `(d0, d1, d2, d3)` becomes `(d0, d1, d3, d2)`,
/// turning each block of keys into its transpose for the score product.
pub fn transpose_last_two<T: Copy>(x: &Tensor4<T>) -> (r: Tensor4<T>)
    requires
        x.wf(),
    ensures
        r.wf(),
        r.d0 == x.d0 && r.d1 == x.d1 && r.d2 == x.d3 && r.d3 == x.d2,
        forall|a: int, b: int, c: int, d: int|
            0 <= a < r.d0 && 0 <= b < r.d1 && 0 <= c < r.d2 && 0 <= d < r.d3
                ==> #[trigger] r.at(a, b, c, d) == x.at(a, b, d, c),
{
    let ghost (n0, n1, n2, n3) = (x.d0 as int, x.d1 as int, x.d2 as int, x.d3 as int);
    let n = x.data.len();
    proof {
        assert(n0 * n1 * n2 * n3 == n0 * n1 * n3 * n2) by (nonlinear_arith);
    }
    let mut out: Vec<T> = Vec::with_capacity(n);
    if x.d1 == 0 || x.d2 == 0 || x.d3 == 0 {
        proof {
            assert(n == 0) by (nonlinear_arith)
                requires
                    n == n0 * n1 * n2 * n3,
                    n1 == 0 || n2 == 0 || n3 == 0,
            ;
        }
        let r = Tensor4 { d0: x.d0, d1: x.d1, d2: x.d3, d3: x.d2, data: out };
        proof {
            assert forall|a: int, b: int, c: int, d: int|
                0 <= a < r.d0 && 0 <= b < r.d1 && 0 <= c < r.d2 && 0 <= d < r.d3
                    implies #[trigger] r.at(a, b, c, d) == x.at(a, b, d, c) by {
                assert(false);
            }
        }
        return r;
    }
    let mut i: usize = 0;
    while i < n
        invariant
            n == x.data@.len(),
            n == n0 * n1 * n2 * n3,
            n == n0 * n1 * n3 * n2,
            n0 == x.d0 && n1 == x.d1 && n2 == x.d2 && n3 == x.d3,
            n1 > 0 && n2 > 0 && n3 > 0,
            i <= n,
            out@.len() == i,
            forall|j: int| 0 <= j < i ==> #[trigger] out@[j] == x.data@[
                flat(flat(flat(j / n2 / n3 / n1, (j / n2 / n3) % n1, n1), j % n2, n2), (j / n2) % n3, n3)],
        decreases n - i,
    {
        let d = i % x.d2;
        let c = (i / x.d2) % x.d3;
        let b = (i / x.d2 / x.d3) % x.d1;
        let a = i / x.d2 / x.d3 / x.d1;
        proof {
            lemma_parts4(i as int, n0, n1, n3, n2);
            lemma_flat_bound(a as int, b as int, n0, n1);
            lemma_flat_bound(flat(a as int, b as int, n1), d as int, n0 * n1, n2);
            lemma_flat_bound(flat(flat(a as int, b as int, n1), d as int, n2), c as int, n0 * n1 * n2, n3);
            let ab = n0 * n1;
            assert(ab <= ab * n2 <= ab * n2 * n3) by (nonlinear_arith)
                requires
                    ab >= 0,
                    n2 >= 1,
                    n3 >= 1,
            ;
            assert(a * n1 <= flat(a as int, b as int, n1));
            assert(flat(a as int, b as int, n1) * n2 <= flat(flat(a as int, b as int, n1), d as int, n2));
            assert(flat(flat(a as int, b as int, n1), d as int, n2) * n3
                <= flat(flat(flat(a as int, b as int, n1), d as int, n2), c as int, n3));
        }
        let src = ((a * x.d1 + b) * x.d2 + d) * x.d3 + c;
        out.push(x.data[src]);
        i = i + 1;
    }
    let r = Tensor4 { d0: x.d0, d1: x.d1, d2: x.d3, d3: x.d2, data: out };
    proof {
        assert forall|a: int, b: int, c: int, d: int|
            0 <= a < r.d0 && 0 <= b < r.d1 && 0 <= c < r.d2 && 0 <= d < r.d3
                implies #[trigger] r.at(a, b, c, d) == x.at(a, b, d, c) by {
            lemma_flat_bound(a, b, n0, n1);
            lemma_flat_bound(flat(a, b, n1), c, n0 * n1, n3);
            lemma_flat_bound(flat(flat(a, b, n1), c, n3), d, n0 * n1 * n3, n2);
            lemma_flat_split(flat(flat(a, b, n1), c, n3), d, n2);
            lemma_flat_split(flat(a, b, n1), c, n3);
            lemma_flat_split(a, b, n1);
        }
    }
    r
}

/// Merging the heads of a head split gives back the tensor that was split.
pub proof fn lemma_merge_undoes_split<T>(x: Tensor3<T>, heads: usize, t: Tensor4<T>, r: Tensor3<T>)
    requires
        x.wf(),
        heads > 0,
        x.width % heads == 0,
        is_head_split(x, heads, t),
        is_head_merge(t, r),
    ensures
        r.shape() == x.shape(),
        r.data@ == x.data@,
{
    let hd = t.d3 as int;
    let h = heads as int;
    vstd::arithmetic::div_mod::lemma_fundamental_div_mod(x.width as int, h);
    assert(x.width == h * hd);
    assert(r.width == x.width);
    assert(hd == 0 ==> x.width == 0) by (nonlinear_arith)
        requires
            x.width == h * hd,
    ;
    if hd > 0 {
        assert forall|i: int| 0 <= i < x.data@.len() implies r.data@[i] == x.data@[i] by {
            let bs = x.batch * x.seq;
            assert(bs * x.width == x.data@.len());
            if x.seq > 0 {
                lemma_flat_parts(i, bs, x.width as int);
                let k = i / x.width as int;
                let f = i % x.width as int;
                lemma_flat_parts(k, x.batch as int, x.seq as int);
                let b = k / x.seq as int;
                let s = k % x.seq as int;
                assert(h * hd == hd * h) by (nonlinear_arith);
                lemma_flat_parts(f, h, hd);
                let hh = f / hd;
                let d = f % hd;
                assert(f == flat(hh, d, hd));
                assert(k == flat(b, s, x.seq as int));
                assert(i == flat(k, f, x.width as int));
                assert(x.pos(b, s, flat(hh, d, hd)) == i);
                assert(r.pos(b, s, flat(hh, d, hd)) == i);
                assert(0 <= b < t.d0 && 0 <= hh < t.d1 && 0 <= s < t.d2 && 0 <= d < t.d3);
                assert(r.at(b, s, flat(hh, d, hd)) == t.at(b, hh, s, d));
                assert(t.at(b, hh, s, d) == x.at(b, s, flat(hh, d, hd)));
            } else {
                assert(false) by (nonlinear_arith)
                    requires
                        bs == x.batch * x.seq,
                        x.seq == 0,
                        bs * x.width == x.data@.len(),
                        0 <= i < x.data@.len(),
                ;
            }
        }
    } else {
        assert(x.width == 0);
        assert(x.data@.len() == 0) by (nonlinear_arith)
            requires
                x.data@.len() == x.batch * x.seq * x.width,
                x.width == 0,
        ;
        assert(r.data@.len() == 0) by (nonlinear_arith)
            requires
                r.data@.len() == r.batch * r.seq * r.width,
                r.width == 0,
        ;
    }
    assert(r.data@ =~= x.data@);
}

/// The head split of a tensor is determined by the tensor and the head count:
/// splitting the same input twice gives the same result.
pub proof fn lemma_head_split_unique<T>(x: Tensor3<T>, heads: usize, t1: Tensor4<T>, t2: Tensor4<T>)
    requires
        is_head_split(x, heads, t1),
        is_head_split(x, heads, t2),
    ensures
        t1.d0 == t2.d0 && t1.d1 == t2.d1 && t1.d2 == t2.d2 && t1.d3 == t2.d3,
        t1.data@ == t2.data@,
{
    let (n0, n1, n2, n3) = (t1.d0 as int, t1.d1 as int, t1.d2 as int, t1.d3 as int);
    assert forall|i: int| 0 <= i < t1.data@.len() implies t1.data@[i] == t2.data@[i] by {
        if n1 > 0 && n2 > 0 && n3 > 0 {
            lemma_parts4(i, n0, n1, n2, n3);
            let b = i / n3 / n2 / n1;
            let h = (i / n3 / n2) % n1;
            let s = (i / n3) % n2;
            let d = i % n3;
            assert(t1.pos(b, h, s, d) == i);
            assert(t1.at(b, h, s, d) == t2.at(b, h, s, d));
        } else {
            assert(false) by (nonlinear_arith)
                requires
                    t1.data@.len() == n0 * n1 * n2 * n3,
                    n1 <= 0 || n2 <= 0 || n3 <= 0,
                    n1 >= 0 && n2 >= 0 && n3 >= 0,
                    0 <= i < t1.data@.len(),
            ;
        }
    }
    assert(t1.data@ =~= t2.data@);
}

} // verus!
