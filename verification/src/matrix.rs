//! Building arrays that own their storage.

use vstd::prelude::*;

use crate::array::Matrix;
use crate::error::ArrayError;
use crate::layout::Layout;
use crate::ring::Ring;

verus! {

/// The `m` by `n` matrix whose every entry is `x`.
pub open spec fn constant<U>(m: nat, n: nat, x: U) -> Seq<Seq<U>> {
    Seq::new(m, |i: int| Seq::new(n, |j: int| x))
}

/// The `n` by `n` identity matrix: one on the diagonal, zero elsewhere.
pub open spec fn identity<R: Ring>(n: nat) -> Seq<Seq<R>> {
    Seq::new(
        n,
        |i: int|
            Seq::new(
                n,
                |j: int|
                    if i == j {
                        R::one_value()
                    } else {
                        R::zero_value()
                    },
            ),
    )
}

/// Every row is as long as the first.
pub open spec fn rectangular<U>(rows: Seq<Vec<U>>) -> bool {
    forall|i: int| 0 <= i < rows.len() ==> (#[trigger] rows[i])@.len() == rows[0]@.len()
}

/// The nested literal as a matrix: row `i` is the contents of `rows[i]`.
pub open spec fn literal<U>(rows: Seq<Vec<U>>) -> Seq<Seq<U>> {
    Seq::new(rows.len(), |i: int| rows[i]@)
}

impl<U> Matrix<U> {
    /// The `shape[0]` by `shape[1]` array whose cell `(i, j)` is `f(i, j)`.
    ///
    /// `f` is called once per cell, row by row, and the array is not handed
    /// out before every cell is filled.
    #[inline]
    pub fn from_fn<F>(shape: [usize; 2], f: F) -> (r: Self) where F: Fn(usize, usize) -> U
        requires
            shape[0] * shape[1] <= usize::MAX,
            forall|i: usize, j: usize|
                i < shape[0] && j < shape[1] ==> call_requires(f, (i, j)),
        ensures
            r.wf(),
            r.layout() == Layout::dense(shape[0], shape[1]),
            r.buffer().len() == shape[0] * shape[1],
            forall|i: usize, j: usize|
                i < shape[0] && j < shape[1] ==> call_ensures(
                    f,
                    (i, j),
                    #[trigger] r@[i as int][j as int],
                ),
    {
        let m: usize = shape[0];
        let n: usize = shape[1];
        let ghost dense = Layout::dense(m, n);
        let mut data: Vec<U> = Vec::with_capacity(m * n);
        let mut i: usize = 0;
        while i < m
            invariant
                i <= m,
                m * n <= usize::MAX,
                dense == Layout::dense(m, n),
                data@.len() == i * n,
                forall|p: usize, q: usize|
                    p < m && q < n ==> call_requires(f, (p, q)),
                forall|p: usize, q: usize|
                    p < i && q < n ==> call_ensures(
                        f,
                        (p, q),
                        data@[#[trigger] dense.addr(p as int, q as int)],
                    ),
            decreases m - i,
        {
            let mut j: usize = 0;
            while j < n
                invariant
                    i < m,
                    j <= n,
                    m * n <= usize::MAX,
                    dense == Layout::dense(m, n),
                    data@.len() == i * n + j,
                    forall|p: usize, q: usize|
                        p < m && q < n ==> call_requires(f, (p, q)),
                    forall|p: usize, q: usize|
                        (p < i && q < n) || (p == i && q < j) ==> call_ensures(
                            f,
                            (p, q),
                            data@[#[trigger] dense.addr(p as int, q as int)],
                        ),
                decreases n - j,
            {
                let x = f(i, j);
                proof {
                    assert forall|p: usize, q: usize|
                        (p < i && q < n) || (p == i && q < j) implies #[trigger] dense.addr(
                        p as int,
                        q as int,
                    ) < i * n + j by {
                        if p < i {
                            assert(p * n + n <= i * n) by (nonlinear_arith)
                                requires
                                    p < i,
                            ;
                        }
                    }
                }
                data.push(x);
                j += 1;
            }
            proof {
                assert(i * n + n == (i + 1) * n) by (nonlinear_arith);
            }
            i += 1;
        }
        proof {
            Layout::lemma_dense_fits(m, n);
        }
        Matrix::assemble(Layout { rows: m, cols: n, stride: n, start: 0 }, data)
    }

    /// The array that a nested literal spells out, row by row.
    ///
    /// Fails with `RaggedRows`, building nothing, unless all rows have the
    /// same length. No rows at all give the 0 by 0 array.
    pub fn from_literal(rows: Vec<Vec<U>>) -> (r: Result<Self, ArrayError>)
        ensures
            rectangular(rows@) ==> (r matches Ok(a) && a.wf() && a@ == literal(rows@)
                && a.layout() == Layout::dense(
                rows@.len() as usize,
                if rows@.len() == 0 {
                    0
                } else {
                    rows@[0]@.len() as usize
                },
            )),
            !rectangular(rows@) ==> (r matches Err(e) && e == ArrayError::RaggedRows),
    {
        let m: usize = rows.len();
        let n: usize = if m == 0 {
            0
        } else {
            rows[0].len()
        };
        let mut i: usize = 0;
        while i < m
            invariant
                i <= m,
                m == rows@.len(),
                m > 0 ==> n == rows@[0]@.len(),
                forall|p: int| 0 <= p < i ==> (#[trigger] rows@[p])@.len() == n,
            decreases m - i,
        {
            if rows[i].len() != n {
                return Err(ArrayError::RaggedRows);
            }
            i += 1;
        }
        let ghost lit = rows@;
        let ghost dense = Layout::dense(m, n);
        let mut data: Vec<U> = Vec::new();
        for row in it: rows
            invariant
                dense == Layout::dense(m, n),
                it.seq() == lit,
                m == lit.len(),
                forall|p: int| 0 <= p < m ==> (#[trigger] lit[p])@.len() == n,
                data@.len() == it.index() * n,
                forall|p: int, q: int|
                    0 <= p < it.index() && 0 <= q < n ==> data@[#[trigger] dense.addr(p, q)]
                        == lit[p]@[q],
        {
            let mut row = row;
            proof {
                let k = it.index() as int;
                assert(k * n + n == (k + 1) * n) by (nonlinear_arith);
                assert forall|p: int, q: int| 0 <= p < k && 0 <= q < n implies #[trigger] dense.addr(
                    p,
                    q,
                ) < k * n by {
                    assert(p * n + n <= k * n) by (nonlinear_arith)
                        requires
                            p < k,
                    ;
                }
            }
            data.append(&mut row);
        }
        proof {
            Layout::lemma_dense_fits(m, n);
        }
        let a = Matrix::assemble(Layout { rows: m, cols: n, stride: n, start: 0 }, data);
        assert(a@ =~~= literal(lit));
        Ok(a)
    }
}

impl<R: Ring> Matrix<R> {
    /// The array of the given shape whose every cell is zero.
    #[inline]
    pub fn zero(shape: [usize; 2]) -> (r: Self)
        requires
            shape[0] * shape[1] <= usize::MAX,
        ensures
            r.wf(),
            r.layout() == Layout::dense(shape[0], shape[1]),
            r.buffer().len() == shape[0] * shape[1],
            r@ == constant(shape[0] as nat, shape[1] as nat, R::zero_value()),
    {
        let fill = |i: usize, j: usize| -> (x: R)
            ensures
                x == R::zero_value(),
            { R::zero() };
        let r = Matrix::from_fn(shape, fill);
        assert(r@ =~~= constant(shape[0] as nat, shape[1] as nat, R::zero_value()));
        r
    }

    /// The `n` by `n` identity: one on the diagonal, zero elsewhere.
    #[inline]
    pub fn id(n: usize) -> (r: Matrix<R>)
        requires
            n * n <= usize::MAX,
        ensures
            r.wf(),
            r.layout() == Layout::dense(n, n),
            r.buffer().len() == n * n,
            r@ == identity::<R>(n as nat),
    {
        let diagonal = |i: usize, j: usize| -> (x: R)
            ensures
                x == if i == j {
                    R::one_value()
                } else {
                    R::zero_value()
                },
            {
                if i == j {
                    R::one()
                } else {
                    R::zero()
                }
            };
        let r = Matrix::from_fn([n, n], diagonal);
        assert(r@ =~~= identity::<R>(n as nat));
        r
    }
}

} // verus!
