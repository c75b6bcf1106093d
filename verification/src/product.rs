//! Matrix multiplication over any ring.

use vstd::prelude::*;

use crate::array::{Array, Matrix};
use crate::data::Data;
use crate::error::ArrayError;
use crate::layout::Layout;
use crate::matrix::identity;
use crate::ring::{lemma_mul_zero, lemma_zero_add, Ring};

verus! {

/// The inner product of the first `k` entries of `x` and `y`, accumulated
/// from the left: `((0 + x0 * y0) + x1 * y1) + ...`.
pub open spec fn dot_prefix<R: Ring>(x: Seq<R>, y: Seq<R>, k: nat) -> R
    decreases k,
{
    if k == 0 {
        R::zero_value()
    } else {
        dot_prefix(x, y, (k - 1) as nat).sum(x[k - 1].product(y[k - 1]))
    }
}

/// The inner product of `x` with the first `x.len()` entries of `y`.
pub open spec fn dot<R: Ring>(x: Seq<R>, y: Seq<R>) -> R {
    dot_prefix(x, y, x.len())
}

/// Column `j` of a matrix given as rows.
pub open spec fn column<R>(b: Seq<Seq<R>>, j: int) -> Seq<R> {
    Seq::new(b.len(), |t: int| b[t][j])
}

/// The product of `a` with the `n`-column matrix `b`: entry `(i, j)` is the
/// inner product of row `i` of `a` with column `j` of `b`.
pub open spec fn product<R: Ring>(a: Seq<Seq<R>>, b: Seq<Seq<R>>, n: nat) -> Seq<Seq<R>> {
    Seq::new(a.len(), |i: int| Seq::new(n, |j: int| dot(a[i], column(b, j))))
}

/// Against a vector that is one at position `p` and zero elsewhere, the
/// inner product picks entry `p` of the other vector.
proof fn lemma_dot_unit_left<R: Ring>(x: Seq<R>, y: Seq<R>, p: int, k: nat)
    requires
        forall|t: int|
            0 <= t < k ==> #[trigger] x[t] == if t == p {
                R::one_value()
            } else {
                R::zero_value()
            },
    ensures
        dot_prefix(x, y, k) == if 0 <= p < k {
            y[p]
        } else {
            R::zero_value()
        },
    decreases k,
{
    if k > 0 {
        lemma_dot_unit_left(x, y, p, (k - 1) as nat);
        let t = k - 1;
        if t == p {
            R::lemma_mul_one(y[t]);
            lemma_zero_add(y[t]);
        } else {
            lemma_mul_zero(y[t]);
            R::lemma_add_zero(dot_prefix(x, y, (k - 1) as nat));
        }
    }
}

/// The mirror image: the unit vector on the right.
proof fn lemma_dot_unit_right<R: Ring>(x: Seq<R>, y: Seq<R>, p: int, k: nat)
    requires
        forall|t: int|
            0 <= t < k ==> #[trigger] y[t] == if t == p {
                R::one_value()
            } else {
                R::zero_value()
            },
    ensures
        dot_prefix(x, y, k) == if 0 <= p < k {
            x[p]
        } else {
            R::zero_value()
        },
    decreases k,
{
    if k > 0 {
        lemma_dot_unit_right(x, y, p, (k - 1) as nat);
        let t = k - 1;
        if t == p {
            R::lemma_mul_one(x[t]);
            lemma_zero_add(x[t]);
        } else {
            lemma_mul_zero(x[t]);
            R::lemma_add_zero(dot_prefix(x, y, (k - 1) as nat));
        }
    }
}

/// Identity law, left: the identity times `a` is `a`, for every matrix `a`
/// whose rows all have `n` entries.
pub proof fn lemma_identity_left<R: Ring>(a: Seq<Seq<R>>, n: nat)
    requires
        forall|i: int| 0 <= i < a.len() ==> (#[trigger] a[i]).len() == n,
    ensures
        product(identity::<R>(a.len()), a, n) == a,
{
    let e = identity::<R>(a.len());
    let p = product(e, a, n);
    assert forall|i: int| 0 <= i < a.len() implies #[trigger] p[i] == a[i] by {
        assert forall|j: int| 0 <= j < n implies #[trigger] p[i][j] == a[i][j] by {
            lemma_dot_unit_left(e[i], column(a, j), i, a.len());
        }
    }
}

/// Identity law, right: `a` times the identity is `a`, for every matrix `a`
/// whose rows all have `n` entries.
pub proof fn lemma_identity_right<R: Ring>(a: Seq<Seq<R>>, n: nat)
    requires
        forall|i: int| 0 <= i < a.len() ==> (#[trigger] a[i]).len() == n,
    ensures
        product(a, identity::<R>(n), n) == a,
{
    let e = identity::<R>(n);
    let p = product(a, e, n);
    assert forall|i: int| 0 <= i < a.len() implies #[trigger] p[i] == a[i] by {
        assert forall|j: int| 0 <= j < n implies #[trigger] p[i][j] == a[i][j] by {
            lemma_dot_unit_right(a[i], column(e, j), j, n);
        }
    }
}

/// The shape of the product of an `a[0]` by `a[1]` array with a `b[0]` by
/// `b[1]` array: `[a[0], b[1]]`, or `ShapeMismatch` unless `a[1] == b[0]`.
pub fn product_shape(a: [usize; 2], b: [usize; 2]) -> (r: Result<[usize; 2], ArrayError>)
    ensures
        a[1] == b[0] ==> (r matches Ok(s) && s@ == seq![a[0], b[1]]),
        a[1] != b[0] ==> (r matches Err(e) && e == ArrayError::ShapeMismatch),
{
    if a[1] == b[0] {
        Ok([a[0], b[1]])
    } else {
        Err(ArrayError::ShapeMismatch)
    }
}

/// Entry `(i, j)` of the product of `a` and `b`.
fn entry<A, B, R>(a: &Array<A, R>, b: &Array<B, R>, i: usize, j: usize) -> (x: R) where
    A: Data<Elem = R>,
    B: Data<Elem = R>,
    R: Ring,

    requires
        a.wf(),
        b.wf(),
        a.layout().cols == b.layout().rows,
        i < a.layout().rows,
        j < b.layout().cols,
    ensures
        x == dot(a@[i as int], column(b@, j as int)),
{
    let k: usize = a.cols();
    let mut acc: R = R::zero();
    let mut t: usize = 0;
    while t < k
        invariant
            t <= k,
            a.wf(),
            b.wf(),
            k == a.layout().cols,
            k == b.layout().rows,
            i < a.layout().rows,
            j < b.layout().cols,
            acc == dot_prefix(a@[i as int], column(b@, j as int), t as nat),
        decreases k - t,
    {
        let term: R = a.cell(i, t).mul(b.cell(t, j));
        acc = acc.add(&term);
        t += 1;
    }
    acc
}

/// The matrix product of `a` and `b`, in a new array that owns its storage.
///
/// Fails with `ShapeMismatch` unless `a` has as many columns as `b` has rows.
/// Each entry is accumulated from the left, starting from zero.
pub fn multiply<A, B, R>(a: &Array<A, R>, b: &Array<B, R>) -> (r: Result<Matrix<R>, ArrayError>) where
    A: Data<Elem = R>,
    B: Data<Elem = R>,
    R: Ring,

    requires
        a.wf(),
        b.wf(),
        a.layout().cols == b.layout().rows ==> a.layout().rows * b.layout().cols <= usize::MAX,
    ensures
        a.layout().cols == b.layout().rows ==> (r matches Ok(c) && c.wf() && c.layout()
            == Layout::dense(a.layout().rows, b.layout().cols) && c@ == product(
            a@,
            b@,
            b.layout().cols as nat,
        )),
        a.layout().cols != b.layout().rows ==> (r matches Err(e) && e
            == ArrayError::ShapeMismatch),
{
    let shape: [usize; 2] = product_shape(a.shape(), b.shape())?;
    let cell = |i: usize, j: usize| -> (x: R)
        requires
            i < a.layout().rows,
            j < b.layout().cols,
        ensures
            x == dot(a@[i as int], column(b@, j as int)),
        { entry(a, b, i, j) };
    let c = Matrix::from_fn(shape, cell);
    assert(c@ =~~= product(a@, b@, b.layout().cols as nat));
    Ok(c)
}

} // verus!
