//! The geometry of a rectangular window into row-major storage.

use vstd::prelude::*;

use crate::error::ArrayError;
use crate::range::ArrayRange;

verus! {

/// Rows `[r0, r1)` and columns `[c0, c1)` of some window.
#[derive(Debug, Clone, Copy, PartialEq, Eq, Structural)]
pub struct Region {
    pub r0: usize,
    pub r1: usize,
    pub c0: usize,
    pub c1: usize,
}

/// Shape, row stride and base offset of a window into a flat buffer.
///
/// Cell `(i, j)` of the window lives at `start + i * stride + j`. The stride is
/// that of the allocation the window was cut from, so it may exceed `cols`.
#[derive(Debug, Clone, Copy, PartialEq, Eq, Structural)]
pub struct Layout {
    pub rows: usize,
    pub cols: usize,
    pub stride: usize,
    pub start: usize,
}

impl Layout {
    /// The layout of a freshly allocated `rows` by `cols` buffer.
    pub open spec fn dense(rows: usize, cols: usize) -> Layout {
        Layout { rows, cols, stride: cols, start: 0 }
    }

    /// No cell at all.
    pub open spec fn is_empty(self) -> bool {
        self.rows == 0 || self.cols == 0
    }

    /// `(i, j)` names a cell of the window.
    pub open spec fn holds(self, i: int, j: int) -> bool {
        0 <= i < self.rows && 0 <= j < self.cols
    }

    /// Where cell `(i, j)` lives in the buffer.
    pub open spec fn addr(self, i: int, j: int) -> int {
        self.start + i * self.stride + j
    }

    /// How many buffer elements lie between the first cell and the last, both
    /// included; zero where there is no cell.
    pub open spec fn extent(self) -> int {
        if self.is_empty() {
            0
        } else {
            (self.rows - 1) * self.stride + self.cols
        }
    }

    /// The window lies inside a buffer of `len` elements, and no two of its
    /// cells share an address.
    pub open spec fn fits(self, len: nat) -> bool {
        &&& self.cols <= self.stride
        &&& !self.is_empty() ==> self.start + self.extent() <= len
    }

    /// The sub-window of rows `[r0, r1)` and columns `[c0, c1)`.
    ///
    /// The stride is kept, the shape narrows, and the base moves to the
    /// sub-window's first cell. A sub-window without cells has no first cell;
    /// it keeps the base it was cut from.
    pub open spec fn window(self, g: Region) -> Layout
        recommends
            self.covers(g),
    {
        Layout {
            rows: (g.r1 - g.r0) as usize,
            cols: (g.c1 - g.c0) as usize,
            stride: self.stride,
            start: if g.r0 < g.r1 && g.c0 < g.c1 {
                self.addr(g.r0 as int, g.c0 as int) as usize
            } else {
                self.start
            },
        }
    }

    /// The region is well-formed and lies inside the window.
    pub open spec fn covers(self, g: Region) -> bool {
        g.r0 <= g.r1 <= self.rows && g.c0 <= g.c1 <= self.cols
    }

    /// The region that a pair of ranges selects: each range is resolved
    /// against its dimension, rows first, and the first failure is reported.
    pub open spec fn region(self, is: ArrayRange, js: ArrayRange) -> Result<Region, ArrayError> {
        match is.resolution(self.rows) {
            Err(e) => Err(e),
            Ok((r0, r1)) => match js.resolution(self.cols) {
                Err(e) => Err(e),
                Ok((c0, c1)) => Ok(Region { r0, r1, c0, c1 }),
            },
        }
    }

    /// The matrix that the window shows of `buf`: row `i`, column `j` is the
    /// element at `addr(i, j)`.
    pub open spec fn matrix<U>(self, buf: Seq<U>) -> Seq<Seq<U>> {
        Seq::new(
            self.rows as nat,
            |i: int| Seq::new(self.cols as nat, |j: int| buf[self.addr(i, j)]),
        )
    }

    /// Every cell of a window that fits lies inside the buffer.
    pub proof fn lemma_addr_in_bounds(self, len: nat, i: int, j: int)
        requires
            self.fits(len),
            self.holds(i, j),
        ensures
            0 <= self.start + i * self.stride <= self.addr(i, j) < len,
            0 <= i * self.stride,
    {
        assert(0 <= i * self.stride <= (self.rows - 1) * self.stride) by (nonlinear_arith)
            requires
                0 <= i <= self.rows - 1,
                0 <= self.stride,
        ;
    }

    /// Distinct cells have distinct addresses.
    pub proof fn lemma_addr_injective(self, i: int, j: int, p: int, q: int)
        requires
            self.cols <= self.stride,
            self.holds(i, j),
            self.holds(p, q),
            self.addr(i, j) == self.addr(p, q),
        ensures
            i == p,
            j == q,
    {
        if i < p {
            assert((p - i) * self.stride >= self.stride) by (nonlinear_arith)
                requires
                    p - i >= 1,
                    self.stride >= 0,
            ;
            assert(p * self.stride - i * self.stride == (p - i) * self.stride)
                by (nonlinear_arith);
        } else if p < i {
            assert((i - p) * self.stride >= self.stride) by (nonlinear_arith)
                requires
                    i - p >= 1,
                    self.stride >= 0,
            ;
            assert(i * self.stride - p * self.stride == (i - p) * self.stride)
                by (nonlinear_arith);
        }
    }

    /// A freshly allocated buffer is exactly filled by its dense layout.
    pub proof fn lemma_dense_fits(rows: usize, cols: usize)
        ensures
            Self::dense(rows, cols).fits((rows * cols) as nat),
    {
        if rows > 0 {
            assert((rows - 1) * cols + cols == rows * cols) by (nonlinear_arith);
        }
    }

    /// Cell `(i, j)` of a sub-window is cell `(r0 + i, c0 + j)` of the window
    /// it was cut from: same address, hence same element.
    pub proof fn lemma_window_addr(self, g: Region, i: int, j: int)
        requires
            self.covers(g),
            self.addr(g.r0 as int, g.c0 as int) <= usize::MAX,
            self.window(g).holds(i, j),
        ensures
            self.holds(g.r0 + i, g.c0 + j),
            self.window(g).addr(i, j) == self.addr(g.r0 + i, g.c0 + j),
    {
        assert((g.r0 + i) * self.stride == g.r0 * self.stride + i * self.stride)
            by (nonlinear_arith);
        assert(0 <= g.r0 * self.stride) by (nonlinear_arith)
            requires
                0 <= g.r0,
                0 <= self.stride,
        ;
    }

    /// A sub-window of a window that fits also fits, and its base is
    /// representable.
    pub proof fn lemma_window_fits(self, len: nat, g: Region)
        requires
            self.fits(len),
            self.covers(g),
        ensures
            self.window(g).fits(len),
            g.r0 < g.r1 && g.c0 < g.c1 ==> 0 <= self.addr(g.r0 as int, g.c0 as int) < len,
    {
        if g.r0 < g.r1 && g.c0 < g.c1 {
            self.lemma_addr_in_bounds(len, g.r0 as int, g.c0 as int);
            assert(g.r0 * self.stride + (g.r1 - g.r0 - 1) * self.stride == (g.r1 - 1)
                * self.stride) by (nonlinear_arith);
            assert((g.r1 - 1) * self.stride <= (self.rows - 1) * self.stride)
                by (nonlinear_arith)
                requires
                    g.r1 <= self.rows,
                    0 <= self.stride,
            ;
        }
    }

    /// Slicing re-indexes and nothing else: the matrix seen through a
    /// sub-window is the matching block of the matrix seen through the window.
    pub proof fn lemma_window_matrix<U>(self, buf: Seq<U>, g: Region)
        requires
            buf.len() <= usize::MAX,
            self.fits(buf.len()),
            self.covers(g),
        ensures
            self.window(g).matrix(buf) == submatrix(self.matrix(buf), g),
    {
        let w = self.window(g);
        let sub = submatrix(self.matrix(buf), g);
        self.lemma_window_fits(buf.len(), g);
        assert forall|i: int| 0 <= i < w.rows implies #[trigger] w.matrix(buf)[i] == sub[i] by {
            assert forall|j: int| 0 <= j < w.cols implies #[trigger] w.matrix(buf)[i][j]
                == sub[i][j] by {
                self.lemma_window_addr(g, i, j);
            }
        }
    }

    /// Writing one cell's address changes that cell of the matrix and no
    /// other.
    pub proof fn lemma_matrix_update<U>(self, buf: Seq<U>, i: int, j: int, value: U)
        requires
            self.fits(buf.len()),
            self.holds(i, j),
        ensures
            self.matrix(buf.update(self.addr(i, j), value)) == self.matrix(buf).update(
                i,
                self.matrix(buf)[i].update(j, value),
            ),
    {
        let m = self.matrix(buf);
        let a = self.matrix(buf.update(self.addr(i, j), value));
        let b = m.update(i, m[i].update(j, value));
        self.lemma_addr_in_bounds(buf.len(), i, j);
        assert forall|p: int| 0 <= p < self.rows implies #[trigger] a[p] == b[p] by {
            assert forall|q: int| 0 <= q < self.cols implies #[trigger] a[p][q] == b[p][q] by {
                self.lemma_addr_in_bounds(buf.len(), p, q);
                if self.addr(p, q) == self.addr(i, j) {
                    self.lemma_addr_injective(p, q, i, j);
                }
            }
        }
    }

    /// A write through a sub-window is a write to the window it was cut from:
    /// storing `value` at the address of the sub-window's cell `(i, j)`
    /// changes cell `(r0 + i, c0 + j)` of the source, and no other.
    pub proof fn lemma_write_through<U>(self, buf: Seq<U>, g: Region, i: int, j: int, value: U)
        requires
            buf.len() <= usize::MAX,
            self.fits(buf.len()),
            self.covers(g),
            self.window(g).holds(i, j),
        ensures
            self.holds(g.r0 + i, g.c0 + j),
            self.matrix(buf.update(self.window(g).addr(i, j), value)) == self.matrix(buf).update(
                g.r0 + i,
                self.matrix(buf)[g.r0 + i].update(g.c0 + j, value),
            ),
            self.matrix(buf.update(self.window(g).addr(i, j), value))[g.r0 + i][g.c0 + j]
                == value,
    {
        self.lemma_window_fits(buf.len(), g);
        self.lemma_window_addr(g, i, j);
        self.lemma_matrix_update(buf, g.r0 + i, g.c0 + j, value);
    }
}

/// The block of a matrix, given as a sequence of rows, that a region names:
/// entry `(i, j)` of the block is entry `(r0 + i, c0 + j)` of the matrix.
pub open spec fn submatrix<U>(m: Seq<Seq<U>>, g: Region) -> Seq<Seq<U>> {
    Seq::new((g.r1 - g.r0) as nat, |i: int| m[g.r0 + i].subrange(g.c0 as int, g.c1 as int))
}

} // verus!
