//! The strided array: one layout over one backing store, in three ownership
//! modes.
//!
//! A writable view holds an exclusive borrow of its source's buffer, and the
//! contracts speak of that borrow in two tenses. `v.buffer()` is what the
//! buffer holds now; `final(v.data())@` is what it will hold when the borrow
//! ends, which is what the source then finds in its own buffer. Every
//! operation on a view leaves the second unchanged, so a chain of writes
//! through views of views still ends in the source. `has_resolved(v)` holds
//! once the view has been dropped: from then on the two tenses agree.

use vstd::prelude::*;
use vstd::std_specs::convert::IntoSpec;

use crate::data::{Data, DataMut};
use crate::error::ArrayError;
use crate::layout::{submatrix, Layout, Region};
use crate::range::ArrayRange;

verus! {

/// A rectangular window into row-major storage.
///
/// `A` is the backing store and decides what the array may do: every `Array`
/// can be read and sliced; one over a `Vec<U>` or a `&mut [U]` can also be
/// written and sliced mutably.
#[verifier::reject_recursive_types(A)]
#[verifier::reject_recursive_types(U)]
#[derive(Debug)]
pub struct Array<A, U> where A: Data<Elem = U> {
    layout: Layout,
    data: A,
}

/// An array that owns its buffer.
pub type Matrix<R> = Array<Vec<R>, R>;

/// A read-only view of another array's buffer.
pub type ArrayView<'a, U> = Array<&'a [U], U>;

/// A writable view that has another array's buffer to itself while it lives.
pub type ArrayViewMut<'a, U> = Array<&'a mut [U], U>;

/// An array is the matrix it shows: a sequence of `rows` rows, each of `cols`
/// elements.
impl<A, U> View for Array<A, U> where A: Data<Elem = U> {
    type V = Seq<Seq<U>>;

    open spec fn view(&self) -> Seq<Seq<U>> {
        self.layout().matrix(self.buffer())
    }
}

impl<A, U> Array<A, U> where A: Data<Elem = U> {
    /// Shape, stride and base of the window.
    pub closed spec fn layout(&self) -> Layout {
        self.layout
    }

    /// The backing store.
    pub closed spec fn data(&self) -> A {
        self.data
    }

    /// The whole underlying buffer, of which the array shows a window.
    pub open spec fn buffer(&self) -> Seq<U> {
        self.data().buffer()
    }

    /// The window lies inside the buffer. Every constructor establishes this
    /// and every operation keeps it.
    pub open spec fn wf(&self) -> bool {
        self.layout().fits(self.buffer().len())
    }

    /// Pairs a layout with the storage it describes.
    pub(crate) fn assemble(layout: Layout, data: A) -> (r: Self)
        requires
            layout.fits(data.buffer().len()),
        ensures
            r.wf(),
            r.layout() == layout,
            r.data() == data,
    {
        Array { layout, data }
    }

    /// Number of rows.
    pub fn rows(&self) -> (r: usize)
        ensures
            r == self.layout().rows,
    {
        self.layout.rows
    }

    /// Number of columns.
    pub fn cols(&self) -> (r: usize)
        ensures
            r == self.layout().cols,
    {
        self.layout.cols
    }

    /// `[rows, cols]`.
    pub fn shape(&self) -> (r: [usize; 2])
        ensures
            r[0] == self.layout().rows,
            r[1] == self.layout().cols,
    {
        [self.layout.rows, self.layout.cols]
    }

    /// Number of buffer elements from the start of one row to the start of the
    /// next.
    #[inline]
    pub fn stride(&self) -> (r: usize)
        ensures
            r == self.layout().stride,
    {
        self.layout.stride
    }

    /// The buffer index of cell `(i, j)`, if there is such a cell.
    fn offset(&self, i: usize, j: usize) -> (r: Result<usize, ArrayError>)
        requires
            self.wf(),
        ensures
            self.layout().holds(i as int, j as int) ==> r == Ok::<usize, ArrayError>(
                self.layout().addr(i as int, j as int) as usize,
            ) && self.layout().addr(i as int, j as int) < self.buffer().len(),
            !self.layout().holds(i as int, j as int) ==> r == Err::<usize, ArrayError>(
                ArrayError::OutOfBounds,
            ),
    {
        if i < self.layout.rows && j < self.layout.cols {
            proof {
                self.data.lemma_buffer_len();
                self.layout.lemma_addr_in_bounds(self.buffer().len(), i as int, j as int);
            }
            Ok(self.layout.start + i * self.layout.stride + j)
        } else {
            Err(ArrayError::OutOfBounds)
        }
    }

    /// The layout of the sub-window that a pair of ranges selects.
    fn select(&self, is: ArrayRange, js: ArrayRange) -> (r: Result<(Layout, Ghost<Region>), ArrayError>)
        requires
            self.wf(),
        ensures
            match self.layout().region(is, js) {
                Ok(g) => r matches Ok(w) && w.1@ == g && w.0 == self.layout().window(g)
                    && w.0.fits(self.buffer().len()),
                Err(e) => r matches Err(x) && x == e,
            },
    {
        let (r0, r1) = is.resolve(self.layout.rows)?;
        let (c0, c1) = js.resolve(self.layout.cols)?;
        let ghost g = Region { r0, r1, c0, c1 };
        proof {
            self.data.lemma_buffer_len();
            self.layout.lemma_window_fits(self.buffer().len(), g);
        }
        let start: usize = if r0 < r1 && c0 < c1 {
            proof {
                self.layout.lemma_addr_in_bounds(self.buffer().len(), r0 as int, c0 as int);
            }
            self.layout.start + r0 * self.layout.stride + c0
        } else {
            self.layout.start
        };
        Ok(
            (
                Layout { rows: r1 - r0, cols: c1 - c0, stride: self.layout.stride, start },
                Ghost(g),
            ),
        )
    }

    /// Cell `(i, j)`, which the caller knows to exist.
    pub(crate) fn cell(&self, i: usize, j: usize) -> (r: &U)
        requires
            self.wf(),
            self.layout().holds(i as int, j as int),
        ensures
            *r == self@[i as int][j as int],
    {
        proof {
            self.data.lemma_buffer_len();
            self.layout.lemma_addr_in_bounds(self.buffer().len(), i as int, j as int);
        }
        &self.data.as_elems()[self.layout.start + i * self.layout.stride + j]
    }

    /// Reads cell `(i, j)`.
    ///
    /// Fails with `OutOfBounds` unless `i < rows` and `j < cols`.
    pub fn get(&self, i: usize, j: usize) -> (r: Result<&U, ArrayError>)
        requires
            self.wf(),
        ensures
            self.layout().holds(i as int, j as int) ==> r == Ok::<&U, ArrayError>(
                &self@[i as int][j as int],
            ),
            !self.layout().holds(i as int, j as int) ==> r == Err::<&U, ArrayError>(
                ArrayError::OutOfBounds,
            ),
    {
        let k: usize = self.offset(i, j)?;
        Ok(&self.data.as_elems()[k])
    }

    /// The stretch of the buffer that the window spans, from its first cell
    /// to its last: cell `(i, j)` is element `i * stride + j` of it. Empty
    /// where the array has no cell.
    pub fn span(&self) -> (r: &[U])
        requires
            self.wf(),
        ensures
            r@.len() == self.layout().extent(),
            !self.layout().is_empty() ==> r@ == self.buffer().subrange(
                self.layout().start as int,
                self.layout().start + self.layout().extent(),
            ),
            forall|i: int, j: int|
                self.layout().holds(i, j) ==> 0 <= i * self.layout().stride + j < r@.len()
                    && r@[i * self.layout().stride + j] == #[trigger] self@[i][j],
    {
        let cells = self.data.as_elems();
        if self.layout.rows == 0 || self.layout.cols == 0 {
            &cells[0..0]
        } else {
            proof {
                self.data.lemma_buffer_len();
                self.layout.lemma_addr_in_bounds(
                    self.buffer().len(),
                    self.layout.rows - 1,
                    self.layout.cols - 1,
                );
                assert forall|i: int, j: int| self.layout().holds(i, j) implies 0 <= i
                    * self.layout().stride + j < self.layout().extent() by {
                    self.layout.lemma_addr_in_bounds(self.buffer().len(), i, j);
                    assert(i * self.layout.stride <= (self.layout.rows - 1) * self.layout.stride)
                        by (nonlinear_arith)
                        requires
                            i <= self.layout.rows - 1,
                            0 <= self.layout.stride,
                    ;
                }
            }
            let first: usize = self.layout.start;
            let last: usize = first + (self.layout.rows - 1) * self.layout.stride
                + self.layout.cols;
            &cells[first..last]
        }
    }

    /// A read-only view of rows `is` and columns `js`.
    ///
    /// Nothing is copied: the view shows the same buffer through a narrower
    /// window. An open end means the end of the dimension. A range that starts
    /// beyond its end is an `InvalidRange`, one that ends beyond the dimension
    /// is `OutOfBounds`; the row range is examined first. An empty range is
    /// fine and gives a view without cells.
    pub fn slice<'a, I, J>(&'a self, is: I, js: J) -> (r: Result<Array<&'a [U], U>, ArrayError>)
        where
            I: Into<ArrayRange>,
            J: Into<ArrayRange>,
        requires
            self.wf(),
        ensures
            r matches Ok(v) ==> v.wf() && v.buffer() == self.buffer(),
            I::obeys_into_spec() && J::obeys_into_spec() ==> match self.layout().region(
                is.into_spec(),
                js.into_spec(),
            ) {
                Ok(g) => r matches Ok(v) && v.layout() == self.layout().window(g) && v@
                    == submatrix(self@, g) && forall|i: int, j: int|
                    v.layout().holds(i, j) ==> #[trigger] v@[i][j] == self@[g.r0 + i][g.c0 + j],
                Err(e) => r matches Err(x) && x == e,
            },
    {
        let is: ArrayRange = is.into();
        let js: ArrayRange = js.into();
        let (layout, Ghost(g)) = self.select(is, js)?;
        proof {
            self.data.lemma_buffer_len();
            self.layout.lemma_window_matrix(self.buffer(), g);
        }
        Ok(Array { layout, data: self.data.as_elems() })
    }
}

impl<U> Array<Vec<U>, U> {
    /// Writes `value` into cell `(i, j)`.
    ///
    /// Fails with `OutOfBounds`, changing nothing, unless `i < rows` and
    /// `j < cols`.
    pub fn set(&mut self, i: usize, j: usize, value: U) -> (r: Result<(), ArrayError>)
        requires
            old(self).wf(),
        ensures
            final(self).wf(),
            final(self).layout() == old(self).layout(),
            old(self).layout().holds(i as int, j as int) ==> r == Ok::<(), ArrayError>(())
                && final(self).buffer() == old(self).buffer().update(
                old(self).layout().addr(i as int, j as int),
                value,
            ) && final(self)@ == old(self)@.update(
                i as int,
                old(self)@[i as int].update(j as int, value),
            ),
            !old(self).layout().holds(i as int, j as int) ==> r == Err::<(), ArrayError>(
                ArrayError::OutOfBounds,
            ) && final(self).buffer() == old(self).buffer(),
    {
        let k: usize = self.offset(i, j)?;
        proof {
            self.layout.lemma_matrix_update(self.buffer(), i as int, j as int, value);
        }
        let cells = self.data.as_elems_mut();
        cells[k] = value;
        Ok(())
    }

    /// A writable view of rows `is` and columns `js`.
    ///
    /// The ranges are read as by [`slice`](Array::slice). While the view
    /// lives it is the only way to the buffer; when it is gone, this array's
    /// buffer is what the view left behind.
    pub fn slice_mut<'a, I, J>(&'a mut self, is: I, js: J) -> (r: Result<
        Array<&'a mut [U], U>,
        ArrayError,
    >)
        where
            I: Into<ArrayRange>,
            J: Into<ArrayRange>,
        requires
            old(self).wf(),
        ensures
            final(self).layout() == old(self).layout(),
            match r {
                Ok(v) => v.wf() && v.buffer() == old(self).buffer() && final(self).buffer()
                    == final(v.data())@ && (has_resolved(v) ==> v.buffer() == final(v.data())@),
                Err(_) => final(self).buffer() == old(self).buffer(),
            },
            I::obeys_into_spec() && J::obeys_into_spec() ==> match old(self).layout().region(
                is.into_spec(),
                js.into_spec(),
            ) {
                Ok(g) => r matches Ok(v) && v.layout() == old(self).layout().window(g) && v@
                    == submatrix(old(self)@, g),
                Err(e) => r matches Err(x) && x == e,
            },
    {
        let is: ArrayRange = is.into();
        let js: ArrayRange = js.into();
        let (layout, Ghost(g)) = self.select(is, js)?;
        proof {
            self.data.lemma_buffer_len();
            self.layout.lemma_window_matrix(self.buffer(), g);
        }
        Ok(Array { layout, data: self.data.as_elems_mut() })
    }
}

impl<'b, U> Array<&'b mut [U], U> {
    /// Writes `value` into cell `(i, j)` of the borrowed buffer.
    ///
    /// Fails with `OutOfBounds`, changing nothing, unless `i < rows` and
    /// `j < cols`. The view goes on borrowing from the same source.
    pub fn set(&mut self, i: usize, j: usize, value: U) -> (r: Result<(), ArrayError>)
        requires
            old(self).wf(),
        ensures
            final(self).wf(),
            final(self).layout() == old(self).layout(),
            final(final(self).data())@ == final(old(self).data())@,
            has_resolved(*final(self)) ==> final(self).buffer() == final(final(self).data())@,
            old(self).layout().holds(i as int, j as int) ==> r == Ok::<(), ArrayError>(())
                && final(self).buffer() == old(self).buffer().update(
                old(self).layout().addr(i as int, j as int),
                value,
            ) && final(self)@ == old(self)@.update(
                i as int,
                old(self)@[i as int].update(j as int, value),
            ),
            !old(self).layout().holds(i as int, j as int) ==> r == Err::<(), ArrayError>(
                ArrayError::OutOfBounds,
            ) && final(self).buffer() == old(self).buffer(),
    {
        let k: usize = self.offset(i, j)?;
        proof {
            self.layout.lemma_matrix_update(self.buffer(), i as int, j as int, value);
        }
        let cells = self.data.as_elems_mut();
        cells[k] = value;
        Ok(())
    }

    /// A writable view of rows `is` and columns `js` of this view.
    ///
    /// The ranges are read as by [`slice`](Array::slice). While the inner
    /// view lives it is the only way to the buffer; when it is gone, this
    /// view's buffer is what the inner view left behind, and this view goes on
    /// borrowing from the same source.
    pub fn slice_mut<'a, I, J>(&'a mut self, is: I, js: J) -> (r: Result<
        Array<&'a mut [U], U>,
        ArrayError,
    >)
        where
            I: Into<ArrayRange>,
            J: Into<ArrayRange>,
        requires
            old(self).wf(),
        ensures
            final(self).layout() == old(self).layout(),
            final(final(self).data())@ == final(old(self).data())@,
            has_resolved(*final(self)) ==> final(self).buffer() == final(final(self).data())@,
            match r {
                Ok(v) => v.wf() && v.buffer() == old(self).buffer() && final(self).buffer()
                    == final(v.data())@ && (has_resolved(v) ==> v.buffer() == final(v.data())@),
                Err(_) => final(self).buffer() == old(self).buffer(),
            },
            I::obeys_into_spec() && J::obeys_into_spec() ==> match old(self).layout().region(
                is.into_spec(),
                js.into_spec(),
            ) {
                Ok(g) => r matches Ok(v) && v.layout() == old(self).layout().window(g) && v@
                    == submatrix(old(self)@, g),
                Err(e) => r matches Err(x) && x == e,
            },
    {
        let is: ArrayRange = is.into();
        let js: ArrayRange = js.into();
        let (layout, Ghost(g)) = self.select(is, js)?;
        proof {
            self.data.lemma_buffer_len();
            self.layout.lemma_window_matrix(self.buffer(), g);
        }
        Ok(Array { layout, data: self.data.as_elems_mut() })
    }
}

} // verus!
