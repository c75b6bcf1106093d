//! Ownership modes: what an array's storage is, and what may be done to it.
//!
//! Three kinds of backing store exist. A `Vec<T>` owns its buffer. A `&[T]`
//! looks at a buffer that someone else owns. A `&mut [T]` has that buffer to
//! itself for as long as the borrow lasts. All three can be read ([`Data`]);
//! the first and the last can also be written ([`DataMut`]).

use vstd::prelude::*;

verus! {

/// Storage that can be read.
pub trait Data {
    /// The element type.
    type Elem;

    /// The whole buffer, as it is now.
    spec fn buffer(&self) -> Seq<Self::Elem>;

    /// A buffer's length is a `usize`.
    proof fn lemma_buffer_len(&self)
        ensures
            self.buffer().len() <= usize::MAX,
    ;

    /// The buffer as a shared slice.
    fn as_elems(&self) -> (r: &[Self::Elem])
        ensures
            r@ == self.buffer(),
    ;
}

/// Storage that can also be written.
pub trait DataMut: Data {
    /// The buffer as an exclusive slice. Once that borrow ends, the buffer is
    /// whatever the borrower left in the slice.
    fn as_elems_mut(&mut self) -> (r: &mut [Self::Elem])
        ensures
            r@ == old(self).buffer(),
            final(self).buffer() == final(r)@,
    ;
}

impl<T> Data for Vec<T> {
    type Elem = T;

    open spec fn buffer(&self) -> Seq<T> {
        self@
    }

    proof fn lemma_buffer_len(&self) {
        assert(self@.len() == self.len());
    }

    fn as_elems(&self) -> (r: &[T]) {
        self.as_slice()
    }
}

impl<T> DataMut for Vec<T> {
    fn as_elems_mut(&mut self) -> (r: &mut [T]) {
        self.as_mut_slice()
    }
}

impl<'a, T> Data for &'a [T] {
    type Elem = T;

    open spec fn buffer(&self) -> Seq<T> {
        self@
    }

    proof fn lemma_buffer_len(&self) {
        assert(self@.len() == self.len());
    }

    fn as_elems(&self) -> (r: &[T]) {
        *self
    }
}

impl<'a, T> Data for &'a mut [T] {
    type Elem = T;

    open spec fn buffer(&self) -> Seq<T> {
        self@
    }

    proof fn lemma_buffer_len(&self) {
        assert(self@.len() == self.len());
    }

    fn as_elems(&self) -> (r: &[T]) {
        &**self
    }
}

impl<'a, T> DataMut for &'a mut [T] {
    /// Reborrowing does not change whose buffer this is: what the outer
    /// borrow will finally hold is still decided by the same reference.
    fn as_elems_mut(&mut self) -> (r: &mut [T])
        ensures
            final(*final(self))@ == final(*old(self))@,
    {
        &mut **self
    }
}

} // verus!
