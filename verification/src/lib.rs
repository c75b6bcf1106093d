//! Dense two-dimensional arrays over row-major storage, with zero-copy
//! rectangular views.
//!
//! An [`Array`] pairs a [`Layout`] (shape, row stride, base offset) with a
//! backing store. The store decides the ownership mode: a `Vec` owns its
//! buffer, a shared slice gives a read-only view, and an exclusive slice gives
//! a writable view of somebody else's buffer.

pub mod array;
pub mod data;
pub mod error;
pub mod layout;
pub mod matrix;
pub mod product;
pub mod range;
pub mod ring;

pub use array::{Array, ArrayView, ArrayViewMut, Matrix};
pub use data::{Data, DataMut};
pub use error::ArrayError;
pub use layout::{Layout, Region};
pub use product::{multiply, product_shape};
pub use range::ArrayRange;
pub use ring::Ring;
