//! A transparent wrapper for a bidirectional byte stream.
//!
//! The relay layer moves bytes between stream types of different I/O
//! ecosystems; this cell carries the wrapped stream through that plumbing.
//! The library guarantees only that the wrapper is transparent: what goes
//! in is what comes out. The I/O trait implementations that make the
//! wrapper useful live with the unverified plumbing outside the library.

use vstd::prelude::*;

verus! {

/// A wrapper around a bidirectional stream of some I/O ecosystem.
#[derive(Debug)]
pub struct BiStream<T> where T: Send + 'static {
    inner: T,
}

impl<T> BiStream<T> where T: Send + 'static {
    /// The wrapped stream.
    pub closed spec fn spec_inner(&self) -> T {
        self.inner
    }

    pub fn new(inner: T) -> (r: Self)
        ensures
            r.spec_inner() == inner,
    {
        Self { inner }
    }

    /// Borrow the inner stream.
    pub fn inner(&self) -> (r: &T)
        ensures
            *r == self.spec_inner(),
    {
        &self.inner
    }

    /// Mutably borrow the inner stream.
    pub fn inner_mut(&mut self) -> (r: &mut T)
        ensures
            *r == old(self).spec_inner(),
            final(self).spec_inner() == *final(r),
    {
        &mut self.inner
    }

    /// Consume the wrapper and take the inner stream back.
    pub fn into_inner(self) -> (r: T)
        ensures
            r == self.spec_inner(),
    {
        self.inner
    }
}

} // verus!
