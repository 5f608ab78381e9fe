//! A cap on the number of bytes taken from a stream.

use vstd::prelude::*;

verus! {

/// The answer to a stream that has delivered more than its limit.
#[derive(Clone, Copy, Debug, PartialEq, Eq)]
pub struct LimitError;

/// A stream together with the count of the bytes it has delivered and the
/// limit that the count must not pass.
pub struct Limit<S> {
    inner: S,
    count: u64,
    limit: u64,
}

impl<S> Limit<S> {
    /// The stream.
    pub closed spec fn stream(&self) -> S {
        self.inner
    }

    /// The number of bytes delivered so far; it stops counting at the largest
    /// value it can hold.
    pub closed spec fn count(&self) -> u64 {
        self.count
    }

    /// The number of bytes that may be delivered.
    pub closed spec fn limit(&self) -> u64 {
        self.limit
    }

    /// Wraps `inner`, which has delivered nothing yet.
    pub fn new(inner: S, limit: u64) -> (r: Self)
        ensures
            r.stream() == inner,
            r.count() == 0,
            r.limit() == limit,
    {
        Limit { inner, count: 0, limit }
    }

    /// Takes note of a chunk of `len` bytes and refuses it if the stream has
    /// then delivered more than its limit.
    pub fn observe(&mut self, len: usize) -> (r: Result<(), LimitError>)
        ensures
            final(self).stream() == old(self).stream(),
            final(self).limit() == old(self).limit(),
            final(self).count() == if old(self).count() + len <= u64::MAX {
                (old(self).count() + len) as u64
            } else {
                u64::MAX
            },
            r is Err <==> old(self).count() + len > old(self).limit(),
    {
        let added = len as u64;
        let (total, over) = match self.count.checked_add(added) {
            Some(c) => (c, c > self.limit),
            None => (u64::MAX, true),
        };
        self.count = total;
        if over {
            Err(LimitError)
        } else {
            Ok(())
        }
    }

    /// The number of bytes delivered so far.
    pub fn delivered(&self) -> (r: u64)
        ensures
            r == self.count(),
    {
        self.count
    }

    /// The stream, for polling.
    pub fn get_mut(&mut self) -> (r: &mut S)
        ensures
            *r == old(self).stream(),
            final(self).stream() == *final(r),
            final(self).count() == old(self).count(),
            final(self).limit() == old(self).limit(),
    {
        &mut self.inner
    }

    /// Gives the stream back.
    pub fn into_inner(self) -> (r: S)
        ensures
            r == self.stream(),
    {
        self.inner
    }
}

} // verus!
