//! Hashing a stream while it is read: the digest takes in every byte that
//! passes and is handed out once the stream has ended.

use vstd::prelude::*;
use vstd::slice::slice_subrange;

verus! {

/// The SHA-256 digest of a byte string.
pub uninterp spec fn sha256(bytes: Seq<u8>) -> Seq<u8>;

/// A running SHA-256 computation.
#[verifier::external_body]
pub struct Digester {
    state: sha2::Sha256,
}

/// The bytes that a running computation has taken in since it was started or
/// last reset.
pub uninterp spec fn absorbed(d: Digester) -> Seq<u8>;

/// `Sha256::new`: a computation that has taken in nothing.
#[verifier::external_body]
fn digester_new() -> (r: Digester)
    ensures
        absorbed(r) == Seq::<u8>::empty(),
{
    Digester { state: sha2::Digest::new() }
}

/// `Digest::update`: the computation takes in `data` after what it has.
#[verifier::external_body]
fn digester_update(d: &mut Digester, data: &[u8])
    ensures
        absorbed(*final(d)) == absorbed(*old(d)) + data@,
{
    sha2::Digest::update(&mut d.state, data)
}

/// `Digest::finalize_reset`: the digest of what the computation has taken
/// in, thirty-two bytes long; the computation starts afresh.
#[verifier::external_body]
fn digester_finalize_reset(d: &mut Digester) -> (r: Vec<u8>)
    ensures
        r@ == sha256(absorbed(*old(d))),
        r@.len() == 32,
        absorbed(*final(d)) == Seq::<u8>::empty(),
{
    sha2::Digest::finalize_reset(&mut d.state).to_vec()
}

impl Digester {
    /// A computation that has taken in nothing.
    pub fn new() -> (r: Self)
        ensures
            absorbed(r) == Seq::<u8>::empty(),
    {
        digester_new()
    }

    /// Takes in `data`.
    pub fn update(&mut self, data: &[u8])
        ensures
            absorbed(*final(self)) == absorbed(*old(self)) + data@,
    {
        digester_update(self, data)
    }

    /// The digest of what has been taken in; the computation starts afresh.
    pub fn finalize_reset(&mut self) -> (r: Vec<u8>)
        ensures
            r@ == sha256(absorbed(*old(self))),
            r@.len() == 32,
            absorbed(*final(self)) == Seq::<u8>::empty(),
    {
        digester_finalize_reset(self)
    }
}

/// The SHA-256 digest of `data`.
pub fn digest(data: &[u8]) -> (r: Vec<u8>)
    ensures
        r@ == sha256(data@),
        r@.len() == 32,
{
    let mut d = Digester::new();
    d.update(data);
    assert(Seq::<u8>::empty() + data@ =~= data@);
    d.finalize_reset()
}

/// A reader with a digest that follows what is read from it.
pub struct Hasher<I> {
    inner: I,
    hasher: Digester,
    ended: bool,
}

impl<I> Hasher<I> {
    /// The reader.
    pub closed spec fn reader(&self) -> I {
        self.inner
    }

    /// The bytes that have passed through the reader.
    pub closed spec fn passed(&self) -> Seq<u8> {
        absorbed(self.hasher)
    }

    /// Whether the reader has reported its end.
    pub closed spec fn ended(&self) -> bool {
        self.ended
    }

    /// Wraps `reader`, through which nothing has passed yet, with `digest`.
    pub fn new(reader: I, digest: Digester) -> (r: Self)
        ensures
            r.reader() == reader,
            r.passed() == absorbed(digest),
            !r.ended(),
    {
        Hasher { inner: reader, hasher: digest, ended: false }
    }

    /// The reader, for polling.
    pub fn get_mut(&mut self) -> (r: &mut I)
        ensures
            *r == old(self).reader(),
            final(self).reader() == *final(r),
            final(self).passed() == old(self).passed(),
            final(self).ended() == old(self).ended(),
    {
        &mut self.inner
    }

    /// The running digest.
    pub fn hasher(&self) -> (r: &Digester)
        ensures
            absorbed(*r) == self.passed(),
    {
        &self.hasher
    }

    /// Takes note of one completed read into a buffer. `filled` is the
    /// filled part of the buffer after the read, of which the first
    /// `before_len` bytes were there before; `room` says whether the buffer
    /// had room left before the read. The digest takes in what the read
    /// added. A read that adds nothing to a buffer with room is the end of
    /// the stream.
    pub fn after_read(&mut self, filled: &[u8], before_len: usize, room: bool)
        ensures
            final(self).reader() == old(self).reader(),
            final(self).passed() == if before_len < filled@.len() {
                old(self).passed() + filled@.subrange(before_len as int, filled@.len() as int)
            } else {
                old(self).passed()
            },
            final(self).ended() == (old(self).ended() || (room && filled@.len() <= before_len)),
    {
        let after_len = filled.len();
        if after_len > before_len {
            self.hasher.update(slice_subrange(filled, before_len, after_len));
        } else if room {
            self.ended = true;
        }
    }

    /// The digest of everything that has passed, once the stream has ended.
    /// Before that nothing is handed out and the digest goes on.
    pub fn finalize(&mut self) -> (r: Option<Vec<u8>>)
        ensures
            final(self).reader() == old(self).reader(),
            final(self).ended() == old(self).ended(),
            match r {
                Some(d) => old(self).ended() && d@ == sha256(old(self).passed()) && d@.len() == 32
                    && final(self).passed() == Seq::<u8>::empty(),
                None => !old(self).ended() && final(self).passed() == old(self).passed(),
            },
    {
        if self.ended {
            Some(self.hasher.finalize_reset())
        } else {
            None
        }
    }
}

} // verus!
