//! Downstream byte sinks.
//!
//! A [`ByteSink`] accepts an ordered sequence of bytes with a
//! write-all-or-fail contract: a successful call has appended every byte
//! it was handed, and a failed call may have appended only a prefix of
//! them. The streaming encoder forwards every compressed chunk to such a
//! sink before accepting more input.

use vstd::prelude::*;

use crate::error::Error;

verus! {

/// A downstream consumer of an ordered byte stream.
///
/// `sunk()` is the model of the sink: the sequence of all bytes it has
/// accepted so far, in order. Implementations outside this crate (a file,
/// a socket) are not verified; the contract below is what verified
/// callers rely on.
pub trait ByteSink: Sized {
    /// The bytes this sink has accepted so far, in order.
    spec fn sunk(&self) -> Seq<u8>;

    /// Append all of `buf` to the sink, or fail having appended at most a
    /// prefix of it.
    fn write_all_bytes(&mut self, buf: &[u8]) -> (r: Result<(), Error>)
        ensures
            r is Ok ==> final(self).sunk() == old(self).sunk() + buf@,
            r is Err ==> exists|i: int|
                0 <= i <= buf@.len() && final(self).sunk() == old(self).sunk() + buf@.subrange(0, i),
    ;
}

/// A sink that keeps every byte in memory. It never fails.
pub struct VecSink {
    data: Vec<u8>,
}

impl VecSink {
    /// An empty sink.
    pub fn new() -> (r: VecSink)
        ensures
            r.sunk() == Seq::<u8>::empty(),
    {
        VecSink { data: Vec::new() }
    }

    /// Hand back everything the sink has accepted.
    pub fn into_vec(self) -> (r: Vec<u8>)
        ensures
            r@ == self.sunk(),
    {
        self.data
    }

    /// How many bytes the sink has accepted.
    pub fn len(&self) -> (r: usize)
        ensures
            r == self.sunk().len(),
    {
        self.data.len()
    }
}

impl ByteSink for VecSink {
    closed spec fn sunk(&self) -> Seq<u8> {
        self.data@
    }

    fn write_all_bytes(&mut self, buf: &[u8]) -> (r: Result<(), Error>)
        ensures
            r is Ok,
    {
        let mut i: usize = 0;
        while i < buf.len()
            invariant
                i <= buf@.len(),
                self.data@ == old(self).data@ + buf@.subrange(0, i as int),
            decreases buf@.len() - i,
        {
            self.data.push(buf[i]);
            i = i + 1;
            proof {
                assert(buf@.subrange(0, i as int)
                    =~= buf@.subrange(0, i - 1).push(buf@[i - 1]));
                assert(self.data@ =~= old(self).data@ + buf@.subrange(0, i as int));
            }
        }
        proof {
            assert(buf@.subrange(0, buf@.len() as int) =~= buf@);
        }
        Ok(())
    }
}

/// A mutable borrow of a sink is itself a sink: bytes go to the
/// borrowed sink, which the caller can read once the borrow ends. This
/// lets an encoder that is consumed by its finish handshake leave its
/// output with the caller.
impl<'a> ByteSink for &'a mut VecSink {
    closed spec fn sunk(&self) -> Seq<u8> {
        (**self).sunk()
    }

    fn write_all_bytes(&mut self, buf: &[u8]) -> (r: Result<(), Error>) {
        <VecSink as ByteSink>::write_all_bytes(*self, buf)
    }
}

/// A sink with a hard capacity: it accepts bytes until a write would push
/// it past its capacity, and refuses that write without taking any of it.
pub struct BoundedSink {
    data: Vec<u8>,
    cap: usize,
}

impl BoundedSink {
    /// An empty sink that will hold at most `cap` bytes.
    pub fn new(cap: usize) -> (r: BoundedSink)
        ensures
            r.sunk() == Seq::<u8>::empty(),
            r.capacity() == cap,
    {
        BoundedSink { data: Vec::new(), cap }
    }

    /// The fixed capacity this sink was built with.
    pub closed spec fn capacity(&self) -> usize {
        self.cap
    }

    /// Hand back everything the sink has accepted.
    pub fn into_vec(self) -> (r: Vec<u8>)
        ensures
            r@ == self.sunk(),
    {
        self.data
    }
}

impl ByteSink for BoundedSink {
    closed spec fn sunk(&self) -> Seq<u8> {
        self.data@
    }

    /// Appends all of `buf` when the sink has room for all of it, and
    /// refuses the whole write otherwise.
    fn write_all_bytes(&mut self, buf: &[u8]) -> (r: Result<(), Error>)
        ensures
            r is Ok <==> old(self).sunk().len() + buf@.len() <= old(self).capacity(),
            r is Err ==> final(self).sunk() == old(self).sunk(),
            final(self).capacity() == old(self).capacity(),
    {
        let fits = buf.len() <= self.cap && self.data.len() <= self.cap - buf.len();
        if !fits {
            proof {
                assert(old(self).sunk() + buf@.subrange(0, 0) =~= old(self).sunk());
            }
            return Err(Error::Sink);
        }
        let mut i: usize = 0;
        while i < buf.len()
            invariant
                i <= buf@.len(),
                self.data@ == old(self).data@ + buf@.subrange(0, i as int),
                self.cap == old(self).cap,
                old(self).data@.len() + buf@.len() <= self.cap,
            decreases buf@.len() - i,
        {
            self.data.push(buf[i]);
            i = i + 1;
            proof {
                assert(buf@.subrange(0, i as int)
                    =~= buf@.subrange(0, i - 1).push(buf@[i - 1]));
                assert(self.data@ =~= old(self).data@ + buf@.subrange(0, i as int));
            }
        }
        proof {
            assert(buf@.subrange(0, buf@.len() as int) =~= buf@);
        }
        Ok(())
    }
}

} // verus!
