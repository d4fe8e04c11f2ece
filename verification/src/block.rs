//! One-shot block compression.
//!
//! A [`Compressor`] turns one complete in-memory input into one complete
//! compressed frame, re-using a single engine context and an optional
//! dictionary across calls.

use vstd::prelude::*;

use crate::engine;
use crate::engine::{block_output, compress_bound_spec, engine_max_input, raw_content_dict};
use crate::error::Error;

verus! {

/// Compresses whole blocks of data, re-using one context and one
/// dictionary across calls.
pub struct Compressor {
    context: zstd_safe::CCtx<'static>,
    dict: Vec<u8>,
}

impl Compressor {
    /// The dictionary every compression of this compressor is seeded
    /// with; empty means none.
    pub closed spec fn dictionary(&self) -> Seq<u8> {
        self.dict@
    }

    /// A compressor with no dictionary.
    pub fn new() -> (r: Compressor)
        ensures
            r.dictionary() == Seq::<u8>::empty(),
    {
        Compressor::with_dict(Vec::new())
    }

    /// A compressor that seeds every compression with `dict`.
    pub fn with_dict(dict: Vec<u8>) -> (r: Compressor)
        ensures
            r.dictionary() == dict@,
    {
        Compressor { context: engine::cctx_create(), dict }
    }

    /// Compress one block of data into the space the caller offers: the
    /// current length of `destination`.
    ///
    /// On success the frame stands at the front of `destination`, whose
    /// length does not change, and the number of its bytes is returned.
    /// Unless a magic-prefixed dictionary was handed in - one the engine
    /// parses and may refuse as corrupted - a destination of at least
    /// [`compress_bound_spec`] of the source length always suffices; one
    /// of length zero never does. On failure the engine's status is
    /// returned and `destination` keeps its prior contents.
    pub fn compress_to_buffer(
        &mut self,
        destination: &mut Vec<u8>,
        source: &[u8],
        level: i32,
    ) -> (r: Result<usize, Error>)
        ensures
            final(self).dictionary() == old(self).dictionary(),
            r matches Ok(n) ==> {
                let out = block_output(
                    source@,
                    old(self).dictionary(),
                    level as int,
                    old(destination)@.len() as nat,
                );
                &&& n == out.len()
                &&& 0 < n <= old(destination)@.len()
                &&& final(destination)@ == out + old(destination)@.skip(n as int)
                &&& final(destination)@.len() == old(destination)@.len()
            },
            r matches Err(e) ==> e matches Error::Engine { .. }
                && final(destination)@ == old(destination)@,
            source@.len() < engine_max_input()
                && old(destination)@.len() >= compress_bound_spec(source@.len())
                && raw_content_dict(old(self).dictionary()) ==> r is Ok,
            old(destination)@.len() == 0 ==> r is Err,
    {
        let cap = destination.len();
        match engine::block_compress(&mut self.context, cap, source, &self.dict, level) {
            Ok(frame) => {
                let n = frame.len();
                let ghost dest0 = destination@;
                let mut rebuilt = frame;
                let mut i: usize = n;
                while i < destination.len()
                    invariant
                        n <= i <= destination@.len(),
                        destination@ == dest0,
                        rebuilt@ == block_output(
                            source@,
                            old(self).dictionary(),
                            level as int,
                            dest0.len() as nat,
                        ) + dest0.subrange(n as int, i as int),
                    decreases destination@.len() - i,
                {
                    let b = destination[i];
                    rebuilt.push(b);
                    i = i + 1;
                    proof {
                        assert(dest0.subrange(n as int, i as int)
                            =~= dest0.subrange(n as int, i - 1).push(dest0[i - 1]));
                        assert(rebuilt@ =~= block_output(
                            source@,
                            old(self).dictionary(),
                            level as int,
                            dest0.len() as nat,
                        ) + dest0.subrange(n as int, i as int));
                    }
                }
                *destination = rebuilt;
                proof {
                    assert(dest0.subrange(n as int, dest0.len() as int) =~= dest0.skip(n as int));
                }
                Ok(n)
            },
            Err(code) => Err(Error::Engine { code }),
        }
    }

    /// Compress one block of data and hand back the compressed frame.
    ///
    /// The output buffer is sized to the engine's worst case for the
    /// input, so the call fails only where the engine refuses the
    /// dictionary - never for want of room - and that engine error is
    /// returned unchanged; with a raw-content dictionary (the empty one
    /// included) it always succeeds. On success the returned buffer's
    /// length is exactly the frame's size; on failure no buffer is
    /// returned at all.
    pub fn compress(&mut self, data: &[u8], lvl: i32) -> (r: Result<Vec<u8>, Error>)
        requires
            data@.len() < engine_max_input(),
        ensures
            final(self).dictionary() == old(self).dictionary(),
            raw_content_dict(old(self).dictionary()) ==> r is Ok,
            r matches Ok(v) ==> v@ == block_output(
                data@,
                old(self).dictionary(),
                lvl as int,
                compress_bound_spec(data@.len()),
            ) && 0 < v@.len() <= compress_bound_spec(data@.len()),
            r matches Err(e) ==> e matches Error::Engine { .. },
    {
        let buffer_len = engine::compress_bound_raw(data.len());
        let mut buffer: Vec<u8> = vec![0u8; buffer_len];
        match self.compress_to_buffer(&mut buffer, data, lvl) {
            Ok(len) => {
                buffer.truncate(len);
                proof {
                    let out = block_output(
                        data@,
                        old(self).dictionary(),
                        lvl as int,
                        buffer_len as nat,
                    );
                    assert((out + Seq::new(buffer_len as nat, |i: int| 0u8).skip(
                        out.len() as int,
                    )).subrange(0, out.len() as int) =~= out);
                }
                Ok(buffer)
            },
            Err(e) => Err(e),
        }
    }
}

impl Default for Compressor {
    /// Same as [`Compressor::new`]: a compressor with no dictionary.
    fn default() -> (r: Compressor)
        ensures
            r.dictionary() == Seq::<u8>::empty(),
    {
        Compressor::new()
    }
}

} // verus!
