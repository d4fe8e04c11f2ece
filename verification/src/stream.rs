//! Streaming compression.
//!
//! An [`Encoder`] owns an engine context and a downstream [`ByteSink`].
//! Every call hands input to the engine and forwards whatever compressed
//! bytes the engine emits to the sink, in order, before accepting more
//! input; `finish` ends the frame and returns the sink. An
//! [`AutoFinishEncoder`] wraps an encoder so that the finish handshake
//! runs once even when the wrapper merely goes out of scope.
//!
//! The ghost model of an encoder is four byte sequences: `sink_base()`,
//! what the sink held when the encoder was built; `consumed_bytes()`, the
//! input the engine has accepted so far; `forwarded_bytes()`, the
//! compressed bytes handed to the sink so far; and `dictionary()`, what
//! the stream was seeded with. A well-formed encoder's sink holds
//! exactly `sink_base() + forwarded_bytes()`: no compressed byte is
//! dropped, duplicated or reordered on its way downstream.

use vstd::prelude::*;
use vstd::slice::slice_subrange;

use crate::engine;
use crate::error::Error;
use crate::sink::ByteSink;

verus! {

/// An encoder that compresses and forwards data to a downstream sink.
///
/// The engine buffers input internally, so compressed bytes reach the
/// sink with a delay; `flush` forces them out, and `finish` must end the
/// stream or the frame stays incomplete.
pub struct Encoder<S: ByteSink> {
    writer: S,
    context: zstd_safe::CCtx<'static>,
    base: Ghost<Seq<u8>>,
    consumed: Ghost<Seq<u8>>,
    forwarded: Ghost<Seq<u8>>,
    dict: Ghost<Seq<u8>>,
}

impl<S: ByteSink> Encoder<S> {
    /// What the downstream sink held when this encoder was built.
    pub closed spec fn sink_base(&self) -> Seq<u8> {
        self.base@
    }

    /// The input bytes the engine has accepted so far, in order.
    pub closed spec fn consumed_bytes(&self) -> Seq<u8> {
        self.consumed@
    }

    /// The compressed bytes handed to the sink so far, in order.
    pub closed spec fn forwarded_bytes(&self) -> Seq<u8> {
        self.forwarded@
    }

    /// The dictionary this encoder's stream was seeded with; empty
    /// means none. The same dictionary must be present at
    /// decompression.
    pub closed spec fn dictionary(&self) -> Seq<u8> {
        self.dict@
    }

    /// The encoder's bookkeeping matches its sink: the sink holds what
    /// it held at construction followed by every forwarded byte.
    pub closed spec fn wf(&self) -> bool {
        self.writer.sunk() == self.base@ + self.forwarded@
    }

    /// A streaming encoder over `writer` at compression level `level`.
    /// Arming a fresh context cannot fail - the engine clamps the level
    /// rather than rejecting it - so an encoder is always returned.
    pub fn new(writer: S, level: i32) -> (r: Result<Encoder<S>, Error>)
        ensures
            r is Ok,
            r matches Ok(enc) ==> {
                &&& enc.wf()
                &&& enc.sink_base() == writer.sunk()
                &&& enc.consumed_bytes() == Seq::<u8>::empty()
                &&& enc.forwarded_bytes() == Seq::<u8>::empty()
                &&& enc.dictionary() == Seq::<u8>::empty()
            },
    {
        let mut context = engine::cctx_create();
        match engine::stream_init(&mut context, level) {
            Ok(()) => {
                let ghost b = writer.sunk();
                let enc = Encoder {
                    writer,
                    context,
                    base: Ghost(b),
                    consumed: Ghost(Seq::empty()),
                    forwarded: Ghost(Seq::empty()),
                    dict: Ghost(Seq::empty()),
                };
                proof {
                    assert(enc.writer.sunk() =~= enc.base@ + enc.forwarded@);
                }
                Ok(enc)
            },
            Err(code) => Err(Error::Engine { code }),
        }
    }

    /// A streaming encoder whose frames are seeded with `dictionary`,
    /// for a better ratio on small inputs; the same dictionary must be
    /// present at decompression. The engine would defer reading the
    /// dictionary to the first write; this constructor makes it read it
    /// at once, so a refused dictionary fails here and no partial
    /// encoder is returned.
    pub fn with_dictionary(writer: S, level: i32, dictionary: &[u8]) -> (r: Result<
        Encoder<S>,
        Error,
    >)
        ensures
            r matches Ok(enc) ==> {
                &&& enc.wf()
                &&& enc.sink_base() == writer.sunk()
                &&& enc.consumed_bytes() == Seq::<u8>::empty()
                &&& enc.dictionary() == dictionary@
            },
    {
        let mut context = engine::cctx_create();
        match engine::stream_init(&mut context, level) {
            Ok(()) => {},
            Err(code) => {
                return Err(Error::Engine { code });
            },
        }
        match engine::stream_load_dictionary(&mut context, dictionary) {
            Ok(()) => {},
            Err(code) => {
                return Err(Error::Engine { code });
            },
        }
        let mut writer = writer;
        let ghost b = writer.sunk();
        let empty_probe: [u8; 0] = [];
        let (_taken, produced) = match engine::stream_step(&mut context, &empty_probe) {
            Ok(p) => p,
            Err(code) => {
                return Err(Error::Engine { code });
            },
        };
        let ghost fwd = produced@;
        match writer.write_all_bytes(produced.as_slice()) {
            Ok(()) => {},
            Err(e) => {
                return Err(e);
            },
        }
        let enc = Encoder {
            writer,
            context,
            base: Ghost(b),
            consumed: Ghost(Seq::empty()),
            forwarded: Ghost(fwd),
            dict: Ghost(dictionary@),
        };
        proof {
            assert(enc.writer.sunk() =~= enc.base@ + enc.forwarded@);
        }
        Ok(enc)
    }

    /// Hand all of `buf` to the engine, draining every compressed chunk
    /// the engine emits to the sink before offering it more input.
    ///
    /// On success the engine has accepted every byte of `buf`, in order,
    /// after everything it had accepted before, and the call returns
    /// `buf`'s length. On failure the engine has accepted some prefix of
    /// `buf` and the sink may hold only part of the compressed stream.
    pub fn write(&mut self, buf: &[u8]) -> (r: Result<usize, Error>)
        ensures
            final(self).sink_base() == old(self).sink_base(),
            final(self).dictionary() == old(self).dictionary(),
            old(self).forwarded_bytes().is_prefix_of(final(self).forwarded_bytes()),
            r matches Ok(n) ==> {
                &&& n == buf@.len()
                &&& final(self).consumed_bytes() == old(self).consumed_bytes() + buf@
            },
            r is Err ==> exists|k: int|
                0 <= k <= buf@.len() && final(self).consumed_bytes() == old(self).consumed_bytes()
                    + buf@.subrange(0, k),
            r is Ok && old(self).wf() ==> final(self).wf(),
            buf@.len() == 0 ==> r is Ok && *final(self) == *old(self),
    {
        if buf.len() == 0 {
            proof {
                assert(self.consumed@ =~= old(self).consumed@ + buf@);
                assert(self.forwarded@.subrange(0, self.forwarded@.len() as int)
                    =~= self.forwarded@);
            }
            return Ok(0);
        }
        let mut read: usize = 0;
        proof {
            assert(self.consumed@ =~= old(self).consumed@ + buf@.subrange(0, 0));
        }
        while read < buf.len()
            invariant
                read <= buf@.len(),
                self.base@ == old(self).base@,
                self.dict@ == old(self).dict@,
                old(self).forwarded@.is_prefix_of(self.forwarded@),
                self.consumed@ == old(self).consumed@ + buf@.subrange(0, read as int),
                old(self).wf() ==> self.writer.sunk() == self.base@ + self.forwarded@,
            decreases buf@.len() - read,
        {
            let chunk = slice_subrange(buf, read, buf.len());
            let step = match engine::stream_step(&mut self.context, chunk) {
                Ok(s) => s,
                Err(code) => {
                    return Err(Error::Engine { code });
                },
            };
            let (taken, produced) = step;
            proof {
                self.consumed@ = self.consumed@ + chunk@.subrange(0, taken as int);
                assert(buf@.subrange(0, read + taken)
                    =~= buf@.subrange(0, read as int) + buf@.subrange(read as int, read + taken));
                assert(self.consumed@ =~= old(self).consumed@ + buf@.subrange(0, read + taken));
            }
            match self.writer.write_all_bytes(produced.as_slice()) {
                Ok(()) => {
                    proof {
                        let fwd = self.forwarded@ + produced@;
                        assert(old(self).forwarded@.is_prefix_of(fwd)) by {
                            assert(fwd.subrange(0, old(self).forwarded@.len() as int)
                                =~= self.forwarded@.subrange(
                                0,
                                old(self).forwarded@.len() as int,
                            ));
                        }
                        self.forwarded@ = fwd;
                    }
                },
                Err(e) => {
                    return Err(e);
                },
            }
            if taken == 0 {
                // The engine is documented to accept input whenever it is
                // offered an empty output buffer of its recommended size;
                // taking nothing here means its protocol is broken, and
                // looping on it would never terminate.
                return Err(Error::Violation);
            }
            read = read + taken;
        }
        proof {
            assert(buf@.subrange(0, buf@.len() as int) =~= buf@);
        }
        Ok(read)
    }

    /// Force the engine to emit what it holds internally and forward it
    /// to the sink, repeating the flush step until the engine reports
    /// nothing left to flush. The stream stays open: later writes
    /// remain valid. Until either a flush or the finish handshake, the
    /// sink may lag behind the input the engine has accepted.
    pub fn flush(&mut self) -> (r: Result<(), Error>)
        ensures
            final(self).sink_base() == old(self).sink_base(),
            final(self).consumed_bytes() == old(self).consumed_bytes(),
            final(self).dictionary() == old(self).dictionary(),
            old(self).forwarded_bytes().is_prefix_of(final(self).forwarded_bytes()),
            r is Ok && old(self).wf() ==> final(self).wf(),
    {
        let (first_remaining, produced) = match engine::flush_step(&mut self.context) {
            Ok(p) => p,
            Err(code) => {
                return Err(Error::Engine { code });
            },
        };
        match self.writer.write_all_bytes(produced.as_slice()) {
            Ok(()) => {
                proof {
                    let fwd = self.forwarded@ + produced@;
                    assert(old(self).forwarded@.is_prefix_of(fwd)) by {
                        assert(fwd.subrange(0, old(self).forwarded@.len() as int)
                            =~= self.forwarded@.subrange(0, old(self).forwarded@.len() as int));
                    }
                    self.forwarded@ = fwd;
                    if old(self).wf() {
                        assert(self.writer.sunk() =~= self.base@ + self.forwarded@);
                    }
                }
            },
            Err(e) => {
                return Err(e);
            },
        }
        let mut remaining = first_remaining;
        while remaining > 0
            invariant
                self.base@ == old(self).base@,
                self.consumed@ == old(self).consumed@,
                self.dict@ == old(self).dict@,
                old(self).forwarded@.is_prefix_of(self.forwarded@),
                old(self).wf() ==> self.writer.sunk() == self.base@ + self.forwarded@,
            decreases remaining,
        {
            let (rem2, produced2) = match engine::flush_step(&mut self.context) {
                Ok(p) => p,
                Err(code) => {
                    return Err(Error::Engine { code });
                },
            };
            match self.writer.write_all_bytes(produced2.as_slice()) {
                Ok(()) => {
                    proof {
                        let fwd = self.forwarded@ + produced2@;
                        assert(old(self).forwarded@.is_prefix_of(fwd)) by {
                            assert(fwd.subrange(0, old(self).forwarded@.len() as int)
                                =~= self.forwarded@.subrange(
                                0,
                                old(self).forwarded@.len() as int,
                            ));
                        }
                        self.forwarded@ = fwd;
                        if old(self).wf() {
                            assert(self.writer.sunk() =~= self.base@ + self.forwarded@);
                        }
                    }
                },
                Err(e) => {
                    return Err(e);
                },
            }
            if rem2 >= remaining {
                // Each repeated flush into a buffer of the recommended
                // size is documented to move at least one more complete
                // block out; no shrink means the engine's protocol is
                // broken, and looping on it would never terminate.
                return Err(Error::Violation);
            }
            remaining = rem2;
        }
        Ok(())
    }

    /// End the stream: repeat the engine's end step, forwarding each
    /// emitted chunk to the sink, until the engine reports nothing left
    /// to flush, then hand the sink back.
    ///
    /// On success the sink has received every compressed byte of the
    /// frame, appended in order after what it already held; nothing is
    /// held back. The encoder is consumed either way.
    pub fn finish(self) -> (r: Result<S, Error>)
        ensures
            self.wf() ==> (r matches Ok(s) ==> (self.sink_base()
                + self.forwarded_bytes()).is_prefix_of(s.sunk()) && s.sunk().subrange(
                0,
                self.sink_base().len() as int,
            ) == self.sink_base()),
    {
        let mut this = self;
        let ghost fwd0 = this.forwarded@;
        let ghost base0 = this.base@;
        let ghost wf0 = this.wf();
        let (first_remaining, produced) = match engine::end_step(&mut this.context) {
            Ok(p) => p,
            Err(code) => {
                return Err(Error::Engine { code });
            },
        };
        match this.writer.write_all_bytes(produced.as_slice()) {
            Ok(()) => {
                proof {
                    let fwd = this.forwarded@ + produced@;
                    assert(fwd0.is_prefix_of(fwd)) by {
                        assert(fwd.subrange(0, fwd0.len() as int)
                            =~= this.forwarded@.subrange(0, fwd0.len() as int));
                    }
                    this.forwarded@ = fwd;
                }
            },
            Err(e) => {
                return Err(e);
            },
        }
        let mut remaining = first_remaining;
        while remaining > 0
            invariant
                this.base@ == base0,
                fwd0.is_prefix_of(this.forwarded@),
                wf0 ==> this.writer.sunk() == this.base@ + this.forwarded@,
            decreases remaining,
        {
            let ghost fwd_before = this.forwarded@;
            let (rem2, produced2) = match engine::end_step(&mut this.context) {
                Ok(p) => p,
                Err(code) => {
                    return Err(Error::Engine { code });
                },
            };
            match this.writer.write_all_bytes(produced2.as_slice()) {
                Ok(()) => {
                    proof {
                        let fwd = this.forwarded@ + produced2@;
                        assert(fwd0.is_prefix_of(fwd)) by {
                            assert(fwd.subrange(0, fwd0.len() as int)
                                =~= this.forwarded@.subrange(0, fwd0.len() as int));
                        }
                        this.forwarded@ = fwd;
                    }
                },
                Err(e) => {
                    return Err(e);
                },
            }
            if rem2 >= remaining {
                // Each repeated end step is documented to flush at least
                // one more complete block into a buffer of the
                // recommended size; no shrink means the engine's
                // protocol is broken.
                return Err(Error::Violation);
            }
            remaining = rem2;
        }
        proof {
            if wf0 {
                assert((base0 + fwd0).is_prefix_of(this.writer.sunk())) by {
                    assert(this.writer.sunk().subrange(0, (base0 + fwd0).len() as int)
                        =~= base0 + fwd0);
                }
                assert(this.writer.sunk().subrange(0, base0.len() as int) =~= base0);
            }
        }
        Ok(this.writer)
    }

    /// The engine's advisory input chunk size: writes of this size keep
    /// call overhead low, but correctness holds for any chunking. A
    /// pure query; the engine returns its maximum block size, a
    /// constant of the engine build.
    pub fn recommended_input_size() -> (r: usize)
        ensures
            r == 131072,
    {
        engine::recommended_in_size()
    }
}

/// Receives the outcome of the finish handshake. A handler is consumed
/// into the wrapper and called at most once, with either the returned
/// sink or the failure.
pub trait FinishHandler<S: ByteSink>: Sized {
    /// Take delivery of the finish outcome.
    fn on_result(&mut self, result: Result<S, Error>);
}

/// The handler that [`Encoder::auto_finish`] installs: it discards the
/// outcome. This is a deliberate departure from a fail-fast default
/// that would abort on a finish failure: a verified function may not
/// panic, so no handler in this crate can fail loudly, and a failure
/// at scope end goes unreported here. Pass [`Encoder::on_finish`] a
/// handler of your own - unverified callers may panic in theirs - to
/// observe the outcome.
pub struct DiscardFinish;

impl<S: ByteSink> FinishHandler<S> for DiscardFinish {
    fn on_result(&mut self, _result: Result<S, Error>) {
    }
}

/// A wrapper around an [`Encoder`] that runs the finish handshake when
/// its scope ends, if no one ran it explicitly before, and hands the
/// outcome to its handler. The encoder and the handler are each consumed
/// at most once: the handshake disarms the wrapper, so running it twice
/// is structurally impossible.
pub struct AutoFinishEncoder<S: ByteSink, F: FinishHandler<S>> {
    encoder: Option<Encoder<S>>,
    on_finish: Option<F>,
    // Whether the wrapped encoder's finish handshake has run and its
    // outcome was handed to the handler.
    handed: Ghost<bool>,
}

impl<S: ByteSink, F: FinishHandler<S>> AutoFinishEncoder<S, F> {
    /// Whether the finish handshake is still pending.
    pub closed spec fn pending(&self) -> bool {
        self.encoder is Some
    }

    /// The wrapped encoder, while the handshake is pending.
    pub closed spec fn inner(&self) -> Encoder<S> {
        self.encoder->0
    }

    /// Whether the handler is still waiting for an outcome. The finish
    /// handshake consumes it, so it can never be handed two outcomes.
    pub closed spec fn handler_pending(&self) -> bool {
        self.on_finish is Some
    }

    /// Whether the wrapped encoder's finish handshake has run, with its
    /// outcome - the returned sink or the failure - handed to the
    /// handler.
    pub closed spec fn outcome_delivered(&self) -> bool {
        self.handed@
    }

    fn new(encoder: Encoder<S>, on_finish: F) -> (r: AutoFinishEncoder<S, F>)
        ensures
            r.pending(),
            r.handler_pending(),
            !r.outcome_delivered(),
            r.inner() == encoder,
    {
        AutoFinishEncoder { encoder: Some(encoder), on_finish: Some(on_finish), handed: Ghost(false) }
    }

    /// Delegate a write to the wrapped encoder. After the finish
    /// handshake has run there is no encoder left, and the call fails
    /// without doing anything.
    pub fn write(&mut self, buf: &[u8]) -> (r: Result<usize, Error>)
        ensures
            final(self).pending() == old(self).pending(),
            final(self).outcome_delivered() == old(self).outcome_delivered(),
            !old(self).pending() ==> r == Result::<usize, Error>::Err(Error::Finished)
                && *final(self) == *old(self),
            old(self).pending() ==> {
                &&& final(self).inner().sink_base() == old(self).inner().sink_base()
                &&& old(self).inner().forwarded_bytes().is_prefix_of(
                    final(self).inner().forwarded_bytes(),
                )
                &&& (r matches Ok(n) ==> n == buf@.len() && final(self).inner().consumed_bytes()
                    == old(self).inner().consumed_bytes() + buf@)
                &&& (r is Ok && old(self).inner().wf() ==> final(self).inner().wf())
            },
    {
        match self.encoder.as_mut() {
            Some(enc) => enc.write(buf),
            None => Err(Error::Finished),
        }
    }

    /// Delegate a flush to the wrapped encoder. After the finish
    /// handshake has run there is no encoder left, and the call fails
    /// without doing anything.
    pub fn flush(&mut self) -> (r: Result<(), Error>)
        ensures
            final(self).pending() == old(self).pending(),
            final(self).outcome_delivered() == old(self).outcome_delivered(),
            !old(self).pending() ==> r == Result::<(), Error>::Err(Error::Finished)
                && *final(self) == *old(self),
            old(self).pending() ==> {
                &&& final(self).inner().sink_base() == old(self).inner().sink_base()
                &&& final(self).inner().consumed_bytes() == old(self).inner().consumed_bytes()
                &&& old(self).inner().forwarded_bytes().is_prefix_of(
                    final(self).inner().forwarded_bytes(),
                )
                &&& (r is Ok && old(self).inner().wf() ==> final(self).inner().wf())
            },
    {
        match self.encoder.as_mut() {
            Some(enc) => enc.flush(),
            None => Err(Error::Finished),
        }
    }

    /// Run the finish handshake now: end the stream and hand the
    /// outcome - the returned sink or the failure, never swallowed - to
    /// the handler. The wrapper is disarmed first, so the handshake
    /// runs at most once; when its scope later ends, nothing more
    /// happens. Calling this on a disarmed wrapper does nothing.
    pub fn finish_now(&mut self)
        ensures
            !final(self).pending(),
            old(self).pending() ==> !final(self).handler_pending(),
            old(self).pending() && old(self).handler_pending()
                ==> final(self).outcome_delivered(),
            !old(self).pending() ==> *final(self) == *old(self),
    {
        let encoder = self.encoder.take();
        match encoder {
            Some(enc) => {
                let result = enc.finish();
                match self.on_finish.take() {
                    Some(mut handler) => {
                        handler.on_result(result);
                        proof {
                            self.handed@ = true;
                        }
                    },
                    None => {},
                }
            },
            None => {},
        }
    }
}

impl<S: ByteSink, F: FinishHandler<S>> Drop for AutoFinishEncoder<S, F> {
    /// Verus holds drop glue to a no-unwind signature that the finish
    /// handshake cannot meet: it allocates, takes options and calls the
    /// user's handler, none of which the standard library's
    /// specifications declare non-unwinding. The work therefore stands
    /// in the verified [`AutoFinishEncoder::finish_now`], and this body
    /// only forwards to it.
    #[verifier::external_body]
    fn drop(&mut self)
        opens_invariants none
        no_unwind
    {
        self.finish_now();
    }
}

impl<S: ByteSink> Encoder<S> {
    /// Wrap this encoder so that the stream is finished when the wrapper
    /// goes out of scope; the outcome of that late handshake is
    /// discarded.
    pub fn auto_finish(self) -> (r: AutoFinishEncoder<S, DiscardFinish>)
        ensures
            r.pending(),
            r.handler_pending(),
            !r.outcome_delivered(),
            r.inner() == self,
    {
        self.on_finish(DiscardFinish)
    }

    /// Wrap this encoder so that the stream is finished when the wrapper
    /// goes out of scope, delivering the outcome to `f`.
    pub fn on_finish<F: FinishHandler<S>>(self, f: F) -> (r: AutoFinishEncoder<S, F>)
        ensures
            r.pending(),
            r.handler_pending(),
            !r.outcome_delivered(),
            r.inner() == self,
    {
        AutoFinishEncoder::new(self, f)
    }
}


/// The consumed stream after successful writes of each element of
/// `chunks`, one after another, starting from `start`: each write
/// appends exactly its chunk, as [`Encoder::write`] ensures.
pub open spec fn consumed_after(start: Seq<u8>, chunks: Seq<Seq<u8>>) -> Seq<u8>
    decreases chunks.len(),
{
    if chunks.len() == 0 {
        start
    } else {
        consumed_after(start + chunks.first(), chunks.drop_first())
    }
}

/// Streaming equivalence, for the half the library controls: the byte
/// stream the engine sees does not depend on how the caller chunks it.
/// Writing the pieces of any chunking one after another leaves the
/// engine with the concatenation of the pieces, so two chunkings of the
/// same bytes leave it with the same consumed stream. What the engine
/// emits for that stream, and that it decompresses back to it, is the
/// engine's own promise, exercised by this crate's tests and not
/// provable here.
pub proof fn lemma_chunking_irrelevant(start: Seq<u8>, chunks: Seq<Seq<u8>>)
    ensures
        consumed_after(start, chunks) == start + chunks.flatten(),
    decreases chunks.len(),
{
    if chunks.len() == 0 {
        assert(start + chunks.flatten() =~= start);
    } else {
        lemma_chunking_irrelevant(start + chunks.first(), chunks.drop_first());
        assert((start + chunks.first()) + chunks.drop_first().flatten()
            =~= start + chunks.flatten());
    }
}

} // verus!
