//! The boundary to the native codec engine.
//!
//! Everything the library asks of the engine goes through the items in
//! this module. Each executable item here is a trusted wrapper around one
//! call into the `zstd_safe` crate; its contract states what the engine's
//! own documentation and source promise, and the rest of the library is
//! verified against those contracts.

use vstd::prelude::*;

verus! {

#[verifier::external_type_specification]
#[verifier::external_body]
pub struct ExCCtx<'a>(zstd_safe::CCtx<'a>);

/// The frame the engine emits for a one-shot compression of `src` with
/// dictionary `dict` at `level` into a destination of capacity
/// `dst_cap`. The capacity is a genuine argument: when a compressed
/// block would not fit the room that is left but a raw copy would, the
/// engine stores the block raw and still succeeds, so two successful
/// calls at different capacities need not emit the same bytes. The
/// engine pins this sequence down; the library only ever learns it by
/// calling [`block_compress`].
pub uninterp spec fn block_output(src: Seq<u8>, dict: Seq<u8>, level: int, dst_cap: nat) -> Seq<u8>;

/// A dictionary the engine takes as raw content: shorter than eight
/// bytes, or not opening with the dictionary magic (0xEC30A437,
/// little-endian). Raw content is never rejected; a magic-prefixed
/// dictionary is parsed and may be refused as corrupted.
pub open spec fn raw_content_dict(dict: Seq<u8>) -> bool {
    dict.len() < 8 || dict.subrange(0, 4) != seq![0x37u8, 0xA4u8, 0x30u8, 0xECu8]
}

/// Inputs at or above this length the engine refuses to size or compress.
pub open spec fn engine_max_input() -> nat {
    0xFF00_FF00_FF00_FF00
}

/// The engine's worst-case compressed size for an input of length `n`
/// below [`engine_max_input`]: the input, one byte for every 256, and a
/// small-input margin that falls from 64 to 0 as `n` reaches 128 KiB.
pub open spec fn compress_bound_spec(n: nat) -> nat {
    (n + n / 256 + if n < 131072 { (131072 - n) / 2048 } else { 0 }) as nat
}

/// Relies on `zstd_safe::CCtx::create` (`ZSTD_createCCtx`): a fresh
/// compression context. It aborts only if the allocator fails, as `Vec`
/// does.
#[verifier::external_body]
pub(crate) fn cctx_create() -> zstd_safe::CCtx<'static> {
    zstd_safe::CCtx::create()
}

/// Relies on `zstd_safe::compress_bound` (`ZSTD_compressBound`): for an
/// input length below the engine's hard limit it returns the documented
/// worst-case formula, a plain function of the length.
#[verifier::external_body]
pub(crate) fn compress_bound_raw(n: usize) -> (r: usize)
    requires
        (n as nat) < engine_max_input(),
    ensures
        r == compress_bound_spec(n as nat),
{
    zstd_safe::compress_bound(n)
}

/// Relies on `zstd_safe::CCtx::compress_using_dict`
/// (`ZSTD_compress_usingDict`): compresses all of `src` with `dict` at
/// `level` into a fresh buffer of capacity `dst_cap`, as one complete
/// frame. On success the buffer holds exactly the frame, which fits the
/// capacity and is never empty (every frame begins with a header). The
/// engine documents that a capacity of `ZSTD_compressBound(src.len())`
/// always suffices, and that it clamps any level into its supported
/// range; it can still refuse a magic-prefixed dictionary whose tables
/// do not parse, so success is only owed for raw-content dictionaries.
/// As everywhere in this crate, the engine's own working allocations
/// are assumed to succeed, as `Vec`'s are. On failure it reports a
/// status code.
#[verifier::external_body]
pub(crate) fn block_compress(
    ctx: &mut zstd_safe::CCtx<'static>,
    dst_cap: usize,
    src: &[u8],
    dict: &[u8],
    level: i32,
) -> (r: Result<Vec<u8>, usize>)
    ensures
        r matches Ok(v) ==> v@ == block_output(src@, dict@, level as int, dst_cap as nat),
        r matches Ok(v) ==> 0 < v@.len() <= dst_cap,
        src@.len() < engine_max_input() && dst_cap >= compress_bound_spec(src@.len())
            && raw_content_dict(dict@) ==> r is Ok,
{
    let mut dst: Vec<u8> = Vec::with_capacity(dst_cap);
    match ctx.compress_using_dict(&mut dst, src, dict, level) {
        Ok(_) => Ok(dst),
        Err(code) => Err(code),
    }
}

/// Relies on `zstd_safe::CCtx::init` (`ZSTD_initCStream`): arms the
/// context for a new streaming frame at `level`. It cannot fail: the
/// call resets the session, which always succeeds and leaves the
/// context in its initial stage, so the following parameter reset goes
/// through, and the level is clamped into the supported range rather
/// than rejected.
#[verifier::external_body]
pub(crate) fn stream_init(ctx: &mut zstd_safe::CCtx<'static>, level: i32) -> (r: Result<
    (),
    usize,
>)
    ensures
        r is Ok,
{
    match ctx.init(level) {
        Ok(_) => Ok(()),
        Err(code) => Err(code),
    }
}

/// Relies on `zstd_safe::CCtx::load_dictionary`
/// (`ZSTD_CCtx_loadDictionary`): seeds the context's next frames with
/// `dict`. On failure it reports a status code.
#[verifier::external_body]
pub(crate) fn stream_load_dictionary(
    ctx: &mut zstd_safe::CCtx<'static>,
    dict: &[u8],
) -> (r: Result<(), usize>) {
    match ctx.load_dictionary(dict) {
        Ok(_) => Ok(()),
        Err(code) => Err(code),
    }
}

/// Relies on `zstd_safe::CCtx::compress_stream` (`ZSTD_compressStream`):
/// one step of streaming compression. The engine reads some prefix of
/// `src`, reports how much of it it consumed, and emits whatever
/// compressed bytes it produced into a scratch buffer sized to the
/// engine's recommended output chunk size (`ZSTD_CStreamOutSize`, big
/// enough to always flush one complete compressed block). What comes out
/// depends on the context's hidden state, so nothing more is claimed of
/// it. On failure it reports a status code.
#[verifier::external_body]
pub(crate) fn stream_step(ctx: &mut zstd_safe::CCtx<'static>, src: &[u8]) -> (r: Result<
    (usize, Vec<u8>),
    usize,
>)
    ensures
        r matches Ok(s) ==> s.0 <= src@.len(),
{
    let mut out: Vec<u8> = Vec::with_capacity(zstd_safe::CCtx::<'static>::out_size());
    let mut input = zstd_safe::InBuffer::around(src);
    let r = {
        let mut output = zstd_safe::OutBuffer::around(&mut out);
        ctx.compress_stream(&mut output, &mut input)
    };
    match r {
        Ok(_) => Ok((input.pos, out)),
        Err(code) => Err(code),
    }
}

/// Relies on `zstd_safe::CCtx::flush_stream` (`ZSTD_flushStream`): asks
/// the engine to move what it holds internally into a scratch buffer of
/// the recommended output chunk size, and reports a lower bound on the
/// bytes still held back. On failure it reports a status code.
#[verifier::external_body]
pub(crate) fn flush_step(ctx: &mut zstd_safe::CCtx<'static>) -> (r: Result<(usize, Vec<u8>), usize>) {
    let mut out: Vec<u8> = Vec::with_capacity(zstd_safe::CCtx::<'static>::out_size());
    let r = {
        let mut output = zstd_safe::OutBuffer::around(&mut out);
        ctx.flush_stream(&mut output)
    };
    match r {
        Ok(remaining) => Ok((remaining, out)),
        Err(code) => Err(code),
    }
}

/// Relies on `zstd_safe::CCtx::end_stream` (`ZSTD_endStream`): writes the
/// frame's trailing bytes into a scratch buffer of the recommended output
/// chunk size and reports a lower bound on what still has to be flushed;
/// the engine documents that the call is to be repeated until that bound
/// reaches zero. On failure it reports a status code.
#[verifier::external_body]
pub(crate) fn end_step(ctx: &mut zstd_safe::CCtx<'static>) -> (r: Result<(usize, Vec<u8>), usize>) {
    let mut out: Vec<u8> = Vec::with_capacity(zstd_safe::CCtx::<'static>::out_size());
    let r = {
        let mut output = zstd_safe::OutBuffer::around(&mut out);
        ctx.end_stream(&mut output)
    };
    match r {
        Ok(remaining) => Ok((remaining, out)),
        Err(code) => Err(code),
    }
}

/// Relies on `zstd_safe::CCtx::in_size` (`ZSTD_CStreamInSize`): the
/// engine's recommended input chunk size, advisory only. It is a pure
/// query returning a constant of the engine build: the engine's maximum
/// block size, 128 KiB.
#[verifier::external_body]
pub(crate) fn recommended_in_size() -> (r: usize)
    ensures
        r == 131072,
{
    zstd_safe::CCtx::<'static>::in_size()
}

/// The engine's diagnostic text for a status code: a fixed string per
/// code, learned only by calling [`error_name`].
pub uninterp spec fn engine_error_text(code: nat) -> Seq<char>;

/// Relies on `zstd_safe::get_error_name` (`ZSTD_getErrorName`): the
/// engine's own diagnostic text for a status code, a static string
/// fixed by the code alone.
#[verifier::external_body]
pub(crate) fn error_name(code: usize) -> (r: String)
    ensures
        r@ == engine_error_text(code as nat),
{
    zstd_safe::get_error_name(code).to_string()
}

} // verus!
