//! Streaming compression: chunking, flush, finish, and the
//! auto-finishing wrapper.

use std::cell::RefCell;
use std::rc::Rc;

use zstd_codec::error::Error;
use zstd_codec::sink::{BoundedSink, VecSink};
use zstd_codec::stream::{Encoder, FinishHandler};

fn decompress(src: &[u8], capacity: usize) -> Vec<u8> {
    let mut dst: Vec<u8> = Vec::with_capacity(capacity);
    zstd_safe::decompress(&mut dst, src).expect("decompression failed");
    dst
}

fn sample(len: usize) -> Vec<u8> {
    let mut data = Vec::with_capacity(len);
    let mut state: u32 = 99;
    while data.len() < len {
        state = state.wrapping_mul(1103515245).wrapping_add(12345);
        data.push((state >> 16) as u8 % 29 + b'0');
    }
    data
}

#[test]
fn streaming_single_write_round_trip() {
    let data = sample(50_000);
    let mut encoder = Encoder::new(VecSink::new(), 3).unwrap();
    assert_eq!(encoder.write(&data).unwrap(), data.len());
    let sink = encoder.finish().unwrap();
    let compressed = sink.into_vec();
    assert!(!compressed.is_empty());
    assert_eq!(decompress(&compressed, data.len()), data);
}

#[test]
fn streaming_any_chunking_round_trips() {
    let data = sample(10_000);
    for chunk in [1usize, 7, 1024, 4096] {
        let mut encoder = Encoder::new(VecSink::new(), 3).unwrap();
        let mut offset = 0;
        while offset < data.len() {
            let end = usize::min(offset + chunk, data.len());
            assert_eq!(encoder.write(&data[offset..end]).unwrap(), end - offset);
            offset = end;
        }
        let compressed = encoder.finish().unwrap().into_vec();
        assert_eq!(decompress(&compressed, data.len()), data);
    }
}

#[test]
fn finish_without_writes_yields_empty_stream() {
    let encoder = Encoder::new(VecSink::new(), 3).unwrap();
    let compressed = encoder.finish().unwrap().into_vec();
    assert!(!compressed.is_empty());
    assert_eq!(decompress(&compressed, 0), Vec::<u8>::new());
}

#[test]
fn flush_then_more_writes_round_trips() {
    let first = sample(3_000);
    let second = sample(2_000);
    let mut encoder = Encoder::new(VecSink::new(), 3).unwrap();
    encoder.write(&first).unwrap();
    encoder.flush().unwrap();
    encoder.write(&second).unwrap();
    let compressed = encoder.finish().unwrap().into_vec();
    let mut whole = first;
    whole.extend_from_slice(&second);
    assert_eq!(decompress(&compressed, whole.len()), whole);
}

#[test]
fn flush_makes_written_data_visible_downstream() {
    let data = sample(1_000);
    let mut encoder = Encoder::new(VecSink::new(), 3).unwrap();
    encoder.write(&data).unwrap();
    encoder.flush().unwrap();
    // After the flush, the sink must already hold compressed bytes even
    // though the stream is still open.
    let sink = encoder.finish().unwrap();
    assert!(sink.len() > 0);
}

#[test]
fn streaming_with_dictionary_round_trips() {
    let dict = sample(4_000);
    let data = sample(1_500);
    let mut encoder = Encoder::with_dictionary(VecSink::new(), 3, &dict).unwrap();
    encoder.write(&data).unwrap();
    let compressed = encoder.finish().unwrap().into_vec();
    let mut dst: Vec<u8> = Vec::with_capacity(data.len());
    let mut dctx = zstd_safe::DCtx::create();
    dctx.decompress_using_dict(&mut dst, &compressed, &dict)
        .expect("dictionary decompression failed");
    assert_eq!(dst, data);
}

#[test]
fn recommended_input_size_is_the_engine_block_size() {
    assert_eq!(Encoder::<VecSink>::recommended_input_size(), 131_072);
}

#[test]
fn bounded_sink_failure_is_surfaced() {
    let data = sample(10_000);
    let mut encoder = Encoder::new(BoundedSink::new(0), 3).unwrap();
    encoder.write(&data).unwrap();
    // The engine is still buffering, so force bytes toward the sink: the
    // sink has no room and must refuse them.
    let err = encoder.flush().unwrap_err();
    assert_eq!(err, Error::Sink);
}

struct CountingHandler {
    calls: Rc<RefCell<usize>>,
    bytes: Rc<RefCell<Option<Vec<u8>>>>,
}

impl FinishHandler<VecSink> for CountingHandler {
    fn on_result(&mut self, result: Result<VecSink, Error>) {
        *self.calls.borrow_mut() += 1;
        if let Ok(sink) = result {
            *self.bytes.borrow_mut() = Some(sink.into_vec());
        }
    }
}

#[test]
fn scope_end_finishes_exactly_once() {
    let calls = Rc::new(RefCell::new(0usize));
    let bytes = Rc::new(RefCell::new(None));
    let data = sample(2_000);
    {
        let encoder = Encoder::new(VecSink::new(), 3).unwrap();
        let handler = CountingHandler { calls: calls.clone(), bytes: bytes.clone() };
        let mut wrapper = encoder.on_finish(handler);
        wrapper.write(&data).unwrap();
        assert_eq!(*calls.borrow(), 0);
    }
    assert_eq!(*calls.borrow(), 1);
    let compressed = bytes.borrow_mut().take().expect("handler saw no sink");
    assert_eq!(decompress(&compressed, data.len()), data);
}

#[test]
fn explicit_finish_is_not_repeated_at_scope_end() {
    let calls = Rc::new(RefCell::new(0usize));
    let bytes = Rc::new(RefCell::new(None));
    let data = sample(500);
    {
        let encoder = Encoder::new(VecSink::new(), 3).unwrap();
        let handler = CountingHandler { calls: calls.clone(), bytes: bytes.clone() };
        let mut wrapper = encoder.on_finish(handler);
        wrapper.write(&data).unwrap();
        wrapper.finish_now();
        assert_eq!(*calls.borrow(), 1);
        assert_eq!(wrapper.write(&data), Err(Error::Finished));
        assert_eq!(wrapper.flush(), Err(Error::Finished));
    }
    assert_eq!(*calls.borrow(), 1);
}

#[test]
fn auto_finish_ends_the_stream_at_scope_end() {
    let data = sample(2_000);
    let mut sink = VecSink::new();
    {
        let encoder = Encoder::new(&mut sink, 3).unwrap();
        let mut wrapper = encoder.auto_finish();
        wrapper.write(&data).unwrap();
    }
    let compressed = sink.into_vec();
    assert!(!compressed.is_empty());
    assert_eq!(decompress(&compressed, data.len()), data);
}

#[test]
fn wrapper_write_and_flush_delegate() {
    let data = sample(1_000);
    let calls = Rc::new(RefCell::new(0usize));
    let bytes = Rc::new(RefCell::new(None));
    {
        let encoder = Encoder::new(VecSink::new(), 3).unwrap();
        let handler = CountingHandler { calls: calls.clone(), bytes: bytes.clone() };
        let mut wrapper = encoder.on_finish(handler);
        assert_eq!(wrapper.write(&data).unwrap(), data.len());
        wrapper.flush().unwrap();
    }
    let compressed = bytes.borrow_mut().take().expect("handler saw no sink");
    assert_eq!(decompress(&compressed, data.len()), data);
}

#[test]
fn empty_write_is_accepted() {
    let data = sample(100);
    let mut encoder = Encoder::new(VecSink::new(), 3).unwrap();
    assert_eq!(encoder.write(&[]).unwrap(), 0);
    encoder.write(&data).unwrap();
    assert_eq!(encoder.write(&[]).unwrap(), 0);
    let compressed = encoder.finish().unwrap().into_vec();
    assert_eq!(decompress(&compressed, data.len()), data);
}

#[test]
fn corrupt_dictionary_fails_at_construction() {
    let mut corrupt = vec![0x37u8, 0xA4, 0x30, 0xEC];
    corrupt.extend_from_slice(&[0xFF; 28]);
    match Encoder::with_dictionary(VecSink::new(), 3, &corrupt) {
        Err(Error::Engine { .. }) => {}
        Ok(_) => panic!("a corrupt dictionary must be refused before an encoder exists"),
        other => panic!("expected an engine failure, got {:?}", other.err()),
    }
}
