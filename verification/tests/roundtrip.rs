//! Block compression: round trips, buffer sizing, and failure modes.

use zstd_codec::block::Compressor;
use zstd_codec::error::Error;

fn decompress(src: &[u8], capacity: usize) -> Vec<u8> {
    let mut dst: Vec<u8> = Vec::with_capacity(capacity);
    zstd_safe::decompress(&mut dst, src).expect("decompression failed");
    dst
}

fn decompress_with_dict(src: &[u8], capacity: usize, dict: &[u8]) -> Vec<u8> {
    let mut dst: Vec<u8> = Vec::with_capacity(capacity);
    let mut dctx = zstd_safe::DCtx::create();
    dctx.decompress_using_dict(&mut dst, src, dict)
        .expect("dictionary decompression failed");
    dst
}

fn sample(len: usize) -> Vec<u8> {
    let mut data = Vec::with_capacity(len);
    let mut state: u32 = 7;
    while data.len() < len {
        state = state.wrapping_mul(1103515245).wrapping_add(12345);
        data.push((state >> 16) as u8 % 17 + b'a');
    }
    data
}

#[test]
fn block_round_trip() {
    let data = sample(10_000);
    let mut compressor = Compressor::new();
    let compressed = compressor.compress(&data, 3).unwrap();
    assert!(!compressed.is_empty());
    assert_eq!(decompress(&compressed, data.len()), data);
}

#[test]
fn block_round_trip_at_several_levels() {
    let data = sample(4_096);
    let mut compressor = Compressor::new();
    for level in [1i32, 3, 9, 19] {
        let compressed = compressor.compress(&data, level).unwrap();
        assert_eq!(decompress(&compressed, data.len()), data);
    }
}

#[test]
fn empty_input_round_trip() {
    let mut compressor = Compressor::new();
    let compressed = compressor.compress(&[], 3).unwrap();
    assert!(!compressed.is_empty());
    assert_eq!(decompress(&compressed, 0), Vec::<u8>::new());
}

#[test]
fn concrete_scenario_hello() {
    let data = b"hello hello hello";
    assert_eq!(data.len(), 17);
    let mut compressor = Compressor::new();
    let compressed = compressor.compress(data, 3).unwrap();
    assert!(!compressed.is_empty());
    assert_eq!(decompress(&compressed, data.len()), data.to_vec());
}

#[test]
fn compression_shrinks_repetitive_input() {
    let data = b"hello ".repeat(50);
    let mut compressor = Compressor::new();
    let compressed = compressor.compress(&data, 3).unwrap();
    assert!(!compressed.is_empty());
    assert!(compressed.len() < data.len());
    assert_eq!(decompress(&compressed, data.len()), data);
}

#[test]
fn buffer_sized_to_bound_suffices() {
    let data = sample(1_000);
    let bound = zstd_safe::compress_bound(data.len());
    let mut destination = vec![0u8; bound];
    let mut compressor = Compressor::new();
    let written = compressor
        .compress_to_buffer(&mut destination, &data, 3)
        .unwrap();
    assert!(0 < written && written <= bound);
    assert_eq!(destination.len(), bound);
    assert_eq!(decompress(&destination[..written], data.len()), data);
}

#[test]
fn empty_destination_fails() {
    let data = sample(100);
    let mut destination: Vec<u8> = Vec::new();
    let mut compressor = Compressor::new();
    let result = compressor.compress_to_buffer(&mut destination, &data, 3);
    match result {
        Err(Error::Engine { .. }) => {}
        other => panic!("expected an engine failure, got {:?}", other),
    }
}

#[test]
fn engine_failure_carries_a_message() {
    let data = sample(100);
    let mut destination: Vec<u8> = Vec::new();
    let mut compressor = Compressor::new();
    let err = compressor
        .compress_to_buffer(&mut destination, &data, 3)
        .unwrap_err();
    assert!(!err.message().is_empty());
}

#[test]
fn dictionary_round_trip() {
    let dict = sample(2_000);
    let data = sample(500);
    let mut compressor = Compressor::with_dict(dict.clone());
    let compressed = compressor.compress(&data, 3).unwrap();
    assert_eq!(decompress_with_dict(&compressed, data.len(), &dict), data);
}

#[test]
fn context_is_reused_across_calls() {
    let mut compressor = Compressor::new();
    let first = sample(300);
    let second = sample(700);
    let a = compressor.compress(&first, 3).unwrap();
    let b = compressor.compress(&second, 3).unwrap();
    assert_eq!(decompress(&a, first.len()), first);
    assert_eq!(decompress(&b, second.len()), second);
}

#[test]
fn worst_case_bound_matches_the_documented_formula() {
    for n in [0usize, 1, 100, 1_000, 131_071, 131_072, 1 << 20] {
        let margin = if n < 131_072 { (131_072 - n) >> 11 } else { 0 };
        assert_eq!(zstd_safe::compress_bound(n), n + (n >> 8) + margin);
    }
}

#[test]
fn corrupt_dictionary_is_refused() {
    // Eight-plus bytes opening with the dictionary magic (0xEC30A437,
    // little-endian) but with garbage where the entropy tables belong.
    let mut corrupt = vec![0x37u8, 0xA4, 0x30, 0xEC];
    corrupt.extend_from_slice(&[0xFF; 28]);
    let data = sample(500);
    let mut compressor = Compressor::with_dict(corrupt);
    match compressor.compress(&data, 3) {
        Err(Error::Engine { .. }) => {}
        other => panic!("expected an engine failure, got {:?}", other),
    }
}

#[test]
fn raw_content_dictionary_always_works() {
    // Arbitrary bytes without the dictionary magic are taken as raw
    // content and can never be refused.
    let dict = sample(2_000);
    let data = sample(500);
    let mut compressor = Compressor::with_dict(dict.clone());
    let compressed = compressor.compress(&data, 3).unwrap();
    assert_eq!(decompress_with_dict(&compressed, data.len(), &dict), data);
}
