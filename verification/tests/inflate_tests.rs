//! The patch inflater: a zstd-compressed binary diff against a base file
//! reconstructs the full artifact byte for byte.

use comde::com::Compressor;
use comde::zstd::ZstdCompressor;

fn compress_diff(base: &[u8], newer: &[u8]) -> Vec<u8> {
    let mut diff: Vec<u8> = Vec::new();
    bidiff::simple_diff(base, newer, &mut diff).unwrap();
    let mut compressed = std::io::Cursor::new(Vec::new());
    let compressor = ZstdCompressor::new();
    compressor
        .compress(&mut compressed, &mut diff.as_slice())
        .unwrap();
    compressed.into_inner()
}

#[test]
fn inflate_reconstructs_the_new_file() {
    let base: Vec<u8> = b"the quick brown fox jumps over the lazy dog".repeat(40);
    let newer: Vec<u8> = b"the quick brown cat naps over the lazy dog!!".repeat(40);
    let compressed = compress_diff(&base, &newer);
    assert_ne!(compressed, newer);
    let out = updater::inflate(&compressed, &base).unwrap();
    assert_eq!(out, newer);
}

#[test]
fn inflate_rejects_bytes_that_are_not_a_compressed_diff() {
    let base: Vec<u8> = b"base".to_vec();
    assert!(updater::inflate(&vec![1, 2, 3, 4], &base).is_none());
}

#[test]
fn inflate_rejects_a_diff_stream_with_wrong_framing() {
    // A zstd stream whose payload is not a binary diff.
    let payload: Vec<u8> = b"this is not a diff".to_vec();
    let mut compressed = std::io::Cursor::new(Vec::new());
    let compressor = ZstdCompressor::new();
    compressor
        .compress(&mut compressed, &mut payload.as_slice())
        .unwrap();
    let base: Vec<u8> = b"base".to_vec();
    assert!(updater::inflate(&compressed.into_inner(), &base).is_none());
}
