//! Reconstructing a full patch artifact from a compressed binary diff: the
//! diff bytes are zstd-decompressed, then applied against the shipped base
//! library.  The two outside computations are named, not restated: what each
//! returns is a function of its inputs alone.

use vstd::prelude::*;

use comde::de::Decompressor;

verus! {

/// The decompressed form of a zstd-compressed byte stream.
pub uninterp spec fn decompressed_of(data: Seq<u8>) -> Seq<u8>;

/// Do these bytes decompress as a zstd stream?
pub uninterp spec fn zstd_ok(data: Seq<u8>) -> bool;

/// The result of applying a binary diff to a base file's bytes.
pub uninterp spec fn patched_of(diff: Seq<u8>, base: Seq<u8>) -> Seq<u8>;

/// Does this binary diff apply to this base?
pub uninterp spec fn bipatch_ok(diff: Seq<u8>, base: Seq<u8>) -> bool;

/// Relies on `comde::zstd::ZstdDecompressor::copy` (zstd decompression):
/// both the output bytes and whether decoding succeeds are functions of the
/// compressed input alone; input that is not a zstd stream reports an
/// error, returned here as `None`.
#[verifier::external_body]
fn zstd_decompress(data: &Vec<u8>) -> (r: Option<Vec<u8>>)
    ensures
        r is Some <==> zstd_ok(data@),
        r matches Some(out) ==> out@ == decompressed_of(data@),
{
    let d = comde::zstd::ZstdDecompressor::new();
    let mut out: Vec<u8> = Vec::new();
    match d.copy(data.as_slice(), &mut out) {
        Ok(_) => Some(out),
        Err(_) => None,
    }
}

/// Relies on `bipatch::Reader`: reading it back yields the base bytes with
/// the diff applied; both the output and whether the decode succeeds are
/// functions of the two inputs alone.  A malformed diff reports an error,
/// returned here as `None`.
#[verifier::external_body]
fn bipatch_apply(diff: &Vec<u8>, base: &Vec<u8>) -> (r: Option<Vec<u8>>)
    ensures
        r is Some <==> bipatch_ok(diff@, base@),
        r matches Some(out) ==> out@ == patched_of(diff@, base@),
{
    let base_cursor = std::io::Cursor::new(base.as_slice());
    match bipatch::Reader::new(diff.as_slice(), base_cursor) {
        Ok(mut reader) => {
            let mut out: Vec<u8> = Vec::new();
            match std::io::copy(&mut reader, &mut out) {
                Ok(_) => Some(out),
                Err(_) => None,
            }
        },
        Err(_) => None,
    }
}

/// Inflate a downloaded diff artifact: decompress it and apply it to the
/// bytes of the shipped base library, giving the full artifact.  It
/// succeeds exactly when the input is a zstd stream whose payload is a
/// diff that applies to this base; anything else is `None`.
pub fn inflate(compressed_diff: &Vec<u8>, base: &Vec<u8>) -> (r: Option<Vec<u8>>)
    ensures
        r is Some <==> (zstd_ok(compressed_diff@) && bipatch_ok(
            decompressed_of(compressed_diff@),
            base@,
        )),
        r matches Some(out) ==> out@ == patched_of(
            decompressed_of(compressed_diff@),
            base@,
        ),
{
    match zstd_decompress(compressed_diff) {
        None => None,
        Some(diff) => bipatch_apply(&diff, base),
    }
}

} // verus!
