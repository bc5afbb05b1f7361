//! The zlib codec that every resource block of a bundle goes through.

use crate::error::Error;
use flate2::read::ZlibDecoder;
use flate2::write::ZlibEncoder;
use flate2::Compression;
use std::io::Read;
use std::io::Write;
use vstd::prelude::*;

verus! {

/// `std::io::Error`, the error that the codec's streams report. The library
/// hands it on as one of its own errors and reads nothing in it.
#[verifier::external_type_specification]
#[verifier::external_body]
pub struct ExIoError(std::io::Error);

/// The zlib stream that the compressor writes for `data` at its default
/// level, or `None` where it reports an error instead.
pub uninterp spec fn zlib_deflated(data: Seq<u8>) -> Option<Seq<u8>>;

/// What the first zlib stream in `data` decodes to, or `None` where `data`
/// does not start with a complete, valid stream.
pub uninterp spec fn zlib_inflated(data: Seq<u8>) -> Option<Seq<u8>>;

/// `flate2::write::ZlibEncoder` over a `Vec`, at `Compression::default()`:
/// `write_all` the input, then `finish`. The encoder has no other input than
/// the bytes, so its outcome, stream or error, is the one named by
/// [`zlib_deflated`]. Nothing is claimed of when it is a stream, nor of what
/// a stream decodes to.
#[verifier::external_body]
fn deflate(data: &[u8]) -> (r: Result<Vec<u8>, std::io::Error>)
    ensures
        r matches Ok(v) ==> zlib_deflated(data@) == Some(v@),
        r is Err ==> zlib_deflated(data@) is None,
{
    let mut encoder = ZlibEncoder::new(Vec::new(), Compression::default());
    encoder.write_all(data)?;
    encoder.finish()
}

/// `flate2::read::ZlibDecoder` over a byte slice, read to its end. The
/// decoder stops after the first stream and reports a stream that is cut
/// short or corrupt as an error, so the outcome is the one named by
/// [`zlib_inflated`].
#[verifier::external_body]
fn inflate(data: &[u8]) -> (r: Result<Vec<u8>, std::io::Error>)
    ensures
        r matches Ok(v) ==> zlib_inflated(data@) == Some(v@),
        r is Err ==> zlib_inflated(data@) is None,
{
    let mut decoder = ZlibDecoder::new(data);
    let mut out = Vec::new();
    decoder.read_to_end(&mut out)?;
    Ok(out)
}

/// What [`decompress_data`] returns for a stream that decodes to `decoded`.
pub open spec fn decompressed(decoded: Option<Seq<u8>>) -> Result<Seq<u8>, Error> {
    match decoded {
        Some(bytes) => Ok(bytes),
        None => Err(Error::DecompressionFailure),
    }
}

/// Whether `data` compresses into a stream that decodes to `data` again.
pub open spec fn stream_ok(data: Seq<u8>) -> bool {
    zlib_deflated(data) matches Some(stream) && zlib_inflated(stream) == Some(data)
}

/// What [`compress_data`] returns for `data`: the stream that the compressor
/// writes, if it writes one and the stream decodes to `data` again.
pub open spec fn compressed(data: Seq<u8>) -> Result<Seq<u8>, Error> {
    if stream_ok(data) {
        Ok(zlib_deflated(data)->0)
    } else {
        Err(Error::CompressionFailure)
    }
}

/// Whether two byte strings are the same.
pub fn same_bytes(a: &[u8], b: &[u8]) -> (same: bool)
    ensures
        same == (a@ == b@),
{
    if a.len() != b.len() {
        return false;
    }
    let mut i: usize = 0;
    while i < a.len()
        invariant
            i <= a.len(),
            a.len() == b.len(),
            forall|k: int| 0 <= k < i ==> a@[k] == b@[k],
        decreases a.len() - i,
    {
        if a[i] != b[i] {
            return false;
        }
        i += 1;
    }
    assert(a@ =~= b@);
    true
}

/// Compresses `data` into a zlib stream and makes sure of the stream: it is
/// decoded again and held against `data`.
///
/// Fails with [`Error::CompressionFailure`] exactly when the compressor
/// reports an error or its stream does not decode to `data`. A stream that
/// comes back therefore always decodes to `data`.
pub fn compress_data(data: &[u8]) -> (r: Result<Vec<u8>, Error>)
    ensures
        crate::snapshot::bytes_of(r) == compressed(data@),
        r is Ok == stream_ok(data@),
        r matches Ok(v) ==> zlib_inflated(v@) == Some(data@),
{
    let block = match deflate(data) {
        Ok(block) => block,
        Err(_) => {
            return Err(Error::CompressionFailure);
        },
    };
    match inflate(block.as_slice()) {
        Ok(back) => if same_bytes(back.as_slice(), data) {
            Ok(block)
        } else {
            Err(Error::CompressionFailure)
        },
        Err(_) => Err(Error::CompressionFailure),
    }
}

/// What was compressed comes back: a stream that [`compress_data`] hands
/// out is one that [`decompress_data`] decodes to the bytes it was made
/// from.
pub proof fn lemma_compress_then_decompress(data: Seq<u8>)
    ensures
        compressed(data) matches Ok(stream) ==> decompressed(zlib_inflated(stream)) == Ok::<
            Seq<u8>,
            Error,
        >(data),
{
}

/// Decodes the zlib stream at the start of `data`.
///
/// Fails with [`Error::DecompressionFailure`] exactly when `data` does not
/// start with a complete, valid stream.
pub fn decompress_data(data: &[u8]) -> (r: Result<Vec<u8>, Error>)
    ensures
        crate::snapshot::bytes_of(r) == decompressed(zlib_inflated(data@)),
{
    match inflate(data) {
        Ok(v) => Ok(v),
        Err(_) => Err(Error::DecompressionFailure),
    }
}

} // verus!
