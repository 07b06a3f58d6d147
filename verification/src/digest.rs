//! Digest verification and image decompression.
//!
//! Downloaded assets are validated by their SHA-256 digest against a
//! published sibling text file; a mismatch triggers a re-download.
//! Compressed images are decompressed in memory before being streamed
//! into their block volume.

use vstd::prelude::*;
use vstd::string::*;

use crate::errors::Error;
use crate::zfsplan::{alloc_size, spec_alloc_size};

verus! {

/// The lowercase hexadecimal SHA-256 digest of a byte string.  The
/// digest is a function of the bytes alone; its value is not modeled.
pub uninterp spec fn sha256_hex_of(data: Seq<u8>) -> Seq<char>;

/// The decompressed form of an XZ stream.  The output is a function of
/// the input alone; its value is not modeled.
pub uninterp spec fn xz_decoded(data: Seq<u8>) -> Seq<u8>;

/// Whether a byte string is a well-formed XZ stream that decompresses
/// successfully.  Decompression reads the bytes alone, so success is a
/// function of them; its value is not modeled.
pub uninterp spec fn xz_wf(data: Seq<u8>) -> bool;

/// Compute the lowercase hexadecimal SHA-256 digest of `data`.
///
/// Relies on `sha2::Sha256`, whose output is 32 bytes, and on
/// `base16ct::lower::encode_string`, which encodes each byte as two
/// lowercase hexadecimal digits.
#[verifier::external_body]
fn sha256_hex_raw(data: &[u8]) -> (r: String)
    ensures
        r@ == sha256_hex_of(data@),
        r@.len() == 64,
{
    let digest = <sha2::Sha256 as sha2::Digest>::digest(data);
    base16ct::lower::encode_string(&digest)
}

/// The lowercase hexadecimal SHA-256 digest of `data`.
pub fn sha256_hex(data: &Vec<u8>) -> (r: String)
    ensures
        r@ == sha256_hex_of(data@),
        r@.len() == 64,
{
    sha256_hex_raw(data.as_slice())
}

/// Decompress an XZ stream in memory.
///
/// Relies on `xz2::read::XzDecoder`: it reads nothing but the given
/// bytes, succeeds exactly on well-formed streams, and returns an error
/// on corrupt or truncated ones; on success the output is the
/// decompressed stream.
#[verifier::external_body]
fn xz_decompress_raw(data: &[u8]) -> (r: Result<Vec<u8>, Error>)
    ensures
        r is Ok <==> xz_wf(data@),
        r matches Ok(v) ==> v@ == xz_decoded(data@),
{
    let mut decoder = xz2::read::XzDecoder::new(data);
    let mut out: Vec<u8> = Vec::new();
    match std::io::Read::read_to_end(&mut decoder, &mut out) {
        Ok(_) => Ok(out),
        Err(e) => Err(Error::IO(e.to_string())),
    }
}

/// Whether an asset must be downloaded: there is no local digest, or it
/// differs from the expected one.
pub fn needs_download(local: Option<&String>, expected: &str) -> (r: bool)
    ensures
        r == match local {
            None => true,
            Some(l) => l@ != expected@,
        },
{
    match local {
        None => true,
        Some(l) => {
            let e = expected.to_owned();
            !l.eq(&e)
        },
    }
}

/// Decompress a downloaded image and compute the size of the volume to
/// create for it: the decompressed length rounded up to the volume
/// block granularity.  This succeeds on exactly the well-formed streams
/// whose decompressed length leaves room for the rounding.
pub fn prepare_image(compressed: &Vec<u8>) -> (r: Result<(Vec<u8>, u64), Error>)
    ensures
        match r {
            Ok((bytes, size)) => {
                &&& xz_wf(compressed@)
                &&& bytes@ == xz_decoded(compressed@)
                &&& xz_decoded(compressed@).len() <= u64::MAX - 4096
                &&& size == spec_alloc_size(bytes@.len() as int)
                &&& size >= bytes@.len()
                &&& size % 4096 == 0
            },
            Err(_) => !xz_wf(compressed@) || xz_decoded(compressed@).len() > u64::MAX - 4096,
        },
{
    let bytes = match xz_decompress_raw(compressed.as_slice()) {
        Ok(b) => b,
        Err(e) => {
            return Err(e);
        },
    };
    let len = bytes.len() as u64;
    if len > u64::MAX - 4096 {
        return Err(Error::IO("decompressed image is too large".to_owned()));
    }
    let size = alloc_size(len);
    Ok((bytes, size))
}

} // verus!
