//! Compression over the byte ranges that a buffer lends out.
use vstd::prelude::*;

pub mod lz4;

verus! {

/// The error type of [`Compression`]. Nothing inside it is read here.
#[verifier::external_type_specification]
#[verifier::external_body]
pub struct ExIoError(std::io::Error);

/// A compression method. Both directions read one byte range and write
/// into another, and say how many bytes they wrote.
pub trait Compression {
    /// Estimates from above how many bytes the compressed form of
    /// `origin_len` bytes can take.
    fn compress_bound(origin_len: usize) -> usize;

    /// Compresses `src` into `dest`. On success, returns the size of the
    /// compressed data, which lies at the front of `dest`.
    fn compress(src: &[u8], dest: &mut [u8]) -> (r: Result<usize, std::io::Error>)
        ensures
            final(dest)@.len() == old(dest)@.len(),
            r matches Ok(n) ==> n <= old(dest)@.len(),
    ;

    /// Decompresses `src` into `dest`. On success, returns the size of the
    /// decompressed data, which lies at the front of `dest`.
    fn decompress(src: &[u8], dest: &mut [u8]) -> (r: Result<usize, std::io::Error>)
        ensures
            final(dest)@.len() == old(dest)@.len(),
            r matches Ok(n) ==> n <= old(dest)@.len(),
    ;
}

} // verus!
