//! LZ4 block compression.
use super::Compression;
use vstd::prelude::*;

verus! {

/// The message of the error that a failed compression returns.
pub const ERR_LZ4_COMPRESS: &'static str = "lz4_compress_failed";

/// The message of the error that a failed decompression returns.
pub const ERR_LZ4_DECOMPRESS: &'static str = "lz4_decompress_failed";

/// The longest input that LZ4 compresses, in bytes.
pub const LZ4_MAX_INPUT_SIZE: usize = 0x7E00_0000;

/// The most bytes that LZ4 writes when it compresses `len` bytes; zero for
/// an input that is too long to compress.
pub open spec fn lz4_bound(len: nat) -> nat {
    if len > 0x7E00_0000 {
        0
    } else {
        len + len / 255 + 16
    }
}

/// The error of kind `Other` that carries the message `msg`.
pub uninterp spec fn other_error(msg: Seq<char>) -> std::io::Error;

/// The bytes that `lz4::block::decompress_to_buffer` decodes from `block`
/// when it is told to write at most `room` bytes; `None` where it reports an
/// error, as it does for a block that is malformed or decodes to more than
/// `room` bytes.
pub uninterp spec fn lz4_decoded(block: Seq<u8>, room: int) -> Option<Seq<u8>>;

/// How many bytes [`lz4_decoded`] gives, if any.
pub open spec fn lz4_decoded_len(block: Seq<u8>, room: int) -> Option<usize> {
    match lz4_decoded(block, room) {
        Some(bytes) => Some(bytes.len() as usize),
        None => None,
    }
}

/// What becomes of the count that a block operation reports: a count above
/// zero is the result, and anything else is the error with `message`.
pub open spec fn block_outcome(written: Option<usize>, message: Seq<char>) -> Result<
    usize,
    std::io::Error,
> {
    match written {
        Some(n) => if n > 0 {
            Ok(n)
        } else {
            Err(other_error(message))
        },
        None => Err(other_error(message)),
    }
}

/// Turns the count that a block operation reports into a result: a count
/// above zero is handed on, and anything else becomes the error with
/// `message`.
pub fn block_result(written: Option<usize>, message: &'static str) -> (r: Result<
    usize,
    std::io::Error,
>)
    ensures
        r == block_outcome(written, message@),
{
    match written {
        Some(n) => {
            if n > 0 {
                Ok(n)
            } else {
                Err(failure(message))
            }
        },
        None => Err(failure(message)),
    }
}

/// How many bytes the decoder is told to write at most into a destination
/// of `dest_len` bytes: all of them, up to the longest input that LZ4
/// compresses.
pub open spec fn decode_room(dest_len: nat) -> int {
    if dest_len > 0x7E00_0000 {
        0x7E00_0000
    } else {
        dest_len as int
    }
}

/// What decompressing `block` into a destination of `dest_len` bytes
/// returns: the number of bytes that the block decodes to, if the decoder
/// accepts it and that number is above zero, and the error otherwise. A
/// block of more than `i32::MAX` bytes is not shown to the decoder.
pub open spec fn decompress_outcome(block: Seq<u8>, dest_len: nat) -> Result<
    usize,
    std::io::Error,
> {
    if block.len() > i32::MAX {
        Err(other_error(ERR_LZ4_DECOMPRESS@))
    } else {
        block_outcome(lz4_decoded_len(block, decode_room(dest_len)), ERR_LZ4_DECOMPRESS@)
    }
}

/// What was compressed comes back: a block that [`LZ4::compress`] wrote for
/// the bytes `src`, of which there is at least one, decompresses into a
/// destination as long as `src` with success, and the count returned is the
/// length of `src`. The bytes that [`LZ4::decompress`] then leaves at the
/// front of the destination are those of `src`.
pub proof fn lemma_round_trip(src: Seq<u8>, block: Seq<u8>)
    requires
        0 < src.len() <= LZ4_MAX_INPUT_SIZE,
        block.len() <= lz4_bound(src.len()),
        lz4_decoded(block, src.len() as int) == Some(src),
    ensures
        decompress_outcome(block, src.len()) == Ok::<usize, std::io::Error>(src.len() as usize),
        lz4_decoded(block, decode_room(src.len())) == Some(src),
{
}

/// LZ4 block compression.
pub struct LZ4();

impl Compression for LZ4 {
    /// Returns the most bytes that compressing `size` bytes can write, and
    /// zero if `size` bytes are too many to compress.
    fn compress_bound(size: usize) -> (bound: usize)
        ensures
            bound == lz4_bound(size as nat),
    {
        match block_compress_bound(size) {
            Some(bound) => bound,
            None => 0,
        }
    }

    /// Compresses `src` into `dest` and returns how many bytes it wrote:
    /// at least one, and never more than `compress_bound(src.len())`. The
    /// bytes written are a block that decodes to `src` again. Succeeds
    /// whenever `src` is not too long and `dest` has room for
    /// `compress_bound(src.len())` bytes.
    fn compress(src: &[u8], dest: &mut [u8]) -> (r: Result<usize, std::io::Error>)
        ensures
            match r {
                Ok(n) => {
                    &&& 0 < n <= old(dest)@.len()
                    &&& n <= lz4_bound(src@.len())
                    &&& lz4_decoded(final(dest)@.take(n as int), src@.len() as int) == Some(
                        src@,
                    )
                },
                Err(e) => e == other_error(ERR_LZ4_COMPRESS@),
            },
            src@.len() > LZ4_MAX_INPUT_SIZE ==> r is Err,
            src@.len() <= LZ4_MAX_INPUT_SIZE && lz4_bound(src@.len()) <= old(dest)@.len() ==> r is Ok,
    {
        let room = if dest.len() > i32::MAX as usize {
            i32::MAX as usize
        } else {
            dest.len()
        };
        let (front, back) = dest.split_at_mut(room);
        let written = block_compress(src, front);
        proof {
            if let Some(n) = written {
                assert((front@ + back@).take(n as int) =~= front@.take(n as int));
            }
        }
        block_result(written, ERR_LZ4_COMPRESS)
    }

    /// Decompresses the block `src` into `dest` and returns how many bytes
    /// it wrote, which is at least one. The bytes at the front of `dest` are
    /// then what the block decodes to. Fails on a block of more than
    /// `i32::MAX` bytes, on one that the decoder refuses, and on one that
    /// decodes to nothing.
    fn decompress(src: &[u8], dest: &mut [u8]) -> (r: Result<usize, std::io::Error>)
        ensures
            match r {
                Ok(n) => 0 < n <= old(dest)@.len(),
                Err(e) => e == other_error(ERR_LZ4_DECOMPRESS@),
            },
            r == decompress_outcome(src@, old(dest)@.len()),
            r matches Ok(n) ==> lz4_decoded(src@, decode_room(old(dest)@.len())) == Some(
                final(dest)@.take(n as int),
            ),
    {
        if src.len() > i32::MAX as usize {
            return Err(failure(ERR_LZ4_DECOMPRESS));
        }
        let size = if dest.len() > LZ4_MAX_INPUT_SIZE {
            LZ4_MAX_INPUT_SIZE as i32
        } else {
            dest.len() as i32
        };
        block_result(block_decompress(src, dest, size), ERR_LZ4_DECOMPRESS)
    }
}

/// Makes an error with `std::io::Error::new`, of kind `ErrorKind::Other`
/// and with `msg` as its message.
#[verifier::external_body]
fn failure(msg: &'static str) -> (e: std::io::Error)
    ensures
        e == other_error(msg@),
{
    std::io::Error::new(std::io::ErrorKind::Other, msg)
}

/// Asks `lz4::block::compress_bound` for the worst-case size of a compressed
/// block. It answers `len + len / 255 + 16` for an input that LZ4 can
/// compress, and with an error for a longer one.
#[verifier::external_body]
fn block_compress_bound(len: usize) -> (bound: Option<usize>)
    ensures
        len <= LZ4_MAX_INPUT_SIZE ==> bound == Some((len + len / 255 + 16) as usize),
        len > LZ4_MAX_INPUT_SIZE ==> bound is None,
{
    ::lz4::block::compress_bound(len).ok()
}

/// Compresses `src` into `dest` with `lz4::block::compress_to_buffer`, in
/// its default mode and without a size prefix. It writes at least one byte
/// and never past the end of `dest`, nor more than the worst case that
/// `LZ4_compressBound` gives for the input; it refuses an input that is too
/// long; and it succeeds whenever `dest` has room for the worst case.
/// LZ4 is lossless: the block that it wrote is one that the decoder, given
/// room for as many bytes as `src` has, turns into `src` again. Which block
/// it writes is not said: that differs from machine to machine.
#[verifier::external_body]
fn block_compress(src: &[u8], dest: &mut [u8]) -> (written: Option<usize>)
    requires
        old(dest)@.len() <= i32::MAX,
    ensures
        final(dest)@.len() == old(dest)@.len(),
        written matches Some(n) ==> 0 < n <= old(dest)@.len(),
        written matches Some(n) ==> n <= lz4_bound(src@.len()),
        written matches Some(n) ==> lz4_decoded(final(dest)@.take(n as int), src@.len() as int)
            == Some(src@),
        src@.len() > LZ4_MAX_INPUT_SIZE ==> written is None,
        src@.len() <= LZ4_MAX_INPUT_SIZE && lz4_bound(src@.len()) <= old(dest)@.len()
            ==> written is Some,
{
    ::lz4::block::compress_to_buffer(src, None, false, dest).ok()
}

/// Decompresses the block `src` into `dest` with
/// `lz4::block::decompress_to_buffer`, which is told to write at most `size`
/// bytes. What it decodes is [`lz4_decoded`]: it lies at the front of
/// `dest`, is never longer than `size`, and its length is returned. An error
/// of the decoder comes back as `None`.
#[verifier::external_body]
fn block_decompress(src: &[u8], dest: &mut [u8], size: i32) -> (written: Option<usize>)
    requires
        src@.len() <= i32::MAX,
        0 <= size <= old(dest)@.len(),
    ensures
        final(dest)@.len() == old(dest)@.len(),
        written == lz4_decoded_len(src@, size as int),
        written matches Some(n) ==> n <= size && lz4_decoded(src@, size as int) == Some(
            final(dest)@.take(n as int),
        ),
{
    ::lz4::block::decompress_to_buffer(src, Some(size), dest).ok()
}

} // verus!
