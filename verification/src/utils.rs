//! Copy and zero-fill primitives over byte slices.
use vstd::prelude::*;

verus! {

/// `n` zero bytes.
pub open spec fn zeros(n: nat) -> Seq<u8> {
    Seq::new(n, |i: int| 0u8)
}

/// Every byte of `s` is zero.
pub open spec fn all_zero(s: Seq<u8>) -> bool {
    forall|i: int| 0 <= i < s.len() ==> s[i] == 0
}

/// The number of bytes that a copy from a source of `src_len` bytes into a
/// destination of `dst_len` bytes moves: the shorter of the two lengths.
pub open spec fn copy_len(dst_len: nat, src_len: nat) -> nat {
    if src_len < dst_len {
        src_len
    } else {
        dst_len
    }
}

/// `dst` after the leading bytes of `src` were copied over its own leading
/// bytes. Bytes of `dst` past the copied count keep their value.
pub open spec fn copied_over(dst: Seq<u8>, src: Seq<u8>) -> Seq<u8> {
    let n = copy_len(dst.len(), src.len()) as int;
    src.take(n) + dst.skip(n)
}

/// A copy keeps the destination's length, puts the leading bytes of the
/// source in place of as many leading bytes of the destination, and leaves
/// the destination's other bytes as they were.
pub proof fn lemma_copied_over(dst: Seq<u8>, src: Seq<u8>)
    ensures
        copied_over(dst, src).len() == dst.len(),
        forall|i: int|
            0 <= i < copy_len(dst.len(), src.len()) ==> #[trigger] copied_over(dst, src)[i]
                == src[i],
        forall|i: int|
            copy_len(dst.len(), src.len()) <= i < dst.len() ==> #[trigger] copied_over(
                dst,
                src,
            )[i] == dst[i],
{
}

/// A letter or a digit of ASCII.
pub open spec fn is_ascii_alphanumeric(b: u8) -> bool {
    ||| 0x30 <= b <= 0x39
    ||| 0x41 <= b <= 0x5a
    ||| 0x61 <= b <= 0x7a
}

/// Copies the leading `min(dst.len(), src.len())` bytes of `src` into `dst`
/// and returns how many bytes were copied. Never reads or writes past the
/// end of either slice.
pub fn safe_copy(dst: &mut [u8], src: &[u8]) -> (copied: usize)
    ensures
        copied == copy_len(old(dst)@.len(), src@.len()),
        final(dst)@ == copied_over(old(dst)@, src@),
{
    let dst_len = dst.len();
    let src_len = src.len();
    let n = if src_len < dst_len {
        src_len
    } else {
        dst_len
    };
    let mut i: usize = 0;
    while i < n
        invariant
            n == copy_len(old(dst)@.len(), src@.len()),
            i <= n,
            dst@.len() == old(dst)@.len(),
            dst@ == src@.take(i as int) + old(dst)@.skip(i as int),
        decreases n - i,
    {
        dst[i] = src[i];
        i += 1;
        assert(dst@ =~= src@.take(i as int) + old(dst)@.skip(i as int));
    }
    n
}

/// Overwrites every byte of `dst` with zero.
pub fn set_zero(dst: &mut [u8])
    ensures
        final(dst)@ == zeros(old(dst)@.len()),
{
    let n = dst.len();
    let mut i: usize = 0;
    while i < n
        invariant
            i <= n,
            n == dst@.len(),
            dst@.len() == old(dst)@.len(),
            forall|k: int| 0 <= k < i ==> dst@[k] == 0,
        decreases n - i,
    {
        dst[i] = 0;
        i += 1;
    }
    assert(dst@ =~= zeros(n as nat));
}

/// Tells whether every byte of `s` is zero. Stops at the first byte that is
/// not.
pub fn is_all_zero(s: &[u8]) -> (r: bool)
    ensures
        r == all_zero(s@),
{
    let n = s.len();
    let mut i: usize = 0;
    while i < n
        invariant
            i <= n,
            n == s@.len(),
            forall|k: int| 0 <= k < i ==> s@[k] == 0,
        decreases n - i,
    {
        if s[i] != 0 {
            return false;
        }
        i += 1;
    }
    true
}

/// Draws one character with `fastrand::alphanumeric` and returns it as a
/// byte. The generator picks from the letters `A-Z`, `a-z` and the digits
/// `0-9`, so the byte is always in one of these three ranges; which one comes
/// is up to the generator's state.
#[verifier::external_body]
fn random_alphanumeric() -> (b: u8)
    ensures
        is_ascii_alphanumeric(b),
{
    fastrand::alphanumeric() as u8
}

/// Fills `dst` with random ASCII letters and digits.
pub fn rand_buffer(dst: &mut [u8])
    ensures
        final(dst)@.len() == old(dst)@.len(),
        forall|i: int| 0 <= i < final(dst)@.len() ==> is_ascii_alphanumeric(#[trigger] final(dst)@[i]),
{
    let n = dst.len();
    let mut i: usize = 0;
    while i < n
        invariant
            i <= n,
            n == dst@.len(),
            dst@.len() == old(dst)@.len(),
            forall|k: int| 0 <= k < i ==> is_ascii_alphanumeric(#[trigger] dst@[k]),
        decreases n - i,
    {
        dst[i] = random_alphanumeric();
        i += 1;
    }
}

} // verus!
