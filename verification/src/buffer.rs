//! The buffer type: its state, the ways to make one, and what it offers.
use crate::packed::{count, count_of, flag, flag_of, pack, with_count};
use crate::utils::{copied_over, copy_len, safe_copy, set_zero, zeros};
use nix::errno::Errno;
use vstd::pervasive::unreached;
use vstd::prelude::*;
use vstd::slice::slice_subrange;

verus! {

/// The error type of the allocating constructors, `nix::errno::Errno`. It
/// is an enum without fields, and its variants are read as they stand, so
/// that a contract can name `Errno::ENOMEM`. Nothing is claimed of it.
#[verifier::external_type_specification]
pub struct ExErrno(nix::errno::Errno);

/// The least alignment of an aligned buffer, in bytes.
pub const MIN_ALIGN: u32 = 512;

/// Length and capacity of a buffer stay below this bound.
pub const MAX_BUFFER_SIZE: usize = 0x8000_0000;

/// Tells whether `offset` and `size` are both multiples of [`MIN_ALIGN`].
pub fn is_aligned(offset: usize, size: usize) -> (r: bool)
    ensures
        r == (offset % 512 == 0 && size % 512 == 0),
{
    assert((offset & 511 == 0) == (offset % 512 == 0)) by (bit_vector);
    assert((size & 511 == 0) == (size % 512 == 0)) by (bit_vector);
    (offset & 511 == 0) && (size & 511 == 0)
}

/// The least number of bytes to step forward from `base` to reach a multiple
/// of `align`; none where `align` is zero, which asks for no alignment.
pub open spec fn padding_to(base: int, align: int) -> int {
    if align <= 0 || base % align == 0 {
        0
    } else {
        align - base % align
    }
}

/// How many bytes more than its size an allocation takes so that a multiple
/// of `align` lies in it early enough.
pub open spec fn slack_for(align: u32) -> int {
    if align > 0 {
        align - 1
    } else {
        0
    }
}

/// Computes the least number of bytes to step forward from `base` to reach a
/// multiple of `align`; none where `align` is zero.
pub fn align_padding(base: usize, align: u32) -> (pad: usize)
    ensures
        pad == padding_to(base as int, align as int),
        pad <= slack_for(align),
        align > 0 ==> (base + pad) % (align as int) == 0,
{
    if align == 0 {
        return 0;
    }
    let rem = base % (align as usize);
    proof {
        lemma_padding_reaches(base as int, align as int);
    }
    if rem == 0 {
        0
    } else {
        align as usize - rem
    }
}

/// Stepping forward by [`padding_to`] lands on a multiple of `align`, and the
/// step is shorter than `align`.
pub proof fn lemma_padding_reaches(base: int, align: int)
    requires
        base >= 0,
        align > 0,
    ensures
        0 <= padding_to(base, align) < align,
        (base + padding_to(base, align)) % align == 0,
{
    let r = base % align;
    let q = base / align;
    assert(base == q * align + r && 0 <= r < align) by (nonlinear_arith)
        requires
            r == base % align,
            q == base / align,
            align > 0,
    ;
    if r != 0 {
        assert((q * align + r + (align - r)) % align == 0) by (nonlinear_arith)
            requires
                align > 0,
        ;
    }
}

/// A region of `len` bytes after the leading bytes of `src`, as many as fit,
/// were copied to `offset` and every other byte was zeroed.
pub open spec fn cleaned_copy(len: nat, offset: nat, src: Seq<u8>) -> Seq<u8>
    recommends
        offset <= len,
{
    let copied = copy_len((len - offset) as nat, src.len());
    zeros(offset) + src.take(copied as int) + zeros((len - offset - copied) as nat)
}

/// After a copy that cleans, a region of `len` bytes holds the copied bytes
/// of `src` from `offset` on, and zero everywhere before and after them.
pub proof fn lemma_cleaned_copy(len: nat, offset: nat, src: Seq<u8>)
    requires
        offset < len,
    ensures
        cleaned_copy(len, offset, src).len() == len,
        forall|i: int| 0 <= i < offset ==> #[trigger] cleaned_copy(len, offset, src)[i] == 0,
        forall|i: int|
            offset <= i < offset + copy_len((len - offset) as nat, src.len())
                ==> #[trigger] cleaned_copy(len, offset, src)[i] == src[i - offset],
        forall|i: int|
            offset + copy_len((len - offset) as nat, src.len()) <= i < len
                ==> #[trigger] cleaned_copy(len, offset, src)[i] == 0,
{
}

/// Where the range of `len` bytes from `offset` ends in a region of `size`
/// bytes: at the region's end if the range reaches past it.
pub open spec fn clamped_end(size: nat, offset: nat, len: nat) -> nat {
    if offset + len < size {
        offset + len
    } else {
        size
    }
}

/// `s` after the bytes from `offset` up to `offset + len`, as far as `s` has
/// them, were zeroed.
pub open spec fn zeroed_range(s: Seq<u8>, offset: nat, len: nat) -> Seq<u8> {
    let end = clamped_end(s.len(), offset, len);
    if offset < end {
        s.take(offset as int) + zeros((end - offset) as nat) + s.skip(end as int)
    } else {
        s
    }
}

/// Where the bytes of a buffer live.
#[derive(Debug)]
enum Region<'a> {
    /// An allocation that the buffer owns and releases when it is dropped.
    Owned(Vec<u8>),
    /// Memory of someone else that the buffer may write to.
    Exclusive(&'a mut [u8]),
    /// Memory of someone else that the buffer may only read.
    Shared(&'a [u8]),
}

/// A byte region of fixed capacity, of which a leading part is in use.
///
/// A buffer either owns its memory, which is then released exactly once when
/// the buffer is dropped or handed on by [`Buffer::into_vec`], or it borrows
/// memory for the lifetime `'a` and never releases it.
///
/// Three of the four combinations of the two flags occur: owned and mutable,
/// borrowed and mutable, borrowed and immutable. No constructor makes an owned
/// buffer that is immutable, and [`Buffer::wf`] excludes it.
///
/// A buffer can be sent to another thread. It guards nothing itself: whoever
/// lends memory to a buffer answers for what else touches that memory.
#[derive(Debug)]
pub struct Buffer<'a> {
    region: Region<'a>,
    /// How many bytes of an owned allocation lie before the base address.
    pad: usize,
    /// The address of the first byte, as it was read when the buffer was
    /// made. The memory of a buffer never moves.
    addr: usize,
    /// The length; the highest bit says `owned`.
    size: u32,
    /// The capacity; the highest bit says `mutable`.
    cap: u32,
}

impl<'a> View for Buffer<'a> {
    type V = Seq<u8>;

    /// The bytes in use: the leading `len()` bytes of the storage.
    open spec fn view(&self) -> Seq<u8> {
        self.storage().take(self.len() as int)
    }
}

impl<'a> Buffer<'a> {
    /// All bytes of the region that the buffer holds, padding included.
    closed spec fn region_bytes(&self) -> Seq<u8> {
        match self.region {
            Region::Owned(v) => v@,
            Region::Exclusive(s) => s@,
            Region::Shared(s) => s@,
        }
    }

    /// The `capacity()` bytes that the buffer addresses.
    pub closed spec fn storage(&self) -> Seq<u8> {
        self.region_bytes().subrange(self.pad as int, self.pad + count_of(self.cap))
    }

    /// The bytes that the buffer addresses and does not use: those of the
    /// storage from `len()` on.
    pub open spec fn spare(&self) -> Seq<u8> {
        self.storage().skip(self.len() as int)
    }

    /// The number of bytes in use.
    pub closed spec fn spec_len(&self) -> usize {
        count_of(self.size) as usize
    }

    /// The number of bytes that the buffer addresses.
    pub closed spec fn spec_capacity(&self) -> usize {
        count_of(self.cap) as usize
    }

    /// Whether dropping the buffer releases its memory.
    pub closed spec fn spec_is_owned(&self) -> bool {
        flag_of(self.size)
    }

    /// Whether the buffer may be written to.
    pub closed spec fn spec_is_mutable(&self) -> bool {
        flag_of(self.cap)
    }

    /// The address of the buffer's first byte.
    pub closed spec fn spec_get_raw(&self) -> usize {
        self.addr
    }

    /// The memory that was lent to a buffer that borrows what it may write
    /// to. Says nothing of any other buffer.
    pub closed spec fn lent(&self) -> &'a mut [u8] {
        if self.region is Exclusive {
            self.region->Exclusive_0
        } else {
            arbitrary()
        }
    }

    /// Whether base address and capacity are both multiples of [`MIN_ALIGN`].
    pub open spec fn spec_is_aligned(&self) -> bool {
        self.get_raw() % 512 == 0 && self.capacity() % 512 == 0
    }

    /// How the fields hang together: the flags agree with where the bytes
    /// live, and the region is long enough for padding and capacity.
    pub closed spec fn inv(&self) -> bool {
        &&& self.region_bytes().len() >= self.pad + count_of(self.cap)
        &&& flag_of(self.size) == (self.region is Owned)
        &&& flag_of(self.cap) == !(self.region is Shared)
        &&& !(self.region is Owned) ==> self.pad == 0 && self.region_bytes().len() == count_of(
            self.cap,
        )
    }

    /// What holds of every buffer that this module hands out.
    pub open spec fn wf(&self) -> bool {
        &&& self.len() <= self.capacity()
        &&& self.capacity() < MAX_BUFFER_SIZE
        &&& self.storage().len() == self.capacity()
        &&& self.is_owned() ==> self.is_mutable()
        &&& self.inv()
    }

    /// `self` and `other` agree on everything but their bytes: length,
    /// capacity, both flags and the base address.
    pub open spec fn same_shape(&self, other: &Buffer) -> bool {
        &&& self.len() == other.len()
        &&& self.capacity() == other.capacity()
        &&& self.is_owned() == other.is_owned()
        &&& self.is_mutable() == other.is_mutable()
        &&& self.get_raw() == other.get_raw()
    }

    /// Whether `size` bytes at a multiple of `align` may be asked for.
    pub open spec fn spec_valid_request(size: i32, align: u32) -> bool {
        &&& size > 0
        &&& align % MIN_ALIGN == 0
        &&& align > 0 ==> (size as int) % (align as int) == 0
    }

    /// What a successful allocation of `size` bytes at a multiple of `align`
    /// (at any address where `align` is zero) looks like.
    pub open spec fn fresh(&self, align: u32, size: int) -> bool {
        &&& self.wf()
        &&& self.len() == size
        &&& self.capacity() == size
        &&& self.is_owned()
        &&& self.is_mutable()
        &&& align > 0 ==> (self.get_raw() as int) % (align as int) == 0
    }

    /// Makes the buffer of `size` bytes that lies in the allocation `bytes`,
    /// whose first byte has the address `base`. The buffer starts at the
    /// first multiple of `align` in it (at `base` itself where `align` is
    /// zero). Fails only on an address that the machine cannot have.
    fn place(bytes: Vec<u8>, base: usize, align: u32, size: i32) -> (r: Result<
        Buffer<'static>,
        Errno,
    >)
        requires
            size >= 0,
            bytes@.len() == size + slack_for(align),
        ensures
            match r {
                Ok(b) => {
                    &&& b.fresh(align, size as int)
                    &&& b.get_raw() == base + padding_to(base as int, align as int)
                    &&& b.storage() == bytes@.subrange(
                        padding_to(base as int, align as int),
                        padding_to(base as int, align as int) + size,
                    )
                },
                Err(e) => e == Errno::ENOMEM,
            },
            r is Ok <==> base + padding_to(base as int, align as int) <= usize::MAX,
    {
        let pad = align_padding(base, align);
        match base.checked_add(pad) {
            Some(addr) => {
                let word = pack(true, size as u32);
                Ok(Buffer { region: Region::Owned(bytes), pad, addr, size: word, cap: word })
            },
            None => Err(Errno::ENOMEM),
        }
    }

    /// Allocates `size` bytes for a buffer that owns them. With `align`
    /// above zero the first byte lies at a multiple of `align`: the
    /// allocation is made `align - 1` bytes longer, and [`Buffer::place`]
    /// finds the first such address in it.
    fn _alloc(align: u32, size: i32) -> (r: Result<Buffer<'static>, Errno>)
        requires
            size >= 0,
        ensures
            match r {
                Ok(b) => b.fresh(align, size as int),
                Err(e) => e == Errno::ENOMEM,
            },
            size + slack_for(align) > usize::MAX ==> r is Err,
    {
        let slack = if align > 0 {
            (align - 1) as usize
        } else {
            0
        };
        let total = match (size as usize).checked_add(slack) {
            Some(total) => total,
            None => {
                return Err(Errno::ENOMEM);
            },
        };
        let mut bytes: Vec<u8> = Vec::new();
        if bytes.try_reserve(total).is_err() {
            return Err(Errno::ENOMEM);
        }
        bytes.resize(total, 0u8);
        let base = base_address(bytes.as_slice());
        Self::place(bytes, base, align, size)
    }

    /// Allocates a buffer of `size` bytes that owns its memory and may be
    /// written to. Length and capacity are both `size`; nothing is promised
    /// of the bytes. Returns `ENOMEM` if the memory cannot be had.
    pub fn allocate(size: i32) -> (r: Result<Buffer<'static>, Errno>)
        requires
            size > 0,
        ensures
            match r {
                Ok(b) => b.fresh(0, size as int),
                Err(e) => e == Errno::ENOMEM,
            },
    {
        Self::_alloc(0, size)
    }

    /// Allocates a buffer as [`Buffer::allocate`] does, with its first byte at a
    /// multiple of [`MIN_ALIGN`].
    pub fn aligned(size: i32) -> (r: Result<Buffer<'static>, Errno>)
        requires
            Self::spec_valid_request(size, MIN_ALIGN),
        ensures
            match r {
                Ok(b) => b.fresh(MIN_ALIGN, size as int) && b.is_aligned(),
                Err(e) => e == Errno::ENOMEM,
            },
    {
        Self::_alloc(MIN_ALIGN, size)
    }

    /// Tells whether `size` bytes at a multiple of `align` may be asked
    /// for: `size` is above zero, `align` is a multiple of [`MIN_ALIGN`], and
    /// `size` is a multiple of `align`. An `align` of zero asks for no
    /// alignment and goes with every `size` above zero.
    #[verifier::when_used_as_spec(spec_valid_request)]
    pub fn valid_request(size: i32, align: u32) -> (ok: bool)
        ensures
            ok == Self::spec_valid_request(size, align),
    {
        size > 0 && align % MIN_ALIGN == 0 && (align == 0 || size as u32 % align == 0)
    }

    /// A buffer allocated at a multiple of `align` for a request that
    /// [`Buffer::valid_request`] accepts starts at a multiple of `align`,
    /// and is aligned: its address and its capacity are multiples of
    /// [`MIN_ALIGN`].
    pub proof fn lemma_fresh_is_aligned(&self, size: i32, align: u32)
        requires
            Self::spec_valid_request(size, align),
            align > 0,
            self.fresh(align, size as int),
        ensures
            (self.get_raw() as int) % (align as int) == 0,
            self.is_aligned(),
    {
        lemma_multiple_of_multiple(self.get_raw() as int, align as int, 512);
        lemma_multiple_of_multiple(size as int, align as int, 512);
    }

    /// Allocates a buffer as [`Buffer::allocate`] does, with its first byte at a
    /// multiple of `align`. With `align` zero this is [`Buffer::allocate`].
    /// A request so large that `size + align - 1` is no `usize` fails as
    /// one that the allocator refuses.
    pub fn aligned_by(size: i32, align: u32) -> (r: Result<Buffer<'static>, Errno>)
        requires
            Self::spec_valid_request(size, align),
        ensures
            match r {
                Ok(b) => b.fresh(align, size as int) && (align > 0 ==> b.is_aligned()),
                Err(e) => e == Errno::ENOMEM,
            },
            size + slack_for(align) > usize::MAX ==> r is Err,
    {
        let r = Self::_alloc(align, size);
        proof {
            if align > 0 && r is Ok {
                r->Ok_0.lemma_fresh_is_aligned(size, align);
            }
        }
        r
    }

    /// Wraps the leading `size` bytes of memory that belongs to someone else
    /// and may be written to. The buffer does not own them: dropping it
    /// releases nothing. What is written to the buffer is written to `mem`:
    /// when the loan ends, its leading bytes are what [`Buffer::lent`] ends
    /// with, and the bytes behind them are as they were.
    pub fn from_c_ref_mut(mem: &'a mut [u8], size: i32) -> (b: Buffer<'a>)
        requires
            0 <= size <= old(mem)@.len(),
        ensures
            b.wf(),
            b.len() == size,
            b.capacity() == size,
            !b.is_owned(),
            b.is_mutable(),
            b.storage() == old(mem)@.take(size as int),
            final(mem)@ == final(b.lent())@ + old(mem)@.skip(size as int),
    {
        let addr = base_address(mem);
        let word = size as u32;
        let (head, _) = mem.split_at_mut(size as usize);
        Buffer { region: Region::Exclusive(head), pad: 0, addr, size: word, cap: pack(true, word) }
    }

    /// Wraps the leading `size` bytes of memory that belongs to someone else
    /// and may only be read. The buffer does not own them: dropping it
    /// releases nothing.
    pub fn from_c_ref_const(mem: &'a [u8], size: i32) -> (b: Buffer<'a>)
        requires
            0 <= size <= mem@.len(),
        ensures
            b.wf(),
            b.len() == size,
            b.capacity() == size,
            !b.is_owned(),
            !b.is_mutable(),
            b.storage() == mem@.take(size as int),
    {
        let addr = base_address(mem);
        let word = size as u32;
        let head = slice_subrange(mem, 0, size as usize);
        Buffer { region: Region::Shared(head), pad: 0, addr, size: word, cap: word }
    }

    /// Tells whether the buffer owns its memory.
    #[verifier::when_used_as_spec(spec_is_owned)]
    pub fn is_owned(&self) -> (r: bool)
        ensures
            r == self.spec_is_owned(),
    {
        flag(self.size)
    }

    /// Tells whether the buffer may be written to.
    #[verifier::when_used_as_spec(spec_is_mutable)]
    pub fn is_mutable(&self) -> (r: bool)
        ensures
            r == self.spec_is_mutable(),
    {
        flag(self.cap)
    }

    /// Returns the number of bytes in use.
    #[verifier::when_used_as_spec(spec_len)]
    pub fn len(&self) -> (n: usize)
        ensures
            n == self.spec_len(),
            n < MAX_BUFFER_SIZE,
    {
        count(self.size) as usize
    }

    /// Returns the number of bytes that the buffer addresses.
    #[verifier::when_used_as_spec(spec_capacity)]
    pub fn capacity(&self) -> (n: usize)
        ensures
            n == self.spec_capacity(),
            n < MAX_BUFFER_SIZE,
    {
        count(self.cap) as usize
    }

    /// Sets the number of bytes in use to `len`. Moves and releases nothing,
    /// and leaves every byte as it is.
    pub fn set_len(&mut self, len: usize)
        requires
            old(self).wf(),
            len < MAX_BUFFER_SIZE,
            len <= old(self).capacity(),
        ensures
            final(self).wf(),
            final(self).len() == len,
            final(self).capacity() == old(self).capacity(),
            final(self).is_owned() == old(self).is_owned(),
            final(self).is_mutable() == old(self).is_mutable(),
            final(self).get_raw() == old(self).get_raw(),
            final(self).storage() == old(self).storage(),
            final(final(self).lent())@ == final(old(self).lent())@,
    {
        self.size = with_count(self.size, len as u32);
    }

    /// Tells whether the base address and the capacity are both multiples of
    /// [`MIN_ALIGN`].
    #[verifier::when_used_as_spec(spec_is_aligned)]
    pub fn is_aligned(&self) -> (r: bool)
        ensures
            r == self.spec_is_aligned(),
    {
        is_aligned(self.addr, self.capacity())
    }

    /// Returns the address of the first byte, for reading.
    #[verifier::when_used_as_spec(spec_get_raw)]
    pub fn get_raw(&self) -> (addr: usize)
        ensures
            addr == self.spec_get_raw(),
    {
        self.addr
    }

    /// Returns the address of the first byte, for writing.
    pub fn get_raw_mut(&mut self) -> (addr: usize)
        ensures
            addr == old(self).get_raw(),
            *final(self) == *old(self),
    {
        self.addr
    }

    /// Borrows the bytes in use.
    pub fn as_ref(&self) -> (bytes: &[u8])
        requires
            self.wf(),
        ensures
            bytes@ == self@,
    {
        let len = self.len();
        let bytes = match &self.region {
            Region::Owned(v) => {
                assert(self.pad + len <= v.len());
                slice_subrange(v.as_slice(), self.pad, self.pad + len)
            },
            Region::Exclusive(s) => slice_subrange(s, 0, len),
            Region::Shared(s) => slice_subrange(s, 0, len),
        };
        assert(bytes@ =~= self@);
        bytes
    }

    /// Borrows the bytes in use for writing. What is written through the
    /// borrow becomes the buffer's content; nothing else of the buffer
    /// changes.
    ///
    /// A slice cannot change its length, but the verifier is not told so:
    /// the last two clauses are stated for a borrow that ends as long as it
    /// began, which every borrow does. The bytes in use are then the ones
    /// that the borrow ended with.
    pub fn as_mut(&mut self) -> (bytes: &mut [u8])
        requires
            old(self).wf(),
            old(self).is_mutable(),
        ensures
            bytes@ == old(self)@,
            final(self).same_shape(old(self)),
            final(final(self).lent())@ == final(old(self).lent())@,
            final(bytes)@.len() == bytes@.len() ==> final(self).wf(),
            final(bytes)@.len() == bytes@.len() ==> final(self).storage() == final(bytes)@
                + old(self).spare(),
    {
        let len = self.len();
        let pad = self.pad;
        match &mut self.region {
            Region::Owned(v) => {
                let (_, rest) = v.as_mut_slice().split_at_mut(pad);
                let (bytes, _) = rest.split_at_mut(len);
                bytes
            },
            Region::Exclusive(s) => {
                let (bytes, _) = s.split_at_mut(len);
                bytes
            },
            Region::Shared(_) => unreached(),
        }
    }

    /// Borrows the bytes in use for writing as [`Buffer::as_mut`] does, if
    /// the buffer may be written to, and refuses if it may not.
    pub fn try_as_mut(&mut self) -> (r: Option<&mut [u8]>)
        requires
            old(self).wf(),
        ensures
            r is Some <==> old(self).is_mutable(),
            final(self).same_shape(old(self)),
            final(final(self).lent())@ == final(old(self).lent())@,
            match r {
                Some(bytes) => {
                    &&& bytes@ == old(self)@
                    &&& final(bytes)@.len() == bytes@.len() ==> final(self).wf()
                    &&& final(bytes)@.len() == bytes@.len() ==> final(self).storage()
                        == final(bytes)@ + old(self).spare()
                },
                None => final(self).wf() && final(self).storage() == old(self).storage(),
            },
    {
        if self.is_mutable() {
            Some(self.as_mut())
        } else {
            None
        }
    }

    /// Copies the leading bytes of `src` into the bytes in use from `offset`
    /// on, as many as fit. Zeroes nothing: every other byte keeps its value.
    pub fn copy_from(&mut self, offset: usize, src: &[u8])
        requires
            old(self).wf(),
            old(self).is_mutable(),
            offset < old(self).len(),
        ensures
            final(self).wf(),
            final(self).same_shape(old(self)),
            final(final(self).lent())@ == final(old(self).lent())@,
            final(self)@ == old(self)@.take(offset as int) + copied_over(
                old(self)@.skip(offset as int),
                src@,
            ),
            final(self).spare() == old(self).spare(),
    {
        let dst = self.as_mut();
        let (_, tail) = dst.split_at_mut(offset);
        safe_copy(tail, src);
    }

    /// Copies the leading bytes of `src` into the bytes in use from `offset`
    /// on, as many as fit, and zeroes every byte in use before and after
    /// them, so that nothing of the earlier content is left.
    pub fn copy_and_clean(&mut self, offset: usize, src: &[u8])
        requires
            old(self).wf(),
            old(self).is_mutable(),
            offset < old(self).len(),
        ensures
            final(self).wf(),
            final(self).same_shape(old(self)),
            final(final(self).lent())@ == final(old(self).lent())@,
            final(self)@ == cleaned_copy(old(self).len() as nat, offset as nat, src@),
            final(self).spare() == old(self).spare(),
    {
        let dst = self.as_mut();
        let (head, tail) = dst.split_at_mut(offset);
        set_zero(head);
        let copied = safe_copy(tail, src);
        let (_, rest) = tail.split_at_mut(copied);
        set_zero(rest);
    }

    /// Zeroes every byte in use.
    pub fn zero(&mut self)
        requires
            old(self).wf(),
            old(self).is_mutable(),
        ensures
            final(self).wf(),
            final(self).same_shape(old(self)),
            final(final(self).lent())@ == final(old(self).lent())@,
            final(self)@ == zeros(old(self).len() as nat),
            final(self).spare() == old(self).spare(),
    {
        set_zero(self.as_mut());
    }

    /// Zeroes the bytes in use from `offset` up to `offset + len`, or up to
    /// the end of the bytes in use where that comes first.
    pub fn set_zero(&mut self, offset: usize, len: usize)
        requires
            old(self).wf(),
            old(self).is_mutable(),
        ensures
            final(self).wf(),
            final(self).same_shape(old(self)),
            final(final(self).lent())@ == final(old(self).lent())@,
            final(self)@ == zeroed_range(old(self)@, offset as nat, len as nat),
            final(self).spare() == old(self).spare(),
    {
        let size = self.len();
        let mut end = offset.saturating_add(len);
        if end > size {
            end = size;
        }
        if offset < end {
            let dst = self.as_mut();
            let (front, _) = dst.split_at_mut(end);
            let (_, range) = front.split_at_mut(offset);
            set_zero(range);
        }
    }

    /// When a buffer that borrows what it may write to is done with, the
    /// memory that it was lent holds the buffer's storage.
    pub proof fn lemma_settled(self)
        requires
            self.wf(),
            !self.is_owned(),
            self.is_mutable(),
            has_resolved(self),
        ensures
            final(self.lent())@ == self.storage(),
    {
    }

    /// Makes a copy that owns its memory and may be written to, whatever the
    /// buffer itself is. The copy has the buffer's capacity, length and bytes
    /// in use, and is aligned if the buffer is. It shares nothing with the
    /// buffer. Returns `ENOMEM` if the memory cannot be had.
    pub fn try_clone(&self) -> (r: Result<Buffer<'static>, Errno>)
        requires
            self.wf(),
        ensures
            match r {
                Ok(b) => {
                    &&& b.wf()
                    &&& b.is_owned()
                    &&& b.is_mutable()
                    &&& b.len() == self.len()
                    &&& b.capacity() == self.capacity()
                    &&& b@ == self@
                    &&& self.is_aligned() ==> b.is_aligned()
                },
                Err(e) => e == Errno::ENOMEM,
            },
    {
        let cap = self.capacity() as i32;
        let align = if self.is_aligned() {
            MIN_ALIGN
        } else {
            0
        };
        let mut copy = match Self::_alloc(align, cap) {
            Ok(copy) => copy,
            Err(e) => {
                return Err(e);
            },
        };
        if self.len() != self.capacity() {
            copy.set_len(self.len());
        }
        safe_copy(copy.as_mut(), self.as_ref());
        Ok(copy)
    }

    /// Makes a buffer of capacity `cap` out of a vector: the vector's bytes
    /// are the bytes in use, and zero bytes fill the capacity up. The buffer
    /// owns the vector's allocation and may be written to.
    pub fn from_vec_with_capacity(buf: Vec<u8>, cap: usize) -> (b: Buffer<'static>)
        requires
            buf@.len() <= cap < MAX_BUFFER_SIZE,
        ensures
            b.wf(),
            b.is_owned(),
            b.is_mutable(),
            b.len() == buf@.len(),
            b.capacity() == cap,
            b.storage() == buf@ + zeros((cap - buf@.len()) as nat),
            b@ == buf@,
    {
        let mut bytes = buf;
        let len = bytes.len();
        bytes.resize(cap, 0u8);
        let addr = base_address(bytes.as_slice());
        Buffer {
            region: Region::Owned(bytes),
            pad: 0,
            addr,
            size: pack(true, len as u32),
            cap: pack(true, cap as u32),
        }
    }

    /// Makes a buffer out of a vector whose allocation holds `cap` bytes:
    /// the buffer takes the allocation, owns it and may be written to; the
    /// vector's bytes are the bytes in use, `cap` is the capacity, and zero
    /// bytes fill the capacity up. With a `cap` of [`MAX_BUFFER_SIZE`] or
    /// more, and only then, the vector is handed back as it came.
    pub fn from_vec_parts(buf: Vec<u8>, cap: usize) -> (r: Result<Buffer<'static>, Vec<u8>>)
        requires
            buf@.len() <= cap,
        ensures
            r is Ok <==> cap < MAX_BUFFER_SIZE,
            match r {
                Ok(b) => {
                    &&& b.made_from(buf@)
                    &&& b.capacity() == cap
                    &&& b.spare() == zeros((cap - buf@.len()) as nat)
                },
                Err(v) => v@ == buf@,
            },
    {
        if cap < MAX_BUFFER_SIZE {
            Ok(Self::from_vec_with_capacity(buf, cap))
        } else {
            Err(buf)
        }
    }

    /// Makes a buffer out of a vector without copying: reads the capacity
    /// of the vector's allocation and hands both to
    /// [`Buffer::from_vec_parts`]. A vector whose length or capacity is
    /// [`MAX_BUFFER_SIZE`] or more is handed back as it came.
    pub fn from_vec(buf: Vec<u8>) -> (r: Result<Buffer<'static>, Vec<u8>>)
        ensures
            match r {
                Ok(b) => b.made_from(buf@) && b.spare() == zeros((b.capacity() - b.len()) as nat),
                Err(v) => v@ == buf@,
            },
            buf@.len() >= MAX_BUFFER_SIZE ==> r is Err,
    {
        let cap = vec_capacity(&buf);
        Self::from_vec_parts(buf, cap)
    }

    /// What holds of a buffer that was made out of a vector with the bytes
    /// `v`.
    pub open spec fn made_from(&self, v: Seq<u8>) -> bool {
        &&& self.wf()
        &&& self.is_owned()
        &&& self.is_mutable()
        &&& self.len() == v.len()
        &&& self@ == v
    }

    /// The bytes of the vector that [`Buffer::into_vec`] makes of the
    /// buffer: the bytes in use.
    pub open spec fn as_vec(&self) -> Seq<u8> {
        self@
    }

    /// From a vector to a buffer and back: a buffer made out of a vector
    /// with the bytes `v` may be turned into a vector, and that vector has
    /// as many bytes as the first one, and the same.
    pub proof fn lemma_vec_round_trip(&self, v: Seq<u8>)
        requires
            self.made_from(v),
        ensures
            self.wf() && self.is_owned(),
            self.as_vec() == v,
            self.as_vec().len() == v.len(),
    {
    }

    /// Turns a buffer that owns its memory into a vector of the bytes in
    /// use. The vector takes the allocation over, so nothing is released
    /// here, and nothing twice. Where the bytes in use begin behind padding,
    /// they are moved to the front of the allocation first.
    pub fn into_vec(self) -> (v: Vec<u8>)
        requires
            self.wf(),
            self.is_owned(),
        ensures
            v@ == self.as_vec(),
    {
        let len = self.len();
        let pad = self.pad;
        match self.region {
            Region::Owned(bytes) => {
                let mut bytes = bytes;
                if pad > 0 {
                    let ghost before = bytes@;
                    let total = bytes.len();
                    let mut i: usize = 0;
                    while i < len
                        invariant
                            i <= len,
                            bytes@.len() == before.len(),
                            pad + len <= before.len() == total,
                            forall|k: int| 0 <= k < i ==> bytes@[k] == before[k + pad],
                            forall|k: int| i <= k < before.len() ==> bytes@[k] == before[k],
                        decreases len - i,
                    {
                        let byte = bytes[i + pad];
                        bytes[i] = byte;
                        i += 1;
                    }
                }
                bytes.truncate(len);
                bytes
            },
            _ => unreached(),
        }
    }
}

/// A multiple of `m` is a multiple of every divisor `d` of `m`.
proof fn lemma_multiple_of_multiple(x: int, m: int, d: int)
    requires
        x >= 0,
        m > 0,
        d > 0,
        m % d == 0,
        x % m == 0,
    ensures
        x % d == 0,
{
    let k = x / m;
    let j = m / d;
    assert(x == k * m && m == j * d) by (nonlinear_arith)
        requires
            k == x / m,
            j == m / d,
            x % m == 0,
            m % d == 0,
            m > 0,
            d > 0,
    ;
    assert(x == (k * j) * d) by (nonlinear_arith)
        requires
            x == k * m,
            m == j * d,
    ;
    vstd::arithmetic::div_mod::lemma_mod_multiples_basic(k * j, d);
}

/// Reads how many bytes the allocation of `v` holds, as `Vec::capacity`
/// gives it. A vector's capacity is never below its length; what it is
/// beyond that is the allocator's business.
#[verifier::external_body]
fn vec_capacity(v: &Vec<u8>) -> (cap: usize)
    ensures
        cap >= v@.len(),
{
    v.capacity()
}

/// Reads the address of the first byte of `s`, as `<[u8]>::as_ptr` gives it.
/// Nothing is claimed of the value: where memory lies is the allocator's
/// business.
#[verifier::external_body]
fn base_address(s: &[u8]) -> (addr: usize) {
    s.as_ptr() as usize
}

} // verus!
