//! Byte-addressable memory: 32-bit addresses, single-byte reads and writes,
//! and little-endian multi-byte helpers built from them.

use vstd::bytes::{spec_u16_from_le_bytes, spec_u16_to_le_bytes};
use vstd::bytes::{spec_u32_from_le_bytes, spec_u32_to_le_bytes};
use vstd::bytes::{u16_from_le_bytes, u16_to_le_bytes, u32_from_le_bytes, u32_to_le_bytes};
use vstd::prelude::*;
use vstd::slice::slice_subrange;

verus! {

/// Errors arising from memory accesses and from address arithmetic.
///
/// `InvalidAddress(a)` reports the first offset `a` that falls outside the
/// memory; `StackOverflow` reports address arithmetic that would run past
/// `u32::MAX`, and `StackUnderflow` arithmetic that would run below zero.
#[derive(Clone, Copy, Debug, PartialEq, Eq, Structural)]
pub enum Error {
    InvalidAddress(u32),
    StackOverflow,
    StackUnderflow,
}

/// An opaque 32-bit unsigned offset into the memory space.
#[derive(Clone, Copy, Debug, Default, PartialEq, Eq, Structural)]
pub struct Address(pub u32);

impl Address {
    /// The next address, or `StackOverflow` at the upper boundary.
    pub fn next(&self) -> (r: Result<Address, Error>)
        ensures
            r == if self.0 == u32::MAX {
                Err::<Address, Error>(Error::StackOverflow)
            } else {
                Ok::<Address, Error>(Address((self.0 + 1) as u32))
            },
    {
        if self.0 == u32::MAX {
            Err(Error::StackOverflow)
        } else {
            Ok(Address(self.0 + 1))
        }
    }

    /// The previous address, or `StackUnderflow` at the lower boundary.
    pub fn prev(&self) -> (r: Result<Address, Error>)
        ensures
            r == if self.0 == 0 {
                Err::<Address, Error>(Error::StackUnderflow)
            } else {
                Ok::<Address, Error>(Address((self.0 - 1) as u32))
            },
    {
        if self.0 == 0 {
            Err(Error::StackUnderflow)
        } else {
            Ok(Address(self.0 - 1))
        }
    }

    /// Base-plus-offset addressing; `StackOverflow` when the sum leaves the
    /// 32-bit address space.
    pub fn offset(&self, amount: u32) -> (r: Result<Address, Error>)
        ensures
            r == if self.0 + amount > u32::MAX {
                Err::<Address, Error>(Error::StackOverflow)
            } else {
                Ok::<Address, Error>(Address((self.0 + amount) as u32))
            },
    {
        match self.0.checked_add(amount) {
            Some(v) => Ok(Address(v)),
            None => Err(Error::StackOverflow),
        }
    }
}

/// Number of bytes in a default-sized memory: one 16-bit address space.
pub const DEFAULT_MEMORY_BYTES: usize = 0x10000;

/// A flat byte store.  Its view is the sequence of all its bytes.
#[derive(Debug)]
pub struct CpuMemory {
    bytes: Vec<u8>,
}

impl View for CpuMemory {
    type V = Seq<u8>;

    closed spec fn view(&self) -> Seq<u8> {
        self.bytes@
    }
}

/// A single byte read: the byte at `a`, or `InvalidAddress(a)` out of bounds.
pub open spec fn spec_read(m: Seq<u8>, a: u32) -> Result<u8, Error> {
    if (a as int) < m.len() {
        Ok(m[a as int])
    } else {
        Err(Error::InvalidAddress(a))
    }
}

/// A single byte write, total: out of bounds leaves the memory unchanged.
pub open spec fn spec_write(m: Seq<u8>, a: u32, b: u8) -> Result<Seq<u8>, Error> {
    if (a as int) < m.len() {
        Ok(m.update(a as int, b))
    } else {
        Err(Error::InvalidAddress(a))
    }
}

/// `m` with the bytes of `bs` laid over it starting at offset `a`.
pub open spec fn seq_overwrite(m: Seq<u8>, a: int, bs: Seq<u8>) -> Seq<u8> {
    Seq::new(m.len(), |j: int| if a <= j < a + bs.len() { bs[j - a] } else { m[j] })
}

/// A contiguous write of `bs` at `a`.  The write happens entirely or not at
/// all: `StackOverflow` when the last offset would pass `u32::MAX`, and
/// `InvalidAddress` naming the first out-of-bounds offset otherwise.
pub open spec fn spec_write_bytes(m: Seq<u8>, a: u32, bs: Seq<u8>) -> Result<Seq<u8>, Error> {
    if a + bs.len() > u32::MAX + 1 {
        Err(Error::StackOverflow)
    } else if a + bs.len() > m.len() {
        Err(Error::InvalidAddress(if a as int >= m.len() { a } else { m.len() as u32 }))
    } else {
        Ok(seq_overwrite(m, a as int, bs))
    }
}

/// A little-endian 16-bit read at `a`, byte-composed as two single-byte reads.
pub open spec fn spec_read_u16(m: Seq<u8>, a: u32) -> Result<u16, Error> {
    if a as int >= m.len() {
        Err(Error::InvalidAddress(a))
    } else if a == u32::MAX {
        Err(Error::StackOverflow)
    } else if a as int + 1 >= m.len() {
        Err(Error::InvalidAddress((a + 1) as u32))
    } else {
        Ok(spec_u16_from_le_bytes(m.subrange(a as int, a as int + 2)))
    }
}

/// A little-endian 32-bit read at `a`, byte-composed as four single-byte
/// reads performed at ascending addresses.
pub open spec fn spec_read_u32(m: Seq<u8>, a: u32) -> Result<u32, Error> {
    if a + 3 > u32::MAX {
        Err(Error::StackOverflow)
    } else if a as int + 3 >= m.len() {
        Err(Error::InvalidAddress(if a as int >= m.len() { a } else { m.len() as u32 }))
    } else {
        Ok(spec_u32_from_le_bytes(m.subrange(a as int, a as int + 4)))
    }
}

/// The byte range `[start, end)`, or `InvalidAddress` naming the offending
/// bound: `start` when the range is reversed, `end` when it passes the end of
/// memory.
pub open spec fn spec_get(m: Seq<u8>, start: u32, end: u32) -> Result<Seq<u8>, Error> {
    if start > end {
        Err(Error::InvalidAddress(start))
    } else if end as int > m.len() {
        Err(Error::InvalidAddress(end))
    } else {
        Ok(m.subrange(start as int, end as int))
    }
}

impl Default for CpuMemory {
    /// A zero-filled memory of `DEFAULT_MEMORY_BYTES` bytes.
    fn default() -> (r: Self)
        ensures
            r@.len() == DEFAULT_MEMORY_BYTES,
            forall|j: int| 0 <= j < r@.len() ==> r@[j] == 0u8,
    {
        CpuMemory { bytes: vec![0u8; DEFAULT_MEMORY_BYTES] }
    }
}

impl CpuMemory {
    /// A zero-filled memory of `size` bytes.
    pub fn with_size(size: usize) -> (r: Self)
        ensures
            r@.len() == size,
            forall|j: int| 0 <= j < r@.len() ==> r@[j] == 0u8,
    {
        CpuMemory { bytes: vec![0u8; size] }
    }

    /// How many bytes this memory holds.
    pub fn len(&self) -> (n: usize)
        ensures
            n == self@.len(),
    {
        self.bytes.len()
    }

    /// Read the byte at `address`.
    pub fn read(&self, address: Address) -> (r: Result<u8, Error>)
        ensures
            r == spec_read(self@, address.0),
    {
        if (address.0 as usize) < self.bytes.len() {
            Ok(self.bytes[address.0 as usize])
        } else {
            Err(Error::InvalidAddress(address.0))
        }
    }

    /// Read two bytes at `address` as a little-endian 16-bit word.
    pub fn read_u16(&self, address: Address) -> (r: Result<u16, Error>)
        ensures
            r == spec_read_u16(self@, address.0),
    {
        let a = address.0;
        if a as usize >= self.bytes.len() {
            Err(Error::InvalidAddress(a))
        } else if a == u32::MAX {
            Err(Error::StackOverflow)
        } else if (a as usize) + 1 >= self.bytes.len() {
            Err(Error::InvalidAddress(a + 1))
        } else {
            let window = slice_subrange(self.bytes.as_slice(), a as usize, a as usize + 2);
            Ok(u16_from_le_bytes(window))
        }
    }

    /// Read four bytes at `address` as a little-endian 32-bit word.
    pub fn read_u32(&self, address: Address) -> (r: Result<u32, Error>)
        ensures
            r == spec_read_u32(self@, address.0),
    {
        let a = address.0;
        if a > u32::MAX - 3 {
            Err(Error::StackOverflow)
        } else if (a as usize) + 3 >= self.bytes.len() {
            Err(Error::InvalidAddress(if a as usize >= self.bytes.len() {
                a
            } else {
                self.bytes.len() as u32
            }))
        } else {
            let window = slice_subrange(self.bytes.as_slice(), a as usize, a as usize + 4);
            Ok(u32_from_le_bytes(window))
        }
    }

    /// Write one byte at `address`.
    pub fn write(&mut self, address: Address, byte: u8) -> (r: Result<(), Error>)
        ensures
            match spec_write(old(self)@, address.0, byte) {
                Ok(m) => r == Ok::<(), Error>(()) && final(self)@ == m,
                Err(e) => r == Err::<(), Error>(e) && final(self)@ == old(self)@,
            },
    {
        if (address.0 as usize) < self.bytes.len() {
            self.bytes[address.0 as usize] = byte;
            Ok(())
        } else {
            Err(Error::InvalidAddress(address.0))
        }
    }

    /// Write a run of bytes starting at `address`.  The write happens
    /// entirely or not at all.
    pub fn write_bytes(&mut self, address: Address, bytes: &[u8]) -> (r: Result<(), Error>)
        ensures
            match spec_write_bytes(old(self)@, address.0, bytes@) {
                Ok(m) => r == Ok::<(), Error>(()) && final(self)@ == m,
                Err(e) => r == Err::<(), Error>(e) && final(self)@ == old(self)@,
            },
    {
        let a = address.0;
        let n = bytes.len();
        if (n as u64) > (u32::MAX as u64) + 1 - (a as u64) {
            return Err(Error::StackOverflow);
        }
        if n > self.bytes.len() || (a as usize) > self.bytes.len() - n {
            return Err(Error::InvalidAddress(if a as usize >= self.bytes.len() {
                a
            } else {
                self.bytes.len() as u32
            }));
        }
        let mut i: usize = 0;
        while i < n
            invariant
                i <= n,
                n == bytes@.len(),
                a + n <= old(self)@.len(),
                a + n <= u32::MAX + 1,
                self.bytes@.len() == old(self)@.len(),
                forall|k: int| 0 <= k < i ==> self.bytes@[a + k] == bytes@[k],
                forall|j: int|
                    0 <= j < self.bytes@.len() && !(a <= j < a + i) ==> self.bytes@[j] == old(
                        self,
                    )@[j],
            decreases n - i,
        {
            self.bytes[a as usize + i] = bytes[i];
            i += 1;
        }
        proof {
            assert(self.bytes@ =~= seq_overwrite(old(self)@, a as int, bytes@));
        }
        Ok(())
    }

    /// Write `num` at `address` as two little-endian bytes, entirely or not
    /// at all.
    pub fn write_u16(&mut self, address: Address, num: u16) -> (r: Result<(), Error>)
        ensures
            match spec_write_bytes(old(self)@, address.0, spec_u16_to_le_bytes(num)) {
                Ok(m) => r == Ok::<(), Error>(()) && final(self)@ == m,
                Err(e) => r == Err::<(), Error>(e) && final(self)@ == old(self)@,
            },
    {
        let bytes = u16_to_le_bytes(num);
        self.write_bytes(address, bytes.as_slice())
    }

    /// Write `num` at `address` as four little-endian bytes, entirely or not
    /// at all.
    pub fn write_u32(&mut self, address: Address, num: u32) -> (r: Result<(), Error>)
        ensures
            match spec_write_bytes(old(self)@, address.0, spec_u32_to_le_bytes(num)) {
                Ok(m) => r == Ok::<(), Error>(()) && final(self)@ == m,
                Err(e) => r == Err::<(), Error>(e) && final(self)@ == old(self)@,
            },
    {
        let bytes = u32_to_le_bytes(num);
        self.write_bytes(address, bytes.as_slice())
    }

    /// Borrow the byte range `[start, end)`.
    pub fn get<'a>(&'a self, start: Address, end: Address) -> (r: Result<&'a [u8], Error>)
        ensures
            match r {
                Ok(s) => spec_get(self@, start.0, end.0) == Ok::<Seq<u8>, Error>(s@),
                Err(e) => spec_get(self@, start.0, end.0) == Err::<Seq<u8>, Error>(e),
            },
    {
        if start.0 > end.0 {
            Err(Error::InvalidAddress(start.0))
        } else if (end.0 as usize) > self.bytes.len() {
            Err(Error::InvalidAddress(end.0))
        } else {
            Ok(slice_subrange(self.bytes.as_slice(), start.0 as usize, end.0 as usize))
        }
    }
}

/// The byte-addressable storage capability the CPU consumes: read one
/// byte, write one byte, borrow a contiguous byte range.  Any concrete
/// backing store may implement it.
pub trait Memory: View<V = Seq<u8>> {
    /// Read the byte at `address`.
    fn read(&self, address: Address) -> (r: Result<u8, Error>)
        ensures
            r == spec_read(self@, address.0),
    ;

    /// Write one byte at `address`.
    fn write(&mut self, address: Address, byte: u8) -> (r: Result<(), Error>)
        ensures
            match spec_write(old(self)@, address.0, byte) {
                Ok(m) => r == Ok::<(), Error>(()) && final(self)@ == m,
                Err(e) => r == Err::<(), Error>(e) && final(self)@ == old(self)@,
            },
    ;

    /// Borrow the byte range `[start, end)`.
    fn get<'a>(&'a self, start: Address, end: Address) -> (r: Result<&'a [u8], Error>)
        ensures
            match r {
                Ok(s) => spec_get(self@, start.0, end.0) == Ok::<Seq<u8>, Error>(s@),
                Err(e) => spec_get(self@, start.0, end.0) == Err::<Seq<u8>, Error>(e),
            },
    ;
}

impl Memory for CpuMemory {
    fn read(&self, address: Address) -> (r: Result<u8, Error>) {
        CpuMemory::read(self, address)
    }

    fn write(&mut self, address: Address, byte: u8) -> (r: Result<(), Error>) {
        CpuMemory::write(self, address, byte)
    }

    fn get<'a>(&'a self, start: Address, end: Address) -> (r: Result<&'a [u8], Error>) {
        CpuMemory::get(self, start, end)
    }
}

/// The number of bytes a page allocation may span: the low 24 bits of a
/// packed pointer word.
pub const POINTER_LEN_MASK: u32 = 0x00FF_FFFF;

/// An allocation length: the low 24 bits of a packed pointer word.  Its
/// view is the length itself.
#[derive(Clone, Copy, Debug)]
pub struct PointerLen(u32);

impl View for PointerLen {
    type V = u32;

    closed spec fn view(&self) -> u32 {
        self.0
    }
}

impl PointerLen {
    /// The largest representable allocation length.
    pub fn max() -> (r: u32)
        ensures
            r == POINTER_LEN_MASK,
    {
        proof {
            assert((u32::MAX >> 8u32) == 0x00FF_FFFFu32) by (bit_vector);
        }
        u32::MAX >> 8u32
    }

    /// Pack a length, keeping its low 24 bits.  Lengths of the full mask
    /// value are not representable allocations.
    pub fn from_u32(value: u32) -> (r: Self)
        requires
            value & POINTER_LEN_MASK < POINTER_LEN_MASK,
        ensures
            r@ == value & POINTER_LEN_MASK,
    {
        proof {
            assert((u32::MAX >> 8u32) == POINTER_LEN_MASK) by (bit_vector);
        }
        PointerLen(value & POINTER_LEN_MASK)
    }

    /// The packed length.
    pub fn len(&self) -> (r: u32)
        ensures
            r == self@ & POINTER_LEN_MASK,
    {
        self.0 & POINTER_LEN_MASK
    }
}

/// A packed page pointer: the page id in the top 8 bits, the allocation
/// length in the low 24 bits.  Its view is the packed word.
pub struct Pointer(pub u32);

impl View for Pointer {
    type V = u32;

    closed spec fn view(&self) -> u32 {
        self.0
    }
}

impl Pointer {
    /// The page this pointer names.
    pub fn page(&self) -> (r: u8)
        ensures
            r == self@ >> 24,
    {
        let v = self.0;
        proof {
            assert(v >> 24u32 <= 0xFF) by (bit_vector);
        }
        (v >> 24u32) as u8
    }

    /// Put `id` into the top 8 bits, keeping the length bits.
    pub fn set_page(&mut self, id: u8)
        ensures
            final(self)@ == (old(self)@ & POINTER_LEN_MASK) | ((id as u32) << 24),
    {
        self.0 = (self.0 & POINTER_LEN_MASK) | ((id as u32) << 24u32);
    }

    /// The allocation length in the low 24 bits.
    pub fn len(&self) -> (r: PointerLen)
        requires
            self@ & POINTER_LEN_MASK < POINTER_LEN_MASK,
        ensures
            r@ == self@ & POINTER_LEN_MASK,
    {
        PointerLen::from_u32(self.0)
    }

    /// Fold the bits of a packed length into the pointer word.
    pub fn set_len(&mut self, len: PointerLen)
        ensures
            final(self)@ == old(self)@ | (len@ & POINTER_LEN_MASK),
    {
        self.0 = self.0 | (len.0 & POINTER_LEN_MASK);
    }
}

/// One page of a paged backing store.  Its view is its bytes.
#[derive(Debug)]
pub struct Page {
    data: Vec<u8>,
}

impl View for Page {
    type V = Seq<u8>;

    closed spec fn view(&self) -> Seq<u8> {
        self.data@
    }
}

impl Default for Page {
    /// A zero-filled page of 4096 bytes.
    fn default() -> (r: Self)
        ensures
            r@.len() == 4096,
            forall|j: int| 0 <= j < r@.len() ==> r@[j] == 0u8,
    {
        Page { data: vec![0u8; 4096] }
    }
}

impl Page {
    /// A zero-filled page of `amount` bytes.
    pub fn new(amount: PointerLen) -> (r: Self)
        ensures
            r@.len() == amount@,
            forall|j: int| 0 <= j < r@.len() ==> r@[j] == 0u8,
    {
        let len: u32 = amount.0;
        Page { data: vec![0u8; len as usize] }
    }
}

/// A paged allocator: a growable list of pages, addressed through packed
/// page pointers.  Its view is the pages' byte sequences.
#[derive(Debug, Default)]
pub struct Pager {
    pages: Vec<Page>,
}

impl View for Pager {
    type V = Seq<Seq<u8>>;

    closed spec fn view(&self) -> Seq<Seq<u8>> {
        self.pages@.map_values(|p: Page| p@)
    }
}

impl Pager {
    /// Allocate a fresh zero-filled page of `amount & POINTER_LEN_MASK`
    /// bytes and return a pointer naming it.  The page id wraps at 256
    /// pages.
    pub fn allocate(&mut self, amount: u32) -> (r: Pointer)
        requires
            amount & POINTER_LEN_MASK < POINTER_LEN_MASK,
        ensures
            final(self)@.len() == old(self)@.len() + 1,
            final(self)@[old(self)@.len() as int].len() == amount & POINTER_LEN_MASK,
            forall|j: int|
                0 <= j < (amount & POINTER_LEN_MASK) ==> final(self)@[old(self)@.len() as int][j]
                    == 0u8,
            forall|k: int| 0 <= k < old(self)@.len() ==> final(self)@[k] == old(self)@[k],
            r@ == (amount & POINTER_LEN_MASK) | ((((old(self)@.len() % 256) as u32)) << 24),
    {
        let len = PointerLen::from_u32(amount);
        self.pages.push(Page::new(len));
        let mut ptr = Pointer(0);
        let id = ((self.pages.len() - 1) % 256) as u8;
        ptr.set_page(id);
        ptr.set_len(len);
        proof {
            let a = amount & POINTER_LEN_MASK;
            assert(((0u32 & 0x00FF_FFFFu32) | ((id as u32) << 24)) | (a & 0x00FF_FFFFu32) == a | (
            (id as u32) << 24)) by (bit_vector)
                requires
                    a == amount & 0x00FF_FFFFu32,
            ;
        }
        ptr
    }

    /// Copy `bytes` to the start of the page `ptr` names.
    pub fn memcpy(&mut self, ptr: Pointer, bytes: &[u8])
        requires
            (ptr@ >> 24) < old(self)@.len(),
            bytes@.len() <= old(self)@[(ptr@ >> 24) as int].len(),
        ensures
            final(self)@.len() == old(self)@.len(),
            forall|k: int|
                0 <= k < old(self)@.len() && k != (ptr@ >> 24) as int ==> final(self)@[k] == old(
                    self,
                )@[k],
            final(self)@[(ptr@ >> 24) as int] == seq_overwrite(
                old(self)@[(ptr@ >> 24) as int],
                0,
                bytes@,
            ),
    {
        self.write_page(ptr, 0, bytes);
    }

    /// Copy `bytes` into the page `ptr` names, starting at offset `idx`.
    pub fn write(&mut self, ptr: Pointer, idx: u32, bytes: &[u8])
        requires
            (ptr@ >> 24) < old(self)@.len(),
            idx + bytes@.len() <= old(self)@[(ptr@ >> 24) as int].len(),
        ensures
            final(self)@.len() == old(self)@.len(),
            forall|k: int|
                0 <= k < old(self)@.len() && k != (ptr@ >> 24) as int ==> final(self)@[k] == old(
                    self,
                )@[k],
            final(self)@[(ptr@ >> 24) as int] == seq_overwrite(
                old(self)@[(ptr@ >> 24) as int],
                idx as int,
                bytes@,
            ),
    {
        self.write_page(ptr, idx, bytes);
    }

    /// The byte at offset `idx` of page `page`, if both exist.
    pub fn read_byte(&self, page: u8, idx: u32) -> (r: Option<u8>)
        ensures
            r == if (page as int) < self@.len() && (idx as int) < self@[page as int].len() {
                Some(self@[page as int][idx as int])
            } else {
                None::<u8>
            },
    {
        if (page as usize) < self.pages.len() {
            let p = &self.pages[page as usize];
            if (idx as usize) < p.data.len() {
                Some(p.data[idx as usize])
            } else {
                None
            }
        } else {
            None
        }
    }

    /// Shared body of `memcpy` and `write`.
    fn write_page(&mut self, ptr: Pointer, idx: u32, bytes: &[u8])
        requires
            (ptr@ >> 24) < old(self)@.len(),
            idx + bytes@.len() <= old(self)@[(ptr@ >> 24) as int].len(),
        ensures
            final(self)@.len() == old(self)@.len(),
            forall|k: int|
                0 <= k < old(self)@.len() && k != (ptr@ >> 24) as int ==> final(self)@[k] == old(
                    self,
                )@[k],
            final(self)@[(ptr@ >> 24) as int] == seq_overwrite(
                old(self)@[(ptr@ >> 24) as int],
                idx as int,
                bytes@,
            ),
    {
        let id = ptr.page() as usize;
        let page = vstd::std_specs::vec::vec_index_mut(&mut self.pages, id);
        page.write_at(idx, bytes);
        proof {
            assert(final(self)@ =~~= old(self)@.update(
                id as int,
                seq_overwrite(old(self)@[id as int], idx as int, bytes@),
            ));
        }
    }
}

impl Page {
    /// Copy `bytes` into this page starting at offset `idx`.
    fn write_at(&mut self, idx: u32, bytes: &[u8])
        requires
            idx + bytes@.len() <= old(self)@.len(),
        ensures
            final(self)@ == seq_overwrite(old(self)@, idx as int, bytes@),
    {
        let n = bytes.len();
        let total = self.data.len();
        let mut i: usize = 0;
        while i < n
            invariant
                i <= n,
                n == bytes@.len(),
                idx + n <= total,
                total == self.data@.len(),
                self.data@.len() == old(self)@.len(),
                forall|k: int| 0 <= k < i ==> self.data@[idx + k] == bytes@[k],
                forall|j: int|
                    0 <= j < self.data@.len() && !(idx <= j < idx + i) ==> self.data@[j] == old(
                        self,
                    )@[j],
            decreases n - i,
        {
            self.data[idx as usize + i] = bytes[i];
            i += 1;
        }
        proof {
            assert(self.data@ =~= seq_overwrite(old(self)@, idx as int, bytes@));
        }
    }
}

} // verus!
