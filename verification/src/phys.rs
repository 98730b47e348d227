//! Reading tables out of physical memory.
//!
//! Physical memory is reached through the [`PhysicalMemory`] trait, the
//! page-granular mapping primitive that the surrounding system provides.
//! A mapping is a scoped window: its bytes are copied out and the window
//! is released when the handle is dropped. The loader reads a table
//! header in place, learns the declared length, copies the whole table
//! across as many page windows as it takes, and runs the validation gate
//! on the result.

use crate::sdt::InvalidSdtError;
use crate::sdt::Sdt;
use crate::sdt::SDT_HEADER_LEN;
use crate::sdt::checksum_ok;
use crate::sdt::spec_table_len;
use crate::sdt::wf_table;
use vstd::arithmetic::div_mod::lemma_fundamental_div_mod;
use vstd::arithmetic::div_mod::lemma_mod_multiples_basic;
use vstd::bytes::spec_u32_from_le_bytes;
use vstd::bytes::u32_from_le_bytes;
use vstd::prelude::*;
use vstd::slice::slice_subrange;
use vstd::slice::slice_to_vec;

verus! {

/// Size in bytes of one page of physical memory.
pub const PAGE_SIZE: usize = 4096;

/// How many pages one fetch round of the loader maps at most.
pub const LOAD_PAGES_PER_ROUND: usize = 4;

/// Why a load from physical memory failed.
#[derive(Clone, Copy, Debug, PartialEq, Eq, Structural)]
pub enum TablePhysLoadError {
    /// Mapping a window of physical memory failed.
    Io,
    /// The copied buffer did not pass the validation gate.
    Validity(InvalidSdtError),
}

/// A source of physical memory, mapped one page-aligned window at a time.
///
/// `mem()` is the whole physical address space the source can serve, as
/// one byte sequence indexed by physical address. A successful mapping
/// hands back exactly the bytes of the requested window; the source may
/// fail any request.
pub trait PhysicalMemory {
    /// The contents of the physical address space, indexed by address.
    spec fn mem(&self) -> Seq<u8>;

    /// Maps `page_count` whole pages starting at the page-aligned address
    /// `page_addr`, and hands back their bytes.
    fn map_window(&self, page_addr: usize, page_count: usize) -> (r: Result<Vec<u8>, ()>)
        requires
            page_addr as int % PAGE_SIZE as int == 0,
            page_count >= 1,
        ensures
            r matches Ok(w) ==> ({
                &&& page_addr + page_count * PAGE_SIZE <= usize::MAX
                &&& page_addr + page_count * PAGE_SIZE <= self.mem().len()
                &&& w@ == self.mem().subrange(
                    page_addr as int,
                    page_addr + page_count * PAGE_SIZE,
                )
            }),
    ;
}

/// An in-memory physical address space: a byte buffer starting at
/// physical address zero. Mapping succeeds exactly on windows that lie
/// inside the buffer.
pub struct MemoryImage {
    bytes: Vec<u8>,
}

impl MemoryImage {
    /// Wraps a buffer as the whole physical address space.
    pub fn new(bytes: Vec<u8>) -> (r: MemoryImage)
        ensures
            r.mem() == bytes@,
    {
        MemoryImage { bytes }
    }
}

impl PhysicalMemory for MemoryImage {
    closed spec fn mem(&self) -> Seq<u8> {
        self.bytes@
    }

    fn map_window(&self, page_addr: usize, page_count: usize) -> (r: Result<Vec<u8>, ()>)
        ensures
            r is Ok <==> page_addr + page_count * PAGE_SIZE <= self.mem().len(),
    {
        let avail = self.bytes.len();
        if page_count > (usize::MAX - page_addr) / PAGE_SIZE {
            proof {
                lemma_fundamental_div_mod((usize::MAX - page_addr) as int, PAGE_SIZE as int);
                assert(page_addr + page_count * PAGE_SIZE > usize::MAX >= avail);
            }
            return Err(());
        }
        proof {
            lemma_fundamental_div_mod((usize::MAX - page_addr) as int, PAGE_SIZE as int);
        }
        let len = page_count * PAGE_SIZE;
        let end = page_addr + len;
        if end > avail {
            return Err(());
        }
        Ok(slice_to_vec(slice_subrange(self.bytes.as_slice(), page_addr, end)))
    }
}

/// How many bytes a whole-page window covering `len` bytes holds.
pub open spec fn spec_round_up_pages(len: int) -> int {
    ((len + (PAGE_SIZE - 1)) / PAGE_SIZE as int) * PAGE_SIZE as int
}

/// Maps the smallest whole-page window that covers `len` bytes from the
/// page-aligned physical address `page_addr`, and hands back its bytes.
pub fn physmap<M: PhysicalMemory>(mem: &M, page_addr: usize, len: usize) -> (r: Result<
    Vec<u8>,
    (),
>)
    requires
        page_addr as int % PAGE_SIZE as int == 0,
        1 <= len <= usize::MAX - (PAGE_SIZE - 1),
    ensures
        r matches Ok(w) ==> ({
            let n = spec_round_up_pages(len as int);
            &&& w@.len() == n
            &&& len <= n
            &&& page_addr + n <= usize::MAX
            &&& page_addr + n <= mem.mem().len()
            &&& w@ == mem.mem().subrange(page_addr as int, page_addr + n)
        }),
{
    let pages = (len + (PAGE_SIZE - 1)) / PAGE_SIZE;
    proof {
        lemma_fundamental_div_mod((len + (PAGE_SIZE - 1)) as int, PAGE_SIZE as int);
    }
    mem.map_window(page_addr, pages)
}

/// A scoped mapping of physical memory: the window's bytes, copied out at
/// mapping time and released together with the value.
pub struct PhysBorrowed {
    base: usize,
    bytes: Vec<u8>,
}

impl PhysBorrowed {
    /// The physical address the window starts at.
    pub closed spec fn spec_base(&self) -> usize {
        self.base
    }

    /// The bytes the window holds.
    pub closed spec fn spec_bytes(&self) -> Seq<u8> {
        self.bytes@
    }

    /// Maps the smallest whole-page window that covers `len` bytes from
    /// the page-aligned physical address `base_phys`.
    pub fn map<M: PhysicalMemory>(mem: &M, base_phys: usize, len: usize) -> (r: Result<
        PhysBorrowed,
        (),
    >)
        requires
            base_phys as int % PAGE_SIZE as int == 0,
            1 <= len <= usize::MAX - (PAGE_SIZE - 1),
        ensures
            r matches Ok(p) ==> ({
                let n = spec_round_up_pages(len as int);
                &&& p.spec_base() == base_phys
                &&& p.spec_bytes().len() == n
                &&& len <= n
                &&& base_phys + n <= usize::MAX
                &&& base_phys + n <= mem.mem().len()
                &&& p.spec_bytes() == mem.mem().subrange(base_phys as int, base_phys + n)
            }),
    {
        match physmap(mem, base_phys, len) {
            Ok(bytes) => Ok(PhysBorrowed { base: base_phys, bytes }),
            Err(()) => Err(()),
        }
    }

    /// How many bytes the window holds: the requested length rounded up
    /// to whole pages.
    pub fn mapped_len(&self) -> (r: usize)
        ensures
            r == self.spec_bytes().len(),
    {
        self.bytes.len()
    }

    /// The bytes of the window.
    pub fn as_bytes(&self) -> (r: &[u8])
        ensures
            r@ == self.spec_bytes(),
    {
        self.bytes.as_slice()
    }
}

/// The declared length of the table lying at address `a` of `p`.
pub open spec fn spec_table_len_at(p: Seq<u8>, a: int) -> int
    recommends
        a + 8 <= p.len(),
{
    spec_u32_from_le_bytes(p.subrange(a + 4, a + 8)) as int
}

/// The bytes of the table lying at address `a` of `p`: from `a` through
/// the length its own header declares.
pub open spec fn table_bytes_at(p: Seq<u8>, a: int) -> Seq<u8>
    recommends
        a + 8 <= p.len(),
        a + spec_table_len_at(p, a) <= p.len(),
{
    p.subrange(a, a + spec_table_len_at(p, a))
}

impl Sdt {
    /// Copies the table at physical address `physaddr` out of `mem` and
    /// runs the validation gate on it.
    ///
    /// The header is mapped first (one page, or two when the 36 header
    /// bytes straddle a page boundary) to learn the declared length; the
    /// rest is fetched in windows of at most [`LOAD_PAGES_PER_ROUND`]
    /// pages. Every window is released once its bytes are copied out.
    pub fn load_from_physical<M: PhysicalMemory>(mem: &M, physaddr: usize) -> (r: Result<
        Sdt,
        TablePhysLoadError,
    >)
        ensures
            r matches Ok(s) ==> ({
                let len = spec_table_len_at(mem.mem(), physaddr as int);
                &&& physaddr + SDT_HEADER_LEN <= mem.mem().len()
                &&& SDT_HEADER_LEN <= len
                &&& physaddr + len <= mem.mem().len()
                &&& s@ == table_bytes_at(mem.mem(), physaddr as int)
                &&& wf_table(s@)
            }),
            r matches Err(TablePhysLoadError::Validity(v)) ==> ({
                let len = spec_table_len_at(mem.mem(), physaddr as int);
                &&& physaddr + SDT_HEADER_LEN <= mem.mem().len()
                &&& (v == InvalidSdtError::InvalidSize <==> len < SDT_HEADER_LEN)
                &&& (v == InvalidSdtError::BadChecksum ==> len >= SDT_HEADER_LEN && physaddr + len
                    <= mem.mem().len() && !checksum_ok(table_bytes_at(mem.mem(), physaddr as int)))
            }),
    {
        let start_page = physaddr / PAGE_SIZE * PAGE_SIZE;
        let offset = physaddr % PAGE_SIZE;
        proof {
            lemma_fundamental_div_mod(physaddr as int, PAGE_SIZE as int);
            lemma_mod_multiples_basic((physaddr / PAGE_SIZE) as int, PAGE_SIZE as int);
        }

        // One page covers the header unless it would straddle the boundary.
        let head_pages: usize = if offset + SDT_HEADER_LEN > PAGE_SIZE { 2 } else { 1 };
        let head = match PhysBorrowed::map(mem, start_page, head_pages * PAGE_SIZE) {
            Ok(w) => w,
            Err(()) => { return Err(TablePhysLoadError::Io); },
        };
        let head_slice = head.as_bytes();
        let head_len = head.mapped_len();
        assert(head_slice@ == mem.mem().subrange(start_page as int, start_page + head_len));
        assert(offset + SDT_HEADER_LEN <= head_len);

        // The header's length field says how much there is to copy in all.
        let declared = u32_from_le_bytes(slice_subrange(head_slice, offset + 4, offset + 8));
        proof {
            assert(head_slice@.subrange(offset + 4, offset + 8) =~= mem.mem().subrange(
                physaddr + 4,
                physaddr + 8,
            ));
        }
        let total = declared as usize;
        assert(total == spec_table_len_at(mem.mem(), physaddr as int));

        let avail = head_len - offset;
        let base = if total < avail { total } else { avail };
        let mut loaded: Vec<u8> = slice_to_vec(slice_subrange(head_slice, offset, offset + base));
        proof {
            assert(loaded@ =~= mem.mem().subrange(physaddr as int, physaddr + base));
        }

        let mut left = total - base;
        let mut win_addr = start_page + head_pages * PAGE_SIZE;
        let round_bytes = LOAD_PAGES_PER_ROUND * PAGE_SIZE;

        while left > 0
            invariant
                round_bytes == LOAD_PAGES_PER_ROUND * PAGE_SIZE,
                total == spec_table_len_at(mem.mem(), physaddr as int),
                loaded@.len() + left == total,
                physaddr + loaded@.len() <= mem.mem().len(),
                loaded@ == mem.mem().subrange(physaddr as int, physaddr + loaded@.len()),
                left > 0 ==> win_addr as int == physaddr + loaded@.len(),
                left > 0 ==> win_addr as int % PAGE_SIZE as int == 0,
            decreases left,
        {
            let to_copy = if left < round_bytes { left } else { round_bytes };
            let window = match PhysBorrowed::map(mem, win_addr, to_copy) {
                Ok(w) => w,
                Err(()) => { return Err(TablePhysLoadError::Io); },
            };
            let ghost loaded_before = loaded@;
            let mut part = slice_to_vec(slice_subrange(window.as_bytes(), 0, to_copy));
            loaded.append(&mut part);
            proof {
                assert(loaded@ =~= mem.mem().subrange(
                    physaddr as int,
                    physaddr + loaded_before.len() + to_copy,
                ));
            }
            left = left - to_copy;
            win_addr = win_addr + to_copy;
            proof {
                if left > 0 {
                    lemma_mod_multiples_basic(
                        (win_addr as int - start_page as int) / PAGE_SIZE as int,
                        PAGE_SIZE as int,
                    );
                }
            }
        }
        assert(loaded@ == table_bytes_at(mem.mem(), physaddr as int));

        match Sdt::new(loaded) {
            Ok(sdt) => Ok(sdt),
            Err(e) => {
                proof {
                    if total >= SDT_HEADER_LEN {
                        assert(loaded@.subrange(4, 8) =~= mem.mem().subrange(
                            physaddr + 4,
                            physaddr + 8,
                        ));
                    }
                }
                Err(TablePhysLoadError::Validity(e))
            },
        }
    }
}

} // verus!
