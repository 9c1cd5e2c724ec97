//! Geometry of the non-volatile memory and how one write is split into
//! page-program operations (a page program cannot cross a 256-byte page).

use vstd::prelude::*;

verus! {

/// Bytes in one program page.
pub const PAGE_SIZE: usize = 256;

/// Erase granularities of the medium.
#[derive(Clone, Copy, Debug, PartialEq, Eq, Structural)]
pub enum Delete {
    SectorErase,
    BlockErase32,
    BlockErase64,
    ChipErase,
}

/// Geometry of a flash chip.
#[derive(Clone, Copy, Debug, PartialEq, Eq, Structural)]
pub struct FlashInfo {
    pub page_size: u16,
    pub sector_size: u32,
    pub page_count: u32,
    pub sector_count: u32,
    pub block_size: u32,
    pub block_count: u32,
    pub capacity_mbit: u32,
}

/// The 128-Mbit chip the planner stores its tasks on.
pub fn w25q128() -> (r: FlashInfo)
    ensures
        r == (FlashInfo {
            page_size: 256,
            sector_size: 0x1000,
            page_count: 8192,
            sector_count: 2048,
            block_size: 0x1_0000,
            block_count: 128,
            capacity_mbit: 128,
        }),
{
    FlashInfo {
        page_size: 256,
        sector_size: 0x1000,
        page_count: 8192,
        sector_count: 2048,
        block_size: 0x1_0000,
        block_count: 128,
        capacity_mbit: 128,
    }
}

/// Bytes a read of `len` bytes into a buffer of `capacity` bytes transfers:
/// never more than the buffer holds.
pub fn read_length(len: usize, capacity: usize) -> (r: usize)
    ensures
        r == if len > capacity {
            capacity
        } else {
            len
        },
{
    if len > capacity {
        capacity
    } else {
        len
    }
}

/// One page-program operation: bytes `start..end` of the data go to
/// `address`.
#[derive(Clone, Copy, Debug, PartialEq, Eq, Structural)]
pub struct PageWrite {
    pub address: u32,
    pub start: usize,
    pub end: usize,
}

/// Bytes of a write at `addr` that fit on its first page.
pub open spec fn first_chunk(addr: u32, len: int) -> int {
    let room = PAGE_SIZE - addr as int % PAGE_SIZE as int;
    if len < room {
        len
    } else {
        room
    }
}

/// Start of chunk `i` of a write at `addr`: the first chunk fills the rest
/// of the first page, every later one a whole page.
pub open spec fn chunk_start(addr: u32, len: int, i: int) -> int {
    if i == 0 {
        0
    } else {
        first_chunk(addr, len) + (i - 1) * PAGE_SIZE
    }
}

pub open spec fn chunk_end(addr: u32, len: int, i: int) -> int {
    let e = if i == 0 {
        first_chunk(addr, len)
    } else {
        chunk_start(addr, len, i) + PAGE_SIZE
    };
    if e < len {
        e
    } else {
        len
    }
}

/// Splits a write of `len` bytes at `addr` into page programs, in address
/// order: the first fills what is left of the first page, the others start
/// on a page boundary, and together they cover the data exactly once. An
/// empty write is one empty program.
pub fn page_writes(addr: u32, len: usize) -> (r: Vec<PageWrite>)
    requires
        addr as int + len as int <= u32::MAX as int + 1,
    ensures
        r@.len() >= 1,
        r@[0].start == 0,
        r@[r@.len() - 1].end == len,
        forall|i: int|
            0 <= i < r@.len() ==> (#[trigger] r@[i]).start == chunk_start(addr, len as int, i)
                && r@[i].end == chunk_end(addr, len as int, i) && r@[i].address == addr
                + r@[i].start,
        forall|i: int| 0 <= i < r@.len() - 1 ==> #[trigger] r@[i].end == r@[i + 1].start,
        forall|i: int| 0 < i < r@.len() ==> (#[trigger] r@[i]).start < r@[i].end,
        forall|i: int| 0 < i < r@.len() ==> (#[trigger] r@[i]).address as int % PAGE_SIZE as int == 0,
{
    let offset = (addr % (PAGE_SIZE as u32)) as usize;
    let room = PAGE_SIZE - offset;
    let first = if len < room {
        len
    } else {
        room
    };
    let mut out: Vec<PageWrite> = Vec::new();
    out.push(PageWrite { address: addr, start: 0, end: first });
    let mut start = first;
    let mut i: usize = 1;
    while start < len
        invariant
            addr as int + len as int <= u32::MAX as int + 1,
            offset == addr as int % PAGE_SIZE as int,
            first == first_chunk(addr, len as int),
            first <= len,
            i >= 1,
            out@.len() == i,
            start == if chunk_start(addr, len as int, i as int) < len {
                chunk_start(addr, len as int, i as int)
            } else {
                len as int
            },
            start <= len,
            first > 0 || len == 0,
            out@[0].start == 0,
            out@[i - 1].end == start,
            forall|j: int|
                0 <= j < out@.len() ==> (#[trigger] out@[j]).start == chunk_start(addr, len as int, j)
                    && out@[j].end == chunk_end(addr, len as int, j) && out@[j].address == addr
                    + out@[j].start,
            forall|j: int| 0 <= j < out@.len() - 1 ==> #[trigger] out@[j].end == out@[j + 1].start,
            forall|j: int| 0 < j < out@.len() ==> (#[trigger] out@[j]).start < out@[j].end,
            forall|j: int|
                0 < j < out@.len() ==> (#[trigger] out@[j]).address as int % PAGE_SIZE as int == 0,
        decreases len - start,
    {
        let end = if len - start > PAGE_SIZE {
            start + PAGE_SIZE
        } else {
            len
        };
        proof {
            assert((addr as int + first) % 256 == 0 || first == len) by (nonlinear_arith)
                requires
                    offset == addr as int % 256,
                    first == (if len < 256 - offset { len as int } else { 256 - offset }),
            ;
            assert((addr as int + first + (i - 1) * 256) % 256 == 0 || first == len) by (nonlinear_arith)
                requires
                    (addr as int + first) % 256 == 0 || first == len,
                    i >= 1,
            ;
        }
        out.push(PageWrite { address: addr + start as u32, start, end });
        start = end;
        i = i + 1;
    }
    out
}

/// The low three bytes of an address, most significant first, as the medium
/// expects them after an opcode.
pub fn split_address(address: u32) -> (r: [u8; 3])
    ensures
        r@ == seq![(address >> 16u32) as u8, (address >> 8u32) as u8, address as u8],
{
    let r = [(address >> 16u32) as u8, (address >> 8u32) as u8, address as u8];
    assert(r@ =~= seq![(address >> 16u32) as u8, (address >> 8u32) as u8, address as u8]);
    r
}

} // verus!
