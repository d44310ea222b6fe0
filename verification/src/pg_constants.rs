//! Layout constants of the on-disk page formats that native replay edits.

use vstd::prelude::*;

verus! {

/// Size of a page, in bytes.
pub const BLCKSZ: usize = 8192;

/// Size of the page header that precedes the visibility map bits.
pub const MAXALIGN_SIZE_OF_PAGE_HEADER_DATA: usize = 24;

/// Fork number of a relation's visibility map.
pub const VISIBILITYMAP_FORKNUM: u8 = 2;

/// Bits the visibility map keeps per heap block.
pub const BITS_PER_HEAPBLOCK: u32 = 2;

/// Heap blocks described by one byte of the visibility map.
pub const HEAPBLOCKS_PER_BYTE: u32 = 4;

/// Heap blocks described by one page of the visibility map.
pub const HEAPBLOCKS_PER_PAGE: u32 = 32672;

/// Transactions whose status fits in one commit-log byte.
pub const CLOG_XACTS_PER_BYTE: u32 = 4;

/// Transactions whose status fits in one commit-log page.
pub const CLOG_XACTS_PER_PAGE: u32 = 32768;

/// Bits of commit-log status per transaction.
pub const CLOG_BITS_PER_XACT: u32 = 2;

/// Mask of one transaction's status bits.
pub const CLOG_XACT_BITMASK: u8 = 0x03;

/// Status of a committed transaction.
pub const TRANSACTION_STATUS_COMMITTED: u8 = 0x01;

/// Status of an aborted transaction.
pub const TRANSACTION_STATUS_ABORTED: u8 = 0x02;

/// Pages in one segment of a simple LRU area.
pub const SLRU_PAGES_PER_SEGMENT: u32 = 32;

/// Multixact offsets stored in one page.
pub const MULTIXACT_OFFSETS_PER_PAGE: u32 = 2048;

/// Flag bits kept for each multixact member.
pub const MXACT_MEMBER_BITS_PER_XACT: u32 = 8;

/// Members in one group: four flag bytes followed by four transaction ids.
pub const MULTIXACT_MEMBERS_PER_MEMBERGROUP: u32 = 4;

/// Flag bytes at the start of one member group.
pub const MULTIXACT_FLAGBYTES_PER_GROUP: u32 = 4;

/// Bytes taken by one member group.
pub const MULTIXACT_MEMBERGROUP_SIZE: u32 = 20;

/// Member groups in one page.
pub const MULTIXACT_MEMBERGROUPS_PER_PAGE: u32 = 409;

/// Members in one page.
pub const MULTIXACT_MEMBERS_PER_PAGE: u32 = 1636;

/// Visibility map page that describes heap block `heap_blk`.
pub open spec fn spec_heapblk_to_mapblock(heap_blk: u32) -> u32 {
    heap_blk / HEAPBLOCKS_PER_PAGE
}

/// Byte, within the map area of its page, that describes heap block `heap_blk`.
pub open spec fn spec_heapblk_to_mapbyte(heap_blk: u32) -> u32 {
    (heap_blk % HEAPBLOCKS_PER_PAGE) / HEAPBLOCKS_PER_BYTE
}

/// Position, within its byte, of the bits that describe heap block `heap_blk`.
pub open spec fn spec_heapblk_to_offset(heap_blk: u32) -> u32 {
    ((heap_blk % HEAPBLOCKS_PER_BYTE) * BITS_PER_HEAPBLOCK) as u32
}

#[verifier::when_used_as_spec(spec_heapblk_to_mapblock)]
pub fn heapblk_to_mapblock(heap_blk: u32) -> (r: u32)
    ensures
        r == spec_heapblk_to_mapblock(heap_blk),
{
    heap_blk / HEAPBLOCKS_PER_PAGE
}

#[verifier::when_used_as_spec(spec_heapblk_to_mapbyte)]
pub fn heapblk_to_mapbyte(heap_blk: u32) -> (r: u32)
    ensures
        r == spec_heapblk_to_mapbyte(heap_blk),
        r < 8168,
{
    (heap_blk % HEAPBLOCKS_PER_PAGE) / HEAPBLOCKS_PER_BYTE
}

#[verifier::when_used_as_spec(spec_heapblk_to_offset)]
pub fn heapblk_to_offset(heap_blk: u32) -> (r: u32)
    ensures
        r == spec_heapblk_to_offset(heap_blk),
        r == 0 || r == 2 || r == 4 || r == 6,
{
    (heap_blk % HEAPBLOCKS_PER_BYTE) * BITS_PER_HEAPBLOCK
}

} // verus!
