//! Native replay: the records that are applied to a page without the worker.
//!
//! Each record names the page it belongs to by the numbers it carries. The
//! replayer derives the segment and block from those numbers and refuses the
//! record when they are not the ones of the page key.

use vstd::prelude::*;
use crate::encoding::{be_bytes_u64, i64_to_be_bytes, le_bytes_u32, u32_from_le_bytes, u32_of_le_bytes, u32_to_le_bytes};
use crate::lsn::Lsn;
use crate::pg_constants::{
    heapblk_to_mapblock, heapblk_to_mapbyte, heapblk_to_offset, spec_heapblk_to_mapblock,
    spec_heapblk_to_mapbyte, spec_heapblk_to_offset, BLCKSZ, CLOG_BITS_PER_XACT,
    CLOG_XACTS_PER_BYTE, CLOG_XACTS_PER_PAGE, CLOG_XACT_BITMASK, MAXALIGN_SIZE_OF_PAGE_HEADER_DATA,
    MULTIXACT_FLAGBYTES_PER_GROUP, MULTIXACT_MEMBERGROUPS_PER_PAGE, MULTIXACT_MEMBERGROUP_SIZE,
    MULTIXACT_MEMBERS_PER_MEMBERGROUP, MULTIXACT_MEMBERS_PER_PAGE, MULTIXACT_OFFSETS_PER_PAGE,
    MXACT_MEMBER_BITS_PER_XACT, SLRU_PAGES_PER_SEGMENT, TRANSACTION_STATUS_ABORTED,
    TRANSACTION_STATUS_COMMITTED, VISIBILITYMAP_FORKNUM,
};
use crate::reltag::{key_to_rel_block, key_to_slru_block, spec_key_to_rel_block, spec_key_to_slru_block, Key, SlruKind};
use crate::walrecord::{MultiXactMember, NeonWalRecord};
use crate::walredo::{PostgresRedoManager, WalRedoError};

verus! {

/// `page` with the bytes of `bytes` written over it from `offset` on.
pub open spec fn write_at(page: Seq<u8>, offset: int, bytes: Seq<u8>) -> Seq<u8> {
    Seq::new(
        page.len(),
        |i: int|
            if offset <= i < offset + bytes.len() {
                bytes[i - offset]
            } else {
                page[i]
            },
    )
}

/// Index, in a visibility map page, of the byte for heap block `heap_blkno`.
pub open spec fn vm_byte_index(heap_blkno: u32) -> int {
    MAXALIGN_SIZE_OF_PAGE_HEADER_DATA as int + spec_heapblk_to_mapbyte(heap_blkno) as int
}

/// A visibility map page after clearing `flags` for heap block `heap_blkno`.
pub open spec fn clear_vm_flags(page: Seq<u8>, heap_blkno: u32, flags: u8) -> Seq<u8> {
    let i = vm_byte_index(heap_blkno);
    page.update(i, page[i] & !(flags << spec_heapblk_to_offset(heap_blkno)))
}

/// Clearing the flags of an optional heap block on visibility map block
/// `blknum`: nothing to do without a heap block, refused when the heap block
/// is described by another map block.
pub open spec fn clear_vm_flags_checked(
    page: Seq<u8>,
    heap_blkno: Option<u32>,
    blknum: u32,
    flags: u8,
) -> Result<Seq<u8>, WalRedoError> {
    match heap_blkno {
        None => Ok(page),
        Some(h) => if spec_heapblk_to_mapblock(h) == blknum {
            Ok(clear_vm_flags(page, h, flags))
        } else {
            Err(WalRedoError::InvalidRecord)
        },
    }
}

/// The page that [`clear_vm_flags_checked`] leaves: the flags are cleared
/// where it succeeds, and nothing is touched where it refuses.
pub open spec fn vm_flags_page(page: Seq<u8>, heap_blkno: Option<u32>, blknum: u32, flags: u8) -> Seq<
    u8,
> {
    match clear_vm_flags_checked(page, heap_blkno, blknum, flags) {
        Ok(p) => p,
        Err(_) => page,
    }
}

/// Index, in its commit-log page, of the byte that holds the status of `xid`.
pub open spec fn xact_byte_index(xid: u32) -> int {
    ((xid % CLOG_XACTS_PER_PAGE) / CLOG_XACTS_PER_BYTE) as int
}

/// Position, in its byte, of the status bits of `xid`.
pub open spec fn xact_bit_shift(xid: u32) -> u32 {
    ((xid % CLOG_XACTS_PER_BYTE) * CLOG_BITS_PER_XACT) as u32
}

/// The status that a commit-log page holds for `xid`.
pub open spec fn xact_status(page: Seq<u8>, xid: u32) -> u8 {
    (page[xact_byte_index(xid)] >> xact_bit_shift(xid)) & CLOG_XACT_BITMASK
}

/// A commit-log page after setting the status of `xid`.
pub open spec fn set_xact_status(page: Seq<u8>, xid: u32, status: u8) -> Seq<u8> {
    let i = xact_byte_index(xid);
    page.update(
        i,
        (page[i] & !(CLOG_XACT_BITMASK << xact_bit_shift(xid))) | (status << xact_bit_shift(xid)),
    )
}

/// Whether page number `pageno` of an SLRU area is block `blknum` of segment
/// `segno`.
pub open spec fn slru_page_is(pageno: u32, segno: u32, blknum: u32) -> bool {
    segno == pageno / SLRU_PAGES_PER_SEGMENT && blknum == pageno % SLRU_PAGES_PER_SEGMENT
}

/// A commit-log page after setting the status of each of `xids` in turn;
/// refused at the first transaction that belongs to another page.
pub open spec fn set_xact_statuses(
    page: Seq<u8>,
    xids: Seq<u32>,
    segno: u32,
    blknum: u32,
    status: u8,
) -> Result<Seq<u8>, WalRedoError>
    decreases xids.len(),
{
    if xids.len() == 0 {
        Ok(page)
    } else if !slru_page_is(xids[0] / CLOG_XACTS_PER_PAGE, segno, blknum) {
        Err(WalRedoError::InvalidRecord)
    } else {
        set_xact_statuses(
            set_xact_status(page, xids[0], status),
            xids.drop_first(),
            segno,
            blknum,
            status,
        )
    }
}

/// The commit-log page that [`set_xact_statuses`] leaves: the status of each
/// of `xids` is set in turn, up to the first transaction that belongs to
/// another page, where the work stops with the earlier ones set.
pub open spec fn xact_statuses_page(
    page: Seq<u8>,
    xids: Seq<u32>,
    segno: u32,
    blknum: u32,
    status: u8,
) -> Seq<u8>
    decreases xids.len(),
{
    if xids.len() == 0 || !slru_page_is(xids[0] / CLOG_XACTS_PER_PAGE, segno, blknum) {
        page
    } else {
        xact_statuses_page(
            set_xact_status(page, xids[0], status),
            xids.drop_first(),
            segno,
            blknum,
            status,
        )
    }
}

/// Where every transaction of `xids` belongs to the page,
/// [`xact_statuses_page`] is the page that [`set_xact_statuses`] gives.
pub proof fn lemma_xact_statuses_page(
    page: Seq<u8>,
    xids: Seq<u32>,
    segno: u32,
    blknum: u32,
    status: u8,
)
    ensures
        set_xact_statuses(page, xids, segno, blknum, status) matches Ok(p) ==> p
            == xact_statuses_page(page, xids, segno, blknum, status),
    decreases xids.len(),
{
    if xids.len() > 0 && slru_page_is(xids[0] / CLOG_XACTS_PER_PAGE, segno, blknum) {
        lemma_xact_statuses_page(
            set_xact_status(page, xids[0], status),
            xids.drop_first(),
            segno,
            blknum,
            status,
        );
    }
}

/// A commit-log page after the commit timestamp is put behind it: a
/// timestamp that already follows the page is dropped first, and a page of
/// any other size is left as it is.
pub open spec fn with_commit_timestamp(page: Seq<u8>, timestamp: i64) -> Seq<u8> {
    let cut = if page.len() == BLCKSZ + 8 {
        page.subrange(0, BLCKSZ as int)
    } else {
        page
    };
    if cut.len() == BLCKSZ {
        cut + be_bytes_u64(timestamp as u64)
    } else {
        cut
    }
}

/// Offset, in its page, of the flag bytes of the group of member `offset`.
pub open spec fn spec_mx_offset_to_flags_offset(offset: u32) -> int {
    ((offset / MULTIXACT_MEMBERS_PER_MEMBERGROUP) % MULTIXACT_MEMBERGROUPS_PER_PAGE)
        * MULTIXACT_MEMBERGROUP_SIZE
}

/// Position, in the flag word of its group, of the flags of member `offset`.
pub open spec fn spec_mx_offset_to_flags_bitshift(offset: u32) -> u32 {
    ((offset % MULTIXACT_MEMBERS_PER_MEMBERGROUP) * MXACT_MEMBER_BITS_PER_XACT) as u32
}

/// Offset, in its page, of the transaction id of member `offset`.
pub open spec fn spec_mx_offset_to_member_offset(offset: u32) -> int {
    spec_mx_offset_to_flags_offset(offset) + MULTIXACT_FLAGBYTES_PER_GROUP + (offset
        % MULTIXACT_MEMBERS_PER_MEMBERGROUP) * 4
}

/// A multixact members page after recording `member` as member `offset`: its
/// flags replace the eight bits of the member in the flag word of its group,
/// and its transaction id is stored in the slot of the member.
pub open spec fn set_mx_member(page: Seq<u8>, offset: u32, member: MultiXactMember) -> Seq<u8> {
    let flagsoff = spec_mx_offset_to_flags_offset(offset);
    let memberoff = spec_mx_offset_to_member_offset(offset);
    let bshift = spec_mx_offset_to_flags_bitshift(offset);
    let old_flags = u32_of_le_bytes(page.subrange(flagsoff, flagsoff + 4));
    let new_flags = (old_flags & !(0xffu32 << bshift)) | (member.status << bshift);
    write_at(write_at(page, flagsoff, le_bytes_u32(new_flags)), memberoff, le_bytes_u32(member.xid))
}

/// A multixact members page after recording `members` as the members from
/// `moff + done` on; refused at the first member whose number does not fit in
/// 32 bits or belongs to another page.
pub open spec fn set_mx_members(
    page: Seq<u8>,
    moff: u32,
    members: Seq<MultiXactMember>,
    done: int,
    segno: u32,
    blknum: u32,
) -> Result<Seq<u8>, WalRedoError>
    decreases members.len() - done,
{
    if done < 0 || done >= members.len() {
        Ok(page)
    } else if moff + done > u32::MAX {
        Err(WalRedoError::InvalidRecord)
    } else {
        let offset = (moff + done) as u32;
        if !slru_page_is(offset / MULTIXACT_MEMBERS_PER_PAGE, segno, blknum) {
            Err(WalRedoError::InvalidRecord)
        } else {
            set_mx_members(
                set_mx_member(page, offset, members[done]),
                moff,
                members,
                done + 1,
                segno,
                blknum,
            )
        }
    }
}

/// Whether member `offset` can be recorded on block `blknum` of segment
/// `segno`: its number fits in 32 bits and is one of that page.
pub open spec fn mx_member_is_of_page(offset: int, segno: u32, blknum: u32) -> bool {
    offset <= u32::MAX && slru_page_is(
        (offset as u32) / MULTIXACT_MEMBERS_PER_PAGE,
        segno,
        blknum,
    )
}

/// The multixact members page that [`set_mx_members`] leaves: the members
/// from `moff + done` on are recorded in turn, up to the first one that is
/// refused, where the work stops with the earlier ones recorded.
pub open spec fn mx_members_page(
    page: Seq<u8>,
    moff: u32,
    members: Seq<MultiXactMember>,
    done: int,
    segno: u32,
    blknum: u32,
) -> Seq<u8>
    decreases members.len() - done,
{
    if done < 0 || done >= members.len() || !mx_member_is_of_page(moff + done, segno, blknum) {
        page
    } else {
        mx_members_page(
            set_mx_member(page, (moff + done) as u32, members[done]),
            moff,
            members,
            done + 1,
            segno,
            blknum,
        )
    }
}

/// Where every member from `moff + done` on can be recorded on the page,
/// [`mx_members_page`] is the page that [`set_mx_members`] gives.
pub proof fn lemma_mx_members_page(
    page: Seq<u8>,
    moff: u32,
    members: Seq<MultiXactMember>,
    done: int,
    segno: u32,
    blknum: u32,
)
    ensures
        set_mx_members(page, moff, members, done, segno, blknum) matches Ok(p) ==> p
            == mx_members_page(page, moff, members, done, segno, blknum),
    decreases members.len() - done,
{
    if 0 <= done < members.len() && mx_member_is_of_page(moff + done, segno, blknum) {
        lemma_mx_members_page(
            set_mx_member(page, (moff + done) as u32, members[done]),
            moff,
            members,
            done + 1,
            segno,
            blknum,
        );
    }
}

/// What native replay of `record` makes of `page`, the page of `key`.
///
/// A record for the worker is an invalid request. A record whose key is not
/// of the kind the record edits, or whose numbers name another page than the
/// key, is an invalid record.
pub open spec fn spec_apply_record(key: Key, page: Seq<u8>, record: &NeonWalRecord) -> Result<
    Seq<u8>,
    WalRedoError,
> {
    match record {
        NeonWalRecord::Postgres { .. } => Err(WalRedoError::InvalidRequest),
        NeonWalRecord::ClearVisibilityMapFlags { new_heap_blkno, old_heap_blkno, flags } => {
            match spec_key_to_rel_block(key) {
                None => Err(WalRedoError::InvalidRecord),
                Some((rel, blknum)) => if rel.forknum != VISIBILITYMAP_FORKNUM {
                    Err(WalRedoError::InvalidRecord)
                } else {
                    match clear_vm_flags_checked(page, *new_heap_blkno, blknum, *flags) {
                        Err(e) => Err(e),
                        Ok(p) => clear_vm_flags_checked(p, *old_heap_blkno, blknum, *flags),
                    }
                },
            }
        },
        NeonWalRecord::ClogSetCommitted { xids, timestamp } => {
            match spec_key_to_slru_block(key) {
                Some((SlruKind::Clog, segno, blknum)) => {
                    match set_xact_statuses(
                        page,
                        xids@,
                        segno,
                        blknum,
                        TRANSACTION_STATUS_COMMITTED,
                    ) {
                        Err(e) => Err(e),
                        Ok(p) => Ok(with_commit_timestamp(p, *timestamp)),
                    }
                },
                _ => Err(WalRedoError::InvalidRecord),
            }
        },
        NeonWalRecord::ClogSetAborted { xids } => {
            match spec_key_to_slru_block(key) {
                Some((SlruKind::Clog, segno, blknum)) => set_xact_statuses(
                    page,
                    xids@,
                    segno,
                    blknum,
                    TRANSACTION_STATUS_ABORTED,
                ),
                _ => Err(WalRedoError::InvalidRecord),
            }
        },
        NeonWalRecord::MultixactOffsetCreate { mid, moff } => {
            match spec_key_to_slru_block(key) {
                Some((SlruKind::MultiXactOffsets, segno, blknum)) => if slru_page_is(
                    *mid / MULTIXACT_OFFSETS_PER_PAGE,
                    segno,
                    blknum,
                ) {
                    Ok(write_at(page, (*mid % MULTIXACT_OFFSETS_PER_PAGE) * 4, le_bytes_u32(*moff)))
                } else {
                    Err(WalRedoError::InvalidRecord)
                },
                _ => Err(WalRedoError::InvalidRecord),
            }
        },
        NeonWalRecord::MultixactMembersCreate { moff, members } => {
            match spec_key_to_slru_block(key) {
                Some((SlruKind::MultiXactMembers, segno, blknum)) => set_mx_members(
                    page,
                    *moff,
                    members@,
                    0,
                    segno,
                    blknum,
                ),
                _ => Err(WalRedoError::InvalidRecord),
            }
        },
    }
}

/// The page that native replay of `record` leaves behind, whether the
/// record is applied or refused.
///
/// A record that is refused before any edit (a record for the worker, a key
/// of another kind, a first number of another page) leaves the page as it
/// was. A record that is refused at a later number leaves the edits of the
/// numbers before it: the flags of the new heap block stay cleared when the
/// old heap block is refused, and the transactions or members before the
/// refused one stay recorded.
pub open spec fn spec_page_after_record(key: Key, page: Seq<u8>, record: &NeonWalRecord) -> Seq<u8> {
    match record {
        NeonWalRecord::Postgres { .. } => page,
        NeonWalRecord::ClearVisibilityMapFlags { new_heap_blkno, old_heap_blkno, flags } => {
            match spec_key_to_rel_block(key) {
                None => page,
                Some((rel, blknum)) => if rel.forknum != VISIBILITYMAP_FORKNUM {
                    page
                } else {
                    match clear_vm_flags_checked(page, *new_heap_blkno, blknum, *flags) {
                        Err(_) => page,
                        Ok(p) => vm_flags_page(p, *old_heap_blkno, blknum, *flags),
                    }
                },
            }
        },
        NeonWalRecord::ClogSetCommitted { xids, timestamp } => {
            match spec_key_to_slru_block(key) {
                Some((SlruKind::Clog, segno, blknum)) => {
                    let set = xact_statuses_page(
                        page,
                        xids@,
                        segno,
                        blknum,
                        TRANSACTION_STATUS_COMMITTED,
                    );
                    if set_xact_statuses(page, xids@, segno, blknum, TRANSACTION_STATUS_COMMITTED)
                        is Ok {
                        with_commit_timestamp(set, *timestamp)
                    } else {
                        set
                    }
                },
                _ => page,
            }
        },
        NeonWalRecord::ClogSetAborted { xids } => {
            match spec_key_to_slru_block(key) {
                Some((SlruKind::Clog, segno, blknum)) => xact_statuses_page(
                    page,
                    xids@,
                    segno,
                    blknum,
                    TRANSACTION_STATUS_ABORTED,
                ),
                _ => page,
            }
        },
        NeonWalRecord::MultixactOffsetCreate { .. } => {
            match spec_apply_record(key, page, record) {
                Ok(p) => p,
                Err(_) => page,
            }
        },
        NeonWalRecord::MultixactMembersCreate { moff, members } => {
            match spec_key_to_slru_block(key) {
                Some((SlruKind::MultiXactMembers, segno, blknum)) => mx_members_page(
                    page,
                    *moff,
                    members@,
                    0,
                    segno,
                    blknum,
                ),
                _ => page,
            }
        },
    }
}

/// A record that is applied leaves the page that [`spec_apply_record`]
/// gives, and a record that is refused leaves a page of the same length as
/// before.
pub proof fn lemma_page_after_record(key: Key, page: Seq<u8>, record: &NeonWalRecord)
    requires
        page.len() >= BLCKSZ,
    ensures
        spec_apply_record(key, page, record) matches Ok(p) ==> spec_page_after_record(
            key,
            page,
            record,
        ) == p,
        spec_apply_record(key, page, record) is Err ==> spec_page_after_record(
            key,
            page,
            record,
        ).len() == page.len(),
{
    match record {
        NeonWalRecord::ClogSetCommitted { xids, .. } => {
            if let Some((SlruKind::Clog, segno, blknum)) = spec_key_to_slru_block(key) {
                lemma_xact_statuses_page(page, xids@, segno, blknum, TRANSACTION_STATUS_COMMITTED);
                lemma_xact_statuses_page_len(
                    page,
                    xids@,
                    segno,
                    blknum,
                    TRANSACTION_STATUS_COMMITTED,
                );
            }
        },
        NeonWalRecord::ClogSetAborted { xids } => {
            if let Some((SlruKind::Clog, segno, blknum)) = spec_key_to_slru_block(key) {
                lemma_xact_statuses_page(page, xids@, segno, blknum, TRANSACTION_STATUS_ABORTED);
                lemma_xact_statuses_page_len(
                    page,
                    xids@,
                    segno,
                    blknum,
                    TRANSACTION_STATUS_ABORTED,
                );
            }
        },
        NeonWalRecord::MultixactMembersCreate { moff, members } => {
            if let Some((SlruKind::MultiXactMembers, segno, blknum)) = spec_key_to_slru_block(key) {
                lemma_mx_members_page(page, *moff, members@, 0, segno, blknum);
                lemma_mx_members_page_len(page, *moff, members@, 0, segno, blknum);
            }
        },
        _ => {},
    }
}

/// Setting statuses keeps the length of the page.
pub proof fn lemma_xact_statuses_page_len(
    page: Seq<u8>,
    xids: Seq<u32>,
    segno: u32,
    blknum: u32,
    status: u8,
)
    requires
        page.len() >= BLCKSZ,
    ensures
        xact_statuses_page(page, xids, segno, blknum, status).len() == page.len(),
    decreases xids.len(),
{
    if xids.len() > 0 && slru_page_is(xids[0] / CLOG_XACTS_PER_PAGE, segno, blknum) {
        lemma_xact_statuses_page_len(
            set_xact_status(page, xids[0], status),
            xids.drop_first(),
            segno,
            blknum,
            status,
        );
    }
}

/// Recording members keeps the length of the page.
pub proof fn lemma_mx_members_page_len(
    page: Seq<u8>,
    moff: u32,
    members: Seq<MultiXactMember>,
    done: int,
    segno: u32,
    blknum: u32,
)
    requires
        page.len() >= BLCKSZ,
    ensures
        mx_members_page(page, moff, members, done, segno, blknum).len() == page.len(),
    decreases members.len() - done,
{
    if 0 <= done < members.len() && mx_member_is_of_page(moff + done, segno, blknum) {
        lemma_mx_members_page_len(
            set_mx_member(page, (moff + done) as u32, members[done]),
            moff,
            members,
            done + 1,
            segno,
            blknum,
        );
    }
}

/// Setting the status of a transaction makes the page report that status for
/// it, whatever the page held before.
pub proof fn lemma_set_xact_status_reads_back(page: Seq<u8>, xid: u32, status: u8)
    requires
        page.len() >= BLCKSZ,
        status <= CLOG_XACT_BITMASK,
    ensures
        set_xact_status(page, xid, status).len() == page.len(),
        xact_status(set_xact_status(page, xid, status), xid) == status,
{
    let b = page[xact_byte_index(xid)];
    let sh = xact_bit_shift(xid);
    assert(sh == 0 || sh == 2 || sh == 4 || sh == 6) by (bit_vector)
        requires
            sh == (xid % 4u32) * 2u32,
    ;
    assert((((b & !(0x03u8 << sh)) | (status << sh)) >> sh) & 0x03u8 == status) by (bit_vector)
        requires
            status <= 0x03u8,
            sh == 0 || sh == 2 || sh == 4 || sh == 6,
    ;
}

/// Setting the status of a transaction leaves the status of every other
/// transaction of the page as it was.
pub proof fn lemma_set_xact_status_keeps_others(page: Seq<u8>, xid: u32, status: u8, other: u32)
    requires
        page.len() >= BLCKSZ,
        status <= CLOG_XACT_BITMASK,
        other % CLOG_XACTS_PER_PAGE != xid % CLOG_XACTS_PER_PAGE,
    ensures
        xact_status(set_xact_status(page, xid, status), other) == xact_status(page, other),
{
    let sh = xact_bit_shift(xid);
    let so = xact_bit_shift(other);
    assert(sh == 0 || sh == 2 || sh == 4 || sh == 6) by (bit_vector)
        requires
            sh == (xid % 4u32) * 2u32,
    ;
    assert(so == 0 || so == 2 || so == 4 || so == 6) by (bit_vector)
        requires
            so == (other % 4u32) * 2u32,
    ;
    if xact_byte_index(other) == xact_byte_index(xid) {
        assert(sh != so) by (bit_vector)
            requires
                sh == (xid % 4u32) * 2u32,
                so == (other % 4u32) * 2u32,
                other % 32768u32 != xid % 32768u32,
                (other % 32768u32) / 4u32 == (xid % 32768u32) / 4u32,
        ;
        let b = page[xact_byte_index(xid)];
        assert((((b & !(0x03u8 << sh)) | (status << sh)) >> so) & 0x03u8 == (b >> so) & 0x03u8)
            by (bit_vector)
            requires
                status <= 0x03u8,
                sh == 0 || sh == 2 || sh == 4 || sh == 6,
                so == 0 || so == 2 || so == 4 || so == 6,
                sh != so,
        ;
    }
}

/// Location of the flag bytes of the group of member `offset`.
#[verifier::when_used_as_spec(spec_mx_offset_to_flags_offset_usize)]
pub fn mx_offset_to_flags_offset(offset: u32) -> (r: usize)
    ensures
        r == spec_mx_offset_to_flags_offset(offset),
        r <= 8160,
{
    (((offset / MULTIXACT_MEMBERS_PER_MEMBERGROUP) % MULTIXACT_MEMBERGROUPS_PER_PAGE)
        * MULTIXACT_MEMBERGROUP_SIZE) as usize
}

/// The flag offset as a machine word.
pub open spec fn spec_mx_offset_to_flags_offset_usize(offset: u32) -> usize {
    spec_mx_offset_to_flags_offset(offset) as usize
}

/// Position of the flags of member `offset` in the flag word of its group.
pub fn mx_offset_to_flags_bitshift(offset: u32) -> (r: u32)
    ensures
        r == spec_mx_offset_to_flags_bitshift(offset),
        r == 0 || r == 8 || r == 16 || r == 24,
{
    (offset % MULTIXACT_MEMBERS_PER_MEMBERGROUP) * MXACT_MEMBER_BITS_PER_XACT
}

/// Location of the transaction id of member `offset`.
pub fn mx_offset_to_member_offset(offset: u32) -> (r: usize)
    ensures
        r == spec_mx_offset_to_member_offset(offset),
        r <= 8176,
{
    mx_offset_to_flags_offset(offset) + (MULTIXACT_FLAGBYTES_PER_GROUP + (offset
        % MULTIXACT_MEMBERS_PER_MEMBERGROUP) * 4) as usize
}

/// Sets the status of `xid` in its commit-log page.
pub fn transaction_id_set_status(xid: u32, status: u8, page: &mut Vec<u8>)
    requires
        old(page)@.len() >= BLCKSZ,
    ensures
        final(page)@ == set_xact_status(old(page)@, xid, status),
{
    let byteno: usize = ((xid % CLOG_XACTS_PER_PAGE) / CLOG_XACTS_PER_BYTE) as usize;
    let bshift: u32 = (xid % CLOG_XACTS_PER_BYTE) * CLOG_BITS_PER_XACT;
    let v: u8 = (page[byteno] & !(CLOG_XACT_BITMASK << bshift)) | (status << bshift);
    page.set(byteno, v);
}

/// Writes four bytes over `page` from `offset` on.
fn write_u32_at(page: &mut Vec<u8>, offset: usize, bytes: [u8; 4])
    requires
        offset + 4 <= old(page)@.len(),
    ensures
        final(page)@ == write_at(old(page)@, offset as int, bytes@),
{
    let len: usize = page.len();
    assert(offset + 4 <= len);
    page.set(offset, bytes[0]);
    page.set(offset + 1, bytes[1]);
    page.set(offset + 2, bytes[2]);
    page.set(offset + 3, bytes[3]);
    assert(page@ =~= write_at(old(page)@, offset as int, bytes@));
}

impl PostgresRedoManager {
    /// Clears the visibility map flags of one heap block, if there is one.
    fn clear_vm_flags_of(page: &mut Vec<u8>, heap_blkno: Option<u32>, blknum: u32, flags: u8) -> (r:
        Result<(), WalRedoError>)
        requires
            old(page)@.len() >= BLCKSZ,
        ensures
            final(page)@.len() == old(page)@.len(),
            final(page)@ == vm_flags_page(old(page)@, heap_blkno, blknum, flags),
            match clear_vm_flags_checked(old(page)@, heap_blkno, blknum, flags) {
                Ok(p) => r is Ok && final(page)@ == p,
                Err(e) => r == Err::<(), WalRedoError>(e),
            },
    {
        if let Some(heap_blkno) = heap_blkno {
            let map_block = heapblk_to_mapblock(heap_blkno);
            let map_byte = heapblk_to_mapbyte(heap_blkno);
            let map_offset = heapblk_to_offset(heap_blkno);
            if map_block != blknum {
                return Err(WalRedoError::InvalidRecord);
            }
            let i: usize = MAXALIGN_SIZE_OF_PAGE_HEADER_DATA + map_byte as usize;
            let v: u8 = page[i] & !(flags << map_offset);
            page.set(i, v);
        }
        Ok(())
    }

    /// Sets the status of each of `xids` on commit-log block `blknum` of
    /// segment `segno`.
    fn set_statuses(page: &mut Vec<u8>, xids: &Vec<u32>, segno: u32, blknum: u32, status: u8) -> (r:
        Result<(), WalRedoError>)
        requires
            old(page)@.len() >= BLCKSZ,
        ensures
            final(page)@.len() == old(page)@.len(),
            final(page)@ == xact_statuses_page(old(page)@, xids@, segno, blknum, status),
            match set_xact_statuses(old(page)@, xids@, segno, blknum, status) {
                Ok(p) => r is Ok && final(page)@ == p,
                Err(e) => r == Err::<(), WalRedoError>(e),
            },
    {
        let mut i: usize = 0;
        assert(xids@.skip(0) =~= xids@);
        while i < xids.len()
            invariant
                i <= xids.len(),
                page@.len() == old(page)@.len(),
                page@.len() >= BLCKSZ,
                set_xact_statuses(old(page)@, xids@, segno, blknum, status) == set_xact_statuses(
                    page@,
                    xids@.skip(i as int),
                    segno,
                    blknum,
                    status,
                ),
                xact_statuses_page(old(page)@, xids@, segno, blknum, status) == xact_statuses_page(
                    page@,
                    xids@.skip(i as int),
                    segno,
                    blknum,
                    status,
                ),
            decreases xids.len() - i,
        {
            let xid = xids[i];
            let pageno = xid / CLOG_XACTS_PER_PAGE;
            let expected_segno = pageno / SLRU_PAGES_PER_SEGMENT;
            let expected_blknum = pageno % SLRU_PAGES_PER_SEGMENT;
            assert(xids@.skip(i as int)[0] == xid);
            assert(xids@.skip(i as int).drop_first() =~= xids@.skip(i + 1));
            if segno != expected_segno || blknum != expected_blknum {
                return Err(WalRedoError::InvalidRecord);
            }
            transaction_id_set_status(xid, status, page);
            i += 1;
        }
        assert(xids@.skip(i as int).len() == 0);
        Ok(())
    }

    /// Records each of `members` on multixact members block `blknum` of
    /// segment `segno`.
    fn set_members(
        page: &mut Vec<u8>,
        moff: u32,
        members: &Vec<MultiXactMember>,
        segno: u32,
        blknum: u32,
    ) -> (r: Result<(), WalRedoError>)
        requires
            old(page)@.len() >= BLCKSZ,
        ensures
            final(page)@.len() == old(page)@.len(),
            final(page)@ == mx_members_page(old(page)@, moff, members@, 0, segno, blknum),
            match set_mx_members(old(page)@, moff, members@, 0, segno, blknum) {
                Ok(p) => r is Ok && final(page)@ == p,
                Err(e) => r == Err::<(), WalRedoError>(e),
            },
    {
        let mut i: usize = 0;
        while i < members.len()
            invariant
                i <= members.len(),
                page@.len() == old(page)@.len(),
                page@.len() >= BLCKSZ,
                set_mx_members(old(page)@, moff, members@, 0, segno, blknum) == set_mx_members(
                    page@,
                    moff,
                    members@,
                    i as int,
                    segno,
                    blknum,
                ),
                mx_members_page(old(page)@, moff, members@, 0, segno, blknum) == mx_members_page(
                    page@,
                    moff,
                    members@,
                    i as int,
                    segno,
                    blknum,
                ),
            decreases members.len() - i,
        {
            let member = members[i];
            if i > u32::MAX as usize || moff > u32::MAX - i as u32 {
                return Err(WalRedoError::InvalidRecord);
            }
            let offset: u32 = moff + i as u32;
            let pageno = offset / MULTIXACT_MEMBERS_PER_PAGE;
            let memberoff = mx_offset_to_member_offset(offset);
            let flagsoff = mx_offset_to_flags_offset(offset);
            let bshift = mx_offset_to_flags_bitshift(offset);
            let expected_segno = pageno / SLRU_PAGES_PER_SEGMENT;
            let expected_blknum = pageno % SLRU_PAGES_PER_SEGMENT;
            if segno != expected_segno || blknum != expected_blknum {
                return Err(WalRedoError::InvalidRecord);
            }
            let flags_bytes = vstd::slice::slice_subrange(page.as_slice(), flagsoff, flagsoff + 4);
            let mut flagsval: u32 = u32_from_le_bytes(flags_bytes);
            flagsval = flagsval & !(0xffu32 << bshift);
            flagsval = flagsval | (member.status << bshift);
            write_u32_at(page, flagsoff, u32_to_le_bytes(flagsval));
            write_u32_at(page, memberoff, u32_to_le_bytes(member.xid));
            i += 1;
        }
        Ok(())
    }

    /// Replays one natively handled record on `page`, the page of `key`.
    ///
    /// On success the page is what [`spec_apply_record`] says. On failure the
    /// error is the one it says. Either way the page is what
    /// [`spec_page_after_record`] says: untouched where the record is refused
    /// before any edit, and with the edits made before the refusal otherwise.
    pub fn apply_record_neon(
        key: Key,
        page: &mut Vec<u8>,
        _record_lsn: Lsn,
        record: &NeonWalRecord,
    ) -> (r: Result<(), WalRedoError>)
        requires
            old(page)@.len() >= BLCKSZ,
        ensures
            final(page)@.len() >= BLCKSZ,
            final(page)@ == spec_page_after_record(key, old(page)@, record),
            match spec_apply_record(key, old(page)@, record) {
                Ok(p) => r is Ok && final(page)@ == p,
                Err(e) => r == Err::<(), WalRedoError>(e) && final(page)@.len() == old(page)@.len(),
            },
    {
        match record {
            NeonWalRecord::Postgres { will_init: _, rec: _ } => {
                return Err(WalRedoError::InvalidRequest);
            },
            NeonWalRecord::ClearVisibilityMapFlags { new_heap_blkno, old_heap_blkno, flags } => {
                // The key must be the key of a visibility map block.
                let (rel, blknum) = match key_to_rel_block(key) {
                    Some(x) => x,
                    None => {
                        return Err(WalRedoError::InvalidRecord);
                    },
                };
                if rel.forknum != VISIBILITYMAP_FORKNUM {
                    return Err(WalRedoError::InvalidRecord);
                }
                Self::clear_vm_flags_of(page, *new_heap_blkno, blknum, *flags)?;
                // Repeat for 'old_heap_blkno', if any
                Self::clear_vm_flags_of(page, *old_heap_blkno, blknum, *flags)?;
            },
            NeonWalRecord::ClogSetCommitted { xids, timestamp } => {
                let (segno, blknum) = match key_to_slru_block(key) {
                    Some((SlruKind::Clog, segno, blknum)) => (segno, blknum),
                    _ => {
                        return Err(WalRedoError::InvalidRecord);
                    },
                };
                Self::set_statuses(page, xids, segno, blknum, TRANSACTION_STATUS_COMMITTED)?;
                // Append the timestamp
                if page.len() == BLCKSZ + 8 {
                    page.truncate(BLCKSZ);
                }
                if page.len() == BLCKSZ {
                    let stamp = i64_to_be_bytes(*timestamp);
                    page.extend_from_slice(stamp.as_slice());
                }
            },
            NeonWalRecord::ClogSetAborted { xids } => {
                let (segno, blknum) = match key_to_slru_block(key) {
                    Some((SlruKind::Clog, segno, blknum)) => (segno, blknum),
                    _ => {
                        return Err(WalRedoError::InvalidRecord);
                    },
                };
                Self::set_statuses(page, xids, segno, blknum, TRANSACTION_STATUS_ABORTED)?;
            },
            NeonWalRecord::MultixactOffsetCreate { mid, moff } => {
                let (segno, blknum) = match key_to_slru_block(key) {
                    Some((SlruKind::MultiXactOffsets, segno, blknum)) => (segno, blknum),
                    _ => {
                        return Err(WalRedoError::InvalidRecord);
                    },
                };
                // Compute the block and offset to modify.
                let pageno = *mid / MULTIXACT_OFFSETS_PER_PAGE;
                let entryno = *mid % MULTIXACT_OFFSETS_PER_PAGE;
                let offset = (entryno * 4) as usize;
                let expected_segno = pageno / SLRU_PAGES_PER_SEGMENT;
                let expected_blknum = pageno % SLRU_PAGES_PER_SEGMENT;
                if segno != expected_segno || blknum != expected_blknum {
                    return Err(WalRedoError::InvalidRecord);
                }
                write_u32_at(page, offset, u32_to_le_bytes(*moff));
            },
            NeonWalRecord::MultixactMembersCreate { moff, members } => {
                let (segno, blknum) = match key_to_slru_block(key) {
                    Some((SlruKind::MultiXactMembers, segno, blknum)) => (segno, blknum),
                    _ => {
                        return Err(WalRedoError::InvalidRecord);
                    },
                };
                Self::set_members(page, *moff, members, segno, blknum)?;
            },
        }
        Ok(())
    }
}

} // verus!
