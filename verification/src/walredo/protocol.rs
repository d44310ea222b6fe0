//! The messages sent to the worker process.
//!
//! Every message is a one-byte tag, a 32-bit length in little-endian order
//! that counts itself and the body but not the tag, and the body:
//!
//! | tag | meaning              | body                                   |
//! |-----|----------------------|----------------------------------------|
//! | `B` | begin redo for block | buffer tag                             |
//! | `P` | push base page       | buffer tag, the page                   |
//! | `A` | apply record         | position of the end of the record, the record |
//! | `G` | get page             | buffer tag                             |
//!
//! A buffer tag is written as the fork number in one byte followed by the
//! tablespace, the database, the relation and the block number, each in four
//! bytes, most significant first. The position at which a record ends is
//! written in eight bytes, most significant first. The worker answers a
//! request with one page of [`BLCKSZ`] bytes and no framing.

use vstd::prelude::*;
use crate::encoding::{
    be_bytes_u32, be_bytes_u64, le_bytes_u32, lemma_encoded_lengths, put_slice, put_u32, put_u32_le,
    put_u64, put_u8,
};
use crate::lsn::Lsn;
use crate::pg_constants::BLCKSZ;
use crate::walrecord::NeonWalRecord;
use crate::walredo::{BufferTag, RedoIoError, WalRedoError};

verus! {

/// Tag of the message that begins redo for a block.
pub const MSG_BEGIN_REDO: u8 = 66;

/// Tag of the message that pushes the base page.
pub const MSG_PUSH_PAGE: u8 = 80;

/// Tag of the message that applies one record.
pub const MSG_APPLY_RECORD: u8 = 65;

/// Tag of the message that asks for the page.
pub const MSG_GET_PAGE: u8 = 71;

/// Bytes of a buffer tag on the wire.
pub const BUFFER_TAG_LEN: usize = 17;

/// The bytes of a buffer tag on the wire.
pub open spec fn buffer_tag_bytes(tag: BufferTag) -> Seq<u8> {
    seq![tag.rel.forknum] + be_bytes_u32(tag.rel.spcnode) + be_bytes_u32(tag.rel.dbnode)
        + be_bytes_u32(tag.rel.relnode) + be_bytes_u32(tag.blknum)
}

/// The message that begins redo for the block of `tag`.
pub open spec fn begin_redo_msg(tag: BufferTag) -> Seq<u8> {
    seq![MSG_BEGIN_REDO] + le_bytes_u32(21) + buffer_tag_bytes(tag)
}

/// The message that pushes `base_img` as the base page of the block of `tag`.
pub open spec fn push_page_msg(tag: BufferTag, base_img: Seq<u8>) -> Seq<u8> {
    seq![MSG_PUSH_PAGE] + le_bytes_u32((21 + base_img.len()) as u32) + buffer_tag_bytes(tag)
        + base_img
}

/// The message that applies the record `rec`, which ends at `endlsn`.
pub open spec fn apply_record_msg(endlsn: Lsn, rec: Seq<u8>) -> Seq<u8> {
    seq![MSG_APPLY_RECORD] + le_bytes_u32((12 + rec.len()) as u32) + be_bytes_u64(endlsn.0) + rec
}

/// The message that asks for the page of `tag`.
pub open spec fn get_page_msg(tag: BufferTag) -> Seq<u8> {
    seq![MSG_GET_PAGE] + le_bytes_u32(21) + buffer_tag_bytes(tag)
}

/// Why a record cannot be framed for the worker, if it cannot: a natively
/// replayed record has no place in a request, and the length of a record
/// must fit the length field.
pub open spec fn frame_error(record: &NeonWalRecord) -> Option<WalRedoError> {
    match record {
        NeonWalRecord::Postgres { rec, .. } => if rec@.len() + 12 <= u32::MAX {
            None
        } else {
            Some(WalRedoError::InvalidRecord)
        },
        _ => Some(WalRedoError::IoError(RedoIoError::NeonRecordForPostgres)),
    }
}

/// The error of the first record that cannot be framed, if there is one.
pub open spec fn first_frame_error(records: Seq<(Lsn, NeonWalRecord)>) -> Option<WalRedoError>
    decreases records.len(),
{
    if records.len() == 0 {
        None
    } else {
        match first_frame_error(records.drop_last()) {
            Some(e) => Some(e),
            None => frame_error(&records.last().1),
        }
    }
}

/// The messages that apply `records` one after the other.
pub open spec fn apply_records_msgs(records: Seq<(Lsn, NeonWalRecord)>) -> Seq<u8>
    decreases records.len(),
{
    if records.len() == 0 {
        Seq::empty()
    } else {
        apply_records_msgs(records.drop_last()) + record_msg(&records.last())
    }
}

/// Everything that is written to the worker for one request: begin redo, the
/// base page if there is one, the records in order, and get page.
pub open spec fn redo_request_msgs(
    tag: BufferTag,
    base_img: Option<Seq<u8>>,
    records: Seq<(Lsn, NeonWalRecord)>,
) -> Seq<u8> {
    begin_redo_msg(tag) + (match base_img {
        Some(img) => push_page_msg(tag, img),
        None => Seq::empty(),
    }) + apply_records_msgs(records) + get_page_msg(tag)
}

/// Appends the bytes of a buffer tag.
pub fn ser_buffer_tag(tag: BufferTag, buf: &mut Vec<u8>)
    ensures
        final(buf)@ == old(buf)@ + buffer_tag_bytes(tag),
        buffer_tag_bytes(tag).len() == BUFFER_TAG_LEN,
{
    put_u8(buf, tag.rel.forknum);
    put_u32(buf, tag.rel.spcnode);
    put_u32(buf, tag.rel.dbnode);
    put_u32(buf, tag.rel.relnode);
    put_u32(buf, tag.blknum);
    proof {
        lemma_encoded_lengths();
    }
    assert(buf@ =~= old(buf)@ + buffer_tag_bytes(tag));
}

/// Appends the message that begins redo for the block of `tag`.
pub fn build_begin_redo_for_block_msg(tag: BufferTag, buf: &mut Vec<u8>)
    ensures
        final(buf)@ == old(buf)@ + begin_redo_msg(tag),
{
    let len: u32 = 4 + 1 + 4 * 4;
    put_u8(buf, MSG_BEGIN_REDO);
    put_u32_le(buf, len);
    ser_buffer_tag(tag, buf);
    assert(buf@ =~= old(buf)@ + begin_redo_msg(tag));
}

/// Appends the message that pushes the base page `base_img`.
pub fn build_push_page_msg(tag: BufferTag, base_img: &[u8], buf: &mut Vec<u8>)
    requires
        base_img@.len() == BLCKSZ,
    ensures
        final(buf)@ == old(buf)@ + push_page_msg(tag, base_img@),
{
    let len: usize = 4 + 1 + 4 * 4 + base_img.len();
    put_u8(buf, MSG_PUSH_PAGE);
    put_u32_le(buf, len as u32);
    ser_buffer_tag(tag, buf);
    put_slice(buf, base_img);
    assert(buf@ =~= old(buf)@ + push_page_msg(tag, base_img@));
}

/// Appends the message that applies the record `rec`, which ends at `endlsn`.
pub fn build_apply_record_msg(endlsn: Lsn, rec: &[u8], buf: &mut Vec<u8>)
    requires
        rec@.len() + 12 <= u32::MAX,
    ensures
        final(buf)@ == old(buf)@ + apply_record_msg(endlsn, rec@),
{
    let len: usize = 4 + 8 + rec.len();
    put_u8(buf, MSG_APPLY_RECORD);
    put_u32_le(buf, len as u32);
    put_u64(buf, endlsn.0);
    put_slice(buf, rec);
    assert(buf@ =~= old(buf)@ + apply_record_msg(endlsn, rec@));
}

/// Appends the message that asks for the page of `tag`.
pub fn build_get_page_msg(tag: BufferTag, buf: &mut Vec<u8>)
    ensures
        final(buf)@ == old(buf)@ + get_page_msg(tag),
{
    let len: u32 = 4 + 1 + 4 * 4;
    put_u8(buf, MSG_GET_PAGE);
    put_u32_le(buf, len);
    ser_buffer_tag(tag, buf);
    assert(buf@ =~= old(buf)@ + get_page_msg(tag));
}

/// What one record adds to a request.
pub open spec fn record_msg(record: &(Lsn, NeonWalRecord)) -> Seq<u8> {
    match record.1 {
        NeonWalRecord::Postgres { rec, .. } => apply_record_msg(record.0, rec@),
        _ => Seq::empty(),
    }
}

/// Appends the message that applies `record`, or says why it cannot be
/// framed and leaves the buffer as it is.
fn append_apply_record(record: &(Lsn, NeonWalRecord), buf: &mut Vec<u8>) -> (r: Result<
    (),
    WalRedoError,
>)
    ensures
        match frame_error(&record.1) {
            None => r is Ok && final(buf)@ == old(buf)@ + record_msg(record),
            Some(e) => r == Err::<(), WalRedoError>(e) && final(buf)@ == old(buf)@,
        },
{
    match &record.1 {
        NeonWalRecord::Postgres { will_init: _, rec } => {
            if rec.len() > 0xffff_fff3 {
                return Err(WalRedoError::InvalidRecord);
            }
            build_apply_record_msg(record.0, rec.as_slice(), buf);
            Ok(())
        },
        _ => Err(WalRedoError::IoError(RedoIoError::NeonRecordForPostgres)),
    }
}

/// What [`build_redo_request`] returns: the request, or the reason why
/// there is none. A base page that is not exactly one page long is an
/// invalid request; after that the first record that cannot be framed
/// decides.
pub open spec fn spec_redo_request(
    tag: BufferTag,
    base_img: Option<Seq<u8>>,
    records: Seq<(Lsn, NeonWalRecord)>,
) -> Result<Seq<u8>, WalRedoError> {
    if base_img is Some && base_img->0.len() != BLCKSZ {
        Err(WalRedoError::InvalidRequest)
    } else {
        match first_frame_error(records) {
            Some(e) => Err(e),
            None => Ok(redo_request_msgs(tag, base_img, records)),
        }
    }
}

/// The contents of an optional page.
pub open spec fn page_view(page: &Option<Vec<u8>>) -> Option<Seq<u8>> {
    match page {
        Some(p) => Some(p@),
        None => None,
    }
}

/// Serializes one request for the worker: see [`spec_redo_request`].
pub fn build_redo_request(
    tag: BufferTag,
    base_img: &Option<Vec<u8>>,
    records: &[(Lsn, NeonWalRecord)],
) -> (r: Result<Vec<u8>, WalRedoError>)
    ensures
        match spec_redo_request(tag, page_view(base_img), records@) {
            Ok(bytes) => r is Ok && r->Ok_0@ == bytes,
            Err(e) => r == Err::<Vec<u8>, WalRedoError>(e),
        },
{
    let mut writebuf: Vec<u8> = Vec::with_capacity(BLCKSZ * 3);
    build_begin_redo_for_block_msg(tag, &mut writebuf);
    if let Some(img) = base_img {
        if img.len() != BLCKSZ {
            return Err(WalRedoError::InvalidRequest);
        }
        build_push_page_msg(tag, img.as_slice(), &mut writebuf);
    }
    let ghost head = writebuf@;
    let mut i: usize = 0;
    assert(records@.take(0) =~= Seq::empty());
    while i < records.len()
        invariant
            i <= records.len(),
            !(page_view(base_img) is Some && page_view(base_img)->0.len() != BLCKSZ),
            first_frame_error(records@.take(i as int)) is None,
            writebuf@ == head + apply_records_msgs(records@.take(i as int)),
        decreases records.len() - i,
    {
        proof {
            lemma_take_step(records@, i as int);
        }
        let ghost before = writebuf@;
        match append_apply_record(&records[i], &mut writebuf) {
            Ok(()) => {
                assert(writebuf@ =~= head + apply_records_msgs(records@.take(i + 1)));
            },
            Err(e) => {
                proof {
                    lemma_first_frame_error_prefix(records@, i + 1);
                }
                return Err(e);
            },
        }
        i += 1;
    }
    assert(records@.take(i as int) =~= records@);
    build_get_page_msg(tag, &mut writebuf);
    Ok(writebuf)
}

/// What one more record adds to the messages and to the first error.
proof fn lemma_take_step(records: Seq<(Lsn, NeonWalRecord)>, i: int)
    requires
        0 <= i < records.len(),
    ensures
        apply_records_msgs(records.take(i + 1)) == apply_records_msgs(records.take(i))
            + record_msg(&records[i]),
        first_frame_error(records.take(i + 1)) == (match first_frame_error(records.take(i)) {
            Some(e) => Some(e),
            None => frame_error(&records[i].1),
        }),
{
    assert(records.take(i + 1).drop_last() =~= records.take(i));
    assert(records.take(i + 1).last() == records[i]);
}

/// An error found among the first `n` records is the error of the whole run.
proof fn lemma_first_frame_error_prefix(records: Seq<(Lsn, NeonWalRecord)>, n: int)
    requires
        0 <= n <= records.len(),
        first_frame_error(records.take(n)) is Some,
    ensures
        first_frame_error(records) == first_frame_error(records.take(n)),
    decreases records.len() - n,
{
    if n < records.len() {
        lemma_take_step(records, n);
        lemma_first_frame_error_prefix(records, n + 1);
    } else {
        assert(records.take(n) =~= records);
    }
}

} // verus!
