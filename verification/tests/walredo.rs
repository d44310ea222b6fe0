//! WAL redo: native replay, the messages for the worker, and the matching
//! of responses to requests.

use pageserver::id::TenantId;
use pageserver::lsn::Lsn;
use pageserver::pg_constants::{BLCKSZ, TRANSACTION_STATUS_ABORTED, TRANSACTION_STATUS_COMMITTED};
use pageserver::reltag::{key_to_rel_block, key_to_slru_block, Key, RelTag, SlruKind};
use pageserver::walrecord::{MultiXactMember, NeonWalRecord};
use pageserver::walredo::process::{
    keep_draining_stderr, poll_timeout, poll_verdict, publish_launched, stderr_action,
    stdout_action, write_action, PipeAction, PollEvents, PollResult, PollVerdict, ProcessInput,
    ProcessOutput, TransferProgress,
};
use pageserver::walredo::protocol::{
    build_apply_record_msg, build_begin_redo_for_block_msg, build_get_page_msg,
    build_push_page_msg, build_redo_request, ser_buffer_tag,
};
use pageserver::walredo::request::{
    after_attempt, apply_batch_neon, find_run_end, AfterAttempt, RedoStep, MAX_RETRY_ATTEMPTS,
};
use pageserver::walredo::{
    can_apply_in_neon, library_path_variables, pg_distrib_subdir, BufferTag, IoErrorKind,
    PostgresRedoManager, RedoIoError, WalRedoError, FIRST_FD_TO_CLOSE, WAL_REDO_FLAG,
    WAL_REDO_PROGRAM,
};

fn zero_page() -> Vec<u8> {
    vec![0u8; BLCKSZ]
}

fn clog_key(segno: u32, blknum: u32) -> Key {
    Key { field1: 1, field2: 0, field3: 0, field4: segno, field5: 0, field6: blknum }
}

fn rel_key(forknum: u8, blknum: u32) -> Key {
    Key { field1: 0, field2: 1663, field3: 13010, field4: 1259, field5: forknum, field6: blknum }
}

fn manager() -> PostgresRedoManager {
    PostgresRedoManager::new(60_000, TenantId(7))
}

fn postgres_record(bytes: &[u8]) -> NeonWalRecord {
    NeonWalRecord::Postgres { will_init: false, rec: bytes.to_vec() }
}

#[allow(clippy::octal_escapes)]
fn short_records() -> Vec<(Lsn, NeonWalRecord)> {
    vec![
        (
            Lsn(0x16A9388),
            NeonWalRecord::Postgres {
                will_init: true,
                rec: REC1.to_vec(),
            },
        ),
        (
            Lsn(0x16D4080),
            NeonWalRecord::Postgres {
                will_init: false,
                rec: REC2.to_vec(),
            },
        ),
    ]
}

#[test]
fn short_v14_fails_for_wrong_key_but_returns_zero_page() {
    let h = manager();
    let (mut request, step) = h.request_redo(
        Key {
            field1: 0,
            field2: 1663,
            // key should be 13010
            field3: 13130,
            field4: 1259,
            field5: 0,
            field6: 0,
        },
        Lsn(0x16E2408),
        None,
        short_records(),
        14,
    );
    // The whole batch is one run for the worker.
    let (tag, start, end) = match step {
        RedoStep::Postgres { tag, start, end } => (tag, start, end),
        RedoStep::Done(r) => panic!("the request ended without the worker: {:?}", r),
    };
    assert_eq!((start, end), (0, 2));
    assert_eq!(tag.rel, RelTag { forknum: 0, spcnode: 1663, dbnode: 13130, relnode: 1259 });
    assert_eq!(tag.blknum, 0);
    let bytes = request.worker_request().unwrap();
    assert_eq!(bytes.len(), 22 + (13 + REC1.len()) + (13 + REC2.len()) + 22);
    // A worker that is asked for a page it has no records for answers with
    // a page of zeros.
    let page = match request.resume(Ok(zero_page())) {
        RedoStep::Done(r) => r.unwrap(),
        other => panic!("the request did not end: {:?}", other),
    };
    assert_eq!(page, zero_page());
}

#[test]
fn native_replay_sets_commit_status_and_timestamp() {
    let mut page = zero_page();
    let t: i64 = 0x0102_0304_0506_0708;
    let record = NeonWalRecord::ClogSetCommitted { xids: vec![12345], timestamp: t };
    PostgresRedoManager::apply_record_neon(clog_key(0, 0), &mut page, Lsn(1), &record).unwrap();
    let byteno = (12345 % 32768) / 4;
    let shift = (12345 % 4) * 2;
    assert_eq!((page[byteno] >> shift) & 0x03, TRANSACTION_STATUS_COMMITTED);
    assert_eq!(page[byteno], 0x04);
    assert_eq!(page.len(), BLCKSZ + 8);
    assert_eq!(&page[BLCKSZ..], &t.to_be_bytes());
    assert_eq!(&page[BLCKSZ..], &[1, 2, 3, 4, 5, 6, 7, 8]);
    // Every other byte of the page is still zero.
    for (i, b) in page[..BLCKSZ].iter().enumerate() {
        if i != byteno {
            assert_eq!(*b, 0);
        }
    }
}

#[test]
fn native_replay_replaces_an_older_timestamp() {
    let mut page = zero_page();
    page.extend_from_slice(&7i64.to_be_bytes());
    let record = NeonWalRecord::ClogSetCommitted { xids: vec![1], timestamp: -2 };
    PostgresRedoManager::apply_record_neon(clog_key(0, 0), &mut page, Lsn(1), &record).unwrap();
    assert_eq!(page.len(), BLCKSZ + 8);
    assert_eq!(&page[BLCKSZ..], &(-2i64).to_be_bytes());
    assert_eq!(&page[BLCKSZ..], &[0xff, 0xff, 0xff, 0xff, 0xff, 0xff, 0xff, 0xfe]);
}

#[test]
fn native_replay_leaves_a_page_of_odd_size_without_timestamp() {
    let mut page = vec![0u8; BLCKSZ + 3];
    let record = NeonWalRecord::ClogSetCommitted { xids: vec![2], timestamp: 9 };
    PostgresRedoManager::apply_record_neon(clog_key(0, 0), &mut page, Lsn(1), &record).unwrap();
    assert_eq!(page.len(), BLCKSZ + 3);
    assert_eq!(page[0], 0x01 << 4);
}

#[test]
fn native_replay_sets_abort_status_next_to_commit_status() {
    let mut page = zero_page();
    let committed = NeonWalRecord::ClogSetCommitted { xids: vec![8, 11], timestamp: 0 };
    PostgresRedoManager::apply_record_neon(clog_key(0, 0), &mut page, Lsn(1), &committed).unwrap();
    page.truncate(BLCKSZ);
    let aborted = NeonWalRecord::ClogSetAborted { xids: vec![9, 8] };
    PostgresRedoManager::apply_record_neon(clog_key(0, 0), &mut page, Lsn(2), &aborted).unwrap();
    // xids 8..=11 share byte 2: 8 aborted, 9 aborted, 10 untouched, 11 committed.
    let status = |xid: usize| (page[xid / 4] >> ((xid % 4) * 2)) & 0x03;
    assert_eq!(status(8), TRANSACTION_STATUS_ABORTED);
    assert_eq!(status(9), TRANSACTION_STATUS_ABORTED);
    assert_eq!(status(10), 0);
    assert_eq!(status(11), TRANSACTION_STATUS_COMMITTED);
    assert_eq!(page[2], 0b01_00_10_10);
    assert_eq!(page.len(), BLCKSZ);
}

#[test]
fn native_replay_refuses_a_transaction_of_another_page() {
    // xid 40000 lives on page 1, which is block 1 of segment 0.
    let record = NeonWalRecord::ClogSetAborted { xids: vec![40000] };
    let mut page = vec![0x5au8; BLCKSZ];
    assert_eq!(
        PostgresRedoManager::apply_record_neon(clog_key(0, 0), &mut page, Lsn(1), &record),
        Err(WalRedoError::InvalidRecord)
    );
    // Refused at its first transaction, the record leaves the page alone.
    assert_eq!(page, vec![0x5au8; BLCKSZ]);
    let mut page = zero_page();
    assert_eq!(
        PostgresRedoManager::apply_record_neon(clog_key(0, 1), &mut page, Lsn(1), &record),
        Ok(())
    );
    assert_eq!(page[(40000 % 32768) / 4], TRANSACTION_STATUS_ABORTED);
    // Page 32 is block 0 of segment 1.
    let record = NeonWalRecord::ClogSetAborted { xids: vec![32 * 32768] };
    let mut page = zero_page();
    assert_eq!(
        PostgresRedoManager::apply_record_neon(clog_key(1, 0), &mut page, Lsn(1), &record),
        Ok(())
    );
    assert_eq!(
        PostgresRedoManager::apply_record_neon(clog_key(0, 0), &mut page, Lsn(1), &record),
        Err(WalRedoError::InvalidRecord)
    );
}

#[test]
fn native_replay_refuses_a_key_of_the_wrong_kind() {
    let mut page = zero_page();
    let clog = NeonWalRecord::ClogSetAborted { xids: vec![1] };
    assert_eq!(
        PostgresRedoManager::apply_record_neon(rel_key(0, 0), &mut page, Lsn(1), &clog),
        Err(WalRedoError::InvalidRecord)
    );
    let offsets_key = Key { field1: 1, field2: 2, field3: 0, field4: 0, field5: 0, field6: 0 };
    assert_eq!(
        PostgresRedoManager::apply_record_neon(offsets_key, &mut page, Lsn(1), &clog),
        Err(WalRedoError::InvalidRecord)
    );
    let vm = NeonWalRecord::ClearVisibilityMapFlags {
        new_heap_blkno: Some(0),
        old_heap_blkno: None,
        flags: 1,
    };
    // Fork 0 is not the visibility map.
    assert_eq!(
        PostgresRedoManager::apply_record_neon(rel_key(0, 0), &mut page, Lsn(1), &vm),
        Err(WalRedoError::InvalidRecord)
    );
    assert_eq!(
        PostgresRedoManager::apply_record_neon(clog_key(0, 0), &mut page, Lsn(1), &vm),
        Err(WalRedoError::InvalidRecord)
    );
    assert_eq!(page, zero_page());
}

#[test]
fn native_replay_refuses_a_record_for_the_worker() {
    let mut page: Vec<u8> = (0..BLCKSZ).map(|i| (i % 251) as u8).collect();
    let before = page.clone();
    assert_eq!(
        PostgresRedoManager::apply_record_neon(
            rel_key(0, 0),
            &mut page,
            Lsn(1),
            &postgres_record(b"abc")
        ),
        Err(WalRedoError::InvalidRequest)
    );
    assert_eq!(page, before);
}

#[test]
fn native_replay_keeps_the_edits_made_before_a_refusal() {
    // xid 5 is of page 0, xid 40000 is not, and xid 9 is never reached.
    let record = NeonWalRecord::ClogSetCommitted { xids: vec![5, 40000, 9], timestamp: 77 };
    let mut page = zero_page();
    assert_eq!(
        PostgresRedoManager::apply_record_neon(clog_key(0, 0), &mut page, Lsn(1), &record),
        Err(WalRedoError::InvalidRecord)
    );
    let mut expected = zero_page();
    expected[1] = TRANSACTION_STATUS_COMMITTED << 2;
    // No timestamp follows the page of a record that was refused.
    assert_eq!(page, expected);

    // The new heap block is of map block 0, the old one is of map block 1.
    let record = NeonWalRecord::ClearVisibilityMapFlags {
        new_heap_blkno: Some(5),
        old_heap_blkno: Some(32672),
        flags: 0x03,
    };
    let mut page = vec![0xffu8; BLCKSZ];
    assert_eq!(
        PostgresRedoManager::apply_record_neon(rel_key(2, 0), &mut page, Lsn(1), &record),
        Err(WalRedoError::InvalidRecord)
    );
    let mut expected = vec![0xffu8; BLCKSZ];
    expected[24 + 1] = 0xff & !(0x03 << 2);
    assert_eq!(page, expected);
    // The other way round nothing is cleared.
    let record = NeonWalRecord::ClearVisibilityMapFlags {
        new_heap_blkno: Some(32672),
        old_heap_blkno: Some(5),
        flags: 0x03,
    };
    let mut page = vec![0xffu8; BLCKSZ];
    assert_eq!(
        PostgresRedoManager::apply_record_neon(rel_key(2, 0), &mut page, Lsn(1), &record),
        Err(WalRedoError::InvalidRecord)
    );
    assert_eq!(page, vec![0xffu8; BLCKSZ]);

    // A multixact offset of another page is refused before any edit.
    let offsets_key = Key { field1: 1, field2: 2, field3: 0, field4: 0, field5: 0, field6: 0 };
    let record = NeonWalRecord::MultixactOffsetCreate { mid: 2048, moff: 7 };
    let mut page = zero_page();
    assert_eq!(
        PostgresRedoManager::apply_record_neon(offsets_key, &mut page, Lsn(1), &record),
        Err(WalRedoError::InvalidRecord)
    );
    assert_eq!(page, zero_page());
}

#[test]
fn native_replay_clears_visibility_map_flags() {
    let mut page = vec![0xffu8; BLCKSZ];
    // Heap block 5: byte 1 of the map, bits 2 and 3.
    let record = NeonWalRecord::ClearVisibilityMapFlags {
        new_heap_blkno: Some(5),
        old_heap_blkno: Some(32672 - 1),
        flags: 0x03,
    };
    PostgresRedoManager::apply_record_neon(rel_key(2, 0), &mut page, Lsn(1), &record).unwrap();
    assert_eq!(page[24 + 1], 0xff & !(0x03 << 2));
    // The last heap block of the map page: the last byte, bits 6 and 7.
    assert_eq!(page[24 + 8167], 0xff & !(0x03u8 << 6));
    assert_eq!(page[24], 0xff);
    assert_eq!(page.len(), BLCKSZ);
    // Heap block 32672 belongs to map block 1.
    let record = NeonWalRecord::ClearVisibilityMapFlags {
        new_heap_blkno: Some(32672),
        old_heap_blkno: None,
        flags: 0x01,
    };
    assert_eq!(
        PostgresRedoManager::apply_record_neon(rel_key(2, 0), &mut page, Lsn(1), &record),
        Err(WalRedoError::InvalidRecord)
    );
    PostgresRedoManager::apply_record_neon(rel_key(2, 1), &mut page, Lsn(1), &record).unwrap();
    assert_eq!(page[24], 0xfe);
}

#[test]
fn native_replay_writes_a_multixact_offset() {
    let mut page = zero_page();
    let key = Key { field1: 1, field2: 2, field3: 0, field4: 0, field5: 0, field6: 1 };
    // Multixact 2048 + 3 is entry 3 of page 1.
    let record = NeonWalRecord::MultixactOffsetCreate { mid: 2051, moff: 0x0a0b_0c0d };
    PostgresRedoManager::apply_record_neon(key, &mut page, Lsn(1), &record).unwrap();
    assert_eq!(&page[12..16], &[0x0d, 0x0c, 0x0b, 0x0a]);
    assert_eq!(page.iter().filter(|b| **b != 0).count(), 4);
    let wrong = Key { field6: 0, ..key };
    assert_eq!(
        PostgresRedoManager::apply_record_neon(wrong, &mut page, Lsn(1), &record),
        Err(WalRedoError::InvalidRecord)
    );
}

#[test]
fn native_replay_writes_multixact_members() {
    let mut page = zero_page();
    let key = Key { field1: 1, field2: 1, field3: 0, field4: 0, field5: 0, field6: 0 };
    let members = vec![
        MultiXactMember { xid: 0x1111_2222, status: 0x05 },
        MultiXactMember { xid: 0x3333_4444, status: 0x02 },
        MultiXactMember { xid: 0x5555_6666, status: 0x01 },
    ];
    // Members 6, 7 and 8: the last two of group 1 and the first of group 2.
    let record = NeonWalRecord::MultixactMembersCreate { moff: 6, members };
    PostgresRedoManager::apply_record_neon(key, &mut page, Lsn(1), &record).unwrap();
    // Group 1 starts at byte 20: four flag bytes, then four transaction ids.
    assert_eq!(&page[20..24], &[0, 0, 0x05, 0x02]);
    assert_eq!(&page[24 + 8..24 + 12], &0x1111_2222u32.to_le_bytes());
    assert_eq!(&page[24 + 12..24 + 16], &0x3333_4444u32.to_le_bytes());
    // Group 2 starts at byte 40.
    assert_eq!(&page[40..44], &[0x01, 0, 0, 0]);
    assert_eq!(&page[44..48], &0x5555_6666u32.to_le_bytes());
    // Flags that are there already are replaced, their neighbours kept.
    let again = NeonWalRecord::MultixactMembersCreate {
        moff: 7,
        members: vec![MultiXactMember { xid: 9, status: 0x07 }],
    };
    PostgresRedoManager::apply_record_neon(key, &mut page, Lsn(2), &again).unwrap();
    assert_eq!(&page[20..24], &[0, 0, 0x05, 0x07]);
    assert_eq!(&page[24 + 12..24 + 16], &9u32.to_le_bytes());
}

#[test]
fn native_replay_refuses_members_beyond_the_page_or_the_counter() {
    let key = Key { field1: 1, field2: 1, field3: 0, field4: 0, field5: 0, field6: 0 };
    let two = vec![MultiXactMember { xid: 1, status: 1 }, MultiXactMember { xid: 2, status: 1 }];
    // Member 1636 is the first of page 1.
    let mut page = zero_page();
    let record = NeonWalRecord::MultixactMembersCreate { moff: 1635, members: two.clone() };
    assert_eq!(
        PostgresRedoManager::apply_record_neon(key, &mut page, Lsn(1), &record),
        Err(WalRedoError::InvalidRecord)
    );
    // The member before it was recorded all the same, and nothing else.
    let mut expected = zero_page();
    expected[408 * 20 + 3] = 1;
    expected[408 * 20 + 4 + 12] = 1;
    assert_eq!(page, expected);
    let mut page = zero_page();
    let record = NeonWalRecord::MultixactMembersCreate { moff: u32::MAX, members: two };
    let last_page = u32::MAX / 1636;
    let key = Key { field4: last_page / 32, field6: last_page % 32, ..key };
    assert_eq!(
        PostgresRedoManager::apply_record_neon(key, &mut page, Lsn(1), &record),
        Err(WalRedoError::InvalidRecord)
    );
}

#[test]
fn batch_of_native_records_needs_a_base_image() {
    let records = vec![(Lsn(1), NeonWalRecord::ClogSetAborted { xids: vec![3] })];
    assert_eq!(
        apply_batch_neon(clog_key(0, 0), Lsn(1), None, &records),
        Err(WalRedoError::InvalidRequest)
    );
    assert_eq!(
        apply_batch_neon(clog_key(0, 0), Lsn(1), Some(vec![0u8; 100]), &records),
        Err(WalRedoError::InvalidRequest)
    );
    let page = apply_batch_neon(clog_key(0, 0), Lsn(1), Some(zero_page()), &records).unwrap();
    assert_eq!(page[0], TRANSACTION_STATUS_ABORTED << 6);
}

#[test]
fn request_without_records_is_invalid() {
    let (request, step) =
        manager().request_redo(clog_key(0, 0), Lsn(5), Some((Lsn(1), zero_page())), vec![], 14);
    assert!(matches!(step, RedoStep::Done(Err(WalRedoError::InvalidRequest))));
    assert!(request.waits_for().is_none());
}

#[test]
fn request_of_native_records_ends_without_the_worker() {
    let records = vec![
        (Lsn(2), NeonWalRecord::ClogSetCommitted { xids: vec![1], timestamp: 5 }),
        (Lsn(3), NeonWalRecord::ClogSetAborted { xids: vec![2] }),
    ];
    let (request, step) =
        manager().request_redo(clog_key(0, 0), Lsn(3), Some((Lsn(1), zero_page())), records, 15);
    let page = match step {
        RedoStep::Done(r) => r.unwrap(),
        other => panic!("unexpected step {:?}", other),
    };
    assert_eq!(page[0], (1 << 2) | (2 << 4));
    assert_eq!(page.len(), BLCKSZ + 8);
    assert_eq!(request.base_img_lsn(), Lsn(1));
    assert_eq!(request.lsn(), Lsn(3));
    assert_eq!(request.pg_version(), 15);
    assert_eq!(request.key(), clog_key(0, 0));
    assert_eq!(request.records().len(), 2);
}

#[test]
fn request_without_base_image_remembers_the_invalid_position() {
    let (request, step) = manager().request_redo(
        rel_key(0, 3),
        Lsn(9),
        None,
        vec![(Lsn(9), postgres_record(b"x"))],
        14,
    );
    assert_eq!(request.base_img_lsn(), Lsn::invalid());
    assert!(!request.base_img_lsn().is_valid());
    assert!(matches!(step, RedoStep::Postgres { start: 0, end: 1, .. }));
    assert!(request.img().is_none());
}

#[test]
fn mixed_request_is_split_into_runs() {
    // Runs: worker [0, 2), native [2, 3), worker [3, 4).
    let key = Key { field1: 0, field2: 1663, field3: 1, field4: 2, field5: 2, field6: 0 };
    let records = vec![
        (Lsn(10), postgres_record(b"one")),
        (Lsn(11), postgres_record(b"two")),
        (
            Lsn(12),
            NeonWalRecord::ClearVisibilityMapFlags {
                new_heap_blkno: Some(0),
                old_heap_blkno: None,
                flags: 0x0f,
            },
        ),
        (Lsn(13), postgres_record(b"three")),
    ];
    assert_eq!(find_run_end(&records, 0), 2);
    assert_eq!(find_run_end(&records, 1), 2);
    assert_eq!(find_run_end(&records, 2), 3);
    assert_eq!(find_run_end(&records, 3), 4);
    let (mut request, step) = manager().request_redo(key, Lsn(13), None, records, 14);
    let tag = BufferTag {
        rel: RelTag { forknum: 2, spcnode: 1663, dbnode: 1, relnode: 2 },
        blknum: 0,
    };
    match step {
        RedoStep::Postgres { tag: t, start, end } => {
            assert_eq!((t, start, end), (tag, 0, 2));
        }
        other => panic!("unexpected step {:?}", other),
    }
    // No base image: the request for the worker holds no page.
    let bytes = request.worker_request().unwrap();
    assert_eq!(bytes.len(), 22 + (13 + 3) + (13 + 3) + 22);
    // The worker answers; the native run is replayed on its page, and the
    // last run goes to the worker again, now with a base image.
    let step = request.resume(Ok(vec![0xffu8; BLCKSZ]));
    match step {
        RedoStep::Postgres { tag: t, start, end } => {
            assert_eq!((t, start, end), (tag, 3, 4));
        }
        other => panic!("unexpected step {:?}", other),
    }
    let img = request.img().clone().unwrap();
    assert_eq!(img[24], 0xf0);
    assert_eq!(img[25], 0xff);
    let bytes = request.worker_request().unwrap();
    assert_eq!(bytes.len(), 22 + (22 + BLCKSZ) + (13 + 5) + 22);
    assert_eq!(&bytes[22 + 22..22 + 22 + BLCKSZ], &img[..]);
    // The page of the last run is the result.
    match request.resume(Ok(vec![0x11u8; BLCKSZ])) {
        RedoStep::Done(Ok(page)) => assert_eq!(page, vec![0x11u8; BLCKSZ]),
        other => panic!("unexpected step {:?}", other),
    }
    assert!(request.waits_for().is_none());
}

#[test]
fn native_run_first_then_worker() {
    let key = Key { field1: 0, field2: 1663, field3: 1, field4: 2, field5: 2, field6: 0 };
    let records = vec![
        (
            Lsn(12),
            NeonWalRecord::ClearVisibilityMapFlags {
                new_heap_blkno: None,
                old_heap_blkno: Some(1),
                flags: 0x03,
            },
        ),
        (Lsn(13), postgres_record(b"three")),
    ];
    let (mut request, step) = manager().request_redo(
        key,
        Lsn(13),
        Some((Lsn(4), vec![0xffu8; BLCKSZ])),
        records,
        14,
    );
    assert!(matches!(step, RedoStep::Postgres { start: 1, end: 2, .. }));
    assert_eq!(request.img().as_ref().unwrap()[24], 0xf3);
    assert_eq!(request.base_img_lsn(), Lsn(4));
    // An error of the worker ends the request.
    let broken = WalRedoError::IoError(RedoIoError::StdoutClosed);
    assert!(matches!(request.resume(Err(broken)), RedoStep::Done(Err(e)) if e == broken));
}

#[test]
fn native_run_without_base_image_is_invalid() {
    let records = vec![(Lsn(2), NeonWalRecord::ClogSetAborted { xids: vec![2] })];
    let (_, step) = manager().request_redo(clog_key(0, 0), Lsn(3), None, records, 14);
    assert!(matches!(step, RedoStep::Done(Err(WalRedoError::InvalidRequest))));
}

#[test]
fn worker_run_needs_the_key_of_a_relation_block() {
    let (_, step) = manager().request_redo(
        clog_key(0, 0),
        Lsn(3),
        None,
        vec![(Lsn(2), postgres_record(b"r"))],
        14,
    );
    assert!(matches!(step, RedoStep::Done(Err(WalRedoError::InvalidRecord))));
}

#[test]
fn flavor_of_records() {
    assert!(!can_apply_in_neon(&postgres_record(b"")));
    assert!(can_apply_in_neon(&NeonWalRecord::ClogSetAborted { xids: vec![] }));
    assert!(can_apply_in_neon(&NeonWalRecord::ClogSetCommitted { xids: vec![], timestamp: 0 }));
    assert!(can_apply_in_neon(&NeonWalRecord::MultixactOffsetCreate { mid: 0, moff: 0 }));
    assert!(can_apply_in_neon(&NeonWalRecord::MultixactMembersCreate {
        moff: 0,
        members: vec![]
    }));
    assert!(can_apply_in_neon(&NeonWalRecord::ClearVisibilityMapFlags {
        new_heap_blkno: None,
        old_heap_blkno: None,
        flags: 0
    }));
}

#[test]
fn keys_decode_to_blocks() {
    assert_eq!(
        key_to_rel_block(rel_key(2, 77)),
        Some((RelTag { forknum: 2, spcnode: 1663, dbnode: 13010, relnode: 1259 }, 77))
    );
    assert_eq!(key_to_rel_block(clog_key(1, 2)), None);
    assert_eq!(key_to_slru_block(clog_key(1, 2)), Some((SlruKind::Clog, 1, 2)));
    let members = Key { field1: 1, field2: 1, field3: 0, field4: 3, field5: 0, field6: 4 };
    assert_eq!(key_to_slru_block(members), Some((SlruKind::MultiXactMembers, 3, 4)));
    let offsets = Key { field2: 2, ..members };
    assert_eq!(key_to_slru_block(offsets), Some((SlruKind::MultiXactOffsets, 3, 4)));
    assert_eq!(key_to_slru_block(Key { field2: 3, ..members }), None);
    assert_eq!(key_to_slru_block(rel_key(0, 0)), None);
}

fn sample_tag() -> BufferTag {
    BufferTag {
        rel: RelTag { forknum: 0x01, spcnode: 0x0203_0405, dbnode: 0x0607_0809, relnode: 0x0a0b_0c0d },
        blknum: 0x0e0f_1011,
    }
}

const TAG_BYTES: [u8; 17] = [
    0x01, 0x02, 0x03, 0x04, 0x05, 0x06, 0x07, 0x08, 0x09, 0x0a, 0x0b, 0x0c, 0x0d, 0x0e, 0x0f, 0x10,
    0x11,
];

#[test]
fn buffer_tag_on_the_wire() {
    let mut buf = vec![0xee];
    ser_buffer_tag(sample_tag(), &mut buf);
    assert_eq!(buf[0], 0xee);
    assert_eq!(&buf[1..], &TAG_BYTES);
}

#[test]
fn begin_redo_message() {
    let mut buf = Vec::new();
    build_begin_redo_for_block_msg(sample_tag(), &mut buf);
    let mut expected = vec![b'B', 21, 0, 0, 0];
    expected.extend_from_slice(&TAG_BYTES);
    assert_eq!(buf, expected);
}

#[test]
fn get_page_message() {
    let mut buf = vec![1, 2];
    build_get_page_msg(sample_tag(), &mut buf);
    let mut expected = vec![1, 2, b'G', 21, 0, 0, 0];
    expected.extend_from_slice(&TAG_BYTES);
    assert_eq!(buf, expected);
}

#[test]
fn push_page_message() {
    let page: Vec<u8> = (0..BLCKSZ).map(|i| (i % 251) as u8).collect();
    let mut buf = Vec::new();
    build_push_page_msg(sample_tag(), &page, &mut buf);
    // 4 + 17 + 8192 = 8213 = 0x2015
    let mut expected = vec![b'P', 0x15, 0x20, 0, 0];
    expected.extend_from_slice(&TAG_BYTES);
    expected.extend_from_slice(&page);
    assert_eq!(buf, expected);
}

#[test]
fn apply_record_message() {
    let mut buf = Vec::new();
    build_apply_record_msg(Lsn(0x0102_0304_0506_0708), b"record", &mut buf);
    // 4 + 8 + 6 = 18
    let mut expected = vec![b'A', 18, 0, 0, 0, 1, 2, 3, 4, 5, 6, 7, 8];
    expected.extend_from_slice(b"record");
    assert_eq!(buf, expected);
    // A length that does not fit one byte.
    let long = vec![7u8; 300];
    let mut buf = Vec::new();
    build_apply_record_msg(Lsn(1), &long, &mut buf);
    assert_eq!(&buf[..5], &[b'A', 0x38, 0x01, 0, 0]);
    assert_eq!(buf.len(), 1 + 4 + 8 + 300);
}

#[test]
fn whole_request_for_the_worker() {
    let page = zero_page();
    let records = vec![(Lsn(2), postgres_record(b"ab")), (Lsn(3), postgres_record(b"c"))];
    let bytes = build_redo_request(sample_tag(), &Some(page.clone()), &records).unwrap();
    let mut expected = Vec::new();
    build_begin_redo_for_block_msg(sample_tag(), &mut expected);
    build_push_page_msg(sample_tag(), &page, &mut expected);
    build_apply_record_msg(Lsn(2), b"ab", &mut expected);
    build_apply_record_msg(Lsn(3), b"c", &mut expected);
    build_get_page_msg(sample_tag(), &mut expected);
    assert_eq!(bytes, expected);
    assert_eq!(bytes[0], b'B');
    assert_eq!(bytes[22], b'P');
    assert_eq!(bytes[22 + 22 + BLCKSZ], b'A');
    assert_eq!(bytes[bytes.len() - 22], b'G');
}

#[test]
fn request_for_the_worker_is_refused() {
    let records = vec![
        (Lsn(2), postgres_record(b"ab")),
        (Lsn(3), NeonWalRecord::ClogSetAborted { xids: vec![1] }),
    ];
    assert_eq!(
        build_redo_request(sample_tag(), &None, &records),
        Err(WalRedoError::IoError(RedoIoError::NeonRecordForPostgres))
    );
    // A base image of the wrong size is looked at first.
    assert_eq!(
        build_redo_request(sample_tag(), &Some(vec![0u8; 8191]), &records),
        Err(WalRedoError::InvalidRequest)
    );
    assert_eq!(
        build_redo_request(sample_tag(), &Some(vec![0u8; 8200]), &records[..1]),
        Err(WalRedoError::InvalidRequest)
    );
}

#[test]
fn classes_of_io_errors() {
    assert_eq!(RedoIoError::StdoutClosed.kind(), IoErrorKind::BrokenPipe);
    assert_eq!(RedoIoError::StdinClosed.kind(), IoErrorKind::BrokenPipe);
    assert_eq!(RedoIoError::StderrClosed.kind(), IoErrorKind::BrokenPipe);
    assert_eq!(RedoIoError::TimedOut.kind(), IoErrorKind::Other);
    assert_eq!(RedoIoError::NeonRecordForPostgres.kind(), IoErrorKind::Other);
    assert_eq!(RedoIoError::Os(5).kind(), IoErrorKind::Other);
}

#[test]
fn retry_once_after_a_failed_attempt() {
    assert_eq!(MAX_RETRY_ATTEMPTS, 1);
    assert_eq!(after_attempt(0, true), AfterAttempt::Return);
    assert_eq!(after_attempt(0, false), AfterAttempt::KillAndRetry);
    assert_eq!(after_attempt(1, true), AfterAttempt::Return);
    assert_eq!(after_attempt(1, false), AfterAttempt::KillAndReturn);
    assert_eq!(after_attempt(u32::MAX, false), AfterAttempt::KillAndReturn);
}

const QUIET: PollEvents =
    PollEvents { readable: false, writable: false, error: false, hangup: false };

#[test]
fn verdict_after_poll() {
    assert_eq!(poll_verdict(PollResult::Interrupted), PollVerdict::Again);
    assert_eq!(poll_verdict(PollResult::Failed(9)), PollVerdict::Fail(RedoIoError::Os(9)));
    assert_eq!(poll_verdict(PollResult::Ready(0)), PollVerdict::Fail(RedoIoError::TimedOut));
    assert_eq!(poll_verdict(PollResult::Ready(1)), PollVerdict::Proceed);
    assert_eq!(poll_verdict(PollResult::Ready(2)), PollVerdict::Proceed);
}

#[test]
fn actions_on_pipes() {
    let readable = PollEvents { readable: true, ..QUIET };
    let writable = PollEvents { writable: true, ..QUIET };
    let error = PollEvents { error: true, ..QUIET };
    let hangup = PollEvents { hangup: true, ..QUIET };
    let last_words = PollEvents { readable: true, hangup: true, ..QUIET };
    assert_eq!(stderr_action(readable), PipeAction::Transfer);
    assert_eq!(stderr_action(error), PipeAction::Transfer);
    assert_eq!(stderr_action(last_words), PipeAction::Transfer);
    assert_eq!(stderr_action(hangup), PipeAction::Fail(RedoIoError::StderrClosed));
    assert_eq!(stderr_action(QUIET), PipeAction::Skip);
    assert_eq!(stderr_action(writable), PipeAction::Skip);
    assert_eq!(stdout_action(readable), PipeAction::Transfer);
    assert_eq!(stdout_action(hangup), PipeAction::Fail(RedoIoError::StdoutClosed));
    assert_eq!(stdout_action(QUIET), PipeAction::Skip);
    assert_eq!(write_action(writable), PipeAction::Transfer);
    assert_eq!(write_action(error), PipeAction::Transfer);
    assert_eq!(write_action(hangup), PipeAction::Fail(RedoIoError::StdinClosed));
    assert_eq!(write_action(readable), PipeAction::Skip);
    assert!(keep_draining_stderr(1));
    assert!(!keep_draining_stderr(0));
}

#[test]
fn timeout_for_poll() {
    assert_eq!(poll_timeout(0), 0);
    assert_eq!(poll_timeout(60_000), 60_000);
    assert_eq!(poll_timeout(i32::MAX as u128), i32::MAX);
    assert_eq!(poll_timeout((1u128 << 32) + 5), 5);
    assert_eq!(poll_timeout(u32::MAX as u128), -1);
}

#[test]
fn progress_of_a_write() {
    let mut progress = TransferProgress::new(10);
    assert_eq!(progress.moved(), 0);
    assert!(!progress.is_done());
    progress.advance(4);
    assert_eq!(progress.moved(), 4);
    progress.advance(0);
    progress.advance(6);
    assert!(progress.is_done());
    assert!(TransferProgress::new(0).is_done());
}

#[test]
fn requests_are_numbered_in_order() {
    let mut input = ProcessInput::new(11, 12);
    assert_eq!(input.stdout_fd(), 11);
    assert_eq!(input.stderr_fd(), 12);
    assert_eq!(input.n_requests(), 0);
    assert_eq!(input.next_request_no(), 0);
    assert_eq!(input.next_request_no(), 1);
    assert_eq!(input.next_request_no(), 2);
    assert_eq!(input.n_requests(), 3);
    assert_eq!(input.stdout_fd(), 11);
}

fn page_of(byte: u8) -> Vec<u8> {
    vec![byte; BLCKSZ]
}

#[test]
fn responses_reach_their_requests_in_any_order_of_taking() {
    // Two requesters: the one that asked second gets to the output first.
    let mut output = ProcessOutput::new(5);
    assert!(output.needs_response(0));
    assert!(!output.has_response(0));
    // It waits for request 1, so it reads responses 0 and 1.
    assert!(output.needs_response(1));
    output.push_response(page_of(0xa0));
    assert!(output.needs_response(1));
    assert!(!output.needs_response(0));
    output.push_response(page_of(0xa1));
    assert!(!output.needs_response(1));
    assert!(output.has_response(0) && output.has_response(1));
    assert_eq!(output.take_response(1), page_of(0xa1));
    assert!(!output.has_response(1));
    assert!(output.has_response(0));
    // The first requester finds its response waiting.
    assert!(!output.needs_response(0));
    assert_eq!(output.take_response(0), page_of(0xa0));
    assert!(!output.has_response(0));
    // A third request reads exactly one more response.
    assert!(output.needs_response(2));
    output.push_response(page_of(0xa2));
    assert!(!output.needs_response(2));
    assert!(output.needs_response(3));
    assert_eq!(output.take_response(2), page_of(0xa2));
    assert!(!output.has_response(2));
    assert!(!output.has_response(1));
}

#[test]
fn taken_responses_leave_the_front_of_the_buffer() {
    let mut output = ProcessOutput::new(5);
    assert_eq!((output.n_processed_responses(), output.n_pending_responses()), (0, 0));
    for byte in 0..4u8 {
        output.push_response(page_of(byte));
    }
    assert_eq!((output.n_processed_responses(), output.n_pending_responses()), (0, 4));
    // Taken from the middle, a response leaves its slot behind.
    assert_eq!(output.take_response(1).len(), BLCKSZ);
    assert_eq!((output.n_processed_responses(), output.n_pending_responses()), (0, 4));
    assert!(output.has_response(0));
    // Taken from the front, it takes the emptied slots behind it along.
    assert_eq!(output.take_response(0), page_of(0));
    assert_eq!((output.n_processed_responses(), output.n_pending_responses()), (2, 2));
    assert!(output.has_response(2));
    assert_eq!(output.take_response(3), page_of(3));
    assert_eq!((output.n_processed_responses(), output.n_pending_responses()), (2, 2));
    assert!(output.has_response(2));
    // Once every response is taken the buffer is empty.
    assert_eq!(output.take_response(2), page_of(2));
    assert_eq!((output.n_processed_responses(), output.n_pending_responses()), (4, 0));
    assert!(output.needs_response(4));
    output.push_response(page_of(4));
    assert_eq!((output.n_processed_responses(), output.n_pending_responses()), (4, 1));
    assert_eq!(output.take_response(4), page_of(4));
    assert_eq!((output.n_processed_responses(), output.n_pending_responses()), (5, 0));
}

#[test]
fn every_request_gets_its_own_response() {
    // Eight requests from several requesters, taken in a scrambled order.
    let mut input = ProcessInput::new(3, 4);
    let mut output = ProcessOutput::new(3);
    let numbers: Vec<usize> = (0..8).map(|_| input.next_request_no()).collect();
    assert_eq!(numbers, vec![0, 1, 2, 3, 4, 5, 6, 7]);
    let mut next_from_worker = 0u8;
    for &n in &[3usize, 0, 1, 7, 2, 6, 5, 4] {
        assert!(output.check_same_process(input.stdout_fd()).is_ok());
        while output.needs_response(n) {
            output.push_response(page_of(next_from_worker));
            next_from_worker += 1;
        }
        assert!(output.has_response(n));
        assert_eq!(output.take_response(n), page_of(n as u8));
        assert!(!output.has_response(n));
    }
    assert_eq!(next_from_worker, 8);
    for n in 0..9 {
        assert!(!output.has_response(n));
    }
    assert_eq!(output.n_processed_responses(), input.n_requests());
    assert_eq!(output.n_pending_responses(), 0);
}

#[test]
fn response_of_a_replaced_worker_is_lost() {
    // A request is written to the worker whose output is descriptor 5.
    let (mut input, output) = publish_launched(5, 6);
    let stdout_fd = input.stdout_fd();
    let request_no = input.next_request_no();
    assert_eq!(request_no, 0);
    assert_eq!(output.stdout_fd(), 5);
    assert_eq!(output.check_same_process(stdout_fd), Ok(()));
    // The worker is killed and a new one launched while the pipes of the
    // old one are still open, so the new output has another descriptor.
    let (mut new_input, mut new_output) = publish_launched(8, 9);
    let lost = new_output.check_same_process(stdout_fd);
    assert_eq!(lost, Err(RedoIoError::StdoutClosed));
    assert_eq!(lost.unwrap_err().kind(), IoErrorKind::BrokenPipe);
    // The next request goes to the new worker and is answered.
    let stdout_fd = new_input.stdout_fd();
    let request_no = new_input.next_request_no();
    assert_eq!(request_no, 0);
    assert_eq!(new_output.check_same_process(stdout_fd), Ok(()));
    assert!(new_output.needs_response(request_no));
    new_output.push_response(page_of(1));
    assert_eq!(new_output.take_response(request_no), page_of(1));
}

#[test]
fn coordinator_keeps_its_configuration() {
    let m = PostgresRedoManager::new(1234, TenantId(99));
    assert_eq!(m.tenant_id(), TenantId(99));
    assert_eq!(m.wal_redo_timeout_millis(), 1234);
}

const REC1: &[u8] = b"j\x03\0\0\0\x04\0\0\xe8\x7fj\x01\0\0\0\0\0\n\0\0\xd0\x16\x13Y\0\x10\0\04\x03\xd4\0\x05\x7f\x06\0\0\xd22\0\0\xeb\x04\0\0\0\0\0\0\xff\x03\0\0\0\0\x80\xeca\x01\0\0\x01\0\xd4\0\xa0\x1d\0 \x04 \0\0\0\0/\0\x01\0\xa0\x9dX\x01\0\0\0\0\0\0\0\0\0\0\0\0\0\0\0\0\0\0\0\0\0\0\0\0\0\0\0\0\0\0\0\0\0\0\0\0\0\0\0\0\0\0\0\0\0\0\0\0\0\0\0\0\0\0\0\0\0\0\0\0\0\0\0\0.\0\x01\0\0\0\0\0\0\0\0\0\0\0\0\0\0\0\0\0\0\0\0\0\0\0\0\0\0\0\0\0\0\0\0\0\0\0\0\0\0\0\0\0\0\0\0\0\0\0\0\0\0\0\0\0\0\0\0\0\0\0\0\0\0\0\0\0\0\0\0\0\0\0\0\0\0\0\0\0\0\0\0\0\0\0\0\0\0\0\0\0\0\0\0\0\0\0\0\0\0\0\0\0\0\0\0\00\x9f\x9a\x01P\x9e\xb2\x01\0\x04\0\0\0\0\0\0\0\0\0\0\0\0\0\0\x02\0!\0\x01\x08 \xff\xff\xff?\0\0\0\0\0\0@\0\0another_table\0\0\0\0\0\0\0\0\0\0\0\0\0\0\0\0\0\0\0\0\0\0\0\0\0\0\0\0\0\0\0\0\0\0\0\0\0\0\0\0\0\0\0\0\0\0\0\0\0\0\0\x98\x08\0\0\x02@\0\0\0\0\0\0\n\0\0\0\x02\0\0\0\0@\0\0\0\0\0\0\0\0\0\0\0\0\x80\xbf\0\0\0\0\0\0\0\0\0\0pr\x01\0\0\0\0\0\0\0\0\x01d\0\0\0\0\0\0\x04\0\0\x01\0\0\0\0\0\0\0\x0c\x02\0\0\0\0\0\0\0\0\0\0\0\0\0\0/\0!\x80\x03+ \xff\xff\xff\x7f\0\0\0\0\0\xdf\x04\0\0pg_type\0\0\0\0\0\0\0\0\0\0\0\0\0\0\0\0\0\0\0\0\0\0\0\0\0\0\0\0\0\0\0\0\0\0\0\0\0\0\0\0\0\0\0\0\0\0\0\0\0\0\0\0\0\0\0\0\0\x0b\0\0\0G\0\0\0\0\0\0\0\n\0\0\0\x02\0\0\0\0\0\0\0\0\0\0\0\x0e\0\0\0\0@\x16D\x0e\0\0\0K\x10\0\0\x01\0pr \0\0\0\0\0\0\0\0\x01n\0\0\0\0\0\xd6\x02\0\0\x01\0\0\0[\x01\0\0\0\0\0\0\0\t\x04\0\0\x02\0\0\0\x01\0\0\0\n\0\0\0\n\0\0\0\x7f\0\0\0\0\0\0\0\n\0\0\0\x02\0\0\0\0\0\0C\x01\0\0\x15\x01\0\0\0\0\0\0\0\0\0\0\0\0\0\0.\0!\x80\x03+ \xff\xff\xff\x7f\0\0\0\0\0;\n\0\0pg_statistic\0\0\0\0\0\0\0\0\0\0\0\0\0\0\0\0\0\0\0\0\0\0\0\0\0\0\0\0\0\0\0\0\0\0\0\0\0\0\0\0\0\0\0\0\0\0\0\0\0\0\0\0\x0b\0\0\0\xfd.\0\0\0\0\0\0\n\0\0\0\x02\0\0\0;\n\0\0\0\0\0\0\x13\0\0\0\0\0\xcbC\x13\0\0\0\x18\x0b\0\0\x01\0pr\x1f\0\0\0\0\0\0\0\0\x01n\0\0\0\0\0\xd6\x02\0\0\x01\0\0\0C\x01\0\0\0\0\0\0\0\t\x04\0\0\x01\0\0\0\x01\0\0\0\n\0\0\0\n\0\0\0\x7f\0\0\0\0\0\0\x02\0\x01";

const REC2: &[u8] = b"\xbc\0\0\0\0\0\0\0h?m\x01\0\0\0\0p\n\0\09\x08\xa3\xea\0 \x8c\0\x7f\x06\0\0\xd22\0\0\xeb\x04\0\0\0\0\0\0\xff\x02\0@\0\0another_table\0\0\0\0\0\0\0\0\0\0\0\0\0\0\0\0\0\0\0\0\0\0\0\0\0\0\0\0\0\0\0\0\0\0\0\0\0\0\0\0\0\0\0\0\0\0\0\0\0\0\0\x98\x08\0\0\x02@\0\0\0\0\0\0\n\0\0\0\x02\0\0\0\0@\0\0\0\0\0\0\x05\0\0\0\0@zD\x05\0\0\0\0\0\0\0\0\0pr\x01\0\0\0\0\0\0\0\0\x01d\0\0\0\0\0\0\x04\0\0\x01\0\0\0\x02\0";

#[test]
fn how_the_worker_is_started() {
    assert_eq!(WAL_REDO_PROGRAM, "postgres");
    assert_eq!(WAL_REDO_FLAG, "--wal-redo");
    assert_eq!(FIRST_FD_TO_CLOSE, 3);
    assert_eq!(library_path_variables(), ["LD_LIBRARY_PATH", "DYLD_LIBRARY_PATH"]);
    assert_eq!(pg_distrib_subdir(14), Some("v14"));
    assert_eq!(pg_distrib_subdir(15), Some("v15"));
    assert_eq!(pg_distrib_subdir(13), None);
    assert_eq!(pg_distrib_subdir(0), None);
}
