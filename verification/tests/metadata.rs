//! Timeline metadata and its form in bytes.

use pageserver::id::TimelineId;
use pageserver::lsn::Lsn;
use pageserver::metadata::{
    crc32c, MetadataError, TimelineMetadata, METADATA_FORMAT_VERSION, METADATA_MAX_SIZE,
    METADATA_USED_SIZE,
};

fn sample() -> TimelineMetadata {
    TimelineMetadata::new(
        Lsn(0x0102_0304_0506_0708),
        Some(Lsn(0x1112_1314_1516_1718)),
        Some(TimelineId(0x2122_2324_2526_2728_3132_3334_3536_3738)),
        Lsn(0x41),
        Lsn(0x51),
        Lsn(0x61),
        14,
    )
}

#[test]
fn checksum_of_the_check_string() {
    assert_eq!(crc32c(b"123456789", 0, 9), 0xE306_9283);
    assert_eq!(crc32c(b"", 0, 0), 0);
    assert_eq!(crc32c(b"xx123456789yy", 2, 11), 0xE306_9283);
    assert_eq!(crc32c(&[0u8; 32], 0, 32), 0x8A91_36AA);
}

#[test]
fn metadata_in_bytes() {
    let bytes = sample().to_bytes();
    assert_eq!(bytes.len(), METADATA_MAX_SIZE);
    assert_eq!(METADATA_MAX_SIZE, 512);
    assert_eq!(METADATA_USED_SIZE, 70);
    assert_eq!(METADATA_FORMAT_VERSION, 4);
    // count of bytes in use, version
    assert_eq!(&bytes[4..8], &[0, 70, 0, 4]);
    assert_eq!(&bytes[8..16], &[1, 2, 3, 4, 5, 6, 7, 8]);
    assert_eq!(bytes[16], 1);
    assert_eq!(&bytes[17..25], &[0x11, 0x12, 0x13, 0x14, 0x15, 0x16, 0x17, 0x18]);
    assert_eq!(bytes[25], 1);
    assert_eq!(
        &bytes[26..42],
        &[
            0x21, 0x22, 0x23, 0x24, 0x25, 0x26, 0x27, 0x28, 0x31, 0x32, 0x33, 0x34, 0x35, 0x36,
            0x37, 0x38
        ]
    );
    assert_eq!(&bytes[42..50], &[0, 0, 0, 0, 0, 0, 0, 0x41]);
    assert_eq!(&bytes[50..58], &[0, 0, 0, 0, 0, 0, 0, 0x51]);
    assert_eq!(&bytes[58..66], &[0, 0, 0, 0, 0, 0, 0, 0x61]);
    assert_eq!(&bytes[66..70], &[0, 0, 0, 14]);
    assert!(bytes[70..].iter().all(|b| *b == 0));
    assert_eq!(&bytes[0..4], &crc32c(&bytes, 4, 70).to_be_bytes());
}

#[test]
fn metadata_reads_back() {
    let metadata = sample();
    let back = TimelineMetadata::from_bytes(&metadata.to_bytes()).unwrap();
    assert_eq!(back, metadata);
    assert_eq!(back.disk_consistent_lsn(), Lsn(0x0102_0304_0506_0708));
    assert_eq!(back.prev_record_lsn(), Some(Lsn(0x1112_1314_1516_1718)));
    assert_eq!(
        back.ancestor_timeline(),
        Some(TimelineId(0x2122_2324_2526_2728_3132_3334_3536_3738))
    );
    assert_eq!(back.ancestor_lsn(), Lsn(0x41));
    assert_eq!(back.latest_gc_cutoff_lsn(), Lsn(0x51));
    assert_eq!(back.initdb_lsn(), Lsn(0x61));
    assert_eq!(back.pg_version(), 14);
    let bare = TimelineMetadata::new(Lsn(u64::MAX), None, None, Lsn(0), Lsn(1), Lsn(2), u32::MAX);
    assert_eq!(TimelineMetadata::from_bytes(&bare.to_bytes()), Ok(bare));
    let bytes = bare.to_bytes();
    assert_eq!(bytes[16], 0);
    assert_eq!(bytes[25], 0);
}

fn with_fresh_checksum(mut bytes: Vec<u8>) -> Vec<u8> {
    let sum = crc32c(&bytes, 4, 70);
    bytes[0..4].copy_from_slice(&sum.to_be_bytes());
    bytes
}

#[test]
fn damaged_metadata_is_refused() {
    let good = sample().to_bytes();
    assert_eq!(TimelineMetadata::from_bytes(&good[..511]), Err(MetadataError::WrongSize));
    assert_eq!(TimelineMetadata::from_bytes(&[]), Err(MetadataError::WrongSize));
    let mut longer = good.clone();
    longer.push(0);
    assert_eq!(TimelineMetadata::from_bytes(&longer), Err(MetadataError::WrongSize));
    for at in [0usize, 3, 4, 8, 40, 69] {
        let mut bad = good.clone();
        bad[at] ^= 0x40;
        assert_eq!(TimelineMetadata::from_bytes(&bad), Err(MetadataError::ChecksumMismatch));
    }
    // The padding is not covered by the checksum.
    let mut padded = good.clone();
    padded[100] = 1;
    assert_eq!(TimelineMetadata::from_bytes(&padded), Ok(sample()));
    let mut other_version = good.clone();
    other_version[7] = 5;
    assert_eq!(
        TimelineMetadata::from_bytes(&with_fresh_checksum(other_version)),
        Err(MetadataError::UnknownFormat)
    );
    let mut other_size = good.clone();
    other_size[5] = 71;
    assert_eq!(
        TimelineMetadata::from_bytes(&with_fresh_checksum(other_size)),
        Err(MetadataError::UnknownFormat)
    );
    let mut bad_tag = good.clone();
    bad_tag[16] = 2;
    assert_eq!(
        TimelineMetadata::from_bytes(&with_fresh_checksum(bad_tag)),
        Err(MetadataError::BadOptionTag)
    );
    let mut bad_tag = good;
    bad_tag[25] = 0xff;
    assert_eq!(
        TimelineMetadata::from_bytes(&with_fresh_checksum(bad_tag)),
        Err(MetadataError::BadOptionTag)
    );
}
