//! The metadata of a timeline and its form in bytes.
//!
//! The bytes are a block of [`METADATA_MAX_SIZE`] bytes: a header with a
//! checksum, the count of the bytes in use and the version of the format;
//! then the fields at fixed places; then zeros. The checksum is CRC-32C over
//! the bytes in use behind the checksum itself. All numbers are written most
//! significant byte first.

use vstd::prelude::*;
use crate::encoding::{
    be_bytes_u32, be_bytes_u64, lemma_be_bytes_u32_round_trip, lemma_be_bytes_u64_round_trip,
    lemma_encoded_lengths,
    put_slice, put_u32, put_u64, put_u8, read_u32_be, read_u64_be, u32_of_be_bytes, u64_of_be_bytes,
};
use crate::id::TimelineId;
use crate::lsn::Lsn;

verus! {

/// Size of the serialized metadata.
pub const METADATA_MAX_SIZE: usize = 512;

/// Bytes in use: header and fields.
pub const METADATA_USED_SIZE: usize = 70;

/// Version of the format.
pub const METADATA_FORMAT_VERSION: u32 = 4;

/// One step of CRC-32C: the register after one bit.
pub open spec fn crc32c_bit(crc: u32) -> u32 {
    if crc & 1 == 1 {
        (crc >> 1) ^ 0x82F6_3B78
    } else {
        crc >> 1
    }
}

/// The CRC-32C register after `n` bits.
pub open spec fn crc32c_bits(crc: u32, n: nat) -> u32
    decreases n,
{
    if n == 0 {
        crc
    } else {
        crc32c_bit(crc32c_bits(crc, (n - 1) as nat))
    }
}

/// The CRC-32C register after one byte.
pub open spec fn crc32c_byte(crc: u32, byte: u8) -> u32 {
    crc32c_bits(crc ^ (byte as u32), 8)
}

/// The CRC-32C register after `bytes`, starting from `crc`.
pub open spec fn crc32c_register(crc: u32, bytes: Seq<u8>) -> u32
    decreases bytes.len(),
{
    if bytes.len() == 0 {
        crc
    } else {
        crc32c_byte(crc32c_register(crc, bytes.drop_last()), bytes.last())
    }
}

/// The CRC-32C checksum of `bytes`.
pub open spec fn spec_crc32c(bytes: Seq<u8>) -> u32 {
    !crc32c_register(0xffff_ffff, bytes)
}

/// Computes the CRC-32C checksum of `bytes[start..end]`.
pub fn crc32c(bytes: &[u8], start: usize, end: usize) -> (r: u32)
    requires
        start <= end <= bytes@.len(),
    ensures
        r == spec_crc32c(bytes@.subrange(start as int, end as int)),
{
    let mut crc: u32 = 0xffff_ffff;
    let mut i: usize = start;
    assert(bytes@.subrange(start as int, start as int) =~= Seq::<u8>::empty());
    while i < end
        invariant
            start <= i <= end <= bytes@.len(),
            crc == crc32c_register(0xffff_ffff, bytes@.subrange(start as int, i as int)),
        decreases end - i,
    {
        proof {
            let next = bytes@.subrange(start as int, i + 1);
            assert(next.drop_last() =~= bytes@.subrange(start as int, i as int));
            assert(next.last() == bytes@[i as int]);
        }
        crc = crc ^ (bytes[i] as u32);
        let mut k: u8 = 0;
        let ghost begin = crc;
        while k < 8
            invariant
                k <= 8,
                crc == crc32c_bits(begin, k as nat),
            decreases 8 - k,
        {
            crc = if crc & 1 == 1 {
                (crc >> 1) ^ 0x82F6_3B78
            } else {
                crc >> 1
            };
            k += 1;
        }
        i += 1;
    }
    !crc
}

/// The metadata of a timeline.
#[derive(Clone, Copy, Debug, PartialEq, Eq)]
pub struct TimelineMetadata {
    /// The position up to which everything is on disk.
    pub disk_consistent_lsn: Lsn,
    /// The position of the record before the last, if known.
    pub prev_record_lsn: Option<Lsn>,
    /// The timeline this one branched off, if any.
    pub ancestor_timeline: Option<TimelineId>,
    /// The position at which this timeline branched off.
    pub ancestor_lsn: Lsn,
    /// The position before which history may have been collected.
    pub latest_gc_cutoff_lsn: Lsn,
    /// The position at which the timeline was initialized.
    pub initdb_lsn: Lsn,
    /// The version of the database that the timeline belongs to.
    pub pg_version: u32,
}

/// Why bytes are not the metadata of a timeline.
#[derive(Clone, Copy, Debug, PartialEq, Eq, Structural)]
pub enum MetadataError {
    /// The block has not the size of serialized metadata.
    WrongSize,
    /// The checksum does not match the bytes.
    ChecksumMismatch,
    /// The header names another count of bytes in use or another version.
    UnknownFormat,
    /// A field that is there or not is marked as neither.
    BadOptionTag,
}

/// The mark and the eight bytes of a position that may be missing.
pub open spec fn option_lsn_bytes(lsn: Option<Lsn>) -> Seq<u8> {
    match lsn {
        Some(l) => seq![1u8] + be_bytes_u64(l.0),
        None => seq![0u8] + be_bytes_u64(0),
    }
}

/// The mark and the sixteen bytes of a timeline that may be missing.
pub open spec fn option_timeline_bytes(id: Option<TimelineId>) -> Seq<u8> {
    match id {
        Some(t) => seq![1u8] + be_bytes_u64((t.0 / 0x1_0000_0000_0000_0000) as u64) + be_bytes_u64(
            (t.0 % 0x1_0000_0000_0000_0000) as u64,
        ),
        None => seq![0u8] + be_bytes_u64(0) + be_bytes_u64(0),
    }
}

/// Appends the mark and the bytes of a position that may be missing.
fn put_option_lsn(buf: &mut Vec<u8>, lsn: Option<Lsn>)
    ensures
        final(buf)@ == old(buf)@ + option_lsn_bytes(lsn),
{
    match lsn {
        Some(l) => {
            put_u8(buf, 1);
            put_u64(buf, l.0);
        },
        None => {
            put_u8(buf, 0);
            put_u64(buf, 0);
        },
    }
    assert(buf@ =~= old(buf)@ + option_lsn_bytes(lsn));
}

/// Appends the mark and the bytes of a timeline that may be missing.
fn put_option_timeline(buf: &mut Vec<u8>, id: Option<TimelineId>)
    ensures
        final(buf)@ == old(buf)@ + option_timeline_bytes(id),
{
    match id {
        Some(t) => {
            put_u8(buf, 1);
            put_u64(buf, (t.0 / 0x1_0000_0000_0000_0000) as u64);
            put_u64(buf, (t.0 % 0x1_0000_0000_0000_0000) as u64);
        },
        None => {
            put_u8(buf, 0);
            put_u64(buf, 0);
            put_u64(buf, 0);
        },
    }
    assert(buf@ =~= old(buf)@ + option_timeline_bytes(id));
}

/// Appends `n` zero bytes.
fn put_zeros(buf: &mut Vec<u8>, n: usize)
    ensures
        final(buf)@ == old(buf)@ + Seq::new(n as nat, |i: int| 0u8),
{
    let mut k: usize = 0;
    assert(buf@ =~= old(buf)@ + Seq::new(0, |i: int| 0u8));
    while k < n
        invariant
            k <= n,
            buf@ == old(buf)@ + Seq::new(k as nat, |i: int| 0u8),
        decreases n - k,
    {
        buf.push(0);
        assert(buf@ =~= old(buf)@ + Seq::new((k + 1) as nat, |i: int| 0u8));
        k += 1;
    }
}

impl TimelineMetadata {
    pub open spec fn spec_disk_consistent_lsn(&self) -> Lsn {
        self.disk_consistent_lsn
    }

    pub open spec fn spec_prev_record_lsn(&self) -> Option<Lsn> {
        self.prev_record_lsn
    }

    pub open spec fn spec_ancestor_timeline(&self) -> Option<TimelineId> {
        self.ancestor_timeline
    }

    pub open spec fn spec_ancestor_lsn(&self) -> Lsn {
        self.ancestor_lsn
    }

    pub open spec fn spec_latest_gc_cutoff_lsn(&self) -> Lsn {
        self.latest_gc_cutoff_lsn
    }

    pub open spec fn spec_initdb_lsn(&self) -> Lsn {
        self.initdb_lsn
    }

    pub open spec fn spec_pg_version(&self) -> u32 {
        self.pg_version
    }

    /// The metadata with these fields.
    pub open spec fn spec_new(
        disk_consistent_lsn: Lsn,
        prev_record_lsn: Option<Lsn>,
        ancestor_timeline: Option<TimelineId>,
        ancestor_lsn: Lsn,
        latest_gc_cutoff_lsn: Lsn,
        initdb_lsn: Lsn,
        pg_version: u32,
    ) -> TimelineMetadata {
        TimelineMetadata {
            disk_consistent_lsn,
            prev_record_lsn,
            ancestor_timeline,
            ancestor_lsn,
            latest_gc_cutoff_lsn,
            initdb_lsn,
            pg_version,
        }
    }

    /// Metadata with these fields.
    pub fn new(
        disk_consistent_lsn: Lsn,
        prev_record_lsn: Option<Lsn>,
        ancestor_timeline: Option<TimelineId>,
        ancestor_lsn: Lsn,
        latest_gc_cutoff_lsn: Lsn,
        initdb_lsn: Lsn,
        pg_version: u32,
    ) -> (r: TimelineMetadata)
        ensures
            r == Self::spec_new(
                disk_consistent_lsn,
                prev_record_lsn,
                ancestor_timeline,
                ancestor_lsn,
                latest_gc_cutoff_lsn,
                initdb_lsn,
                pg_version,
            ),
            r.spec_disk_consistent_lsn() == disk_consistent_lsn,
            r.spec_prev_record_lsn() == prev_record_lsn,
            r.spec_ancestor_timeline() == ancestor_timeline,
            r.spec_ancestor_lsn() == ancestor_lsn,
            r.spec_latest_gc_cutoff_lsn() == latest_gc_cutoff_lsn,
            r.spec_initdb_lsn() == initdb_lsn,
            r.spec_pg_version() == pg_version,
    {
        TimelineMetadata {
            disk_consistent_lsn,
            prev_record_lsn,
            ancestor_timeline,
            ancestor_lsn,
            latest_gc_cutoff_lsn,
            initdb_lsn,
            pg_version,
        }
    }

    /// The position up to which everything is on disk.
    #[verifier::when_used_as_spec(spec_disk_consistent_lsn)]
    pub fn disk_consistent_lsn(&self) -> (r: Lsn)
        ensures
            r == self.spec_disk_consistent_lsn(),
    {
        self.disk_consistent_lsn
    }

    /// The position of the record before the last, if known.
    #[verifier::when_used_as_spec(spec_prev_record_lsn)]
    pub fn prev_record_lsn(&self) -> (r: Option<Lsn>)
        ensures
            r == self.spec_prev_record_lsn(),
    {
        self.prev_record_lsn
    }

    /// The timeline this one branched off, if any.
    #[verifier::when_used_as_spec(spec_ancestor_timeline)]
    pub fn ancestor_timeline(&self) -> (r: Option<TimelineId>)
        ensures
            r == self.spec_ancestor_timeline(),
    {
        self.ancestor_timeline
    }

    /// The position at which this timeline branched off.
    #[verifier::when_used_as_spec(spec_ancestor_lsn)]
    pub fn ancestor_lsn(&self) -> (r: Lsn)
        ensures
            r == self.spec_ancestor_lsn(),
    {
        self.ancestor_lsn
    }

    /// The position before which history may have been collected.
    #[verifier::when_used_as_spec(spec_latest_gc_cutoff_lsn)]
    pub fn latest_gc_cutoff_lsn(&self) -> (r: Lsn)
        ensures
            r == self.spec_latest_gc_cutoff_lsn(),
    {
        self.latest_gc_cutoff_lsn
    }

    /// The position at which the timeline was initialized.
    #[verifier::when_used_as_spec(spec_initdb_lsn)]
    pub fn initdb_lsn(&self) -> (r: Lsn)
        ensures
            r == self.spec_initdb_lsn(),
    {
        self.initdb_lsn
    }

    /// The version of the database that the timeline belongs to.
    #[verifier::when_used_as_spec(spec_pg_version)]
    pub fn pg_version(&self) -> (r: u32)
        ensures
            r == self.spec_pg_version(),
    {
        self.pg_version
    }

    /// The fields in bytes, as they stand behind the header.
    pub open spec fn body_bytes(&self) -> Seq<u8> {
        be_bytes_u64(self.spec_disk_consistent_lsn().0) + option_lsn_bytes(
            self.spec_prev_record_lsn(),
        ) + option_timeline_bytes(self.spec_ancestor_timeline()) + be_bytes_u64(
            self.spec_ancestor_lsn().0,
        ) + be_bytes_u64(self.spec_latest_gc_cutoff_lsn().0) + be_bytes_u64(
            self.spec_initdb_lsn().0,
        ) + be_bytes_u32(self.spec_pg_version())
    }

    /// The bytes over which the checksum is taken: the count of bytes in
    /// use, the version, and the fields.
    pub open spec fn checked_bytes(&self) -> Seq<u8> {
        be_bytes_u32(0x0046_0004) + self.body_bytes()
    }

    /// The serialized metadata: checksum, checked bytes, zeros.
    pub open spec fn spec_to_bytes(&self) -> Seq<u8> {
        be_bytes_u32(spec_crc32c(self.checked_bytes())) + self.checked_bytes() + Seq::new(
            (METADATA_MAX_SIZE - METADATA_USED_SIZE) as nat,
            |i: int| 0u8,
        )
    }

    /// Serializes the metadata: see [`TimelineMetadata::spec_to_bytes`].
    /// What is written reads back as this metadata.
    pub fn to_bytes(&self) -> (r: Vec<u8>)
        ensures
            r@ == self.spec_to_bytes(),
            r@.len() == METADATA_MAX_SIZE,
            Self::spec_from_bytes(r@) == Ok::<TimelineMetadata, MetadataError>(*self),
    {
        let mut body: Vec<u8> = Vec::with_capacity(METADATA_USED_SIZE);
        put_u32(&mut body, 0x0046_0004);
        put_u64(&mut body, self.disk_consistent_lsn.0);
        put_option_lsn(&mut body, self.prev_record_lsn);
        put_option_timeline(&mut body, self.ancestor_timeline);
        put_u64(&mut body, self.ancestor_lsn.0);
        put_u64(&mut body, self.latest_gc_cutoff_lsn.0);
        put_u64(&mut body, self.initdb_lsn.0);
        put_u32(&mut body, self.pg_version);
        assert(body@ =~= self.checked_bytes());
        assert(body@.len() == 66) by {
            lemma_encoded_lengths();
            assert(option_lsn_bytes(self.prev_record_lsn).len() == 9);
            assert(option_timeline_bytes(self.ancestor_timeline).len() == 17);
        }
        let checksum = crc32c(body.as_slice(), 0, body.len());
        assert(body@.subrange(0, body@.len() as int) =~= body@);
        let mut out: Vec<u8> = Vec::with_capacity(METADATA_MAX_SIZE);
        put_u32(&mut out, checksum);
        put_slice(&mut out, body.as_slice());
        put_zeros(&mut out, METADATA_MAX_SIZE - METADATA_USED_SIZE);
        proof {
            lemma_encoded_lengths();
            self.lemma_round_trip();
        }
        out
    }

    /// What the bytes of a serialized block say, or why they say nothing:
    /// the block has its size, the checksum matches, the header names the
    /// format, and each field that may be missing is marked as there or as
    /// missing.
    pub open spec fn spec_from_bytes(bytes: Seq<u8>) -> Result<TimelineMetadata, MetadataError> {
        if bytes.len() != METADATA_MAX_SIZE {
            Err(MetadataError::WrongSize)
        } else if u32_of_be_bytes(bytes.subrange(0, 4)) != spec_crc32c(
            bytes.subrange(4, METADATA_USED_SIZE as int),
        ) {
            Err(MetadataError::ChecksumMismatch)
        } else if u32_of_be_bytes(bytes.subrange(4, 8)) != 0x0046_0004 {
            Err(MetadataError::UnknownFormat)
        } else if bytes[16] > 1 || bytes[25] > 1 {
            Err(MetadataError::BadOptionTag)
        } else {
            Ok(
                Self::spec_new(
                    Lsn(u64_of_be_bytes(bytes.subrange(8, 16))),
                    if bytes[16] == 1 {
                        Some(Lsn(u64_of_be_bytes(bytes.subrange(17, 25))))
                    } else {
                        None
                    },
                    if bytes[25] == 1 {
                        Some(
                            TimelineId(
                                (u64_of_be_bytes(bytes.subrange(26, 34)) as int
                                    * 0x1_0000_0000_0000_0000 + u64_of_be_bytes(
                                    bytes.subrange(34, 42),
                                ) as int) as u128,
                            ),
                        )
                    } else {
                        None
                    },
                    Lsn(u64_of_be_bytes(bytes.subrange(42, 50))),
                    Lsn(u64_of_be_bytes(bytes.subrange(50, 58))),
                    Lsn(u64_of_be_bytes(bytes.subrange(58, 66))),
                    u32_of_be_bytes(bytes.subrange(66, 70)),
                ),
            )
        }
    }

    /// Reads metadata from a serialized block: see
    /// [`TimelineMetadata::spec_from_bytes`].
    pub fn from_bytes(bytes: &[u8]) -> (r: Result<TimelineMetadata, MetadataError>)
        ensures
            r == Self::spec_from_bytes(bytes@),
    {
        if bytes.len() != METADATA_MAX_SIZE {
            return Err(MetadataError::WrongSize);
        }
        let stored = read_u32_be(bytes, 0);
        let computed = crc32c(bytes, 4, METADATA_USED_SIZE);
        if stored != computed {
            return Err(MetadataError::ChecksumMismatch);
        }
        if read_u32_be(bytes, 4) != 0x0046_0004 {
            return Err(MetadataError::UnknownFormat);
        }
        if bytes[16] > 1 || bytes[25] > 1 {
            return Err(MetadataError::BadOptionTag);
        }
        let disk_consistent_lsn = Lsn(read_u64_be(bytes, 8));
        let prev_record_lsn = if bytes[16] == 1 {
            Some(Lsn(read_u64_be(bytes, 17)))
        } else {
            None
        };
        let ancestor_timeline = if bytes[25] == 1 {
            let hi: u128 = read_u64_be(bytes, 26) as u128;
            let lo: u128 = read_u64_be(bytes, 34) as u128;
            Some(TimelineId(hi * 0x1_0000_0000_0000_0000 + lo))
        } else {
            None
        };
        Ok(
            TimelineMetadata::new(
                disk_consistent_lsn,
                prev_record_lsn,
                ancestor_timeline,
                Lsn(read_u64_be(bytes, 42)),
                Lsn(read_u64_be(bytes, 50)),
                Lsn(read_u64_be(bytes, 58)),
                read_u32_be(bytes, 66),
            ),
        )
    }

    /// Where the fields stand in the serialized block.
    proof fn lemma_layout(self)
        ensures
            self.spec_to_bytes().len() == METADATA_MAX_SIZE,
            self.checked_bytes().len() == 66,
            self.spec_to_bytes().subrange(0, 4) == be_bytes_u32(spec_crc32c(self.checked_bytes())),
            self.spec_to_bytes().subrange(4, 70) == self.checked_bytes(),
            self.spec_to_bytes().subrange(4, 8) == be_bytes_u32(0x0046_0004),
            self.spec_to_bytes().subrange(8, 16) == be_bytes_u64(self.disk_consistent_lsn.0),
            self.spec_to_bytes().subrange(16, 25) == option_lsn_bytes(self.prev_record_lsn),
            self.spec_to_bytes().subrange(25, 42) == option_timeline_bytes(self.ancestor_timeline),
            self.spec_to_bytes().subrange(42, 50) == be_bytes_u64(self.ancestor_lsn.0),
            self.spec_to_bytes().subrange(50, 58) == be_bytes_u64(self.latest_gc_cutoff_lsn.0),
            self.spec_to_bytes().subrange(58, 66) == be_bytes_u64(self.initdb_lsn.0),
            self.spec_to_bytes().subrange(66, 70) == be_bytes_u32(self.pg_version),
    {
        let b = self.spec_to_bytes();
        let c = self.checked_bytes();
        lemma_encoded_lengths();
        assert(option_lsn_bytes(self.prev_record_lsn).len() == 9);
        assert(option_timeline_bytes(self.ancestor_timeline).len() == 17);
        assert(c.len() == 66);
        assert(b.subrange(0, 4) =~= be_bytes_u32(spec_crc32c(c)));
        assert(b.subrange(4, 70) =~= c);
        assert(b.subrange(4, 8) =~= be_bytes_u32(0x0046_0004));
        assert(b.subrange(8, 16) =~= be_bytes_u64(self.disk_consistent_lsn.0));
        assert(b.subrange(16, 25) =~= option_lsn_bytes(self.prev_record_lsn));
        assert(b.subrange(25, 42) =~= option_timeline_bytes(self.ancestor_timeline));
        assert(b.subrange(42, 50) =~= be_bytes_u64(self.ancestor_lsn.0));
        assert(b.subrange(50, 58) =~= be_bytes_u64(self.latest_gc_cutoff_lsn.0));
        assert(b.subrange(58, 66) =~= be_bytes_u64(self.initdb_lsn.0));
        assert(b.subrange(66, 70) =~= be_bytes_u32(self.pg_version));
    }

    /// Serialized metadata reads back as the metadata that was serialized.
    pub proof fn lemma_round_trip(self)
        ensures
            Self::spec_from_bytes(self.spec_to_bytes()) == Ok::<TimelineMetadata, MetadataError>(
                self,
            ),
    {
        let b = self.spec_to_bytes();
        self.lemma_layout();
        lemma_encoded_lengths();
        lemma_be_bytes_u32_round_trip(spec_crc32c(self.checked_bytes()));
        lemma_be_bytes_u32_round_trip(0x0046_0004);
        lemma_be_bytes_u32_round_trip(self.pg_version);
        lemma_be_bytes_u64_round_trip(self.disk_consistent_lsn.0);
        lemma_be_bytes_u64_round_trip(self.ancestor_lsn.0);
        lemma_be_bytes_u64_round_trip(self.latest_gc_cutoff_lsn.0);
        lemma_be_bytes_u64_round_trip(self.initdb_lsn.0);
        let p = b.subrange(16, 25);
        assert(b[16] == p[0]);
        assert(b.subrange(17, 25) =~= p.subrange(1, 9));
        match self.prev_record_lsn {
            Some(l) => {
                lemma_be_bytes_u64_round_trip(l.0);
                assert(p.subrange(1, 9) =~= be_bytes_u64(l.0));
            },
            None => {},
        }
        let a = b.subrange(25, 42);
        assert(b[25] == a[0]);
        assert(b.subrange(26, 34) =~= a.subrange(1, 9));
        assert(b.subrange(34, 42) =~= a.subrange(9, 17));
        match self.ancestor_timeline {
            Some(t) => {
                let hi = (t.0 / 0x1_0000_0000_0000_0000) as u64;
                let lo = (t.0 % 0x1_0000_0000_0000_0000) as u64;
                lemma_be_bytes_u64_round_trip(hi);
                lemma_be_bytes_u64_round_trip(lo);
                assert(a.subrange(1, 9) =~= be_bytes_u64(hi));
                assert(a.subrange(9, 17) =~= be_bytes_u64(lo));
                assert((hi as int * 0x1_0000_0000_0000_0000 + lo as int) as u128 == t.0);
            },
            None => {},
        }
    }
}

} // verus!
