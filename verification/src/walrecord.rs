//! The records that WAL redo replays.

use vstd::prelude::*;

verus! {

/// One member of a multixact: a transaction and what it holds.
#[derive(Clone, Copy, Debug, PartialEq, Eq, Structural)]
pub struct MultiXactMember {
    pub xid: u32,
    pub status: u32,
}

/// A record to replay on a page.
///
/// `Postgres` records are opaque here and are replayed by the worker process;
/// every other variant is replayed natively.
#[derive(Clone, Debug, PartialEq, Eq)]
pub enum NeonWalRecord {
    /// A record in the worker's own format.
    Postgres { will_init: bool, rec: Vec<u8> },
    /// Clear bits in a visibility map page.
    ClearVisibilityMapFlags { new_heap_blkno: Option<u32>, old_heap_blkno: Option<u32>, flags: u8 },
    /// Mark transactions as committed in a commit-log page.
    ClogSetCommitted { xids: Vec<u32>, timestamp: i64 },
    /// Mark transactions as aborted in a commit-log page.
    ClogSetAborted { xids: Vec<u32> },
    /// Record where the members of a multixact start.
    MultixactOffsetCreate { mid: u32, moff: u32 },
    /// Record the members of a multixact.
    MultixactMembersCreate { moff: u32, members: Vec<MultiXactMember> },
}

impl NeonWalRecord {
    /// Whether the record is replayed natively.
    pub open spec fn is_native(&self) -> bool {
        !(self is Postgres)
    }
}

} // verus!
