//! WAL redo: rebuilding a page from a base image and a run of records.

use vstd::prelude::*;
use crate::id::TenantId;
use crate::lsn::Lsn;
use crate::reltag::{Key, RelTag};
use crate::walrecord::NeonWalRecord;

pub mod neon;
pub mod process;
pub mod protocol;
pub mod request;

verus! {

/// A relation and a block number: the identity of a page for the worker.
#[derive(Clone, Copy, Debug, PartialEq, Eq, Structural, Hash)]
pub struct BufferTag {
    pub rel: RelTag,
    pub blknum: u32,
}

/// What went wrong between the coordinator and the worker process.
#[derive(Clone, Copy, Debug, PartialEq, Eq, Structural)]
pub enum RedoIoError {
    /// No pipe became ready within the timeout.
    TimedOut,
    /// The worker closed its error stream.
    StderrClosed,
    /// The worker closed its input while data was still to be written.
    StdinClosed,
    /// The worker closed its output, or was replaced while a response was due.
    StdoutClosed,
    /// A natively replayed record stood in a batch for the worker.
    NeonRecordForPostgres,
    /// The operating system refused; the number is its `errno`.
    Os(i32),
}

/// The two classes of I/O errors that callers tell apart.
#[derive(Clone, Copy, Debug, PartialEq, Eq, Structural)]
pub enum IoErrorKind {
    BrokenPipe,
    Other,
}

impl RedoIoError {
    /// The class of the error.
    pub open spec fn spec_kind(&self) -> IoErrorKind {
        match self {
            RedoIoError::StderrClosed | RedoIoError::StdinClosed | RedoIoError::StdoutClosed => {
                IoErrorKind::BrokenPipe
            },
            _ => IoErrorKind::Other,
        }
    }

    /// The class of the error.
    #[verifier::when_used_as_spec(spec_kind)]
    pub fn kind(&self) -> (r: IoErrorKind)
        ensures
            r == self.spec_kind(),
    {
        match self {
            RedoIoError::StderrClosed | RedoIoError::StdinClosed | RedoIoError::StdoutClosed => {
                IoErrorKind::BrokenPipe
            },
            _ => IoErrorKind::Other,
        }
    }
}

/// An error of WAL redo.
#[derive(Clone, Copy, Debug, PartialEq, Eq, Structural)]
pub enum WalRedoError {
    /// The exchange with the worker process failed.
    IoError(RedoIoError),
    /// WAL redo cannot be performed now.
    InvalidState,
    /// WAL redo cannot be performed for this request.
    InvalidRequest,
    /// WAL redo cannot be performed for this record.
    InvalidRecord,
}

/// Can this record be replayed natively, or must it go to the worker?
pub fn can_apply_in_neon(rec: &NeonWalRecord) -> (r: bool)
    ensures
        r == rec.is_native(),
{
    match rec {
        NeonWalRecord::Postgres { will_init: _, rec: _ } => false,
        _ => true,
    }
}

/// Replays WAL records on pages.
///
/// The caller passes an old page image, if it has one, and the records to
/// apply over it; the result is the page after the records. Implementations
/// decide how the records are replayed, so nothing is promised here of the
/// page that comes back.
pub trait WalRedoManager: Send + Sync {
    /// Applies `records` over `base_img` to rebuild the page of `key` as of
    /// `lsn`.
    fn request_redo(
        &self,
        key: Key,
        lsn: Lsn,
        base_img: Option<(Lsn, Vec<u8>)>,
        records: Vec<(Lsn, NeonWalRecord)>,
        pg_version: u32,
    ) -> Result<Vec<u8>, WalRedoError>;
}

/// Coordinator of WAL redo for one tenant.
///
/// It splits a request into runs of records of one flavor, replays the
/// native runs itself and says when the worker process has to replay one.
#[derive(Clone, Copy, Debug)]
pub struct PostgresRedoManager {
    tenant_id: TenantId,
    wal_redo_timeout_millis: u64,
}

impl PostgresRedoManager {
    /// The tenant whose pages are rebuilt.
    pub closed spec fn spec_tenant_id(&self) -> TenantId {
        self.tenant_id
    }

    /// How long to wait for the worker, in milliseconds.
    pub closed spec fn spec_wal_redo_timeout_millis(&self) -> u64 {
        self.wal_redo_timeout_millis
    }

    /// A coordinator for `tenant_id`. The worker process is launched by the
    /// caller, on the first request that needs it.
    pub fn new(wal_redo_timeout_millis: u64, tenant_id: TenantId) -> (r: PostgresRedoManager)
        ensures
            r.spec_tenant_id() == tenant_id,
            r.spec_wal_redo_timeout_millis() == wal_redo_timeout_millis,
    {
        PostgresRedoManager { tenant_id, wal_redo_timeout_millis }
    }

    /// The tenant whose pages are rebuilt.
    #[verifier::when_used_as_spec(spec_tenant_id)]
    pub fn tenant_id(&self) -> (r: TenantId)
        ensures
            r == self.spec_tenant_id(),
    {
        self.tenant_id
    }

    /// How long to wait for the worker, in milliseconds.
    #[verifier::when_used_as_spec(spec_wal_redo_timeout_millis)]
    pub fn wal_redo_timeout_millis(&self) -> (r: u64)
        ensures
            r == self.spec_wal_redo_timeout_millis(),
    {
        self.wal_redo_timeout_millis
    }
}

/// The name of the worker's executable, in the directory of executables.
pub const WAL_REDO_PROGRAM: &'static str = "postgres";

/// The one flag that the worker is started with.
pub const WAL_REDO_FLAG: &'static str = "--wal-redo";

/// The lowest file descriptor that the worker must not inherit: everything
/// above standard input, output and error.
pub const FIRST_FD_TO_CLOSE: i32 = 3;

/// The two variables that the worker's environment holds, and nothing else:
/// both name the directory of the libraries.
pub fn library_path_variables() -> (r: [&'static str; 2])
    ensures
        r@.len() == 2,
        r@[0]@ == "LD_LIBRARY_PATH"@,
        r@[1]@ == "DYLD_LIBRARY_PATH"@,
{
    ["LD_LIBRARY_PATH", "DYLD_LIBRARY_PATH"]
}

/// The directory, below the directory of the distributions, of the
/// distribution of a version of the database, for the versions that are
/// supported.
pub open spec fn spec_pg_distrib_subdir(pg_version: u32) -> Option<Seq<char>> {
    if pg_version == 14 {
        Some("v14"@)
    } else if pg_version == 15 {
        Some("v15"@)
    } else {
        None
    }
}

/// The directory of the distribution of a version of the database: see
/// [`spec_pg_distrib_subdir`].
pub fn pg_distrib_subdir(pg_version: u32) -> (r: Option<&'static str>)
    ensures
        match spec_pg_distrib_subdir(pg_version) {
            Some(dir) => r matches Some(d) && d@ == dir,
            None => r is None,
        },
{
    if pg_version == 14 {
        Some("v14")
    } else if pg_version == 15 {
        Some("v15")
    } else {
        None
    }
}

} // verus!
