//! Core of a page server: the queue that keeps a timeline's remote copy
//! consistent, and the coordinator of the WAL redo worker process.
//!
//! Nothing here talks to a disk, a network or a process. Functions take the
//! outcome of an outside step as a plain value and return the next state
//! together with what has to be done next, so the callers that own sockets,
//! pipes and tasks stay thin. The one thing read from outside is the clock,
//! at the moment a timeline is marked as deleted.

pub mod encoding;
pub mod id;
pub mod logging;
pub mod lsn;
pub mod metadata;
pub mod metrics;
pub mod pg_constants;
pub mod reltag;
pub mod remote_timeline_client;
pub mod walrecord;
pub mod walredo;
