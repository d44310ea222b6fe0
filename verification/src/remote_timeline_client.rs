//! Keeping a timeline's copy in remote storage consistent.
//!
//! A [`RemoteTimelineClient`] holds the queue of the operations that were
//! scheduled for one timeline and decides which of them may run. It does no
//! I/O itself: scheduling hands the tasks that were started to the caller,
//! the caller runs them against the remote and reports how each one ended.
//!
//! The caller schedules operations in the order in which they are to take
//! effect. Layer files are uploaded side by side; the index file is uploaded
//! only when every upload before it is done, so that it never lists a file
//! that is not there; and a file is deleted only when the uploads before the
//! deletion are done, among them the index that no longer lists the file.

pub mod consistency;
pub mod index;
pub mod upload_queue;

use vstd::prelude::*;
use vstd::string::StringSliceAdditionalSpecFns;
use vstd::utf8::encode_utf8;
use crate::id::{
    remote_path, remote_timeline_path, spec_remote_path, spec_remote_timeline_path, TenantId,
    TimelineId,
};
use crate::lsn::Lsn;
use crate::metadata::{MetadataError, TimelineMetadata};
use crate::metrics::{
    RemoteOpFileKind, RemoteOpKind, RemoteTimelineClientMetrics,
    RemoteTimelineClientMetricsCallTrackSize,
};
use crate::remote_timeline_client::index::{
    layer_names, saturated_total_size, FilesView, IndexPart, IndexPartView, LayerFileMetadata,
    LayerFileName, LayerFiles, Timestamp,
};
use crate::remote_timeline_client::upload_queue::{
    deletions_of, enqueue, enqueue_all, finish_task, fired_barriers, forget_files, fresh_queue,
    index_for, launch, launched_tasks, lemma_launch_settled, lemma_launch_wf, queue_wf,
    record_file, settled, upload_queue_wf, with_index_upload, Delete, Launched, QueueView,
    SetDeletedFlagProgress, StoppedView, UploadOp, UploadOpView, UploadQueue,
    UploadQueueInitialized, UploadQueueStopped, UploadQueueView, UploadTask, UploadTaskView,
};

verus! {

/// Failed downloads are logged as warnings from this many retries on.
pub const FAILED_DOWNLOAD_WARN_THRESHOLD: u32 = 3;

/// A download is given up after this many retries.
pub const FAILED_DOWNLOAD_RETRIES: u32 = 10;

/// Failed uploads and deletions are logged as warnings from this many
/// retries on. They are retried for ever.
pub const FAILED_UPLOAD_WARN_THRESHOLD: u32 = 3;

/// An index that was downloaded: of a live timeline, or of one that is
/// marked as deleted.
#[derive(Debug)]
pub enum MaybeDeletedIndexPart {
    IndexPart(IndexPart),
    Deleted(IndexPart),
}

/// Errors of [`RemoteTimelineClient::stop`].
#[derive(Clone, Copy, Debug, PartialEq, Eq, Structural)]
pub enum StopError {
    /// The upload queue was never initialized.
    QueueUninitialized,
}

/// Why the queue refused a call.
#[derive(Clone, Copy, Debug, PartialEq, Eq, Structural)]
pub enum QueueError {
    /// The queue takes no operations: it was not set up, or it is stopped.
    NotInitialized,
    /// The queue was set up before.
    AlreadyInitialized,
    /// The metadata in the index cannot be read.
    InvalidMetadata(MetadataError),
    /// The index is not the index of a deleted timeline.
    NotDeleted,
    /// The queue is not stopped.
    NotStopped,
    /// The timeline is not marked as deleted on the remote.
    DeletedAtNotSet,
}

/// Errors of marking a timeline as deleted on the remote.
#[derive(Clone, Copy, Debug, PartialEq, Eq, Structural)]
pub enum PersistIndexPartWithDeletedFlagError {
    /// Another task is setting the mark; it began at the time given.
    AlreadyInProgress(Timestamp),
    /// The mark was set before, at the time given.
    AlreadyDeleted(Timestamp),
    /// The queue refused.
    Other(QueueError),
}

/// Why a download failed.
#[derive(Clone, Copy, Debug, PartialEq, Eq, Structural)]
pub enum DownloadError {
    /// The request was malformed.
    BadInput,
    /// The file is not on the remote.
    NotFound,
    /// Anything else.
    Other,
}

/// A client as callers see it.
#[verifier::ext_equal]
pub struct ClientView {
    pub tenant_id: TenantId,
    pub timeline_id: TimelineId,
    pub upload_queue: UploadQueueView,
    pub metrics: RemoteTimelineClientMetrics,
    /// The number of the barrier scheduled last.
    pub barrier_counter: u64,
}

/// The kind of file and of operation under which `op` is counted, and its
/// bytes if they are counted. Barriers are not counted.
pub open spec fn op_metric(op: UploadOpView) -> Option<(RemoteOpFileKind, RemoteOpKind, Option<u64>)> {
    match op {
        UploadOpView::UploadLayer(_, m) => Some(
            (RemoteOpFileKind::Layer, RemoteOpKind::Upload, Some(m.spec_file_size())),
        ),
        UploadOpView::UploadMetadata(_, _) => Some(
            (RemoteOpFileKind::Index, RemoteOpKind::Upload, None),
        ),
        UploadOpView::Delete(delete) => Some((delete.file_kind, RemoteOpKind::Delete, None)),
        UploadOpView::Barrier(_) => None,
    }
}

/// The metrics after `op` was scheduled.
pub open spec fn metrics_begin(
    metrics: RemoteTimelineClientMetrics,
    op: UploadOpView,
) -> RemoteTimelineClientMetrics {
    match op_metric(op) {
        Some((file_kind, op_kind, size)) => metrics.spec_call_begin(file_kind, op_kind, size),
        None => metrics,
    }
}

/// The metrics after `op` was done or given up.
pub open spec fn metrics_end(
    metrics: RemoteTimelineClientMetrics,
    op: UploadOpView,
) -> RemoteTimelineClientMetrics {
    match op_metric(op) {
        Some((file_kind, op_kind, size)) => metrics.spec_call_end(file_kind, op_kind, size),
        None => metrics,
    }
}

/// The metrics after each of `ops` was given up, one after the other.
pub open spec fn metrics_end_all(
    metrics: RemoteTimelineClientMetrics,
    ops: Seq<UploadOpView>,
) -> RemoteTimelineClientMetrics
    decreases ops.len(),
{
    if ops.len() == 0 {
        metrics
    } else {
        metrics_end(metrics_end_all(metrics, ops.drop_last()), ops.last())
    }
}

/// The numbers of the barriers among `ops`, in order.
pub open spec fn barriers_among(ops: Seq<UploadOpView>) -> Seq<u64>
    decreases ops.len(),
{
    if ops.len() == 0 {
        Seq::empty()
    } else {
        barriers_among(ops.drop_last()) + (match ops.last() {
            UploadOpView::Barrier(id) => seq![id],
            _ => Seq::<u64>::empty(),
        })
    }
}

/// The queue that a stopped client keeps for the deletion of the timeline:
/// the files, the metadata and the position of the queue that was stopped,
/// and nothing else.
pub open spec fn queue_for_deletion(q: QueueView) -> QueueView {
    fresh_queue(q.latest_files, q.latest_metadata, q.last_uploaded_consistent_lsn)
}

/// The client after [`RemoteTimelineClient::stop`].
pub open spec fn spec_stop(c: ClientView) -> ClientView {
    match c.upload_queue {
        UploadQueueView::Initialized(q) => ClientView {
            upload_queue: UploadQueueView::Stopped(
                StoppedView {
                    upload_queue_for_deletion: queue_for_deletion(q),
                    deleted_at: SetDeletedFlagProgress::NotRunning,
                },
            ),
            metrics: metrics_end_all(c.metrics, q.queued_operations),
            ..c
        },
        _ => c,
    }
}

/// The queue that a client starts with when the remote holds `index_part`,
/// whose metadata is `metadata`.
pub open spec fn queue_from_index(index_part: IndexPartView, metadata: TimelineMetadata) -> QueueView {
    fresh_queue(index_part.layer_metadata, metadata, metadata.spec_disk_consistent_lsn())
}

/// The metrics after each of `ops` was scheduled, one after the other.
pub open spec fn metrics_begin_all(
    metrics: RemoteTimelineClientMetrics,
    ops: Seq<UploadOpView>,
) -> RemoteTimelineClientMetrics
    decreases ops.len(),
{
    if ops.len() == 0 {
        metrics
    } else {
        metrics_begin(metrics_begin_all(metrics, ops.drop_last()), ops.last())
    }
}

/// A queue together with the tasks that were started and the barriers that
/// fired on the way to it.
#[verifier::ext_equal]
pub struct Scheduled {
    pub queue: QueueView,
    pub tasks: Seq<UploadTaskView>,
    pub barriers: Seq<u64>,
}

/// What starting everything that can start gives.
pub open spec fn launch_all(q: QueueView) -> Scheduled {
    Scheduled { queue: launch(q), tasks: launched_tasks(q), barriers: fired_barriers(q) }
}

/// Whether `launched` holds what `scheduled` says was started and fired.
pub open spec fn launched_is(launched: &Launched, scheduled: Scheduled) -> bool {
    launched.tasks_view() == scheduled.tasks && launched.barriers@ == scheduled.barriers
}

/// Scheduling the upload of a layer file: the file is among the files that
/// the remote is to hold, its upload is behind everything scheduled, and
/// what can start is started.
pub open spec fn spec_schedule_layer_file_upload(
    q: QueueView,
    name: Seq<char>,
    metadata: LayerFileMetadata,
) -> Scheduled {
    launch_all(enqueue(record_file(q, name, metadata), UploadOpView::UploadLayer(name, metadata)))
}

/// Scheduling an index upload with the metadata given: the metadata is the
/// latest, the upload of an index with it and with the files that the remote
/// is to hold is behind everything scheduled, and what can start is started.
pub open spec fn spec_schedule_index_upload_for_metadata_update(
    q: QueueView,
    metadata: TimelineMetadata,
) -> Scheduled {
    launch_all(
        with_index_upload(QueueView { latest_metadata: metadata, ..q }, metadata.spec_to_bytes()),
    )
}

/// Scheduling an index upload if files changed since the last one was
/// scheduled, and nothing otherwise.
pub open spec fn spec_schedule_index_upload_for_file_changes(q: QueueView) -> Scheduled {
    if q.latest_files_changes_since_metadata_upload_scheduled > 0 {
        launch_all(with_index_upload(q, q.latest_metadata.spec_to_bytes()))
    } else {
        Scheduled { queue: q, tasks: Seq::empty(), barriers: Seq::empty() }
    }
}

/// The first half of scheduling deletions: the names leave the files that
/// the remote is to hold, and an index upload is scheduled, and what can
/// start is started, if any change is not shown by an index yet.
pub open spec fn spec_deletion_index_upload(q: QueueView, names: Seq<Seq<char>>) -> Scheduled {
    let forgotten = forget_files(q, names);
    if forgotten.latest_files_changes_since_metadata_upload_scheduled > 0 {
        launch_all(with_index_upload(forgotten, q.latest_metadata.spec_to_bytes()))
    } else {
        Scheduled { queue: forgotten, tasks: Seq::empty(), barriers: Seq::empty() }
    }
}

/// Scheduling the deletion of layer files. With no name nothing happens:
/// the queue stays as it is and nothing is started. Otherwise, after the
/// first half, see [`spec_deletion_index_upload`], one deletion for each
/// name is behind everything scheduled, and what can start is started.
pub open spec fn spec_schedule_layer_file_deletion(q: QueueView, names: Seq<Seq<char>>) -> Scheduled {
    if names.len() == 0 {
        Scheduled { queue: q, tasks: Seq::empty(), barriers: Seq::empty() }
    } else {
        let first = spec_deletion_index_upload(q, names);
        let second = launch_all(enqueue_all(first.queue, deletions_of(names, false)));
        Scheduled {
            queue: second.queue,
            tasks: first.tasks + second.tasks,
            barriers: first.barriers + second.barriers,
        }
    }
}

/// The metrics after the deletion of layer files was scheduled on a queue
/// that stood at `q`: with no name nothing is counted; otherwise an index
/// upload is counted if one was scheduled, and so is each deletion.
pub open spec fn metrics_after_deletion(
    metrics: RemoteTimelineClientMetrics,
    q: QueueView,
    names: Seq<Seq<char>>,
) -> RemoteTimelineClientMetrics {
    if names.len() == 0 {
        metrics
    } else {
        let forgotten = forget_files(q, names);
        let first = if forgotten.latest_files_changes_since_metadata_upload_scheduled > 0 {
            metrics_begin(
                metrics,
                UploadOpView::UploadMetadata(
                    index_for(forgotten, q.latest_metadata.spec_to_bytes()),
                    q.latest_metadata.spec_disk_consistent_lsn(),
                ),
            )
        } else {
            metrics
        };
        metrics_begin_all(first, deletions_of(names, false))
    }
}

/// Scheduling a barrier with the number given: it is behind everything
/// scheduled, and what can start is started.
pub open spec fn spec_schedule_barrier(q: QueueView, barrier: u64) -> Scheduled {
    launch_all(enqueue(q, UploadOpView::Barrier(barrier)))
}

/// Whether a queue has task ids left for `n` more operations, and room in
/// the counter of changes for as many.
pub open spec fn queue_can_schedule(q: QueueView, n: nat) -> bool {
    &&& q.task_counter + q.queued_operations.len() + n <= u64::MAX
    &&& q.latest_files_changes_since_metadata_upload_scheduled + n <= u64::MAX
}

/// The first half of deleting a timeline: one deletion for each file that
/// the remote is to hold is behind everything scheduled on the queue kept
/// for deletion, and what can start is started.
pub open spec fn spec_delete_all_deletions(q: QueueView) -> Scheduled {
    launch_all(enqueue_all(q, deletions_of(layer_names(q.latest_files), true)))
}

/// Scheduling the deletion of a timeline: after the first half, see
/// [`spec_delete_all_deletions`], a barrier with the number given is behind
/// everything scheduled, and what can start is started.
pub open spec fn spec_delete_all(q: QueueView, barrier: u64) -> Scheduled {
    let first = spec_delete_all_deletions(q);
    let second = spec_schedule_barrier(first.queue, barrier);
    Scheduled {
        queue: second.queue,
        tasks: first.tasks + second.tasks,
        barriers: first.barriers + second.barriers,
    }
}

/// Where marking a timeline as deleted gets to when it begins at `now`.
///
/// Only a stopped queue can be marked: a queue that takes operations could
/// upload an index without the mark over the one with it. While the mark is
/// being set, or once it is set, the call is refused with the time of the
/// mark. Otherwise the mark is in progress from `now` on, and the result is
/// the index to upload: the files and the metadata kept for deletion, marked
/// as deleted at `now`.
pub open spec fn spec_persist_begin(c: ClientView, now: Timestamp) -> (
    ClientView,
    Result<IndexPartView, PersistIndexPartWithDeletedFlagError>,
) {
    match c.upload_queue {
        UploadQueueView::Stopped(s) => match s.deleted_at {
            SetDeletedFlagProgress::NotRunning => (
                ClientView {
                    upload_queue: UploadQueueView::Stopped(
                        StoppedView { deleted_at: SetDeletedFlagProgress::InProgress(now), ..s },
                    ),
                    ..c
                },
                Ok(
                    IndexPartView {
                        deleted_at: Some(now),
                        ..index_for(
                            s.upload_queue_for_deletion,
                            s.upload_queue_for_deletion.latest_metadata.spec_to_bytes(),
                        )
                    },
                ),
            ),
            SetDeletedFlagProgress::InProgress(at) => (
                c,
                Err(PersistIndexPartWithDeletedFlagError::AlreadyInProgress(at)),
            ),
            SetDeletedFlagProgress::Successful(at) => (
                c,
                Err(PersistIndexPartWithDeletedFlagError::AlreadyDeleted(at)),
            ),
        },
        _ => (c, Err(PersistIndexPartWithDeletedFlagError::Other(QueueError::NotStopped))),
    }
}

/// Where marking a timeline as deleted gets to when the upload of the marked
/// index has ended: the mark counts as set if the upload succeeded, and as
/// not begun if it failed.
pub open spec fn spec_persist_end(c: ClientView, uploaded: bool) -> ClientView {
    match c.upload_queue {
        UploadQueueView::Stopped(s) => match s.deleted_at {
            SetDeletedFlagProgress::InProgress(at) => ClientView {
                upload_queue: UploadQueueView::Stopped(
                    StoppedView {
                        deleted_at: if uploaded {
                            SetDeletedFlagProgress::Successful(at)
                        } else {
                            SetDeletedFlagProgress::NotRunning
                        },
                        ..s
                    },
                ),
                ..c
            },
            _ => c,
        },
        _ => c,
    }
}

/// The client after [`RemoteTimelineClient::upload_task_completed`].
///
/// An index that was uploaded makes the size of the remote the sum of the
/// sizes of its files, whatever the state of the queue. On a queue that
/// takes operations the task is finished, what can start is started, and the
/// operation is counted as done. A stopped queue takes notice only of the
/// deletions of the deletion of the timeline, which run on the queue kept
/// for deletion.
pub open spec fn spec_upload_task_completed(c: ClientView, task: UploadTaskView) -> ClientView {
    let gauged = match task.op {
        UploadOpView::UploadMetadata(index_part, _) => RemoteTimelineClientMetrics {
            remote_physical_size: saturated_total_size(index_part.layer_metadata),
            ..c.metrics
        },
        _ => c.metrics,
    };
    match c.upload_queue {
        UploadQueueView::Initialized(q) => ClientView {
            upload_queue: UploadQueueView::Initialized(launch(finish_task(q, task.task_id, task.op))),
            metrics: metrics_end(gauged, task.op),
            ..c
        },
        UploadQueueView::Stopped(s) => if task.op matches UploadOpView::Delete(d)
            && d.scheduled_from_timeline_delete {
            ClientView {
                upload_queue: UploadQueueView::Stopped(
                    StoppedView {
                        upload_queue_for_deletion: launch(
                            finish_task(s.upload_queue_for_deletion, task.task_id, task.op),
                        ),
                        ..s
                    },
                ),
                metrics: metrics_end(gauged, task.op),
                ..c
            }
        } else {
            ClientView { metrics: gauged, ..c }
        },
        UploadQueueView::Uninitialized => ClientView { metrics: gauged, ..c },
    }
}

/// The queue on which the end of `task` is recorded, if any: the queue that
/// takes operations, or the one kept for deletion if the task is a deletion
/// of the deletion of the timeline.
pub open spec fn queue_of_task(queue: UploadQueueView, task: UploadTaskView) -> Option<QueueView> {
    match queue {
        UploadQueueView::Initialized(q) => Some(q),
        UploadQueueView::Stopped(s) => if task.op matches UploadOpView::Delete(d)
            && d.scheduled_from_timeline_delete {
            Some(s.upload_queue_for_deletion)
        } else {
            None
        },
        UploadQueueView::Uninitialized => None,
    }
}

/// What is asked of the remote for an operation.
pub enum RemoteRequestView {
    /// Upload the layer file with this name.
    UploadLayer { file_name: Seq<char>, metadata: LayerFileMetadata },
    /// Upload this index.
    UploadIndex(IndexPartView),
    /// Delete the file with this name.
    DeleteLayer { file_kind: RemoteOpFileKind, file_name: Seq<char> },
}

/// What is asked of the remote for an operation.
#[derive(Debug)]
pub enum RemoteRequest {
    /// Upload the layer file with this name.
    UploadLayer { file_name: String, metadata: LayerFileMetadata },
    /// Upload this index.
    UploadIndex(IndexPart),
    /// Delete the file with this name.
    DeleteLayer { file_kind: RemoteOpFileKind, file_name: String },
}

impl View for RemoteRequest {
    type V = RemoteRequestView;

    open spec fn view(&self) -> RemoteRequestView {
        match self {
            RemoteRequest::UploadLayer { file_name, metadata } => RemoteRequestView::UploadLayer {
                file_name: file_name@,
                metadata: *metadata,
            },
            RemoteRequest::UploadIndex(index_part) => RemoteRequestView::UploadIndex(index_part@),
            RemoteRequest::DeleteLayer { file_kind, file_name } => RemoteRequestView::DeleteLayer {
                file_kind: *file_kind,
                file_name: file_name@,
            },
        }
    }
}

/// What is asked of the remote for `op`. A barrier asks for nothing.
pub open spec fn request_for(op: UploadOpView) -> Option<RemoteRequestView> {
    match op {
        UploadOpView::UploadLayer(name, metadata) => Some(
            RemoteRequestView::UploadLayer { file_name: name, metadata },
        ),
        UploadOpView::UploadMetadata(index_part, _) => Some(
            RemoteRequestView::UploadIndex(index_part),
        ),
        UploadOpView::Delete(delete) => Some(
            RemoteRequestView::DeleteLayer {
                file_kind: delete.file_kind,
                file_name: delete.layer_file_name,
            },
        ),
        UploadOpView::Barrier(_) => None,
    }
}

/// What to do next for a task.
#[derive(Debug)]
pub enum UploadAttempt {
    /// Shutdown was requested: the queue was stopped, the barriers with
    /// these numbers were dropped with it, and the task is over.
    Cancelled { aborted: Vec<u64> },
    /// Ask this of the remote, and report how it ended.
    Perform(RemoteRequest),
}

/// How loud a failed attempt is logged.
#[derive(Clone, Copy, Debug, PartialEq, Eq, Structural)]
pub enum RetryLogLevel {
    Info,
    Warn,
}

/// What to do after a failed attempt.
#[derive(Clone, Copy, Debug, PartialEq, Eq, Structural)]
pub struct RetryPlan {
    /// Attempts that failed before this one. The wait before the next
    /// attempt grows with it.
    pub attempt: u32,
    /// Failures are expected now and then, so the first few are logged
    /// quietly.
    pub level: RetryLogLevel,
}

/// What the deletion of a timeline hands to the caller.
#[derive(Debug)]
pub struct DeleteAllPlan {
    /// The tasks to run, and the barriers that fired.
    pub launched: Launched,
    /// The number of the barrier to wait for before the remote is swept.
    pub barrier: u64,
    /// Deletions that were scheduled.
    pub deletions_queued: usize,
}

/// Scheduling the deletion of no files is a no-op on every queue: the queue
/// stays as it is, nothing is started, nothing fires, and nothing is
/// counted.
pub proof fn lemma_deletion_of_nothing(q: QueueView, metrics: RemoteTimelineClientMetrics)
    ensures
        spec_schedule_layer_file_deletion(q, Seq::empty()) == (Scheduled {
            queue: q,
            tasks: Seq::empty(),
            barriers: Seq::empty(),
        }),
        metrics_after_deletion(metrics, q, Seq::empty()) == metrics,
{
}

/// Asking for an index upload for file changes when no file has changed
/// since the last index upload was scheduled is a no-op: the queue stays as
/// it is, with no new entry, and nothing is started.
pub proof fn lemma_index_upload_without_changes(q: QueueView)
    requires
        q.latest_files_changes_since_metadata_upload_scheduled == 0,
    ensures
        spec_schedule_index_upload_for_file_changes(q) == (Scheduled {
            queue: q,
            tasks: Seq::empty(),
            barriers: Seq::empty(),
        }),
{
}

/// Marking a timeline as deleted is refused while it is being marked and
/// once it is marked, with the time of the mark that is under way or set:
/// after a call that began the mark at `first`, a second call is refused as
/// already in progress since `first`, and once the upload has succeeded a
/// call is refused as already deleted at `first`. After a failed upload the
/// mark can be begun again.
pub proof fn lemma_persist_twice(c: ClientView, first: Timestamp, second: Timestamp)
    requires
        spec_persist_begin(c, first).1 is Ok,
    ensures
        spec_persist_begin(spec_persist_begin(c, first).0, second).1 == Err::<
            IndexPartView,
            PersistIndexPartWithDeletedFlagError,
        >(PersistIndexPartWithDeletedFlagError::AlreadyInProgress(first)),
        spec_persist_begin(spec_persist_begin(c, first).0, second).0 == spec_persist_begin(
            c,
            first,
        ).0,
        spec_persist_begin(spec_persist_end(spec_persist_begin(c, first).0, true), second).1
            == Err::<IndexPartView, PersistIndexPartWithDeletedFlagError>(
            PersistIndexPartWithDeletedFlagError::AlreadyDeleted(first),
        ),
        spec_persist_begin(spec_persist_end(spec_persist_begin(c, first).0, false), second).1 is Ok,
{
}

/// A client for accessing a timeline's data in remote storage.
#[derive(Debug)]
pub struct RemoteTimelineClient {
    tenant_id: TenantId,
    timeline_id: TimelineId,
    upload_queue: UploadQueue,
    metrics: RemoteTimelineClientMetrics,
    barrier_counter: u64,
}

impl View for RemoteTimelineClient {
    type V = ClientView;

    closed spec fn view(&self) -> ClientView {
        ClientView {
            tenant_id: self.tenant_id,
            timeline_id: self.timeline_id,
            upload_queue: self.upload_queue@,
            metrics: self.metrics,
            barrier_counter: self.barrier_counter,
        }
    }
}

impl RemoteTimelineClient {
    /// The queue of the client is as [`upload_queue_wf`] says.
    pub open spec fn wf(&self) -> bool {
        upload_queue_wf(self@.upload_queue)
    }

    /// A client for the given timeline. The caller must initialize the
    /// upload queue before anything can be scheduled.
    pub fn new(tenant_id: TenantId, timeline_id: TimelineId) -> (r: RemoteTimelineClient)
        ensures
            r.wf(),
            r@ == (ClientView {
                tenant_id,
                timeline_id,
                upload_queue: UploadQueueView::Uninitialized,
                metrics: RemoteTimelineClientMetrics::spec_new(),
                barrier_counter: 0,
            }),
    {
        RemoteTimelineClient {
            tenant_id,
            timeline_id,
            upload_queue: UploadQueue::Uninitialized,
            metrics: RemoteTimelineClientMetrics::new(),
            barrier_counter: 0,
        }
    }

    /// The tenant of the timeline.
    pub fn tenant_id(&self) -> (r: TenantId)
        ensures
            r == self@.tenant_id,
    {
        self.tenant_id
    }

    /// The timeline.
    pub fn timeline_id(&self) -> (r: TimelineId)
        ensures
            r == self@.timeline_id,
    {
        self.timeline_id
    }

    /// The prefix, on the remote, of the keys of the files of the timeline.
    pub fn remote_timeline_path(&self) -> (r: String)
        ensures
            r@ == spec_remote_timeline_path(self@.tenant_id, self@.timeline_id),
    {
        remote_timeline_path(self.tenant_id, self.timeline_id)
    }

    /// The key, on the remote, of the file `file_name` of the timeline.
    pub fn remote_path(&self, file_name: &str) -> (r: String)
        ensures
            r@ == spec_remote_path(self@.tenant_id, self@.timeline_id, file_name@),
    {
        remote_path(self.tenant_id, self.timeline_id, file_name)
    }

    /// The key, on the remote, of the index file of the timeline.
    pub fn remote_index_path(&self) -> (r: String)
        ensures
            r@ == spec_remote_path(
                self@.tenant_id,
                self@.timeline_id,
                index::INDEX_PART_FILE_NAME@,
            ),
    {
        remote_path(self.tenant_id, self.timeline_id, index::INDEX_PART_FILE_NAME)
    }

    /// The upload queue.
    pub fn upload_queue(&self) -> (r: &UploadQueue)
        ensures
            r@ == self@.upload_queue,
    {
        &self.upload_queue
    }

    /// The counters of the traffic with the remote.
    pub fn metrics(&self) -> (r: &RemoteTimelineClientMetrics)
        ensures
            *r == self@.metrics,
    {
        &self.metrics
    }

    /// Initialize the upload queue for a remote that holds an index file.
    /// The given `index_part` must be the one on the remote.
    ///
    /// A queue that was set up before refuses. Then the metadata in the index
    /// is read, and an index whose metadata cannot be read is refused.
    /// Otherwise the queue starts with the files of the index and nothing to
    /// do, and the size of the remote is the sum of the sizes of these files.
    pub fn init_upload_queue(&mut self, index_part: &IndexPart) -> (r: Result<(), QueueError>)
        requires
            old(self).wf(),
            index_part.wf(),
        ensures
            final(self).wf(),
            match old(self)@.upload_queue {
                UploadQueueView::Uninitialized => match TimelineMetadata::spec_from_bytes(
                    index_part@.metadata_bytes,
                ) {
                    Ok(metadata) => r is Ok && final(self)@ == (ClientView {
                        upload_queue: UploadQueueView::Initialized(
                            queue_from_index(index_part@, metadata),
                        ),
                        metrics: RemoteTimelineClientMetrics {
                            remote_physical_size: saturated_total_size(index_part@.layer_metadata),
                            ..old(self)@.metrics
                        },
                        ..old(self)@
                    }),
                    Err(e) => r == Err::<(), QueueError>(QueueError::InvalidMetadata(e)) && final(self)@ == old(self)@,
                },
                _ => r == Err::<(), QueueError>(QueueError::AlreadyInitialized) && final(self)@
                    == old(self)@,
            },
    {
        match &self.upload_queue {
            UploadQueue::Uninitialized => {},
            _ => {
                return Err(QueueError::AlreadyInitialized);
            },
        }
        let index_part_metadata = match index_part.parse_metadata() {
            Ok(m) => m,
            Err(e) => {
                return Err(QueueError::InvalidMetadata(e));
            },
        };
        let state = UploadQueueInitialized::new(
            index_part.layer_metadata().duplicate(),
            index_part_metadata,
            index_part_metadata.disk_consistent_lsn(),
        );
        self.upload_queue = UploadQueue::Initialized(state);
        self.update_remote_physical_size_gauge(Some(index_part));
        Ok(())
    }

    /// Initialize the upload queue for the case where the remote storage is
    /// empty, that is, holds no index file.
    ///
    /// The queue starts without files, and nothing counts as uploaded yet:
    /// the position that the remote is known to hold is zero.
    pub fn init_upload_queue_for_empty_remote(&mut self, local_metadata: &TimelineMetadata) -> (r:
        Result<(), QueueError>)
        requires
            old(self).wf(),
        ensures
            final(self).wf(),
            match old(self)@.upload_queue {
                UploadQueueView::Uninitialized => r is Ok && final(self)@ == (ClientView {
                    upload_queue: UploadQueueView::Initialized(
                        fresh_queue(FilesView::empty(), *local_metadata, Lsn(0)),
                    ),
                    metrics: RemoteTimelineClientMetrics {
                        remote_physical_size: 0,
                        ..old(self)@.metrics
                    },
                    ..old(self)@
                }),
                _ => r == Err::<(), QueueError>(QueueError::AlreadyInitialized) && final(self)@
                    == old(self)@,
            },
    {
        match &self.upload_queue {
            UploadQueue::Uninitialized => {},
            _ => {
                return Err(QueueError::AlreadyInitialized);
            },
        }
        let state = UploadQueueInitialized::new(LayerFiles::new(), *local_metadata, Lsn(0));
        self.upload_queue = UploadQueue::Initialized(state);
        self.update_remote_physical_size_gauge(None);
        Ok(())
    }

    /// The position that the remote index is known to hold, once the queue
    /// was set up.
    pub fn last_uploaded_consistent_lsn(&self) -> (r: Option<Lsn>)
        ensures
            r == (match self@.upload_queue {
                UploadQueueView::Uninitialized => None,
                UploadQueueView::Initialized(q) => Some(q.last_uploaded_consistent_lsn),
                UploadQueueView::Stopped(s) => Some(
                    s.upload_queue_for_deletion.last_uploaded_consistent_lsn,
                ),
            }),
    {
        match &self.upload_queue {
            UploadQueue::Uninitialized => None,
            UploadQueue::Initialized(q) => Some(q.last_uploaded_consistent_lsn()),
            UploadQueue::Stopped(q) => Some(
                q.upload_queue_for_deletion.last_uploaded_consistent_lsn(),
            ),
        }
    }

    /// Sets the size of the remote to the sum of the sizes of the files of
    /// the index, or to zero without an index.
    fn update_remote_physical_size_gauge(&mut self, current_remote_index_part: Option<&IndexPart>)
        ensures
            final(self)@ == (ClientView {
                metrics: RemoteTimelineClientMetrics {
                    remote_physical_size: match current_remote_index_part {
                        Some(index_part) => saturated_total_size(index_part@.layer_metadata),
                        None => 0,
                    },
                    ..old(self)@.metrics
                },
                ..old(self)@
            }),
    {
        let size: u64 = match current_remote_index_part {
            Some(index_part) => index_part.layer_metadata().total_size(),
            None => 0,
        };
        self.metrics.remote_physical_size = size;
    }

    /// The size of the remote: the sum of the sizes of the files that the
    /// index uploaded last lists.
    pub fn get_remote_physical_size(&self) -> (r: u64)
        ensures
            r == self@.metrics.remote_physical_size,
    {
        self.metrics.remote_physical_size
    }

    /// Whether the queue takes `n` more operations: it does if it is not a
    /// queue that takes operations at all, and else if task ids are left for
    /// them and the counter of changes has room for them.
    pub open spec fn spec_can_schedule(&self, n: nat) -> bool {
        match self@.upload_queue {
            UploadQueueView::Initialized(q) => queue_can_schedule(q, n) && self@.barrier_counter
                < u64::MAX,
            UploadQueueView::Stopped(s) => queue_can_schedule(s.upload_queue_for_deletion, n)
                && self@.barrier_counter < u64::MAX,
            UploadQueueView::Uninitialized => true,
        }
    }

    /// Whether the queue takes `n` more operations: see
    /// [`RemoteTimelineClient::spec_can_schedule`]. The limits are those of
    /// 64-bit counters.
    pub fn can_schedule(&self, n: usize) -> (r: bool)
        ensures
            r == self.spec_can_schedule(n as nat),
    {
        match &self.upload_queue {
            UploadQueue::Initialized(q) => q.can_schedule(n) && self.barrier_counter < u64::MAX,
            UploadQueue::Stopped(s) => s.upload_queue_for_deletion.can_schedule(n)
                && self.barrier_counter < u64::MAX,
            UploadQueue::Uninitialized => true,
        }
    }

    /// Under which kind of file and of operation `op` is counted, and
    /// whether its bytes are. Barriers are not counted.
    pub fn calls_unfinished_metric_impl(op: &UploadOp) -> (r: Option<
        (RemoteOpFileKind, RemoteOpKind, RemoteTimelineClientMetricsCallTrackSize),
    >)
        ensures
            match op_metric(op@) {
                Some((file_kind, op_kind, size)) => r matches Some(m) && m.0 == file_kind && m.1
                    == op_kind && m.2.spec_bytes() == size,
                None => r is None,
            },
    {
        let res = match op {
            UploadOp::UploadLayer(_, m) => (
                RemoteOpFileKind::Layer,
                RemoteOpKind::Upload,
                RemoteTimelineClientMetricsCallTrackSize::Bytes(m.file_size()),
            ),
            UploadOp::UploadMetadata(_, _) => (
                RemoteOpFileKind::Index,
                RemoteOpKind::Upload,
                RemoteTimelineClientMetricsCallTrackSize::DontTrackSize {
                    reason: "metadata uploads are tiny",
                },
            ),
            UploadOp::Delete(delete) => (
                delete.file_kind,
                RemoteOpKind::Delete,
                RemoteTimelineClientMetricsCallTrackSize::DontTrackSize {
                    reason: "should we track deletes? positive or negative sign?",
                },
            ),
            UploadOp::Barrier(_) => {
                // we do not account these
                return None;
            },
        };
        Some(res)
    }

    /// Counts `op` as scheduled.
    fn calls_unfinished_metric_begin(metrics: &mut RemoteTimelineClientMetrics, op: &UploadOp)
        ensures
            *final(metrics) == metrics_begin(*old(metrics), op@),
    {
        let (file_kind, op_kind, track_bytes) = match Self::calls_unfinished_metric_impl(op) {
            Some(x) => x,
            None => {
                return ;
            },
        };
        metrics.call_begin(file_kind, op_kind, track_bytes);
    }

    /// Counts `op` as done or given up.
    fn calls_unfinished_metric_end(metrics: &mut RemoteTimelineClientMetrics, op: &UploadOp)
        ensures
            *final(metrics) == metrics_end(*old(metrics), op@),
    {
        let (file_kind, op_kind, track_bytes) = match Self::calls_unfinished_metric_impl(op) {
            Some(x) => x,
            None => {
                return ;
            },
        };
        metrics.call_end(file_kind, op_kind, track_bytes);
    }

    /// Close the upload queue for new operations and cancel queued
    /// operations. Operations in progress keep running; when they end, the
    /// stopped queue takes no notice of them.
    ///
    /// Returns the numbers of the barriers that were dropped with the queue:
    /// whoever waits for one of them is to be told that the wait was
    /// aborted. A queue that is stopped already stays as it is.
    pub fn stop(&mut self) -> (r: Result<Vec<u64>, StopError>)
        requires
            old(self).wf(),
        ensures
            final(self).wf(),
            final(self)@ == spec_stop(old(self)@),
            match old(self)@.upload_queue {
                UploadQueueView::Uninitialized => r == Err::<Vec<u64>, StopError>(
                    StopError::QueueUninitialized,
                ),
                UploadQueueView::Stopped(_) => r is Ok && r->Ok_0@ == Seq::<u64>::empty(),
                UploadQueueView::Initialized(q) => r is Ok && r->Ok_0@ == barriers_among(
                    q.queued_operations,
                ),
            },
    {
        let mut metrics = self.metrics;
        let mut aborted: Vec<u64> = Vec::new();
        let stopped = match &self.upload_queue {
            UploadQueue::Uninitialized => {
                return Err(StopError::QueueUninitialized);
            },
            UploadQueue::Stopped(_) => {
                // nothing to do
                return Ok(aborted);
            },
            UploadQueue::Initialized(initialized) => {
                // Keep a working queue for the deletion of the timeline.
                let upload_queue_for_deletion = initialized.for_deletion();
                // Tear down queued ops
                let n = initialized.num_queued_operations();
                let mut i: usize = 0;
                assert(initialized@.queued_operations.take(0) =~= Seq::<UploadOpView>::empty());
                while i < n
                    invariant
                        i <= n,
                        n == initialized@.queued_operations.len(),
                        metrics == metrics_end_all(
                            old(self)@.metrics,
                            initialized@.queued_operations.take(i as int),
                        ),
                        aborted@ == barriers_among(initialized@.queued_operations.take(i as int)),
                    decreases n - i,
                {
                    let op = initialized.queued_op(i);
                    proof {
                        let upto = initialized@.queued_operations.take(i + 1);
                        assert(upto.drop_last() =~= initialized@.queued_operations.take(i as int));
                        assert(upto.last() == op@);
                    }
                    Self::calls_unfinished_metric_end(&mut metrics, op);
                    // Dropping a barrier here makes whoever waits for it
                    // see that the wait was aborted.
                    match op {
                        UploadOp::Barrier(id) => {
                            aborted.push(*id);
                        },
                        _ => {
                            assert(aborted@ + Seq::<u64>::empty() =~= aborted@);
                        },
                    }
                    i += 1;
                }
                assert(initialized@.queued_operations.take(i as int)
                    =~= initialized@.queued_operations);
                UploadQueueStopped {
                    upload_queue_for_deletion,
                    deleted_at: SetDeletedFlagProgress::NotRunning,
                }
            },
        };
        self.upload_queue = UploadQueue::Stopped(stopped);
        self.metrics = metrics;
        Ok(aborted)
    }

    /// Launch an index-file upload operation in the background (internal
    /// function).
    fn schedule_index_upload(
        metrics: &mut RemoteTimelineClientMetrics,
        upload_queue: &mut UploadQueueInitialized,
        metadata_bytes: Vec<u8>,
    ) -> (r: Launched)
        requires
            old(upload_queue).wf(),
            old(upload_queue)@.task_counter + old(upload_queue)@.queued_operations.len()
                < u64::MAX,
        ensures
            final(upload_queue).wf(),
            settled(final(upload_queue)@),
            final(upload_queue)@ == launch(with_index_upload(old(upload_queue)@, metadata_bytes@)),
            launched_is(&r, launch_all(with_index_upload(old(upload_queue)@, metadata_bytes@))),
            *final(metrics) == metrics_begin(
                *old(metrics),
                UploadOpView::UploadMetadata(
                    index_for(old(upload_queue)@, metadata_bytes@),
                    old(upload_queue)@.latest_metadata.spec_disk_consistent_lsn(),
                ),
            ),
    {
        let op = upload_queue.push_index_upload(metadata_bytes);
        metrics.call_begin(
            RemoteOpFileKind::Index,
            RemoteOpKind::Upload,
            RemoteTimelineClientMetricsCallTrackSize::DontTrackSize {
                reason: "metadata uploads are tiny",
            },
        );
        proof {
            lemma_launch_wf(upload_queue@);
        }
        // Launch the task immediately, if possible
        upload_queue.launch_queued_tasks()
    }

    /// Launch an index-file upload operation in the background, with updated
    /// metadata.
    ///
    /// The upload is added to the queue immediately, but it is not performed
    /// until all layer file uploads scheduled before it are done: the index
    /// must not claim a file that is not there. If files changed since the
    /// last index upload was scheduled, the index shows the changes too.
    pub fn schedule_index_upload_for_metadata_update(&mut self, metadata: &TimelineMetadata) -> (r:
        Result<Launched, QueueError>)
        requires
            old(self).wf(),
            old(self).spec_can_schedule(1),
        ensures
            final(self).wf(),
            match old(self)@.upload_queue {
                UploadQueueView::Initialized(q) => {
                    &&& r matches Ok(launched)
                    &&& launched_is(
                        &launched,
                        spec_schedule_index_upload_for_metadata_update(q, *metadata),
                    )
                    &&& final(self)@ == (ClientView {
                        upload_queue: UploadQueueView::Initialized(
                            spec_schedule_index_upload_for_metadata_update(q, *metadata).queue,
                        ),
                        metrics: metrics_begin(
                            old(self)@.metrics,
                            UploadOpView::UploadMetadata(
                                index_for(
                                    QueueView { latest_metadata: *metadata, ..q },
                                    metadata.spec_to_bytes(),
                                ),
                                metadata.spec_disk_consistent_lsn(),
                            ),
                        ),
                        ..old(self)@
                    })
                },
                _ => r matches Err(e) && e == QueueError::NotInitialized && final(self)@ == old(self)@,
            },
    {
        match &mut self.upload_queue {
            UploadQueue::Initialized(upload_queue) => {
                // It is fine for the latest metadata to be ahead of what is
                // on the remote while the index is uploaded.
                upload_queue.set_latest_metadata(*metadata);
                let metadata_bytes = metadata.to_bytes();
                let launched = Self::schedule_index_upload(
                    &mut self.metrics,
                    upload_queue,
                    metadata_bytes,
                );
                Ok(launched)
            },
            _ => Err(QueueError::NotInitialized),
        }
    }

    /// Launch an index-file upload operation in the background, if
    /// necessary.
    ///
    /// If no file uploads or deletions have been scheduled since the last
    /// index upload was scheduled, this does nothing.
    pub fn schedule_index_upload_for_file_changes(&mut self) -> (r: Result<Launched, QueueError>)
        requires
            old(self).wf(),
            old(self).spec_can_schedule(1),
        ensures
            final(self).wf(),
            match old(self)@.upload_queue {
                UploadQueueView::Initialized(q) => {
                    &&& r matches Ok(launched)
                    &&& launched_is(&launched, spec_schedule_index_upload_for_file_changes(q))
                    &&& final(self)@ == (ClientView {
                        upload_queue: UploadQueueView::Initialized(
                            spec_schedule_index_upload_for_file_changes(q).queue,
                        ),
                        metrics: if q.latest_files_changes_since_metadata_upload_scheduled > 0 {
                            metrics_begin(
                                old(self)@.metrics,
                                UploadOpView::UploadMetadata(
                                    index_for(q, q.latest_metadata.spec_to_bytes()),
                                    q.latest_metadata.spec_disk_consistent_lsn(),
                                ),
                            )
                        } else {
                            old(self)@.metrics
                        },
                        ..old(self)@
                    })
                },
                _ => r matches Err(e) && e == QueueError::NotInitialized && final(self)@ == old(self)@,
            },
    {
        match &mut self.upload_queue {
            UploadQueue::Initialized(upload_queue) => {
                if upload_queue.latest_files_changes_since_metadata_upload_scheduled() > 0 {
                    let metadata_bytes = upload_queue.latest_metadata().to_bytes();
                    let launched = Self::schedule_index_upload(
                        &mut self.metrics,
                        upload_queue,
                        metadata_bytes,
                    );
                    Ok(launched)
                } else {
                    Ok(Launched::new())
                }
            },
            _ => Err(QueueError::NotInitialized),
        }
    }

    /// Launch an upload operation in the background.
    ///
    /// The file counts as part of what the remote is to hold from now on,
    /// and its upload starts at once unless an operation that has to wait is
    /// scheduled before it.
    pub fn schedule_layer_file_upload(
        &mut self,
        layer_file_name: &LayerFileName,
        layer_metadata: &LayerFileMetadata,
    ) -> (r: Result<Launched, QueueError>)
        requires
            old(self).wf(),
            old(self).spec_can_schedule(1),
        ensures
            final(self).wf(),
            match old(self)@.upload_queue {
                UploadQueueView::Initialized(q) => {
                    &&& r matches Ok(launched)
                    &&& launched_is(
                        &launched,
                        spec_schedule_layer_file_upload(q, layer_file_name@, *layer_metadata),
                    )
                    &&& final(self)@ == (ClientView {
                        upload_queue: UploadQueueView::Initialized(
                            spec_schedule_layer_file_upload(
                                q,
                                layer_file_name@,
                                *layer_metadata,
                            ).queue,
                        ),
                        metrics: metrics_begin(
                            old(self)@.metrics,
                            UploadOpView::UploadLayer(layer_file_name@, *layer_metadata),
                        ),
                        ..old(self)@
                    })
                },
                _ => r matches Err(e) && e == QueueError::NotInitialized && final(self)@ == old(self)@,
            },
    {
        match &mut self.upload_queue {
            UploadQueue::Initialized(upload_queue) => {
                upload_queue.record_layer(layer_file_name.duplicate(), *layer_metadata);
                let op = UploadOp::UploadLayer(layer_file_name.duplicate(), *layer_metadata);
                Self::calls_unfinished_metric_begin(&mut self.metrics, &op);
                upload_queue.push_op(op);
                proof {
                    lemma_launch_wf(upload_queue@);
                }
                // Launch the task immediately, if possible
                let launched = upload_queue.launch_queued_tasks();
                Ok(launched)
            },
            _ => Err(QueueError::NotInitialized),
        }
    }

    /// Counts the deletion of each of `names` as scheduled.
    fn count_deletions_begun(
        metrics: &mut RemoteTimelineClientMetrics,
        names: &[LayerFileName],
        from_timeline_delete: bool,
    )
        ensures
            *final(metrics) == metrics_begin_all(
                *old(metrics),
                deletions_of(names@.map_values(|n: LayerFileName| n@), from_timeline_delete),
            ),
    {
        let ghost all = deletions_of(
            names@.map_values(|n: LayerFileName| n@),
            from_timeline_delete,
        );
        let mut i: usize = 0;
        assert(all.take(0) =~= Seq::<UploadOpView>::empty());
        while i < names.len()
            invariant
                i <= names@.len(),
                all == deletions_of(names@.map_values(|n: LayerFileName| n@), from_timeline_delete),
                *metrics == metrics_begin_all(*old(metrics), all.take(i as int)),
            decreases names@.len() - i,
        {
            proof {
                assert(all.take(i + 1).drop_last() =~= all.take(i as int));
                assert(all.take(i + 1).last() == all[i as int]);
            }
            metrics.call_begin(
                RemoteOpFileKind::Layer,
                RemoteOpKind::Delete,
                RemoteTimelineClientMetricsCallTrackSize::DontTrackSize {
                    reason: "should we track deletes? positive or negative sign?",
                },
            );
            i += 1;
        }
        assert(all.take(i as int) =~= all);
    }

    /// Launch a delete operation in the background.
    ///
    /// The local files are taken to be gone already; this mirrors their
    /// removal on the remote. The names leave the files that the remote is
    /// to hold at once. An index upload is scheduled before the deletions,
    /// so that no file is deleted while the index on the remote lists it.
    /// With no name at all the call changes nothing and starts nothing.
    pub fn schedule_layer_file_deletion(&mut self, names: &[LayerFileName]) -> (r: Result<
        Launched,
        QueueError,
    >)
        requires
            old(self).wf(),
            old(self).spec_can_schedule((names@.len() + 1) as nat),
        ensures
            final(self).wf(),
            match old(self)@.upload_queue {
                UploadQueueView::Initialized(q) => {
                    &&& r matches Ok(launched)
                    &&& launched_is(
                        &launched,
                        spec_schedule_layer_file_deletion(
                            q,
                            names@.map_values(|n: LayerFileName| n@),
                        ),
                    )
                    &&& final(self)@ == (ClientView {
                        upload_queue: UploadQueueView::Initialized(
                            spec_schedule_layer_file_deletion(
                                q,
                                names@.map_values(|n: LayerFileName| n@),
                            ).queue,
                        ),
                        metrics: metrics_after_deletion(
                            old(self)@.metrics,
                            q,
                            names@.map_values(|n: LayerFileName| n@),
                        ),
                        ..old(self)@
                    })
                },
                _ => r matches Err(e) && e == QueueError::NotInitialized && final(self)@ == old(self)@,
            },
    {
        match &mut self.upload_queue {
            UploadQueue::Initialized(upload_queue) => {
                let ghost q = upload_queue@;
                let ghost name_views = names@.map_values(|n: LayerFileName| n@);
                // With nothing to delete there is nothing to schedule.
                if names.len() == 0 {
                    return Ok(Launched::new());
                }
                // Deleting layers does not change the metadata.
                let metadata_bytes = upload_queue.latest_metadata().to_bytes();
                // Take the files out of the index before deleting them. From
                // here on there is no way back.
                upload_queue.forget_layers(names);
                let mut launched =
                    if upload_queue.latest_files_changes_since_metadata_upload_scheduled() > 0 {
                    Self::schedule_index_upload(&mut self.metrics, upload_queue, metadata_bytes)
                } else {
                    Launched::new()
                };
                proof {
                    lemma_launch_wf(with_index_upload(forget_files(q, name_views), metadata_bytes@));
                }
                // schedule the actual deletions
                Self::count_deletions_begun(&mut self.metrics, names, false);
                upload_queue.push_deletions(names, false);
                proof {
                    lemma_launch_wf(upload_queue@);
                }
                // Launch the tasks immediately, if possible
                let more = upload_queue.launch_queued_tasks();
                launched.append(more);
                Ok(launched)
            },
            _ => Err(QueueError::NotInitialized),
        }
    }

    /// Schedules a barrier with the number given on `upload_queue`.
    fn schedule_barrier(upload_queue: &mut UploadQueueInitialized, barrier: u64) -> (r: Launched)
        requires
            old(upload_queue).wf(),
            old(upload_queue)@.task_counter + old(upload_queue)@.queued_operations.len()
                < u64::MAX,
        ensures
            final(upload_queue).wf(),
            settled(final(upload_queue)@),
            final(upload_queue)@ == spec_schedule_barrier(old(upload_queue)@, barrier).queue,
            launched_is(&r, spec_schedule_barrier(old(upload_queue)@, barrier)),
    {
        let barrier_op = UploadOp::Barrier(barrier);
        upload_queue.push_op(barrier_op);
        // Don't count this kind of operation!
        proof {
            lemma_launch_wf(upload_queue@);
        }
        // Launch the task immediately, if possible
        upload_queue.launch_queued_tasks()
    }

    /// Schedules a barrier behind everything that is scheduled, for whoever
    /// wants to wait until all of it is done.
    ///
    /// Returns the number of the barrier. The wait is over when the barrier
    /// fires, which may be at once: then its number is among the barriers
    /// that fired. If the queue is stopped first, the barrier is dropped and
    /// the wait is aborted.
    pub fn wait_completion(&mut self) -> (r: Result<(u64, Launched), QueueError>)
        requires
            old(self).wf(),
            old(self).spec_can_schedule(1),
        ensures
            final(self).wf(),
            match old(self)@.upload_queue {
                UploadQueueView::Initialized(q) => {
                    &&& r matches Ok(res)
                    &&& res.0 == old(self)@.barrier_counter + 1
                    &&& launched_is(&res.1, spec_schedule_barrier(q, res.0))
                    &&& final(self)@ == (ClientView {
                        upload_queue: UploadQueueView::Initialized(
                            spec_schedule_barrier(q, res.0).queue,
                        ),
                        barrier_counter: res.0,
                        ..old(self)@
                    })
                },
                _ => r matches Err(e) && e == QueueError::NotInitialized && final(self)@ == old(self)@,
            },
    {
        match &mut self.upload_queue {
            UploadQueue::Initialized(upload_queue) => {
                let barrier = self.barrier_counter + 1;
                self.barrier_counter = barrier;
                let launched = Self::schedule_barrier(upload_queue, barrier);
                Ok((barrier, launched))
            },
            _ => Err(QueueError::NotInitialized),
        }
    }

    /// Initialize the queue in stopped state, to go on with a deletion that
    /// a crash or restart interrupted.
    ///
    /// The index must be the index of a deleted timeline: without the mark
    /// it is refused before anything else is looked at. Then the queue is
    /// set up from the index as [`RemoteTimelineClient::init_upload_queue`]
    /// does, stopped, and the mark counts as set at the time that the index
    /// gives.
    pub fn init_upload_queue_stopped_to_continue_deletion(&mut self, index_part: &IndexPart) -> (r:
        Result<(), QueueError>)
        requires
            old(self).wf(),
            index_part.wf(),
        ensures
            final(self).wf(),
            match index_part@.deleted_at {
                None => r == Err::<(), QueueError>(QueueError::NotDeleted) && final(self)@ == old(self)@,
                Some(deleted_at) => match old(self)@.upload_queue {
                    UploadQueueView::Uninitialized => match TimelineMetadata::spec_from_bytes(
                        index_part@.metadata_bytes,
                    ) {
                        Ok(metadata) => r is Ok && final(self)@ == (ClientView {
                            upload_queue: UploadQueueView::Stopped(
                                StoppedView {
                                    upload_queue_for_deletion: queue_from_index(
                                        index_part@,
                                        metadata,
                                    ),
                                    deleted_at: SetDeletedFlagProgress::Successful(deleted_at),
                                },
                            ),
                            metrics: RemoteTimelineClientMetrics {
                                remote_physical_size: saturated_total_size(
                                    index_part@.layer_metadata,
                                ),
                                ..old(self)@.metrics
                            },
                            ..old(self)@
                        }),
                        Err(e) => r == Err::<(), QueueError>(QueueError::InvalidMetadata(e))
                            && final(self)@ == old(self)@,
                    },
                    _ => r == Err::<(), QueueError>(QueueError::AlreadyInitialized) && final(self)@ == old(self)@,
                },
            },
    {
        let deleted_at = match index_part.deleted_at() {
            Some(at) => at,
            None => {
                return Err(QueueError::NotDeleted);
            },
        };
        match self.init_upload_queue(index_part) {
            Ok(()) => {},
            Err(e) => {
                return Err(e);
            },
        }
        let ghost initialized = self@;
        let _ = self.stop();
        assert(self@.upload_queue matches UploadQueueView::Stopped(s) && s.upload_queue_for_deletion
            =~= initialized.upload_queue->Initialized_0);
        match &mut self.upload_queue {
            UploadQueue::Stopped(stopped) => {
                stopped.deleted_at = SetDeletedFlagProgress::Successful(deleted_at);
            },
            _ => {},
        }
        Ok(())
    }

    /// Begins to set the mark of deletion in the remote index file, at the
    /// time given: see [`spec_persist_begin`].
    ///
    /// The caller uploads the index that is returned and reports the end of
    /// the upload with
    /// [`RemoteTimelineClient::persist_index_part_with_deleted_flag_done`].
    pub fn persist_index_part_with_deleted_flag_at(&mut self, now: Timestamp) -> (r: Result<
        IndexPart,
        PersistIndexPartWithDeletedFlagError,
    >)
        requires
            old(self).wf(),
        ensures
            final(self).wf(),
            final(self)@ == spec_persist_begin(old(self)@, now).0,
            match spec_persist_begin(old(self)@, now).1 {
                Ok(index_part) => r matches Ok(i) && i@ == index_part,
                Err(e) => r matches Err(f) && f == e,
            },
    {
        match &mut self.upload_queue {
            UploadQueue::Stopped(stopped) => {
                match stopped.deleted_at {
                    SetDeletedFlagProgress::NotRunning => {},
                    SetDeletedFlagProgress::InProgress(at) => {
                        return Err(PersistIndexPartWithDeletedFlagError::AlreadyInProgress(at));
                    },
                    SetDeletedFlagProgress::Successful(at) => {
                        return Err(PersistIndexPartWithDeletedFlagError::AlreadyDeleted(at));
                    },
                }
                stopped.deleted_at = SetDeletedFlagProgress::InProgress(now);
                let mut index_part = stopped.upload_queue_for_deletion.index_part();
                index_part.set_deleted_at(Some(now));
                Ok(index_part)
            },
            _ => Err(PersistIndexPartWithDeletedFlagError::Other(QueueError::NotStopped)),
        }
    }

    /// Set the mark of deletion in the remote index file, as of now.
    ///
    /// This reads the clock and goes on as
    /// [`RemoteTimelineClient::persist_index_part_with_deleted_flag_at`]
    /// does with the time that it read.
    pub fn persist_index_part_with_deleted_flag(&mut self) -> (r: Result<
        IndexPart,
        PersistIndexPartWithDeletedFlagError,
    >)
        requires
            old(self).wf(),
        ensures
            final(self).wf(),
            exists|now: Timestamp|
                {
                    &&& final(self)@ == (#[trigger] spec_persist_begin(old(self)@, now)).0
                    &&& match spec_persist_begin(old(self)@, now).1 {
                        Ok(index_part) => r matches Ok(i) && i@ == index_part,
                        Err(e) => r matches Err(f) && f == e,
                    }
                },
    {
        let deleted_at = utc_now();
        self.persist_index_part_with_deleted_flag_at(deleted_at)
    }

    /// Ends setting the mark of deletion: see [`spec_persist_end`]. Nothing
    /// happens unless the mark is being set.
    pub fn persist_index_part_with_deleted_flag_done(&mut self, uploaded: bool)
        requires
            old(self).wf(),
        ensures
            final(self).wf(),
            final(self)@ == spec_persist_end(old(self)@, uploaded),
    {
        match &mut self.upload_queue {
            UploadQueue::Stopped(stopped) => {
                match stopped.deleted_at {
                    SetDeletedFlagProgress::InProgress(at) => {
                        if uploaded {
                            // all good, mark as success
                            stopped.deleted_at = SetDeletedFlagProgress::Successful(at);
                        } else {
                            stopped.deleted_at = SetDeletedFlagProgress::NotRunning;
                        }
                    },
                    _ => {},
                }
            },
            _ => {},
        }
    }

    /// Begins to delete everything that the timeline holds on the remote.
    ///
    /// The queue must be stopped and the timeline marked as deleted on the
    /// remote. One deletion is scheduled for each file that the remote is to
    /// hold, on the queue kept for deletion, and a barrier behind them. When
    /// the barrier has fired the caller lists what is left on the remote,
    /// deletes all of it but the index file, see [`files_to_sweep`], and
    /// deletes the index file last: a crash before that leaves the marked
    /// index in place for another try.
    pub fn delete_all(&mut self) -> (r: Result<DeleteAllPlan, QueueError>)
        requires
            old(self).wf(),
            old(self)@.upload_queue matches UploadQueueView::Stopped(s) ==> old(self).spec_can_schedule((s.upload_queue_for_deletion.latest_files.len() + 1) as nat),
        ensures
            final(self).wf(),
            match old(self)@.upload_queue {
                UploadQueueView::Stopped(s) => if s.deleted_at is Successful {
                    &&& r matches Ok(plan)
                    &&& plan.barrier == old(self)@.barrier_counter + 1
                    &&& plan.deletions_queued == s.upload_queue_for_deletion.latest_files.len()
                    &&& launched_is(
                        &plan.launched,
                        spec_delete_all(s.upload_queue_for_deletion, plan.barrier),
                    )
                    &&& final(self)@ == (ClientView {
                        upload_queue: UploadQueueView::Stopped(
                            StoppedView {
                                upload_queue_for_deletion: spec_delete_all(
                                    s.upload_queue_for_deletion,
                                    plan.barrier,
                                ).queue,
                                ..s
                            },
                        ),
                        metrics: metrics_begin_all(
                            old(self)@.metrics,
                            deletions_of(
                                layer_names(s.upload_queue_for_deletion.latest_files),
                                true,
                            ),
                        ),
                        barrier_counter: plan.barrier,
                        ..old(self)@
                    })
                } else {
                    r matches Err(e) && e == QueueError::DeletedAtNotSet && final(self)@ == old(self)@
                },
                _ => r matches Err(e) && e == QueueError::NotStopped && final(self)@ == old(self)@,
            },
    {
        match &mut self.upload_queue {
            UploadQueue::Stopped(stopped) => {
                match stopped.deleted_at {
                    SetDeletedFlagProgress::Successful(_) => {},
                    _ => {
                        return Err(QueueError::DeletedAtNotSet);
                    },
                }
                let ghost q = stopped.upload_queue_for_deletion@;
                // schedule the actual deletions
                let names = stopped.upload_queue_for_deletion.latest_file_names();
                let deletions_queued = names.len();
                Self::count_deletions_begun(&mut self.metrics, names.as_slice(), true);
                stopped.upload_queue_for_deletion.push_deletions(names.as_slice(), true);
                proof {
                    lemma_launch_wf(stopped.upload_queue_for_deletion@);
                }
                let mut launched = stopped.upload_queue_for_deletion.launch_queued_tasks();
                let barrier = self.barrier_counter + 1;
                self.barrier_counter = barrier;
                let more = Self::schedule_barrier(&mut stopped.upload_queue_for_deletion, barrier);
                launched.append(more);
                Ok(DeleteAllPlan { launched, barrier, deletions_queued })
            },
            _ => Err(QueueError::NotStopped),
        }
    }

    /// Counts a download that begins.
    pub fn download_started(&mut self, file_kind: RemoteOpFileKind)
        ensures
            final(self)@ == (ClientView {
                metrics: old(self)@.metrics.spec_call_begin(file_kind, RemoteOpKind::Download, None),
                ..old(self)@
            }),
    {
        self.metrics.call_begin(
            file_kind,
            RemoteOpKind::Download,
            RemoteTimelineClientMetricsCallTrackSize::DontTrackSize {
                reason: "no need for a downloads gauge",
            },
        );
    }

    /// Takes the index file that was downloaded, or the error of the
    /// download.
    ///
    /// The download counts as ended. An index with the mark of deletion is
    /// handed on as the index of a deleted timeline, any other as the index
    /// of a live one, and an error as it is.
    pub fn download_index_file(&mut self, downloaded: Result<IndexPart, DownloadError>) -> (r: Result<
        MaybeDeletedIndexPart,
        DownloadError,
    >)
        ensures
            final(self)@ == (ClientView {
                metrics: old(self)@.metrics.spec_call_end(
                    RemoteOpFileKind::Index,
                    RemoteOpKind::Download,
                    None,
                ),
                ..old(self)@
            }),
            match downloaded {
                Ok(index_part) => if index_part@.deleted_at is Some {
                    r matches Ok(MaybeDeletedIndexPart::Deleted(i)) && i@ == index_part@
                } else {
                    r matches Ok(MaybeDeletedIndexPart::IndexPart(i)) && i@ == index_part@
                },
                Err(e) => r matches Err(f) && f == e,
            },
    {
        self.metrics.call_end(
            RemoteOpFileKind::Index,
            RemoteOpKind::Download,
            RemoteTimelineClientMetricsCallTrackSize::DontTrackSize {
                reason: "no need for a downloads gauge",
            },
        );
        let index_part = match downloaded {
            Ok(i) => i,
            Err(e) => {
                return Err(e);
            },
        };
        if index_part.deleted_at().is_some() {
            Ok(MaybeDeletedIndexPart::Deleted(index_part))
        } else {
            Ok(MaybeDeletedIndexPart::IndexPart(index_part))
        }
    }

    /// Takes the size of the layer file that was downloaded, or the error
    /// of the download.
    ///
    /// The download counts as ended. A file that arrived is one more layer
    /// downloaded on demand, and its size is added to the bytes downloaded
    /// on demand. The result is handed on as it is.
    pub fn download_layer_file(&mut self, downloaded: Result<u64, DownloadError>) -> (r: Result<
        u64,
        DownloadError,
    >)
        ensures
            r == downloaded,
            final(self)@ == (ClientView {
                metrics: {
                    let ended = old(self)@.metrics.spec_call_end(
                        RemoteOpFileKind::Layer,
                        RemoteOpKind::Download,
                        None,
                    );
                    match downloaded {
                        Ok(size) => RemoteTimelineClientMetrics {
                            ondemand_downloaded_layers: ended.ondemand_downloaded_layers.wrapping_add(
                                1,
                            ),
                            ondemand_downloaded_bytes: ended.ondemand_downloaded_bytes.wrapping_add(
                                size,
                            ),
                            ..ended
                        },
                        Err(_) => ended,
                    }
                },
                ..old(self)@
            }),
    {
        self.metrics.call_end(
            RemoteOpFileKind::Layer,
            RemoteOpKind::Download,
            RemoteTimelineClientMetricsCallTrackSize::DontTrackSize {
                reason: "no need for a downloads gauge",
            },
        );
        let downloaded_size = match downloaded {
            Ok(size) => size,
            Err(e) => {
                return Err(e);
            },
        };
        self.metrics.ondemand_downloaded_layers = self.metrics.ondemand_downloaded_layers.wrapping_add(
            1,
        );
        self.metrics.ondemand_downloaded_bytes = self.metrics.ondemand_downloaded_bytes.wrapping_add(
            downloaded_size,
        );
        Ok(downloaded_size)
    }

    /// Says what to do next for a task that was started and has not
    /// succeeded yet.
    ///
    /// If shutdown was requested the queue is stopped, as
    /// [`RemoteTimelineClient::stop`] does, and the task is over. A request
    /// that is under way is never interrupted, so shutdown is looked at only
    /// between attempts. Otherwise the remote is to be asked for what the
    /// operation of the task stands for: see [`request_for`].
    pub fn begin_upload_attempt(&mut self, task: &UploadTask, shutdown_requested: bool) -> (r:
        UploadAttempt)
        requires
            old(self).wf(),
            !(task.op@ is Barrier),
            shutdown_requested ==> !(old(self)@.upload_queue is Uninitialized),
        ensures
            final(self).wf(),
            if shutdown_requested {
                &&& final(self)@ == spec_stop(old(self)@)
                &&& r matches UploadAttempt::Cancelled { aborted }
                &&& aborted@ == (match old(self)@.upload_queue {
                    UploadQueueView::Initialized(q) => barriers_among(q.queued_operations),
                    _ => Seq::<u64>::empty(),
                })
            } else {
                &&& final(self)@ == old(self)@
                &&& r matches UploadAttempt::Perform(request)
                &&& Some(request@) == request_for(task.op@)
            },
    {
        if shutdown_requested {
            match self.stop() {
                Ok(aborted) => {
                    return UploadAttempt::Cancelled { aborted };
                },
                Err(_) => {
                    return UploadAttempt::Cancelled { aborted: Vec::new() };
                },
            }
        }
        let request = match &task.op {
            UploadOp::UploadLayer(layer_file_name, layer_metadata) => RemoteRequest::UploadLayer {
                file_name: layer_file_name.file_name(),
                metadata: *layer_metadata,
            },
            UploadOp::UploadMetadata(index_part, _lsn) => RemoteRequest::UploadIndex(
                index_part.duplicate(),
            ),
            UploadOp::Delete(delete) => RemoteRequest::DeleteLayer {
                file_kind: delete.file_kind,
                file_name: delete.layer_file_name.file_name(),
            },
            // A barrier fires when it is started and is never a task.
            UploadOp::Barrier(_) => vstd::pervasive::unreached(),
        };
        UploadAttempt::Perform(request)
    }

    /// Records a failed attempt of a task and says how to go on.
    ///
    /// Uploads fail now and then for reasons that pass, so a task is tried
    /// again for ever, with a wait that grows with the attempts. The first
    /// [`FAILED_UPLOAD_WARN_THRESHOLD`] failures are logged as information,
    /// the later ones as warnings.
    pub fn upload_attempt_failed(task: &mut UploadTask) -> (r: RetryPlan)
        ensures
            r.attempt == old(task).retries,
            r.level == (if old(task).retries < FAILED_UPLOAD_WARN_THRESHOLD {
                RetryLogLevel::Info
            } else {
                RetryLogLevel::Warn
            }),
            final(task).retries == old(task).retries.wrapping_add(1),
            final(task).task_id == old(task).task_id,
            final(task).op == old(task).op,
    {
        let retries = task.retries;
        task.retries = task.retries.wrapping_add(1);
        RetryPlan {
            attempt: retries,
            level: if retries < FAILED_UPLOAD_WARN_THRESHOLD {
                RetryLogLevel::Info
            } else {
                RetryLogLevel::Warn
            },
        }
    }

    /// Whether the end of `task` can be recorded: its queue, if it has one,
    /// holds it as a task in progress.
    pub fn holds_task(&self, task: &UploadTask) -> (r: bool)
        ensures
            r == (match queue_of_task(self@.upload_queue, task@) {
                Some(q) => q.inprogress_tasks.contains_key(task.task_id),
                None => true,
            }),
    {
        match &self.upload_queue {
            UploadQueue::Initialized(q) => q.is_inprogress(task.task_id),
            UploadQueue::Stopped(stopped) => match &task.op {
                UploadOp::Delete(delete) => if delete.scheduled_from_timeline_delete {
                    stopped.upload_queue_for_deletion.is_inprogress(task.task_id)
                } else {
                    true
                },
                _ => true,
            },
            UploadQueue::Uninitialized => true,
        }
    }

    /// Records that a task has succeeded: see
    /// [`spec_upload_task_completed`].
    ///
    /// Returns the tasks that the end of this one has let start, and the
    /// barriers that it has let fire. When an index upload succeeds, no task
    /// that was started before it is still in progress: every layer upload
    /// that was scheduled before it is done.
    pub fn upload_task_completed(&mut self, task: &UploadTask) -> (r: Launched)
        requires
            old(self).wf(),
            !(old(self)@.upload_queue is Uninitialized),
            queue_of_task(old(self)@.upload_queue, task@) matches Some(q)
                ==> q.inprogress_tasks.contains_key(task.task_id) && q.inprogress_tasks[task.task_id]
                == task.op@,
        ensures
            final(self).wf(),
            final(self)@ == spec_upload_task_completed(old(self)@, task@),
            task.op@ is UploadMetadata ==> forall|other: u64|
                queue_of_task(old(self)@.upload_queue, task@) is Some && (#[trigger] queue_of_task(
                    old(self)@.upload_queue,
                    task@,
                )->0.inprogress_tasks.contains_key(other)) ==> task.task_id <= other,
            r.tasks_view() == (match queue_of_task(old(self)@.upload_queue, task@) {
                Some(q) => launched_tasks(finish_task(q, task.task_id, task.op@)),
                None => Seq::empty(),
            }),
            r.barriers@ == (match queue_of_task(old(self)@.upload_queue, task@) {
                Some(q) => fired_barriers(finish_task(q, task.task_id, task.op@)),
                None => Seq::empty(),
            }),
    {
        match &task.op {
            UploadOp::UploadMetadata(index_part, _) => {
                self.update_remote_physical_size_gauge(Some(index_part));
            },
            _ => {},
        }
        // The task has completed successfully. Remove it from the tasks in
        // progress.
        let launched = match &mut self.upload_queue {
            UploadQueue::Uninitialized => {
                return Launched::new();
            },
            UploadQueue::Stopped(stopped) => {
                // A stopped queue has forgotten its tasks. Only the
                // deletions of the deletion of the timeline are still
                // recorded, on the queue kept for it.
                let from_timeline_delete = match &task.op {
                    UploadOp::Delete(delete) => delete.scheduled_from_timeline_delete,
                    _ => false,
                };
                if !from_timeline_delete {
                    return Launched::new();
                }
                stopped.upload_queue_for_deletion.finish(task);
                proof {
                    lemma_launch_wf(stopped.upload_queue_for_deletion@);
                }
                stopped.upload_queue_for_deletion.launch_queued_tasks()
            },
            UploadQueue::Initialized(upload_queue) => {
                upload_queue.finish(task);
                proof {
                    lemma_launch_wf(upload_queue@);
                }
                // Launch any queued tasks that were unblocked by this one.
                upload_queue.launch_queued_tasks()
            },
        };
        Self::calls_unfinished_metric_end(&mut self.metrics, &task.op);
        launched
    }
}

/// The time of the clock, in UTC. Calls `chrono::Utc::now`, which reads the
/// clock of the system, and takes the seconds and the nanoseconds of its
/// result. Nothing is promised of the time that comes back.
#[verifier::external_body]
fn utc_now() -> Timestamp {
    let now = chrono::Utc::now();
    Timestamp { secs: now.timestamp(), nanos: now.timestamp_subsec_nanos() }
}

/// Whether `bytes` end with `suffix`.
pub open spec fn ends_with(bytes: Seq<u8>, suffix: Seq<u8>) -> bool {
    bytes.len() >= suffix.len() && bytes.subrange(bytes.len() - suffix.len(), bytes.len() as int)
        == suffix
}

/// Whether a key, given by its bytes, is the key of an index file: its last
/// segment, which is what stands behind the last `/`, is the name of the
/// index file.
pub open spec fn spec_is_index_file_path(path: Seq<u8>) -> bool {
    path == index::INDEX_PART_FILE_NAME.spec_bytes() || ends_with(
        path,
        seq![47u8] + index::INDEX_PART_FILE_NAME.spec_bytes(),
    )
}

/// Whether `a[start..]` begins with `b`.
fn bytes_equal_at(a: &[u8], start: usize, b: &[u8]) -> (r: bool)
    requires
        start + b@.len() <= a@.len(),
    ensures
        r == (a@.subrange(start as int, start + b@.len()) == b@),
{
    let len = a.len();
    let mut i: usize = 0;
    while i < b.len()
        invariant
            i <= b@.len(),
            start + b@.len() <= a@.len(),
            len == a@.len(),
            forall|k: int| 0 <= k < i ==> a@[start + k] == b@[k],
        decreases b@.len() - i,
    {
        if a[start + i] != b[i] {
            assert(a@.subrange(start as int, start + b@.len())[i as int] != b@[i as int]);
            return false;
        }
        i += 1;
    }
    assert(a@.subrange(start as int, start + b@.len()) =~= b@);
    true
}

/// Whether a key is the key of an index file: see
/// [`spec_is_index_file_path`].
pub fn is_index_file_path(path: &str) -> (r: bool)
    ensures
        r == spec_is_index_file_path(path.spec_bytes()),
{
    let p = path.as_bytes();
    let name = index::INDEX_PART_FILE_NAME.as_bytes();
    if p.len() == name.len() {
        assert(p@.subrange(0, p@.len() as int) =~= p@);
        let same = bytes_equal_at(p, 0, name);
        proof {
            if ends_with(p@, seq![47u8] + name@) {
                assert((seq![47u8] + name@).len() == name@.len() + 1);
            }
        }
        same
    } else if p.len() > name.len() {
        let at = p.len() - name.len();
        let slash = p[at - 1] == 47;
        let same = bytes_equal_at(p, at, name);
        proof {
            let suffix = seq![47u8] + name@;
            let tail = p@.subrange(at - 1, p@.len() as int);
            assert(suffix.len() == name@.len() + 1);
            if slash && same {
                assert(tail =~= suffix);
            }
            if tail == suffix {
                assert(tail[0] == suffix[0]);
                assert(p@.subrange(at as int, p@.len() as int) =~= tail.subrange(
                    1,
                    tail.len() as int,
                ));
                assert(suffix.subrange(1, suffix.len() as int) =~= name@);
            }
        }
        slash && same
    } else {
        proof {
            assert((seq![47u8] + name@).len() == name@.len() + 1);
        }
        false
    }
}

/// The places, in a listing of the remote, of the files to delete when the
/// remote is swept: those of every key that is not the key of an index
/// file, in the order of the listing. The index file is deleted last, when
/// everything else is gone.
pub open spec fn spec_files_to_sweep(paths: Seq<String>) -> Seq<usize>
    decreases paths.len(),
{
    if paths.len() == 0 {
        Seq::empty()
    } else {
        spec_files_to_sweep(paths.drop_last()) + (if spec_is_index_file_path(
            encode_utf8(paths.last()@),
        ) {
            Seq::<usize>::empty()
        } else {
            seq![(paths.len() - 1) as usize]
        })
    }
}

/// Picks, from a listing of what is left on the remote, the files to delete
/// before the index file: see [`spec_files_to_sweep`].
pub fn files_to_sweep(paths: &Vec<String>) -> (r: Vec<usize>)
    ensures
        r@ == spec_files_to_sweep(paths@),
{
    let mut remaining: Vec<usize> = Vec::new();
    let mut i: usize = 0;
    assert(paths@.take(0) =~= Seq::<String>::empty());
    while i < paths.len()
        invariant
            i <= paths@.len(),
            remaining@ == spec_files_to_sweep(paths@.take(i as int)),
        decreases paths@.len() - i,
    {
        proof {
            assert(paths@.take(i + 1).drop_last() =~= paths@.take(i as int));
            assert(paths@.take(i + 1).last() == paths@[i as int]);
        }
        if !is_index_file_path(paths[i].as_str()) {
            remaining.push(i);
        } else {
            assert(remaining@ + Seq::<usize>::empty() =~= remaining@);
        }
        i += 1;
    }
    assert(paths@.take(i as int) =~= paths@);
    remaining
}

/// Whether a layer file that was moved has the size that its metadata
/// gives. A file of another size is not the file that was meant.
pub fn has_expected_size(layer_metadata: &LayerFileMetadata, size: u64) -> (r: bool)
    ensures
        r == (size == layer_metadata.spec_file_size()),
{
    size == layer_metadata.file_size()
}

} // verus!
