//! The queue of operations on a timeline's remote copy.
//!
//! Operations are started in the order in which they were scheduled, and an
//! operation that cannot start yet holds back all that come after it. A
//! layer upload can always start. An index upload and a barrier start when
//! nothing is in progress. A deletion starts when everything in progress is
//! a deletion. Starting an operation gives it the next task id; a barrier is
//! not run as a task but fires the moment it could start.

use vstd::prelude::*;
use vstd::set_lib::{lemma_len_subset, lemma_subset_equality};
use vstd::std_specs::hash::spec_hash_map_len;
use std::collections::HashMap;
use std::collections::VecDeque;
use crate::lsn::Lsn;
use crate::metadata::TimelineMetadata;
use crate::metrics::RemoteOpFileKind;
use crate::remote_timeline_client::index::{
    distinct_names, files_insert, files_remove_all, lemma_files_insert, lemma_files_remove_all,
    FilesView, IndexPart, IndexPartView, LayerFileMetadata, LayerFileName, LayerFiles, Timestamp,
};

verus! {

/// The deletion of one file, as callers see it.
pub struct DeleteView {
    pub file_kind: RemoteOpFileKind,
    pub layer_file_name: Seq<char>,
    pub scheduled_from_timeline_delete: bool,
}

/// The deletion of one file on the remote.
#[derive(Clone, Debug, PartialEq, Eq)]
pub struct Delete {
    pub file_kind: RemoteOpFileKind,
    pub layer_file_name: LayerFileName,
    /// Whether the deletion is part of the deletion of the whole timeline,
    /// which runs on the queue that a stopped client keeps for it.
    pub scheduled_from_timeline_delete: bool,
}

impl View for Delete {
    type V = DeleteView;

    open spec fn view(&self) -> DeleteView {
        DeleteView {
            file_kind: self.file_kind,
            layer_file_name: self.layer_file_name@,
            scheduled_from_timeline_delete: self.scheduled_from_timeline_delete,
        }
    }
}

/// An operation on the remote, as callers see it.
pub enum UploadOpView {
    UploadLayer(Seq<char>, LayerFileMetadata),
    UploadMetadata(IndexPartView, Lsn),
    Delete(DeleteView),
    Barrier(u64),
}

/// An operation on the remote.
#[derive(Clone, Debug, PartialEq, Eq)]
pub enum UploadOp {
    /// Upload a layer file.
    UploadLayer(LayerFileName, LayerFileMetadata),
    /// Upload the index file, which then says that the position given is on
    /// the remote.
    UploadMetadata(IndexPart, Lsn),
    /// Delete a file.
    Delete(Delete),
    /// Fire the barrier with this number once everything before it is done.
    Barrier(u64),
}

impl View for UploadOp {
    type V = UploadOpView;

    open spec fn view(&self) -> UploadOpView {
        match self {
            UploadOp::UploadLayer(name, metadata) => UploadOpView::UploadLayer(name@, *metadata),
            UploadOp::UploadMetadata(index_part, lsn) => UploadOpView::UploadMetadata(
                index_part@,
                *lsn,
            ),
            UploadOp::Delete(delete) => UploadOpView::Delete(delete@),
            UploadOp::Barrier(id) => UploadOpView::Barrier(*id),
        }
    }
}

impl UploadOp {
    /// A copy of the operation.
    pub fn duplicate(&self) -> (r: UploadOp)
        ensures
            r@ == self@,
    {
        match self {
            UploadOp::UploadLayer(name, metadata) => UploadOp::UploadLayer(
                name.duplicate(),
                *metadata,
            ),
            UploadOp::UploadMetadata(index_part, lsn) => UploadOp::UploadMetadata(
                index_part.duplicate(),
                *lsn,
            ),
            UploadOp::Delete(delete) => UploadOp::Delete(
                Delete {
                    file_kind: delete.file_kind,
                    layer_file_name: delete.layer_file_name.duplicate(),
                    scheduled_from_timeline_delete: delete.scheduled_from_timeline_delete,
                },
            ),
            UploadOp::Barrier(id) => UploadOp::Barrier(*id),
        }
    }
}

/// An operation that was started, as callers see it.
pub struct UploadTaskView {
    pub task_id: u64,
    pub op: UploadOpView,
    pub retries: u32,
}

/// An operation that was started.
#[derive(Clone, Debug, PartialEq, Eq)]
pub struct UploadTask {
    /// Unique within the queue, and larger than the id of any task started
    /// before.
    pub task_id: u64,
    pub op: UploadOp,
    /// Failed attempts so far.
    pub retries: u32,
}

impl View for UploadTask {
    type V = UploadTaskView;

    open spec fn view(&self) -> UploadTaskView {
        UploadTaskView { task_id: self.task_id, op: self.op@, retries: self.retries }
    }
}

/// How far the marking of a timeline as deleted has come.
#[derive(Clone, Copy, Debug, PartialEq, Eq, Structural)]
pub enum SetDeletedFlagProgress {
    NotRunning,
    InProgress(Timestamp),
    Successful(Timestamp),
}

/// An initialized queue as callers see it.
#[verifier::ext_equal]
pub struct QueueView {
    /// The id of the task started last.
    pub task_counter: u64,
    /// The files that the remote is to hold once everything scheduled is
    /// done. It runs ahead of the remote while operations are under way.
    pub latest_files: FilesView,
    /// Files added to or removed from `latest_files` since an index upload
    /// was scheduled last.
    pub latest_files_changes_since_metadata_upload_scheduled: u64,
    /// The metadata that the next index upload carries.
    pub latest_metadata: TimelineMetadata,
    /// The position that the remote index is known to hold.
    pub last_uploaded_consistent_lsn: Lsn,
    pub num_inprogress_layer_uploads: nat,
    pub num_inprogress_metadata_uploads: nat,
    pub num_inprogress_deletions: nat,
    /// The operations in progress, by task id.
    pub inprogress_tasks: Map<u64, UploadOpView>,
    /// The operations that wait to be started, first in front.
    pub queued_operations: Seq<UploadOpView>,
}

/// The ids of the layer uploads in progress.
pub open spec fn layer_upload_ids(tasks: Map<u64, UploadOpView>) -> Set<u64> {
    Set::new(|id: u64| tasks.contains_key(id) && tasks[id] is UploadLayer)
}

/// The ids of the index uploads in progress.
pub open spec fn metadata_upload_ids(tasks: Map<u64, UploadOpView>) -> Set<u64> {
    Set::new(|id: u64| tasks.contains_key(id) && tasks[id] is UploadMetadata)
}

/// The ids of the deletions in progress.
pub open spec fn deletion_ids(tasks: Map<u64, UploadOpView>) -> Set<u64> {
    Set::new(|id: u64| tasks.contains_key(id) && tasks[id] is Delete)
}

/// What holds of a queue at every moment.
///
/// The three counters count the tasks in progress of their kind, and add up
/// to the number of tasks in progress. No barrier is ever in progress. Task
/// ids are positive and at most the id handed out last. An index upload in
/// progress is older than every other task in progress, and a deletion in
/// progress is older than every task in progress that is not a deletion.
/// There are task ids left for all that is queued.
pub open spec fn queue_wf(q: QueueView) -> bool {
    &&& distinct_names(q.latest_files)
    &&& q.inprogress_tasks.dom().finite()
    &&& forall|id: u64| #[trigger]
        q.inprogress_tasks.contains_key(id) ==> 1 <= id <= q.task_counter
            && !(q.inprogress_tasks[id] is Barrier)
    &&& q.num_inprogress_layer_uploads == layer_upload_ids(q.inprogress_tasks).len()
    &&& q.num_inprogress_metadata_uploads == metadata_upload_ids(q.inprogress_tasks).len()
    &&& q.num_inprogress_deletions == deletion_ids(q.inprogress_tasks).len()
    &&& q.num_inprogress_layer_uploads + q.num_inprogress_metadata_uploads
        + q.num_inprogress_deletions == q.inprogress_tasks.dom().len()
    &&& forall|m: u64, t: u64|
        #![trigger q.inprogress_tasks.contains_key(m), q.inprogress_tasks.contains_key(t)]
        q.inprogress_tasks.contains_key(m) && q.inprogress_tasks[m] is UploadMetadata
            && q.inprogress_tasks.contains_key(t) ==> m <= t
    &&& forall|d: u64, t: u64|
        #![trigger q.inprogress_tasks.contains_key(d), q.inprogress_tasks.contains_key(t)]
        q.inprogress_tasks.contains_key(d) && q.inprogress_tasks[d] is Delete
            && q.inprogress_tasks.contains_key(t) && t < d ==> q.inprogress_tasks[t] is Delete
    &&& q.task_counter + q.queued_operations.len() <= u64::MAX
}

/// Whether the operation in front of the queue can be started now.
pub open spec fn can_run_now(q: QueueView) -> bool {
    match q.queued_operations[0] {
        UploadOpView::UploadLayer(_, _) => true,
        UploadOpView::UploadMetadata(_, _) => q.inprogress_tasks.dom().len() == 0,
        UploadOpView::Delete(_) => q.num_inprogress_deletions == q.inprogress_tasks.dom().len(),
        UploadOpView::Barrier(_) => q.inprogress_tasks.dom().len() == 0,
    }
}

/// The queue after the operation in front was started: a barrier just
/// leaves the queue; any other operation gets the next task id and is in
/// progress.
pub open spec fn start_front(q: QueueView) -> QueueView {
    let op = q.queued_operations[0];
    let rest = q.queued_operations.drop_first();
    let id = (q.task_counter + 1) as u64;
    match op {
        UploadOpView::Barrier(_) => QueueView { queued_operations: rest, ..q },
        UploadOpView::UploadLayer(_, _) => QueueView {
            queued_operations: rest,
            task_counter: id,
            inprogress_tasks: q.inprogress_tasks.insert(id, op),
            num_inprogress_layer_uploads: q.num_inprogress_layer_uploads + 1,
            ..q
        },
        UploadOpView::UploadMetadata(_, _) => QueueView {
            queued_operations: rest,
            task_counter: id,
            inprogress_tasks: q.inprogress_tasks.insert(id, op),
            num_inprogress_metadata_uploads: q.num_inprogress_metadata_uploads + 1,
            ..q
        },
        UploadOpView::Delete(_) => QueueView {
            queued_operations: rest,
            task_counter: id,
            inprogress_tasks: q.inprogress_tasks.insert(id, op),
            num_inprogress_deletions: q.num_inprogress_deletions + 1,
            ..q
        },
    }
}

/// The queue after everything was started that can be: operations are
/// started from the front for as long as the one in front can start.
pub open spec fn launch(q: QueueView) -> QueueView
    decreases q.queued_operations.len(),
{
    if q.queued_operations.len() > 0 && can_run_now(q) {
        launch(start_front(q))
    } else {
        q
    }
}

/// The tasks that [`launch`] starts, in the order in which it starts them.
pub open spec fn launched_tasks(q: QueueView) -> Seq<UploadTaskView>
    decreases q.queued_operations.len(),
{
    if q.queued_operations.len() > 0 && can_run_now(q) {
        (if q.queued_operations[0] is Barrier {
            Seq::<UploadTaskView>::empty()
        } else {
            seq![
                UploadTaskView {
                    task_id: (q.task_counter + 1) as u64,
                    op: q.queued_operations[0],
                    retries: 0,
                },
            ]
        }) + launched_tasks(start_front(q))
    } else {
        Seq::empty()
    }
}

/// The barriers that [`launch`] fires, in the order in which it fires them.
pub open spec fn fired_barriers(q: QueueView) -> Seq<u64>
    decreases q.queued_operations.len(),
{
    if q.queued_operations.len() > 0 && can_run_now(q) {
        (match q.queued_operations[0] {
            UploadOpView::Barrier(id) => seq![id],
            _ => Seq::<u64>::empty(),
        }) + fired_barriers(start_front(q))
    } else {
        Seq::empty()
    }
}

/// The queue with `op` scheduled behind everything else.
pub open spec fn enqueue(q: QueueView, op: UploadOpView) -> QueueView {
    QueueView { queued_operations: q.queued_operations.push(op), ..q }
}

/// The queue after task `task_id`, whose operation was `op`, is done: it is
/// in progress no more, and a finished index upload moves the position that
/// the remote is known to hold.
pub open spec fn finish_task(q: QueueView, task_id: u64, op: UploadOpView) -> QueueView {
    let tasks = q.inprogress_tasks.remove(task_id);
    match op {
        UploadOpView::UploadLayer(_, _) => QueueView {
            inprogress_tasks: tasks,
            num_inprogress_layer_uploads: (q.num_inprogress_layer_uploads - 1) as nat,
            ..q
        },
        UploadOpView::UploadMetadata(_, lsn) => QueueView {
            inprogress_tasks: tasks,
            num_inprogress_metadata_uploads: (q.num_inprogress_metadata_uploads - 1) as nat,
            last_uploaded_consistent_lsn: lsn,
            ..q
        },
        UploadOpView::Delete(_) => QueueView {
            inprogress_tasks: tasks,
            num_inprogress_deletions: (q.num_inprogress_deletions - 1) as nat,
            ..q
        },
        UploadOpView::Barrier(_) => q,
    }
}

/// The ids of each kind are among the ids in progress, so there are
/// finitely many of them.
pub proof fn lemma_kind_ids_finite(tasks: Map<u64, UploadOpView>)
    requires
        tasks.dom().finite(),
    ensures
        layer_upload_ids(tasks).finite(),
        metadata_upload_ids(tasks).finite(),
        deletion_ids(tasks).finite(),
        layer_upload_ids(tasks).len() <= tasks.dom().len(),
        metadata_upload_ids(tasks).len() <= tasks.dom().len(),
        deletion_ids(tasks).len() <= tasks.dom().len(),
{
    lemma_len_subset(layer_upload_ids(tasks), tasks.dom());
    lemma_len_subset(metadata_upload_ids(tasks), tasks.dom());
    lemma_len_subset(deletion_ids(tasks), tasks.dom());
}

/// When the counter of deletions equals the number of tasks in progress,
/// every task in progress is a deletion.
pub proof fn lemma_only_deletions_in_progress(q: QueueView)
    requires
        queue_wf(q),
        q.num_inprogress_deletions == q.inprogress_tasks.dom().len(),
    ensures
        forall|id: u64| #[trigger] q.inprogress_tasks.contains_key(id) ==> q.inprogress_tasks[id] is Delete,
{
    lemma_kind_ids_finite(q.inprogress_tasks);
    lemma_subset_equality(deletion_ids(q.inprogress_tasks), q.inprogress_tasks.dom());
    assert forall|id: u64| #[trigger] q.inprogress_tasks.contains_key(id) implies q.inprogress_tasks[id] is Delete by {
        assert(deletion_ids(q.inprogress_tasks).contains(id));
    }
}

/// The counters of the operations in progress add up to the number of tasks
/// in progress, and each of them counts the tasks of its kind.
pub proof fn lemma_inprogress_counters(q: QueueView)
    requires
        queue_wf(q),
    ensures
        q.num_inprogress_layer_uploads + q.num_inprogress_metadata_uploads
            + q.num_inprogress_deletions == q.inprogress_tasks.dom().len(),
        q.num_inprogress_layer_uploads == layer_upload_ids(q.inprogress_tasks).len(),
        q.num_inprogress_metadata_uploads == metadata_upload_ids(q.inprogress_tasks).len(),
        q.num_inprogress_deletions == deletion_ids(q.inprogress_tasks).len(),
{
}

/// While an index upload is in progress, no operation that was scheduled
/// before it is: every other task in progress was started after it, and
/// tasks are started in the order in which their operations were scheduled.
/// So when an index upload succeeds, every layer upload scheduled before it
/// is done.
pub proof fn lemma_index_upload_is_oldest(q: QueueView, index_upload: u64, other: u64)
    requires
        queue_wf(q),
        q.inprogress_tasks.contains_key(index_upload),
        q.inprogress_tasks[index_upload] is UploadMetadata,
        q.inprogress_tasks.contains_key(other),
    ensures
        index_upload <= other,
        other != index_upload ==> index_upload < other,
{
}

/// An index upload starts only when nothing is in progress, and it gets an
/// id larger than every id before it.
pub proof fn lemma_index_upload_starts_alone(q: QueueView)
    requires
        queue_wf(q),
        q.queued_operations.len() > 0,
        q.queued_operations[0] is UploadMetadata,
        can_run_now(q),
    ensures
        start_front(q).inprogress_tasks.dom() == set![(q.task_counter + 1) as u64],
        start_front(q).num_inprogress_layer_uploads == 0,
        start_front(q).num_inprogress_deletions == 0,
{
    lemma_start_front_wf(q);
    lemma_kind_ids_finite(q.inprogress_tasks);
    assert(q.inprogress_tasks.dom() =~= Set::empty());
    assert(layer_upload_ids(q.inprogress_tasks) =~= Set::empty());
    assert(deletion_ids(q.inprogress_tasks) =~= Set::empty());
    assert(start_front(q).inprogress_tasks.dom() =~= set![(q.task_counter + 1) as u64]);
}

/// A deletion starts only when everything in progress is a deletion: the
/// uploads scheduled before it are done.
pub proof fn lemma_deletion_waits_for_uploads(q: QueueView, id: u64)
    requires
        queue_wf(q),
        q.queued_operations.len() > 0,
        q.queued_operations[0] is Delete,
        can_run_now(q),
        q.inprogress_tasks.contains_key(id),
    ensures
        q.inprogress_tasks[id] is Delete,
{
    lemma_only_deletions_in_progress(q);
}

/// Starting the operation in front keeps the queue as it must be.
pub proof fn lemma_start_front_wf(q: QueueView)
    requires
        queue_wf(q),
        q.queued_operations.len() > 0,
        can_run_now(q),
    ensures
        queue_wf(start_front(q)),
        start_front(q).queued_operations.len() == q.queued_operations.len() - 1,
{
    let op = q.queued_operations[0];
    let n = start_front(q);
    let id = (q.task_counter + 1) as u64;
    lemma_kind_ids_finite(q.inprogress_tasks);
    if op is Barrier {
    } else {
        assert(!q.inprogress_tasks.contains_key(id));
        assert(n.inprogress_tasks.dom() =~= q.inprogress_tasks.dom().insert(id));
        if op is UploadLayer {
            assert(layer_upload_ids(n.inprogress_tasks) =~= layer_upload_ids(
                q.inprogress_tasks,
            ).insert(id));
            assert(metadata_upload_ids(n.inprogress_tasks) =~= metadata_upload_ids(
                q.inprogress_tasks,
            ));
            assert(deletion_ids(n.inprogress_tasks) =~= deletion_ids(q.inprogress_tasks));
        } else if op is UploadMetadata {
            assert(q.inprogress_tasks.dom() =~= Set::empty());
            assert(layer_upload_ids(n.inprogress_tasks) =~= layer_upload_ids(q.inprogress_tasks));
            assert(metadata_upload_ids(n.inprogress_tasks) =~= metadata_upload_ids(
                q.inprogress_tasks,
            ).insert(id));
            assert(deletion_ids(n.inprogress_tasks) =~= deletion_ids(q.inprogress_tasks));
        } else {
            lemma_only_deletions_in_progress(q);
            assert(layer_upload_ids(n.inprogress_tasks) =~= layer_upload_ids(q.inprogress_tasks));
            assert(metadata_upload_ids(n.inprogress_tasks) =~= metadata_upload_ids(
                q.inprogress_tasks,
            ));
            assert(deletion_ids(n.inprogress_tasks) =~= deletion_ids(q.inprogress_tasks).insert(
                id,
            ));
        }
        assert forall|m: u64, t: u64|
            n.inprogress_tasks.contains_key(m) && n.inprogress_tasks[m] is UploadMetadata
                && n.inprogress_tasks.contains_key(t) implies m <= t by {
            if m != id && t != id {
                assert(q.inprogress_tasks.contains_key(m) && q.inprogress_tasks.contains_key(t));
            } else if m != id {
                assert(q.inprogress_tasks.contains_key(m));
            } else if t != id {
                assert(q.inprogress_tasks.contains_key(t));
            }
        }
        assert forall|d: u64, t: u64|
            n.inprogress_tasks.contains_key(d) && n.inprogress_tasks[d] is Delete
                && n.inprogress_tasks.contains_key(t) && t < d implies n.inprogress_tasks[t] is Delete by {
            if d != id && t != id {
                assert(q.inprogress_tasks.contains_key(d) && q.inprogress_tasks.contains_key(t));
            } else if d != id {
                assert(q.inprogress_tasks.contains_key(d));
            } else if t != id {
                assert(q.inprogress_tasks.contains_key(t));
            }
        }
    }
}

/// Starting everything that can start keeps the queue as it must be, and
/// leaves in front, if anything, an operation that cannot start yet.
pub proof fn lemma_launch_wf(q: QueueView)
    requires
        queue_wf(q),
    ensures
        queue_wf(launch(q)),
        launch(q).queued_operations.len() > 0 ==> !can_run_now(launch(q)),
        launch(q).queued_operations.len() <= q.queued_operations.len(),
        launch(q).latest_files == q.latest_files,
        launch(q).latest_files_changes_since_metadata_upload_scheduled
            == q.latest_files_changes_since_metadata_upload_scheduled,
        launch(q).latest_metadata == q.latest_metadata,
        launch(q).last_uploaded_consistent_lsn == q.last_uploaded_consistent_lsn,
        launch(q).task_counter + launch(q).queued_operations.len() <= q.task_counter
            + q.queued_operations.len(),
        settled(launch(q)),
    decreases q.queued_operations.len(),
{
    if q.queued_operations.len() > 0 && can_run_now(q) {
        lemma_start_front_wf(q);
        lemma_launch_wf(start_front(q));
    }
}

/// Nothing jumps the queue: what is started is what stood in front, in its
/// order, and what stays is what stood behind it. Every operation that was
/// taken from the queue became a task or was a barrier that fired, and the
/// tasks got the next ids one after the other.
pub proof fn lemma_launch_keeps_order(q: QueueView)
    requires
        queue_wf(q),
    ensures
        launch(q).queued_operations.len() <= q.queued_operations.len(),
        launch(q).queued_operations == q.queued_operations.skip(
            q.queued_operations.len() - launch(q).queued_operations.len(),
        ),
        launched_tasks(q).len() + fired_barriers(q).len() == q.queued_operations.len() - launch(
            q,
        ).queued_operations.len(),
        launch(q).task_counter == q.task_counter + launched_tasks(q).len(),
        forall|i: int|
            0 <= i < launched_tasks(q).len() ==> (#[trigger] launched_tasks(q)[i]).task_id
                == q.task_counter + 1 + i,
    decreases q.queued_operations.len(),
{
    if q.queued_operations.len() > 0 && can_run_now(q) {
        let n = start_front(q);
        lemma_start_front_wf(q);
        lemma_launch_keeps_order(n);
        let k = n.queued_operations.len() - launch(n).queued_operations.len();
        assert(n.queued_operations.skip(k) =~= q.queued_operations.skip(k + 1));
        if q.queued_operations[0] is Barrier {
            assert(launched_tasks(q) =~= launched_tasks(n));
        } else {
            assert(launched_tasks(q)[0].task_id == q.task_counter + 1);
            assert forall|i: int| 0 <= i < launched_tasks(q).len() implies (#[trigger] launched_tasks(
                q,
            )[i]).task_id == q.task_counter + 1 + i by {
                if i > 0 {
                    assert(launched_tasks(q)[i] == launched_tasks(n)[i - 1]);
                }
            }
        }
    } else {
        assert(q.queued_operations.skip(0) =~= q.queued_operations);
    }
}

/// Scheduling an operation keeps the queue as it must be, as long as task
/// ids are left.
pub proof fn lemma_enqueue_wf(q: QueueView, op: UploadOpView)
    requires
        queue_wf(q),
        q.task_counter + q.queued_operations.len() < u64::MAX,
    ensures
        queue_wf(enqueue(q, op)),
{
}

/// Finishing a task that is in progress keeps the queue as it must be.
pub proof fn lemma_finish_task_wf(q: QueueView, task_id: u64)
    requires
        queue_wf(q),
        q.inprogress_tasks.contains_key(task_id),
    ensures
        queue_wf(finish_task(q, task_id, q.inprogress_tasks[task_id])),
        q.inprogress_tasks[task_id] is UploadLayer ==> q.num_inprogress_layer_uploads > 0,
        q.inprogress_tasks[task_id] is UploadMetadata ==> q.num_inprogress_metadata_uploads > 0,
        q.inprogress_tasks[task_id] is Delete ==> q.num_inprogress_deletions > 0,
{
    let op = q.inprogress_tasks[task_id];
    let n = finish_task(q, task_id, op);
    lemma_kind_ids_finite(q.inprogress_tasks);
    assert(n.inprogress_tasks.dom() =~= q.inprogress_tasks.dom().remove(task_id));
    if op is UploadLayer {
        assert(layer_upload_ids(q.inprogress_tasks).contains(task_id));
        assert(layer_upload_ids(n.inprogress_tasks) =~= layer_upload_ids(
            q.inprogress_tasks,
        ).remove(task_id));
        assert(metadata_upload_ids(n.inprogress_tasks) =~= metadata_upload_ids(
            q.inprogress_tasks,
        ));
        assert(deletion_ids(n.inprogress_tasks) =~= deletion_ids(q.inprogress_tasks));
    } else if op is UploadMetadata {
        assert(metadata_upload_ids(q.inprogress_tasks).contains(task_id));
        assert(layer_upload_ids(n.inprogress_tasks) =~= layer_upload_ids(q.inprogress_tasks));
        assert(metadata_upload_ids(n.inprogress_tasks) =~= metadata_upload_ids(
            q.inprogress_tasks,
        ).remove(task_id));
        assert(deletion_ids(n.inprogress_tasks) =~= deletion_ids(q.inprogress_tasks));
    } else {
        assert(op is Delete);
        assert(deletion_ids(q.inprogress_tasks).contains(task_id));
        assert(layer_upload_ids(n.inprogress_tasks) =~= layer_upload_ids(q.inprogress_tasks));
        assert(metadata_upload_ids(n.inprogress_tasks) =~= metadata_upload_ids(
            q.inprogress_tasks,
        ));
        assert(deletion_ids(n.inprogress_tasks) =~= deletion_ids(q.inprogress_tasks).remove(
            task_id,
        ));
    }
    assert forall|m: u64, t: u64|
        n.inprogress_tasks.contains_key(m) && n.inprogress_tasks[m] is UploadMetadata
            && n.inprogress_tasks.contains_key(t) implies m <= t by {
        assert(q.inprogress_tasks.contains_key(m) && q.inprogress_tasks.contains_key(t));
    }
    assert forall|d: u64, t: u64|
        n.inprogress_tasks.contains_key(d) && n.inprogress_tasks[d] is Delete
            && n.inprogress_tasks.contains_key(t) && t < d implies n.inprogress_tasks[t] is Delete by {
        assert(q.inprogress_tasks.contains_key(d) && q.inprogress_tasks.contains_key(t));
    }
}

/// The queue after `name` was recorded among the files that the remote is
/// to hold: one more change that the index does not show yet.
pub open spec fn record_file(q: QueueView, name: Seq<char>, metadata: LayerFileMetadata) -> QueueView {
    QueueView {
        latest_files: files_insert(q.latest_files, name, metadata),
        latest_files_changes_since_metadata_upload_scheduled: (
        q.latest_files_changes_since_metadata_upload_scheduled + 1) as u64,
        ..q
    }
}

/// The queue after `names` were taken from the files that the remote is to
/// hold: one more change for each name, whether or not it was among them.
pub open spec fn forget_files(q: QueueView, names: Seq<Seq<char>>) -> QueueView {
    QueueView {
        latest_files: files_remove_all(q.latest_files, names),
        latest_files_changes_since_metadata_upload_scheduled: (
        q.latest_files_changes_since_metadata_upload_scheduled + names.len()) as u64,
        ..q
    }
}

/// The index that lists the files that the remote is to hold, with the
/// position of the latest metadata and the serialized metadata given.
pub open spec fn index_for(q: QueueView, metadata_bytes: Seq<u8>) -> IndexPartView {
    IndexPartView {
        layer_metadata: q.latest_files,
        disk_consistent_lsn: q.latest_metadata.spec_disk_consistent_lsn(),
        metadata_bytes,
        deleted_at: None,
    }
}

/// The queue after an index upload was scheduled: the index shows every
/// change so far.
pub open spec fn with_index_upload(q: QueueView, metadata_bytes: Seq<u8>) -> QueueView {
    enqueue(
        QueueView { latest_files_changes_since_metadata_upload_scheduled: 0, ..q },
        UploadOpView::UploadMetadata(
            index_for(q, metadata_bytes),
            q.latest_metadata.spec_disk_consistent_lsn(),
        ),
    )
}

/// The deletions of layer files `names`, one for each name.
pub open spec fn deletions_of(names: Seq<Seq<char>>, from_timeline_delete: bool) -> Seq<
    UploadOpView,
> {
    names.map_values(
        |name: Seq<char>|
            UploadOpView::Delete(
                DeleteView {
                    file_kind: RemoteOpFileKind::Layer,
                    layer_file_name: name,
                    scheduled_from_timeline_delete: from_timeline_delete,
                },
            ),
    )
}

/// The queue with `ops` scheduled behind everything else.
pub open spec fn enqueue_all(q: QueueView, ops: Seq<UploadOpView>) -> QueueView {
    QueueView { queued_operations: q.queued_operations + ops, ..q }
}

/// What starting operations hands to the caller: the tasks to run, and the
/// barriers that fired.
#[derive(Debug)]
pub struct Launched {
    /// The tasks that were started, in the order of their ids.
    pub tasks: Vec<UploadTask>,
    /// The numbers of the barriers that fired, in the order in which they
    /// were scheduled.
    pub barriers: Vec<u64>,
}

impl Launched {
    /// The tasks that were started, as callers see them.
    pub open spec fn tasks_view(&self) -> Seq<UploadTaskView> {
        self.tasks@.map_values(|t: UploadTask| t@)
    }

    /// Adds what `other` holds behind what is held already.
    pub fn append(&mut self, other: Launched)
        ensures
            final(self).tasks_view() == old(self).tasks_view() + other.tasks_view(),
            final(self).barriers@ == old(self).barriers@ + other.barriers@,
    {
        let ghost other_tasks = other.tasks_view();
        let mut rest = other;
        self.tasks.append(&mut rest.tasks);
        self.barriers.append(&mut rest.barriers);
        assert(self.tasks_view() =~= old(self).tasks_view() + other_tasks);
    }

    /// Nothing started, nothing fired: both lists are empty.
    pub fn new() -> (r: Launched)
        ensures
            r.tasks@ == Seq::<UploadTask>::empty(),
            r.tasks_view() == Seq::<UploadTaskView>::empty(),
            r.barriers@ == Seq::<u64>::empty(),
    {
        let r = Launched { tasks: Vec::new(), barriers: Vec::new() };
        assert(r.tasks_view() =~= Seq::<UploadTaskView>::empty());
        r
    }
}

/// A queue without tasks and without operations, for these files and this
/// metadata.
pub open spec fn fresh_queue(
    latest_files: FilesView,
    latest_metadata: TimelineMetadata,
    last_uploaded_consistent_lsn: Lsn,
) -> QueueView {
    QueueView {
        task_counter: 0,
        latest_files,
        latest_files_changes_since_metadata_upload_scheduled: 0,
        latest_metadata,
        last_uploaded_consistent_lsn,
        num_inprogress_layer_uploads: 0,
        num_inprogress_metadata_uploads: 0,
        num_inprogress_deletions: 0,
        inprogress_tasks: Map::empty(),
        queued_operations: Seq::empty(),
    }
}

/// A fresh queue is as a queue must be.
pub proof fn lemma_fresh_queue_wf(
    latest_files: FilesView,
    latest_metadata: TimelineMetadata,
    last_uploaded_consistent_lsn: Lsn,
)
    requires
        distinct_names(latest_files),
    ensures
        queue_wf(fresh_queue(latest_files, latest_metadata, last_uploaded_consistent_lsn)),
{
    let q = fresh_queue(latest_files, latest_metadata, last_uploaded_consistent_lsn);
    assert(layer_upload_ids(q.inprogress_tasks) =~= Set::empty());
    assert(metadata_upload_ids(q.inprogress_tasks) =~= Set::empty());
    assert(deletion_ids(q.inprogress_tasks) =~= Set::empty());
    assert(q.inprogress_tasks.dom() =~= Set::empty());
}

/// The state of a queue that takes operations.
#[derive(Debug)]
pub struct UploadQueueInitialized {
    pub(crate) task_counter: u64,
    pub(crate) latest_files: LayerFiles,
    pub(crate) latest_files_changes_since_metadata_upload_scheduled: u64,
    pub(crate) latest_metadata: TimelineMetadata,
    pub(crate) last_uploaded_consistent_lsn: Lsn,
    pub(crate) num_inprogress_layer_uploads: usize,
    pub(crate) num_inprogress_metadata_uploads: usize,
    pub(crate) num_inprogress_deletions: usize,
    pub(crate) inprogress_tasks: HashMap<u64, UploadTask>,
    pub(crate) queued_operations: VecDeque<UploadOp>,
}

impl View for UploadQueueInitialized {
    type V = QueueView;

    closed spec fn view(&self) -> QueueView {
        QueueView {
            task_counter: self.task_counter,
            latest_files: self.latest_files@,
            latest_files_changes_since_metadata_upload_scheduled: self.latest_files_changes_since_metadata_upload_scheduled,
            latest_metadata: self.latest_metadata,
            last_uploaded_consistent_lsn: self.last_uploaded_consistent_lsn,
            num_inprogress_layer_uploads: self.num_inprogress_layer_uploads as nat,
            num_inprogress_metadata_uploads: self.num_inprogress_metadata_uploads as nat,
            num_inprogress_deletions: self.num_inprogress_deletions as nat,
            inprogress_tasks: self.inprogress_tasks@.map_values(|t: UploadTask| t.op@),
            queued_operations: self.queued_operations@.map_values(|o: UploadOp| o@),
        }
    }
}

impl UploadQueueInitialized {
    /// The queue is as [`queue_wf`] says.
    pub open spec fn wf(&self) -> bool {
        queue_wf(self@)
    }

    /// A queue without tasks and without operations.
    pub fn new(
        latest_files: LayerFiles,
        latest_metadata: TimelineMetadata,
        last_uploaded_consistent_lsn: Lsn,
    ) -> (r: UploadQueueInitialized)
        requires
            latest_files.wf(),
        ensures
            r.wf(),
            r@ == fresh_queue(latest_files@, latest_metadata, last_uploaded_consistent_lsn),
    {
        let r = UploadQueueInitialized {
            task_counter: 0,
            latest_files,
            latest_files_changes_since_metadata_upload_scheduled: 0,
            latest_metadata,
            last_uploaded_consistent_lsn,
            num_inprogress_layer_uploads: 0,
            num_inprogress_metadata_uploads: 0,
            num_inprogress_deletions: 0,
            inprogress_tasks: HashMap::new(),
            queued_operations: VecDeque::new(),
        };
        proof {
            lemma_fresh_queue_wf(latest_files@, latest_metadata, last_uploaded_consistent_lsn);
            assert(r@.inprogress_tasks =~= Map::empty());
            assert(r@.queued_operations =~= Seq::empty());
            assert(r@ =~= fresh_queue(latest_files@, latest_metadata, last_uploaded_consistent_lsn));
        }
        r
    }

    /// The id of the task started last.
    pub fn task_counter(&self) -> (r: u64)
        ensures
            r == self@.task_counter,
    {
        self.task_counter
    }

    /// The files that the remote is to hold in the end.
    pub fn latest_files(&self) -> (r: &LayerFiles)
        ensures
            r@ == self@.latest_files,
    {
        &self.latest_files
    }

    /// Changes to the files since an index upload was scheduled last.
    pub fn latest_files_changes_since_metadata_upload_scheduled(&self) -> (r: u64)
        ensures
            r == self@.latest_files_changes_since_metadata_upload_scheduled,
    {
        self.latest_files_changes_since_metadata_upload_scheduled
    }

    /// The metadata that the next index upload carries.
    pub fn latest_metadata(&self) -> (r: TimelineMetadata)
        ensures
            r == self@.latest_metadata,
    {
        self.latest_metadata
    }

    /// The position that the remote index is known to hold.
    pub fn last_uploaded_consistent_lsn(&self) -> (r: Lsn)
        ensures
            r == self@.last_uploaded_consistent_lsn,
    {
        self.last_uploaded_consistent_lsn
    }

    /// Layer uploads in progress.
    pub fn num_inprogress_layer_uploads(&self) -> (r: usize)
        ensures
            r == self@.num_inprogress_layer_uploads,
    {
        self.num_inprogress_layer_uploads
    }

    /// Index uploads in progress.
    pub fn num_inprogress_metadata_uploads(&self) -> (r: usize)
        ensures
            r == self@.num_inprogress_metadata_uploads,
    {
        self.num_inprogress_metadata_uploads
    }

    /// Deletions in progress.
    pub fn num_inprogress_deletions(&self) -> (r: usize)
        ensures
            r == self@.num_inprogress_deletions,
    {
        self.num_inprogress_deletions
    }

    /// Tasks in progress.
    pub fn num_inprogress_tasks(&self) -> (r: usize)
        ensures
            r == self@.inprogress_tasks.dom().len(),
    {
        assert(self@.inprogress_tasks.dom() =~= self.inprogress_tasks@.dom());
        self.inprogress_tasks.len()
    }

    /// Whether task `task_id` is in progress.
    pub fn is_inprogress(&self, task_id: u64) -> (r: bool)
        ensures
            r == self@.inprogress_tasks.contains_key(task_id),
    {
        self.inprogress_tasks.contains_key(&task_id)
    }

    /// Operations that wait to be started.
    pub fn num_queued_operations(&self) -> (r: usize)
        ensures
            r == self@.queued_operations.len(),
    {
        self.queued_operations.len()
    }

    /// Whether nothing is in progress and nothing waits.
    pub fn no_pending_work(&self) -> (r: bool)
        ensures
            r == (self@.inprogress_tasks.dom().len() == 0 && self@.queued_operations.len() == 0),
    {
        assert(self@.inprogress_tasks.dom() =~= self.inprogress_tasks@.dom());
        self.inprogress_tasks.len() == 0 && self.queued_operations.len() == 0
    }

    /// Whether there are task ids left for `n` more operations, and room in
    /// the counter of changes for as many.
    pub open spec fn spec_can_schedule(&self, n: nat) -> bool {
        &&& self@.task_counter + self@.queued_operations.len() + n <= u64::MAX
        &&& self@.latest_files_changes_since_metadata_upload_scheduled + n <= u64::MAX
    }

    /// Whether there are task ids left for `n` more operations, and room in
    /// the counter of changes for as many.
    pub fn can_schedule(&self, n: usize) -> (r: bool)
        ensures
            r == self.spec_can_schedule(n as nat),
    {
        let queued = self.queued_operations.len();
        let n64 = n as u64;
        let q64 = queued as u64;
        q64 <= u64::MAX - self.task_counter && n64 <= u64::MAX - self.task_counter - q64 && n64
            <= u64::MAX - self.latest_files_changes_since_metadata_upload_scheduled
    }

    /// Records `name` among the files that the remote is to hold: see
    /// [`record_file`].
    pub(crate) fn record_layer(&mut self, name: LayerFileName, metadata: LayerFileMetadata)
        requires
            old(self).wf(),
            old(self)@.latest_files_changes_since_metadata_upload_scheduled < u64::MAX,
        ensures
            final(self).wf(),
            final(self)@ == record_file(old(self)@, name@, metadata),
    {
        proof {
            lemma_files_insert(self@.latest_files, name@, metadata);
        }
        self.latest_files.insert(name, metadata);
        self.latest_files_changes_since_metadata_upload_scheduled =
            self.latest_files_changes_since_metadata_upload_scheduled + 1;
        assert(self@ =~= record_file(old(self)@, name@, metadata));
    }

    /// Takes `names` from the files that the remote is to hold: see
    /// [`forget_files`].
    pub(crate) fn forget_layers(&mut self, names: &[LayerFileName])
        requires
            old(self).wf(),
            old(self)@.latest_files_changes_since_metadata_upload_scheduled + names@.len()
                <= u64::MAX,
        ensures
            final(self).wf(),
            final(self)@ == forget_files(old(self)@, names@.map_values(|n: LayerFileName| n@)),
    {
        let ghost all = names@.map_values(|n: LayerFileName| n@);
        let mut i: usize = 0;
        assert(all.take(0) =~= Seq::<Seq<char>>::empty());
        while i < names.len()
            invariant
                i <= names@.len(),
                all == names@.map_values(|n: LayerFileName| n@),
                self.wf(),
                old(self).wf(),
                old(self)@.latest_files_changes_since_metadata_upload_scheduled + names@.len()
                    <= u64::MAX,
                self@ == forget_files(old(self)@, all.take(i as int)),
            decreases names@.len() - i,
        {
            proof {
                assert(all.take(i + 1).drop_last() =~= all.take(i as int));
                assert(all.take(i + 1).last() == names@[i as int]@);
                lemma_files_remove_all(old(self)@.latest_files, all.take(i + 1));
            }
            self.latest_files.remove(&names[i]);
            self.latest_files_changes_since_metadata_upload_scheduled =
                self.latest_files_changes_since_metadata_upload_scheduled + 1;
            assert(self@ =~= forget_files(old(self)@, all.take(i + 1)));
            i += 1;
        }
        assert(all.take(i as int) =~= all);
    }

    /// Replaces the metadata that the next index upload carries.
    pub(crate) fn set_latest_metadata(&mut self, metadata: TimelineMetadata)
        requires
            old(self).wf(),
        ensures
            final(self).wf(),
            final(self)@ == (QueueView { latest_metadata: metadata, ..old(self)@ }),
    {
        self.latest_metadata = metadata;
        assert(self@ =~= (QueueView { latest_metadata: metadata, ..old(self)@ }));
    }

    /// Schedules the upload of an index that lists the files that the
    /// remote is to hold: see [`with_index_upload`]. Nothing is started.
    pub(crate) fn push_index_upload(&mut self, metadata_bytes: Vec<u8>) -> (op: Ghost<UploadOpView>)
        requires
            old(self).wf(),
            old(self)@.task_counter + old(self)@.queued_operations.len() < u64::MAX,
        ensures
            final(self).wf(),
            final(self)@ == with_index_upload(old(self)@, metadata_bytes@),
            op@ == UploadOpView::UploadMetadata(
                index_for(old(self)@, metadata_bytes@),
                old(self)@.latest_metadata.spec_disk_consistent_lsn(),
            ),
    {
        let disk_consistent_lsn = self.latest_metadata.disk_consistent_lsn();
        let index_part = IndexPart::new(
            self.latest_files.duplicate(),
            disk_consistent_lsn,
            metadata_bytes,
        );
        let op = UploadOp::UploadMetadata(index_part, disk_consistent_lsn);
        let ghost op_view = op@;
        self.latest_files_changes_since_metadata_upload_scheduled = 0;
        assert(self@ =~= (QueueView {
            latest_files_changes_since_metadata_upload_scheduled: 0,
            ..old(self)@
        }));
        self.push_op(op);
        Ghost(op_view)
    }

    /// Schedules the deletion of each of `names`: see [`deletions_of`].
    /// Nothing is started.
    pub(crate) fn push_deletions(&mut self, names: &[LayerFileName], from_timeline_delete: bool)
        requires
            old(self).wf(),
            old(self)@.task_counter + old(self)@.queued_operations.len() + names@.len()
                <= u64::MAX,
        ensures
            final(self).wf(),
            final(self)@ == enqueue_all(
                old(self)@,
                deletions_of(names@.map_values(|n: LayerFileName| n@), from_timeline_delete),
            ),
    {
        let ghost all = deletions_of(
            names@.map_values(|n: LayerFileName| n@),
            from_timeline_delete,
        );
        let mut i: usize = 0;
        assert(self@ =~= enqueue_all(old(self)@, all.take(0)));
        while i < names.len()
            invariant
                i <= names@.len(),
                all == deletions_of(names@.map_values(|n: LayerFileName| n@), from_timeline_delete),
                self.wf(),
                old(self)@.task_counter + old(self)@.queued_operations.len() + names@.len()
                    <= u64::MAX,
                self@ == enqueue_all(old(self)@, all.take(i as int)),
            decreases names@.len() - i,
        {
            let op = UploadOp::Delete(
                Delete {
                    file_kind: RemoteOpFileKind::Layer,
                    layer_file_name: names[i].duplicate(),
                    scheduled_from_timeline_delete: from_timeline_delete,
                },
            );
            assert(op@ == all[i as int]);
            self.push_op(op);
            assert(self@ =~= enqueue_all(old(self)@, all.take(i + 1)));
            i += 1;
        }
        assert(all.take(i as int) =~= all);
    }

    /// The names of the files that the remote is to hold, in their order.
    pub(crate) fn latest_file_names(&self) -> (r: Vec<LayerFileName>)
        ensures
            r@.map_values(|n: LayerFileName| n@) == crate::remote_timeline_client::index::layer_names(
                self@.latest_files,
            ),
    {
        let mut out: Vec<LayerFileName> = Vec::with_capacity(self.latest_files.len());
        let mut i: usize = 0;
        while i < self.latest_files.len()
            invariant
                i <= self.latest_files@.len(),
                out@.len() == i,
                forall|k: int| 0 <= k < i ==> (#[trigger] out@[k])@ == self.latest_files@[k].0,
            decreases self.latest_files@.len() - i,
        {
            out.push(self.latest_files.name_at(i).duplicate());
            i += 1;
        }
        assert(out@.map_values(|n: LayerFileName| n@)
            =~= crate::remote_timeline_client::index::layer_names(self@.latest_files));
        out
    }

    /// The index that lists the files that the remote is to hold, with the
    /// latest metadata: see [`index_for`].
    pub fn index_part(&self) -> (r: IndexPart)
        ensures
            r@ == index_for(self@, self@.latest_metadata.spec_to_bytes()),
    {
        IndexPart::new(
            self.latest_files.duplicate(),
            self.latest_metadata.disk_consistent_lsn(),
            self.latest_metadata.to_bytes(),
        )
    }

    /// The operation that waits at place `i` of the queue.
    pub(crate) fn queued_op(&self, i: usize) -> (r: &UploadOp)
        requires
            i < self@.queued_operations.len(),
        ensures
            r@ == self@.queued_operations[i as int],
    {
        &self.queued_operations[i]
    }

    /// A queue that starts afresh with the files, the metadata and the
    /// position of this one.
    pub(crate) fn for_deletion(&self) -> (r: UploadQueueInitialized)
        requires
            self.wf(),
        ensures
            r.wf(),
            r@ == fresh_queue(
                self@.latest_files,
                self@.latest_metadata,
                self@.last_uploaded_consistent_lsn,
            ),
    {
        UploadQueueInitialized::new(
            self.latest_files.duplicate(),
            self.latest_metadata,
            self.last_uploaded_consistent_lsn,
        )
    }

    /// Puts `op` behind everything that is scheduled.
    pub(crate) fn push_op(&mut self, op: UploadOp)
        requires
            old(self).wf(),
            old(self)@.task_counter + old(self)@.queued_operations.len() < u64::MAX,
        ensures
            final(self).wf(),
            final(self)@ == enqueue(old(self)@, op@),
    {
        proof {
            lemma_enqueue_wf(self@, op@);
        }
        self.queued_operations.push_back(op);
        assert(self@.queued_operations =~= old(self)@.queued_operations.push(op@));
        assert(self@ =~= enqueue(old(self)@, op@));
    }

    /// Whether there is an operation in front that can be started now.
    fn front_can_run(&self) -> (r: bool)
        requires
            self.wf(),
        ensures
            r == (self@.queued_operations.len() > 0 && can_run_now(self@)),
    {
        if self.queued_operations.len() == 0 {
            return false;
        }
        assert(self@.inprogress_tasks.dom() =~= self.inprogress_tasks@.dom());
        assert(self@.queued_operations[0] == self.queued_operations@[0]@);
        match &self.queued_operations[0] {
            UploadOp::UploadLayer(_, _) => {
                // Can always be started.
                true
            },
            UploadOp::UploadMetadata(_, _) => {
                // Only after everything before it is done.
                self.inprogress_tasks.len() == 0
            },
            UploadOp::Delete(_) => {
                // Waits for the uploads before it. Deletions run side by side.
                self.num_inprogress_deletions == self.inprogress_tasks.len()
            },
            UploadOp::Barrier(_) => self.inprogress_tasks.len() == 0,
        }
    }

    /// Starts the operation in front.
    fn start_front(&mut self, launched: &mut Launched)
        requires
            old(self).wf(),
            old(self)@.queued_operations.len() > 0,
            can_run_now(old(self)@),
        ensures
            final(self).wf(),
            final(self)@ == start_front(old(self)@),
            final(launched).tasks_view() == old(launched).tasks_view() + (if old(self)@.queued_operations[0] is Barrier {
                Seq::<UploadTaskView>::empty()
            } else {
                seq![
                    UploadTaskView {
                        task_id: (old(self)@.task_counter + 1) as u64,
                        op: old(self)@.queued_operations[0],
                        retries: 0,
                    },
                ]
            }),
            final(launched).barriers@ == old(launched).barriers@ + (match old(self)@.queued_operations[0] {
                UploadOpView::Barrier(id) => seq![id],
                _ => Seq::<u64>::empty(),
            }),
    {
        proof {
            lemma_start_front_wf(self@);
        }
        let ghost before = self@;
        assert(before.queued_operations[0] == self.queued_operations@[0]@);
        // Take the operation out of the queue first.
        let next_op = self.queued_operations.pop_front().unwrap();
        assert(self@.queued_operations =~= before.queued_operations.drop_first());
        // Update the counters.
        match &next_op {
            UploadOp::UploadLayer(_, _) => {},
            UploadOp::UploadMetadata(_, _) => {},
            UploadOp::Delete(_) => {},
            UploadOp::Barrier(id) => {
                launched.barriers.push(*id);
                assert(self@ =~= start_front(before));
                assert(launched.tasks_view() =~= old(launched).tasks_view() + Seq::<
                    UploadTaskView,
                >::empty());
                return ;
            },
        }
        // Give the task its id.
        self.task_counter = self.task_counter + 1;
        let upload_task_id = self.task_counter;
        // Put it among the tasks in progress.
        let copy = UploadTask { task_id: upload_task_id, op: next_op.duplicate(), retries: 0 };
        self.inprogress_tasks.insert(upload_task_id, copy);
        assert(self@.inprogress_tasks =~= before.inprogress_tasks.insert(
            upload_task_id,
            next_op@,
        ));
        proof {
            assert(spec_hash_map_len(&self.inprogress_tasks) == self.inprogress_tasks@.len());
            assert(self@.inprogress_tasks.dom() =~= self.inprogress_tasks@.dom());
            lemma_kind_ids_finite(start_front(before).inprogress_tasks);
        }
        match &next_op {
            UploadOp::UploadLayer(_, _) => {
                self.num_inprogress_layer_uploads = self.num_inprogress_layer_uploads + 1;
            },
            UploadOp::UploadMetadata(_, _) => {
                self.num_inprogress_metadata_uploads = self.num_inprogress_metadata_uploads + 1;
            },
            UploadOp::Delete(_) => {
                self.num_inprogress_deletions = self.num_inprogress_deletions + 1;
            },
            UploadOp::Barrier(_) => {},
        }
        assert(self@ =~= start_front(before));
        let task = UploadTask { task_id: upload_task_id, op: next_op, retries: 0 };
        launched.tasks.push(task);
        assert(launched.tasks_view() =~= old(launched).tasks_view() + seq![
            UploadTaskView { task_id: upload_task_id, op: before.queued_operations[0], retries: 0 },
        ]);
    }

    /// Picks the next operations from the queue and starts as many of them
    /// as the ordering rules allow: see [`launch`].
    pub fn launch_queued_tasks(&mut self) -> (r: Launched)
        requires
            old(self).wf(),
        ensures
            final(self).wf(),
            final(self)@ == launch(old(self)@),
            r.tasks_view() == launched_tasks(old(self)@),
            r.barriers@ == fired_barriers(old(self)@),
    {
        let mut launched = Launched::new();
        while self.front_can_run()
            invariant
                self.wf(),
                launch(self@) == launch(old(self)@),
                launched_tasks(old(self)@) == launched.tasks_view() + launched_tasks(self@),
                fired_barriers(old(self)@) == launched.barriers@ + fired_barriers(self@),
            decreases self@.queued_operations.len(),
        {
            let ghost before = self@;
            let ghost tasks_before = launched.tasks_view();
            let ghost barriers_before = launched.barriers@;
            self.start_front(&mut launched);
            proof {
                lemma_start_front_wf(before);
                assert(launched.tasks_view() + launched_tasks(self@) =~= tasks_before
                    + launched_tasks(before));
                assert(launched.barriers@ + fired_barriers(self@) =~= barriers_before
                    + fired_barriers(before));
            }
        }
        assert(launched.tasks_view() + launched_tasks(self@) =~= launched.tasks_view());
        assert(launched.barriers@ + fired_barriers(self@) =~= launched.barriers@);
        launched
    }

    /// Takes a finished task out of the tasks in progress: see
    /// [`finish_task`].
    pub(crate) fn finish(&mut self, task: &UploadTask)
        requires
            old(self).wf(),
            old(self)@.inprogress_tasks.contains_key(task.task_id),
            old(self)@.inprogress_tasks[task.task_id] == task.op@,
        ensures
            final(self).wf(),
            final(self)@ == finish_task(old(self)@, task.task_id, task.op@),
    {
        proof {
            lemma_finish_task_wf(self@, task.task_id);
        }
        let ghost before = self@;
        self.inprogress_tasks.remove(&task.task_id);
        assert(self@.inprogress_tasks =~= before.inprogress_tasks.remove(task.task_id));
        match &task.op {
            UploadOp::UploadLayer(_, _) => {
                self.num_inprogress_layer_uploads = self.num_inprogress_layer_uploads - 1;
            },
            UploadOp::UploadMetadata(_, lsn) => {
                self.num_inprogress_metadata_uploads = self.num_inprogress_metadata_uploads - 1;
                self.last_uploaded_consistent_lsn = *lsn;
            },
            UploadOp::Delete(_) => {
                self.num_inprogress_deletions = self.num_inprogress_deletions - 1;
            },
            UploadOp::Barrier(_) => {},
        }
        assert(self@ =~= finish_task(before, task.task_id, task.op@));
    }
}

/// Whether nothing more can be started: the operation in front, if there
/// is one, has to wait.
pub open spec fn settled(q: QueueView) -> bool {
    q.queued_operations.len() > 0 ==> !can_run_now(q)
}

/// Where nothing more can be started, starting what can be started changes
/// nothing.
pub proof fn lemma_launch_settled(q: QueueView)
    requires
        settled(q),
    ensures
        launch(q) == q,
        launched_tasks(q) == Seq::<UploadTaskView>::empty(),
        fired_barriers(q) == Seq::<u64>::empty(),
{
}

/// The state of a queue that was stopped.
#[derive(Debug)]
pub struct UploadQueueStopped {
    /// A queue that starts afresh with the files of the stopped queue: the
    /// deletion of the timeline runs on it.
    pub upload_queue_for_deletion: UploadQueueInitialized,
    pub deleted_at: SetDeletedFlagProgress,
}

/// A stopped queue as callers see it.
#[verifier::ext_equal]
pub struct StoppedView {
    pub upload_queue_for_deletion: QueueView,
    pub deleted_at: SetDeletedFlagProgress,
}

impl View for UploadQueueStopped {
    type V = StoppedView;

    open spec fn view(&self) -> StoppedView {
        StoppedView {
            upload_queue_for_deletion: self.upload_queue_for_deletion@,
            deleted_at: self.deleted_at,
        }
    }
}

/// The queue of a client: not set up yet, taking operations, or stopped. A
/// queue is set up once, and a stopped queue stays stopped.
#[derive(Debug)]
pub enum UploadQueue {
    Uninitialized,
    Initialized(UploadQueueInitialized),
    Stopped(UploadQueueStopped),
}

/// The queue of a client as callers see it.
#[verifier::ext_equal]
pub enum UploadQueueView {
    Uninitialized,
    Initialized(QueueView),
    Stopped(StoppedView),
}

impl View for UploadQueue {
    type V = UploadQueueView;

    open spec fn view(&self) -> UploadQueueView {
        match self {
            UploadQueue::Uninitialized => UploadQueueView::Uninitialized,
            UploadQueue::Initialized(q) => UploadQueueView::Initialized(q@),
            UploadQueue::Stopped(s) => UploadQueueView::Stopped(s@),
        }
    }
}

/// What holds of the queue of a client at every moment: the queue that takes
/// operations, or the one kept for deletion, is as [`queue_wf`] says, and
/// nothing more can be started in it.
pub open spec fn upload_queue_wf(queue: UploadQueueView) -> bool {
    match queue {
        UploadQueueView::Uninitialized => true,
        UploadQueueView::Initialized(q) => queue_wf(q) && settled(q),
        UploadQueueView::Stopped(s) => queue_wf(s.upload_queue_for_deletion) && settled(
            s.upload_queue_for_deletion,
        ),
    }
}

impl UploadQueue {
    /// See [`upload_queue_wf`].
    pub open spec fn wf(&self) -> bool {
        upload_queue_wf(self@)
    }

    /// The name of the state, for messages.
    pub fn as_str(&self) -> (r: &'static str)
        ensures
            r@ == (match self@ {
                UploadQueueView::Uninitialized => "Uninitialized"@,
                UploadQueueView::Initialized(_) => "Initialized"@,
                UploadQueueView::Stopped(_) => "Stopped"@,
            }),
    {
        match self {
            UploadQueue::Uninitialized => "Uninitialized",
            UploadQueue::Initialized(_) => "Initialized",
            UploadQueue::Stopped(_) => "Stopped",
        }
    }
}

} // verus!
