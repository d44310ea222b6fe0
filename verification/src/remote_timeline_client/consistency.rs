//! Why the remote ends up as the queue says it should.
//!
//! The remote is a set of layer files and an index file. An operation that
//! is done has its effect on the remote at once, and operations that are in
//! progress side by side end in any order. This module follows a queue and
//! its remote through everything that can happen to them, and shows that
//! once all that was scheduled is done, the index on the remote lists the
//! files that the queue wants there, and every file it lists is there.
//!
//! One thing is asked of the caller: not to schedule the upload of a file
//! while a deletion of a file of that name is still under way. The two
//! would run side by side, and the file would be gone if the deletion ended
//! last.

use vstd::prelude::*;
use crate::metadata::TimelineMetadata;
use crate::remote_timeline_client::index::{
    distinct_names, files_map, layer_names, lemma_files_insert, lemma_files_remove_all, FilesView,
    IndexPartView, LayerFileMetadata,
};
use crate::remote_timeline_client::upload_queue::{
    can_run_now, deletions_of, enqueue, enqueue_all, finish_task, forget_files, fresh_queue,
    index_for, launch, lemma_enqueue_wf, lemma_finish_task_wf, lemma_fresh_queue_wf,
    lemma_launch_wf, lemma_only_deletions_in_progress, lemma_start_front_wf, queue_wf, record_file,
    settled, start_front, with_index_upload, QueueView, UploadOpView,
};
use crate::remote_timeline_client::{
    queue_can_schedule, spec_deletion_index_upload, spec_schedule_barrier,
    spec_schedule_index_upload_for_file_changes, spec_schedule_index_upload_for_metadata_update,
    spec_schedule_layer_file_deletion, spec_schedule_layer_file_upload,
};

verus! {

/// What the remote holds for a timeline.
#[verifier::ext_equal]
pub struct RemoteView {
    /// The names of the layer files.
    pub files: Set<Seq<char>>,
    /// The index file, if there is one.
    pub index: Option<IndexPartView>,
}

/// The names that the index on the remote lists; none without an index.
pub open spec fn listed(remote: RemoteView) -> Set<Seq<char>> {
    match remote.index {
        Some(index_part) => layer_names(index_part.layer_metadata).to_set(),
        None => Set::empty(),
    }
}

/// The remote after an operation is done.
pub open spec fn remote_after(remote: RemoteView, op: UploadOpView) -> RemoteView {
    match op {
        UploadOpView::UploadLayer(name, _) => RemoteView {
            files: remote.files.insert(name),
            ..remote
        },
        UploadOpView::UploadMetadata(index_part, _) => RemoteView {
            index: Some(index_part),
            ..remote
        },
        UploadOpView::Delete(delete) => RemoteView {
            files: remote.files.remove(delete.layer_file_name),
            ..remote
        },
        UploadOpView::Barrier(_) => remote,
    }
}

/// The remote after each of `ops` is done, one after the other.
pub open spec fn remote_after_all(remote: RemoteView, ops: Seq<UploadOpView>) -> RemoteView
    decreases ops.len(),
{
    if ops.len() == 0 {
        remote
    } else {
        remote_after(remote_after_all(remote, ops.drop_last()), ops.last())
    }
}

/// Whether `op` uploads the layer file `name`.
pub open spec fn uploads(op: UploadOpView, name: Seq<char>) -> bool {
    op matches UploadOpView::UploadLayer(n, _) && n == name
}

/// Whether `op` deletes the file `name`.
pub open spec fn deletes(op: UploadOpView, name: Seq<char>) -> bool {
    op matches UploadOpView::Delete(d) && d.layer_file_name == name
}

/// Whether an upload of `name` is in progress.
pub open spec fn uploading(tasks: Map<u64, UploadOpView>, name: Seq<char>) -> bool {
    exists|id: u64| #[trigger] tasks.contains_key(id) && uploads(tasks[id], name)
}

/// Whether a deletion of `name` is in progress.
pub open spec fn deleting(tasks: Map<u64, UploadOpView>, name: Seq<char>) -> bool {
    exists|id: u64| #[trigger] tasks.contains_key(id) && deletes(tasks[id], name)
}

/// Whether an index upload is in progress.
pub open spec fn index_uploading(tasks: Map<u64, UploadOpView>) -> bool {
    exists|id: u64| #[trigger] tasks.contains_key(id) && tasks[id] is UploadMetadata
}

/// The remote once everything that is in progress is done, when no file is
/// uploaded and deleted side by side: the files of the uploads are there,
/// those of the deletions are gone, and the index is the one being uploaded,
/// if one is.
pub open spec fn remote_after_inprogress(remote: RemoteView, tasks: Map<u64, UploadOpView>) -> RemoteView {
    RemoteView {
        files: Set::new(
            |name: Seq<char>|
                (remote.files.contains(name) || uploading(tasks, name)) && !deleting(tasks, name),
        ),
        index: if index_uploading(tasks) {
            let id = choose|id: u64| #[trigger] tasks.contains_key(id) && tasks[id] is UploadMetadata;
            Some(tasks[id]->UploadMetadata_0)
        } else {
            remote.index
        },
    }
}

/// The remote once everything that is scheduled is done: first what is in
/// progress, then what waits, in its order.
pub open spec fn remote_in_the_end(q: QueueView, remote: RemoteView) -> RemoteView {
    remote_after_all(remote_after_inprogress(remote, q.inprogress_tasks), q.queued_operations)
}

/// Whether a deletion of `name` is scheduled and not done.
pub open spec fn deletion_pending(q: QueueView, name: Seq<char>) -> bool {
    deleting(q.inprogress_tasks, name) || exists|i: int|
        0 <= i < q.queued_operations.len() && deletes(#[trigger] q.queued_operations[i], name)
}

/// Whether `later` uploads the file that `earlier` deletes.
pub open spec fn undoes(earlier: UploadOpView, later: UploadOpView) -> bool {
    earlier matches UploadOpView::Delete(d) && later matches UploadOpView::UploadLayer(n, _)
        && d.layer_file_name == n
}

/// No upload of a file is scheduled behind a deletion of a file of the same
/// name that is not done: such an upload would run side by side with the
/// deletion.
pub open spec fn no_upload_behind_deletion(q: QueueView) -> bool {
    &&& forall|a: u64, b: u64|
        #![trigger q.inprogress_tasks.contains_key(a), q.inprogress_tasks.contains_key(b)]
        q.inprogress_tasks.contains_key(a) && q.inprogress_tasks.contains_key(b) ==> !undoes(
            q.inprogress_tasks[a],
            q.inprogress_tasks[b],
        )
    &&& forall|a: u64, j: int|
        #![trigger q.inprogress_tasks.contains_key(a), q.queued_operations[j]]
        q.inprogress_tasks.contains_key(a) && 0 <= j < q.queued_operations.len() ==> !undoes(
            q.inprogress_tasks[a],
            q.queued_operations[j],
        )
    &&& forall|i: int, j: int|
        #![trigger q.queued_operations[i], q.queued_operations[j]]
        0 <= i < j < q.queued_operations.len() ==> !undoes(
            q.queued_operations[i],
            q.queued_operations[j],
        )
}

/// The state of a queue and of its remote.
#[verifier::ext_equal]
pub struct World {
    pub queue: QueueView,
    pub remote: RemoteView,
}

/// What holds of a queue and its remote at every moment, as long as no
/// upload is scheduled behind a pending deletion of the same name.
///
/// Once everything scheduled is done, every file that the queue wants on
/// the remote is there, and so is every file that the index lists; and if
/// no change waits for an index upload to be scheduled, the index lists
/// exactly the files that the queue wants.
pub open spec fn coherent(w: World) -> bool {
    &&& queue_wf(w.queue)
    &&& settled(w.queue)
    &&& no_upload_behind_deletion(w.queue)
    &&& layer_names(w.queue.latest_files).to_set().subset_of(
        remote_in_the_end(w.queue, w.remote).files,
    )
    &&& listed(remote_in_the_end(w.queue, w.remote)).subset_of(
        remote_in_the_end(w.queue, w.remote).files,
    )
    &&& w.queue.latest_files_changes_since_metadata_upload_scheduled == 0 ==> listed(
        remote_in_the_end(w.queue, w.remote),
    ) == layer_names(w.queue.latest_files).to_set()
}

/// Scheduling one more operation adds its effect to the end.
pub proof fn lemma_remote_after_enqueue(q: QueueView, remote: RemoteView, op: UploadOpView)
    ensures
        remote_in_the_end(enqueue(q, op), remote) == remote_after(remote_in_the_end(q, remote), op),
{
    let ops = q.queued_operations.push(op);
    assert(ops.drop_last() =~= q.queued_operations);
    assert(ops.last() == op);
}

/// Scheduling more operations adds their effects to the end.
pub proof fn lemma_remote_after_enqueue_all(q: QueueView, remote: RemoteView, ops: Seq<UploadOpView>)
    ensures
        remote_in_the_end(enqueue_all(q, ops), remote) == remote_after_all(
            remote_in_the_end(q, remote),
            ops,
        ),
    decreases ops.len(),
{
    if ops.len() == 0 {
        assert(q.queued_operations + ops =~= q.queued_operations);
    } else {
        lemma_remote_after_enqueue_all(q, remote, ops.drop_last());
        let all = q.queued_operations + ops;
        assert(all.drop_last() =~= q.queued_operations + ops.drop_last());
        assert(all.last() == ops.last());
    }
}

/// The effect of operations of which the first is pulled out in front.
proof fn lemma_remote_after_all_front(remote: RemoteView, ops: Seq<UploadOpView>)
    requires
        ops.len() > 0,
    ensures
        remote_after_all(remote, ops) == remote_after_all(
            remote_after(remote, ops[0]),
            ops.drop_first(),
        ),
    decreases ops.len(),
{
    if ops.len() == 1 {
        assert(ops.drop_last() =~= Seq::<UploadOpView>::empty());
        assert(ops.drop_first() =~= Seq::<UploadOpView>::empty());
        assert(remote_after_all(remote, ops.drop_last()) == remote);
    } else {
        lemma_remote_after_all_front(remote, ops.drop_last());
        assert(ops.drop_last().drop_first() =~= ops.drop_first().drop_last());
        assert(ops.drop_last()[0] == ops[0]);
        assert(ops.drop_first().last() == ops.last());
    }
}

/// At most one index upload is in progress.
proof fn lemma_single_index_upload(q: QueueView, a: u64, b: u64)
    requires
        queue_wf(q),
        q.inprogress_tasks.contains_key(a),
        q.inprogress_tasks[a] is UploadMetadata,
        q.inprogress_tasks.contains_key(b),
        q.inprogress_tasks[b] is UploadMetadata,
    ensures
        a == b,
{
}

/// The index that is being uploaded, if one is.
proof fn lemma_index_in_progress(q: QueueView, remote: RemoteView)
    requires
        queue_wf(q),
    ensures
        forall|id: u64| #[trigger]
            q.inprogress_tasks.contains_key(id) && q.inprogress_tasks[id] is UploadMetadata
                ==> remote_after_inprogress(remote, q.inprogress_tasks).index == Some(
                q.inprogress_tasks[id]->UploadMetadata_0,
            ),
        !index_uploading(q.inprogress_tasks) ==> remote_after_inprogress(
            remote,
            q.inprogress_tasks,
        ).index == remote.index,
{
    assert forall|id: u64| #[trigger]
        q.inprogress_tasks.contains_key(id)
            && q.inprogress_tasks[id] is UploadMetadata implies remote_after_inprogress(
        remote,
        q.inprogress_tasks,
    ).index == Some(q.inprogress_tasks[id]->UploadMetadata_0) by {
        let c = choose|c: u64| #[trigger]
            q.inprogress_tasks.contains_key(c) && q.inprogress_tasks[c] is UploadMetadata;
        lemma_single_index_upload(q, c, id);
    }
}

/// Starting the operation in front changes nothing of the remote in the
/// end, and puts no upload behind a deletion.
proof fn lemma_start_front_coherent(q: QueueView, remote: RemoteView)
    requires
        queue_wf(q),
        no_upload_behind_deletion(q),
        q.queued_operations.len() > 0,
        can_run_now(q),
    ensures
        remote_in_the_end(start_front(q), remote) == remote_in_the_end(q, remote),
        no_upload_behind_deletion(start_front(q)),
{
    let op = q.queued_operations[0];
    let rest = q.queued_operations.drop_first();
    let n = start_front(q);
    let id = (q.task_counter + 1) as u64;
    let tasks = q.inprogress_tasks;
    let before = remote_after_inprogress(remote, tasks);
    let after = remote_after_inprogress(remote, n.inprogress_tasks);
    lemma_start_front_wf(q);
    lemma_remote_after_all_front(before, q.queued_operations);
    lemma_index_in_progress(q, remote);
    lemma_index_in_progress(n, remote);
    assert(!tasks.contains_key(id));
    match op {
        UploadOpView::Barrier(_) => {
            assert(after == remote_after(before, op));
        },
        UploadOpView::UploadLayer(x, _) => {
            assert(tasks.contains_key(id) || n.inprogress_tasks.contains_key(id));
            assert forall|name: Seq<char>| deleting(n.inprogress_tasks, name) == deleting(
                tasks,
                name,
            ) by {
                if deleting(n.inprogress_tasks, name) {
                    let d = choose|d: u64| #[trigger]
                        n.inprogress_tasks.contains_key(d) && deletes(n.inprogress_tasks[d], name);
                    assert(tasks.contains_key(d));
                }
                if deleting(tasks, name) {
                    let d = choose|d: u64| #[trigger]
                        tasks.contains_key(d) && deletes(tasks[d], name);
                    assert(n.inprogress_tasks.contains_key(d));
                }
            }
            assert forall|name: Seq<char>| uploading(n.inprogress_tasks, name) == (uploading(
                tasks,
                name,
            ) || name == x) by {
                if uploading(n.inprogress_tasks, name) {
                    let u = choose|u: u64| #[trigger]
                        n.inprogress_tasks.contains_key(u) && uploads(n.inprogress_tasks[u], name);
                    if u != id {
                        assert(tasks.contains_key(u));
                    }
                }
                if uploading(tasks, name) {
                    let u = choose|u: u64| #[trigger]
                        tasks.contains_key(u) && uploads(tasks[u], name);
                    assert(n.inprogress_tasks.contains_key(u));
                }
                if name == x {
                    assert(n.inprogress_tasks.contains_key(id));
                }
            }
            assert(!deleting(tasks, x)) by {
                if deleting(tasks, x) {
                    let d = choose|d: u64| #[trigger]
                        tasks.contains_key(d) && deletes(tasks[d], x);
                    assert(undoes(tasks[d], q.queued_operations[0]));
                }
            }
            assert(index_uploading(n.inprogress_tasks) == index_uploading(tasks)) by {
                if index_uploading(n.inprogress_tasks) {
                    let m = choose|m: u64| #[trigger]
                        n.inprogress_tasks.contains_key(m)
                            && n.inprogress_tasks[m] is UploadMetadata;
                    assert(tasks.contains_key(m));
                }
                if index_uploading(tasks) {
                    let m = choose|m: u64| #[trigger]
                        tasks.contains_key(m) && tasks[m] is UploadMetadata;
                    assert(n.inprogress_tasks.contains_key(m));
                }
            }
            if index_uploading(tasks) {
                let m = choose|m: u64| #[trigger]
                    tasks.contains_key(m) && tasks[m] is UploadMetadata;
                assert(n.inprogress_tasks.contains_key(m));
            }
            assert(after.files =~= before.files.insert(x));
            assert(after =~= remote_after(before, op));
        },
        UploadOpView::UploadMetadata(index_part, _) => {
            assert(tasks.dom() =~= Set::empty());
            assert(n.inprogress_tasks.contains_key(id));
            assert forall|name: Seq<char>| !deleting(n.inprogress_tasks, name) && !uploading(
                n.inprogress_tasks,
                name,
            ) && !deleting(tasks, name) && !uploading(tasks, name) by {
                if deleting(n.inprogress_tasks, name) {
                    let d = choose|d: u64| #[trigger]
                        n.inprogress_tasks.contains_key(d) && deletes(n.inprogress_tasks[d], name);
                    assert(d == id || tasks.dom().contains(d));
                }
                if uploading(n.inprogress_tasks, name) {
                    let u = choose|u: u64| #[trigger]
                        n.inprogress_tasks.contains_key(u) && uploads(n.inprogress_tasks[u], name);
                    assert(u == id || tasks.dom().contains(u));
                }
                if deleting(tasks, name) {
                    let d = choose|d: u64| #[trigger]
                        tasks.contains_key(d) && deletes(tasks[d], name);
                    assert(tasks.dom().contains(d));
                }
                if uploading(tasks, name) {
                    let u = choose|u: u64| #[trigger]
                        tasks.contains_key(u) && uploads(tasks[u], name);
                    assert(tasks.dom().contains(u));
                }
            }
            assert(!index_uploading(tasks)) by {
                if index_uploading(tasks) {
                    let m = choose|m: u64| #[trigger]
                        tasks.contains_key(m) && tasks[m] is UploadMetadata;
                    assert(tasks.dom().contains(m));
                }
            }
            assert(after.files =~= remote.files);
            assert(before.files =~= remote.files);
            assert(after =~= remote_after(before, op));
        },
        UploadOpView::Delete(delete) => {
            let y = delete.layer_file_name;
            lemma_only_deletions_in_progress(q);
            assert(n.inprogress_tasks.contains_key(id));
            assert forall|name: Seq<char>| !uploading(n.inprogress_tasks, name) && !uploading(
                tasks,
                name,
            ) by {
                if uploading(n.inprogress_tasks, name) {
                    let u = choose|u: u64| #[trigger]
                        n.inprogress_tasks.contains_key(u) && uploads(n.inprogress_tasks[u], name);
                    if u != id {
                        assert(tasks.contains_key(u));
                    }
                }
                if uploading(tasks, name) {
                    let u = choose|u: u64| #[trigger]
                        tasks.contains_key(u) && uploads(tasks[u], name);
                }
            }
            assert forall|name: Seq<char>| deleting(n.inprogress_tasks, name) == (deleting(
                tasks,
                name,
            ) || name == y) by {
                if deleting(n.inprogress_tasks, name) {
                    let d = choose|d: u64| #[trigger]
                        n.inprogress_tasks.contains_key(d) && deletes(n.inprogress_tasks[d], name);
                    if d != id {
                        assert(tasks.contains_key(d));
                    }
                }
                if deleting(tasks, name) {
                    let d = choose|d: u64| #[trigger]
                        tasks.contains_key(d) && deletes(tasks[d], name);
                    assert(n.inprogress_tasks.contains_key(d));
                }
                if name == y {
                    assert(n.inprogress_tasks.contains_key(id));
                }
            }
            assert(!index_uploading(tasks) && !index_uploading(n.inprogress_tasks)) by {
                if index_uploading(tasks) {
                    let m = choose|m: u64| #[trigger]
                        tasks.contains_key(m) && tasks[m] is UploadMetadata;
                }
                if index_uploading(n.inprogress_tasks) {
                    let m = choose|m: u64| #[trigger]
                        n.inprogress_tasks.contains_key(m)
                            && n.inprogress_tasks[m] is UploadMetadata;
                    if m != id {
                        assert(tasks.contains_key(m));
                    }
                }
            }
            assert(after.files =~= before.files.remove(y));
            assert(after =~= remote_after(before, op));
        },
    }
    assert(n.queued_operations == rest);
    // No upload stands behind a deletion afterwards.
    assert forall|a: u64, b: u64|
        n.inprogress_tasks.contains_key(a) && n.inprogress_tasks.contains_key(b) implies !undoes(
        n.inprogress_tasks[a],
        n.inprogress_tasks[b],
    ) by {
        if op is Barrier {
        } else if a == id && b == id {
        } else if a == id {
            assert(tasks.contains_key(b));
            if op is Delete {
                lemma_only_deletions_in_progress(q);
            }
        } else if b == id {
            assert(tasks.contains_key(a));
            assert(!undoes(tasks[a], q.queued_operations[0]));
        } else {
            assert(tasks.contains_key(a) && tasks.contains_key(b));
        }
    }
    assert forall|a: u64, j: int|
        n.inprogress_tasks.contains_key(a) && 0 <= j < rest.len() implies !undoes(
        n.inprogress_tasks[a],
        rest[j],
    ) by {
        assert(rest[j] == q.queued_operations[j + 1]);
        if !(op is Barrier) && a == id {
            assert(!undoes(q.queued_operations[0], q.queued_operations[j + 1]));
        } else {
            assert(tasks.contains_key(a));
            assert(!undoes(tasks[a], q.queued_operations[j + 1]));
        }
    }
    assert forall|i: int, j: int| 0 <= i < j < rest.len() implies !undoes(rest[i], rest[j]) by {
        assert(rest[i] == q.queued_operations[i + 1]);
        assert(rest[j] == q.queued_operations[j + 1]);
        assert(!undoes(q.queued_operations[i + 1], q.queued_operations[j + 1]));
    }
}

/// Starting everything that can start changes nothing of the remote in the
/// end, and puts no upload behind a deletion.
pub proof fn lemma_launch_coherent(q: QueueView, remote: RemoteView)
    requires
        queue_wf(q),
        no_upload_behind_deletion(q),
    ensures
        remote_in_the_end(launch(q), remote) == remote_in_the_end(q, remote),
        no_upload_behind_deletion(launch(q)),
    decreases q.queued_operations.len(),
{
    if q.queued_operations.len() > 0 && can_run_now(q) {
        lemma_start_front_wf(q);
        lemma_start_front_coherent(q, remote);
        lemma_launch_coherent(start_front(q), remote);
    }
}

/// A task that ends has on the remote the effect that was foreseen for it:
/// with its operation done on the remote and the task out of the queue, the
/// remote in the end is the same as before.
pub proof fn lemma_finish_task_coherent(q: QueueView, remote: RemoteView, task_id: u64)
    requires
        queue_wf(q),
        no_upload_behind_deletion(q),
        q.inprogress_tasks.contains_key(task_id),
    ensures
        remote_in_the_end(
            finish_task(q, task_id, q.inprogress_tasks[task_id]),
            remote_after(remote, q.inprogress_tasks[task_id]),
        ) == remote_in_the_end(q, remote),
        no_upload_behind_deletion(finish_task(q, task_id, q.inprogress_tasks[task_id])),
{
    let op = q.inprogress_tasks[task_id];
    let n = finish_task(q, task_id, op);
    let tasks = q.inprogress_tasks;
    let left = n.inprogress_tasks;
    let done = remote_after(remote, op);
    let before = remote_after_inprogress(remote, tasks);
    let after = remote_after_inprogress(done, left);
    lemma_finish_task_wf(q, task_id);
    lemma_index_in_progress(q, remote);
    lemma_index_in_progress(n, done);
    assert(left =~= tasks.remove(task_id));
    assert forall|id: u64| #[trigger] left.contains_key(id) implies tasks.contains_key(id)
        && tasks[id] == left[id] by {}
    match op {
        UploadOpView::Barrier(_) => {},
        UploadOpView::UploadLayer(x, _) => {
            assert forall|name: Seq<char>| deleting(left, name) == deleting(tasks, name) by {
                if deleting(left, name) {
                    let d = choose|d: u64| #[trigger] left.contains_key(d) && deletes(left[d], name);
                    assert(tasks.contains_key(d));
                }
                if deleting(tasks, name) {
                    let d = choose|d: u64| #[trigger]
                        tasks.contains_key(d) && deletes(tasks[d], name);
                    assert(left.contains_key(d));
                }
            }
            assert forall|name: Seq<char>| uploading(tasks, name) == (uploading(left, name) || name
                == x) by {
                if uploading(left, name) {
                    let u = choose|u: u64| #[trigger] left.contains_key(u) && uploads(left[u], name);
                    assert(tasks.contains_key(u));
                }
                if uploading(tasks, name) {
                    let u = choose|u: u64| #[trigger]
                        tasks.contains_key(u) && uploads(tasks[u], name);
                    if u != task_id {
                        assert(left.contains_key(u));
                    }
                }
                if name == x {
                    assert(tasks.contains_key(task_id));
                }
            }
            assert(index_uploading(left) == index_uploading(tasks)) by {
                if index_uploading(left) {
                    let m = choose|m: u64| #[trigger]
                        left.contains_key(m) && left[m] is UploadMetadata;
                    assert(tasks.contains_key(m));
                }
                if index_uploading(tasks) {
                    let m = choose|m: u64| #[trigger]
                        tasks.contains_key(m) && tasks[m] is UploadMetadata;
                    assert(left.contains_key(m));
                }
            }
            if index_uploading(tasks) {
                let m = choose|m: u64| #[trigger]
                    tasks.contains_key(m) && tasks[m] is UploadMetadata;
                assert(left.contains_key(m));
            }
            assert(after.files =~= before.files);
            assert(after =~= before);
        },
        UploadOpView::Delete(delete) => {
            let y = delete.layer_file_name;
            assert forall|name: Seq<char>| uploading(left, name) == uploading(tasks, name) by {
                if uploading(left, name) {
                    let u = choose|u: u64| #[trigger] left.contains_key(u) && uploads(left[u], name);
                    assert(tasks.contains_key(u));
                }
                if uploading(tasks, name) {
                    let u = choose|u: u64| #[trigger]
                        tasks.contains_key(u) && uploads(tasks[u], name);
                    assert(left.contains_key(u));
                }
            }
            assert forall|name: Seq<char>| deleting(tasks, name) == (deleting(left, name) || name
                == y) by {
                if deleting(left, name) {
                    let d = choose|d: u64| #[trigger] left.contains_key(d) && deletes(left[d], name);
                    assert(tasks.contains_key(d));
                }
                if deleting(tasks, name) {
                    let d = choose|d: u64| #[trigger]
                        tasks.contains_key(d) && deletes(tasks[d], name);
                    if d != task_id {
                        assert(left.contains_key(d));
                    }
                }
                if name == y {
                    assert(tasks.contains_key(task_id));
                }
            }
            assert(!uploading(tasks, y)) by {
                if uploading(tasks, y) {
                    let u = choose|u: u64| #[trigger] tasks.contains_key(u) && uploads(tasks[u], y);
                    assert(undoes(tasks[task_id], tasks[u]));
                }
            }
            assert(index_uploading(left) == index_uploading(tasks)) by {
                if index_uploading(left) {
                    let m = choose|m: u64| #[trigger]
                        left.contains_key(m) && left[m] is UploadMetadata;
                    assert(tasks.contains_key(m));
                }
                if index_uploading(tasks) {
                    let m = choose|m: u64| #[trigger]
                        tasks.contains_key(m) && tasks[m] is UploadMetadata;
                    assert(left.contains_key(m));
                }
            }
            if index_uploading(tasks) {
                let m = choose|m: u64| #[trigger]
                    tasks.contains_key(m) && tasks[m] is UploadMetadata;
                assert(left.contains_key(m));
            }
            assert(after.files =~= before.files);
            assert(after =~= before);
        },
        UploadOpView::UploadMetadata(index_part, _) => {
            assert forall|name: Seq<char>| uploading(left, name) == uploading(tasks, name) by {
                if uploading(left, name) {
                    let u = choose|u: u64| #[trigger] left.contains_key(u) && uploads(left[u], name);
                    assert(tasks.contains_key(u));
                }
                if uploading(tasks, name) {
                    let u = choose|u: u64| #[trigger]
                        tasks.contains_key(u) && uploads(tasks[u], name);
                    assert(left.contains_key(u));
                }
            }
            assert forall|name: Seq<char>| deleting(left, name) == deleting(tasks, name) by {
                if deleting(left, name) {
                    let d = choose|d: u64| #[trigger] left.contains_key(d) && deletes(left[d], name);
                    assert(tasks.contains_key(d));
                }
                if deleting(tasks, name) {
                    let d = choose|d: u64| #[trigger]
                        tasks.contains_key(d) && deletes(tasks[d], name);
                    assert(left.contains_key(d));
                }
            }
            assert(!index_uploading(left)) by {
                if index_uploading(left) {
                    let m = choose|m: u64| #[trigger]
                        left.contains_key(m) && left[m] is UploadMetadata;
                    assert(tasks.contains_key(m));
                    lemma_single_index_upload(q, m, task_id);
                }
            }
            assert(tasks.contains_key(task_id));
            assert(after.files =~= before.files);
            assert(after =~= before);
        },
    }
    assert(n.queued_operations == q.queued_operations);
    assert forall|a: u64, b: u64|
        left.contains_key(a) && left.contains_key(b) implies !undoes(left[a], left[b]) by {
        assert(tasks.contains_key(a) && tasks.contains_key(b));
    }
    assert forall|a: u64, j: int|
        left.contains_key(a) && 0 <= j < n.queued_operations.len() implies !undoes(
        left[a],
        n.queued_operations[j],
    ) by {
        assert(tasks.contains_key(a));
        assert(!undoes(tasks[a], q.queued_operations[j]));
    }
}

/// What can happen to a queue and its remote.
pub enum QueueEvent {
    /// The upload of a layer file is scheduled.
    ScheduleLayerFileUpload { name: Seq<char>, layer_metadata: LayerFileMetadata },
    /// An index upload with new metadata is scheduled.
    ScheduleIndexUploadForMetadataUpdate { metadata: TimelineMetadata },
    /// An index upload is scheduled if files have changed.
    ScheduleIndexUploadForFileChanges,
    /// The deletion of layer files is scheduled.
    ScheduleLayerFileDeletion { names: Seq<Seq<char>> },
    /// A barrier is scheduled for somebody who waits for completion.
    WaitCompletion { barrier: u64 },
    /// A task in progress has succeeded: its operation is done on the remote.
    TaskCompleted { task_id: u64 },
}

/// Whether an event can happen: there are task ids left for what is
/// scheduled, a task that ends is in progress, and no upload is scheduled
/// of a file whose deletion is scheduled and not done.
pub open spec fn event_allowed(w: World, event: QueueEvent) -> bool {
    match event {
        QueueEvent::ScheduleLayerFileUpload { name, .. } => queue_can_schedule(w.queue, 1)
            && !deletion_pending(w.queue, name),
        QueueEvent::ScheduleIndexUploadForMetadataUpdate { .. } => queue_can_schedule(w.queue, 1),
        QueueEvent::ScheduleIndexUploadForFileChanges => queue_can_schedule(w.queue, 1),
        QueueEvent::ScheduleLayerFileDeletion { names } => queue_can_schedule(
            w.queue,
            names.len() + 1,
        ),
        QueueEvent::WaitCompletion { .. } => queue_can_schedule(w.queue, 1),
        QueueEvent::TaskCompleted { task_id } => w.queue.inprogress_tasks.contains_key(task_id),
    }
}

/// The queue and the remote after an event.
pub open spec fn after_event(w: World, event: QueueEvent) -> World {
    match event {
        QueueEvent::ScheduleLayerFileUpload { name, layer_metadata } => World {
            queue: spec_schedule_layer_file_upload(w.queue, name, layer_metadata).queue,
            ..w
        },
        QueueEvent::ScheduleIndexUploadForMetadataUpdate { metadata } => World {
            queue: spec_schedule_index_upload_for_metadata_update(w.queue, metadata).queue,
            ..w
        },
        QueueEvent::ScheduleIndexUploadForFileChanges => World {
            queue: spec_schedule_index_upload_for_file_changes(w.queue).queue,
            ..w
        },
        QueueEvent::ScheduleLayerFileDeletion { names } => World {
            queue: spec_schedule_layer_file_deletion(w.queue, names).queue,
            ..w
        },
        QueueEvent::WaitCompletion { barrier } => World {
            queue: spec_schedule_barrier(w.queue, barrier).queue,
            ..w
        },
        QueueEvent::TaskCompleted { task_id } => World {
            queue: launch(
                finish_task(w.queue, task_id, w.queue.inprogress_tasks[task_id]),
            ),
            remote: remote_after(w.remote, w.queue.inprogress_tasks[task_id]),
        },
    }
}

/// The queue and the remote after a run of events.
pub open spec fn after_events(w: World, events: Seq<QueueEvent>) -> World
    decreases events.len(),
{
    if events.len() == 0 {
        w
    } else {
        after_event(after_events(w, events.drop_last()), events.last())
    }
}

/// Whether each event of a run can happen when its turn comes.
pub open spec fn events_allowed(w: World, events: Seq<QueueEvent>) -> bool
    decreases events.len(),
{
    if events.len() == 0 {
        true
    } else {
        events_allowed(w, events.drop_last()) && event_allowed(
            after_events(w, events.drop_last()),
            events.last(),
        )
    }
}

/// The names of a set of files are the keys of the files as a map.
proof fn lemma_names_are_keys(files: FilesView)
    ensures
        layer_names(files).to_set() == files_map(files).dom(),
{
    assert(layer_names(files).to_set() =~= files_map(files).dom());
}

/// Scheduling operations keeps the queue as it must be, as long as task
/// ids are left for them.
proof fn lemma_enqueue_all_wf(q: QueueView, ops: Seq<UploadOpView>)
    requires
        queue_wf(q),
        q.task_counter + q.queued_operations.len() + ops.len() <= u64::MAX,
    ensures
        queue_wf(enqueue_all(q, ops)),
{
}

/// Deletions take their files from the remote and leave the index alone.
proof fn lemma_remote_after_deletions(remote: RemoteView, names: Seq<Seq<char>>, flag: bool)
    ensures
        remote_after_all(remote, deletions_of(names, flag)).files == remote.files.difference(
            names.to_set(),
        ),
        remote_after_all(remote, deletions_of(names, flag)).index == remote.index,
    decreases names.len(),
{
    let ops = deletions_of(names, flag);
    if names.len() == 0 {
        assert(remote.files.difference(names.to_set()) =~= remote.files);
    } else {
        lemma_remote_after_deletions(remote, names.drop_last(), flag);
        assert(ops.drop_last() =~= deletions_of(names.drop_last(), flag));
        assert(deletes(ops.last(), names.last()));
        let before = remote_after_all(remote, ops.drop_last());
        assert forall|x: Seq<char>|
            names.to_set().contains(x) == (names.drop_last().to_set().contains(x) || x
                == names.last()) by {
            if names.to_set().contains(x) {
                let j = choose|j: int| 0 <= j < names.len() && names[j] == x;
                if j < names.len() - 1 {
                    assert(names.drop_last()[j] == x);
                }
            }
            if names.drop_last().to_set().contains(x) {
                let j = choose|j: int| 0 <= j < names.drop_last().len() && names.drop_last()[j] == x;
                assert(names[j] == x);
            }
            if x == names.last() {
                assert(names[names.len() - 1] == x);
            }
        }
        assert(before.files.remove(names.last()) =~= remote.files.difference(names.to_set()));
    }
}

/// Scheduling deletions puts no upload behind a deletion.
proof fn lemma_enqueue_deletions_coherent(q: QueueView, names: Seq<Seq<char>>, flag: bool)
    requires
        no_upload_behind_deletion(q),
    ensures
        no_upload_behind_deletion(enqueue_all(q, deletions_of(names, flag))),
{
    let ops = deletions_of(names, flag);
    let n = enqueue_all(q, ops);
    let old_len = q.queued_operations.len();
    assert forall|a: u64, j: int|
        n.inprogress_tasks.contains_key(a) && 0 <= j < n.queued_operations.len() implies !undoes(
        n.inprogress_tasks[a],
        n.queued_operations[j],
    ) by {
        if j < old_len {
            assert(n.queued_operations[j] == q.queued_operations[j]);
        } else {
            assert(n.queued_operations[j] == ops[j - old_len]);
        }
    }
    assert forall|i: int, j: int| 0 <= i < j < n.queued_operations.len() implies !undoes(
        n.queued_operations[i],
        n.queued_operations[j],
    ) by {
        if j < old_len {
            assert(n.queued_operations[i] == q.queued_operations[i]);
            assert(n.queued_operations[j] == q.queued_operations[j]);
        } else {
            assert(n.queued_operations[j] == ops[j - old_len]);
        }
    }
}

/// Scheduling an operation that is no upload puts no upload behind a
/// deletion.
proof fn lemma_enqueue_coherent(q: QueueView, op: UploadOpView)
    requires
        no_upload_behind_deletion(q),
        op matches UploadOpView::UploadLayer(name, _) ==> !deletion_pending(q, name),
    ensures
        no_upload_behind_deletion(enqueue(q, op)),
{
    let n = enqueue(q, op);
    let old_len = q.queued_operations.len();
    assert forall|a: u64, j: int|
        n.inprogress_tasks.contains_key(a) && 0 <= j < n.queued_operations.len() implies !undoes(
        n.inprogress_tasks[a],
        n.queued_operations[j],
    ) by {
        if j < old_len {
            assert(n.queued_operations[j] == q.queued_operations[j]);
        } else if undoes(n.inprogress_tasks[a], op) {
            assert(q.inprogress_tasks.contains_key(a));
            assert(deleting(q.inprogress_tasks, op->UploadLayer_0));
        }
    }
    assert forall|i: int, j: int| 0 <= i < j < n.queued_operations.len() implies !undoes(
        n.queued_operations[i],
        n.queued_operations[j],
    ) by {
        assert(n.queued_operations[i] == q.queued_operations[i]);
        if j < old_len {
            assert(n.queued_operations[j] == q.queued_operations[j]);
        } else if undoes(n.queued_operations[i], op) {
            assert(deletes(q.queued_operations[i], op->UploadLayer_0));
        }
    }
}

/// An index upload that is scheduled and started if it can be: the remote
/// in the end holds the index that lists the files that the queue wants.
proof fn lemma_index_upload_coherent(q: QueueView, remote: RemoteView, metadata_bytes: Seq<u8>)
    requires
        queue_wf(q),
        no_upload_behind_deletion(q),
        q.task_counter + q.queued_operations.len() < u64::MAX,
    ensures
        queue_wf(launch(with_index_upload(q, metadata_bytes))),
        settled(launch(with_index_upload(q, metadata_bytes))),
        no_upload_behind_deletion(launch(with_index_upload(q, metadata_bytes))),
        remote_in_the_end(launch(with_index_upload(q, metadata_bytes)), remote).files
            == remote_in_the_end(q, remote).files,
        listed(remote_in_the_end(launch(with_index_upload(q, metadata_bytes)), remote))
            == layer_names(q.latest_files).to_set(),
        launch(with_index_upload(q, metadata_bytes)).latest_files == q.latest_files,
        launch(
            with_index_upload(q, metadata_bytes),
        ).latest_files_changes_since_metadata_upload_scheduled == 0,
        launch(with_index_upload(q, metadata_bytes)).task_counter + launch(
            with_index_upload(q, metadata_bytes),
        ).queued_operations.len() <= q.task_counter + q.queued_operations.len() + 1,
{
    let cleared = QueueView { latest_files_changes_since_metadata_upload_scheduled: 0, ..q };
    let op = UploadOpView::UploadMetadata(
        index_for(q, metadata_bytes),
        q.latest_metadata.spec_disk_consistent_lsn(),
    );
    let scheduled = with_index_upload(q, metadata_bytes);
    assert(scheduled == enqueue(cleared, op));
    assert(queue_wf(cleared));
    assert(no_upload_behind_deletion(cleared));
    lemma_enqueue_wf(cleared, op);
    lemma_enqueue_coherent(cleared, op);
    lemma_remote_after_enqueue(cleared, remote, op);
    assert(remote_in_the_end(cleared, remote) == remote_in_the_end(q, remote));
    lemma_launch_wf(scheduled);
    lemma_launch_coherent(scheduled, remote);
}

/// Whatever happens to a queue and its remote, as long as it is allowed to
/// happen, they stay coherent.
pub proof fn lemma_event_keeps_coherent(w: World, event: QueueEvent)
    requires
        coherent(w),
        event_allowed(w, event),
    ensures
        coherent(after_event(w, event)),
{
    let q = w.queue;
    let remote = w.remote;
    let n = after_event(w, event);
    match event {
        QueueEvent::ScheduleLayerFileUpload { name, layer_metadata } => {
            let metadata = layer_metadata;
            let recorded = record_file(q, name, metadata);
            let op = UploadOpView::UploadLayer(name, metadata);
            let scheduled = enqueue(recorded, op);
            lemma_files_insert(q.latest_files, name, metadata);
            lemma_names_are_keys(q.latest_files);
            lemma_names_are_keys(recorded.latest_files);
            assert(queue_wf(recorded));
            assert(no_upload_behind_deletion(recorded));
            assert(!deletion_pending(recorded, name)) by {
                if deletion_pending(recorded, name) {
                    assert(deletion_pending(q, name)) by {
                        if !deleting(q.inprogress_tasks, name) {
                            let i = choose|i: int|
                                0 <= i < recorded.queued_operations.len() && deletes(
                                    #[trigger] recorded.queued_operations[i],
                                    name,
                                );
                            assert(deletes(q.queued_operations[i], name));
                        }
                    }
                }
            }
            lemma_enqueue_wf(recorded, op);
            lemma_enqueue_coherent(recorded, op);
            lemma_remote_after_enqueue(recorded, remote, op);
            assert(remote_in_the_end(recorded, remote) == remote_in_the_end(q, remote));
            lemma_launch_wf(scheduled);
            lemma_launch_coherent(scheduled, remote);
            assert(n.queue == launch(scheduled));
            assert(n.queue.latest_files_changes_since_metadata_upload_scheduled != 0);
        },
        QueueEvent::ScheduleIndexUploadForMetadataUpdate { metadata } => {
            let updated = QueueView { latest_metadata: metadata, ..q };
            assert(queue_wf(updated));
            assert(no_upload_behind_deletion(updated));
            assert(remote_in_the_end(updated, remote) == remote_in_the_end(q, remote));
            lemma_index_upload_coherent(updated, remote, metadata.spec_to_bytes());
        },
        QueueEvent::ScheduleIndexUploadForFileChanges => {
            if q.latest_files_changes_since_metadata_upload_scheduled > 0 {
                lemma_index_upload_coherent(q, remote, q.latest_metadata.spec_to_bytes());
            }
        },
        QueueEvent::ScheduleLayerFileDeletion { names } => {
            if names.len() > 0 {
                let forgotten = forget_files(q, names);
                let first = spec_deletion_index_upload(q, names).queue;
                let ops = deletions_of(names, false);
                let scheduled = enqueue_all(first, ops);
                lemma_files_remove_all(q.latest_files, names);
                lemma_names_are_keys(q.latest_files);
                lemma_names_are_keys(forgotten.latest_files);
                assert(queue_wf(forgotten));
                assert(no_upload_behind_deletion(forgotten));
                assert(remote_in_the_end(forgotten, remote) == remote_in_the_end(q, remote));
                assert(forgotten.latest_files_changes_since_metadata_upload_scheduled > 0);
                lemma_index_upload_coherent(forgotten, remote, q.latest_metadata.spec_to_bytes());
                assert(queue_wf(first));
                assert(no_upload_behind_deletion(first));
                assert(first.latest_files == forgotten.latest_files);
                assert(first.latest_files_changes_since_metadata_upload_scheduled == 0);
                lemma_enqueue_all_wf(first, ops);
                lemma_enqueue_deletions_coherent(first, names, false);
                lemma_remote_after_enqueue_all(first, remote, ops);
                lemma_remote_after_deletions(remote_in_the_end(first, remote), names, false);
                lemma_launch_wf(scheduled);
                lemma_launch_coherent(scheduled, remote);
                assert(n.queue == launch(scheduled));
                let end = remote_in_the_end(n.queue, remote);
                assert(end.files == remote_in_the_end(first, remote).files.difference(
                    names.to_set(),
                ));
                assert(layer_names(n.queue.latest_files).to_set().subset_of(end.files));
                assert(listed(end) == listed(remote_in_the_end(first, remote)));
            }
        },
        QueueEvent::WaitCompletion { barrier } => {
            let op = UploadOpView::Barrier(barrier);
            let scheduled = enqueue(q, op);
            lemma_enqueue_wf(q, op);
            lemma_enqueue_coherent(q, op);
            lemma_remote_after_enqueue(q, remote, op);
            lemma_launch_wf(scheduled);
            lemma_launch_coherent(scheduled, remote);
        },
        QueueEvent::TaskCompleted { task_id } => {
            let op = q.inprogress_tasks[task_id];
            let finished = finish_task(q, task_id, op);
            lemma_finish_task_wf(q, task_id);
            lemma_finish_task_coherent(q, remote, task_id);
            lemma_launch_wf(finished);
            lemma_launch_coherent(finished, n.remote);
        },
    }
}

/// A run of events that are allowed keeps a queue and its remote coherent.
pub proof fn lemma_events_keep_coherent(w: World, events: Seq<QueueEvent>)
    requires
        coherent(w),
        events_allowed(w, events),
    ensures
        coherent(after_events(w, events)),
    decreases events.len(),
{
    if events.len() > 0 {
        lemma_events_keep_coherent(w, events.drop_last());
        lemma_event_keeps_coherent(after_events(w, events.drop_last()), events.last());
    }
}

/// A queue that was just set up is coherent with a remote whose index lists
/// the files of the queue, all of which are there; or, for a queue without
/// files, with a remote without index.
pub proof fn lemma_fresh_queue_coherent(
    latest_files: FilesView,
    metadata: TimelineMetadata,
    remote: RemoteView,
)
    requires
        distinct_names(latest_files),
        listed(remote) == layer_names(latest_files).to_set(),
        listed(remote).subset_of(remote.files),
    ensures
        coherent(
            World {
                queue: fresh_queue(latest_files, metadata, metadata.spec_disk_consistent_lsn()),
                remote,
            },
        ),
        coherent(
            World {
                queue: fresh_queue(latest_files, metadata, crate::lsn::Lsn(0)),
                remote,
            },
        ),
{
    lemma_fresh_queue_wf(latest_files, metadata, metadata.spec_disk_consistent_lsn());
    lemma_fresh_queue_wf(latest_files, metadata, crate::lsn::Lsn(0));
    let q = fresh_queue(latest_files, metadata, metadata.spec_disk_consistent_lsn());
    lemma_nothing_pending(q, remote);
    let q0 = fresh_queue(latest_files, metadata, crate::lsn::Lsn(0));
    lemma_nothing_pending(q0, remote);
}

/// With nothing in progress and nothing waiting, the remote in the end is
/// the remote as it is.
pub proof fn lemma_nothing_pending(q: QueueView, remote: RemoteView)
    requires
        queue_wf(q),
        q.inprogress_tasks.dom().len() == 0,
        q.queued_operations.len() == 0,
    ensures
        remote_in_the_end(q, remote) == remote,
{
    let tasks = q.inprogress_tasks;
    assert(tasks.dom() =~= Set::empty());
    assert forall|name: Seq<char>| !uploading(tasks, name) && !deleting(tasks, name) by {
        if uploading(tasks, name) {
            let u = choose|u: u64| #[trigger] tasks.contains_key(u) && uploads(tasks[u], name);
            assert(tasks.dom().contains(u));
        }
        if deleting(tasks, name) {
            let d = choose|d: u64| #[trigger] tasks.contains_key(d) && deletes(tasks[d], name);
            assert(tasks.dom().contains(d));
        }
    }
    assert(!index_uploading(tasks)) by {
        if index_uploading(tasks) {
            let m = choose|m: u64| #[trigger] tasks.contains_key(m) && tasks[m] is UploadMetadata;
            assert(tasks.dom().contains(m));
        }
    }
    assert(remote_after_inprogress(remote, tasks).files =~= remote.files);
    assert(remote_after_inprogress(remote, tasks) =~= remote);
}

/// Once everything that was scheduled is done, the remote is as the queue
/// wants it.
///
/// Start from a queue that was just set up and a remote that fits it. Let
/// uploads, index uploads and deletions be scheduled, let somebody wait for
/// completion, and let tasks end, in any order that is allowed; in
/// particular, no upload is scheduled of a file whose deletion is scheduled
/// and not done. Then whenever nothing is in progress and nothing waits, as
/// when a wait for completion is over, every file that the index on the
/// remote lists is on the remote; and if an index upload was scheduled
/// after the last change to the files, the index lists exactly the files
/// that the queue wants on the remote.
pub proof fn lemma_remote_is_as_scheduled(w: World, events: Seq<QueueEvent>)
    requires
        coherent(w),
        events_allowed(w, events),
        after_events(w, events).queue.inprogress_tasks.dom().len() == 0,
        after_events(w, events).queue.queued_operations.len() == 0,
    ensures
        listed(after_events(w, events).remote).subset_of(after_events(w, events).remote.files),
        after_events(w, events).queue.latest_files_changes_since_metadata_upload_scheduled == 0
            ==> listed(after_events(w, events).remote) == layer_names(
            after_events(w, events).queue.latest_files,
        ).to_set(),
{
    lemma_events_keep_coherent(w, events);
    let end = after_events(w, events);
    lemma_nothing_pending(end.queue, end.remote);
}

} // verus!
