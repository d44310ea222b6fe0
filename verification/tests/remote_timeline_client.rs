//! The upload queue of a timeline, driven against a remote that is kept in
//! memory.

use std::collections::BTreeMap;
use std::collections::BTreeSet;

use pageserver::id::{TenantId, TimelineId};
use pageserver::lsn::Lsn;
use pageserver::metadata::{MetadataError, TimelineMetadata};
use pageserver::metrics::{RemoteOpFileKind, RemoteOpKind};
use pageserver::remote_timeline_client::index::{
    IndexPart, IndexPartError, LayerFileMetadata, LayerFileName, LayerFiles, Timestamp,
    INDEX_FORMAT_VERSION, INDEX_PART_FILE_NAME,
};
use pageserver::remote_timeline_client::upload_queue::{
    Launched, SetDeletedFlagProgress, UploadOp, UploadQueue, UploadQueueInitialized, UploadTask,
};
use pageserver::remote_timeline_client::{
    files_to_sweep, has_expected_size, is_index_file_path, DownloadError, MaybeDeletedIndexPart,
    PersistIndexPartWithDeletedFlagError, QueueError, RemoteRequest, RemoteTimelineClient,
    RetryLogLevel, StopError, UploadAttempt, FAILED_DOWNLOAD_RETRIES,
    FAILED_DOWNLOAD_WARN_THRESHOLD, FAILED_UPLOAD_WARN_THRESHOLD,
};

const DEFAULT_PG_VERSION: u32 = 14;

const LAYER_1: &str = "000000000000000000000000000000000000-FFFFFFFFFFFFFFFFFFFFFFFFFFFFFFFFFFFF__00000000016B59D8-00000000016B5A51";
const LAYER_2: &str = "000000000000000000000000000000000000-FFFFFFFFFFFFFFFFFFFFFFFFFFFFFFFFFFFF__00000000016B59D9-00000000016B5A52";
const LAYER_3: &str = "000000000000000000000000000000000000-FFFFFFFFFFFFFFFFFFFFFFFFFFFFFFFFFFFF__00000000016B59DA-00000000016B5A53";

fn dummy_contents(name: &str) -> Vec<u8> {
    format!("contents for {name}").into()
}

fn dummy_metadata(disk_consistent_lsn: Lsn) -> TimelineMetadata {
    let metadata = TimelineMetadata::new(
        disk_consistent_lsn,
        None,
        None,
        Lsn(0),
        Lsn(0),
        Lsn(0),
        // Any version will do
        DEFAULT_PG_VERSION,
    );
    // go through serialize + deserialize, including the checksum
    TimelineMetadata::from_bytes(&metadata.to_bytes()).unwrap()
}

/// A remote that is kept in memory: the files by name, and the index.
struct Remote {
    files: BTreeMap<String, u64>,
    index: Option<Vec<u8>>,
}

impl Remote {
    fn new() -> Remote {
        Remote { files: BTreeMap::new(), index: None }
    }

    fn perform(&mut self, request: RemoteRequest) {
        match request {
            RemoteRequest::UploadLayer { file_name, metadata } => {
                self.files.insert(file_name, metadata.file_size());
            }
            RemoteRequest::UploadIndex(index_part) => {
                self.index = Some(index_part.to_bytes());
            }
            RemoteRequest::DeleteLayer { file_name, .. } => {
                self.files.remove(&file_name);
            }
        }
    }

    fn download_index(&self) -> Result<IndexPart, DownloadError> {
        match &self.index {
            Some(bytes) => IndexPart::from_bytes(bytes).map_err(|_| DownloadError::Other),
            None => Err(DownloadError::NotFound),
        }
    }

    fn listing(&self) -> Vec<String> {
        let mut found: Vec<String> = self.files.keys().cloned().collect();
        if self.index.is_some() {
            found.push(String::from(INDEX_PART_FILE_NAME));
        }
        found.sort();
        found
    }
}

fn assert_remote_files(expected: &[&str], remote: &Remote) {
    let mut expected: Vec<String> = expected.iter().map(|x| String::from(*x)).collect();
    expected.sort();
    assert_eq!(remote.listing(), expected);
}

fn assert_file_list(a: &LayerFiles, b: &[&str]) {
    let mut avec: Vec<String> = (0..a.len()).map(|i| a.name_at(i).file_name()).collect();
    avec.sort();
    let mut bvec = b.to_vec();
    bvec.sort_unstable();
    assert_eq!(avec, bvec);
}

/// What the tasks of a client do while nobody looks: the tasks in flight,
/// and the barriers that have fired.
struct Background {
    in_flight: Vec<UploadTask>,
    fired: BTreeSet<u64>,
}

impl Background {
    fn new() -> Background {
        Background { in_flight: Vec::new(), fired: BTreeSet::new() }
    }

    fn take(&mut self, launched: Launched) {
        self.in_flight.extend(launched.tasks);
        self.fired.extend(launched.barriers);
    }

    /// Runs the tasks in flight, and those that they let start, to the end.
    fn run(&mut self, client: &mut RemoteTimelineClient, remote: &mut Remote) {
        while !self.in_flight.is_empty() {
            let task = self.in_flight.remove(0);
            match client.begin_upload_attempt(&task, false) {
                UploadAttempt::Perform(request) => remote.perform(request),
                UploadAttempt::Cancelled { .. } => panic!("nobody asked for shutdown"),
            }
            assert!(client.holds_task(&task));
            let launched = client.upload_task_completed(&task);
            self.take(launched);
        }
    }
}

fn initialized(client: &RemoteTimelineClient) -> &UploadQueueInitialized {
    match client.upload_queue() {
        UploadQueue::Initialized(q) => q,
        other => panic!("queue is in state {}", other.as_str()),
    }
}

fn new_client() -> RemoteTimelineClient {
    RemoteTimelineClient::new(TenantId(1), TimelineId(2))
}

// Test scheduling
#[test]
fn upload_scheduling() {
    // Test outline:
    //
    // Schedule upload of a bunch of layers. Check that they are started immediately, not queued
    // Schedule upload of index. Check that it is queued
    // let the layer file uploads finish. Check that the index-upload is now started
    // let the index-upload finish.
    //
    // Download back the index. Check that the list of files is correct
    //
    // Schedule upload. Schedule deletion. Check that the deletion is queued
    // let upload finish. Check that deletion is now started
    let mut client = new_client();
    let mut remote = Remote::new();
    let mut background = Background::new();

    let metadata = dummy_metadata(Lsn(0x10));
    client.init_upload_queue_for_empty_remote(&metadata).unwrap();

    // Create a couple of dummy files,  schedule upload for them
    let layer_file_name_1 = LayerFileName::new(LAYER_1);
    let layer_file_name_2 = LayerFileName::new(LAYER_2);
    let layer_file_name_3 = LayerFileName::new(LAYER_3);
    let content_1 = dummy_contents("foo");
    let content_2 = dummy_contents("bar");

    let launched = client
        .schedule_layer_file_upload(
            &layer_file_name_1,
            &LayerFileMetadata::new(content_1.len() as u64),
        )
        .unwrap();
    background.take(launched);
    let launched = client
        .schedule_layer_file_upload(
            &layer_file_name_2,
            &LayerFileMetadata::new(content_2.len() as u64),
        )
        .unwrap();
    background.take(launched);

    // Check that they are started immediately, not queued
    {
        let upload_queue = initialized(&client);
        assert!(upload_queue.num_queued_operations() == 0);
        assert!(upload_queue.num_inprogress_tasks() == 2);
        assert!(upload_queue.num_inprogress_layer_uploads() == 2);

        // also check that `latest_file_changes` was updated
        assert!(upload_queue.latest_files_changes_since_metadata_upload_scheduled() == 2);
    }
    assert_eq!(background.in_flight.len(), 2);

    // Schedule upload of index. Check that it is queued
    let metadata = dummy_metadata(Lsn(0x20));
    let launched = client.schedule_index_upload_for_metadata_update(&metadata).unwrap();
    assert!(launched.tasks.is_empty());
    background.take(launched);
    {
        let upload_queue = initialized(&client);
        assert!(upload_queue.num_queued_operations() == 1);
        assert!(upload_queue.latest_files_changes_since_metadata_upload_scheduled() == 0);
    }

    // Wait for the uploads to finish
    let (barrier, launched) = client.wait_completion().unwrap();
    background.take(launched);
    assert!(!background.fired.contains(&barrier));
    background.run(&mut client, &mut remote);
    assert!(background.fired.contains(&barrier));
    {
        let upload_queue = initialized(&client);

        assert!(upload_queue.num_queued_operations() == 0);
        assert!(upload_queue.num_inprogress_tasks() == 0);
    }

    // Download back the index, and check that the list of files is correct
    client.download_started(RemoteOpFileKind::Index);
    let index_part = match client.download_index_file(remote.download_index()).unwrap() {
        MaybeDeletedIndexPart::IndexPart(index_part) => index_part,
        MaybeDeletedIndexPart::Deleted(_) => panic!("unexpectedly got deleted index part"),
    };

    assert_file_list(index_part.layer_metadata(), &[LAYER_1, LAYER_2]);
    let downloaded_metadata = index_part.parse_metadata().unwrap();
    assert_eq!(downloaded_metadata, metadata);
    assert_eq!(downloaded_metadata.disk_consistent_lsn(), Lsn(0x20));

    // Schedule upload and then a deletion. Check that the deletion is queued
    let content_baz = dummy_contents("baz");
    let launched = client
        .schedule_layer_file_upload(
            &layer_file_name_3,
            &LayerFileMetadata::new(content_baz.len() as u64),
        )
        .unwrap();
    background.take(launched);
    let launched = client.schedule_layer_file_deletion(&[layer_file_name_1.clone()]).unwrap();
    background.take(launched);
    {
        let upload_queue = initialized(&client);

        // Deletion schedules upload of the index file, and the file deletion itself
        assert!(upload_queue.num_queued_operations() == 2);
        assert!(upload_queue.num_inprogress_tasks() == 1);
        assert!(upload_queue.num_inprogress_layer_uploads() == 1);
        assert!(upload_queue.num_inprogress_deletions() == 0);
        assert!(upload_queue.latest_files_changes_since_metadata_upload_scheduled() == 0);
    }
    assert_remote_files(&[LAYER_1, LAYER_2, "index_part.json"], &remote);

    // Finish them
    let (barrier, launched) = client.wait_completion().unwrap();
    background.take(launched);
    background.run(&mut client, &mut remote);
    assert!(background.fired.contains(&barrier));

    assert_remote_files(&[LAYER_2, LAYER_3, "index_part.json"], &remote);
    // The index lists what is left, and the position of the index that was
    // uploaded last is remembered.
    assert_file_list(remote.download_index().unwrap().layer_metadata(), &[LAYER_2, LAYER_3]);
    assert_file_list(initialized(&client).latest_files(), &[LAYER_2, LAYER_3]);
    assert_eq!(client.last_uploaded_consistent_lsn(), Some(Lsn(0x20)));
    assert_eq!(client.get_remote_physical_size(), 32);
}

#[derive(Debug, PartialEq)]
struct BytesStartedFinished {
    started: Option<usize>,
    finished: Option<usize>,
}

fn get_bytes_started_stopped(client: &RemoteTimelineClient) -> BytesStartedFinished {
    let started = client
        .metrics()
        .get_bytes_started_counter_value(RemoteOpFileKind::Layer, RemoteOpKind::Upload)
        .map(|v| v.try_into().unwrap());
    let stopped = client
        .metrics()
        .get_bytes_finished_counter_value(RemoteOpFileKind::Layer, RemoteOpKind::Upload)
        .map(|v| v.try_into().unwrap());
    BytesStartedFinished { started, finished: stopped }
}

#[test]
fn bytes_unfinished_gauge_for_layer_file_uploads() {
    // Setup
    let mut client = new_client();
    let mut remote = Remote::new();
    let mut background = Background::new();

    let metadata = dummy_metadata(Lsn(0x10));
    client.init_upload_queue_for_empty_remote(&metadata).unwrap();

    let layer_file_name_1 = LayerFileName::new(LAYER_1);
    let content_1 = dummy_contents("foo");

    // Test

    let init = get_bytes_started_stopped(&client);

    let launched = client
        .schedule_layer_file_upload(
            &layer_file_name_1,
            &LayerFileMetadata::new(content_1.len() as u64),
        )
        .unwrap();
    background.take(launched);

    let pre = get_bytes_started_stopped(&client);

    let (barrier, launched) = client.wait_completion().unwrap();
    background.take(launched);
    background.run(&mut client, &mut remote);
    assert!(background.fired.contains(&barrier));

    let post = get_bytes_started_stopped(&client);

    // Validate

    assert_eq!(init, BytesStartedFinished { started: None, finished: None });
    assert_eq!(
        pre,
        BytesStartedFinished {
            started: Some(content_1.len()),
            // the counter of finished bytes is created eagerly so that
            // subtractions work on the first sample
            finished: Some(0),
        }
    );
    assert_eq!(
        post,
        BytesStartedFinished { started: Some(content_1.len()), finished: Some(content_1.len()) }
    );
}

#[test]
fn bytes_in_flight_of_a_layer_of_seventeen_bytes() {
    let mut client = new_client();
    let mut remote = Remote::new();
    let mut background = Background::new();
    client.init_upload_queue_for_empty_remote(&dummy_metadata(Lsn(0x10))).unwrap();
    assert_eq!(
        get_bytes_started_stopped(&client),
        BytesStartedFinished { started: None, finished: None }
    );
    let launched = client
        .schedule_layer_file_upload(&LayerFileName::new(LAYER_1), &LayerFileMetadata::new(17))
        .unwrap();
    background.take(launched);
    assert_eq!(
        get_bytes_started_stopped(&client),
        BytesStartedFinished { started: Some(17), finished: Some(0) }
    );
    assert_eq!(
        client.metrics().counters(RemoteOpFileKind::Layer, RemoteOpKind::Upload).calls_unfinished,
        1
    );
    let (_, launched) = client.wait_completion().unwrap();
    background.take(launched);
    background.run(&mut client, &mut remote);
    assert_eq!(
        get_bytes_started_stopped(&client),
        BytesStartedFinished { started: Some(17), finished: Some(17) }
    );
    assert_eq!(
        client.metrics().counters(RemoteOpFileKind::Layer, RemoteOpKind::Upload).calls_unfinished,
        0
    );
    // Other kinds of calls were not touched.
    assert_eq!(
        client.metrics().get_bytes_started_counter_value(
            RemoteOpFileKind::Index,
            RemoteOpKind::Upload
        ),
        None
    );
}

#[test]
fn stop_while_a_waiter_is_parked() {
    let mut client = new_client();
    client.init_upload_queue_for_empty_remote(&dummy_metadata(Lsn(0x10))).unwrap();
    // The upload is started and never finishes.
    let launched = client
        .schedule_layer_file_upload(&LayerFileName::new(LAYER_1), &LayerFileMetadata::new(16))
        .unwrap();
    assert_eq!(launched.tasks.len(), 1);
    let blocked = launched.tasks;
    // The index upload waits behind it, and so does the waiter.
    client.schedule_index_upload_for_file_changes().unwrap();
    let (barrier, launched) = client.wait_completion().unwrap();
    assert!(launched.barriers.is_empty());
    assert_eq!(
        client.metrics().counters(RemoteOpFileKind::Index, RemoteOpKind::Upload).calls_unfinished,
        1
    );
    // Stop: the waiter is told that its wait was aborted.
    let aborted = client.stop().unwrap();
    assert_eq!(aborted, vec![barrier]);
    assert!(matches!(client.upload_queue(), UploadQueue::Stopped(_)));
    // The index upload that was given up is no longer counted; the upload
    // that is under way still is.
    assert_eq!(
        client.metrics().counters(RemoteOpFileKind::Index, RemoteOpKind::Upload).calls_unfinished,
        0
    );
    assert_eq!(
        client.metrics().counters(RemoteOpFileKind::Layer, RemoteOpKind::Upload).calls_unfinished,
        1
    );
    // Nothing can be scheduled any more.
    assert_eq!(client.wait_completion().unwrap_err(), QueueError::NotInitialized);
    assert_eq!(
        client
            .schedule_layer_file_upload(&LayerFileName::new(LAYER_2), &LayerFileMetadata::new(1))
            .unwrap_err(),
        QueueError::NotInitialized
    );
    // Stopping again changes nothing.
    assert_eq!(client.stop().unwrap(), Vec::<u64>::new());
    // The upload that was under way ends; the stopped queue takes no notice.
    assert!(client.holds_task(&blocked[0]));
    let launched = client.upload_task_completed(&blocked[0]);
    assert!(launched.tasks.is_empty() && launched.barriers.is_empty());
    match client.upload_queue() {
        UploadQueue::Stopped(stopped) => {
            assert!(stopped.upload_queue_for_deletion.no_pending_work());
            assert_eq!(stopped.deleted_at, SetDeletedFlagProgress::NotRunning);
            // The files that were to be on the remote are kept for deletion.
            assert_file_list(stopped.upload_queue_for_deletion.latest_files(), &[LAYER_1]);
        }
        other => panic!("queue is in state {}", other.as_str()),
    }
}

#[test]
fn shutdown_stops_the_queue_between_attempts() {
    let mut client = new_client();
    client.init_upload_queue_for_empty_remote(&dummy_metadata(Lsn(1))).unwrap();
    let launched = client
        .schedule_layer_file_upload(&LayerFileName::new(LAYER_1), &LayerFileMetadata::new(3))
        .unwrap();
    let mut task = launched.tasks.into_iter().next().unwrap();
    let (barrier, _) = client.wait_completion().unwrap();
    // The first attempts fail.
    match client.begin_upload_attempt(&task, false) {
        UploadAttempt::Perform(RemoteRequest::UploadLayer { file_name, metadata }) => {
            assert_eq!(file_name, LAYER_1);
            assert_eq!(metadata.file_size(), 3);
        }
        other => panic!("unexpected {:?}", other),
    }
    for attempt in 0..5 {
        let plan = RemoteTimelineClient::upload_attempt_failed(&mut task);
        assert_eq!(plan.attempt, attempt);
        let expected =
            if attempt < FAILED_UPLOAD_WARN_THRESHOLD { RetryLogLevel::Info } else { RetryLogLevel::Warn };
        assert_eq!(plan.level, expected);
    }
    assert_eq!(task.retries, 5);
    assert_eq!(FAILED_UPLOAD_WARN_THRESHOLD, 3);
    assert_eq!(FAILED_DOWNLOAD_WARN_THRESHOLD, 3);
    assert_eq!(FAILED_DOWNLOAD_RETRIES, 10);
    // Then shutdown is requested.
    match client.begin_upload_attempt(&task, true) {
        UploadAttempt::Cancelled { aborted } => assert_eq!(aborted, vec![barrier]),
        other => panic!("unexpected {:?}", other),
    }
    assert!(matches!(client.upload_queue(), UploadQueue::Stopped(_)));
    // Another task that sees the request finds the queue stopped already.
    match client.begin_upload_attempt(&task, true) {
        UploadAttempt::Cancelled { aborted } => assert!(aborted.is_empty()),
        other => panic!("unexpected {:?}", other),
    }
}

#[test]
fn counter_of_retries_wraps_around() {
    let mut task = UploadTask {
        task_id: 1,
        op: UploadOp::UploadLayer(LayerFileName::new("a"), LayerFileMetadata::new(1)),
        retries: u32::MAX,
    };
    let plan = RemoteTimelineClient::upload_attempt_failed(&mut task);
    assert_eq!(plan.attempt, u32::MAX);
    assert_eq!(plan.level, RetryLogLevel::Warn);
    assert_eq!(task.retries, 0);
}

#[test]
fn queue_must_be_initialized_before_use() {
    let mut client = new_client();
    assert_eq!(client.tenant_id(), TenantId(1));
    assert_eq!(client.timeline_id(), TimelineId(2));
    assert!(matches!(client.upload_queue(), UploadQueue::Uninitialized));
    assert_eq!(client.upload_queue().as_str(), "Uninitialized");
    assert_eq!(client.last_uploaded_consistent_lsn(), None);
    assert_eq!(client.stop(), Err(StopError::QueueUninitialized));
    let name = LayerFileName::new(LAYER_1);
    assert_eq!(
        client.schedule_layer_file_upload(&name, &LayerFileMetadata::new(1)).unwrap_err(),
        QueueError::NotInitialized
    );
    assert_eq!(
        client.schedule_index_upload_for_metadata_update(&dummy_metadata(Lsn(1))).unwrap_err(),
        QueueError::NotInitialized
    );
    assert_eq!(
        client.schedule_index_upload_for_file_changes().unwrap_err(),
        QueueError::NotInitialized
    );
    assert_eq!(
        client.schedule_layer_file_deletion(&[name]).unwrap_err(),
        QueueError::NotInitialized
    );
    assert_eq!(client.wait_completion().unwrap_err(), QueueError::NotInitialized);
    assert_eq!(client.delete_all().unwrap_err(), QueueError::NotStopped);
    assert_eq!(
        client.persist_index_part_with_deleted_flag().unwrap_err(),
        PersistIndexPartWithDeletedFlagError::Other(QueueError::NotStopped)
    );
    assert!(matches!(client.upload_queue(), UploadQueue::Uninitialized));
}

#[test]
fn queue_is_initialized_once() {
    let mut client = new_client();
    client.init_upload_queue_for_empty_remote(&dummy_metadata(Lsn(0x10))).unwrap();
    assert_eq!(client.upload_queue().as_str(), "Initialized");
    assert_eq!(client.last_uploaded_consistent_lsn(), Some(Lsn(0)));
    assert_eq!(
        client.init_upload_queue_for_empty_remote(&dummy_metadata(Lsn(0x20))),
        Err(QueueError::AlreadyInitialized)
    );
    let index_part = IndexPart::new(LayerFiles::new(), Lsn(1), dummy_metadata(Lsn(1)).to_bytes());
    assert_eq!(client.init_upload_queue(&index_part), Err(QueueError::AlreadyInitialized));
    assert_eq!(initialized(&client).latest_metadata(), dummy_metadata(Lsn(0x10)));
    client.stop().unwrap();
    assert_eq!(client.upload_queue().as_str(), "Stopped");
    assert_eq!(client.init_upload_queue(&index_part), Err(QueueError::AlreadyInitialized));
    assert_eq!(
        client.init_upload_queue_stopped_to_continue_deletion(&index_part),
        Err(QueueError::NotDeleted)
    );
}

fn index_with_two_files(lsn: Lsn) -> IndexPart {
    let mut files = LayerFiles::new();
    files.insert(LayerFileName::new(LAYER_1), LayerFileMetadata::new(100));
    files.insert(LayerFileName::new(LAYER_2), LayerFileMetadata::new(23));
    IndexPart::new(files, lsn, dummy_metadata(lsn).to_bytes())
}

#[test]
fn queue_is_initialized_from_the_remote_index() {
    let mut client = new_client();
    let index_part = index_with_two_files(Lsn(0x30));
    client.init_upload_queue(&index_part).unwrap();
    let upload_queue = initialized(&client);
    assert_file_list(upload_queue.latest_files(), &[LAYER_1, LAYER_2]);
    assert_eq!(upload_queue.latest_metadata(), dummy_metadata(Lsn(0x30)));
    assert_eq!(upload_queue.last_uploaded_consistent_lsn(), Lsn(0x30));
    assert_eq!(upload_queue.latest_files_changes_since_metadata_upload_scheduled(), 0);
    assert_eq!(upload_queue.task_counter(), 0);
    assert!(upload_queue.no_pending_work());
    assert_eq!(client.last_uploaded_consistent_lsn(), Some(Lsn(0x30)));
    assert_eq!(client.get_remote_physical_size(), 123);
}

#[test]
fn index_with_unreadable_metadata_is_refused() {
    let mut client = new_client();
    let index_part = IndexPart::new(LayerFiles::new(), Lsn(1), vec![1, 2, 3]);
    assert_eq!(
        client.init_upload_queue(&index_part),
        Err(QueueError::InvalidMetadata(MetadataError::WrongSize))
    );
    assert!(matches!(client.upload_queue(), UploadQueue::Uninitialized));
    let mut bytes = dummy_metadata(Lsn(1)).to_bytes();
    bytes[9] ^= 1;
    let index_part = IndexPart::new(LayerFiles::new(), Lsn(1), bytes);
    assert_eq!(
        client.init_upload_queue(&index_part),
        Err(QueueError::InvalidMetadata(MetadataError::ChecksumMismatch))
    );
}

#[test]
fn size_of_the_remote_stops_at_the_largest_number() {
    let mut files = LayerFiles::new();
    files.insert(LayerFileName::new("a"), LayerFileMetadata::new(u64::MAX - 1));
    files.insert(LayerFileName::new("b"), LayerFileMetadata::new(5));
    assert_eq!(files.total_size(), u64::MAX);
    let mut client = new_client();
    let index_part = IndexPart::new(files, Lsn(1), dummy_metadata(Lsn(1)).to_bytes());
    client.init_upload_queue(&index_part).unwrap();
    assert_eq!(client.get_remote_physical_size(), u64::MAX);
}

#[test]
fn deletion_of_nothing_is_a_noop() {
    let mut client = new_client();
    client.init_upload_queue(&index_with_two_files(Lsn(3))).unwrap();
    let metrics = *client.metrics();
    let launched = client.schedule_layer_file_deletion(&[]).unwrap();
    assert!(launched.tasks.is_empty() && launched.barriers.is_empty());
    let upload_queue = initialized(&client);
    assert!(upload_queue.no_pending_work());
    assert_eq!(upload_queue.latest_files_changes_since_metadata_upload_scheduled(), 0);
    assert_eq!(upload_queue.task_counter(), 0);
    assert_file_list(upload_queue.latest_files(), &[LAYER_1, LAYER_2]);
    assert_eq!(*client.metrics(), metrics);
}

#[test]
fn deletion_of_nothing_leaves_waiting_changes_alone() {
    let mut client = new_client();
    client.init_upload_queue(&index_with_two_files(Lsn(3))).unwrap();
    let launched = client
        .schedule_layer_file_upload(&LayerFileName::new(LAYER_3), &LayerFileMetadata::new(1))
        .unwrap();
    assert_eq!(launched.tasks.len(), 1);
    assert_eq!(initialized(&client).latest_files_changes_since_metadata_upload_scheduled(), 1);
    let metrics = *client.metrics();
    let launched = client.schedule_layer_file_deletion(&[]).unwrap();
    assert!(launched.tasks.is_empty() && launched.barriers.is_empty());
    let upload_queue = initialized(&client);
    // No index upload is scheduled for the change that waits.
    assert_eq!(upload_queue.num_queued_operations(), 0);
    assert_eq!(upload_queue.num_inprogress_tasks(), 1);
    assert_eq!(upload_queue.latest_files_changes_since_metadata_upload_scheduled(), 1);
    assert_eq!(upload_queue.task_counter(), 1);
    assert_file_list(upload_queue.latest_files(), &[LAYER_1, LAYER_2, LAYER_3]);
    assert_eq!(*client.metrics(), metrics);
}

#[test]
fn deletion_of_nothing_fails_on_a_queue_that_is_not_initialized() {
    let mut client = new_client();
    assert_eq!(
        client.schedule_layer_file_deletion(&[]).unwrap_err(),
        QueueError::NotInitialized
    );
}

#[test]
fn index_upload_for_file_changes_without_changes_is_a_noop() {
    let mut client = new_client();
    client.init_upload_queue(&index_with_two_files(Lsn(3))).unwrap();
    let metrics = *client.metrics();
    let launched = client.schedule_index_upload_for_file_changes().unwrap();
    assert!(launched.tasks.is_empty() && launched.barriers.is_empty());
    assert!(initialized(&client).no_pending_work());
    assert_eq!(initialized(&client).task_counter(), 0);
    assert_eq!(*client.metrics(), metrics);
    // With a change it schedules an index upload, which starts at once.
    client
        .schedule_layer_file_deletion(&[LayerFileName::new("not there")])
        .unwrap();
    let mut client = new_client();
    client.init_upload_queue_for_empty_remote(&dummy_metadata(Lsn(1))).unwrap();
    let mut background = Background::new();
    let mut remote = Remote::new();
    background.take(
        client
            .schedule_layer_file_upload(&LayerFileName::new(LAYER_1), &LayerFileMetadata::new(1))
            .unwrap(),
    );
    background.run(&mut client, &mut remote);
    let launched = client.schedule_index_upload_for_file_changes().unwrap();
    assert_eq!(launched.tasks.len(), 1);
    assert!(matches!(launched.tasks[0].op, UploadOp::UploadMetadata(_, Lsn(1))));
    assert_eq!(initialized(&client).num_inprogress_metadata_uploads(), 1);
}

#[test]
fn index_upload_is_a_barrier_for_what_comes_before_it() {
    let mut client = new_client();
    client.init_upload_queue_for_empty_remote(&dummy_metadata(Lsn(1))).unwrap();
    let a = client
        .schedule_layer_file_upload(&LayerFileName::new("a"), &LayerFileMetadata::new(1))
        .unwrap()
        .tasks;
    let b = client
        .schedule_layer_file_upload(&LayerFileName::new("b"), &LayerFileMetadata::new(2))
        .unwrap()
        .tasks;
    assert_eq!((a[0].task_id, b[0].task_id), (1, 2));
    assert!(client.schedule_index_upload_for_file_changes().unwrap().tasks.is_empty());
    // A layer upload behind the index upload has to wait as well: nothing
    // jumps the queue.
    assert!(client
        .schedule_layer_file_upload(&LayerFileName::new("c"), &LayerFileMetadata::new(3))
        .unwrap()
        .tasks
        .is_empty());
    assert_eq!(initialized(&client).num_queued_operations(), 2);
    // The first upload ends: the index still waits for the second.
    assert!(client.upload_task_completed(&b[0]).tasks.is_empty());
    assert_eq!(initialized(&client).num_inprogress_layer_uploads(), 1);
    // The second ends: the index upload starts, and with it the layer
    // upload that was scheduled behind it, which waits for nothing.
    let started = client.upload_task_completed(&a[0]).tasks;
    assert_eq!(started.len(), 2);
    assert_eq!(started[0].task_id, 3);
    assert!(matches!(started[0].op, UploadOp::UploadMetadata(_, _)));
    assert_eq!(started[1].task_id, 4);
    assert!(matches!(started[1].op, UploadOp::UploadLayer(_, _)));
    {
        let q = initialized(&client);
        assert_eq!(q.num_inprogress_metadata_uploads(), 1);
        assert_eq!(q.num_inprogress_layer_uploads(), 1);
        assert_eq!(q.num_inprogress_tasks(), 2);
        assert_eq!(q.num_queued_operations(), 0);
        assert!(q.is_inprogress(3));
        assert!(q.is_inprogress(4));
        assert!(!q.is_inprogress(1));
    }
    // Another index upload waits for both.
    assert!(client.schedule_index_upload_for_file_changes().unwrap().tasks.is_empty());
    // The index upload ends: every task still in progress is younger.
    assert!(client.upload_task_completed(&started[0]).tasks.is_empty());
    assert_eq!(client.last_uploaded_consistent_lsn(), Some(Lsn(1)));
    let next = client.upload_task_completed(&started[1]).tasks;
    assert_eq!(next.len(), 1);
    assert_eq!(next[0].task_id, 5);
    // The index lists the two files that were scheduled before it.
    assert_eq!(client.get_remote_physical_size(), 3);
}

#[test]
fn counters_add_up_to_the_tasks_in_progress() {
    let mut client = new_client();
    client.init_upload_queue(&index_with_two_files(Lsn(3))).unwrap();
    let mut in_flight: Vec<UploadTask> = Vec::new();
    let check = |client: &RemoteTimelineClient| {
        let q = initialized(client);
        assert_eq!(
            q.num_inprogress_layer_uploads()
                + q.num_inprogress_metadata_uploads()
                + q.num_inprogress_deletions(),
            q.num_inprogress_tasks()
        );
    };
    check(&client);
    for i in 0..4u64 {
        let name = LayerFileName::new(&format!("layer-{i}"));
        in_flight.extend(
            client.schedule_layer_file_upload(&name, &LayerFileMetadata::new(i)).unwrap().tasks,
        );
        check(&client);
    }
    in_flight.extend(
        client
            .schedule_layer_file_deletion(&[LayerFileName::new(LAYER_1), LayerFileName::new(LAYER_2)])
            .unwrap()
            .tasks,
    );
    check(&client);
    while !in_flight.is_empty() {
        let task = in_flight.pop().unwrap();
        in_flight.extend(client.upload_task_completed(&task).tasks);
        check(&client);
    }
    let q = initialized(&client);
    assert!(q.no_pending_work());
    // 4 uploads, 1 index upload, 2 deletions
    assert_eq!(q.task_counter(), 7);
}

#[test]
fn deletions_run_side_by_side_after_the_uploads() {
    let mut client = new_client();
    client.init_upload_queue(&index_with_two_files(Lsn(3))).unwrap();
    let upload = client
        .schedule_layer_file_upload(&LayerFileName::new(LAYER_3), &LayerFileMetadata::new(1))
        .unwrap()
        .tasks;
    let names = [LayerFileName::new(LAYER_1), LayerFileName::new(LAYER_2)];
    assert!(client.schedule_layer_file_deletion(&names).unwrap().tasks.is_empty());
    assert_eq!(initialized(&client).num_queued_operations(), 3);
    assert_eq!(
        client.metrics().counters(RemoteOpFileKind::Layer, RemoteOpKind::Delete).calls_unfinished,
        2
    );
    let index = client.upload_task_completed(&upload[0]).tasks;
    assert_eq!(index.len(), 1);
    let deletions = client.upload_task_completed(&index[0]).tasks;
    assert_eq!(deletions.len(), 2);
    for (task, name) in deletions.iter().zip([LAYER_1, LAYER_2]) {
        match &task.op {
            UploadOp::Delete(delete) => {
                assert_eq!(delete.layer_file_name.file_name(), name);
                assert_eq!(delete.file_kind, RemoteOpFileKind::Layer);
                assert!(!delete.scheduled_from_timeline_delete);
            }
            other => panic!("unexpected {:?}", other),
        }
    }
    assert_eq!(initialized(&client).num_inprogress_deletions(), 2);
    // An upload can start while deletions are under way.
    let upload = client
        .schedule_layer_file_upload(&LayerFileName::new("late"), &LayerFileMetadata::new(1))
        .unwrap()
        .tasks;
    assert_eq!(upload.len(), 1);
    // A deletion behind it waits for the upload, not for the deletions.
    assert!(client
        .schedule_layer_file_deletion(&[LayerFileName::new(LAYER_3)])
        .unwrap()
        .tasks
        .is_empty());
    client.upload_task_completed(&deletions[0]);
    client.upload_task_completed(&deletions[1]);
    assert_eq!(initialized(&client).num_queued_operations(), 2);
    let index = client.upload_task_completed(&upload[0]).tasks;
    assert!(matches!(index[0].op, UploadOp::UploadMetadata(_, _)));
}

#[test]
fn barrier_fires_at_once_on_an_idle_queue() {
    let mut client = new_client();
    client.init_upload_queue_for_empty_remote(&dummy_metadata(Lsn(1))).unwrap();
    let (first, launched) = client.wait_completion().unwrap();
    assert_eq!(launched.barriers, vec![first]);
    let (second, launched) = client.wait_completion().unwrap();
    assert_eq!(launched.barriers, vec![second]);
    assert_ne!(first, second);
    assert!(initialized(&client).no_pending_work());
    assert_eq!(initialized(&client).task_counter(), 0);
}

fn stopped_client_with_two_files() -> RemoteTimelineClient {
    let mut client = new_client();
    client.init_upload_queue(&index_with_two_files(Lsn(3))).unwrap();
    client.stop().unwrap();
    client
}

#[test]
fn mark_of_deletion_is_set_once() {
    let mut client = stopped_client_with_two_files();
    let t1 = Timestamp { secs: 1_700_000_000, nanos: 5 };
    let t2 = Timestamp { secs: 1_700_000_001, nanos: 6 };
    let index_part = client.persist_index_part_with_deleted_flag_at(t1).unwrap();
    assert_eq!(index_part.deleted_at(), Some(t1));
    assert_file_list(index_part.layer_metadata(), &[LAYER_1, LAYER_2]);
    assert_eq!(index_part.disk_consistent_lsn(), Lsn(3));
    assert_eq!(index_part.parse_metadata().unwrap(), dummy_metadata(Lsn(3)));
    // A second call while the first is under way.
    assert_eq!(
        client.persist_index_part_with_deleted_flag_at(t2).unwrap_err(),
        PersistIndexPartWithDeletedFlagError::AlreadyInProgress(t1)
    );
    assert_eq!(
        client.persist_index_part_with_deleted_flag().unwrap_err(),
        PersistIndexPartWithDeletedFlagError::AlreadyInProgress(t1)
    );
    assert_eq!(client.delete_all().unwrap_err(), QueueError::DeletedAtNotSet);
    // The upload succeeds.
    client.persist_index_part_with_deleted_flag_done(true);
    assert_eq!(
        client.persist_index_part_with_deleted_flag_at(t2).unwrap_err(),
        PersistIndexPartWithDeletedFlagError::AlreadyDeleted(t1)
    );
    // Reporting the end again changes nothing.
    client.persist_index_part_with_deleted_flag_done(false);
    assert_eq!(
        client.persist_index_part_with_deleted_flag_at(t2).unwrap_err(),
        PersistIndexPartWithDeletedFlagError::AlreadyDeleted(t1)
    );
}

#[test]
fn mark_of_deletion_can_be_set_again_after_a_failed_upload() {
    let mut client = stopped_client_with_two_files();
    let t1 = Timestamp { secs: 10, nanos: 0 };
    let t2 = Timestamp { secs: 20, nanos: 0 };
    client.persist_index_part_with_deleted_flag_at(t1).unwrap();
    client.persist_index_part_with_deleted_flag_done(false);
    let index_part = client.persist_index_part_with_deleted_flag_at(t2).unwrap();
    assert_eq!(index_part.deleted_at(), Some(t2));
}

#[test]
fn mark_of_deletion_needs_a_stopped_queue() {
    let mut client = new_client();
    client.init_upload_queue(&index_with_two_files(Lsn(3))).unwrap();
    assert_eq!(
        client.persist_index_part_with_deleted_flag_at(Timestamp { secs: 1, nanos: 1 }).unwrap_err(),
        PersistIndexPartWithDeletedFlagError::Other(QueueError::NotStopped)
    );
    assert_eq!(client.delete_all().unwrap_err(), QueueError::NotStopped);
}

#[test]
fn mark_of_deletion_carries_the_time_of_the_clock() {
    let mut client = stopped_client_with_two_files();
    let before = std::time::SystemTime::now()
        .duration_since(std::time::UNIX_EPOCH)
        .unwrap()
        .as_secs() as i64;
    let index_part = client.persist_index_part_with_deleted_flag().unwrap();
    let after = std::time::SystemTime::now()
        .duration_since(std::time::UNIX_EPOCH)
        .unwrap()
        .as_secs() as i64;
    let at = index_part.deleted_at().unwrap();
    assert!(before <= at.secs && at.secs <= after);
    assert!(at.nanos < 2_000_000_000);
    assert_eq!(
        client.persist_index_part_with_deleted_flag().unwrap_err(),
        PersistIndexPartWithDeletedFlagError::AlreadyInProgress(at)
    );
}

#[test]
fn delete_all_deletes_the_files_and_then_the_index() {
    let mut remote = Remote::new();
    remote.files.insert(String::from(LAYER_1), 100);
    remote.files.insert(String::from(LAYER_2), 23);
    remote.files.insert(String::from("leaked"), 1);
    let mut client = stopped_client_with_two_files();
    let t = Timestamp { secs: 1, nanos: 0 };
    let marked = client.persist_index_part_with_deleted_flag_at(t).unwrap();
    remote.index = Some(marked.to_bytes());
    client.persist_index_part_with_deleted_flag_done(true);

    assert!(client.can_schedule(3));
    let plan = client.delete_all().unwrap();
    assert_eq!(plan.deletions_queued, 2);
    assert_eq!(plan.launched.tasks.len(), 2);
    assert!(plan.launched.barriers.is_empty());
    let mut background = Background::new();
    for task in &plan.launched.tasks {
        match &task.op {
            UploadOp::Delete(delete) => assert!(delete.scheduled_from_timeline_delete),
            other => panic!("unexpected {:?}", other),
        }
    }
    background.take(plan.launched);
    background.run(&mut client, &mut remote);
    assert!(background.fired.contains(&plan.barrier));
    // What is left is swept, all but the index.
    assert_remote_files(&["leaked", "index_part.json"], &remote);
    let prefix = client.remote_timeline_path();
    let listing: Vec<String> =
        remote.listing().into_iter().map(|name| format!("{prefix}/{name}")).collect();
    let sweep = files_to_sweep(&listing);
    assert_eq!(sweep.len(), 1);
    assert_eq!(listing[sweep[0]], client.remote_path("leaked"));
    match client.upload_queue() {
        UploadQueue::Stopped(stopped) => {
            assert!(stopped.upload_queue_for_deletion.no_pending_work());
            assert_eq!(stopped.deleted_at, SetDeletedFlagProgress::Successful(t));
        }
        other => panic!("queue is in state {}", other.as_str()),
    }
    assert_eq!(
        client.metrics().counters(RemoteOpFileKind::Layer, RemoteOpKind::Delete).calls_unfinished,
        0
    );
}

#[test]
fn deletion_goes_on_after_a_restart() {
    let mut index_part = index_with_two_files(Lsn(7));
    let mut client = new_client();
    assert_eq!(
        client.init_upload_queue_stopped_to_continue_deletion(&index_part),
        Err(QueueError::NotDeleted)
    );
    assert!(matches!(client.upload_queue(), UploadQueue::Uninitialized));
    let t = Timestamp { secs: 77, nanos: 1 };
    index_part.set_deleted_at(Some(t));
    client.init_upload_queue_stopped_to_continue_deletion(&index_part).unwrap();
    match client.upload_queue() {
        UploadQueue::Stopped(stopped) => {
            assert_eq!(stopped.deleted_at, SetDeletedFlagProgress::Successful(t));
            assert_file_list(stopped.upload_queue_for_deletion.latest_files(), &[LAYER_1, LAYER_2]);
            assert_eq!(stopped.upload_queue_for_deletion.last_uploaded_consistent_lsn(), Lsn(7));
        }
        other => panic!("queue is in state {}", other.as_str()),
    }
    assert_eq!(client.get_remote_physical_size(), 123);
    assert_eq!(client.last_uploaded_consistent_lsn(), Some(Lsn(7)));
    let plan = client.delete_all().unwrap();
    assert_eq!(plan.deletions_queued, 2);
    assert_eq!(
        client.init_upload_queue_stopped_to_continue_deletion(&index_part),
        Err(QueueError::AlreadyInitialized)
    );
}

#[test]
fn sweep_spares_the_index_file() {
    assert!(is_index_file_path("index_part.json"));
    assert!(is_index_file_path("/index_part.json"));
    assert!(is_index_file_path("tenants/a/timelines/b/index_part.json"));
    assert!(!is_index_file_path("tenants/a/timelines/b/index_part.json.bak"));
    assert!(!is_index_file_path("tenants/a/timelines/b/my_index_part.json"));
    assert!(!is_index_file_path("my_index_part.json"));
    assert!(!is_index_file_path("index_part.jso"));
    assert!(!is_index_file_path("ndex_part.json"));
    assert!(!is_index_file_path("index_part.json/"));
    assert!(!is_index_file_path("some layer"));
    assert!(!is_index_file_path(""));
    assert!(!is_index_file_path("t\u{e4}/x"));
    let listing = vec![
        String::from("p/a"),
        String::from("p/index_part.json"),
        String::from(""),
        String::from("p/b"),
        String::from(INDEX_PART_FILE_NAME),
    ];
    assert_eq!(files_to_sweep(&listing), vec![0, 2, 3]);
    assert_eq!(files_to_sweep(&vec![]), Vec::<usize>::new());
}

#[test]
fn size_of_a_file_that_was_moved() {
    assert!(has_expected_size(&LayerFileMetadata::new(16), 16));
    assert!(!has_expected_size(&LayerFileMetadata::new(16), 17));
    assert!(has_expected_size(&LayerFileMetadata::new(0), 0));
}

#[test]
fn downloads_are_counted_and_classified() {
    let mut client = new_client();
    client.download_started(RemoteOpFileKind::Index);
    assert_eq!(
        client.metrics().counters(RemoteOpFileKind::Index, RemoteOpKind::Download).calls_unfinished,
        1
    );
    assert_eq!(
        client.download_index_file(Err(DownloadError::NotFound)).unwrap_err(),
        DownloadError::NotFound
    );
    assert_eq!(
        client.metrics().counters(RemoteOpFileKind::Index, RemoteOpKind::Download).calls_unfinished,
        0
    );
    let mut deleted = index_with_two_files(Lsn(1));
    deleted.set_deleted_at(Some(Timestamp { secs: 3, nanos: 4 }));
    client.download_started(RemoteOpFileKind::Index);
    assert!(matches!(
        client.download_index_file(Ok(deleted)),
        Ok(MaybeDeletedIndexPart::Deleted(_))
    ));
    client.download_started(RemoteOpFileKind::Layer);
    assert_eq!(client.download_layer_file(Ok(4096)), Ok(4096));
    client.download_started(RemoteOpFileKind::Layer);
    assert_eq!(client.download_layer_file(Ok(4)), Ok(4));
    client.download_started(RemoteOpFileKind::Layer);
    assert_eq!(client.download_layer_file(Err(DownloadError::Other)), Err(DownloadError::Other));
    client.download_started(RemoteOpFileKind::Layer);
    assert_eq!(
        client.download_layer_file(Err(DownloadError::BadInput)),
        Err(DownloadError::BadInput)
    );
    assert_eq!(client.metrics().ondemand_downloaded_layers, 2);
    assert_eq!(client.metrics().ondemand_downloaded_bytes, 4100);
    assert_eq!(
        client.metrics().counters(RemoteOpFileKind::Layer, RemoteOpKind::Download).calls_unfinished,
        0
    );
}

#[test]
fn layer_files_behave_as_a_map() {
    let mut files = LayerFiles::new();
    assert_eq!(files.len(), 0);
    let a = LayerFileName::new("a");
    let b = LayerFileName::new("b");
    files.insert(a.clone(), LayerFileMetadata::new(1));
    files.insert(b.clone(), LayerFileMetadata::new(2));
    files.insert(a.clone(), LayerFileMetadata::new(3));
    assert_eq!(files.len(), 2);
    assert_eq!(files.get(&a), Some(LayerFileMetadata::new(3)));
    assert_eq!(files.get(&b).unwrap().file_size(), 2);
    assert_eq!(files.get(&LayerFileName::new("c")), None);
    assert!(files.contains(&a));
    assert_eq!(files.name_at(0).file_name(), "a");
    assert_eq!(files.metadata_at(1), LayerFileMetadata::new(2));
    assert_eq!(files.total_size(), 5);
    let copy = files.duplicate();
    files.remove(&a);
    files.remove(&LayerFileName::new("c"));
    assert_eq!(files.len(), 1);
    assert!(!files.contains(&a));
    assert_eq!(files.name_at(0).file_name(), "b");
    assert_eq!(copy.len(), 2);
    assert!(a.same_as(&a.duplicate()));
    assert!(!a.same_as(&b));
}

fn sample_index() -> IndexPart {
    let mut files = LayerFiles::new();
    files.insert(LayerFileName::new(LAYER_1), LayerFileMetadata::new(0x0102_0304));
    files.insert(LayerFileName::new("b\u{e4}r"), LayerFileMetadata::new(u64::MAX));
    files.insert(LayerFileName::new(""), LayerFileMetadata::new(0));
    IndexPart::new(files, Lsn(0x1122_3344_5566_7788), dummy_metadata(Lsn(9)).to_bytes())
}

#[test]
fn index_file_reads_back() {
    let index_part = sample_index();
    let back = IndexPart::from_bytes(&index_part.to_bytes()).unwrap();
    assert_eq!(back, index_part);
    assert_eq!(back.deleted_at(), None);
    assert_eq!(back.layer_metadata().len(), 3);
    assert_eq!(back.layer_metadata().name_at(1).file_name(), "b\u{e4}r");
    assert_eq!(back.parse_metadata().unwrap(), dummy_metadata(Lsn(9)));
    let mut deleted = sample_index();
    for at in [
        Timestamp { secs: 1_700_000_000, nanos: 999_999_999 },
        Timestamp { secs: -1, nanos: 0 },
        Timestamp { secs: i64::MIN, nanos: u32::MAX },
        Timestamp { secs: i64::MAX, nanos: 1 },
    ] {
        deleted.set_deleted_at(Some(at));
        let back = IndexPart::from_bytes(&deleted.to_bytes()).unwrap();
        assert_eq!(back, deleted);
        assert_eq!(back.deleted_at(), Some(at));
    }
    let empty = IndexPart::new(LayerFiles::new(), Lsn(0), vec![]);
    assert_eq!(IndexPart::from_bytes(&empty.to_bytes()), Ok(empty));
}

#[test]
fn index_file_in_bytes() {
    let mut files = LayerFiles::new();
    files.insert(LayerFileName::new("ab"), LayerFileMetadata::new(0x0a0b));
    let mut index_part = IndexPart::new(files, Lsn(0x0102), vec![0xee, 0xff]);
    index_part.set_deleted_at(Some(Timestamp { secs: -2, nanos: 0x0304 }));
    assert_eq!(INDEX_FORMAT_VERSION, 1);
    let expected: Vec<u8> = vec![
        0, 0, 0, 1, // version
        0, 0, 0, 0, 0, 0, 1, 2, // position
        1, 0xff, 0xff, 0xff, 0xff, 0xff, 0xff, 0xff, 0xfe, 0, 0, 3, 4, // mark of deletion
        0, 0, 0, 0, 0, 0, 0, 2, 0xee, 0xff, // metadata
        0, 0, 0, 0, 0, 0, 0, 1, // number of files
        0, 0, 0, 0, 0, 0, 0, 2, b'a', b'b', 0, 0, 0, 0, 0, 0, 0x0a, 0x0b, // the file
    ];
    assert_eq!(index_part.to_bytes(), expected);
    assert_eq!(IndexPart::from_bytes(&expected), Ok(index_part));
}

#[test]
fn damaged_index_file_is_refused() {
    let good = sample_index().to_bytes();
    assert_eq!(IndexPart::from_bytes(&[]), Err(IndexPartError::Truncated));
    assert_eq!(IndexPart::from_bytes(&good[..32]), Err(IndexPartError::Truncated));
    assert_eq!(IndexPart::from_bytes(&good[..40]), Err(IndexPartError::Truncated));
    assert_eq!(IndexPart::from_bytes(&good[..good.len() - 1]), Err(IndexPartError::Truncated));
    let meta_end = 33 + 512;
    assert_eq!(IndexPart::from_bytes(&good[..meta_end + 8 + 3]), Err(IndexPartError::Truncated));
    let mut longer = good.clone();
    longer.push(0);
    assert_eq!(IndexPart::from_bytes(&longer), Err(IndexPartError::TrailingBytes));
    let mut other = good.clone();
    other[3] = 2;
    assert_eq!(IndexPart::from_bytes(&other), Err(IndexPartError::UnknownVersion));
    let mut other = good.clone();
    other[12] = 2;
    assert_eq!(IndexPart::from_bytes(&other), Err(IndexPartError::BadOptionTag));
    // A length that points behind the end.
    let mut other = good.clone();
    other[25] = 0xff;
    assert_eq!(IndexPart::from_bytes(&other), Err(IndexPartError::Truncated));
    // A name that is not a string: the first byte of the first name.
    let mut other = good.clone();
    other[meta_end + 8 + 8] = 0xff;
    assert_eq!(IndexPart::from_bytes(&other), Err(IndexPartError::InvalidName));
    // The same file twice.
    let mut files = LayerFiles::new();
    files.insert(LayerFileName::new("x"), LayerFileMetadata::new(1));
    files.insert(LayerFileName::new("y"), LayerFileMetadata::new(1));
    let mut twice = IndexPart::new(files, Lsn(0), vec![]).to_bytes();
    let last = twice.len() - 9;
    assert_eq!(twice[last], b'y');
    twice[last] = b'x';
    assert_eq!(IndexPart::from_bytes(&twice), Err(IndexPartError::DuplicateName));
    // Fewer files than announced.
    let mut other = IndexPart::new(LayerFiles::new(), Lsn(0), vec![]).to_bytes();
    let n = other.len();
    other[n - 1] = 1;
    assert_eq!(IndexPart::from_bytes(&other), Err(IndexPartError::Truncated));
}

#[test]
fn keys_on_the_remote() {
    let tenant = TenantId(0x0123_4567_89ab_cdef_0011_2233_4455_6677);
    let timeline = TimelineId(0xf);
    assert_eq!(tenant.hex(), "0123456789abcdef0011223344556677");
    assert_eq!(timeline.hex(), "0000000000000000000000000000000f");
    assert_eq!(TenantId(0).hex(), "00000000000000000000000000000000");
    assert_eq!(TimelineId(u128::MAX).hex(), "ffffffffffffffffffffffffffffffff");
    let client = RemoteTimelineClient::new(tenant, timeline);
    assert_eq!(
        client.remote_timeline_path(),
        "tenants/0123456789abcdef0011223344556677/timelines/0000000000000000000000000000000f"
    );
    assert_eq!(
        client.remote_path("some layer"),
        "tenants/0123456789abcdef0011223344556677/timelines/0000000000000000000000000000000f/some layer"
    );
    assert_eq!(
        client.remote_index_path(),
        "tenants/0123456789abcdef0011223344556677/timelines/0000000000000000000000000000000f/index_part.json"
    );
    assert_eq!(
        pageserver::id::tenant_path(TenantId(0xabc)),
        "tenants/00000000000000000000000000000abc"
    );
    assert_eq!(
        pageserver::id::remote_path(TenantId(1), TimelineId(2), ""),
        "tenants/00000000000000000000000000000001/timelines/00000000000000000000000000000002/"
    );
}

#[test]
fn remote_is_as_scheduled_whatever_the_order_in_which_tasks_end() {
    // The same operations, with the tasks ending oldest first and youngest
    // first: the remote ends up the same.
    let mut remotes: Vec<Remote> = Vec::new();
    for youngest_first in [false, true] {
        let mut client = new_client();
        let mut remote = Remote::new();
        client.init_upload_queue_for_empty_remote(&dummy_metadata(Lsn(1))).unwrap();
        let mut in_flight: Vec<UploadTask> = Vec::new();
        let names: Vec<LayerFileName> =
            (0..6).map(|i| LayerFileName::new(&format!("layer-{i}"))).collect();
        for name in &names[..4] {
            in_flight.extend(
                client.schedule_layer_file_upload(name, &LayerFileMetadata::new(10)).unwrap().tasks,
            );
        }
        in_flight.extend(client.schedule_index_upload_for_file_changes().unwrap().tasks);
        in_flight.extend(client.schedule_layer_file_deletion(&names[1..3]).unwrap().tasks);
        for name in &names[4..] {
            in_flight.extend(
                client.schedule_layer_file_upload(name, &LayerFileMetadata::new(10)).unwrap().tasks,
            );
        }
        in_flight.extend(
            client
                .schedule_index_upload_for_metadata_update(&dummy_metadata(Lsn(2)))
                .unwrap()
                .tasks,
        );
        let (barrier, launched) = client.wait_completion().unwrap();
        in_flight.extend(launched.tasks);
        let mut fired = launched.barriers;
        while !in_flight.is_empty() {
            let task =
                if youngest_first { in_flight.pop().unwrap() } else { in_flight.remove(0) };
            match client.begin_upload_attempt(&task, false) {
                UploadAttempt::Perform(request) => remote.perform(request),
                other => panic!("unexpected {:?}", other),
            }
            // At no time does the index list a file that is not there.
            if let Ok(index_part) = remote.download_index() {
                let listed = index_part.layer_metadata();
                for i in 0..listed.len() {
                    assert!(remote.files.contains_key(&listed.name_at(i).file_name()));
                }
            }
            let launched = client.upload_task_completed(&task);
            in_flight.extend(launched.tasks);
            fired.extend(launched.barriers);
        }
        assert_eq!(fired, vec![barrier]);
        let q = initialized(&client);
        assert!(q.no_pending_work());
        assert_eq!(q.latest_files_changes_since_metadata_upload_scheduled(), 0);
        // The index lists exactly the files that the queue wants, and they
        // are all there.
        let wanted = ["layer-0", "layer-3", "layer-4", "layer-5"];
        assert_file_list(q.latest_files(), &wanted);
        assert_file_list(remote.download_index().unwrap().layer_metadata(), &wanted);
        let mut expected = wanted.to_vec();
        expected.push("index_part.json");
        assert_remote_files(&expected, &remote);
        assert_eq!(client.last_uploaded_consistent_lsn(), Some(Lsn(2)));
        remotes.push(remote);
    }
    assert_eq!(remotes[0].listing(), remotes[1].listing());
    assert_eq!(remotes[0].index, remotes[1].index);
}
