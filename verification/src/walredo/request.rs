//! One redo request: the runs of its records and who replays them.
//!
//! The records of a request are split into maximal runs of one flavor. The
//! runs are applied in order, and the page that one run leaves is the base
//! image of the next. Native runs are replayed here. For a run in the
//! worker's format the request stops and says so; the caller lets the worker
//! replay the run and resumes the request with the page that came back.

use vstd::prelude::*;
use crate::lsn::Lsn;
use crate::pg_constants::BLCKSZ;
use crate::reltag::{key_to_rel_block, spec_key_to_rel_block, Key};
use crate::walrecord::NeonWalRecord;
use crate::walredo::neon::spec_apply_record;
use crate::walredo::protocol::{build_redo_request, page_view, spec_redo_request};
use crate::walredo::{can_apply_in_neon, BufferTag, PostgresRedoManager, WalRedoError};

verus! {

/// How often a run is handed to the worker again after a failure.
pub const MAX_RETRY_ATTEMPTS: u32 = 1;

/// What native replay of `records`, one after the other, makes of `page`.
pub open spec fn apply_records(key: Key, page: Seq<u8>, records: Seq<(Lsn, NeonWalRecord)>) -> Result<
    Seq<u8>,
    WalRedoError,
>
    decreases records.len(),
{
    if records.len() == 0 {
        Ok(page)
    } else {
        match spec_apply_record(key, page, &records[0].1) {
            Err(e) => Err(e),
            Ok(p) => apply_records(key, p, records.drop_first()),
        }
    }
}

/// What native replay of a run makes of the base image: without a base
/// image, or with one shorter than a page, the request is invalid.
pub open spec fn spec_apply_batch_neon(
    key: Key,
    base_img: Option<Seq<u8>>,
    records: Seq<(Lsn, NeonWalRecord)>,
) -> Result<Seq<u8>, WalRedoError> {
    match base_img {
        None => Err(WalRedoError::InvalidRequest),
        Some(page) => if page.len() < BLCKSZ {
            Err(WalRedoError::InvalidRequest)
        } else {
            apply_records(key, page, records)
        },
    }
}

/// Whether `records[start..end]` is a maximal run of one flavor: not empty,
/// all of the flavor of its first record, and followed by a record of the
/// other flavor or by nothing.
pub open spec fn is_run(records: Seq<(Lsn, NeonWalRecord)>, start: int, end: int) -> bool {
    &&& 0 <= start < end <= records.len()
    &&& forall|k: int|
        start <= k < end ==> (#[trigger] records[k]).1.is_native() == records[start].1.is_native()
    &&& end < records.len() ==> records[end].1.is_native() != records[start].1.is_native()
}

/// Where the run that begins at `start` ends.
pub open spec fn run_end(records: Seq<(Lsn, NeonWalRecord)>, start: int) -> int
    decreases records.len() - start,
{
    if start + 1 >= records.len() {
        records.len() as int
    } else if records[start + 1].1.is_native() != records[start].1.is_native() {
        start + 1
    } else {
        run_end(records, start + 1)
    }
}

/// The run that begins at `start` is the only maximal run from there.
pub proof fn lemma_run_end(records: Seq<(Lsn, NeonWalRecord)>, start: int)
    requires
        0 <= start < records.len(),
    ensures
        is_run(records, start, run_end(records, start)),
        forall|end: int| is_run(records, start, end) ==> end == run_end(records, start),
    decreases records.len() - start,
{
    if start + 1 < records.len() && records[start + 1].1.is_native()
        == records[start].1.is_native() {
        lemma_run_end(records, start + 1);
        let e = run_end(records, start + 1);
        assert forall|end: int| is_run(records, start, end) implies end == e by {
            // The run does not end behind its first record, which is followed
            // by a record of the same flavor.
            assert(end != start + 1);
            assert(is_run(records, start + 1, end)) by {
                assert forall|k: int| start + 1 <= k < end implies (#[trigger] records[k]).1.is_native()
                    == records[start + 1].1.is_native() by {
                    assert(records[k].1.is_native() == records[start].1.is_native());
                }
            }
        }
    } else {
        assert forall|end: int| is_run(records, start, end) implies end == run_end(
            records,
            start,
        ) by {
            if start + 1 < records.len() && end > start + 1 {
                assert(records[start + 1].1.is_native() == records[start].1.is_native());
            }
        }
    }
}

/// Where a request stands, as callers see it.
pub enum RedoStepView {
    /// The worker has to replay `records[start..end]` for the page that
    /// `tag` names.
    Postgres { tag: BufferTag, start: int, end: int },
    /// The request is over, with this page or this error.
    Done(Result<Seq<u8>, WalRedoError>),
}

/// Where a request stops for the worker: at the run that begins at `start`,
/// with the relation and block that the key stands for. A key that stands
/// for no relation block makes the record invalid.
pub open spec fn worker_step(key: Key, records: Seq<(Lsn, NeonWalRecord)>, start: int) -> RedoStepView {
    match spec_key_to_rel_block(key) {
        None => RedoStepView::Done(Err(WalRedoError::InvalidRecord)),
        Some((rel, blknum)) => RedoStepView::Postgres {
            tag: BufferTag { rel, blknum },
            start,
            end: run_end(records, start),
        },
    }
}

/// Where a request gets to when the runs from `start` on are replayed over
/// `img` for as long as no worker is needed.
///
/// With no run left the image is the result. A native run is replayed; an
/// error ends the request, and so does the page if the run was the last.
/// The run behind a native run is one for the worker, and a run for the
/// worker stops the request.
pub open spec fn redo_from(
    key: Key,
    img: Option<Seq<u8>>,
    records: Seq<(Lsn, NeonWalRecord)>,
    start: int,
) -> RedoStepView {
    if start < 0 || start >= records.len() {
        RedoStepView::Done(
            match img {
                Some(page) => Ok(page),
                None => Err(WalRedoError::InvalidRequest),
            },
        )
    } else if records[start].1.is_native() {
        let end = run_end(records, start);
        match spec_apply_batch_neon(key, img, records.subrange(start, end)) {
            Err(e) => RedoStepView::Done(Err(e)),
            Ok(page) => if end >= records.len() {
                RedoStepView::Done(Ok(page))
            } else {
                worker_step(key, records, end)
            },
        }
    } else {
        worker_step(key, records, start)
    }
}

/// The image that a request holds when it has stopped for the worker after
/// the runs from `start` on were replayed over `img`: what a native run in
/// front has made of `img`, or `img` itself if a run for the worker is in
/// front. It is the base image of the run that the worker replays.
pub open spec fn image_for_worker(
    key: Key,
    img: Option<Seq<u8>>,
    records: Seq<(Lsn, NeonWalRecord)>,
    start: int,
) -> Option<Seq<u8>> {
    if 0 <= start < records.len() && records[start].1.is_native() {
        match spec_apply_batch_neon(
            key,
            img,
            records.subrange(start, run_end(records, start)),
        ) {
            Ok(page) => Some(page),
            Err(_) => None,
        }
    } else {
        img
    }
}

/// Where a new request gets to before the first worker run: a request
/// without records is invalid.
pub open spec fn spec_request_redo(
    key: Key,
    base_img: Option<Seq<u8>>,
    records: Seq<(Lsn, NeonWalRecord)>,
) -> RedoStepView {
    if records.len() == 0 {
        RedoStepView::Done(Err(WalRedoError::InvalidRequest))
    } else {
        redo_from(key, base_img, records, 0)
    }
}

/// Where a request gets to when the worker has answered the run that ends
/// at `end`: an error ends the request, a page is the base image of what
/// follows.
pub open spec fn spec_resume(
    key: Key,
    records: Seq<(Lsn, NeonWalRecord)>,
    end: int,
    worker_result: Result<Seq<u8>, WalRedoError>,
) -> RedoStepView {
    match worker_result {
        Err(e) => RedoStepView::Done(Err(e)),
        Ok(page) => redo_from(key, Some(page), records, end),
    }
}

/// What a whole request comes to when `worker` is what the worker answers:
/// the runs are replayed in order, native runs here and the others by the
/// worker, and the page that one run leaves is the base image of the next.
/// The first error ends the request. A run for the worker needs a key that
/// stands for a relation block.
pub open spec fn redo_result(
    key: Key,
    img: Option<Seq<u8>>,
    records: Seq<(Lsn, NeonWalRecord)>,
    start: int,
    worker: spec_fn(BufferTag, Option<Seq<u8>>, Seq<(Lsn, NeonWalRecord)>) -> Result<
        Seq<u8>,
        WalRedoError,
    >,
) -> Result<Seq<u8>, WalRedoError>
    decreases records.len() - start,
{
    let end = run_end(records, start);
    if start < 0 || start >= records.len() {
        match img {
            Some(page) => Ok(page),
            None => Err(WalRedoError::InvalidRequest),
        }
    } else if !(start < end <= records.len()) {
        Err(WalRedoError::InvalidState)
    } else {
        let run = records.subrange(start, end);
        let page = if records[start].1.is_native() {
            spec_apply_batch_neon(key, img, run)
        } else {
            match spec_key_to_rel_block(key) {
                None => Err(WalRedoError::InvalidRecord),
                Some((rel, blknum)) => worker(BufferTag { rel, blknum }, img, run),
            }
        };
        match page {
            Err(e) => Err(e),
            Ok(p) => if end >= records.len() {
                Ok(p)
            } else {
                redo_result(key, Some(p), records, end, worker)
            },
        }
    }
}

/// Going step by step comes to the same as replaying the runs in order.
///
/// Where a request that goes on from `start` is over, its result is the
/// result of the whole request. Where it stops for the worker, the result
/// of the whole request is what comes of the worker's answer to the run
/// over the image that the request holds: an error ends the request, and so
/// does the page if the run was the last; else the request goes on from the
/// end of the run with that page.
pub proof fn lemma_steps_replay_runs_in_order(
    key: Key,
    img: Option<Seq<u8>>,
    records: Seq<(Lsn, NeonWalRecord)>,
    start: int,
    worker: spec_fn(BufferTag, Option<Seq<u8>>, Seq<(Lsn, NeonWalRecord)>) -> Result<
        Seq<u8>,
        WalRedoError,
    >,
)
    requires
        0 <= start <= records.len(),
    ensures
        match redo_from(key, img, records, start) {
            RedoStepView::Done(result) => redo_result(key, img, records, start, worker) == result,
            RedoStepView::Postgres { tag, start: s, end: e } => redo_result(
                key,
                img,
                records,
                start,
                worker,
            ) == (match worker(
                tag,
                image_for_worker(key, img, records, start),
                records.subrange(s, e),
            ) {
                Err(err) => Err(err),
                Ok(page) => if e >= records.len() {
                    Ok(page)
                } else {
                    redo_result(key, Some(page), records, e, worker)
                },
            }),
        },
{
    if start < records.len() {
        lemma_run_end(records, start);
        let end = run_end(records, start);
        if records[start].1.is_native() && end < records.len() {
            lemma_run_end(records, end);
            match spec_apply_batch_neon(key, img, records.subrange(start, end)) {
                Ok(page) => {
                    assert(!records[end].1.is_native());
                    assert(redo_result(key, img, records, start, worker) == redo_result(
                        key,
                        Some(page),
                        records,
                        end,
                        worker,
                    ));
                },
                Err(_) => {},
            }
        }
    }
}

/// Where a request stands.
#[derive(Debug)]
pub enum RedoStep {
    /// The worker has to replay `records[start..end]` of the request over
    /// its current image, for the page that `tag` names.
    Postgres { tag: BufferTag, start: usize, end: usize },
    /// The request is over, with this page or this error.
    Done(Result<Vec<u8>, WalRedoError>),
}

/// What to do after one attempt to have the worker replay a run.
#[derive(Clone, Copy, Debug, PartialEq, Eq, Structural)]
pub enum AfterAttempt {
    /// The attempt succeeded: its page is the result.
    Return,
    /// The attempt failed for the last time: kill the worker and give its
    /// error back.
    KillAndReturn,
    /// The attempt failed: kill the worker and try once more with a new one.
    KillAndRetry,
}

/// What to do after an attempt that was preceded by `attempts_before`
/// others: see [`after_attempt`].
pub open spec fn spec_after_attempt(attempts_before: u32, succeeded: bool) -> AfterAttempt {
    if succeeded {
        AfterAttempt::Return
    } else if attempts_before >= MAX_RETRY_ATTEMPTS {
        AfterAttempt::KillAndReturn
    } else {
        AfterAttempt::KillAndRetry
    }
}

/// What to do after one attempt to have the worker replay a run. A worker
/// that failed is never used again: it is killed, and the next attempt
/// launches a new one. After [`MAX_RETRY_ATTEMPTS`] failed retries the error
/// is given back.
#[verifier::when_used_as_spec(spec_after_attempt)]
pub fn after_attempt(attempts_before: u32, succeeded: bool) -> (r: AfterAttempt)
    ensures
        r == spec_after_attempt(attempts_before, succeeded),
{
    if succeeded {
        AfterAttempt::Return
    } else if attempts_before >= MAX_RETRY_ATTEMPTS {
        AfterAttempt::KillAndReturn
    } else {
        AfterAttempt::KillAndRetry
    }
}

/// A run of records that the worker has to replay.
#[derive(Clone, Copy, Debug, PartialEq, Eq, Structural)]
pub struct WorkerRun {
    /// The page, as the worker names it.
    pub tag: BufferTag,
    /// Index of the first record of the run.
    pub start: usize,
    /// Index behind the last record of the run.
    pub end: usize,
}

/// A redo request that is under way.
#[derive(Debug)]
pub struct RedoRequest {
    key: Key,
    lsn: Lsn,
    base_img_lsn: Lsn,
    pg_version: u32,
    img: Option<Vec<u8>>,
    records: Vec<(Lsn, NeonWalRecord)>,
    waits_for: Option<WorkerRun>,
}

impl RedoRequest {
    /// The run that waits for the worker lies within the records and is a
    /// run for the worker.
    pub closed spec fn wf(&self) -> bool {
        self.waits_for matches Some(run) ==> {
            &&& is_run(self.records@, run.start as int, run.end as int)
            &&& !self.records@[run.start as int].1.is_native()
            &&& spec_key_to_rel_block(self.key) == Some((run.tag.rel, run.tag.blknum))
        }
    }

    /// The key of the page that is rebuilt.
    pub closed spec fn spec_key(&self) -> Key {
        self.key
    }

    /// The position as of which the page is rebuilt.
    pub closed spec fn spec_lsn(&self) -> Lsn {
        self.lsn
    }

    /// The position of the base image that the request came with, or the
    /// invalid position if it came with none.
    pub closed spec fn spec_base_img_lsn(&self) -> Lsn {
        self.base_img_lsn
    }

    /// The version of the worker that the request is for.
    pub closed spec fn spec_pg_version(&self) -> u32 {
        self.pg_version
    }

    /// The records of the request.
    pub closed spec fn spec_records(&self) -> Seq<(Lsn, NeonWalRecord)> {
        self.records@
    }

    /// The page that the runs so far have left, if any.
    pub closed spec fn spec_img(&self) -> Option<Seq<u8>> {
        page_view(&self.img)
    }

    /// The run that waits for the worker, if one does.
    pub fn waits_for(&self) -> (r: Option<WorkerRun>)
        ensures
            r == self.spec_waits_for(),
    {
        self.waits_for
    }

    /// The run that waits for the worker, if one does.
    pub closed spec fn spec_waits_for(&self) -> Option<WorkerRun> {
        self.waits_for
    }

    /// Whether `step` is where this request stands: a run that waits for
    /// the worker is the one the step names, and a request that is over
    /// waits for nothing.
    pub open spec fn stands_at(&self, step: RedoStepView) -> bool {
        match step {
            RedoStepView::Postgres { tag, start, end } => {
                &&& self.spec_waits_for() matches Some(run)
                &&& run.tag == tag
                &&& run.start == start
                &&& run.end == end
            },
            RedoStepView::Done(_) => self.spec_waits_for() is None,
        }
    }

    /// The key of the page that is rebuilt.
    pub fn key(&self) -> (r: Key)
        ensures
            r == self.spec_key(),
    {
        self.key
    }

    /// The position as of which the page is rebuilt.
    pub fn lsn(&self) -> (r: Lsn)
        ensures
            r == self.spec_lsn(),
    {
        self.lsn
    }

    /// The position of the base image that the request came with.
    pub fn base_img_lsn(&self) -> (r: Lsn)
        ensures
            r == self.spec_base_img_lsn(),
    {
        self.base_img_lsn
    }

    /// The version of the worker that the request is for.
    pub fn pg_version(&self) -> (r: u32)
        ensures
            r == self.spec_pg_version(),
    {
        self.pg_version
    }

    /// The records of the request.
    pub fn records(&self) -> (r: &Vec<(Lsn, NeonWalRecord)>)
        ensures
            r@ == self.spec_records(),
    {
        &self.records
    }

    /// The page that the runs so far have left, if any.
    pub fn img(&self) -> (r: &Option<Vec<u8>>)
        ensures
            page_view(r) == self.spec_img(),
    {
        &self.img
    }

    /// The bytes to write to the worker for the run that waits for it: see
    /// [`spec_redo_request`].
    pub fn worker_request(&self) -> (r: Result<Vec<u8>, WalRedoError>)
        requires
            self.wf(),
            self.spec_waits_for() is Some,
        ensures
            match spec_redo_request(
                self.spec_waits_for()->0.tag,
                self.spec_img(),
                self.spec_records().subrange(
                    self.spec_waits_for()->0.start as int,
                    self.spec_waits_for()->0.end as int,
                ),
            ) {
                Ok(bytes) => r is Ok && r->Ok_0@ == bytes,
                Err(e) => r == Err::<Vec<u8>, WalRedoError>(e),
            },
    {
        let run = self.waits_for.unwrap();
        let batch = vstd::slice::slice_subrange(self.records.as_slice(), run.start, run.end);
        build_redo_request(run.tag, &self.img, batch)
    }

    /// Stops for the worker at the run that begins at `start`.
    fn stop_for_worker(&mut self, start: usize) -> (r: RedoStep)
        requires
            start < old(self).records@.len(),
            !old(self).records@[start as int].1.is_native(),
            old(self).waits_for is None,
        ensures
            final(self).wf(),
            step_view(&r) == worker_step(old(self).key, old(self).records@, start as int),
            final(self).stands_at(worker_step(old(self).key, old(self).records@, start as int)),
            final(self).img == old(self).img,
            final(self).key == old(self).key,
            final(self).lsn == old(self).lsn,
            final(self).base_img_lsn == old(self).base_img_lsn,
            final(self).pg_version == old(self).pg_version,
            final(self).records@ == old(self).records@,
    {
        match key_to_rel_block(self.key) {
            None => RedoStep::Done(Err(WalRedoError::InvalidRecord)),
            Some((rel, blknum)) => {
                let end = find_run_end(&self.records, start);
                let tag = BufferTag { rel, blknum };
                self.waits_for = Some(WorkerRun { tag, start, end });
                RedoStep::Postgres { tag, start, end }
            },
        }
    }

    /// Goes on from record `start` with the image of the request.
    fn advance(&mut self, start: usize) -> (r: RedoStep)
        requires
            start <= old(self).records@.len(),
        ensures
            final(self).wf(),
            step_view(&r) == redo_from(
                old(self).key,
                page_view(&old(self).img),
                old(self).records@,
                start as int,
            ),
            final(self).stands_at(step_view(&r)),
            r is Postgres ==> page_view(&final(self).img) == image_for_worker(
                old(self).key,
                page_view(&old(self).img),
                old(self).records@,
                start as int,
            ),
            final(self).key == old(self).key,
            final(self).lsn == old(self).lsn,
            final(self).base_img_lsn == old(self).base_img_lsn,
            final(self).pg_version == old(self).pg_version,
            final(self).records@ == old(self).records@,
    {
        self.waits_for = None;
        if start >= self.records.len() {
            let img = self.img.take();
            return RedoStep::Done(
                match img {
                    Some(page) => Ok(page),
                    None => Err(WalRedoError::InvalidRequest),
                },
            );
        }
        if !can_apply_in_neon(&self.records[start].1) {
            return self.stop_for_worker(start);
        }
        let end = find_run_end(&self.records, start);
        let img = self.img.take();
        let batch = vstd::slice::slice_subrange(self.records.as_slice(), start, end);
        match apply_batch_neon(self.key, self.lsn, img, batch) {
            Err(e) => RedoStep::Done(Err(e)),
            Ok(page) => {
                if end >= self.records.len() {
                    RedoStep::Done(Ok(page))
                } else {
                    self.img = Some(page);
                    self.stop_for_worker(end)
                }
            },
        }
    }

    /// Goes on after the worker has answered the run that waited for it:
    /// see [`spec_resume`]. Where the request stops for the worker again,
    /// its image is the base image of the run that now waits: see
    /// [`image_for_worker`].
    pub fn resume(&mut self, worker_result: Result<Vec<u8>, WalRedoError>) -> (r: RedoStep)
        requires
            old(self).wf(),
            old(self).spec_waits_for() is Some,
        ensures
            final(self).wf(),
            step_view(&r) == spec_resume(
                old(self).spec_key(),
                old(self).spec_records(),
                old(self).spec_waits_for()->0.end as int,
                match worker_result {
                    Ok(page) => Ok(page@),
                    Err(e) => Err(e),
                },
            ),
            final(self).stands_at(step_view(&r)),
            r is Postgres ==> worker_result is Ok && final(self).spec_img() == image_for_worker(
                old(self).spec_key(),
                Some(worker_result->Ok_0@),
                old(self).spec_records(),
                old(self).spec_waits_for()->0.end as int,
            ),
            final(self).spec_key() == old(self).spec_key(),
            final(self).spec_lsn() == old(self).spec_lsn(),
            final(self).spec_base_img_lsn() == old(self).spec_base_img_lsn(),
            final(self).spec_pg_version() == old(self).spec_pg_version(),
            final(self).spec_records() == old(self).spec_records(),
    {
        let end = self.waits_for.unwrap().end;
        match worker_result {
            Err(e) => {
                self.waits_for = None;
                RedoStep::Done(Err(e))
            },
            Ok(page) => {
                self.img = Some(page);
                self.advance(end)
            },
        }
    }
}

/// The page of an optional base image, without its position.
pub open spec fn base_page(base_img: &Option<(Lsn, Vec<u8>)>) -> Option<Seq<u8>> {
    match base_img {
        Some(p) => Some(p.1@),
        None => None,
    }
}

/// The position of an optional base image, or the invalid position.
pub open spec fn base_lsn(base_img: &Option<(Lsn, Vec<u8>)>) -> Lsn {
    match base_img {
        Some(p) => p.0,
        None => Lsn(0),
    }
}

impl PostgresRedoManager {
    /// Begins a redo request: the page of `key` as of `lsn` is to be
    /// rebuilt from `base_img`, if there is one, and `records`.
    ///
    /// The request is carried as far as it goes without the worker: see
    /// [`spec_request_redo`]. Where the step says so, the caller has the
    /// worker replay the run over the image of the request, see
    /// [`image_for_worker`], and calls [`RedoRequest::resume`].
    pub fn request_redo(
        &self,
        key: Key,
        lsn: Lsn,
        base_img: Option<(Lsn, Vec<u8>)>,
        records: Vec<(Lsn, NeonWalRecord)>,
        pg_version: u32,
    ) -> (r: (RedoRequest, RedoStep))
        ensures
            r.0.wf(),
            step_view(&r.1) == spec_request_redo(key, base_page(&base_img), records@),
            r.1 is Postgres ==> r.0.spec_img() == image_for_worker(
                key,
                base_page(&base_img),
                records@,
                0,
            ),
            r.0.stands_at(step_view(&r.1)),
            r.0.spec_key() == key,
            r.0.spec_lsn() == lsn,
            r.0.spec_base_img_lsn() == base_lsn(&base_img),
            r.0.spec_pg_version() == pg_version,
            r.0.spec_records() == records@,
    {
        let (base_img_lsn, img) = match base_img {
            Some((l, page)) => (l, Some(page)),
            None => (Lsn(0), None),
        };
        let mut request = RedoRequest {
            key,
            lsn,
            base_img_lsn,
            pg_version,
            img,
            records,
            waits_for: None,
        };
        if request.records.len() == 0 {
            return (request, RedoStep::Done(Err(WalRedoError::InvalidRequest)));
        }
        let step = request.advance(0);
        (request, step)
    }
}

/// Where a request stands, with pages as sequences of bytes.
pub open spec fn step_view(step: &RedoStep) -> RedoStepView {
    match step {
        RedoStep::Postgres { tag, start, end } => RedoStepView::Postgres {
            tag: *tag,
            start: *start as int,
            end: *end as int,
        },
        RedoStep::Done(Ok(page)) => RedoStepView::Done(Ok(page@)),
        RedoStep::Done(Err(e)) => RedoStepView::Done(Err(*e)),
    }
}

/// Finds the end of the run that begins at `start`.
pub fn find_run_end(records: &Vec<(Lsn, NeonWalRecord)>, start: usize) -> (end: usize)
    requires
        start < records@.len(),
    ensures
        end == run_end(records@, start as int),
        is_run(records@, start as int, end as int),
{
    let batch_neon = can_apply_in_neon(&records[start].1);
    let len: usize = records.len();
    let mut i: usize = start + 1;
    proof {
        lemma_run_end(records@, start as int);
    }
    while i < records.len() && can_apply_in_neon(&records[i].1) == batch_neon
        invariant
            start < i <= records@.len(),
            batch_neon == records@[start as int].1.is_native(),
            forall|k: int|
                start <= k < i ==> (#[trigger] records@[k]).1.is_native() == batch_neon,
        decreases records@.len() - i,
    {
        i += 1;
    }
    assert(is_run(records@, start as int, i as int));
    i
}

/// What one more record adds to native replay.
proof fn lemma_apply_records_step(
    key: Key,
    page: Seq<u8>,
    records: Seq<(Lsn, NeonWalRecord)>,
    i: int,
)
    requires
        0 <= i < records.len(),
    ensures
        apply_records(key, page, records.skip(i)) == (match spec_apply_record(
            key,
            page,
            &records[i].1,
        ) {
            Err(e) => Err(e),
            Ok(p) => apply_records(key, p, records.skip(i + 1)),
        }),
{
    assert(records.skip(i)[0] == records[i]);
    assert(records.skip(i).drop_first() =~= records.skip(i + 1));
}

/// Replays a run of natively handled records over the base image: see
/// [`spec_apply_batch_neon`].
pub fn apply_batch_neon(
    key: Key,
    _lsn: Lsn,
    base_img: Option<Vec<u8>>,
    records: &[(Lsn, NeonWalRecord)],
) -> (r: Result<Vec<u8>, WalRedoError>)
    ensures
        match spec_apply_batch_neon(key, page_view(&base_img), records@) {
            Ok(page) => r is Ok && r->Ok_0@ == page,
            Err(e) => r == Err::<Vec<u8>, WalRedoError>(e),
        },
{
    let mut page = match base_img {
        Some(fpi) => fpi,
        None => {
            // All the records that are replayed here need a base image.
            return Err(WalRedoError::InvalidRequest);
        },
    };
    if page.len() < BLCKSZ {
        return Err(WalRedoError::InvalidRequest);
    }
    let ghost first = page@;
    let mut i: usize = 0;
    assert(records@.skip(0) =~= records@);
    while i < records.len()
        invariant
            i <= records@.len(),
            page@.len() >= BLCKSZ,
            page_view(&base_img) == Some(first),
            first.len() >= BLCKSZ,
            apply_records(key, first, records@) == apply_records(key, page@, records@.skip(i as int)),
        decreases records@.len() - i,
    {
        proof {
            lemma_apply_records_step(key, page@, records@, i as int);
        }
        match PostgresRedoManager::apply_record_neon(key, &mut page, records[i].0, &records[i].1) {
            Ok(()) => {},
            Err(e) => {
                return Err(e);
            },
        }
        i += 1;
    }
    Ok(page)
}

} // verus!
