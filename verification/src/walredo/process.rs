//! The two halves of the conversation with the worker process.
//!
//! Requests are written under one lock and numbered there; responses are
//! read under another. The worker answers in the order in which it was
//! asked, so the response to request number `n` is the `n`-th page that
//! comes out of the pipe. Whoever holds the output half reads pages until
//! the one it waits for has arrived, takes that one, and leaves the others
//! for their owners.

use vstd::prelude::*;
use std::collections::VecDeque;
use crate::pg_constants::BLCKSZ;
use crate::walredo::RedoIoError;

verus! {

/// What a pipe reported after a poll.
#[derive(Clone, Copy, Debug, PartialEq, Eq, Structural)]
pub struct PollEvents {
    /// Data can be read.
    pub readable: bool,
    /// Data can be written.
    pub writable: bool,
    /// The pipe is in error.
    pub error: bool,
    /// The other end was closed.
    pub hangup: bool,
}

/// How a call of `poll` ended.
#[derive(Clone, Copy, Debug, PartialEq, Eq, Structural)]
pub enum PollResult {
    /// A signal interrupted the call.
    Interrupted,
    /// The call failed with this `errno`.
    Failed(i32),
    /// This many descriptors reported an event; none means that the timeout
    /// ran out.
    Ready(i32),
}

/// What to do after a poll.
#[derive(Clone, Copy, Debug, PartialEq, Eq, Structural)]
pub enum PollVerdict {
    /// Poll again.
    Again,
    /// Give the request up with this error.
    Fail(RedoIoError),
    /// Look at what the pipes reported.
    Proceed,
}

/// What to do with a pipe after a poll.
#[derive(Clone, Copy, Debug, PartialEq, Eq, Structural)]
pub enum PipeAction {
    /// Read from the pipe, or write to it.
    Transfer,
    /// Give the request up with this error.
    Fail(RedoIoError),
    /// Nothing to do on this pipe.
    Skip,
}

/// What to do after a poll: see [`poll_verdict`].
pub open spec fn spec_poll_verdict(res: PollResult) -> PollVerdict {
    match res {
        PollResult::Interrupted => PollVerdict::Again,
        PollResult::Failed(errno) => PollVerdict::Fail(RedoIoError::Os(errno)),
        PollResult::Ready(n) => if n == 0 {
            PollVerdict::Fail(RedoIoError::TimedOut)
        } else {
            PollVerdict::Proceed
        },
    }
}

/// What to do after a poll: an interrupted call is repeated, a failed one
/// ends the request with the error of the system, and a call that found
/// nothing ready within the timeout ends it with a timeout.
#[verifier::when_used_as_spec(spec_poll_verdict)]
pub fn poll_verdict(res: PollResult) -> (r: PollVerdict)
    ensures
        r == spec_poll_verdict(res),
{
    match res {
        PollResult::Interrupted => PollVerdict::Again,
        PollResult::Failed(errno) => PollVerdict::Fail(RedoIoError::Os(errno)),
        PollResult::Ready(n) => if n == 0 {
            PollVerdict::Fail(RedoIoError::TimedOut)
        } else {
            PollVerdict::Proceed
        },
    }
}

/// What to do with a pipe that is read from: see [`read_action`].
pub open spec fn spec_read_action(revents: PollEvents, closed: RedoIoError) -> PipeAction {
    if revents.error || revents.readable {
        PipeAction::Transfer
    } else if revents.hangup {
        PipeAction::Fail(closed)
    } else {
        PipeAction::Skip
    }
}

/// What to do with a pipe that is written to: see [`write_action`].
pub open spec fn spec_write_action(revents: PollEvents) -> PipeAction {
    if revents.error || revents.writable {
        PipeAction::Transfer
    } else if revents.hangup {
        PipeAction::Fail(RedoIoError::StdinClosed)
    } else {
        PipeAction::Skip
    }
}

/// What to do with a pipe that is read from, given what it reported: read
/// when there is data or an error to pick up, fail with `closed` when the
/// other end hung up with nothing left to read, else nothing.
#[verifier::when_used_as_spec(spec_read_action)]
pub fn read_action(revents: PollEvents, closed: RedoIoError) -> (r: PipeAction)
    ensures
        r == spec_read_action(revents, closed),
{
    if revents.error || revents.readable {
        PipeAction::Transfer
    } else if revents.hangup {
        PipeAction::Fail(closed)
    } else {
        PipeAction::Skip
    }
}

/// What to do with the worker's error stream.
pub fn stderr_action(revents: PollEvents) -> (r: PipeAction)
    ensures
        r == spec_read_action(revents, RedoIoError::StderrClosed),
{
    read_action(revents, RedoIoError::StderrClosed)
}

/// What to do with the worker's output.
pub fn stdout_action(revents: PollEvents) -> (r: PipeAction)
    ensures
        r == spec_read_action(revents, RedoIoError::StdoutClosed),
{
    read_action(revents, RedoIoError::StdoutClosed)
}

/// What to do with the worker's input while data is still to be written:
/// write when the pipe takes data or is in error, fail when the worker closed
/// it, else nothing.
#[verifier::when_used_as_spec(spec_write_action)]
pub fn write_action(revents: PollEvents) -> (r: PipeAction)
    ensures
        r == spec_write_action(revents),
{
    if revents.error || revents.writable {
        PipeAction::Transfer
    } else if revents.hangup {
        PipeAction::Fail(RedoIoError::StdinClosed)
    } else {
        PipeAction::Skip
    }
}

/// Whether to poll again right after reading `len` bytes from the error
/// stream: as long as the worker has something to say, it is heard out
/// before the other pipe is looked at.
pub fn keep_draining_stderr(len: usize) -> (r: bool)
    ensures
        r == (len > 0),
{
    len > 0
}

/// The timeout handed to `poll`, in milliseconds: the low 32 bits of the
/// configured timeout, read as a signed number.
pub open spec fn spec_poll_timeout(timeout_millis: u128) -> i32 {
    timeout_millis as i32
}

/// The timeout handed to `poll`, in milliseconds.
#[verifier::when_used_as_spec(spec_poll_timeout)]
pub fn poll_timeout(timeout_millis: u128) -> (r: i32)
    ensures
        r == spec_poll_timeout(timeout_millis),
        0 <= timeout_millis <= i32::MAX ==> r == timeout_millis,
{
    #[verifier::truncate]
    (timeout_millis as i32)
}

/// Progress of moving bytes through a pipe: of writing one request to the
/// worker, or of reading one response from it.
#[derive(Clone, Copy, Debug, PartialEq, Eq, Structural)]
pub struct TransferProgress {
    moved: usize,
    total: usize,
}

impl TransferProgress {
    /// Whether `moved <= total`.
    pub closed spec fn wf(&self) -> bool {
        self.moved <= self.total
    }

    /// Bytes moved so far.
    pub closed spec fn spec_moved(&self) -> usize {
        self.moved
    }

    /// Bytes to move in all.
    pub closed spec fn spec_total(&self) -> usize {
        self.total
    }

    /// Nothing moved yet of `total` bytes.
    pub fn new(total: usize) -> (r: TransferProgress)
        ensures
            r.wf(),
            r.spec_moved() == 0,
            r.spec_total() == total,
    {
        TransferProgress { moved: 0, total }
    }

    /// Bytes moved so far: the next write or read starts there.
    #[verifier::when_used_as_spec(spec_moved)]
    pub fn moved(&self) -> (r: usize)
        ensures
            r == self.spec_moved(),
    {
        self.moved
    }

    /// Bytes to move in all.
    #[verifier::when_used_as_spec(spec_total)]
    pub fn total(&self) -> (r: usize)
        ensures
            r == self.spec_total(),
    {
        self.total
    }

    /// Whether all bytes have been moved.
    pub fn is_done(&self) -> (r: bool)
        requires
            self.wf(),
        ensures
            r == (self.spec_moved() == self.spec_total()),
    {
        self.moved >= self.total
    }

    /// Counts `n` more bytes as moved. A write or read never reports more
    /// bytes than it was given.
    pub fn advance(&mut self, n: usize)
        requires
            old(self).wf(),
            n <= old(self).spec_total() - old(self).spec_moved(),
        ensures
            final(self).wf(),
            final(self).spec_moved() == old(self).spec_moved() + n,
            final(self).spec_total() == old(self).spec_total(),
    {
        self.moved = self.moved + n;
    }
}

/// The input half: what is needed to send a request and to number it.
#[derive(Clone, Copy, Debug, PartialEq, Eq, Structural)]
pub struct ProcessInput {
    stderr_fd: i32,
    stdout_fd: i32,
    n_requests: usize,
}

impl ProcessInput {
    /// Descriptor of the error stream of the process the requests go to.
    pub closed spec fn spec_stderr_fd(&self) -> i32 {
        self.stderr_fd
    }

    /// Descriptor of the output of the process the requests go to.
    pub closed spec fn spec_stdout_fd(&self) -> i32 {
        self.stdout_fd
    }

    /// Requests sent so far.
    pub closed spec fn spec_n_requests(&self) -> usize {
        self.n_requests
    }

    /// The input half for a process that was just launched.
    pub fn new(stdout_fd: i32, stderr_fd: i32) -> (r: ProcessInput)
        ensures
            r.spec_stdout_fd() == stdout_fd,
            r.spec_stderr_fd() == stderr_fd,
            r.spec_n_requests() == 0,
    {
        ProcessInput { stderr_fd, stdout_fd, n_requests: 0 }
    }

    #[verifier::when_used_as_spec(spec_stderr_fd)]
    pub fn stderr_fd(&self) -> (r: i32)
        ensures
            r == self.spec_stderr_fd(),
    {
        self.stderr_fd
    }

    #[verifier::when_used_as_spec(spec_stdout_fd)]
    pub fn stdout_fd(&self) -> (r: i32)
        ensures
            r == self.spec_stdout_fd(),
    {
        self.stdout_fd
    }

    #[verifier::when_used_as_spec(spec_n_requests)]
    pub fn n_requests(&self) -> (r: usize)
        ensures
            r == self.spec_n_requests(),
    {
        self.n_requests
    }

    /// Numbers the request that was just written: it gets the count of the
    /// requests before it, and the count goes up by one.
    pub fn next_request_no(&mut self) -> (request_no: usize)
        requires
            old(self).spec_n_requests() < usize::MAX,
        ensures
            request_no == old(self).spec_n_requests(),
            final(self).spec_n_requests() == request_no + 1,
            final(self).spec_stdout_fd() == old(self).spec_stdout_fd(),
            final(self).spec_stderr_fd() == old(self).spec_stderr_fd(),
    {
        let request_no = self.n_requests;
        self.n_requests = self.n_requests + 1;
        request_no
    }
}

/// The output half as callers see it: how many responses were read so far,
/// and the ones among them that wait for their owner, by request number.
pub struct OutputView {
    /// Descriptor of the output of the process the responses come from.
    pub stdout_fd: i32,
    /// Responses read from the pipe so far.
    pub received: nat,
    /// Responses read and not yet taken, by request number.
    pub waiting: Map<int, Seq<u8>>,
}

impl OutputView {
    /// The state after one more response was read.
    pub open spec fn push(self, page: Seq<u8>) -> OutputView {
        OutputView {
            stdout_fd: self.stdout_fd,
            received: self.received + 1,
            waiting: self.waiting.insert(self.received as int, page),
        }
    }

    /// The state after the response to request `request_no` was taken.
    pub open spec fn take(self, request_no: int) -> OutputView {
        OutputView {
            stdout_fd: self.stdout_fd,
            received: self.received,
            waiting: self.waiting.remove(request_no),
        }
    }
}

/// The output half: the responses that were read and wait for their owner.
#[derive(Debug)]
pub struct ProcessOutput {
    stdout_fd: i32,
    pending_responses: VecDeque<Option<Vec<u8>>>,
    n_processed_responses: usize,
}

impl View for ProcessOutput {
    type V = OutputView;

    closed spec fn view(&self) -> OutputView {
        OutputView {
            stdout_fd: self.stdout_fd,
            received: (self.n_processed_responses + self.pending_responses@.len()) as nat,
            waiting: Map::new(
                |n: int|
                    self.n_processed_responses <= n < self.n_processed_responses
                        + self.pending_responses@.len() && self.pending_responses@[n
                        - self.n_processed_responses] is Some,
                |n: int| self.pending_responses@[n - self.n_processed_responses]->0@,
            ),
        }
    }
}

impl ProcessOutput {
    /// The count of responses fits a machine word.
    spec fn counted(&self) -> bool {
        self.n_processed_responses + self.pending_responses@.len() <= usize::MAX
    }

    /// Every response that waits is one page long.
    spec fn holds_whole_pages(&self) -> bool {
        forall|i: int|
            0 <= i < self.pending_responses@.len() ==> (
            #[trigger] self.pending_responses@[i] matches Some(page) ==> page@.len() == BLCKSZ)
    }

    /// The count of responses fits a machine word, every response that
    /// waits is one page long, and the buffer does not begin with the slot
    /// of a response that was taken: it is empty, or a response waits at its
    /// front.
    pub closed spec fn wf(&self) -> bool {
        &&& self.counted()
        &&& self.holds_whole_pages()
        &&& self.pending_responses@.len() > 0 ==> self.pending_responses@[0] is Some
    }

    /// How many responses need no slot in the buffer any more: those to the
    /// requests before the first one whose response still waits.
    pub closed spec fn spec_n_processed_responses(&self) -> nat {
        self.n_processed_responses as nat
    }

    /// How many slots the buffer holds: one for each response that was read
    /// and is not counted as processed, whether it waits or was taken.
    pub closed spec fn spec_n_pending_responses(&self) -> nat {
        self.pending_responses@.len()
    }

    /// What holds of every well-formed value. The responses read are the
    /// processed ones and those with a slot in the buffer. Only a response
    /// with a slot can be waiting, and it is one page long. The buffer is
    /// empty, or the response at its front waits: so the processed count is
    /// the number of the first response that waits, or the count of all
    /// responses read where none waits.
    pub proof fn lemma_view(&self)
        requires
            self.wf(),
        ensures
            self@.received <= usize::MAX,
            self@.received == self.spec_n_processed_responses() + self.spec_n_pending_responses(),
            forall|n: int| #[trigger]
                self@.waiting.contains_key(n) ==> self.spec_n_processed_responses() <= n
                    < self@.received && self@.waiting[n].len() == BLCKSZ,
            self.spec_n_pending_responses() > 0 ==> self@.waiting.contains_key(
                self.spec_n_processed_responses() as int,
            ),
    {
        assert forall|n: int| #[trigger] self@.waiting.contains_key(n) implies self@.waiting[n].len()
            == BLCKSZ by {
            let page = self.pending_responses@[n - self.n_processed_responses];
            assert(page is Some);
        }
    }

    /// Once the response to every request has been taken, the buffer is
    /// empty and every response read is counted as processed.
    pub proof fn lemma_all_taken(&self)
        requires
            self.wf(),
            forall|n: int| !self@.waiting.contains_key(n),
        ensures
            self.spec_n_pending_responses() == 0,
            self.spec_n_processed_responses() == self@.received,
    {
        self.lemma_view();
    }

    /// The output half for a process that was just launched.
    pub fn new(stdout_fd: i32) -> (r: ProcessOutput)
        ensures
            r.wf(),
            r@ == (OutputView { stdout_fd, received: 0, waiting: Map::empty() }),
            r.spec_n_processed_responses() == 0,
            r.spec_n_pending_responses() == 0,
    {
        let r = ProcessOutput {
            stdout_fd,
            pending_responses: VecDeque::new(),
            n_processed_responses: 0,
        };
        assert(r@.waiting =~= Map::empty());
        r
    }

    /// Descriptor of the output of the process the responses come from.
    pub fn stdout_fd(&self) -> (r: i32)
        ensures
            r == self@.stdout_fd,
    {
        self.stdout_fd
    }

    /// How many responses need no slot in the buffer any more.
    pub fn n_processed_responses(&self) -> (r: usize)
        ensures
            r == self.spec_n_processed_responses(),
    {
        self.n_processed_responses
    }

    /// How many slots the buffer holds.
    pub fn n_pending_responses(&self) -> (r: usize)
        ensures
            r == self.spec_n_pending_responses(),
    {
        self.pending_responses.len()
    }

    /// Checks that the responses come from the process that request was
    /// written to. A request remembers the output descriptor of its process;
    /// a different one here means that the process was replaced meanwhile
    /// and the response is lost.
    pub fn check_same_process(&self, stdout_fd: i32) -> (r: Result<(), RedoIoError>)
        ensures
            r == (if self@.stdout_fd == stdout_fd {
                Ok::<(), RedoIoError>(())
            } else {
                Err::<(), RedoIoError>(RedoIoError::StdoutClosed)
            }),
    {
        if self.stdout_fd != stdout_fd {
            Err(RedoIoError::StdoutClosed)
        } else {
            Ok(())
        }
    }

    /// Whether another response has to be read before the one for request
    /// `request_no` is there.
    pub fn needs_response(&self, request_no: usize) -> (r: bool)
        requires
            self.wf(),
        ensures
            r == (self@.received <= request_no),
    {
        self.n_processed_responses + self.pending_responses.len() <= request_no
    }

    /// Whether the response to request `request_no` is there to be taken.
    pub fn has_response(&self, request_no: usize) -> (r: bool)
        requires
            self.wf(),
        ensures
            r == self@.waiting.contains_key(request_no as int),
    {
        if request_no < self.n_processed_responses {
            return false;
        }
        let idx = request_no - self.n_processed_responses;
        if idx >= self.pending_responses.len() {
            return false;
        }
        self.pending_responses[idx].is_some()
    }

    /// Files a response that was just read from the pipe: it belongs to the
    /// request whose number is the count of responses read before it. A
    /// response is one page.
    pub fn push_response(&mut self, page: Vec<u8>)
        requires
            old(self).wf(),
            old(self)@.received < usize::MAX,
            page@.len() == BLCKSZ,
        ensures
            final(self).wf(),
            final(self)@ == old(self)@.push(page@),
            final(self).spec_n_processed_responses() == old(self).spec_n_processed_responses(),
            final(self).spec_n_pending_responses() == old(self).spec_n_pending_responses() + 1,
    {
        self.pending_responses.push_back(Some(page));
        assert(self@.waiting =~= old(self)@.push(page@).waiting);
    }

    /// Takes the response to request `request_no` out, and forgets the
    /// slots at the front whose responses have all been taken: afterwards
    /// the buffer is empty or a response waits at its front, and the
    /// processed count has not fallen.
    pub fn take_response(&mut self, request_no: usize) -> (page: Vec<u8>)
        requires
            old(self).wf(),
            old(self)@.waiting.contains_key(request_no as int),
        ensures
            final(self).wf(),
            page@ == old(self)@.waiting[request_no as int],
            page@.len() == BLCKSZ,
            final(self)@ == old(self)@.take(request_no as int),
            final(self).spec_n_processed_responses() >= old(self).spec_n_processed_responses(),
            final(self).spec_n_processed_responses() + final(self).spec_n_pending_responses()
                == old(self)@.received,
            final(self).spec_n_pending_responses() == 0 || final(self)@.waiting.contains_key(
                final(self).spec_n_processed_responses() as int,
            ),
            forall|n: int|
                0 <= n < final(self).spec_n_processed_responses()
                    ==> !final(self)@.waiting.contains_key(n),
    {
        let idx = request_no - self.n_processed_responses;
        assert(old(self).pending_responses@[idx as int] is Some);
        let res = self.pending_responses.remove(idx);
        self.pending_responses.insert(idx, None);
        assert(self@.waiting =~= old(self)@.take(request_no as int).waiting);
        assert(self.holds_whole_pages()) by {
            assert forall|i: int| 0 <= i < self.pending_responses@.len() implies (
            #[trigger] self.pending_responses@[i] matches Some(page) ==> page@.len() == BLCKSZ) by {
                if i != idx {
                    assert(self.pending_responses@[i] == old(self).pending_responses@[i]);
                }
            }
        }
        let ghost target = self@;
        while self.pending_responses.len() > 0 && self.pending_responses[0].is_none()
            invariant
                self.counted(),
                self.holds_whole_pages(),
                self@ == target,
                self.n_processed_responses >= old(self).n_processed_responses,
            decreases self.pending_responses@.len(),
        {
            let ghost before = *self;
            self.pending_responses.pop_front();
            self.n_processed_responses = self.n_processed_responses + 1;
            assert(self@.waiting =~= before@.waiting);
            assert(self.holds_whole_pages()) by {
                assert forall|i: int| 0 <= i < self.pending_responses@.len() implies (
                #[trigger] self.pending_responses@[i] matches Some(page) ==> page@.len()
                    == BLCKSZ) by {
                    assert(self.pending_responses@[i] == before.pending_responses@[i + 1]);
                }
            }
        }
        proof {
            self.lemma_view();
        }
        res.unwrap().unwrap()
    }
}

/// One thing that happens to the output half.
pub enum OutputEvent {
    /// A response was read from the pipe.
    Received(Seq<u8>),
    /// The owner of this request took its response.
    Taken(int),
}

/// The output half of a process after `events`, starting from its launch.
pub open spec fn output_after(events: Seq<OutputEvent>, stdout_fd: i32) -> OutputView
    decreases events.len(),
{
    if events.len() == 0 {
        OutputView { stdout_fd, received: 0, waiting: Map::empty() }
    } else {
        let before = output_after(events.drop_last(), stdout_fd);
        match events.last() {
            OutputEvent::Received(page) => before.push(page),
            OutputEvent::Taken(request_no) => before.take(request_no),
        }
    }
}

/// The responses read during `events`, in the order in which they came.
pub open spec fn responses_read(events: Seq<OutputEvent>) -> Seq<Seq<u8>>
    decreases events.len(),
{
    if events.len() == 0 {
        Seq::empty()
    } else {
        match events.last() {
            OutputEvent::Received(page) => responses_read(events.drop_last()).push(page),
            OutputEvent::Taken(_) => responses_read(events.drop_last()),
        }
    }
}

/// Whether every response taken during `events` was there to be taken, as
/// [`ProcessOutput::take_response`] requires.
pub open spec fn takes_are_allowed(events: Seq<OutputEvent>, stdout_fd: i32) -> bool {
    forall|i: int|
        0 <= i < events.len() ==> (#[trigger] events[i] matches OutputEvent::Taken(n)
            ==> output_after(events.take(i), stdout_fd).waiting.contains_key(n))
}

/// What holds after any run of events: the responses that wait are among
/// those read, each under the number of its place in the order of reading,
/// and a response that was taken waits no more.
proof fn lemma_output_history(events: Seq<OutputEvent>, stdout_fd: i32)
    requires
        takes_are_allowed(events, stdout_fd),
    ensures
        output_after(events, stdout_fd).received == responses_read(events).len(),
        forall|n: int| #[trigger]
            output_after(events, stdout_fd).waiting.contains_key(n) ==> 0 <= n < responses_read(
                events,
            ).len() && output_after(events, stdout_fd).waiting[n] == responses_read(events)[n],
        forall|i: int|
            0 <= i < events.len() ==> (#[trigger] events[i] matches OutputEvent::Taken(n)
                ==> !output_after(events, stdout_fd).waiting.contains_key(n) && 0 <= n
                < responses_read(events).len()),
        forall|i: int|
            #![trigger responses_read(events.take(i))]
            0 <= i <= events.len() ==> responses_read(events.take(i)).len() <= responses_read(
                events,
            ).len() && responses_read(events.take(i)) == responses_read(events).take(
                responses_read(events.take(i)).len() as int,
            ),
    decreases events.len(),
{
    if events.len() == 0 {
        assert forall|i: int| 0 <= i <= events.len() implies responses_read(events.take(i))
            == responses_read(events).take(responses_read(events.take(i)).len() as int) by {
            assert(events.take(i) =~= events);
            assert(responses_read(events).take(0) =~= responses_read(events));
        }
    } else {
        let prefix = events.drop_last();
        assert forall|i: int| 0 <= i < prefix.len() implies (#[trigger] prefix[i] matches OutputEvent::Taken(
            n,
        ) ==> output_after(prefix.take(i), stdout_fd).waiting.contains_key(n)) by {
            assert(prefix.take(i) =~= events.take(i));
            assert(prefix[i] == events[i]);
        }
        lemma_output_history(prefix, stdout_fd);
        assert(events.take(events.len() - 1) =~= prefix);
        let last = events.len() - 1;
        assert(events[last] == events.last());
        assert forall|i: int| 0 <= i < events.len() implies (#[trigger] events[i] matches OutputEvent::Taken(
            n,
        ) ==> !output_after(events, stdout_fd).waiting.contains_key(n) && 0 <= n < responses_read(
            events,
        ).len()) by {
            if i < last {
                assert(prefix[i] == events[i]);
            }
        }
        assert forall|i: int| 0 <= i <= events.len() implies responses_read(events.take(i)).len()
            <= responses_read(events).len() && responses_read(events.take(i)) == responses_read(
            events,
        ).take(responses_read(events.take(i)).len() as int) by {
            if i == events.len() {
                assert(events.take(i) =~= events);
                assert(responses_read(events).take(responses_read(events).len() as int)
                    =~= responses_read(events));
            } else {
                assert(events.take(i) =~= prefix.take(i));
                let k = responses_read(prefix.take(i)).len() as int;
                assert(responses_read(prefix.take(i)) == responses_read(prefix).take(k));
                assert(responses_read(prefix).take(k) =~= responses_read(events).take(k));
            }
        }
    }
}

/// Where every take of a history was allowed, so was every take of each of
/// its beginnings.
proof fn lemma_beginning_is_allowed(events: Seq<OutputEvent>, stdout_fd: i32, i: int)
    requires
        takes_are_allowed(events, stdout_fd),
        0 <= i <= events.len(),
    ensures
        takes_are_allowed(events.take(i), stdout_fd),
{
    let prefix = events.take(i);
    assert forall|k: int| 0 <= k < prefix.len() implies (#[trigger] prefix[k] matches OutputEvent::Taken(
        m,
    ) ==> output_after(prefix.take(k), stdout_fd).waiting.contains_key(m)) by {
        assert(prefix.take(k) =~= events.take(k));
        assert(prefix[k] == events[k]);
    }
}

/// A response that was taken is not taken again.
proof fn lemma_taken_once(events: Seq<OutputEvent>, stdout_fd: i32, i: int, j: int, n: int)
    requires
        takes_are_allowed(events, stdout_fd),
        0 <= i < j < events.len(),
        events[i] == OutputEvent::Taken(n),
    ensures
        events[j] != OutputEvent::Taken(n),
{
    let upto = events.take(j);
    lemma_beginning_is_allowed(events, stdout_fd, j);
    lemma_output_history(upto, stdout_fd);
    assert(upto[i] == events[i]);
    assert(!output_after(upto, stdout_fd).waiting.contains_key(n));
    if events[j] == OutputEvent::Taken(n) {
        assert(events[j] matches OutputEvent::Taken(m) ==> output_after(
            events.take(j),
            stdout_fd,
        ).waiting.contains_key(m));
    }
}

/// Whether every response read during `events` was one page long, as
/// [`ProcessOutput::push_response`] requires.
pub open spec fn pages_are_whole(events: Seq<OutputEvent>) -> bool {
    forall|i: int|
        0 <= i < events.len() ==> (#[trigger] events[i] matches OutputEvent::Received(page)
            ==> page.len() == BLCKSZ)
}

/// Where every response read was one page long, so is each of the responses
/// in the order of reading.
proof fn lemma_responses_are_whole(events: Seq<OutputEvent>, k: int)
    requires
        pages_are_whole(events),
        0 <= k < responses_read(events).len(),
    ensures
        responses_read(events)[k].len() == BLCKSZ,
    decreases events.len(),
{
    if events.len() > 0 {
        let prefix = events.drop_last();
        assert(events[events.len() - 1] == events.last());
        assert forall|i: int| 0 <= i < prefix.len() implies (#[trigger] prefix[i] matches OutputEvent::Received(
            page,
        ) ==> page.len() == BLCKSZ) by {
            assert(prefix[i] == events[i]);
        }
        if k < responses_read(prefix).len() {
            lemma_responses_are_whole(prefix, k);
        }
    }
}

/// Responses reach their requests in the order of the requests, and each
/// request gets one: whenever the owner of request `n` takes its response,
/// what it gets is the `n`-th page that was read from the pipe (counting
/// from zero), whatever was read or taken in between; it is one page long
/// where every response read was; and the response to `n` is never taken a
/// second time.
pub proof fn lemma_responses_follow_request_order(
    events: Seq<OutputEvent>,
    stdout_fd: i32,
    i: int,
    n: int,
)
    requires
        takes_are_allowed(events, stdout_fd),
        0 <= i < events.len(),
        events[i] == OutputEvent::Taken(n),
    ensures
        0 <= n < responses_read(events).len(),
        output_after(events.take(i), stdout_fd).waiting.contains_key(n),
        output_after(events.take(i), stdout_fd).waiting[n] == responses_read(events)[n],
        pages_are_whole(events) ==> responses_read(events)[n].len() == BLCKSZ,
        forall|j: int| i < j < events.len() ==> events[j] != OutputEvent::Taken(n),
{
    let prefix = events.take(i);
    lemma_beginning_is_allowed(events, stdout_fd, i);
    lemma_output_history(prefix, stdout_fd);
    lemma_output_history(events, stdout_fd);
    assert(events[i] matches OutputEvent::Taken(m) ==> output_after(
        events.take(i),
        stdout_fd,
    ).waiting.contains_key(m));
    assert(events.take(events.len() as int) =~= events);
    assert(responses_read(prefix) == responses_read(events).take(
        responses_read(prefix).len() as int,
    ));
    if pages_are_whole(events) {
        lemma_responses_are_whole(events, n);
    }
    assert forall|j: int| i < j < events.len() implies events[j] != OutputEvent::Taken(n) by {
        lemma_taken_once(events, stdout_fd, i, j, n);
    }
}

/// The two halves for a process that was just launched: no request sent, no
/// response read, and the input half remembers the output descriptor so that
/// a request can tell whether its process is still the one that answers.
pub fn publish_launched(stdout_fd: i32, stderr_fd: i32) -> (r: (ProcessInput, ProcessOutput))
    ensures
        r.0.spec_stdout_fd() == stdout_fd,
        r.0.spec_stderr_fd() == stderr_fd,
        r.0.spec_n_requests() == 0,
        r.1.wf(),
        r.1@ == (OutputView { stdout_fd, received: 0, waiting: Map::empty() }),
        r.1.spec_n_processed_responses() == 0,
        r.1.spec_n_pending_responses() == 0,
{
    (ProcessInput::new(stdout_fd, stderr_fd), ProcessOutput::new(stdout_fd))
}

} // verus!
