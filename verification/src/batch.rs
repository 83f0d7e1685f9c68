//! Fetching a batch of objects, a bounded number at a time.
//!
//! The batch decides; its driver does the work. The driver asks for the next
//! step, and is told to fetch one object, to wait for a running fetch to
//! end, or that the batch is over. It reports the end of each fetch. Objects
//! are taken up in order, never more than the limit at a time. After the
//! first failure no further object is taken up; the fetches that run are
//! left to end, and the batch then ends with that first failure.

use crate::endpoint::{url_joined, Endpoint, UrlError};
use crate::pointer::{LfsPointer, PointerView};
use std::path::PathBuf;
use vstd::prelude::*;

verus! {

/// How many objects are fetched at a time unless the user says otherwise.
pub const DEFAULT_JOBS: usize = 4;

/// Why the fetch of an object failed.
#[derive(Debug, PartialEq, Eq)]
pub enum FetchError {
    /// The object's identifier gives no URL.
    Url(UrlError),
    /// The server answered with this status, which is not a success.
    Status(u16),
    /// The request could not be made, or the answer could not be read.
    Transport(String),
    /// The object's bytes could not be written to the file.
    Write(String),
}

/// Whether an HTTP status says that the request succeeded.
pub open spec fn is_success(status: u16) -> bool {
    200 <= status <= 299
}

/// Accepts an answer with a success status and refuses any other.
pub fn check_status(status: u16) -> (r: Result<(), FetchError>)
    ensures
        is_success(status) ==> r is Ok,
        !is_success(status) ==> r == Err::<(), FetchError>(FetchError::Status(status)),
{
    if 200 <= status && status <= 299 {
        Ok(())
    } else {
        Err(FetchError::Status(status))
    }
}

/// How far the fetch of one object has come.
#[derive(Clone, Copy, Debug, PartialEq, Eq, Structural)]
pub enum TaskState {
    /// Not taken up yet.
    Pending,
    /// Handed to the driver, which has not reported its end.
    Running,
    /// Ended well: the object's bytes have replaced the pointer file.
    Done,
    /// Ended in a failure.
    Failed,
}

/// What the driver is to do next.
#[derive(Debug, PartialEq, Eq)]
pub enum Step {
    /// Fetch the bytes at `url`, write them over the file of record
    /// `index`, and report how that ended.
    Fetch { index: usize, url: String },
    /// Wait for a running fetch to end, and report it.
    Wait,
    /// Nothing runs and nothing more will be taken up.
    Finished,
}

/// How many of the tasks are running.
pub open spec fn count_running(states: Seq<TaskState>) -> nat
    decreases states.len(),
{
    if states.len() == 0 {
        0
    } else {
        count_running(states.drop_last()) + if states.last() == TaskState::Running {
            1nat
        } else {
            0nat
        }
    }
}

/// A batch as plain values.
pub struct BatchView {
    /// The URL below which the objects are found.
    pub objects: Seq<char>,
    /// The pointers whose objects are to be fetched.
    pub records: Seq<PointerView>,
    /// The most fetches that may run at a time.
    pub limit: nat,
    /// The state of each record's fetch.
    pub states: Seq<TaskState>,
    /// How many records have been taken up.
    pub taken: nat,
    /// How many fetches are running.
    pub running: nat,
    /// The first failure, once there is one.
    pub failure: Option<FetchError>,
}

/// What holds of every batch.
pub open spec fn consistent(v: BatchView) -> bool {
    &&& v.limit >= 1
    &&& v.states.len() == v.records.len()
    &&& v.taken <= v.records.len()
    &&& forall|i: int|
        0 <= i < v.states.len() ==> ((#[trigger] v.states[i]) == TaskState::Pending <==> i
            >= v.taken)
    &&& v.running == count_running(v.states)
    &&& v.running <= v.limit
    &&& v.failure is None <==> forall|i: int|
        0 <= i < v.states.len() ==> (#[trigger] v.states[i]) != TaskState::Failed
}

/// Whether the next record can be taken up: nothing has failed, a record is
/// left, and fewer fetches than the limit are running.
pub open spec fn can_start(v: BatchView) -> bool {
    &&& v.failure is None
    &&& v.taken < v.records.len()
    &&& v.running < v.limit
}

/// Whether the batch is over: nothing runs, and nothing more will be taken
/// up.
pub open spec fn is_over(v: BatchView) -> bool {
    &&& v.running == 0
    &&& (v.failure is Some || v.taken == v.records.len())
}

/// What the driver is told when no record can be taken up.
pub open spec fn idle_step(v: BatchView) -> Step {
    if v.running > 0 {
        Step::Wait
    } else {
        Step::Finished
    }
}

/// The batch `v` after its next record was taken up and its fetch begun.
pub open spec fn begun(v: BatchView) -> BatchView {
    BatchView {
        states: v.states.update(v.taken as int, TaskState::Running),
        taken: v.taken + 1,
        running: v.running + 1,
        ..v
    }
}

/// The batch `v` after its next record was taken up and failed at once with
/// `error`.
pub open spec fn refused(v: BatchView, error: FetchError) -> BatchView {
    BatchView {
        states: v.states.update(v.taken as int, TaskState::Failed),
        taken: v.taken + 1,
        failure: Some(error),
        ..v
    }
}

/// The batch `v` after the running fetch of record `index` ended with
/// `outcome`. The first failure stays the first.
pub open spec fn ended(v: BatchView, index: int, outcome: Result<(), FetchError>) -> BatchView {
    BatchView {
        states: v.states.update(
            index,
            if outcome is Ok {
                TaskState::Done
            } else {
                TaskState::Failed
            },
        ),
        running: (v.running - 1) as nat,
        failure: match (v.failure, outcome) {
            (None, Err(error)) => Some(error),
            _ => v.failure,
        },
        ..v
    }
}

/// The pointers of `records` as plain values.
pub open spec fn views_of(records: Seq<LfsPointer>) -> Seq<PointerView> {
    records.map_values(|p: LfsPointer| p@)
}

/// A task that changes from not running to not running, or to running,
/// changes the count of running tasks accordingly.
pub proof fn lemma_count_running_update(states: Seq<TaskState>, i: int, state: TaskState)
    requires
        0 <= i < states.len(),
    ensures
        count_running(states.update(i, state)) + (if states[i] == TaskState::Running {
            1nat
        } else {
            0nat
        }) == count_running(states) + (if state == TaskState::Running {
            1nat
        } else {
            0nat
        }),
    decreases states.len(),
{
    let updated = states.update(i, state);
    if i == states.len() - 1 {
        assert(updated.drop_last() =~= states.drop_last());
    } else {
        lemma_count_running_update(states.drop_last(), i, state);
        assert(updated.drop_last() =~= states.drop_last().update(i, state));
    }
}

/// Where no task is counted as running, none is running.
pub proof fn lemma_none_running(states: Seq<TaskState>)
    requires
        count_running(states) == 0,
    ensures
        forall|i: int| 0 <= i < states.len() ==> (#[trigger] states[i]) != TaskState::Running,
    decreases states.len(),
{
    if states.len() > 0 {
        lemma_none_running(states.drop_last());
        assert forall|i: int| 0 <= i < states.len() implies (#[trigger] states[i])
            != TaskState::Running by {
            if i < states.len() - 1 {
                assert(states[i] == states.drop_last()[i]);
            }
        }
    }
}

/// Where every task is pending, none is running.
pub proof fn lemma_all_pending(states: Seq<TaskState>)
    requires
        forall|i: int| 0 <= i < states.len() ==> (#[trigger] states[i]) == TaskState::Pending,
    ensures
        count_running(states) == 0,
    decreases states.len(),
{
    if states.len() > 0 {
        assert forall|i: int| 0 <= i < states.drop_last().len() implies (
        #[trigger] states.drop_last()[i]) == TaskState::Pending by {
            assert(states.drop_last()[i] == states[i]);
        }
        lemma_all_pending(states.drop_last());
    }
}

/// A batch of fetches in progress.
#[derive(Debug)]
pub struct Batch {
    endpoint: Endpoint,
    records: Vec<LfsPointer>,
    limit: usize,
    states: Vec<TaskState>,
    taken: usize,
    running: usize,
    failure: Option<FetchError>,
}

impl View for Batch {
    type V = BatchView;

    closed spec fn view(&self) -> BatchView {
        BatchView {
            objects: self.endpoint@,
            records: views_of(self.records@),
            limit: self.limit as nat,
            states: self.states@,
            taken: self.taken as nat,
            running: self.running as nat,
            failure: self.failure,
        }
    }
}

impl Batch {
    /// What holds of every batch that this module hands out.
    pub open spec fn wf(&self) -> bool {
        consistent(self@)
    }

    /// A batch that is to fetch the objects of `records` from `endpoint`,
    /// at most `limit` at a time. Nothing is taken up yet.
    pub fn new(endpoint: Endpoint, records: Vec<LfsPointer>, limit: usize) -> (batch: Batch)
        requires
            limit >= 1,
        ensures
            batch.wf(),
            batch@ == (BatchView {
                objects: endpoint@,
                records: views_of(records@),
                limit: limit as nat,
                states: Seq::new(records@.len(), |i: int| TaskState::Pending),
                taken: 0,
                running: 0,
                failure: None,
            }),
    {
        let n = records.len();
        let mut states: Vec<TaskState> = Vec::new();
        while states.len() < n
            invariant
                states.len() <= n,
                forall|i: int| 0 <= i < states.len() ==> (#[trigger] states@[i]) == TaskState::Pending,
            decreases n - states.len(),
        {
            states.push(TaskState::Pending);
        }
        proof {
            lemma_all_pending(states@);
            assert(states@ =~= Seq::new(records@.len(), |i: int| TaskState::Pending));
        }
        Batch { endpoint, records, limit, states, taken: 0, running: 0, failure: None }
    }

    /// How many records the batch has.
    pub fn len(&self) -> (n: usize)
        ensures
            n == self@.records.len(),
    {
        self.records.len()
    }

    /// How many fetches are running.
    pub fn running(&self) -> (n: usize)
        ensures
            n == self@.running,
    {
        self.running
    }

    /// The most fetches that may run at a time.
    pub fn limit(&self) -> (n: usize)
        ensures
            n == self@.limit,
    {
        self.limit
    }

    /// The state of the fetch of record `index`; `None` where there is no
    /// such record.
    pub fn state(&self, index: usize) -> (s: Option<TaskState>)
        ensures
            s == if index < self@.states.len() {
                Some(self@.states[index as int])
            } else {
                None
            },
    {
        if index < self.states.len() {
            Some(self.states[index])
        } else {
            None
        }
    }

    /// The file that the bytes of record `index` are to be written over;
    /// `None` where there is no such record.
    pub fn target(&self, index: usize) -> (path: Option<&PathBuf>)
        ensures
            match path {
                Some(p) => index < self@.records.len() && *p == self@.records[index as int].target,
                None => index >= self@.records.len(),
            },
    {
        if index < self.records.len() {
            Some(&self.records[index].filename)
        } else {
            None
        }
    }

    /// Whether the batch is over.
    pub fn is_finished(&self) -> (over: bool)
        ensures
            over == is_over(self@),
    {
        self.running == 0 && (self.failure.is_some() || self.taken == self.records.len())
    }

    /// Takes up the next record, whose URL was looked up with the result
    /// `located`: the fetch begins where there is a URL, and the record
    /// fails at once where there is none.
    pub fn start_with(&mut self, located: Result<String, UrlError>) -> (step: Step)
        requires
            old(self).wf(),
            can_start(old(self)@),
        ensures
            final(self).wf(),
            match located {
                Ok(url) => {
                    &&& final(self)@ == begun(old(self)@)
                    &&& step == (Step::Fetch { index: old(self)@.taken as usize, url })
                },
                Err(cause) => {
                    &&& final(self)@ == refused(old(self)@, FetchError::Url(cause))
                    &&& step == idle_step(final(self)@)
                },
            },
    {
        let index = self.taken;
        let n = self.records.len();
        let ghost before = self.states@;
        proof {
            assert(self@.records.len() == n);
            lemma_count_running_update(before, index as int, TaskState::Running);
            lemma_count_running_update(before, index as int, TaskState::Failed);
        }
        match located {
            Ok(url) => {
                self.states.set(index, TaskState::Running);
                self.taken = index + 1;
                self.running = self.running + 1;
                Step::Fetch { index, url }
            },
            Err(cause) => {
                self.states.set(index, TaskState::Failed);
                self.taken = index + 1;
                self.failure = Some(FetchError::Url(cause));
                assert(self.states@[index as int] == TaskState::Failed);
                if self.running > 0 {
                    Step::Wait
                } else {
                    Step::Finished
                }
            },
        }
    }

    /// Says what the driver is to do next. Where a record can be taken up,
    /// its URL is looked up and the record is taken up; otherwise nothing
    /// changes.
    pub fn next_step(&mut self) -> (step: Step)
        requires
            old(self).wf(),
        ensures
            final(self).wf(),
            if can_start(old(self)@) {
                match url_joined(
                    old(self)@.objects,
                    old(self)@.records[old(self)@.taken as int].content_id,
                ) {
                    Ok(text) => {
                        &&& final(self)@ == begun(old(self)@)
                        &&& step matches Step::Fetch { index, url }
                        &&& index == old(self)@.taken
                        &&& url@ == text
                    },
                    Err(cause) => {
                        &&& final(self)@ == refused(
                            old(self)@,
                            FetchError::Url(UrlError { cause }),
                        )
                        &&& step == idle_step(final(self)@)
                    },
                }
            } else {
                &&& final(self)@ == old(self)@
                &&& step == idle_step(old(self)@)
            },
            step == Step::Finished <==> is_over(final(self)@),
    {
        if self.failure.is_none() && self.taken < self.records.len() && self.running < self.limit {
            let located = self.endpoint.object_url(self.records[self.taken].sha256.as_str());
            self.start_with(located)
        } else if self.running > 0 {
            Step::Wait
        } else {
            Step::Finished
        }
    }

    /// Takes the driver's report that the fetch of record `index` ended
    /// with `outcome`. A report on a record whose fetch is not running is
    /// refused and changes nothing.
    pub fn complete(&mut self, index: usize, outcome: Result<(), FetchError>) -> (accepted: bool)
        requires
            old(self).wf(),
        ensures
            final(self).wf(),
            accepted == (index < old(self)@.states.len() && old(self)@.states[index as int]
                == TaskState::Running),
            final(self)@ == if accepted {
                ended(old(self)@, index as int, outcome)
            } else {
                old(self)@
            },
    {
        if index >= self.states.len() {
            return false;
        }
        match self.states[index] {
            TaskState::Running => {},
            _ => {
                return false;
            },
        }
        let ghost before = self.states@;
        let ghost failed_before = choose|j: int|
            0 <= j < before.len() && (#[trigger] before[j]) == TaskState::Failed;
        proof {
            lemma_count_running_update(before, index as int, TaskState::Done);
            lemma_count_running_update(before, index as int, TaskState::Failed);
        }
        match outcome {
            Ok(()) => {
                self.states.set(index, TaskState::Done);
            },
            Err(error) => {
                self.states.set(index, TaskState::Failed);
                assert(self.states@[index as int] == TaskState::Failed);
                if self.failure.is_none() {
                    self.failure = Some(error);
                }
            },
        }
        self.running = self.running - 1;
        proof {
            if old(self)@.failure is Some {
                assert(self.states@[failed_before] == TaskState::Failed);
            }
        }
        true
    }

    /// How the batch ended: well where every object was fetched and
    /// written, and else with the first failure.
    pub fn finish(self) -> (r: Result<(), FetchError>)
        requires
            self.wf(),
            is_over(self@),
        ensures
            match self@.failure {
                Some(error) => r == Err::<(), FetchError>(error),
                None => r is Ok,
            },
            r is Ok <==> forall|i: int|
                0 <= i < self@.states.len() ==> (#[trigger] self@.states[i]) == TaskState::Done,
    {
        proof {
            lemma_none_running(self.states@);
        }
        match self.failure {
            Some(error) => Err(error),
            None => Ok(()),
        }
    }
}

/// Never more fetches run than the limit allows: this holds of a new
/// batch, and every step of a batch keeps it.
pub proof fn lemma_running_within_limit(
    v: BatchView,
    index: int,
    outcome: Result<(), FetchError>,
    error: FetchError,
)
    requires
        consistent(v),
    ensures
        count_running(v.states) <= v.limit,
        can_start(v) ==> consistent(begun(v)) && count_running(begun(v).states) <= v.limit,
        can_start(v) ==> consistent(refused(v, error)) && count_running(refused(v, error).states)
            <= v.limit,
        0 <= index < v.states.len() && v.states[index] == TaskState::Running ==> consistent(
            ended(v, index, outcome),
        ) && count_running(ended(v, index, outcome).states) <= v.limit,
{
    if can_start(v) {
        let i = v.taken as int;
        lemma_count_running_update(v.states, i, TaskState::Running);
        lemma_count_running_update(v.states, i, TaskState::Failed);
        assert(refused(v, error).states[i] == TaskState::Failed);
    }
    if 0 <= index < v.states.len() && v.states[index] == TaskState::Running {
        lemma_count_running_update(v.states, index, TaskState::Done);
        lemma_count_running_update(v.states, index, TaskState::Failed);
        let w = ended(v, index, outcome);
        if outcome is Err {
            assert(w.states[index] == TaskState::Failed);
        }
        if v.failure is Some {
            let j = choose|j: int|
                0 <= j < v.states.len() && (#[trigger] v.states[j]) == TaskState::Failed;
            assert(w.states[j] == TaskState::Failed);
        }
    }
}

/// A batch that is over ended well exactly if every object was fetched and
/// written; a single failure makes it fail.
pub proof fn lemma_success_needs_every_record(v: BatchView)
    requires
        consistent(v),
        is_over(v),
    ensures
        v.failure is None <==> forall|i: int|
            0 <= i < v.states.len() ==> (#[trigger] v.states[i]) == TaskState::Done,
{
    lemma_none_running(v.states);
    if v.failure is Some {
        let j = choose|j: int|
            0 <= j < v.states.len() && (#[trigger] v.states[j]) == TaskState::Failed;
        assert(v.states[j] != TaskState::Done);
    }
}

} // verus!
