//! The scheduler: the task store, the tasks that are being processed, and
//! the steps of a tick.
//!
//! A tick has two halves, with the work on the indexes between them.
//! [`IndexScheduler::begin_tick`] picks the next batch and marks its tasks as
//! processing. Whoever drives the scheduler then runs the batch, and hands
//! what came of it to [`IndexScheduler::end_tick`], which records the
//! outcome in the store and clears the mark. `Processing` is never written
//! to the store: a listing shows it for the marked tasks.

use vstd::prelude::*;
use roaring::RoaringBitmap;
use time::OffsetDateTime;
use crate::autobatcher::{autobatch, is_next_batch, Batch};
use crate::bitmap::{bitmap_clone, bitmap_contains, bitmap_insert, bitmap_new, ids};
use crate::error::{Error, ErrorView};
use crate::index_mapper::IndexMapper;
use uuid::Uuid;
use crate::query::Query;
use crate::queue::{enqueued_task, renamed, rewritable, writable, written, TaskQueue};
use crate::tasks::{
    Details, DetailsView, KindWithContent, ResponseError, ResponseErrorView, Status, Task, TaskId,
    TaskView,
};
use crate::text::clone_ids;

verus! {

/// `OffsetDateTime::now_utc`: the current instant. Nothing is claimed of it:
/// two calls may give any two instants.
#[verifier::external_body]
pub(crate) fn now_utc() -> (now: OffsetDateTime) {
    OffsetDateTime::now_utc()
}

/// A task as a listing shows it: as stored, unless it is being processed;
/// then its status is `Processing` and it started when the batch did.
pub open spec fn shown(task: TaskView, processing: Set<TaskId>, started_at: OffsetDateTime) -> TaskView {
    if processing.contains(task.uid) {
        TaskView { status: Status::Processing, started_at: Some(started_at), ..task }
    } else {
        task
    }
}

/// A task of a batch that ran, as the store records it: with the instants
/// at which the batch started and finished.
pub open spec fn stamped(
    task: TaskView,
    started_at: OffsetDateTime,
    finished_at: OffsetDateTime,
) -> TaskView {
    TaskView { started_at: Some(started_at), finished_at: Some(finished_at), ..task }
}

/// A task of a batch that failed as a whole, as the store records it:
/// failed, with the error of the batch and the instants at which the batch
/// started and finished.
pub open spec fn failed(
    task: TaskView,
    error: ResponseErrorView,
    started_at: OffsetDateTime,
    finished_at: OffsetDateTime,
) -> TaskView {
    TaskView {
        started_at: Some(started_at),
        finished_at: Some(finished_at),
        status: Status::Failed,
        error: Some(error),
        ..task
    }
}


/// The record of a task deletion that ran: succeeded, and showing how many
/// tasks it named and how many it deleted.
pub open spec fn deletion_done(task: TaskView, deleted: nat) -> TaskView {
    TaskView {
        status: Status::Succeeded,
        details: Some(
            DetailsView::DeleteTasks {
                matched_tasks: task.kind->DeleteTasks_tasks.len() as usize,
                deleted_tasks: Some(deleted as usize),
                original_query: task.kind->DeleteTasks_query,
            },
        ),
        ..task
    }
}

/// The record of a task cancellation that ran: succeeded, and showing how
/// many tasks it named and how many it cancelled.
pub open spec fn cancellation_done(task: TaskView, canceled: nat) -> TaskView {
    TaskView {
        status: Status::Succeeded,
        details: Some(
            DetailsView::TaskCancelation {
                matched_tasks: task.kind->CancelTask_tasks.len() as usize,
                canceled_tasks: Some(canceled as usize),
            },
        ),
        ..task
    }
}

/// The record of a task that was cancelled before it ran: failed at the
/// given instant, with the error of a cancellation.
pub open spec fn canceled(task: TaskView, at: OffsetDateTime) -> TaskView {
    TaskView {
        status: Status::Failed,
        error: Some(ResponseErrorView::canceled()),
        finished_at: Some(at),
        ..task
    }
}

/// The uids of `uids` that the cancellation `by` cancels in a store with
/// these records: those of the enqueued tasks, but for the cancellation
/// itself.
pub open spec fn cancellable(records: Map<TaskId, TaskView>, uids: Seq<TaskId>, by: TaskId) -> Set<
    TaskId,
> {
    Set::new(
        |uid: TaskId|
            uids.contains(uid) && uid != by && records.contains_key(uid) && records[uid].status
                == Status::Enqueued,
    )
}

/// The records of a store after the tasks of `gone` were cancelled at the
/// given instant.
pub open spec fn after_cancellation(
    records: Map<TaskId, TaskView>,
    gone: Set<TaskId>,
    at: OffsetDateTime,
) -> Map<TaskId, TaskView> {
    Map::new(
        |uid: TaskId| records.contains_key(uid),
        |uid: TaskId|
            if gone.contains(uid) {
                canceled(records[uid], at)
            } else {
                records[uid]
            },
    )
}

/// What the loop does after a tick.
#[derive(Debug, Clone, Copy, PartialEq, Eq, Structural)]
pub enum Wake {
    /// Nothing was processed: wait for the next signal.
    Wait,
    /// A batch was processed: signal oneself, so that the next batch is
    /// looked for without waiting.
    Again,
}

/// The points of a tick at which a test may stop the scheduler.
#[derive(Debug, Clone, Copy, PartialEq, Eq, Structural)]
pub enum Breakpoint {
    Start,
    BatchCreated,
    BeforeProcessing,
    AfterProcessing,
}

/// The scheduler.
pub struct IndexScheduler {
    queue: TaskQueue,
    /// When the batch that is being processed started; when the last batch
    /// finished, if none is.
    processing_at: OffsetDateTime,
    /// The uids of the tasks that are being processed.
    processing_tasks: RoaringBitmap,
    index_mapper: IndexMapper,
    autobatching_enabled: bool,
}

impl IndexScheduler {
    /// The task store.
    pub closed spec fn queue(&self) -> TaskQueue {
        self.queue
    }

    /// The uids of the tasks that are being processed.
    pub closed spec fn processing(&self) -> Set<TaskId> {
        ids(self.processing_tasks)
    }

    /// When the batch that is being processed started; when the last batch
    /// finished, if none is.
    pub closed spec fn processing_at(&self) -> OffsetDateTime {
        self.processing_at
    }

    /// Whether enqueued tasks are fused into batches.
    pub closed spec fn autobatching(&self) -> bool {
        self.autobatching_enabled
    }

    /// The index mapper.
    pub closed spec fn mapper(&self) -> IndexMapper {
        self.index_mapper
    }

    /// The invariant of the scheduler: its store and its index mapper are
    /// well formed.
    pub closed spec fn wf(&self) -> bool {
        self.queue.wf() && self.index_mapper.wf()
    }

    /// What the invariant says: the store and the index mapper are well
    /// formed.
    pub proof fn law_wf(&self)
        ensures
            self.wf() == (self.queue().wf() && self.mapper().wf()),
    {
    }

    /// A scheduler with an empty store, in which nothing is processed.
    pub fn new(autobatching_enabled: bool) -> (scheduler: Self)
        ensures
            scheduler.wf(),
            scheduler.queue().tasks() == Map::<TaskId, TaskView>::empty(),
            scheduler.queue().next_uid() == 0,
            scheduler.processing() == Set::<TaskId>::empty(),
            scheduler.autobatching() == autobatching_enabled,
            scheduler.mapper().indexes() == Map::<Seq<char>, Uuid>::empty(),
    {
        IndexScheduler {
            queue: TaskQueue::new(),
            processing_at: now_utc(),
            processing_tasks: bitmap_new(),
            index_mapper: IndexMapper::new(),
            autobatching_enabled,
        }
    }

    /// A scheduler over a store that was filled before, in which nothing is
    /// processed.
    pub fn with_queue(queue: TaskQueue, index_mapper: IndexMapper, autobatching_enabled: bool) -> (scheduler:
        Self)
        requires
            queue.wf(),
            index_mapper.wf(),
        ensures
            scheduler.wf(),
            scheduler.queue() == queue,
            scheduler.mapper() == index_mapper,
            scheduler.processing() == Set::<TaskId>::empty(),
            scheduler.autobatching() == autobatching_enabled,
    {
        IndexScheduler {
            queue,
            processing_at: now_utc(),
            processing_tasks: bitmap_new(),
            index_mapper,
            autobatching_enabled,
        }
    }

    /// The task store, to read.
    pub fn task_queue(&self) -> (queue: &TaskQueue)
        ensures
            *queue == self.queue(),
    {
        &self.queue
    }

    /// The uids of the tasks that are being processed, and when their batch
    /// started.
    pub fn processing_tasks(&self) -> (processing: (OffsetDateTime, RoaringBitmap))
        ensures
            processing.0 == self.processing_at(),
            ids(processing.1) == self.processing(),
    {
        (self.processing_at, bitmap_clone(&self.processing_tasks))
    }

    /// Registers a task of the given kind, enqueued at the given instant.
    ///
    /// The task gets the uid that follows the greatest uid of the store, and
    /// is enqueued. When every uid is taken the registration fails and
    /// nothing changes.
    pub fn register_at(&mut self, kind: KindWithContent, enqueued_at: OffsetDateTime) -> (result:
        Result<Task, Error>)
        requires
            old(self).wf(),
        ensures
            final(self).wf(),
            final(self).processing() == old(self).processing(),
            final(self).processing_at() == old(self).processing_at(),
            final(self).autobatching() == old(self).autobatching(),
            final(self).mapper() == old(self).mapper(),
            match result {
                Ok(task) => {
                    &&& old(self).queue().next_uid() <= u32::MAX
                    &&& task@ == enqueued_task(
                        old(self).queue().next_uid() as u32,
                        kind@,
                        enqueued_at,
                    )
                    &&& final(self).queue().tasks() == old(self).queue().tasks().insert(
                        task.uid,
                        task@,
                    )
                    &&& final(self).queue().next_uid() == old(self).queue().next_uid() + 1
                },
                Err(error) => {
                    &&& old(self).queue().next_uid() > u32::MAX
                    &&& error@ == ErrorView::KvError
                    &&& *final(self) == *old(self)
                },
            },
    {
        self.queue.register(kind, enqueued_at)
    }

    /// Registers a task of the given kind, enqueued now.
    ///
    /// The task gets the uid that follows the greatest uid of the store, and
    /// is enqueued. When every uid is taken the registration fails and
    /// nothing changes.
    pub fn register(&mut self, kind: KindWithContent) -> (result: Result<Task, Error>)
        requires
            old(self).wf(),
        ensures
            final(self).wf(),
            final(self).processing() == old(self).processing(),
            final(self).processing_at() == old(self).processing_at(),
            final(self).autobatching() == old(self).autobatching(),
            final(self).mapper() == old(self).mapper(),
            match result {
                Ok(task) => {
                    &&& old(self).queue().next_uid() <= u32::MAX
                    &&& task@ == enqueued_task(
                        old(self).queue().next_uid() as u32,
                        kind@,
                        task.enqueued_at,
                    )
                    &&& final(self).queue().tasks() == old(self).queue().tasks().insert(
                        task.uid,
                        task@,
                    )
                    &&& final(self).queue().next_uid() == old(self).queue().next_uid() + 1
                },
                Err(error) => {
                    &&& old(self).queue().next_uid() > u32::MAX
                    &&& error@ == ErrorView::KvError
                    &&& *final(self) == *old(self)
                },
            },
    {
        let now = now_utc();
        self.register_at(kind, now)
    }

    /// The tasks that a query selects, the greatest uid first, each as a
    /// listing shows it: the tasks that are being processed appear as
    /// `Processing`, started when their batch did.
    ///
    /// The listing fails when a selected uid has no record.
    pub fn get_tasks(&self, query: Query) -> (result: Result<Vec<Task>, Error>)
        requires
            self.wf(),
        ensures
            match result {
                Ok(tasks) => {
                    &&& tasks.len() == self.queue().selection(query@).len()
                    &&& forall|i: int|
                        0 <= i < tasks.len() ==> self.queue().tasks().contains_key(
                            #[trigger] self.queue().selection(query@)[i],
                        ) && tasks[i]@ == shown(
                            self.queue().tasks()[self.queue().selection(query@)[i]],
                            self.processing(),
                            self.processing_at(),
                        )
                },
                Err(error) => {
                    &&& error@ == ErrorView::CorruptedTaskQueue
                    &&& exists|i: int|
                        0 <= i < self.queue().selection(query@).len()
                            && !self.queue().tasks().contains_key(
                            #[trigger] self.queue().selection(query@)[i],
                        )
                },
            },
    {
        let mut tasks = match self.queue.select(&query) {
            Ok(tasks) => tasks,
            Err(error) => {
                return Err(error);
            },
        };
        let ghost stored = tasks.deep_view();
        let ghost chosen = self.queue().selection(query@);
        assert forall|j: int| 0 <= j < tasks.len() implies stored[j] == self.queue().tasks()[chosen[j]]
            && self.queue().tasks().contains_key(chosen[j]) by {
            assert(stored[j] == tasks[j]@);
        }
        let mut i: usize = 0;
        while i < tasks.len()
            invariant
                i <= tasks.len(),
                tasks.len() == stored.len(),
                forall|j: int|
                    0 <= j < i ==> (#[trigger] tasks[j])@ == shown(
                        stored[j],
                        self.processing(),
                        self.processing_at(),
                    ),
                forall|j: int| i <= j < tasks.len() ==> (#[trigger] tasks[j])@ == stored[j],
            decreases tasks.len() - i,
        {
            if bitmap_contains(&self.processing_tasks, tasks[i].uid) {
                tasks[i].status = Status::Processing;
                tasks[i].started_at = Some(self.processing_at);
            }
            i += 1;
        }
        Ok(tasks)
    }

    /// The next batch: what the autobatcher makes of the enqueued tasks of
    /// the store, read from the oldest on.
    pub fn create_next_batch(&self) -> (next: Option<Batch>)
        requires
            self.wf(),
        ensures
            exists|tasks: Seq<TaskView>| #[trigger] self.queue().lists_enqueued(tasks),
            forall|tasks: Seq<TaskView>| #[trigger]
                self.queue().lists_enqueued(tasks) ==> is_next_batch(
                    tasks,
                    self.autobatching(),
                    next,
                ),
    {
        let tasks = self.queue.enqueued_tasks();
        let next = autobatch(&tasks, self.autobatching_enabled);
        proof {
            let views = tasks.deep_view();
            assert(self.queue().lists_enqueued(views));
            assert forall|other: Seq<TaskView>| #[trigger]
                self.queue().lists_enqueued(other) implies is_next_batch(
                other,
                self.autobatching(),
                next,
            ) by {
                self.queue.law_enqueued_list_is_unique(other, views);
            }
        }
        next
    }

    /// The first half of a tick, at the given instant: picks the next batch
    /// and marks its tasks as processing, started at this instant. Without
    /// an enqueued task there is no batch and nothing changes.
    pub fn begin_tick_at(&mut self, started_at: OffsetDateTime) -> (next: Option<Batch>)
        requires
            old(self).wf(),
        ensures
            final(self).wf(),
            final(self).queue() == old(self).queue(),
            final(self).autobatching() == old(self).autobatching(),
            final(self).mapper() == old(self).mapper(),
            exists|tasks: Seq<TaskView>| #[trigger] old(self).queue().lists_enqueued(tasks),
            forall|tasks: Seq<TaskView>| #[trigger]
                old(self).queue().lists_enqueued(tasks) ==> is_next_batch(
                    tasks,
                    old(self).autobatching(),
                    next,
                ),
            match next {
                Some(batch) => {
                    &&& final(self).processing() == batch.ids@.to_set()
                    &&& final(self).processing_at() == started_at
                },
                None => {
                    &&& final(self).processing() == old(self).processing()
                    &&& final(self).processing_at() == old(self).processing_at()
                },
            },
    {
        let next = self.create_next_batch();
        if let Some(batch) = &next {
            let mut marked = bitmap_new();
            let mut i: usize = 0;
            while i < batch.ids.len()
                invariant
                    i <= batch.ids.len(),
                    ids(marked) == batch.ids@.take(i as int).to_set(),
                decreases batch.ids.len() - i,
            {
                let ghost before = ids(marked);
                let _ = bitmap_insert(&mut marked, batch.ids[i]);
                proof {
                    let shorter = batch.ids@.take(i as int);
                    let longer = batch.ids@.take(i + 1);
                    assert(longer =~= shorter.push(batch.ids[i as int]));
                    assert forall|uid: TaskId| longer.to_set().contains(uid) <==> before.insert(
                        batch.ids[i as int],
                    ).contains(uid) by {
                        if shorter.contains(uid) {
                            let k = choose|k: int| 0 <= k < shorter.len() && shorter[k] == uid;
                            assert(longer[k] == uid);
                        }
                        if uid == batch.ids[i as int] {
                            assert(longer[i as int] == uid);
                        }
                        if longer.contains(uid) {
                            let k = choose|k: int| 0 <= k < longer.len() && longer[k] == uid;
                            if k < i {
                                assert(shorter[k] == uid);
                            }
                        }
                    }
                    assert(ids(marked) =~= longer.to_set());
                }
                i += 1;
            }
            assert(batch.ids@.take(batch.ids.len() as int) =~= batch.ids@);
            self.processing_tasks = marked;
            self.processing_at = started_at;
        }
        next
    }

    /// The first half of a tick, now: picks the next batch and marks its
    /// tasks as processing. Without an enqueued task there is no batch and
    /// nothing changes.
    pub fn begin_tick(&mut self) -> (next: Option<Batch>)
        requires
            old(self).wf(),
        ensures
            final(self).wf(),
            final(self).queue() == old(self).queue(),
            final(self).autobatching() == old(self).autobatching(),
            final(self).mapper() == old(self).mapper(),
            exists|tasks: Seq<TaskView>| #[trigger] old(self).queue().lists_enqueued(tasks),
            forall|tasks: Seq<TaskView>| #[trigger]
                old(self).queue().lists_enqueued(tasks) ==> is_next_batch(
                    tasks,
                    old(self).autobatching(),
                    next,
                ),
            match next {
                Some(batch) => final(self).processing() == batch.ids@.to_set(),
                None => {
                    &&& final(self).processing() == old(self).processing()
                    &&& final(self).processing_at() == old(self).processing_at()
                },
            },
    {
        let now = now_utc();
        self.begin_tick_at(now)
    }

    /// The records that the second half of a tick writes: the tasks that
    /// the batch processor handed back, stamped with the instants at which
    /// the batch started and finished; or, when the processor failed as a
    /// whole, the stored tasks of the batch, failed with its error.
    pub open spec fn outcome_records(
        &self,
        batch: Batch,
        outcome: Result<Vec<Task>, Error>,
        finished_at: OffsetDateTime,
    ) -> Seq<TaskView> {
        match outcome {
            Ok(tasks) => Seq::new(
                tasks.len() as nat,
                |i: int| stamped(tasks[i]@, self.processing_at(), finished_at),
            ),
            Err(error) => Seq::new(
                batch.ids.len() as nat,
                |i: int|
                    failed(
                        self.queue().tasks()[batch.ids[i]],
                        error@.response(),
                        self.processing_at(),
                        finished_at,
                    ),
            ),
        }
    }

    /// Whether the second half of a tick can record an outcome: when the
    /// processor failed as a whole, every task of the batch has a record;
    /// and each record to write may be written over the stored one.
    pub open spec fn can_record(
        &self,
        batch: Batch,
        outcome: Result<Vec<Task>, Error>,
        finished_at: OffsetDateTime,
    ) -> bool {
        &&& outcome is Err ==> forall|i: int|
            0 <= i < batch.ids.len() ==> self.queue().tasks().contains_key(#[trigger] batch.ids[i])
        &&& writable(self.queue().tasks(), self.outcome_records(batch, outcome, finished_at))
    }

    /// The second half of a tick, at the given instant: records what came of
    /// the batch, and clears the mark on its tasks.
    ///
    /// Each task that the processor handed back is written over its record,
    /// with the instants at which the batch started and finished. When the
    /// processor failed as a whole, every task of the batch fails with its
    /// error. The number of tasks of the batch is returned. When a task to
    /// record cannot be written, nothing is recorded and nothing changes.
    pub fn end_tick_at(
        &mut self,
        batch: &Batch,
        outcome: Result<Vec<Task>, Error>,
        finished_at: OffsetDateTime,
    ) -> (result: Result<usize, Error>)
        requires
            old(self).wf(),
        ensures
            final(self).wf(),
            final(self).autobatching() == old(self).autobatching(),
            final(self).mapper() == old(self).mapper(),
            match result {
                Ok(processed) => {
                    &&& old(self).can_record(*batch, outcome, finished_at)
                    &&& processed == batch.ids.len()
                    &&& final(self).queue().tasks() == written(
                        old(self).queue().tasks(),
                        old(self).outcome_records(*batch, outcome, finished_at),
                    )
                    &&& final(self).queue().next_uid() == old(self).queue().next_uid()
                    &&& final(self).processing() == Set::<TaskId>::empty()
                    &&& final(self).processing_at() == finished_at
                },
                Err(error) => {
                    &&& !old(self).can_record(*batch, outcome, finished_at)
                    &&& error@ == ErrorView::CorruptedTaskQueue
                    &&& *final(self) == *old(self)
                },
            },
    {
        let started_at = self.processing_at;
        let ghost wanted = self.outcome_records(*batch, outcome, finished_at);
        let mut records: Vec<Task> = Vec::new();
        match outcome {
            Ok(tasks) => {
                let mut tasks = tasks;
                let ghost given = tasks.deep_view();
                let mut i: usize = 0;
                while i < tasks.len()
                    invariant
                        i <= tasks.len(),
                        tasks.len() == given.len(),
                        forall|j: int|
                            0 <= j < i ==> (#[trigger] tasks[j])@ == stamped(
                                given[j],
                                started_at,
                                finished_at,
                            ),
                        forall|j: int| i <= j < tasks.len() ==> (#[trigger] tasks[j])@ == given[j],
                    decreases tasks.len() - i,
                {
                    tasks[i].started_at = Some(started_at);
                    tasks[i].finished_at = Some(finished_at);
                    i += 1;
                }
                records = tasks;
                assert(records.deep_view() =~= wanted);
            },
            Err(error) => {
                let response = error.to_response_error();
                let mut i: usize = 0;
                while i < batch.ids.len()
                    invariant
                        i <= batch.ids.len(),
                        self.wf(),
                        *self == *old(self),
                        started_at == self.processing_at(),
                        response@ == error@.response(),
                        outcome == Err::<Vec<Task>, Error>(error),
                        records.len() == i,
                        forall|j: int|
                            0 <= j < i ==> self.queue().tasks().contains_key(#[trigger] batch.ids[j]),
                        forall|j: int|
                            0 <= j < i ==> (#[trigger] records[j])@ == failed(
                                self.queue().tasks()[batch.ids[j]],
                                error@.response(),
                                started_at,
                                finished_at,
                            ),
                    decreases batch.ids.len() - i,
                {
                    match self.queue.get_task(batch.ids[i]) {
                        Some(mut task) => {
                            task.started_at = Some(started_at);
                            task.finished_at = Some(finished_at);
                            task.status = Status::Failed;
                            task.error = Some(response.clone());
                            records.push(task);
                        },
                        None => {
                            assert(!self.queue().tasks().contains_key(batch.ids[i as int]));
                            return Err(Error::CorruptedTaskQueue);
                        },
                    }
                    i += 1;
                }
                assert(records.deep_view() =~= wanted);
            },
        }
        match self.queue.update_all(&records) {
            Ok(()) => {
                self.processing_tasks = bitmap_new();
                self.processing_at = finished_at;
                Ok(batch.ids.len())
            },
            Err(error) => Err(error),
        }
    }

    /// The second half of a tick, now: records what came of the batch, and
    /// clears the mark on its tasks.
    ///
    /// The number of tasks of the batch is returned. When a task to record
    /// cannot be written, which no instant would change, the tick fails:
    /// nothing is recorded and nothing changes.
    pub fn end_tick(&mut self, batch: &Batch, outcome: Result<Vec<Task>, Error>) -> (result: Result<
        usize,
        Error,
    >)
        requires
            old(self).wf(),
        ensures
            final(self).wf(),
            final(self).autobatching() == old(self).autobatching(),
            final(self).mapper() == old(self).mapper(),
            match result {
                Ok(processed) => {
                    &&& old(self).can_record(*batch, outcome, final(self).processing_at())
                    &&& processed == batch.ids.len()
                    &&& final(self).queue().tasks() == written(
                        old(self).queue().tasks(),
                        old(self).outcome_records(*batch, outcome, final(self).processing_at()),
                    )
                    &&& final(self).queue().next_uid() == old(self).queue().next_uid()
                    &&& final(self).processing() == Set::<TaskId>::empty()
                },
                Err(error) => {
                    &&& forall|at: OffsetDateTime|
                        !(#[trigger] old(self).can_record(*batch, outcome, at))
                    &&& error@ == ErrorView::CorruptedTaskQueue
                    &&& *final(self) == *old(self)
                },
            },
    {
        let now = now_utc();
        proof {
            assert forall|at: OffsetDateTime|
                #[trigger] self.can_record(*batch, outcome, at) == self.can_record(
                    *batch,
                    outcome,
                    now,
                ) by {
                self.law_can_record_at_any_instant(*batch, outcome, at, now);
            }
        }
        self.end_tick_at(batch, outcome, now)
    }

    /// Whether an outcome can be recorded does not depend on the instant at
    /// which the batch finished: the instant is written into the records,
    /// and decides nothing.
    pub proof fn law_can_record_at_any_instant(
        &self,
        batch: Batch,
        outcome: Result<Vec<Task>, Error>,
        one: OffsetDateTime,
        other: OffsetDateTime,
    )
        ensures
            self.can_record(batch, outcome, one) == self.can_record(batch, outcome, other),
    {
        let records = self.queue().tasks();
        let first = self.outcome_records(batch, outcome, one);
        let second = self.outcome_records(batch, outcome, other);
        assert(first.len() == second.len());
        assert forall|i: int| 0 <= i < first.len() implies (#[trigger] first[i]).uid == second[i].uid
            && first[i].status == second[i].status && first[i].kind == second[i].kind by {}
        if writable(records, first) {
            assert forall|i: int| 0 <= i < second.len() implies records.contains_key(
                (#[trigger] second[i]).uid,
            ) && rewritable(records[second[i].uid], second[i]) by {
                assert(records.contains_key(first[i].uid));
                assert(rewritable(records[first[i].uid], first[i]));
            }
        }
        if writable(records, second) {
            assert forall|i: int| 0 <= i < first.len() implies records.contains_key(
                (#[trigger] first[i]).uid,
            ) && rewritable(records[first[i].uid], first[i]) by {
                assert(records.contains_key(second[i].uid));
                assert(rewritable(records[second[i].uid], second[i]));
            }
        }
    }

    /// What the loop does after a tick: it looks for the next batch at once
    /// when the tick processed a task, and waits for a signal when it
    /// processed none or failed.
    pub fn wake_after(tick: &Result<usize, Error>) -> (wake: Wake)
        ensures
            wake == match *tick {
                Ok(processed) => if processed == 0 {
                    Wake::Wait
                } else {
                    Wake::Again
                },
                Err(_) => Wake::Wait,
            },
    {
        match tick {
            Ok(processed) => if *processed == 0 {
                Wake::Wait
            } else {
                Wake::Again
            },
            Err(_) => Wake::Wait,
        }
    }

    /// Runs the task deletion with the given uid: deletes, among the tasks
    /// it names, those that have run to their end, and hands back its own
    /// record as it is to be written: succeeded, with the number of tasks
    /// deleted. Tasks that are enqueued or unknown are passed over.
    ///
    /// Nothing changes, and the run fails, when the store has no enqueued
    /// task deletion under this uid.
    pub fn run_task_deletion(&mut self, uid: TaskId) -> (result: Result<Task, Error>)
        requires
            old(self).wf(),
        ensures
            final(self).wf(),
            final(self).processing() == old(self).processing(),
            final(self).processing_at() == old(self).processing_at(),
            final(self).autobatching() == old(self).autobatching(),
            final(self).mapper() == old(self).mapper(),
            match result {
                Ok(task) => {
                    let records = old(self).queue().tasks();
                    &&& records.contains_key(uid)
                    &&& records[uid].kind is DeleteTasks
                    &&& records[uid].status == Status::Enqueued
                    &&& old(self).queue().deletable(records[uid].kind->DeleteTasks_tasks).finite()
                    &&& final(self).queue().tasks() == records.remove_keys(
                        old(self).queue().deletable(records[uid].kind->DeleteTasks_tasks),
                    )
                    &&& task@ == deletion_done(
                        records[uid],
                        old(self).queue().deletable(records[uid].kind->DeleteTasks_tasks).len(),
                    )
                },
                Err(error) => {
                    let records = old(self).queue().tasks();
                    &&& !(records.contains_key(uid) && records[uid].kind is DeleteTasks
                        && records[uid].status == Status::Enqueued)
                    &&& error@ == ErrorView::CorruptedTaskQueue
                    &&& *final(self) == *old(self)
                },
            },
    {
        let mut task = match self.queue.get_task(uid) {
            Some(task) => task,
            None => {
                return Err(Error::CorruptedTaskQueue);
            },
        };
        if task.status != Status::Enqueued {
            return Err(Error::CorruptedTaskQueue);
        }
        let (matched, named, query) = match &task.kind {
            KindWithContent::DeleteTasks { query, tasks } => (
                tasks.len(),
                clone_ids(tasks),
                query.clone(),
            ),
            _ => {
                return Err(Error::CorruptedTaskQueue);
            },
        };
        let deleted = self.queue.delete_tasks(&named);
        task.status = Status::Succeeded;
        task.details = Some(
            Details::DeleteTasks {
                matched_tasks: matched,
                deleted_tasks: Some(deleted),
                original_query: query,
            },
        );
        Ok(task)
    }

    /// Runs the task cancellation with the given uid at the given instant:
    /// cancels, among the tasks it names, those that are enqueued, and hands
    /// back its own record as it is to be written: succeeded, with the
    /// number of tasks cancelled. A cancelled task is recorded as failed,
    /// with the error of a cancellation. Tasks that ran already or are
    /// unknown, and the cancellation itself, are passed over.
    ///
    /// Nothing changes, and the run fails, when the store has no enqueued
    /// task cancellation under this uid.
    pub fn run_task_cancellation(&mut self, uid: TaskId, at: OffsetDateTime) -> (result: Result<
        Task,
        Error,
    >)
        requires
            old(self).wf(),
        ensures
            final(self).wf(),
            final(self).processing() == old(self).processing(),
            final(self).processing_at() == old(self).processing_at(),
            final(self).autobatching() == old(self).autobatching(),
            final(self).mapper() == old(self).mapper(),
            match result {
                Ok(task) => {
                    let records = old(self).queue().tasks();
                    let gone = cancellable(records, records[uid].kind->CancelTask_tasks, uid);
                    &&& records.contains_key(uid)
                    &&& records[uid].kind is CancelTask
                    &&& records[uid].status == Status::Enqueued
                    &&& gone.finite()
                    &&& final(self).queue().tasks() == after_cancellation(records, gone, at)
                    &&& final(self).queue().next_uid() == old(self).queue().next_uid()
                    &&& task@ == cancellation_done(records[uid], gone.len())
                },
                Err(error) => {
                    let records = old(self).queue().tasks();
                    &&& !(records.contains_key(uid) && records[uid].kind is CancelTask
                        && records[uid].status == Status::Enqueued)
                    &&& error@ == ErrorView::CorruptedTaskQueue
                    &&& *final(self) == *old(self)
                },
            },
    {
        let mut task = match self.queue.get_task(uid) {
            Some(task) => task,
            None => {
                return Err(Error::CorruptedTaskQueue);
            },
        };
        if task.status != Status::Enqueued {
            return Err(Error::CorruptedTaskQueue);
        }
        let named = match &task.kind {
            KindWithContent::CancelTask { tasks } => clone_ids(tasks),
            _ => {
                return Err(Error::CorruptedTaskQueue);
            },
        };
        let ghost records = self.queue().tasks();
        let ghost mut gone: Set<TaskId> = Set::empty();
        let mut canceled_tasks: usize = 0;
        let mut i: usize = 0;
        proof {
            assert(gone =~= cancellable(records, named@.take(0), uid));
            assert(self.queue().tasks() =~= after_cancellation(records, gone, at));
        }
        while i < named.len()
            invariant
                i <= named.len(),
                self.queue.wf(),
                self.processing_tasks == old(self).processing_tasks,
                self.processing_at == old(self).processing_at,
                self.autobatching_enabled == old(self).autobatching_enabled,
                self.index_mapper == old(self).index_mapper,
                records == old(self).queue().tasks(),
                gone == cancellable(records, named@.take(i as int), uid),
                gone.finite(),
                gone.len() == canceled_tasks,
                canceled_tasks <= i,
                self.queue().tasks() == after_cancellation(records, gone, at),
                self.queue().next_uid() == old(self).queue().next_uid(),
            decreases named.len() - i,
        {
            let target = named[i];
            let ghost current = self.queue().tasks();
            let mut hit = false;
            if target != uid {
                match self.queue.get_task(target) {
                    Some(found) => {
                        assert(current.contains_key(target) && found@ == current[target]);
                        proof {
                            self.queue.law_uids(target);
                        }
                        if found.status == Status::Enqueued {
                            let mut found = found;
                            found.status = Status::Failed;
                            found.error = Some(ResponseError::canceled());
                            found.finished_at = Some(at);
                            assert(found@ == canceled(current[target], at));
                            let outcome = self.queue.update_task(&found);
                            assert(outcome is Ok);
                            hit = true;
                        }
                    },
                    None => {},
                }
            }
            proof {
                let shorter = named@.take(i as int);
                let longer = named@.take(i + 1);
                assert(longer =~= shorter.push(target));
                assert forall|other: TaskId| longer.contains(other) <==> (shorter.contains(other)
                    || other == target) by {
                    if shorter.contains(other) {
                        let k = choose|k: int| 0 <= k < shorter.len() && shorter[k] == other;
                        assert(longer[k] == other);
                    }
                    if other == target {
                        assert(longer[i as int] == other);
                    }
                    if longer.contains(other) {
                        let k = choose|k: int| 0 <= k < longer.len() && longer[k] == other;
                        if k < i {
                            assert(shorter[k] == other);
                        }
                    }
                }
                if hit {
                    assert(!gone.contains(target));
                    assert(current[target] == records[target]);
                    assert(cancellable(records, longer, uid) =~= gone.insert(target));
                    assert(self.queue().tasks() =~= after_cancellation(
                        records,
                        gone.insert(target),
                        at,
                    ));
                    gone = gone.insert(target);
                } else {
                    assert(cancellable(records, longer, uid) =~= gone);
                }
            }
            if hit {
                canceled_tasks += 1;
            }
            i += 1;
        }
        assert(named@.take(named.len() as int) =~= named@);
        task.status = Status::Succeeded;
        task.details = Some(
            Details::TaskCancelation {
                matched_tasks: named.len(),
                canceled_tasks: Some(canceled_tasks),
            },
        );
        Ok(task)
    }

    /// The storage of the index with this name; `IndexNotFound` when none
    /// exists.
    pub fn index(&self, name: &str) -> (result: Result<Uuid, Error>)
        requires
            self.wf(),
        ensures
            match result {
                Ok(uuid) => self.mapper().indexes().contains_key(name@)
                    && self.mapper().indexes()[name@] == uuid,
                Err(error) => !self.mapper().indexes().contains_key(name@) && error@
                    == ErrorView::IndexNotFound(name@),
            },
    {
        self.index_mapper.index(name)
    }

    /// Every index that exists, once, with its storage.
    pub fn indexes(&self) -> (list: Vec<(String, Uuid)>)
        requires
            self.wf(),
        ensures
            forall|i: int|
                0 <= i < list.len() ==> self.mapper().indexes().contains_key(
                    (#[trigger] list[i]).0@,
                ) && self.mapper().indexes()[list[i].0@] == list[i].1,
            forall|i: int, j: int| 0 <= i < j < list.len() ==> list[i].0@ != list[j].0@,
            forall|name: Seq<char>|
                self.mapper().indexes().contains_key(name) ==> exists|i: int|
                    0 <= i < list.len() && (#[trigger] list[i]).0@ == name,
    {
        self.index_mapper.indexes_list()
    }

    /// Puts another index mapper in the place of the one the scheduler has:
    /// the batch processor takes the mapper, creates, deletes and swaps
    /// indexes on it as the batch asks, and puts it back.
    pub fn replace_index_mapper(&mut self, index_mapper: IndexMapper) -> (former: IndexMapper)
        requires
            old(self).wf(),
            index_mapper.wf(),
        ensures
            final(self).wf(),
            former == old(self).mapper(),
            final(self).mapper() == index_mapper,
            final(self).queue() == old(self).queue(),
            final(self).processing() == old(self).processing(),
            final(self).processing_at() == old(self).processing_at(),
            final(self).autobatching() == old(self).autobatching(),
    {
        let mut incoming = index_mapper;
        std::mem::swap(&mut self.index_mapper, &mut incoming);
        incoming
    }

    /// Runs the index swap with the given uid: the two indexes trade their
    /// storage in the index mapper and their names in the task store, and
    /// the swap hands back its own record as it is to be written:
    /// succeeded. Either both happen or nothing does.
    ///
    /// Nothing changes, and the run fails, when the store has no enqueued
    /// index swap under this uid (`CorruptedTaskQueue`), or when one of the
    /// two indexes does not exist (`IndexNotFound`, with the name that is
    /// missing, the left one if both are).
    pub fn run_index_swap(&mut self, uid: TaskId) -> (result: Result<Task, Error>)
        requires
            old(self).wf(),
        ensures
            final(self).wf(),
            final(self).processing() == old(self).processing(),
            final(self).processing_at() == old(self).processing_at(),
            final(self).autobatching() == old(self).autobatching(),
            match result {
                Ok(task) => {
                    let records = old(self).queue().tasks();
                    let lhs = records[uid].kind->IndexSwap_lhs;
                    let rhs = records[uid].kind->IndexSwap_rhs;
                    let indexes = old(self).mapper().indexes();
                    &&& records.contains_key(uid)
                    &&& records[uid].kind is IndexSwap
                    &&& records[uid].status == Status::Enqueued
                    &&& indexes.contains_key(lhs)
                    &&& indexes.contains_key(rhs)
                    &&& final(self).mapper().indexes() == indexes.insert(lhs, indexes[rhs]).insert(
                        rhs,
                        indexes[lhs],
                    )
                    &&& final(self).queue().tasks() == Map::new(
                        |other: TaskId| records.contains_key(other),
                        |other: TaskId| renamed(records[other], lhs, rhs),
                    )
                    &&& final(self).queue().next_uid() == old(self).queue().next_uid()
                    &&& task@ == (TaskView {
                        status: Status::Succeeded,
                        ..renamed(records[uid], lhs, rhs)
                    })
                },
                Err(error) => {
                    let records = old(self).queue().tasks();
                    let indexes = old(self).mapper().indexes();
                    &&& *final(self) == *old(self)
                    &&& if !(records.contains_key(uid) && records[uid].kind is IndexSwap
                        && records[uid].status == Status::Enqueued) {
                        error@ == ErrorView::CorruptedTaskQueue
                    } else if !indexes.contains_key(records[uid].kind->IndexSwap_lhs) {
                        error@ == ErrorView::IndexNotFound(records[uid].kind->IndexSwap_lhs)
                    } else {
                        !indexes.contains_key(records[uid].kind->IndexSwap_rhs) && error@
                            == ErrorView::IndexNotFound(records[uid].kind->IndexSwap_rhs)
                    }
                },
            },
    {
        let task = match self.queue.get_task(uid) {
            Some(task) => task,
            None => {
                return Err(Error::CorruptedTaskQueue);
            },
        };
        if task.status != Status::Enqueued {
            return Err(Error::CorruptedTaskQueue);
        }
        let (lhs, rhs) = match &task.kind {
            KindWithContent::IndexSwap { lhs, rhs } => (lhs.clone(), rhs.clone()),
            _ => {
                return Err(Error::CorruptedTaskQueue);
            },
        };
        match self.index_mapper.swap(lhs.as_str(), rhs.as_str()) {
            Ok(()) => {},
            Err(error) => {
                return Err(error);
            },
        }
        self.queue.swap_index_tasks(lhs.as_str(), rhs.as_str());
        let Task { uid, enqueued_at, started_at, finished_at, error, details, status: _, kind } =
            task;
        Ok(
            Task {
                uid,
                enqueued_at,
                started_at,
                finished_at,
                error,
                details,
                status: Status::Succeeded,
                kind: kind.swapped(lhs.as_str(), rhs.as_str()),
            },
        )
    }
}

} // verus!
