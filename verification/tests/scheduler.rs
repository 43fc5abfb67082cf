use index_scheduler::autobatcher::{Batch, BatchKind};
use index_scheduler::error::Error;
use index_scheduler::query::Query;
use index_scheduler::scheduler::{IndexScheduler, Wake};
use index_scheduler::tasks::{
    Details, IndexDocumentsMethod, KindWithContent, Kind, Status, Task,
};
use time::OffsetDateTime;
use uuid::Uuid;

fn index_creation_task(index: &'static str, primary_key: &'static str) -> KindWithContent {
    KindWithContent::IndexCreation {
        index_uid: index.to_string(),
        primary_key: Some(primary_key.to_string()),
    }
}

fn replace_document_import_task(
    index: &'static str,
    primary_key: Option<&'static str>,
    content_file_uuid: u128,
    documents_count: u64,
) -> KindWithContent {
    KindWithContent::DocumentImport {
        index_uid: index.to_string(),
        primary_key: primary_key.map(ToOwned::to_owned),
        method: IndexDocumentsMethod::ReplaceDocuments,
        content_file: Uuid::from_u128(content_file_uuid),
        documents_count,
        allow_index_creation: true,
    }
}

fn instant(seconds: i64) -> OffsetDateTime {
    OffsetDateTime::from_unix_timestamp(seconds).unwrap()
}

/// Stands for the batch processor: the work on the queue is done by the
/// scheduler, every other task succeeds.
fn process(scheduler: &mut IndexScheduler, batch: &Batch) -> Result<Vec<Task>, Error> {
    match batch.kind {
        BatchKind::DeleteTasks => Ok(vec![scheduler.run_task_deletion(batch.ids[0])?]),
        BatchKind::CancelTask => {
            Ok(vec![scheduler.run_task_cancellation(batch.ids[0], instant(500))?])
        }
        _ => {
            let mut tasks = Vec::new();
            for uid in &batch.ids {
                let mut task = scheduler.task_queue().get_task(*uid).unwrap();
                task.status = Status::Succeeded;
                tasks.push(task);
            }
            Ok(tasks)
        }
    }
}

fn tick(scheduler: &mut IndexScheduler) -> Result<usize, Error> {
    match scheduler.begin_tick() {
        Some(batch) => {
            let outcome = process(scheduler, &batch);
            scheduler.end_tick(&batch, outcome)
        }
        None => Ok(0),
    }
}

fn ids_of(bitmap: &roaring::RoaringBitmap) -> Vec<u32> {
    bitmap.iter().collect()
}

#[test]
fn register() {
    let mut index_scheduler = IndexScheduler::new(true);

    let kinds = [
        index_creation_task("catto", "mouse"),
        replace_document_import_task("catto", None, 0, 12),
        KindWithContent::CancelTask { tasks: vec![0, 1] },
        replace_document_import_task("catto", None, 1, 50),
        replace_document_import_task("doggo", Some("bone"), 2, 5000),
    ];
    for (idx, kind) in kinds.into_iter().enumerate() {
        let k = kind.as_kind();
        let task = index_scheduler.register(kind).unwrap();

        assert_eq!(task.uid, idx as u32);
        assert_eq!(task.status, Status::Enqueued);
        assert_eq!(task.kind.as_kind(), k);
    }

    let queue = index_scheduler.task_queue();
    assert_eq!(queue.last_task_id(), Some(4));
    assert_eq!(ids_of(&queue.get_status(Status::Enqueued)), vec![0, 1, 2, 3, 4]);
    assert_eq!(ids_of(&queue.get_status(Status::Succeeded)), Vec::<u32>::new());
    assert_eq!(ids_of(&queue.get_index("catto")), vec![0, 1, 3]);
    assert_eq!(ids_of(&queue.get_index("doggo")), vec![4]);
    assert_eq!(ids_of(&queue.get_kind(Kind::CancelTask)), vec![2]);
    assert_eq!(ids_of(&queue.get_kind(Kind::DocumentImport)), vec![1, 3, 4]);
    assert_eq!(ids_of(&queue.get_kind(Kind::IndexCreation)), vec![0]);
    assert_eq!(
        queue.get_task(1).unwrap().details,
        Some(Details::DocumentAddition { received_documents: 12, indexed_documents: Some(0) })
    );
}

#[test]
fn insert_task_while_another_task_is_processing() {
    let mut index_scheduler = IndexScheduler::new(true);

    index_scheduler.register(KindWithContent::Snapshot).unwrap();
    let batch = index_scheduler.begin_tick_at(instant(100)).unwrap();
    assert_eq!(batch.ids, vec![0]);
    assert_eq!(batch.kind, BatchKind::Snapshot);
    // while the task is processing can we register another task?
    index_scheduler.register(KindWithContent::Snapshot).unwrap();
    index_scheduler
        .register(KindWithContent::IndexDeletion { index_uid: "doggos".to_string() })
        .unwrap();

    let mut tasks = index_scheduler.get_tasks(Query::default()).unwrap();
    tasks.reverse();
    assert_eq!(tasks.len(), 3);
    assert_eq!(tasks[0].status, Status::Processing);
    assert_eq!(tasks[0].started_at, Some(instant(100)));
    assert_eq!(tasks[1].status, Status::Enqueued);
    assert_eq!(tasks[2].status, Status::Enqueued);
    assert_eq!(
        ids_of(&index_scheduler.task_queue().get_status(Status::Enqueued)),
        vec![0, 1, 2]
    );
    assert_eq!(ids_of(&index_scheduler.task_queue().get_index("doggos")), vec![2]);
}

#[test]
fn process_tasks_inserted_without_new_signal() {
    let mut index_scheduler = IndexScheduler::new(true);

    index_scheduler
        .register(KindWithContent::IndexCreation {
            index_uid: "doggos".to_string(),
            primary_key: None,
        })
        .unwrap();
    index_scheduler
        .register(KindWithContent::IndexCreation {
            index_uid: "cattos".to_string(),
            primary_key: None,
        })
        .unwrap();
    index_scheduler
        .register(KindWithContent::IndexDeletion { index_uid: "doggos".to_string() })
        .unwrap();

    // one signal: the loop signals itself after each batch that ran
    let mut ticks = 0;
    loop {
        let done = tick(&mut index_scheduler);
        ticks += 1;
        if IndexScheduler::wake_after(&done) == Wake::Wait {
            break;
        }
    }
    assert_eq!(ticks, 4);

    let mut tasks = index_scheduler.get_tasks(Query::default()).unwrap();
    tasks.reverse();
    assert_eq!(tasks.len(), 3);
    assert_eq!(tasks[0].status, Status::Succeeded);
    assert_eq!(tasks[1].status, Status::Succeeded);
    assert_eq!(tasks[2].status, Status::Succeeded);
}

#[test]
fn process_tasks_without_autobatching() {
    let mut index_scheduler = IndexScheduler::new(false);

    index_scheduler
        .register(KindWithContent::IndexCreation {
            index_uid: "doggos".to_string(),
            primary_key: None,
        })
        .unwrap();
    index_scheduler
        .register(KindWithContent::DocumentClear { index_uid: "doggos".to_string() })
        .unwrap();
    index_scheduler
        .register(KindWithContent::DocumentClear { index_uid: "doggos".to_string() })
        .unwrap();
    index_scheduler
        .register(KindWithContent::DocumentClear { index_uid: "doggos".to_string() })
        .unwrap();

    assert_eq!(tick(&mut index_scheduler), Ok(1));
    assert_eq!(tick(&mut index_scheduler), Ok(1));
    assert_eq!(tick(&mut index_scheduler), Ok(1));
    assert_eq!(tick(&mut index_scheduler), Ok(1));
    assert_eq!(tick(&mut index_scheduler), Ok(0));

    let mut tasks = index_scheduler.get_tasks(Query::default()).unwrap();
    tasks.reverse();
    assert_eq!(tasks.len(), 4);
    assert_eq!(tasks[0].status, Status::Succeeded);
    assert_eq!(tasks[1].status, Status::Succeeded);
    assert_eq!(tasks[2].status, Status::Succeeded);
    assert_eq!(tasks[3].status, Status::Succeeded);
}

#[test]
fn process_tasks_with_autobatching() {
    let mut index_scheduler = IndexScheduler::new(true);
    index_scheduler
        .register(KindWithContent::IndexCreation {
            index_uid: "doggos".to_string(),
            primary_key: None,
        })
        .unwrap();
    for _ in 0..3 {
        index_scheduler
            .register(KindWithContent::DocumentClear { index_uid: "doggos".to_string() })
            .unwrap();
    }
    assert_eq!(tick(&mut index_scheduler), Ok(4));
    assert_eq!(tick(&mut index_scheduler), Ok(0));
    assert_eq!(
        ids_of(&index_scheduler.task_queue().get_status(Status::Succeeded)),
        vec![0, 1, 2, 3]
    );
}

#[test]
fn task_deletion_undeleteable() {
    let mut index_scheduler = IndexScheduler::new(true);

    let to_enqueue = [
        index_creation_task("catto", "mouse"),
        replace_document_import_task("catto", None, 0, 12),
        replace_document_import_task("doggo", Some("bone"), 1, 5000),
    ];
    for task in to_enqueue {
        let _ = index_scheduler.register(task).unwrap();
    }

    // here we have registered all the tasks, but the index scheduler
    // has not progressed at all
    assert_eq!(
        ids_of(&index_scheduler.task_queue().get_status(Status::Enqueued)),
        vec![0, 1, 2]
    );

    index_scheduler
        .register(KindWithContent::DeleteTasks {
            query: "test_query".to_owned(),
            tasks: vec![0, 1],
        })
        .unwrap();

    // again, no progress made at all, but one more task is registered
    assert_eq!(
        ids_of(&index_scheduler.task_queue().get_status(Status::Enqueued)),
        vec![0, 1, 2, 3]
    );
    assert_eq!(
        index_scheduler.task_queue().get_task(3).unwrap().details,
        Some(Details::DeleteTasks {
            matched_tasks: 2,
            deleted_tasks: None,
            original_query: "test_query".to_owned()
        })
    );

    // the task deletion runs while the tasks that it names are still enqueued
    let batch = Batch { kind: BatchKind::DeleteTasks, ids: vec![3] };
    let outcome = process(&mut index_scheduler, &batch);
    assert_eq!(index_scheduler.end_tick(&batch, outcome), Ok(1));

    // after the task deletion is processed, no task should actually have been deleted,
    // because the tasks with ids 0 and 1 were still "enqueued", and thus undeleteable
    // the "task deletion" task should be marked as "succeeded" and, in its details, the
    // number of deleted tasks should be 0
    let queue = index_scheduler.task_queue();
    assert_eq!(queue.get_task(0).unwrap().status, Status::Enqueued);
    assert_eq!(queue.get_task(1).unwrap().status, Status::Enqueued);
    assert_eq!(queue.get_task(2).unwrap().status, Status::Enqueued);
    let deletion = queue.get_task(3).unwrap();
    assert_eq!(deletion.status, Status::Succeeded);
    assert_eq!(
        deletion.details,
        Some(Details::DeleteTasks {
            matched_tasks: 2,
            deleted_tasks: Some(0),
            original_query: "test_query".to_owned()
        })
    );
    assert_eq!(ids_of(&queue.get_status(Status::Enqueued)), vec![0, 1, 2]);
    assert_eq!(ids_of(&queue.get_status(Status::Succeeded)), vec![3]);
}

#[test]
fn task_deletion_deleteable() {
    let mut index_scheduler = IndexScheduler::new(true);

    let to_enqueue = [
        replace_document_import_task("catto", None, 0, 1),
        replace_document_import_task("doggo", Some("bone"), 1, 1),
    ];

    for task in to_enqueue {
        let _ = index_scheduler.register(task).unwrap();
    }

    assert_eq!(
        ids_of(&index_scheduler.task_queue().get_status(Status::Enqueued)),
        vec![0, 1]
    );

    // first addition of documents should be successful: only the first task,
    // because the second one operates on a different index
    assert_eq!(tick(&mut index_scheduler), Ok(1));
    assert_eq!(index_scheduler.task_queue().get_task(0).unwrap().status, Status::Succeeded);
    assert_eq!(index_scheduler.task_queue().get_task(1).unwrap().status, Status::Enqueued);

    // Now we delete the first task
    index_scheduler
        .register(KindWithContent::DeleteTasks {
            query: "test_query".to_owned(),
            tasks: vec![0],
        })
        .unwrap();

    // the second addition of documents is older than the deletion, and runs before it
    assert_eq!(tick(&mut index_scheduler), Ok(1));
    assert_eq!(index_scheduler.task_queue().get_task(1).unwrap().status, Status::Succeeded);
    assert_eq!(index_scheduler.task_queue().get_task(0).unwrap().status, Status::Succeeded);

    assert_eq!(tick(&mut index_scheduler), Ok(1));
    let queue = index_scheduler.task_queue();
    assert_eq!(queue.get_task(0), None);
    assert_eq!(ids_of(&queue.get_status(Status::Succeeded)), vec![1, 2]);
    assert_eq!(ids_of(&queue.get_status(Status::Enqueued)), Vec::<u32>::new());
    assert_eq!(ids_of(&queue.get_kind(Kind::DocumentImport)), vec![1]);
    assert_eq!(ids_of(&queue.get_index("catto")), Vec::<u32>::new());
    assert_eq!(ids_of(&queue.get_index("doggo")), vec![1]);
    assert_eq!(
        queue.get_task(2).unwrap().details,
        Some(Details::DeleteTasks {
            matched_tasks: 1,
            deleted_tasks: Some(1),
            original_query: "test_query".to_owned()
        })
    );
    // the uid of the deleted task is not given again
    assert_eq!(queue.next_task_id(), Some(3));
}

#[test]
fn document_addition() {
    let mut index_scheduler = IndexScheduler::new(true);

    let uuid = Uuid::from_u128(0);
    let documents_count = 1;
    index_scheduler
        .register(KindWithContent::DocumentImport {
            index_uid: "doggos".to_string(),
            primary_key: Some("id".to_string()),
            method: IndexDocumentsMethod::ReplaceDocuments,
            content_file: uuid,
            documents_count,
            allow_index_creation: true,
        })
        .unwrap();

    let stored = index_scheduler.task_queue().get_task(0).unwrap();
    assert_eq!(stored.status, Status::Enqueued);
    assert_eq!(stored.content_uuid(), Some(&uuid));
    assert_eq!(stored.index_uid(), Some("doggos"));

    let batch = index_scheduler.begin_tick_at(instant(7)).unwrap();
    assert_eq!(
        batch.kind,
        BatchKind::DocumentImport {
            index_uid: "doggos".to_string(),
            method: IndexDocumentsMethod::ReplaceDocuments
        }
    );
    let shown = index_scheduler.get_tasks(Query::default()).unwrap();
    assert_eq!(shown.len(), 1);
    assert_eq!(shown[0].status, Status::Processing);
    assert_eq!(shown[0].started_at, Some(instant(7)));
    assert_eq!(index_scheduler.task_queue().get_task(0).unwrap().status, Status::Enqueued);

    let mut done = index_scheduler.task_queue().get_task(0).unwrap();
    done.status = Status::Succeeded;
    done.details =
        Some(Details::DocumentAddition { received_documents: 1, indexed_documents: Some(1) });
    assert_eq!(index_scheduler.end_tick_at(&batch, Ok(vec![done]), instant(9)), Ok(1));

    let shown = index_scheduler.get_tasks(Query::default()).unwrap();
    assert_eq!(shown[0].status, Status::Succeeded);
    assert_eq!(shown[0].started_at, Some(instant(7)));
    assert_eq!(shown[0].finished_at, Some(instant(9)));
    assert_eq!(
        shown[0].details,
        Some(Details::DocumentAddition { received_documents: 1, indexed_documents: Some(1) })
    );
    let (at, processing) = index_scheduler.processing_tasks();
    assert_eq!(at, instant(9));
    assert!(processing.is_empty());
}

#[test]
fn simple_new() {
    let scheduler = IndexScheduler::new(true);
    assert_eq!(scheduler.get_tasks(Query::default()), Ok(vec![]));
    assert_eq!(scheduler.task_queue().next_task_id(), Some(0));
}

#[test]
fn batch_that_failed_as_a_whole_fails_every_task() {
    let mut scheduler = IndexScheduler::new(true);
    scheduler.register(replace_document_import_task("catto", None, 0, 3)).unwrap();
    scheduler.register(replace_document_import_task("catto", None, 1, 4)).unwrap();
    let batch = scheduler.begin_tick_at(instant(10)).unwrap();
    assert_eq!(batch.ids, vec![0, 1]);
    let failure = Error::BatchExecutionError("disk is full".to_string());
    assert_eq!(scheduler.end_tick_at(&batch, Err(failure), instant(20)), Ok(2));
    for uid in 0..2 {
        let task = scheduler.task_queue().get_task(uid).unwrap();
        assert_eq!(task.status, Status::Failed);
        assert_eq!(task.started_at, Some(instant(10)));
        assert_eq!(task.finished_at, Some(instant(20)));
        let error = task.error.unwrap();
        assert_eq!(error.message, "disk is full");
        assert_eq!(error.error_code, "internal");
        assert_eq!(error.error_type, "internal");
        assert_eq!(error.error_link, "https://docs.meilisearch.com/errors#internal");
    }
    assert_eq!(ids_of(&scheduler.task_queue().get_status(Status::Failed)), vec![0, 1]);
    assert_eq!(ids_of(&scheduler.task_queue().get_status(Status::Enqueued)), Vec::<u32>::new());
}

#[test]
fn outcome_that_cannot_be_recorded_changes_nothing() {
    let mut scheduler = IndexScheduler::new(true);
    scheduler.register(KindWithContent::Snapshot).unwrap();
    let batch = scheduler.begin_tick_at(instant(1)).unwrap();
    let mut stranger = scheduler.task_queue().get_task(0).unwrap();
    stranger.uid = 17;
    stranger.status = Status::Succeeded;
    assert_eq!(
        scheduler.end_tick_at(&batch, Ok(vec![stranger]), instant(2)),
        Err(Error::CorruptedTaskQueue)
    );
    assert_eq!(scheduler.task_queue().get_task(0).unwrap().status, Status::Enqueued);
    let (at, processing) = scheduler.processing_tasks();
    assert_eq!(at, instant(1));
    assert_eq!(ids_of(&processing), vec![0]);

    let mut still_processing = scheduler.task_queue().get_task(0).unwrap();
    still_processing.status = Status::Processing;
    assert_eq!(
        scheduler.end_tick_at(&batch, Ok(vec![still_processing]), instant(2)),
        Err(Error::CorruptedTaskQueue)
    );
}

#[test]
fn cancellation_fails_the_enqueued_tasks_it_names() {
    let mut scheduler = IndexScheduler::new(true);
    scheduler.register(replace_document_import_task("catto", None, 0, 3)).unwrap();
    assert_eq!(tick(&mut scheduler), Ok(1));
    scheduler.register(replace_document_import_task("catto", None, 1, 4)).unwrap();
    scheduler.register(replace_document_import_task("doggo", None, 2, 5)).unwrap();
    scheduler
        .register(KindWithContent::DeleteTasks { query: "q".to_string(), tasks: vec![0] })
        .unwrap();
    scheduler.register(KindWithContent::CancelTask { tasks: vec![0, 1, 4, 9, 1] }).unwrap();

    // the cancellation runs while task 1 is still enqueued
    let batch = Batch { kind: BatchKind::CancelTask, ids: vec![4] };
    let outcome = process(&mut scheduler, &batch);
    assert_eq!(scheduler.end_tick(&batch, outcome), Ok(1));

    let queue = scheduler.task_queue();
    // task 0 ran already, task 1 was enqueued, task 4 is the cancellation, task 9 is unknown
    assert_eq!(queue.get_task(0).unwrap().status, Status::Succeeded);
    let canceled = queue.get_task(1).unwrap();
    assert_eq!(canceled.status, Status::Failed);
    assert_eq!(canceled.finished_at, Some(instant(500)));
    assert_eq!(canceled.error.unwrap().error_code, "task_canceled");
    assert_eq!(queue.get_task(2).unwrap().status, Status::Enqueued);
    let cancellation = queue.get_task(4).unwrap();
    assert_eq!(cancellation.status, Status::Succeeded);
    assert_eq!(
        cancellation.details,
        Some(Details::TaskCancelation { matched_tasks: 5, canceled_tasks: Some(1) })
    );

    // the tasks that are left run from the oldest on: the import, then the deletion
    let batch = scheduler.begin_tick().unwrap();
    assert_eq!(batch.ids, vec![2]);
    let outcome = process(&mut scheduler, &batch);
    assert_eq!(scheduler.end_tick(&batch, outcome), Ok(1));
    let batch = scheduler.begin_tick().unwrap();
    assert_eq!(batch.kind, BatchKind::DeleteTasks);
    assert_eq!(batch.ids, vec![3]);
    let outcome = process(&mut scheduler, &batch);
    assert_eq!(scheduler.end_tick(&batch, outcome), Ok(1));
    assert_eq!(scheduler.task_queue().get_task(0), None);
    assert_eq!(scheduler.begin_tick(), None);
}

#[test]
fn batches_go_in_the_order_of_the_uids() {
    for autobatching in [true, false] {
        let mut scheduler = IndexScheduler::new(autobatching);
        scheduler
            .register(KindWithContent::DocumentClear { index_uid: "doggos".to_string() })
            .unwrap();
        scheduler
            .register(KindWithContent::DeleteTasks { query: "q".to_string(), tasks: vec![0] })
            .unwrap();
        scheduler.register(KindWithContent::CancelTask { tasks: vec![0] }).unwrap();
        scheduler
            .register(KindWithContent::DocumentClear { index_uid: "doggos".to_string() })
            .unwrap();

        // the oldest enqueued task runs first, whatever waits behind it
        let batch = scheduler.begin_tick().unwrap();
        assert_eq!(batch.kind, BatchKind::DocumentClear { index_uid: "doggos".to_string() });
        assert_eq!(batch.ids, vec![0]);
        let outcome = process(&mut scheduler, &batch);
        assert_eq!(scheduler.end_tick(&batch, outcome), Ok(1));

        // then the deletion, which finds that task 0 ran, and deletes it
        let batch = scheduler.begin_tick().unwrap();
        assert_eq!(batch.kind, BatchKind::DeleteTasks);
        assert_eq!(batch.ids, vec![1]);
        let outcome = process(&mut scheduler, &batch);
        assert_eq!(scheduler.end_tick(&batch, outcome), Ok(1));
        assert_eq!(scheduler.task_queue().get_task(0), None);

        // then the cancellation, which finds nothing to cancel
        let batch = scheduler.begin_tick().unwrap();
        assert_eq!(batch.kind, BatchKind::CancelTask);
        assert_eq!(batch.ids, vec![2]);
        let outcome = process(&mut scheduler, &batch);
        assert_eq!(scheduler.end_tick(&batch, outcome), Ok(1));
        assert_eq!(
            scheduler.task_queue().get_task(2).unwrap().details,
            Some(Details::TaskCancelation { matched_tasks: 1, canceled_tasks: Some(0) })
        );

        let batch = scheduler.begin_tick().unwrap();
        assert_eq!(batch.ids, vec![3]);
    }
}

#[test]
fn running_a_deletion_or_cancellation_under_a_wrong_uid_fails() {
    let mut scheduler = IndexScheduler::new(true);
    scheduler.register(KindWithContent::Snapshot).unwrap();
    assert_eq!(scheduler.run_task_deletion(0), Err(Error::CorruptedTaskQueue));
    assert_eq!(scheduler.run_task_deletion(5), Err(Error::CorruptedTaskQueue));
    assert_eq!(scheduler.run_task_cancellation(0, instant(1)), Err(Error::CorruptedTaskQueue));
    assert_eq!(scheduler.task_queue().get_task(0).unwrap().status, Status::Enqueued);
}

#[test]
fn wake_after_a_tick() {
    assert_eq!(IndexScheduler::wake_after(&Ok(0)), Wake::Wait);
    assert_eq!(IndexScheduler::wake_after(&Ok(1)), Wake::Again);
    assert_eq!(IndexScheduler::wake_after(&Ok(12)), Wake::Again);
    assert_eq!(IndexScheduler::wake_after(&Err(Error::CorruptedTaskQueue)), Wake::Wait);
}

#[test]
fn indexes_of_the_scheduler() {
    let mut scheduler = IndexScheduler::new(true);
    assert_eq!(scheduler.index("doggos"), Err(Error::IndexNotFound("doggos".to_string())));
    assert_eq!(scheduler.indexes(), vec![]);
    let mut mapper = index_scheduler::index_mapper::IndexMapper::new();
    mapper.create_index_with("doggos", Uuid::from_u128(3)).unwrap();
    let former = scheduler.replace_index_mapper(mapper);
    assert_eq!(former.indexes_list(), vec![]);
    assert_eq!(scheduler.index("doggos"), Ok(Uuid::from_u128(3)));
    assert_eq!(scheduler.indexes(), vec![("doggos".to_string(), Uuid::from_u128(3))]);
}

#[test]
fn index_swap_trades_storage_and_tasks_or_nothing() {
    let mut scheduler = IndexScheduler::new(true);
    let mut mapper = index_scheduler::index_mapper::IndexMapper::new();
    mapper.create_index_with("doggos", Uuid::from_u128(1)).unwrap();
    mapper.create_index_with("cattos", Uuid::from_u128(2)).unwrap();
    scheduler.replace_index_mapper(mapper);
    scheduler.register(replace_document_import_task("doggos", None, 0, 3)).unwrap();
    scheduler
        .register(KindWithContent::IndexSwap { lhs: "doggos".to_string(), rhs: "birdos".to_string() })
        .unwrap();
    scheduler
        .register(KindWithContent::IndexSwap { lhs: "doggos".to_string(), rhs: "cattos".to_string() })
        .unwrap();

    // not a swap, unknown uid
    assert_eq!(scheduler.run_index_swap(0), Err(Error::CorruptedTaskQueue));
    assert_eq!(scheduler.run_index_swap(9), Err(Error::CorruptedTaskQueue));
    // an index is missing: nothing changes
    assert_eq!(scheduler.run_index_swap(1), Err(Error::IndexNotFound("birdos".to_string())));
    assert_eq!(scheduler.index("doggos"), Ok(Uuid::from_u128(1)));
    assert_eq!(ids_of(&scheduler.task_queue().get_index("doggos")), vec![0, 1, 2]);

    let done = scheduler.run_index_swap(2).unwrap();
    assert_eq!(done.status, Status::Succeeded);
    assert_eq!(
        done.kind,
        KindWithContent::IndexSwap { lhs: "cattos".to_string(), rhs: "doggos".to_string() }
    );
    assert_eq!(scheduler.index("doggos"), Ok(Uuid::from_u128(2)));
    assert_eq!(scheduler.index("cattos"), Ok(Uuid::from_u128(1)));
    assert_eq!(ids_of(&scheduler.task_queue().get_index("cattos")), vec![0, 1, 2]);
    assert_eq!(ids_of(&scheduler.task_queue().get_index("doggos")), vec![2]);
    assert_eq!(ids_of(&scheduler.task_queue().get_index("birdos")), vec![1]);
    assert_eq!(scheduler.task_queue().get_task(0).unwrap().index_uid(), Some("cattos"));
    assert_eq!(scheduler.task_queue().get_task(2).unwrap().status, Status::Enqueued);
    // the record that the swap hands back can be written
    assert!(scheduler.task_queue().can_update(&done));
}
