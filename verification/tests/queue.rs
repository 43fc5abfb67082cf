use index_scheduler::error::Error;
use index_scheduler::query::Query;
use index_scheduler::queue::TaskQueue;
use index_scheduler::tasks::{
    Details, IndexDocumentsMethod, Kind, KindWithContent, Status, Task,
};
use roaring::RoaringBitmap;
use time::OffsetDateTime;
use uuid::Uuid;

fn import(index: &str, file: u128) -> KindWithContent {
    KindWithContent::DocumentImport {
        index_uid: index.to_string(),
        primary_key: None,
        method: IndexDocumentsMethod::ReplaceDocuments,
        content_file: Uuid::from_u128(file),
        documents_count: 10,
        allow_index_creation: true,
    }
}

fn at(seconds: i64) -> OffsetDateTime {
    OffsetDateTime::from_unix_timestamp(seconds).unwrap()
}

fn ids_of(bitmap: &RoaringBitmap) -> Vec<u32> {
    bitmap.iter().collect()
}

fn uids(tasks: &[Task]) -> Vec<u32> {
    tasks.iter().map(|task| task.uid).collect()
}

/// Ten tasks: imports on `catto` at the even uids, clears on `doggo` at the
/// odd ones but for 5, which swaps the two indexes, and 7, a snapshot.
fn filled() -> TaskQueue {
    let mut queue = TaskQueue::new();
    for uid in 0..10u32 {
        let kind = if uid == 5 {
            KindWithContent::IndexSwap { lhs: "catto".to_string(), rhs: "doggo".to_string() }
        } else if uid == 7 {
            KindWithContent::Snapshot
        } else if uid % 2 == 0 {
            import("catto", uid as u128)
        } else {
            KindWithContent::DocumentClear { index_uid: "doggo".to_string() }
        };
        let task = queue.register(kind, at(uid as i64)).unwrap();
        assert_eq!(task.uid, uid);
    }
    queue
}

fn finish(queue: &mut TaskQueue, uid: u32, status: Status) {
    let mut task = queue.get_task(uid).unwrap();
    task.status = status;
    task.finished_at = Some(at(1000));
    queue.update_task(&task).unwrap();
}

#[test]
fn new_queue_is_empty() {
    let queue = TaskQueue::new();
    assert_eq!(queue.last_task_id(), None);
    assert_eq!(queue.next_task_id(), Some(0));
    assert_eq!(queue.get_task(0), None);
    assert_eq!(queue.select(&Query::default()), Ok(vec![]));
    assert_eq!(queue.enqueued(), Vec::<u32>::new());
    assert_eq!(ids_of(&queue.get_index("catto")), Vec::<u32>::new());
}

#[test]
fn registered_task_is_enqueued_with_default_details() {
    let mut queue = TaskQueue::new();
    let task = queue.register(import("catto", 3), at(42)).unwrap();
    assert_eq!(
        task,
        Task {
            uid: 0,
            enqueued_at: at(42),
            started_at: None,
            finished_at: None,
            error: None,
            details: Some(Details::DocumentAddition {
                received_documents: 10,
                indexed_documents: Some(0)
            }),
            status: Status::Enqueued,
            kind: import("catto", 3),
        }
    );
    assert_eq!(queue.get_task(0), Some(task));
    assert_eq!(queue.next_task_id(), Some(1));
    assert_eq!(queue.last_task_id(), Some(0));
}

#[test]
fn tables_list_each_task_under_its_keys() {
    let queue = filled();
    assert_eq!(ids_of(&queue.get_status(Status::Enqueued)), (0..10).collect::<Vec<u32>>());
    assert_eq!(ids_of(&queue.get_status(Status::Processing)), Vec::<u32>::new());
    assert_eq!(ids_of(&queue.get_kind(Kind::DocumentImport)), vec![0, 2, 4, 6, 8]);
    assert_eq!(ids_of(&queue.get_kind(Kind::DocumentClear)), vec![1, 3, 9]);
    assert_eq!(ids_of(&queue.get_kind(Kind::IndexSwap)), vec![5]);
    assert_eq!(ids_of(&queue.get_kind(Kind::Snapshot)), vec![7]);
    assert_eq!(ids_of(&queue.get_index("catto")), vec![0, 2, 4, 5, 6, 8]);
    assert_eq!(ids_of(&queue.get_index("doggo")), vec![1, 3, 5, 9]);
    assert_eq!(ids_of(&queue.get_index("birdo")), Vec::<u32>::new());
    assert_eq!(queue.enqueued(), (0..10).collect::<Vec<u32>>());
    // every stored task is under its status and its kind, and under no other
    for uid in 0..10 {
        let task = queue.get_task(uid).unwrap();
        for status in [Status::Enqueued, Status::Processing, Status::Succeeded, Status::Failed] {
            assert_eq!(queue.get_status(status).contains(uid), task.status == status);
        }
        assert!(queue.get_kind(task.kind.as_kind()).contains(uid));
        for name in ["catto", "doggo", "birdo"] {
            let touches = task.indexes().map_or(false, |names| names.contains(&name));
            assert_eq!(queue.get_index(name).contains(uid), touches);
        }
    }
}

#[test]
fn swap_on_one_index_is_listed_once() {
    let mut queue = TaskQueue::new();
    queue
        .register(
            KindWithContent::IndexSwap { lhs: "a".to_string(), rhs: "a".to_string() },
            at(0),
        )
        .unwrap();
    assert_eq!(ids_of(&queue.get_index("a")), vec![0]);
}

#[test]
fn update_moves_the_task_between_the_status_sets() {
    let mut queue = filled();
    finish(&mut queue, 2, Status::Succeeded);
    finish(&mut queue, 3, Status::Failed);
    assert_eq!(ids_of(&queue.get_status(Status::Enqueued)), vec![0, 1, 4, 5, 6, 7, 8, 9]);
    assert_eq!(ids_of(&queue.get_status(Status::Succeeded)), vec![2]);
    assert_eq!(ids_of(&queue.get_status(Status::Failed)), vec![3]);
    assert_eq!(queue.get_task(2).unwrap().finished_at, Some(at(1000)));
    assert_eq!(queue.enqueued(), vec![0, 1, 4, 5, 6, 7, 8, 9]);
    // back again
    finish(&mut queue, 2, Status::Enqueued);
    assert_eq!(ids_of(&queue.get_status(Status::Succeeded)), Vec::<u32>::new());
    assert_eq!(queue.next_task_id(), Some(10));
}

#[test]
fn update_moves_the_task_between_the_kind_sets() {
    let mut queue = filled();
    let mut task = queue.get_task(1).unwrap();
    task.kind = KindWithContent::IndexDeletion { index_uid: "doggo".to_string() };
    assert!(queue.can_update(&task));
    assert_eq!(queue.update_task(&task), Ok(()));
    assert_eq!(ids_of(&queue.get_kind(Kind::DocumentClear)), vec![3, 9]);
    assert_eq!(ids_of(&queue.get_kind(Kind::IndexDeletion)), vec![1]);
    assert_eq!(ids_of(&queue.get_index("doggo")), vec![1, 3, 5, 9]);
}

#[test]
fn update_is_refused_and_changes_nothing() {
    let mut queue = filled();
    // no record
    let mut unknown = queue.get_task(1).unwrap();
    unknown.uid = 10;
    assert!(!queue.can_update(&unknown));
    assert_eq!(queue.update_task(&unknown), Err(Error::CorruptedTaskQueue));
    // processing is never stored
    let mut processing = queue.get_task(1).unwrap();
    processing.status = Status::Processing;
    assert!(!queue.can_update(&processing));
    assert_eq!(queue.update_task(&processing), Err(Error::CorruptedTaskQueue));
    // the indexes of a task are fixed
    let mut moved = queue.get_task(1).unwrap();
    moved.kind = KindWithContent::DocumentClear { index_uid: "catto".to_string() };
    assert_eq!(queue.update_task(&moved), Err(Error::CorruptedTaskQueue));
    let mut turned = queue.get_task(5).unwrap();
    turned.kind = KindWithContent::IndexSwap { lhs: "doggo".to_string(), rhs: "catto".to_string() };
    assert_eq!(queue.update_task(&turned), Err(Error::CorruptedTaskQueue));
    let mut unbound = queue.get_task(1).unwrap();
    unbound.kind = KindWithContent::Snapshot;
    assert_eq!(queue.update_task(&unbound), Err(Error::CorruptedTaskQueue));

    for uid in 0..10u32 {
        assert_eq!(queue.get_task(uid).unwrap().status, Status::Enqueued);
    }
    assert_eq!(ids_of(&queue.get_index("catto")), vec![0, 2, 4, 5, 6, 8]);
    assert_eq!(ids_of(&queue.get_index("doggo")), vec![1, 3, 5, 9]);
    assert_eq!(ids_of(&queue.get_kind(Kind::DocumentClear)), vec![1, 3, 9]);
}

#[test]
fn update_all_is_all_or_nothing() {
    let mut queue = filled();
    let mut first = queue.get_task(0).unwrap();
    first.status = Status::Succeeded;
    let mut second = queue.get_task(2).unwrap();
    second.status = Status::Failed;
    let mut stranger = queue.get_task(4).unwrap();
    stranger.uid = 44;
    assert_eq!(
        queue.update_all(&vec![first.clone(), stranger, second.clone()]),
        Err(Error::CorruptedTaskQueue)
    );
    assert_eq!(queue.get_task(0).unwrap().status, Status::Enqueued);
    assert_eq!(queue.get_task(2).unwrap().status, Status::Enqueued);

    let mut again = first.clone();
    again.status = Status::Failed;
    assert_eq!(queue.update_all(&vec![first, second, again]), Ok(()));
    // the later record of a uid wins
    assert_eq!(queue.get_task(0).unwrap().status, Status::Failed);
    assert_eq!(queue.get_task(2).unwrap().status, Status::Failed);
    assert_eq!(ids_of(&queue.get_status(Status::Failed)), vec![0, 2]);
    assert_eq!(ids_of(&queue.get_status(Status::Succeeded)), Vec::<u32>::new());
}

#[test]
fn delete_takes_only_the_tasks_that_ran() {
    let mut queue = filled();
    finish(&mut queue, 2, Status::Succeeded);
    finish(&mut queue, 5, Status::Failed);
    // 2 and 5 ran; 3 is enqueued; 40 is unknown; 2 is named twice
    assert_eq!(queue.delete_tasks(&vec![2, 3, 5, 40, 2]), 2);
    assert_eq!(queue.get_task(2), None);
    assert_eq!(queue.get_task(5), None);
    assert_eq!(queue.get_task(3).unwrap().status, Status::Enqueued);
    assert_eq!(ids_of(&queue.get_status(Status::Succeeded)), Vec::<u32>::new());
    assert_eq!(ids_of(&queue.get_status(Status::Failed)), Vec::<u32>::new());
    assert_eq!(ids_of(&queue.get_status(Status::Enqueued)), vec![0, 1, 3, 4, 6, 7, 8, 9]);
    assert_eq!(ids_of(&queue.get_kind(Kind::DocumentImport)), vec![0, 4, 6, 8]);
    assert_eq!(ids_of(&queue.get_kind(Kind::IndexSwap)), Vec::<u32>::new());
    assert_eq!(ids_of(&queue.get_index("catto")), vec![0, 4, 6, 8]);
    assert_eq!(ids_of(&queue.get_index("doggo")), vec![1, 3, 9]);
    assert_eq!(queue.next_task_id(), Some(10));
    // deleting again finds nothing
    assert_eq!(queue.delete_tasks(&vec![2, 5]), 0);
}

#[test]
fn next_uid_follows_the_greatest_uid_left() {
    let mut queue = filled();
    finish(&mut queue, 9, Status::Succeeded);
    finish(&mut queue, 8, Status::Failed);
    finish(&mut queue, 6, Status::Succeeded);
    assert_eq!(queue.delete_tasks(&vec![9, 8]), 2);
    assert_eq!(queue.last_task_id(), Some(7));
    assert_eq!(queue.next_task_id(), Some(8));
    let task = queue.register(KindWithContent::Snapshot, at(0)).unwrap();
    assert_eq!(task.uid, 8);
    assert_eq!(ids_of(&queue.get_kind(Kind::Snapshot)), vec![7, 8]);
    assert_eq!(ids_of(&queue.get_kind(Kind::DocumentImport)), vec![0, 2, 4, 6]);
}

#[test]
fn deleting_every_task_empties_the_queue() {
    let mut queue = TaskQueue::new();
    queue.register(KindWithContent::Snapshot, at(0)).unwrap();
    queue.register(KindWithContent::Snapshot, at(0)).unwrap();
    finish(&mut queue, 0, Status::Succeeded);
    finish(&mut queue, 1, Status::Succeeded);
    assert_eq!(queue.delete_tasks(&vec![0, 1]), 2);
    assert_eq!(queue.last_task_id(), None);
    assert_eq!(queue.select(&Query::default()), Ok(vec![]));
}

#[test]
fn select_lists_the_greatest_uids_first_up_to_the_limit() {
    let queue = filled();
    let all = queue.select(&Query::default()).unwrap();
    assert_eq!(uids(&all), vec![9, 8, 7, 6, 5, 4, 3, 2, 1, 0]);
    let three = queue.select(&Query::default().with_limit(3)).unwrap();
    assert_eq!(uids(&three), vec![9, 8, 7]);
    assert_eq!(three[0], queue.get_task(9).unwrap());
    assert_eq!(queue.select(&Query::default().with_limit(0)), Ok(vec![]));
}

#[test]
fn default_limit_is_twenty() {
    let mut queue = TaskQueue::new();
    for _ in 0..25 {
        queue.register(KindWithContent::Snapshot, at(0)).unwrap();
    }
    let listed = queue.select(&Query::default()).unwrap();
    assert_eq!(uids(&listed), (5..25).rev().collect::<Vec<u32>>());
}

#[test]
fn select_from_caps_the_uids() {
    let queue = filled();
    let query = Query { from: Some(4), ..Query::default() };
    assert_eq!(uids(&queue.select(&query).unwrap()), vec![4, 3, 2, 1, 0]);
    let query = Query { from: Some(400), ..Query::default() };
    assert_eq!(uids(&queue.select(&query).unwrap()).len(), 10);
    let query = Query { from: Some(0), ..Query::default() };
    assert_eq!(uids(&queue.select(&query).unwrap()), vec![0]);
}

#[test]
fn select_by_each_filter() {
    let mut queue = filled();
    finish(&mut queue, 2, Status::Succeeded);
    finish(&mut queue, 3, Status::Failed);
    finish(&mut queue, 4, Status::Succeeded);

    let by_status = Query::default().with_status(Status::Succeeded);
    assert_eq!(uids(&queue.select(&by_status).unwrap()), vec![4, 2]);
    let by_statuses = Query::default().with_status(Status::Succeeded).with_status(Status::Failed);
    assert_eq!(uids(&queue.select(&by_statuses).unwrap()), vec![4, 3, 2]);
    let by_kind = Query::default().with_kind(Kind::DocumentClear).with_kind(Kind::Snapshot);
    assert_eq!(uids(&queue.select(&by_kind).unwrap()), vec![9, 7, 3, 1]);
    let by_index = Query::default().with_index("doggo".to_string());
    assert_eq!(uids(&queue.select(&by_index).unwrap()), vec![9, 5, 3, 1]);
    let by_indexes =
        Query::default().with_index("doggo".to_string()).with_index("catto".to_string());
    assert_eq!(uids(&queue.select(&by_indexes).unwrap()), vec![9, 8, 6, 5, 4, 3, 2, 1, 0]);
    let by_uid = Query::default().with_uid(3).with_uid(8).with_uid(77).with_uid(3);
    assert_eq!(uids(&queue.select(&by_uid).unwrap()), vec![8, 3]);
}

#[test]
fn select_intersects_the_filters() {
    let mut queue = filled();
    finish(&mut queue, 2, Status::Succeeded);
    finish(&mut queue, 3, Status::Succeeded);
    finish(&mut queue, 4, Status::Succeeded);
    let query = Query::default()
        .with_status(Status::Succeeded)
        .with_index("catto".to_string())
        .with_kind(Kind::DocumentImport)
        .with_limit(1);
    assert_eq!(uids(&queue.select(&query).unwrap()), vec![4]);
    let query = Query::default().with_status(Status::Succeeded).with_uid(3).with_uid(5);
    assert_eq!(uids(&queue.select(&query).unwrap()), vec![3]);
    let query = Query {
        from: Some(3),
        ..Query::default().with_status(Status::Succeeded).with_index("catto".to_string())
    };
    assert_eq!(uids(&queue.select(&query).unwrap()), vec![2]);
}

#[test]
fn unknown_names_select_nothing() {
    let queue = filled();
    let query = Query::default().with_index("birdo".to_string());
    assert_eq!(queue.select(&query), Ok(vec![]));
    let query = Query::default().with_kind(Kind::DumpExport);
    assert_eq!(queue.select(&query), Ok(vec![]));
    let query = Query::default().with_status(Status::Processing);
    assert_eq!(queue.select(&query), Ok(vec![]));
    let query = Query { status: Some(vec![]), ..Query::default() };
    assert_eq!(queue.select(&query), Ok(vec![]));
}

#[test]
fn select_fails_on_a_deleted_uid_in_the_range() {
    let mut queue = filled();
    finish(&mut queue, 2, Status::Succeeded);
    assert_eq!(queue.delete_tasks(&vec![2]), 1);
    // no table is read: the range holds the uid that is gone
    assert_eq!(queue.select(&Query::default()), Err(Error::CorruptedTaskQueue));
    // the listing stops before it
    assert_eq!(uids(&queue.select(&Query::default().with_limit(7)).unwrap()).len(), 7);
    // a table does not list it
    let query = Query::default().with_status(Status::Enqueued);
    assert_eq!(uids(&queue.select(&query).unwrap()), vec![9, 8, 7, 6, 5, 4, 3, 1, 0]);
}

#[test]
fn enqueued_tasks_are_listed_from_the_oldest() {
    let mut queue = filled();
    finish(&mut queue, 0, Status::Succeeded);
    finish(&mut queue, 4, Status::Failed);
    let tasks = queue.enqueued_tasks();
    assert_eq!(uids(&tasks), vec![1, 2, 3, 5, 6, 7, 8, 9]);
    assert_eq!(tasks[0], queue.get_task(1).unwrap());
}

#[test]
fn append_takes_only_a_new_greatest_uid() {
    let mut queue = filled();
    let mut record = queue.get_task(3).unwrap();
    // below the next uid
    assert_eq!(queue.append_task(record.clone()), Err(Error::KvError));
    record.uid = 9;
    assert_eq!(queue.append_task(record.clone()), Err(Error::KvError));
    // processing is never stored
    record.uid = 12;
    record.status = Status::Processing;
    assert_eq!(queue.append_task(record.clone()), Err(Error::CorruptedTaskQueue));
    assert_eq!(queue.next_task_id(), Some(10));
    // above the next uid: the uids between stay free
    record.status = Status::Failed;
    assert_eq!(queue.append_task(record.clone()), Ok(()));
    assert_eq!(queue.get_task(12), Some(record));
    assert_eq!(queue.get_task(10), None);
    assert_eq!(queue.get_task(11), None);
    assert_eq!(queue.next_task_id(), Some(13));
    assert_eq!(ids_of(&queue.get_status(Status::Failed)), vec![12]);
    assert_eq!(ids_of(&queue.get_kind(Kind::DocumentClear)), vec![1, 3, 9, 12]);
    assert_eq!(ids_of(&queue.get_index("doggo")), vec![1, 3, 5, 9, 12]);
}

#[test]
fn a_store_is_put_back_from_its_records() {
    let mut queue = filled();
    finish(&mut queue, 2, Status::Succeeded);
    finish(&mut queue, 3, Status::Failed);
    finish(&mut queue, 4, Status::Succeeded);
    assert_eq!(queue.delete_tasks(&vec![3]), 1);
    let mut records = Vec::new();
    for uid in 0..10 {
        if let Some(task) = queue.get_task(uid) {
            records.push(task);
        }
    }
    let restored = TaskQueue::from_tasks(records.clone()).unwrap();
    for uid in 0..12 {
        assert_eq!(restored.get_task(uid), queue.get_task(uid));
    }
    assert_eq!(restored.next_task_id(), Some(10));
    for status in [Status::Enqueued, Status::Processing, Status::Succeeded, Status::Failed] {
        assert_eq!(restored.get_status(status), queue.get_status(status));
    }
    assert_eq!(restored.get_kind(Kind::DocumentImport), queue.get_kind(Kind::DocumentImport));
    assert_eq!(restored.get_index("catto"), queue.get_index("catto"));
    assert_eq!(restored.get_index("doggo"), queue.get_index("doggo"));

    // out of order, twice the same uid, or processing: refused
    records.swap(0, 1);
    assert_eq!(TaskQueue::from_tasks(records.clone()).err(), Some(Error::CorruptedTaskQueue));
    records.swap(0, 1);
    records.push(records[8].clone());
    assert_eq!(TaskQueue::from_tasks(records.clone()).err(), Some(Error::CorruptedTaskQueue));
    records.pop();
    records[4].status = Status::Processing;
    assert_eq!(TaskQueue::from_tasks(records).err(), Some(Error::CorruptedTaskQueue));
    assert_eq!(TaskQueue::from_tasks(vec![]).unwrap().next_task_id(), Some(0));
}

#[test]
fn swapped_indexes_trade_their_tasks() {
    let mut queue = filled();
    queue
        .register(KindWithContent::IndexCreation { index_uid: "birdo".to_string(), primary_key: None }, at(0))
        .unwrap();
    finish(&mut queue, 2, Status::Succeeded);
    queue.swap_index_tasks("catto", "doggo");
    assert_eq!(ids_of(&queue.get_index("doggo")), vec![0, 2, 4, 5, 6, 8]);
    assert_eq!(ids_of(&queue.get_index("catto")), vec![1, 3, 5, 9]);
    assert_eq!(ids_of(&queue.get_index("birdo")), vec![10]);
    assert_eq!(queue.get_task(0).unwrap().kind, import("doggo", 0));
    assert_eq!(
        queue.get_task(1).unwrap().kind,
        KindWithContent::DocumentClear { index_uid: "catto".to_string() }
    );
    assert_eq!(
        queue.get_task(5).unwrap().kind,
        KindWithContent::IndexSwap { lhs: "doggo".to_string(), rhs: "catto".to_string() }
    );
    assert_eq!(queue.get_task(7).unwrap().kind, KindWithContent::Snapshot);
    assert_eq!(queue.get_task(2).unwrap().status, Status::Succeeded);
    assert_eq!(ids_of(&queue.get_kind(Kind::DocumentImport)), vec![0, 2, 4, 6, 8]);
    assert_eq!(queue.next_task_id(), Some(11));
    // with an index that no task names: the tasks move to the new name
    queue.swap_index_tasks("birdo", "fisho");
    assert_eq!(ids_of(&queue.get_index("fisho")), vec![10]);
    assert_eq!(ids_of(&queue.get_index("birdo")), Vec::<u32>::new());
    // twice is once undone
    queue.swap_index_tasks("doggo", "catto");
    queue.swap_index_tasks("fisho", "birdo");
    assert_eq!(ids_of(&queue.get_index("catto")), vec![0, 2, 4, 5, 6, 8]);
    assert_eq!(ids_of(&queue.get_index("doggo")), vec![1, 3, 5, 9]);
    assert_eq!(queue.get_task(0).unwrap().kind, import("catto", 0));
}
