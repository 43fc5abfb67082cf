use index_scheduler::batch::{files_to_delete, fused_documents_count, succeed_all};
use index_scheduler::tasks::{IndexDocumentsMethod, KindWithContent, Status, Task};
use time::OffsetDateTime;
use uuid::Uuid;

fn task(uid: u32, kind: KindWithContent) -> Task {
    Task {
        uid,
        enqueued_at: OffsetDateTime::UNIX_EPOCH,
        started_at: None,
        finished_at: None,
        error: None,
        details: None,
        status: Status::Enqueued,
        kind,
    }
}

fn import(documents_count: u64) -> KindWithContent {
    KindWithContent::DocumentImport {
        index_uid: "doggos".to_string(),
        primary_key: None,
        method: IndexDocumentsMethod::ReplaceDocuments,
        content_file: Uuid::from_u128(0),
        documents_count,
        allow_index_creation: true,
    }
}

#[test]
fn documents_of_a_fused_import_are_summed() {
    assert_eq!(fused_documents_count(&vec![]), Some(0));
    let tasks = vec![task(0, import(12)), task(1, import(50)), task(2, import(5000))];
    assert_eq!(fused_documents_count(&tasks), Some(5062));
}

#[test]
fn only_imports_bring_documents() {
    let tasks = vec![
        task(0, KindWithContent::IndexCreation { index_uid: "doggos".to_string(), primary_key: None }),
        task(1, import(7)),
        task(2, KindWithContent::DocumentClear { index_uid: "doggos".to_string() }),
        task(3, import(1)),
    ];
    assert_eq!(fused_documents_count(&tasks), Some(8));
}

#[test]
fn a_sum_too_great_is_not_counted() {
    let tasks = vec![task(0, import(u64::MAX)), task(1, import(0))];
    assert_eq!(fused_documents_count(&tasks), Some(u64::MAX));
    let tasks = vec![task(0, import(u64::MAX)), task(1, import(1)), task(2, import(1))];
    assert_eq!(fused_documents_count(&tasks), None);
}

#[test]
fn every_task_of_a_batch_that_succeeded_succeeds() {
    let mut failed = task(1, import(2));
    failed.status = Status::Failed;
    let done = succeed_all(vec![task(0, import(1)), failed, task(2, KindWithContent::Snapshot)]);
    assert_eq!(done.len(), 3);
    for (uid, task) in done.iter().enumerate() {
        assert_eq!(task.uid, uid as u32);
        assert_eq!(task.status, Status::Succeeded);
    }
    assert_eq!(done[0].kind, import(1));
    assert_eq!(succeed_all(vec![]), vec![]);
}

#[test]
fn update_files_of_the_imports_that_ran_are_deleted() {
    let file = |n: u128, status: Status| {
        let mut task = task(n as u32, import(1));
        if let KindWithContent::DocumentImport { content_file, .. } = &mut task.kind {
            *content_file = Uuid::from_u128(n);
        }
        task.status = status;
        task
    };
    let mut clear = task(9, KindWithContent::DocumentClear { index_uid: "doggos".to_string() });
    clear.status = Status::Succeeded;
    let tasks = vec![
        file(1, Status::Succeeded),
        file(2, Status::Enqueued),
        clear,
        file(3, Status::Failed),
        file(4, Status::Processing),
        file(5, Status::Succeeded),
    ];
    assert_eq!(
        files_to_delete(&tasks),
        vec![Uuid::from_u128(1), Uuid::from_u128(3), Uuid::from_u128(5)]
    );
    assert_eq!(files_to_delete(&vec![]), Vec::<Uuid>::new());
}
