use index_scheduler::autobatcher::{autobatch, Batch, BatchKind};
use index_scheduler::tasks::{
    IndexDocumentsMethod, KindWithContent, Settings, Status, Task,
};
use time::OffsetDateTime;
use uuid::Uuid;

use IndexDocumentsMethod::{ReplaceDocuments, UpdateDocuments};

fn import(index: &str, method: IndexDocumentsMethod, allow: bool, key: Option<&str>) -> KindWithContent {
    KindWithContent::DocumentImport {
        index_uid: index.to_string(),
        primary_key: key.map(|key| key.to_string()),
        method,
        content_file: Uuid::from_u128(0),
        documents_count: 1,
        allow_index_creation: allow,
    }
}

fn settings(index: &str, allow: bool) -> KindWithContent {
    KindWithContent::Settings {
        index_uid: index.to_string(),
        new_settings: Settings { document: "{}".to_string() },
        is_deletion: false,
        allow_index_creation: allow,
    }
}

fn deletion(index: &str) -> KindWithContent {
    KindWithContent::DocumentDeletion { index_uid: index.to_string(), documents_ids: vec![] }
}

fn clear(index: &str) -> KindWithContent {
    KindWithContent::DocumentClear { index_uid: index.to_string() }
}

fn creation(index: &str, key: Option<&str>) -> KindWithContent {
    KindWithContent::IndexCreation {
        index_uid: index.to_string(),
        primary_key: key.map(|key| key.to_string()),
    }
}

fn index_deletion(index: &str) -> KindWithContent {
    KindWithContent::IndexDeletion { index_uid: index.to_string() }
}

fn index_update(index: &str) -> KindWithContent {
    KindWithContent::IndexUpdate { index_uid: index.to_string(), primary_key: None }
}

/// Enqueued tasks with the uids 10, 12, 14, ...
fn enqueued(kinds: Vec<KindWithContent>) -> Vec<Task> {
    kinds
        .into_iter()
        .enumerate()
        .map(|(i, kind)| Task {
            uid: 10 + 2 * i as u32,
            enqueued_at: OffsetDateTime::UNIX_EPOCH,
            started_at: None,
            finished_at: None,
            error: None,
            details: None,
            status: Status::Enqueued,
            kind,
        })
        .collect()
}

fn batch_of(kinds: Vec<KindWithContent>) -> Batch {
    autobatch(&enqueued(kinds), true).unwrap()
}

fn doggos() -> String {
    "doggos".to_string()
}

#[test]
fn nothing_enqueued_gives_no_batch() {
    assert_eq!(autobatch(&vec![], true), None);
    assert_eq!(autobatch(&vec![], false), None);
}

#[test]
fn the_same_list_gives_the_same_batch() {
    let kinds = || {
        vec![
            creation("doggos", None),
            import("doggos", ReplaceDocuments, true, None),
            clear("doggos"),
            clear("cattos"),
        ]
    };
    assert_eq!(batch_of(kinds()), batch_of(kinds()));
}

#[test]
fn without_autobatching_the_oldest_task_runs_alone() {
    let tasks = enqueued(vec![clear("doggos"), clear("doggos"), clear("doggos")]);
    assert_eq!(
        autobatch(&tasks, false),
        Some(Batch { kind: BatchKind::DocumentClear { index_uid: doggos() }, ids: vec![10] })
    );
    assert_eq!(
        autobatch(&tasks, true),
        Some(Batch {
            kind: BatchKind::DocumentClear { index_uid: doggos() },
            ids: vec![10, 12, 14]
        })
    );
}

#[test]
fn imports_with_one_method_on_one_index_are_fused() {
    let batch = batch_of(vec![
        import("doggos", ReplaceDocuments, true, None),
        import("doggos", ReplaceDocuments, false, Some("id")),
        import("doggos", ReplaceDocuments, true, None),
        import("doggos", UpdateDocuments, true, None),
        import("doggos", ReplaceDocuments, true, None),
    ]);
    assert_eq!(
        batch,
        Batch {
            kind: BatchKind::DocumentImport { index_uid: doggos(), method: ReplaceDocuments },
            ids: vec![10, 12, 14]
        }
    );
}

#[test]
fn settings_or_another_index_end_a_run_of_imports() {
    let batch = batch_of(vec![
        import("doggos", UpdateDocuments, true, None),
        settings("doggos", true),
        import("doggos", UpdateDocuments, true, None),
    ]);
    assert_eq!(batch.ids, vec![10]);
    let batch = batch_of(vec![
        import("doggos", UpdateDocuments, true, None),
        import("cattos", UpdateDocuments, true, None),
        import("doggos", UpdateDocuments, true, None),
    ]);
    assert_eq!(batch.ids, vec![10]);
    let batch = batch_of(vec![
        import("doggos", UpdateDocuments, true, None),
        deletion("doggos"),
    ]);
    assert_eq!(batch.ids, vec![10]);
}

#[test]
fn deletions_on_one_index_are_fused() {
    let batch = batch_of(vec![
        deletion("doggos"),
        deletion("doggos"),
        import("doggos", ReplaceDocuments, true, None),
        deletion("doggos"),
    ]);
    assert_eq!(
        batch,
        Batch { kind: BatchKind::DocumentDeletion { index_uid: doggos() }, ids: vec![10, 12] }
    );
}

#[test]
fn a_clear_takes_in_the_document_operations_before_it() {
    let batch = batch_of(vec![
        import("doggos", ReplaceDocuments, true, None),
        import("doggos", ReplaceDocuments, true, None),
        clear("doggos"),
        clear("doggos"),
        import("doggos", ReplaceDocuments, true, None),
    ]);
    assert_eq!(
        batch,
        Batch {
            kind: BatchKind::DocumentClear { index_uid: doggos() },
            ids: vec![10, 12, 14, 16]
        }
    );
    let batch = batch_of(vec![deletion("doggos"), clear("doggos"), deletion("doggos")]);
    assert_eq!(
        batch,
        Batch { kind: BatchKind::DocumentClear { index_uid: doggos() }, ids: vec![10, 12] }
    );
    // not the settings
    let batch = batch_of(vec![settings("doggos", true), clear("doggos")]);
    assert_eq!(batch.ids, vec![10]);
}

#[test]
fn settings_are_fused_and_take_matching_imports_after_them() {
    let batch = batch_of(vec![
        settings("doggos", true),
        settings("doggos", false),
        import("doggos", UpdateDocuments, true, None),
        import("doggos", UpdateDocuments, true, Some("id")),
        import("doggos", ReplaceDocuments, true, None),
    ]);
    assert_eq!(
        batch,
        Batch {
            kind: BatchKind::SettingsAndDocuments {
                index_uid: doggos(),
                allow_index_creation: true,
                method: UpdateDocuments
            },
            ids: vec![10, 12, 14, 16]
        }
    );
    // an import that may not create the index does not follow settings that may
    let batch = batch_of(vec![
        settings("doggos", true),
        import("doggos", UpdateDocuments, false, None),
    ]);
    assert_eq!(
        batch,
        Batch {
            kind: BatchKind::Settings { index_uid: doggos(), allow_index_creation: true },
            ids: vec![10]
        }
    );
    // settings do not follow the imports
    let batch = batch_of(vec![
        settings("doggos", false),
        import("doggos", UpdateDocuments, false, None),
        settings("doggos", false),
    ]);
    assert_eq!(batch.ids, vec![10, 12]);
}

#[test]
fn an_index_creation_takes_in_the_operations_on_its_index() {
    let batch = batch_of(vec![
        creation("doggos", None),
        import("doggos", ReplaceDocuments, true, None),
        settings("doggos", false),
        deletion("doggos"),
        clear("doggos"),
        import("doggos", UpdateDocuments, false, Some("bone")),
        index_update("doggos"),
        clear("doggos"),
    ]);
    assert_eq!(
        batch,
        Batch {
            kind: BatchKind::IndexCreationWithOps {
                index_uid: doggos(),
                primary_key: Some("bone".to_string())
            },
            ids: vec![10, 12, 14, 16, 18, 20]
        }
    );
}

#[test]
fn another_primary_key_ends_the_batch_of_an_index_creation() {
    let batch = batch_of(vec![
        creation("doggos", Some("id")),
        import("doggos", ReplaceDocuments, true, Some("id")),
        import("doggos", ReplaceDocuments, true, None),
        import("doggos", ReplaceDocuments, true, Some("bone")),
        import("doggos", ReplaceDocuments, true, Some("id")),
    ]);
    assert_eq!(
        batch,
        Batch {
            kind: BatchKind::IndexCreationWithOps {
                index_uid: doggos(),
                primary_key: Some("id".to_string())
            },
            ids: vec![10, 12, 14]
        }
    );
    // a second creation does not join either
    let batch = batch_of(vec![creation("doggos", None), creation("doggos", None)]);
    assert_eq!(batch.ids, vec![10]);
}

#[test]
fn an_index_deletion_takes_in_the_run_before_it() {
    let batch = batch_of(vec![
        creation("doggos", None),
        import("doggos", ReplaceDocuments, true, None),
        settings("doggos", true),
        index_deletion("doggos"),
        import("doggos", ReplaceDocuments, true, None),
    ]);
    assert_eq!(
        batch,
        Batch {
            kind: BatchKind::IndexDeletion { index_uid: doggos() },
            ids: vec![10, 12, 14, 16]
        }
    );
    let batch = batch_of(vec![index_deletion("doggos"), index_deletion("doggos")]);
    assert_eq!(
        batch,
        Batch { kind: BatchKind::IndexDeletion { index_uid: doggos() }, ids: vec![10] }
    );
    // the deletion of another index ends the run
    let batch = batch_of(vec![clear("doggos"), index_deletion("cattos")]);
    assert_eq!(batch.ids, vec![10]);
    // a task that ended the run stands between
    let batch = batch_of(vec![
        import("doggos", ReplaceDocuments, true, None),
        settings("doggos", true),
        index_deletion("doggos"),
    ]);
    assert_eq!(batch.ids, vec![10]);
}

#[test]
fn some_kinds_always_run_alone() {
    let alone = vec![
        (index_update("doggos"), BatchKind::IndexUpdate),
        (
            KindWithContent::IndexSwap { lhs: "doggos".to_string(), rhs: "cattos".to_string() },
            BatchKind::IndexSwap,
        ),
        (KindWithContent::CancelTask { tasks: vec![0] }, BatchKind::CancelTask),
        (
            KindWithContent::DeleteTasks { query: "q".to_string(), tasks: vec![0] },
            BatchKind::DeleteTasks,
        ),
        (
            KindWithContent::DumpExport {
                dump_uid: "d".to_string(),
                keys: vec![],
                instance_uid: None,
            },
            BatchKind::DumpExport,
        ),
        (KindWithContent::Snapshot, BatchKind::Snapshot),
    ];
    for (kind, expected) in alone {
        let again = kind.clone();
        let batch = batch_of(vec![kind, again, clear("doggos"), index_deletion("doggos")]);
        assert_eq!(batch, Batch { kind: expected, ids: vec![10] });
    }
    // and none joins a batch
    let batch = batch_of(vec![clear("doggos"), index_update("doggos")]);
    assert_eq!(batch.ids, vec![10]);
    let batch = batch_of(vec![clear("doggos"), KindWithContent::Snapshot, clear("doggos")]);
    assert_eq!(batch.ids, vec![10]);
}

#[test]
fn work_on_the_queue_waits_its_turn() {
    let tasks = enqueued(vec![
        clear("doggos"),
        KindWithContent::DeleteTasks { query: "q".to_string(), tasks: vec![0] },
        clear("doggos"),
        KindWithContent::CancelTask { tasks: vec![1] },
        KindWithContent::CancelTask { tasks: vec![2] },
    ]);
    assert_eq!(
        autobatch(&tasks, true),
        Some(Batch { kind: BatchKind::DocumentClear { index_uid: doggos() }, ids: vec![10] })
    );
    assert_eq!(
        autobatch(&tasks, false),
        Some(Batch { kind: BatchKind::DocumentClear { index_uid: doggos() }, ids: vec![10] })
    );
    let tasks = enqueued(vec![
        KindWithContent::DeleteTasks { query: "q".to_string(), tasks: vec![0] },
        KindWithContent::CancelTask { tasks: vec![1] },
        clear("doggos"),
    ]);
    assert_eq!(
        autobatch(&tasks, true),
        Some(Batch { kind: BatchKind::DeleteTasks, ids: vec![10] })
    );
    let tasks = enqueued(vec![clear("doggos"), clear("doggos"), KindWithContent::Snapshot]);
    assert_eq!(
        autobatch(&tasks, true),
        Some(Batch { kind: BatchKind::DocumentClear { index_uid: doggos() }, ids: vec![10, 12] })
    );
}

#[test]
fn absorbing_one_task_at_a_time() {
    let open = BatchKind::start(&clear("doggos"));
    assert_eq!(open, BatchKind::DocumentClear { index_uid: doggos() });
    assert_eq!(open.open_index(), Some("doggos"));
    assert_eq!(open.absorb(&clear("doggos")), Some(BatchKind::DocumentClear { index_uid: doggos() }));
    assert_eq!(open.absorb(&clear("cattos")), None);
    assert_eq!(
        open.absorb(&index_deletion("doggos")),
        Some(BatchKind::IndexDeletion { index_uid: doggos() })
    );
    let closed = BatchKind::start(&index_deletion("doggos"));
    assert_eq!(closed.open_index(), None);
    assert_eq!(closed.absorb(&clear("doggos")), None);
    assert_eq!(BatchKind::start(&KindWithContent::Snapshot).open_index(), None);
}
