use index_scheduler::error::Error;
use index_scheduler::tasks::{
    Details, IndexDocumentsMethod, Key, Kind, KindWithContent, ResponseError, Settings, Status,
    Task,
};
use time::OffsetDateTime;
use uuid::Uuid;

fn every_kind() -> Vec<KindWithContent> {
    vec![
        KindWithContent::DocumentImport {
            index_uid: "a".to_string(),
            primary_key: Some("id".to_string()),
            method: IndexDocumentsMethod::UpdateDocuments,
            content_file: Uuid::from_u128(7),
            documents_count: 12,
            allow_index_creation: false,
        },
        KindWithContent::DocumentDeletion {
            index_uid: "b".to_string(),
            documents_ids: vec!["1".to_string(), "2".to_string(), "3".to_string()],
        },
        KindWithContent::DocumentClear { index_uid: "c".to_string() },
        KindWithContent::Settings {
            index_uid: "d".to_string(),
            new_settings: Settings { document: "{\"rankingRules\":[]}".to_string() },
            is_deletion: false,
            allow_index_creation: true,
        },
        KindWithContent::IndexDeletion { index_uid: "e".to_string() },
        KindWithContent::IndexCreation { index_uid: "f".to_string(), primary_key: None },
        KindWithContent::IndexUpdate {
            index_uid: "g".to_string(),
            primary_key: Some("key".to_string()),
        },
        KindWithContent::IndexSwap { lhs: "h".to_string(), rhs: "i".to_string() },
        KindWithContent::CancelTask { tasks: vec![1, 2] },
        KindWithContent::DeleteTasks { query: "hello".to_string(), tasks: vec![4] },
        KindWithContent::DumpExport {
            dump_uid: "dump".to_string(),
            keys: vec![Key { document: "{}".to_string() }],
            instance_uid: Some(Uuid::from_u128(1)),
        },
        KindWithContent::Snapshot,
    ]
}

fn task_of(kind: KindWithContent) -> Task {
    Task {
        uid: 3,
        enqueued_at: OffsetDateTime::UNIX_EPOCH,
        started_at: None,
        finished_at: None,
        error: None,
        details: None,
        status: Status::Enqueued,
        kind,
    }
}

#[test]
fn bad_deser() {
    let details = Details::DeleteTasks {
        matched_tasks: 1,
        deleted_tasks: None,
        original_query: "hello".to_owned(),
    };
    let copied = details.clone();
    assert_eq!(
        format!("{:?}", details),
        "DeleteTasks { matched_tasks: 1, deleted_tasks: None, original_query: \"hello\" }"
    );
    assert_eq!(
        format!("{:?}", copied),
        "DeleteTasks { matched_tasks: 1, deleted_tasks: None, original_query: \"hello\" }"
    );
}

#[test]
fn as_kind_strips_the_payload() {
    let kinds: Vec<Kind> = every_kind().iter().map(|kind| kind.as_kind()).collect();
    assert_eq!(
        kinds,
        vec![
            Kind::DocumentImport,
            Kind::DocumentDeletion,
            Kind::DocumentClear,
            Kind::Settings,
            Kind::IndexDeletion,
            Kind::IndexCreation,
            Kind::IndexUpdate,
            Kind::IndexSwap,
            Kind::CancelTask,
            Kind::DeleteTasks,
            Kind::DumpExport,
            Kind::Snapshot,
        ]
    );
}

#[test]
fn indexes_of_each_kind() {
    let kinds = every_kind();
    let indexes: Vec<Option<Vec<&str>>> = kinds.iter().map(|kind| kind.indexes()).collect();
    assert_eq!(
        indexes,
        vec![
            Some(vec!["a"]),
            Some(vec!["b"]),
            Some(vec!["c"]),
            Some(vec!["d"]),
            Some(vec!["e"]),
            Some(vec!["f"]),
            Some(vec!["g"]),
            Some(vec!["h", "i"]),
            None,
            None,
            None,
            None,
        ]
    );
    let single: Vec<Option<&str>> = kinds.iter().map(|kind| kind.index_uid()).collect();
    assert_eq!(
        single,
        vec![
            Some("a"),
            Some("b"),
            Some("c"),
            Some("d"),
            Some("e"),
            Some("f"),
            Some("g"),
            None,
            None,
            None,
            None,
            None,
        ]
    );
}

#[test]
fn task_reads_its_kind() {
    for kind in every_kind() {
        let indexes = kind.indexes().map(|names| {
            names.into_iter().map(|name| name.to_string()).collect::<Vec<String>>()
        });
        let index_uid = kind.index_uid().map(|name| name.to_string());
        let content = kind.content_uuid().copied();
        let task = task_of(kind);
        assert_eq!(
            task.indexes().map(|names| names
                .into_iter()
                .map(|name| name.to_string())
                .collect::<Vec<String>>()),
            indexes
        );
        assert_eq!(task.index_uid().map(|name| name.to_string()), index_uid);
        assert_eq!(task.content_uuid().copied(), content);
    }
}

#[test]
fn content_uuid_only_for_imports() {
    let files: Vec<Option<Uuid>> =
        every_kind().iter().map(|kind| kind.content_uuid().copied()).collect();
    let mut expected = vec![None; 12];
    expected[0] = Some(Uuid::from_u128(7));
    assert_eq!(files, expected);
}

#[test]
fn default_details_of_each_kind() {
    let details: Vec<Option<Details>> =
        every_kind().iter().map(|kind| kind.default_details()).collect();
    assert_eq!(
        details,
        vec![
            Some(Details::DocumentAddition { received_documents: 12, indexed_documents: Some(0) }),
            Some(Details::DocumentDeletion { received_document_ids: 3, deleted_documents: None }),
            Some(Details::ClearAll { deleted_documents: None }),
            Some(Details::Settings {
                settings: Settings { document: "{\"rankingRules\":[]}".to_string() }
            }),
            None,
            Some(Details::IndexInfo { primary_key: None }),
            Some(Details::IndexInfo { primary_key: Some("key".to_string()) }),
            None,
            None,
            Some(Details::DeleteTasks {
                matched_tasks: 1,
                deleted_tasks: None,
                original_query: "hello".to_string()
            }),
            None,
            None,
        ]
    );
}

#[test]
fn details_converted_from_each_kind() {
    let details: Vec<Option<Details>> =
        every_kind().iter().map(|kind| Option::<Details>::from(kind)).collect();
    assert_eq!(
        details,
        vec![
            Some(Details::DocumentAddition { received_documents: 12, indexed_documents: None }),
            None,
            None,
            Some(Details::Settings {
                settings: Settings { document: "{\"rankingRules\":[]}".to_string() }
            }),
            None,
            Some(Details::IndexInfo { primary_key: None }),
            Some(Details::IndexInfo { primary_key: Some("key".to_string()) }),
            None,
            None,
            Some(Details::DeleteTasks {
                matched_tasks: 1,
                deleted_tasks: None,
                original_query: "hello".to_string()
            }),
            Some(Details::Dump { dump_uid: "dump".to_string() }),
            None,
        ]
    );
}

#[test]
fn clones_are_equal() {
    for kind in every_kind() {
        let mut task = task_of(kind);
        task.details = task.kind.default_details();
        task.error = Some(ResponseError::canceled());
        assert_eq!(task.clone(), task);
    }
    assert_eq!(
        Details::TaskCancelation { matched_tasks: 2, canceled_tasks: Some(1) }.clone(),
        Details::TaskCancelation { matched_tasks: 2, canceled_tasks: Some(1) }
    );
}

#[test]
fn status_names() {
    assert_eq!(Status::Enqueued.to_string(), "enqueued");
    assert_eq!(Status::Processing.to_string(), "processing");
    assert_eq!(Status::Succeeded.to_string(), "succeeded");
    assert_eq!(Status::Failed.to_string(), "failed");
    assert_eq!(Status::Failed.as_str(), "failed");
    for status in [Status::Enqueued, Status::Processing, Status::Succeeded, Status::Failed] {
        assert_eq!(Status::from_str(&status.to_string()), Ok(status));
    }
}

#[test]
fn status_from_unknown_name() {
    let error = Status::from_str("done").unwrap_err();
    assert_eq!(error.message, "`done` is not a status. Available types are");
    assert_eq!(error.error_code, "bad_request");
    assert_eq!(error.error_type, "invalid_request");
    assert_eq!(error.error_link, "https://docs.meilisearch.com/errors#bad_request");
    assert!(Status::from_str("Enqueued").is_err());
    assert!(Status::from_str("").is_err());
}

#[test]
fn kind_names() {
    assert_eq!(Kind::from_str("document_addition"), Ok(Kind::DocumentImport));
    assert_eq!(Kind::from_str("document_update"), Ok(Kind::DocumentImport));
    assert_eq!(Kind::from_str("document_deletion"), Ok(Kind::DocumentDeletion));
    assert_eq!(Kind::from_str("document_clear"), Ok(Kind::DocumentClear));
    assert_eq!(Kind::from_str("settings"), Ok(Kind::Settings));
    assert_eq!(Kind::from_str("index_creation"), Ok(Kind::IndexCreation));
    assert_eq!(Kind::from_str("index_deletion"), Ok(Kind::IndexDeletion));
    assert_eq!(Kind::from_str("index_update"), Ok(Kind::IndexUpdate));
    assert_eq!(Kind::from_str("index_swap"), Ok(Kind::IndexSwap));
    assert_eq!(Kind::from_str("cancel_task"), Ok(Kind::CancelTask));
    assert_eq!(Kind::from_str("delete_tasks"), Ok(Kind::DeleteTasks));
    assert_eq!(Kind::from_str("dump_export"), Ok(Kind::DumpExport));
    assert_eq!(Kind::from_str("snapshot"), Ok(Kind::Snapshot));
}

#[test]
fn kind_from_unknown_name() {
    let error = Kind::from_str("documentAddition").unwrap_err();
    assert_eq!(error.message, "`documentAddition` is not a type. Available status are ");
    assert_eq!(error.error_code, "bad_request");
}

#[test]
fn errors_as_tasks_record_them() {
    let not_found = Error::IndexNotFound("doggos".to_string());
    assert_eq!(not_found.to_string(), "Index `doggos` not found.");
    assert_eq!(not_found.code(), "index_not_found");
    let response = not_found.to_response_error();
    assert_eq!(response.message, "Index `doggos` not found.");
    assert_eq!(response.error_code, "index_not_found");
    assert_eq!(response.error_type, "invalid_request");
    assert_eq!(response.error_link, "https://docs.meilisearch.com/errors#index_not_found");

    let exists = Error::IndexAlreadyExists("cattos".to_string());
    assert_eq!(exists.to_string(), "Index `cattos` already exists.");
    assert_eq!(exists.to_response_error().error_code, "index_already_exists");

    assert_eq!(Error::CorruptedTaskQueue.to_string(), "Corrupted task queue.");
    assert_eq!(Error::CorruptedTaskQueue.to_response_error().error_type, "internal");
    assert_eq!(Error::IoError.code(), "internal");
    assert_eq!(Error::KvError.code(), "internal");
    assert_eq!(Error::PayloadError.code(), "internal");
    assert_eq!(Error::InvalidQuery.code(), "bad_request");
    assert_eq!(Error::InvalidQuery.to_response_error().error_type, "invalid_request");
    assert_eq!(Error::BatchExecutionError("boom".to_string()).to_string(), "boom");
    assert_eq!(Error::KvError.clone(), Error::KvError);
    assert_eq!(
        Error::IndexNotFound("x".to_string()).clone(),
        Error::IndexNotFound("x".to_string())
    );
}

#[test]
fn kinds_after_two_indexes_traded_their_names() {
    let renamed: Vec<KindWithContent> =
        every_kind().into_iter().map(|kind| kind.swapped("a", "h")).collect();
    let indexes: Vec<Option<Vec<&str>>> = renamed.iter().map(|kind| kind.indexes()).collect();
    assert_eq!(
        indexes,
        vec![
            Some(vec!["h"]),
            Some(vec!["b"]),
            Some(vec!["c"]),
            Some(vec!["d"]),
            Some(vec!["e"]),
            Some(vec!["f"]),
            Some(vec!["g"]),
            Some(vec!["a", "i"]),
            None,
            None,
            None,
            None,
        ]
    );
    // nothing but the names changes, and twice is once undone
    let back: Vec<KindWithContent> =
        renamed.into_iter().map(|kind| kind.swapped("h", "a")).collect();
    assert_eq!(back, every_kind());
    let same = KindWithContent::DocumentClear { index_uid: "x".to_string() };
    assert_eq!(same.clone().swapped("x", "x"), same);
}
