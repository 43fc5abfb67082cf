use index_scheduler::error::Error;
use index_scheduler::index_mapper::IndexMapper;
use index_scheduler::routes::{
    accepted_content_types, clear_all_documents_task, content_type_error, delete_documents_task,
    delete_index_task, page_range, payload_type, BrowseQuery, DocumentParam, HttpError,
    IndexCreateRequest, IndexStats, PayloadType, UpdateDocumentsQuery, UpdateIndexRequest,
    PAGINATION_DEFAULT_LIMIT,
};
use index_scheduler::scheduler::IndexScheduler;
use index_scheduler::tasks::{IndexDocumentsMethod, KindWithContent};
use uuid::Uuid;

fn accepted() -> Vec<String> {
    vec![
        "application/json".to_string(),
        "application/x-ndjson".to_string(),
        "text/csv".to_string(),
    ]
}

#[test]
fn accepted_content_types_are_three() {
    assert_eq!(accepted_content_types(), accepted());
}

#[test]
fn payload_type_of_each_accepted_content_type() {
    assert_eq!(payload_type(Some(("application", "json"))), Ok(PayloadType::Json));
    assert_eq!(payload_type(Some(("application", "x-ndjson"))), Ok(PayloadType::Ndjson));
    assert_eq!(payload_type(Some(("text", "csv"))), Ok(PayloadType::Csv));
}

#[test]
fn other_content_types_are_refused_by_name() {
    assert_eq!(
        payload_type(Some(("text", "plain"))),
        Err(HttpError::InvalidContentType("text/plain".to_string(), accepted()))
    );
    assert_eq!(
        payload_type(Some(("text", "json"))),
        Err(HttpError::InvalidContentType("text/json".to_string(), accepted()))
    );
    assert_eq!(
        payload_type(Some(("application", "csv"))),
        Err(HttpError::InvalidContentType("application/csv".to_string(), accepted()))
    );
    assert_eq!(
        payload_type(Some(("Application", "JSON"))),
        Err(HttpError::InvalidContentType("Application/JSON".to_string(), accepted()))
    );
}

#[test]
fn missing_content_type_is_refused() {
    assert_eq!(payload_type(None), Err(HttpError::MissingContentType(accepted())));
}

#[test]
fn content_type_that_cannot_be_read() {
    assert_eq!(
        content_type_error(Some("a;b;c".to_string())),
        HttpError::InvalidContentType("a;b;c".to_string(), accepted())
    );
    assert_eq!(content_type_error(None), HttpError::MissingContentType(accepted()));
}

#[test]
fn tasks_that_the_requests_ask_for() {
    let param = DocumentParam { index_uid: "doggos".to_string(), document_id: "42".to_string() };
    assert_eq!(
        param.into_task(),
        KindWithContent::DocumentDeletion {
            index_uid: "doggos".to_string(),
            documents_ids: vec!["42".to_string()]
        }
    );
    let create =
        IndexCreateRequest { uid: "doggos".to_string(), primary_key: Some("id".to_string()) };
    assert_eq!(
        create.into_task(),
        KindWithContent::IndexCreation {
            index_uid: "doggos".to_string(),
            primary_key: Some("id".to_string())
        }
    );
    let update = UpdateIndexRequest { uid: Some("ignored".to_string()), primary_key: None };
    assert_eq!(
        update.into_task("doggos".to_string()),
        KindWithContent::IndexUpdate { index_uid: "doggos".to_string(), primary_key: None }
    );
    let documents = UpdateDocumentsQuery { primary_key: Some("bone".to_string()) };
    assert_eq!(
        documents.into_task(
            "doggos".to_string(),
            IndexDocumentsMethod::UpdateDocuments,
            Uuid::from_u128(9),
            33,
            false
        ),
        KindWithContent::DocumentImport {
            index_uid: "doggos".to_string(),
            primary_key: Some("bone".to_string()),
            method: IndexDocumentsMethod::UpdateDocuments,
            content_file: Uuid::from_u128(9),
            documents_count: 33,
            allow_index_creation: false,
        }
    );
    assert_eq!(
        delete_documents_task("doggos".to_string(), vec!["1".to_string(), "2".to_string()]),
        KindWithContent::DocumentDeletion {
            index_uid: "doggos".to_string(),
            documents_ids: vec!["1".to_string(), "2".to_string()]
        }
    );
    assert_eq!(
        clear_all_documents_task("doggos".to_string()),
        KindWithContent::DocumentClear { index_uid: "doggos".to_string() }
    );
    assert_eq!(
        delete_index_task("doggos".to_string()),
        KindWithContent::IndexDeletion { index_uid: "doggos".to_string() }
    );
}

#[test]
fn stats_of_an_index() {
    let mut scheduler = IndexScheduler::new(true);
    assert_eq!(
        IndexStats::new(&scheduler, "doggos".to_string(), 3, vec![]),
        Err(Error::IndexNotFound("doggos".to_string()))
    );
    let mut mapper = IndexMapper::new();
    mapper.create_index("doggos").unwrap();
    scheduler.replace_index_mapper(mapper);
    scheduler
        .register(KindWithContent::DocumentClear { index_uid: "doggos".to_string() })
        .unwrap();
    let fields = vec![("name".to_string(), 3), ("age".to_string(), 2)];
    assert_eq!(
        IndexStats::new(&scheduler, "doggos".to_string(), 3, fields.clone()),
        Ok(IndexStats { number_of_documents: 3, is_indexing: false, field_distribution: fields })
    );
    // the listing by status reads the stored status, which is never `Processing`
    scheduler.begin_tick().unwrap();
    let stats = IndexStats::new(&scheduler, "doggos".to_string(), 3, vec![]).unwrap();
    assert_eq!(stats.is_indexing, false);
}

#[test]
fn pages_of_documents() {
    assert_eq!(page_range(10, 0, 20), (0, 10));
    assert_eq!(page_range(10, 3, 4), (3, 7));
    assert_eq!(page_range(10, 3, 7), (3, 10));
    assert_eq!(page_range(10, 10, 4), (10, 10));
    assert_eq!(page_range(10, 12, 4), (10, 10));
    assert_eq!(page_range(10, 8, usize::MAX), (8, 10));
    assert_eq!(page_range(10, usize::MAX, usize::MAX), (10, 10));
    assert_eq!(page_range(0, 0, 5), (0, 0));
    assert_eq!(page_range(10, 4, 0), (4, 4));
}

#[test]
fn default_browse_shows_the_first_page() {
    assert_eq!(PAGINATION_DEFAULT_LIMIT, 20);
    assert_eq!(BrowseQuery::default(), BrowseQuery { offset: 0, limit: 20, fields: None });
}
