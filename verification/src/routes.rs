//! What the routes of the indexes decide before they hand a task to the
//! scheduler: in which format a payload of documents is, and which task a
//! request asks for.

use vstd::prelude::*;
use vstd::string::StringExecFns;
use time::OffsetDateTime;
use uuid::Uuid;
use crate::error::{Error, ErrorView};
use crate::query::{Query, QueryView};
use crate::scheduler::IndexScheduler;
use crate::tasks::{IndexDocumentsMethod, KindView, KindWithContent, Status};
use crate::text::str_eq;

verus! {

/// The formats in which documents are sent.
#[derive(Debug, Clone, Copy, PartialEq, Eq, Structural)]
pub enum PayloadType {
    Ndjson,
    Json,
    Csv,
}

/// What is wrong with a request.
#[derive(Debug, PartialEq, Eq)]
pub enum HttpError {
    /// The request names no content type; the list holds those accepted.
    MissingContentType(Vec<String>),
    /// The request names a content type that is not accepted; the list
    /// holds those that are.
    InvalidContentType(String, Vec<String>),
    /// The index holds no document with this id.
    DocumentNotFound(String),
}

/// The view of an [`HttpError`].
pub enum HttpErrorView {
    MissingContentType(Seq<Seq<char>>),
    InvalidContentType(Seq<char>, Seq<Seq<char>>),
    DocumentNotFound(Seq<char>),
}

impl View for HttpError {
    type V = HttpErrorView;

    open spec fn view(&self) -> HttpErrorView {
        match *self {
            HttpError::MissingContentType(accepted) => HttpErrorView::MissingContentType(
                accepted.deep_view(),
            ),
            HttpError::InvalidContentType(given, accepted) => HttpErrorView::InvalidContentType(
                given@,
                accepted.deep_view(),
            ),
            HttpError::DocumentNotFound(id) => HttpErrorView::DocumentNotFound(id@),
        }
    }
}

impl DeepView for HttpError {
    type V = HttpErrorView;

    open spec fn deep_view(&self) -> HttpErrorView {
        self@
    }
}

/// The content types in which documents are accepted.
pub open spec fn accepted_content_type() -> Seq<Seq<char>> {
    seq!["application/json"@, "application/x-ndjson"@, "text/csv"@]
}

/// The content types in which documents are accepted.
pub fn accepted_content_types() -> (list: Vec<String>)
    ensures
        list.deep_view() == accepted_content_type(),
{
    let mut list: Vec<String> = Vec::new();
    list.push("application/json".to_owned());
    list.push("application/x-ndjson".to_owned());
    list.push("text/csv".to_owned());
    assert(list.deep_view() =~= accepted_content_type());
    list
}

/// The format that a content type names, if documents are accepted in it.
pub open spec fn format_of(kind: Seq<char>, subtype: Seq<char>) -> Option<PayloadType> {
    if kind == "application"@ && subtype == "json"@ {
        Some(PayloadType::Json)
    } else if kind == "application"@ && subtype == "x-ndjson"@ {
        Some(PayloadType::Ndjson)
    } else if kind == "text"@ && subtype == "csv"@ {
        Some(PayloadType::Csv)
    } else {
        None
    }
}

/// The format of a payload of documents, from the type and the subtype of
/// its content type.
///
/// A content type in which documents are not accepted is refused with its
/// name, `type/subtype`; a request without content type is refused too.
/// Both errors list the content types that are accepted.
pub fn payload_type(mime_type: Option<(&str, &str)>) -> (result: Result<PayloadType, HttpError>)
    ensures
        match mime_type {
            Some((kind, subtype)) => match format_of(kind@, subtype@) {
                Some(format) => result == Ok::<PayloadType, HttpError>(format),
                None => result is Err && result->Err_0@ == HttpErrorView::InvalidContentType(
                    kind@ + "/"@ + subtype@,
                    accepted_content_type(),
                ),
            },
            None => result is Err && result->Err_0@ == HttpErrorView::MissingContentType(
                accepted_content_type(),
            ),
        },
{
    match mime_type {
        Some((kind, subtype)) => {
            if str_eq(kind, "application") && str_eq(subtype, "json") {
                Ok(PayloadType::Json)
            } else if str_eq(kind, "application") && str_eq(subtype, "x-ndjson") {
                Ok(PayloadType::Ndjson)
            } else if str_eq(kind, "text") && str_eq(subtype, "csv") {
                Ok(PayloadType::Csv)
            } else {
                let mut given = kind.to_owned();
                given.append("/");
                given.append(subtype);
                Err(HttpError::InvalidContentType(given, accepted_content_types()))
            }
        },
        None => Err(HttpError::MissingContentType(accepted_content_types())),
    }
}

/// The error of a request whose content type could not be read: the
/// content type is refused by its text if the request has one, and is
/// missing if not.
pub fn content_type_error(header: Option<String>) -> (error: HttpError)
    ensures
        error@ == match header {
            Some(text) => HttpErrorView::InvalidContentType(text@, accepted_content_type()),
            None => HttpErrorView::MissingContentType(accepted_content_type()),
        },
{
    match header {
        Some(text) => HttpError::InvalidContentType(text, accepted_content_types()),
        None => HttpError::MissingContentType(accepted_content_types()),
    }
}

/// The index and the document that a route names.
#[derive(Debug, PartialEq, Eq)]
pub struct DocumentParam {
    pub index_uid: String,
    pub document_id: String,
}

/// The parameters of an addition or update of documents.
#[derive(Debug, PartialEq, Eq)]
pub struct UpdateDocumentsQuery {
    pub primary_key: Option<String>,
}

/// The request to create an index.
#[derive(Debug, PartialEq, Eq)]
pub struct IndexCreateRequest {
    pub uid: String,
    pub primary_key: Option<String>,
}

/// The request to update an index.
#[derive(Debug, PartialEq, Eq)]
pub struct UpdateIndexRequest {
    pub uid: Option<String>,
    pub primary_key: Option<String>,
}

/// What is known of an index.
#[derive(Debug, PartialEq, Eq)]
pub struct IndexStats {
    pub number_of_documents: u64,
    pub is_indexing: bool,
    /// In how many documents each field occurs.
    pub field_distribution: Vec<(String, u64)>,
}

impl DocumentParam {
    /// The task that deletes the document.
    pub fn into_task(self) -> (task: KindWithContent)
        ensures
            task@ == (KindView::DocumentDeletion {
                index_uid: self.index_uid@,
                documents_ids: seq![self.document_id@],
            }),
    {
        let mut documents_ids: Vec<String> = Vec::new();
        let ghost id = self.document_id@;
        documents_ids.push(self.document_id);
        assert(documents_ids.deep_view() =~= seq![id]);
        KindWithContent::DocumentDeletion { index_uid: self.index_uid, documents_ids }
    }
}

impl IndexCreateRequest {
    /// The task that creates the index.
    pub fn into_task(self) -> (task: KindWithContent)
        ensures
            task@ == (KindView::IndexCreation {
                index_uid: self.uid@,
                primary_key: self.primary_key.deep_view(),
            }),
    {
        KindWithContent::IndexCreation { index_uid: self.uid, primary_key: self.primary_key }
    }
}

impl UpdateIndexRequest {
    /// The task that updates the index with the given name: the name in the
    /// request is not used.
    pub fn into_task(self, index_uid: String) -> (task: KindWithContent)
        ensures
            task@ == (KindView::IndexUpdate {
                index_uid: index_uid@,
                primary_key: self.primary_key.deep_view(),
            }),
    {
        KindWithContent::IndexUpdate { index_uid, primary_key: self.primary_key }
    }
}

impl UpdateDocumentsQuery {
    /// The task that imports the documents of an update file into an index.
    pub fn into_task(
        self,
        index_uid: String,
        method: IndexDocumentsMethod,
        content_file: Uuid,
        documents_count: u64,
        allow_index_creation: bool,
    ) -> (task: KindWithContent)
        ensures
            task@ == (KindView::DocumentImport {
                index_uid: index_uid@,
                primary_key: self.primary_key.deep_view(),
                method,
                content_file,
                documents_count,
                allow_index_creation,
            }),
    {
        KindWithContent::DocumentImport {
            index_uid,
            primary_key: self.primary_key,
            method,
            content_file,
            documents_count,
            allow_index_creation,
        }
    }
}

/// The task that deletes the documents with the given ids from an index.
pub fn delete_documents_task(index_uid: String, documents_ids: Vec<String>) -> (task:
    KindWithContent)
    ensures
        task@ == (KindView::DocumentDeletion {
            index_uid: index_uid@,
            documents_ids: documents_ids.deep_view(),
        }),
{
    KindWithContent::DocumentDeletion { index_uid, documents_ids }
}

/// The task that deletes every document of an index.
pub fn clear_all_documents_task(index_uid: String) -> (task: KindWithContent)
    ensures
        task@ == (KindView::DocumentClear { index_uid: index_uid@ }),
{
    KindWithContent::DocumentClear { index_uid }
}

/// The task that deletes an index.
pub fn delete_index_task(index_uid: String) -> (task: KindWithContent)
    ensures
        task@ == (KindView::IndexDeletion { index_uid: index_uid@ }),
{
    KindWithContent::IndexDeletion { index_uid }
}

/// The listing that tells whether a task is being processed on an index:
/// at most one task, with the status `Processing`, that touches the index.
pub open spec fn indexing_query(index_uid: Seq<char>) -> QueryView {
    QueryView {
        limit: 1,
        from: None,
        status: Some(seq![Status::Processing]),
        kind: None,
        index_uid: Some(seq![index_uid]),
        uid: None,
    }
}

impl IndexStats {
    /// What is known of the index with the given name, from the number of
    /// its documents and the distribution of its fields.
    ///
    /// The index counts as indexing when the listing of
    /// [`indexing_query`] shows a task. That listing reads the table of
    /// tasks by status, where no task is ever `Processing`: so it shows
    /// none, and the index never counts as indexing. `IndexNotFound` when
    /// no index has this name.
    pub fn new(
        scheduler: &IndexScheduler,
        index_uid: String,
        number_of_documents: u64,
        field_distribution: Vec<(String, u64)>,
    ) -> (result: Result<IndexStats, Error>)
        requires
            scheduler.wf(),
        ensures
            scheduler.queue().selection(indexing_query(index_uid@)).len() == 0,
            match result {
                Ok(stats) => {
                    &&& scheduler.mapper().indexes().contains_key(index_uid@)
                    &&& stats.number_of_documents == number_of_documents
                    &&& stats.field_distribution == field_distribution
                    &&& !stats.is_indexing
                },
                Err(error) => !scheduler.mapper().indexes().contains_key(index_uid@) && error@
                    == ErrorView::IndexNotFound(index_uid@),
            },
    {
        let query = Query::default().with_status(Status::Processing).with_index(
            index_uid.clone(),
        ).with_limit(1);
        assert(query@ == indexing_query(index_uid@));
        proof {
            law_nothing_is_stored_as_processing(scheduler, indexing_query(index_uid@));
        }
        let processing = match scheduler.get_tasks(query) {
            Ok(tasks) => tasks,
            Err(error) => {
                return Err(error);
            },
        };
        let is_indexing = processing.len() > 0;
        match scheduler.index(index_uid.as_str()) {
            Ok(_) => Ok(IndexStats { number_of_documents, is_indexing, field_distribution }),
            Err(error) => Err(error),
        }
    }
}

/// A listing that asks for the status `Processing` alone shows no task:
/// the filter reads the table of tasks by status, and no task is stored as
/// `Processing`.
pub proof fn law_nothing_is_stored_as_processing(scheduler: &IndexScheduler, query: QueryView)
    requires
        scheduler.wf(),
        query.status == Some(seq![Status::Processing]),
    ensures
        scheduler.queue().selection(query).len() == 0,
{
    scheduler.law_wf();
    let queue = scheduler.queue();
    let candidates = queue.candidates(query);
    assert forall|uid: u32| !candidates.contains(uid) by {
        if queue.accepts(query, uid) {
            let list = seq![Status::Processing];
            let i = choose|i: int|
                0 <= i < list.len() && queue.status_ids(#[trigger] list[i]).contains(uid);
            assert(list[i] == Status::Processing);
            queue.law_status_and_kind(uid, Status::Processing, crate::tasks::Kind::Snapshot);
            queue.law_uids(uid);
        }
    }
}

/// The documents of a page: from which position to which, of `total`
/// documents, when `offset` are passed over and at most `limit` are shown.
pub fn page_range(total: usize, offset: usize, limit: usize) -> (range: (usize, usize))
    ensures
        range.0 == if offset < total {
            offset
        } else {
            total
        },
        range.1 == if offset + limit < total {
            (offset + limit) as usize
        } else {
            total
        },
        range.0 <= range.1 <= total,
{
    let start = if offset < total {
        offset
    } else {
        total
    };
    let end = if limit < total - start {
        start + limit
    } else {
        total
    };
    (start, end)
}

/// The number of documents that a page shows when the request names no
/// limit.
pub const PAGINATION_DEFAULT_LIMIT: usize = 20;

/// The parameters of a browse of the documents of an index.
#[derive(Debug, PartialEq, Eq)]
pub struct BrowseQuery {
    pub offset: usize,
    pub limit: usize,
    /// The fields to show; all of them when none is named.
    pub fields: Option<Vec<String>>,
}

/// The parameters of the retrieval of one document.
#[derive(Debug, PartialEq, Eq)]
pub struct GetDocument {
    /// The fields to show; all of them when none is named.
    pub fields: Option<Vec<String>>,
}

/// An index as the routes show it.
#[derive(Debug, PartialEq, Eq)]
pub struct IndexView {
    pub uid: String,
    pub created_at: OffsetDateTime,
    pub updated_at: OffsetDateTime,
    pub primary_key: Option<String>,
}

impl Default for BrowseQuery {
    /// The browse that passes over nothing, shows
    /// [`PAGINATION_DEFAULT_LIMIT`] documents, and all their fields.
    fn default() -> (query: Self)
        ensures
            query.offset == 0,
            query.limit == PAGINATION_DEFAULT_LIMIT,
            query.fields is None,
    {
        BrowseQuery { offset: 0, limit: PAGINATION_DEFAULT_LIMIT, fields: None }
    }
}

} // verus!
