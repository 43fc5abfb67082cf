//! Tasks: the units of work that the scheduler queues, batches and runs.
//!
//! Every type that holds text or a list has a mathematical view (`@`), in
//! which strings are sequences of characters and lists are sequences. The
//! contracts of the whole library are stated over these views.

use vstd::prelude::*;
use time::OffsetDateTime;
use uuid::Uuid;
use vstd::string::StringExecFns;
use crate::text::{clone_ids, clone_opt_string, clone_strings, str_eq};

verus! {

#[verifier::external_type_specification]
#[verifier::external_body]
pub struct ExOffsetDateTime(OffsetDateTime);

#[verifier::external_type_specification]
#[verifier::external_body]
pub struct ExUuid(Uuid);

/// The identifier of a task: its key in the queue.
pub type TaskId = u32;

/// The identifier of the running instance, carried by dump exports.
pub type InstanceUid = Uuid;

/// Where a task stands in its life.
///
/// `Processing` is never stored: the scheduler shows it for the tasks of the
/// batch it is running.
#[derive(Debug, Clone, Copy, PartialEq, Eq, Hash, Structural)]
pub enum Status {
    Enqueued,
    Processing,
    Succeeded,
    Failed,
}

/// The operation a task asks for, without its payload. It keys the table of
/// tasks by kind.
#[derive(Debug, Clone, Copy, PartialEq, Eq, Hash, Structural)]
pub enum Kind {
    DocumentImport,
    DocumentDeletion,
    DocumentClear,
    Settings,
    IndexCreation,
    IndexDeletion,
    IndexUpdate,
    IndexSwap,
    CancelTask,
    DeleteTasks,
    DumpExport,
    Snapshot,
}

/// How imported documents meet the documents already in the index.
#[derive(Debug, Clone, Copy, PartialEq, Eq, Hash, Structural)]
pub enum IndexDocumentsMethod {
    /// An imported document replaces the stored document with the same id.
    ReplaceDocuments,
    /// The fields of an imported document are merged into the stored one.
    UpdateDocuments,
}

/// Index settings as the client submitted them. The queue stores them and
/// hands them on; it never looks inside.
#[derive(Debug, PartialEq, Eq)]
pub struct Settings {
    pub document: String,
}

/// An API key as it is written into a dump. The queue stores it and hands it
/// on; it never looks inside.
#[derive(Debug, PartialEq, Eq)]
pub struct Key {
    pub document: String,
}

/// The error that a failed task carries.
#[derive(Debug, PartialEq, Eq)]
pub struct ResponseError {
    pub message: String,
    pub error_code: String,
    pub error_type: String,
    pub error_link: String,
}

/// The view of a [`ResponseError`].
pub struct ResponseErrorView {
    pub message: Seq<char>,
    pub error_code: Seq<char>,
    pub error_type: Seq<char>,
    pub error_link: Seq<char>,
}

/// A summary of what a task did, or is about to do.
#[derive(Debug, PartialEq)]
pub enum Details {
    DocumentAddition { received_documents: u64, indexed_documents: Option<u64> },
    Settings { settings: Settings },
    IndexInfo { primary_key: Option<String> },
    DocumentDeletion { received_document_ids: usize, deleted_documents: Option<u64> },
    ClearAll { deleted_documents: Option<u64> },
    DeleteTasks { matched_tasks: usize, deleted_tasks: Option<usize>, original_query: String },
    /// How many tasks a cancellation named, and how many of them it
    /// cancelled: the others had run already, or were unknown.
    TaskCancelation { matched_tasks: usize, canceled_tasks: Option<usize> },
    Dump { dump_uid: String },
}

/// The view of [`Details`].
pub enum DetailsView {
    DocumentAddition { received_documents: u64, indexed_documents: Option<u64> },
    Settings { settings: Seq<char> },
    IndexInfo { primary_key: Option<Seq<char>> },
    DocumentDeletion { received_document_ids: usize, deleted_documents: Option<u64> },
    ClearAll { deleted_documents: Option<u64> },
    DeleteTasks { matched_tasks: usize, deleted_tasks: Option<usize>, original_query: Seq<char> },
    TaskCancelation { matched_tasks: usize, canceled_tasks: Option<usize> },
    Dump { dump_uid: Seq<char> },
}

/// The operation a task asks for, with everything needed to run it.
#[derive(Debug, PartialEq)]
pub enum KindWithContent {
    DocumentImport {
        index_uid: String,
        primary_key: Option<String>,
        method: IndexDocumentsMethod,
        content_file: Uuid,
        documents_count: u64,
        allow_index_creation: bool,
    },
    DocumentDeletion { index_uid: String, documents_ids: Vec<String> },
    DocumentClear { index_uid: String },
    Settings {
        index_uid: String,
        new_settings: Settings,
        is_deletion: bool,
        allow_index_creation: bool,
    },
    IndexDeletion { index_uid: String },
    IndexCreation { index_uid: String, primary_key: Option<String> },
    IndexUpdate { index_uid: String, primary_key: Option<String> },
    IndexSwap { lhs: String, rhs: String },
    CancelTask { tasks: Vec<TaskId> },
    DeleteTasks { query: String, tasks: Vec<TaskId> },
    DumpExport { dump_uid: String, keys: Vec<Key>, instance_uid: Option<InstanceUid> },
    Snapshot,
}

/// The view of [`KindWithContent`].
pub enum KindView {
    DocumentImport {
        index_uid: Seq<char>,
        primary_key: Option<Seq<char>>,
        method: IndexDocumentsMethod,
        content_file: Uuid,
        documents_count: u64,
        allow_index_creation: bool,
    },
    DocumentDeletion { index_uid: Seq<char>, documents_ids: Seq<Seq<char>> },
    DocumentClear { index_uid: Seq<char> },
    Settings {
        index_uid: Seq<char>,
        new_settings: Seq<char>,
        is_deletion: bool,
        allow_index_creation: bool,
    },
    IndexDeletion { index_uid: Seq<char> },
    IndexCreation { index_uid: Seq<char>, primary_key: Option<Seq<char>> },
    IndexUpdate { index_uid: Seq<char>, primary_key: Option<Seq<char>> },
    IndexSwap { lhs: Seq<char>, rhs: Seq<char> },
    CancelTask { tasks: Seq<TaskId> },
    DeleteTasks { query: Seq<char>, tasks: Seq<TaskId> },
    DumpExport { dump_uid: Seq<char>, keys: Seq<Seq<char>>, instance_uid: Option<InstanceUid> },
    Snapshot,
}

/// One unit of work, as the queue records it.
#[derive(Debug, PartialEq)]
pub struct Task {
    pub uid: TaskId,
    pub enqueued_at: OffsetDateTime,
    pub started_at: Option<OffsetDateTime>,
    pub finished_at: Option<OffsetDateTime>,
    pub error: Option<ResponseError>,
    pub details: Option<Details>,
    pub status: Status,
    pub kind: KindWithContent,
}

/// The view of a [`Task`].
pub struct TaskView {
    pub uid: TaskId,
    pub enqueued_at: OffsetDateTime,
    pub started_at: Option<OffsetDateTime>,
    pub finished_at: Option<OffsetDateTime>,
    pub error: Option<ResponseErrorView>,
    pub details: Option<DetailsView>,
    pub status: Status,
    pub kind: KindView,
}

impl View for Settings {
    type V = Seq<char>;

    open spec fn view(&self) -> Seq<char> {
        self.document@
    }
}

impl DeepView for Settings {
    type V = Seq<char>;

    open spec fn deep_view(&self) -> Seq<char> {
        self.document@
    }
}

impl View for Key {
    type V = Seq<char>;

    open spec fn view(&self) -> Seq<char> {
        self.document@
    }
}

impl DeepView for Key {
    type V = Seq<char>;

    open spec fn deep_view(&self) -> Seq<char> {
        self.document@
    }
}

impl View for ResponseError {
    type V = ResponseErrorView;

    open spec fn view(&self) -> ResponseErrorView {
        ResponseErrorView {
            message: self.message@,
            error_code: self.error_code@,
            error_type: self.error_type@,
            error_link: self.error_link@,
        }
    }
}

impl DeepView for ResponseError {
    type V = ResponseErrorView;

    open spec fn deep_view(&self) -> ResponseErrorView {
        self@
    }
}

impl View for Details {
    type V = DetailsView;

    open spec fn view(&self) -> DetailsView {
        match *self {
            Details::DocumentAddition { received_documents, indexed_documents } => {
                DetailsView::DocumentAddition { received_documents, indexed_documents }
            },
            Details::Settings { settings } => DetailsView::Settings { settings: settings@ },
            Details::IndexInfo { primary_key } => DetailsView::IndexInfo {
                primary_key: primary_key.deep_view(),
            },
            Details::DocumentDeletion { received_document_ids, deleted_documents } => {
                DetailsView::DocumentDeletion { received_document_ids, deleted_documents }
            },
            Details::ClearAll { deleted_documents } => DetailsView::ClearAll { deleted_documents },
            Details::DeleteTasks { matched_tasks, deleted_tasks, original_query } => {
                DetailsView::DeleteTasks {
                    matched_tasks,
                    deleted_tasks,
                    original_query: original_query@,
                }
            },
            Details::TaskCancelation { matched_tasks, canceled_tasks } => {
                DetailsView::TaskCancelation { matched_tasks, canceled_tasks }
            },
            Details::Dump { dump_uid } => DetailsView::Dump { dump_uid: dump_uid@ },
        }
    }
}

impl DeepView for Details {
    type V = DetailsView;

    open spec fn deep_view(&self) -> DetailsView {
        self@
    }
}

impl View for KindWithContent {
    type V = KindView;

    open spec fn view(&self) -> KindView {
        match *self {
            KindWithContent::DocumentImport {
                index_uid,
                primary_key,
                method,
                content_file,
                documents_count,
                allow_index_creation,
            } => KindView::DocumentImport {
                index_uid: index_uid@,
                primary_key: primary_key.deep_view(),
                method,
                content_file,
                documents_count,
                allow_index_creation,
            },
            KindWithContent::DocumentDeletion { index_uid, documents_ids } => {
                KindView::DocumentDeletion {
                    index_uid: index_uid@,
                    documents_ids: documents_ids.deep_view(),
                }
            },
            KindWithContent::DocumentClear { index_uid } => KindView::DocumentClear {
                index_uid: index_uid@,
            },
            KindWithContent::Settings {
                index_uid,
                new_settings,
                is_deletion,
                allow_index_creation,
            } => KindView::Settings {
                index_uid: index_uid@,
                new_settings: new_settings@,
                is_deletion,
                allow_index_creation,
            },
            KindWithContent::IndexDeletion { index_uid } => KindView::IndexDeletion {
                index_uid: index_uid@,
            },
            KindWithContent::IndexCreation { index_uid, primary_key } => KindView::IndexCreation {
                index_uid: index_uid@,
                primary_key: primary_key.deep_view(),
            },
            KindWithContent::IndexUpdate { index_uid, primary_key } => KindView::IndexUpdate {
                index_uid: index_uid@,
                primary_key: primary_key.deep_view(),
            },
            KindWithContent::IndexSwap { lhs, rhs } => KindView::IndexSwap { lhs: lhs@, rhs: rhs@ },
            KindWithContent::CancelTask { tasks } => KindView::CancelTask { tasks: tasks@ },
            KindWithContent::DeleteTasks { query, tasks } => KindView::DeleteTasks {
                query: query@,
                tasks: tasks@,
            },
            KindWithContent::DumpExport { dump_uid, keys, instance_uid } => KindView::DumpExport {
                dump_uid: dump_uid@,
                keys: keys.deep_view(),
                instance_uid,
            },
            KindWithContent::Snapshot => KindView::Snapshot,
        }
    }
}

impl DeepView for KindWithContent {
    type V = KindView;

    open spec fn deep_view(&self) -> KindView {
        self@
    }
}

impl View for Task {
    type V = TaskView;

    open spec fn view(&self) -> TaskView {
        TaskView {
            uid: self.uid,
            enqueued_at: self.enqueued_at,
            started_at: self.started_at,
            finished_at: self.finished_at,
            error: self.error.deep_view(),
            details: self.details.deep_view(),
            status: self.status,
            kind: self.kind@,
        }
    }
}

impl DeepView for Task {
    type V = TaskView;

    open spec fn deep_view(&self) -> TaskView {
        self@
    }
}

impl KindView {
    /// The payload-free tag of this kind.
    pub open spec fn as_kind(self) -> Kind {
        match self {
            KindView::DocumentImport { .. } => Kind::DocumentImport,
            KindView::DocumentDeletion { .. } => Kind::DocumentDeletion,
            KindView::DocumentClear { .. } => Kind::DocumentClear,
            KindView::Settings { .. } => Kind::Settings,
            KindView::IndexCreation { .. } => Kind::IndexCreation,
            KindView::IndexDeletion { .. } => Kind::IndexDeletion,
            KindView::IndexUpdate { .. } => Kind::IndexUpdate,
            KindView::IndexSwap { .. } => Kind::IndexSwap,
            KindView::CancelTask { .. } => Kind::CancelTask,
            KindView::DeleteTasks { .. } => Kind::DeleteTasks,
            KindView::DumpExport { .. } => Kind::DumpExport,
            KindView::Snapshot => Kind::Snapshot,
        }
    }

    /// The one index that this kind works on, if it works on exactly one.
    pub open spec fn index_uid(self) -> Option<Seq<char>> {
        match self {
            KindView::DocumentImport { index_uid, .. } => Some(index_uid),
            KindView::DocumentDeletion { index_uid, .. } => Some(index_uid),
            KindView::DocumentClear { index_uid } => Some(index_uid),
            KindView::Settings { index_uid, .. } => Some(index_uid),
            KindView::IndexCreation { index_uid, .. } => Some(index_uid),
            KindView::IndexUpdate { index_uid, .. } => Some(index_uid),
            KindView::IndexDeletion { index_uid } => Some(index_uid),
            _ => None,
        }
    }

    /// The indexes that this kind touches, in the order in which it names
    /// them; `None` for a kind that touches no index.
    pub open spec fn indexes(self) -> Option<Seq<Seq<char>>> {
        match self {
            KindView::IndexSwap { lhs, rhs } => Some(seq![lhs, rhs]),
            KindView::DumpExport { .. } => None,
            KindView::Snapshot => None,
            KindView::CancelTask { .. } => None,
            KindView::DeleteTasks { .. } => None,
            _ => Some(seq![self.index_uid()->0]),
        }
    }

    /// Whether this kind touches the index named `name`.
    pub open spec fn touches(self, name: Seq<char>) -> bool {
        match self.indexes() {
            Some(names) => names.contains(name),
            None => false,
        }
    }

    /// The update file that this kind reads, if any.
    pub open spec fn content_uuid(self) -> Option<Uuid> {
        match self {
            KindView::DocumentImport { content_file, .. } => Some(content_file),
            _ => None,
        }
    }

    /// The details that a task of this kind starts with.
    ///
    /// An index deletion, an index swap, a task cancellation, a dump export
    /// and a snapshot start without details.
    pub open spec fn default_details(self) -> Option<DetailsView> {
        match self {
            KindView::DocumentImport { documents_count, .. } => Some(
                DetailsView::DocumentAddition {
                    received_documents: documents_count,
                    indexed_documents: Some(0),
                },
            ),
            KindView::DocumentDeletion { documents_ids, .. } => Some(
                DetailsView::DocumentDeletion {
                    received_document_ids: documents_ids.len() as usize,
                    deleted_documents: None,
                },
            ),
            KindView::DocumentClear { .. } => Some(
                DetailsView::ClearAll { deleted_documents: None },
            ),
            KindView::Settings { new_settings, .. } => Some(
                DetailsView::Settings { settings: new_settings },
            ),
            KindView::IndexDeletion { .. } => None,
            KindView::IndexCreation { primary_key, .. } => Some(
                DetailsView::IndexInfo { primary_key },
            ),
            KindView::IndexUpdate { primary_key, .. } => Some(
                DetailsView::IndexInfo { primary_key },
            ),
            KindView::IndexSwap { .. } => None,
            KindView::CancelTask { .. } => None,
            KindView::DeleteTasks { query, tasks } => Some(
                DetailsView::DeleteTasks {
                    matched_tasks: tasks.len() as usize,
                    deleted_tasks: None,
                    original_query: query,
                },
            ),
            KindView::DumpExport { .. } => None,
            KindView::Snapshot => None,
        }
    }

    /// The details that a conversion from a kind gives: what is known of the
    /// task before anything ran.
    ///
    /// It differs from [`KindView::default_details`] in that an import counts
    /// no indexed document yet, a deletion and a clear have nothing to show,
    /// and a dump export shows its identifier.
    pub open spec fn converted_details(self) -> Option<DetailsView> {
        match self {
            KindView::DocumentImport { documents_count, .. } => Some(
                DetailsView::DocumentAddition {
                    received_documents: documents_count,
                    indexed_documents: None,
                },
            ),
            KindView::Settings { new_settings, .. } => Some(
                DetailsView::Settings { settings: new_settings },
            ),
            KindView::IndexCreation { primary_key, .. } => Some(
                DetailsView::IndexInfo { primary_key },
            ),
            KindView::IndexUpdate { primary_key, .. } => Some(
                DetailsView::IndexInfo { primary_key },
            ),
            KindView::DeleteTasks { query, tasks } => Some(
                DetailsView::DeleteTasks {
                    matched_tasks: tasks.len() as usize,
                    deleted_tasks: None,
                    original_query: query,
                },
            ),
            KindView::DumpExport { dump_uid, .. } => Some(DetailsView::Dump { dump_uid }),
            _ => None,
        }
    }
}

impl Clone for Settings {
    fn clone(&self) -> (copy: Self)
        ensures
            copy@ == self@,
    {
        Settings { document: self.document.clone() }
    }
}

impl Clone for Key {
    fn clone(&self) -> (copy: Self)
        ensures
            copy@ == self@,
    {
        Key { document: self.document.clone() }
    }
}

impl Clone for ResponseError {
    fn clone(&self) -> (copy: Self)
        ensures
            copy@ == self@,
    {
        ResponseError {
            message: self.message.clone(),
            error_code: self.error_code.clone(),
            error_type: self.error_type.clone(),
            error_link: self.error_link.clone(),
        }
    }
}

/// A copy of a list of keys, in the same order.
pub fn clone_keys(keys: &Vec<Key>) -> (copy: Vec<Key>)
    ensures
        copy.deep_view() == keys.deep_view(),
{
    let mut copy: Vec<Key> = Vec::new();
    let mut i: usize = 0;
    while i < keys.len()
        invariant
            i <= keys.len(),
            copy.len() == i,
            forall|j: int| 0 <= j < i ==> copy[j]@ == keys[j]@,
        decreases keys.len() - i,
    {
        copy.push(keys[i].clone());
        i += 1;
    }
    assert(copy.deep_view() =~= keys.deep_view());
    copy
}

impl Clone for Details {
    fn clone(&self) -> (copy: Self)
        ensures
            copy@ == self@,
    {
        match self {
            Details::DocumentAddition { received_documents, indexed_documents } => {
                Details::DocumentAddition {
                    received_documents: *received_documents,
                    indexed_documents: *indexed_documents,
                }
            },
            Details::Settings { settings } => Details::Settings { settings: settings.clone() },
            Details::IndexInfo { primary_key } => Details::IndexInfo {
                primary_key: clone_opt_string(primary_key),
            },
            Details::DocumentDeletion { received_document_ids, deleted_documents } => {
                Details::DocumentDeletion {
                    received_document_ids: *received_document_ids,
                    deleted_documents: *deleted_documents,
                }
            },
            Details::ClearAll { deleted_documents } => Details::ClearAll {
                deleted_documents: *deleted_documents,
            },
            Details::DeleteTasks { matched_tasks, deleted_tasks, original_query } => {
                Details::DeleteTasks {
                    matched_tasks: *matched_tasks,
                    deleted_tasks: *deleted_tasks,
                    original_query: original_query.clone(),
                }
            },
            Details::TaskCancelation { matched_tasks, canceled_tasks } => {
                Details::TaskCancelation {
                    matched_tasks: *matched_tasks,
                    canceled_tasks: *canceled_tasks,
                }
            },
            Details::Dump { dump_uid } => Details::Dump { dump_uid: dump_uid.clone() },
        }
    }
}

impl Clone for KindWithContent {
    fn clone(&self) -> (copy: Self)
        ensures
            copy@ == self@,
    {
        match self {
            KindWithContent::DocumentImport {
                index_uid,
                primary_key,
                method,
                content_file,
                documents_count,
                allow_index_creation,
            } => KindWithContent::DocumentImport {
                index_uid: index_uid.clone(),
                primary_key: clone_opt_string(primary_key),
                method: *method,
                content_file: *content_file,
                documents_count: *documents_count,
                allow_index_creation: *allow_index_creation,
            },
            KindWithContent::DocumentDeletion { index_uid, documents_ids } => {
                KindWithContent::DocumentDeletion {
                    index_uid: index_uid.clone(),
                    documents_ids: clone_strings(documents_ids),
                }
            },
            KindWithContent::DocumentClear { index_uid } => KindWithContent::DocumentClear {
                index_uid: index_uid.clone(),
            },
            KindWithContent::Settings {
                index_uid,
                new_settings,
                is_deletion,
                allow_index_creation,
            } => KindWithContent::Settings {
                index_uid: index_uid.clone(),
                new_settings: new_settings.clone(),
                is_deletion: *is_deletion,
                allow_index_creation: *allow_index_creation,
            },
            KindWithContent::IndexDeletion { index_uid } => KindWithContent::IndexDeletion {
                index_uid: index_uid.clone(),
            },
            KindWithContent::IndexCreation { index_uid, primary_key } => {
                KindWithContent::IndexCreation {
                    index_uid: index_uid.clone(),
                    primary_key: clone_opt_string(primary_key),
                }
            },
            KindWithContent::IndexUpdate { index_uid, primary_key } => {
                KindWithContent::IndexUpdate {
                    index_uid: index_uid.clone(),
                    primary_key: clone_opt_string(primary_key),
                }
            },
            KindWithContent::IndexSwap { lhs, rhs } => KindWithContent::IndexSwap {
                lhs: lhs.clone(),
                rhs: rhs.clone(),
            },
            KindWithContent::CancelTask { tasks } => KindWithContent::CancelTask {
                tasks: clone_ids(tasks),
            },
            KindWithContent::DeleteTasks { query, tasks } => KindWithContent::DeleteTasks {
                query: query.clone(),
                tasks: clone_ids(tasks),
            },
            KindWithContent::DumpExport { dump_uid, keys, instance_uid } => {
                KindWithContent::DumpExport {
                    dump_uid: dump_uid.clone(),
                    keys: clone_keys(keys),
                    instance_uid: *instance_uid,
                }
            },
            KindWithContent::Snapshot => KindWithContent::Snapshot,
        }
    }
}

impl Clone for Task {
    fn clone(&self) -> (copy: Self)
        ensures
            copy@ == self@,
    {
        let error = match &self.error {
            Some(e) => Some(e.clone()),
            None => None,
        };
        let details = match &self.details {
            Some(d) => Some(d.clone()),
            None => None,
        };
        Task {
            uid: self.uid,
            enqueued_at: self.enqueued_at,
            started_at: self.started_at,
            finished_at: self.finished_at,
            error,
            details,
            status: self.status,
            kind: self.kind.clone(),
        }
    }
}


impl KindWithContent {
    /// The payload-free tag of this kind.
    pub fn as_kind(&self) -> (kind: Kind)
        ensures
            kind == self@.as_kind(),
    {
        match self {
            KindWithContent::DocumentImport { .. } => Kind::DocumentImport,
            KindWithContent::DocumentDeletion { .. } => Kind::DocumentDeletion,
            KindWithContent::DocumentClear { .. } => Kind::DocumentClear,
            KindWithContent::Settings { .. } => Kind::Settings,
            KindWithContent::IndexCreation { .. } => Kind::IndexCreation,
            KindWithContent::IndexDeletion { .. } => Kind::IndexDeletion,
            KindWithContent::IndexUpdate { .. } => Kind::IndexUpdate,
            KindWithContent::IndexSwap { .. } => Kind::IndexSwap,
            KindWithContent::CancelTask { .. } => Kind::CancelTask,
            KindWithContent::DeleteTasks { .. } => Kind::DeleteTasks,
            KindWithContent::DumpExport { .. } => Kind::DumpExport,
            KindWithContent::Snapshot => Kind::Snapshot,
        }
    }

    /// The one index that this kind works on: none for a swap, which works
    /// on two, and for the kinds that work on no index.
    pub fn index_uid(&self) -> (name: Option<&str>)
        ensures
            name.deep_view() == self@.index_uid(),
    {
        match self {
            KindWithContent::DocumentImport { index_uid, .. } => Some(index_uid.as_str()),
            KindWithContent::DocumentDeletion { index_uid, .. } => Some(index_uid.as_str()),
            KindWithContent::DocumentClear { index_uid } => Some(index_uid.as_str()),
            KindWithContent::Settings { index_uid, .. } => Some(index_uid.as_str()),
            KindWithContent::IndexCreation { index_uid, .. } => Some(index_uid.as_str()),
            KindWithContent::IndexUpdate { index_uid, .. } => Some(index_uid.as_str()),
            KindWithContent::IndexDeletion { index_uid } => Some(index_uid.as_str()),
            _ => None,
        }
    }

    /// The indexes that this kind touches, in the order in which it names
    /// them; `None` for a kind that touches no index.
    pub fn indexes(&self) -> (names: Option<Vec<&str>>)
        ensures
            names.deep_view() == self@.indexes(),
    {
        let names = match self {
            KindWithContent::IndexSwap { lhs, rhs } => {
                let mut both: Vec<&str> = Vec::new();
                both.push(lhs.as_str());
                both.push(rhs.as_str());
                Some(both)
            },
            _ => match self.index_uid() {
                Some(name) => {
                    let mut one: Vec<&str> = Vec::new();
                    one.push(name);
                    Some(one)
                },
                None => None,
            },
        };
        proof {
            if names is Some {
                assert(names->0.deep_view() =~= self@.indexes()->0);
            }
        }
        names
    }

    /// The details that a task of this kind starts with.
    ///
    /// An index deletion, an index swap, a task cancellation, a dump export
    /// and a snapshot start without details.
    pub fn default_details(&self) -> (details: Option<Details>)
        ensures
            details.deep_view() == self@.default_details(),
    {
        match self {
            KindWithContent::DocumentImport { documents_count, .. } => Some(
                Details::DocumentAddition {
                    received_documents: *documents_count,
                    indexed_documents: Some(0),
                },
            ),
            KindWithContent::DocumentDeletion { documents_ids, .. } => Some(
                Details::DocumentDeletion {
                    received_document_ids: documents_ids.len(),
                    deleted_documents: None,
                },
            ),
            KindWithContent::DocumentClear { .. } => Some(
                Details::ClearAll { deleted_documents: None },
            ),
            KindWithContent::Settings { new_settings, .. } => Some(
                Details::Settings { settings: new_settings.clone() },
            ),
            KindWithContent::IndexDeletion { .. } => None,
            KindWithContent::IndexCreation { primary_key, .. } => Some(
                Details::IndexInfo { primary_key: clone_opt_string(primary_key) },
            ),
            KindWithContent::IndexUpdate { primary_key, .. } => Some(
                Details::IndexInfo { primary_key: clone_opt_string(primary_key) },
            ),
            KindWithContent::IndexSwap { .. } => None,
            KindWithContent::CancelTask { .. } => None,
            KindWithContent::DeleteTasks { query, tasks } => Some(
                Details::DeleteTasks {
                    matched_tasks: tasks.len(),
                    deleted_tasks: None,
                    original_query: query.clone(),
                },
            ),
            KindWithContent::DumpExport { .. } => None,
            KindWithContent::Snapshot => None,
        }
    }

    /// The update file that this kind reads, if any.
    pub fn content_uuid(&self) -> (file: Option<&Uuid>)
        ensures
            match file {
                Some(uuid) => self@.content_uuid() == Some(*uuid),
                None => self@.content_uuid() is None,
            },
    {
        match self {
            KindWithContent::DocumentImport { content_file, .. } => Some(content_file),
            _ => None,
        }
    }
}

impl Task {
    /// The one index that the task works on: none for a swap, which works
    /// on two, and for the kinds that work on no index.
    pub fn index_uid(&self) -> (name: Option<&str>)
        ensures
            name.deep_view() == self@.kind.index_uid(),
    {
        self.kind.index_uid()
    }

    /// The indexes that the task touches, in the order in which its kind
    /// names them; `None` for a task that touches no index.
    pub fn indexes(&self) -> (names: Option<Vec<&str>>)
        ensures
            names.deep_view() == self@.kind.indexes(),
    {
        self.kind.indexes()
    }

    /// The update file that the task reads, if any.
    pub fn content_uuid(&self) -> (file: Option<&Uuid>)
        ensures
            match file {
                Some(uuid) => self@.kind.content_uuid() == Some(*uuid),
                None => self@.kind.content_uuid() is None,
            },
    {
        self.kind.content_uuid()
    }
}


impl ResponseErrorView {
    /// The error that answers a request which cannot be understood.
    pub open spec fn bad_request(message: Seq<char>) -> ResponseErrorView {
        ResponseErrorView {
            message,
            error_code: "bad_request"@,
            error_type: "invalid_request"@,
            error_link: "https://docs.meilisearch.com/errors#bad_request"@,
        }
    }
}

impl ResponseErrorView {
    /// The error of a task that was cancelled before it ran.
    pub open spec fn canceled() -> ResponseErrorView {
        ResponseErrorView {
            message: "The task was canceled before it ran."@,
            error_code: "task_canceled"@,
            error_type: "invalid_request"@,
            error_link: "https://docs.meilisearch.com/errors#task_canceled"@,
        }
    }
}

impl ResponseError {
    /// The error of a task that was cancelled before it ran.
    pub fn canceled() -> (error: ResponseError)
        ensures
            error@ == ResponseErrorView::canceled(),
    {
        ResponseError {
            message: "The task was canceled before it ran.".to_owned(),
            error_code: "task_canceled".to_owned(),
            error_type: "invalid_request".to_owned(),
            error_link: "https://docs.meilisearch.com/errors#task_canceled".to_owned(),
        }
    }

    /// The error that answers a request which cannot be understood.
    pub fn bad_request(message: String) -> (error: ResponseError)
        ensures
            error@ == ResponseErrorView::bad_request(message@),
    {
        ResponseError {
            message,
            error_code: "bad_request".to_owned(),
            error_type: "invalid_request".to_owned(),
            error_link: "https://docs.meilisearch.com/errors#bad_request".to_owned(),
        }
    }
}

impl Status {
    /// The name of a status, as clients read and write it.
    pub open spec fn name(self) -> Seq<char> {
        match self {
            Status::Enqueued => "enqueued"@,
            Status::Processing => "processing"@,
            Status::Succeeded => "succeeded"@,
            Status::Failed => "failed"@,
        }
    }

    /// The status that a name stands for, if it is the name of one.
    pub open spec fn parse(text: Seq<char>) -> Option<Status> {
        if text == "enqueued"@ {
            Some(Status::Enqueued)
        } else if text == "processing"@ {
            Some(Status::Processing)
        } else if text == "succeeded"@ {
            Some(Status::Succeeded)
        } else if text == "failed"@ {
            Some(Status::Failed)
        } else {
            None
        }
    }

    /// The name of the status.
    pub fn as_str(&self) -> (name: &'static str)
        ensures
            name@ == self.name(),
    {
        match self {
            Status::Enqueued => "enqueued",
            Status::Processing => "processing",
            Status::Succeeded => "succeeded",
            Status::Failed => "failed",
        }
    }

    /// The name of the status.
    pub fn to_string(&self) -> (name: String)
        ensures
            name@ == self.name(),
    {
        self.as_str().to_owned()
    }

    /// The status that a name stands for. Any other text is refused as a
    /// bad request, with a message that quotes it.
    pub fn from_str(s: &str) -> (result: Result<Status, ResponseError>)
        ensures
            match result {
                Ok(status) => Status::parse(s@) == Some(status),
                Err(error) => Status::parse(s@) is None && error@ == ResponseErrorView::bad_request(
                    "`"@ + s@ + "` is not a status. Available types are"@,
                ),
            },
    {
        if str_eq(s, "enqueued") {
            Ok(Status::Enqueued)
        } else if str_eq(s, "processing") {
            Ok(Status::Processing)
        } else if str_eq(s, "succeeded") {
            Ok(Status::Succeeded)
        } else if str_eq(s, "failed") {
            Ok(Status::Failed)
        } else {
            let mut message = "`".to_owned();
            message.append(s);
            message.append("` is not a status. Available types are");
            Err(ResponseError::bad_request(message))
        }
    }

    /// Reading the name of a status gives the status back.
    pub proof fn law_name_round_trip(self)
        ensures
            Status::parse(self.name()) == Some(self),
    {
        reveal_strlit("enqueued");
        reveal_strlit("processing");
        reveal_strlit("succeeded");
        reveal_strlit("failed");
        assert("enqueued"@.len() == 8);
        assert("processing"@.len() == 10);
        assert("succeeded"@.len() == 9);
        assert("failed"@.len() == 6);
    }
}

impl Kind {
    /// The kind that a name stands for, if it is the name of one. A
    /// document addition and a document update are both document imports.
    pub open spec fn parse(text: Seq<char>) -> Option<Kind> {
        if text == "document_addition"@ {
            Some(Kind::DocumentImport)
        } else if text == "document_update"@ {
            Some(Kind::DocumentImport)
        } else if text == "document_deletion"@ {
            Some(Kind::DocumentDeletion)
        } else if text == "document_clear"@ {
            Some(Kind::DocumentClear)
        } else if text == "settings"@ {
            Some(Kind::Settings)
        } else if text == "index_creation"@ {
            Some(Kind::IndexCreation)
        } else if text == "index_deletion"@ {
            Some(Kind::IndexDeletion)
        } else if text == "index_update"@ {
            Some(Kind::IndexUpdate)
        } else if text == "index_swap"@ {
            Some(Kind::IndexSwap)
        } else if text == "cancel_task"@ {
            Some(Kind::CancelTask)
        } else if text == "delete_tasks"@ {
            Some(Kind::DeleteTasks)
        } else if text == "dump_export"@ {
            Some(Kind::DumpExport)
        } else if text == "snapshot"@ {
            Some(Kind::Snapshot)
        } else {
            None
        }
    }

    /// The kind that a name stands for. Any other text is refused as a bad
    /// request, with a message that quotes it.
    pub fn from_str(s: &str) -> (result: Result<Kind, ResponseError>)
        ensures
            match result {
                Ok(kind) => Kind::parse(s@) == Some(kind),
                Err(error) => Kind::parse(s@) is None && error@ == ResponseErrorView::bad_request(
                    "`"@ + s@ + "` is not a type. Available status are "@,
                ),
            },
    {
        if str_eq(s, "document_addition") {
            Ok(Kind::DocumentImport)
        } else if str_eq(s, "document_update") {
            Ok(Kind::DocumentImport)
        } else if str_eq(s, "document_deletion") {
            Ok(Kind::DocumentDeletion)
        } else if str_eq(s, "document_clear") {
            Ok(Kind::DocumentClear)
        } else if str_eq(s, "settings") {
            Ok(Kind::Settings)
        } else if str_eq(s, "index_creation") {
            Ok(Kind::IndexCreation)
        } else if str_eq(s, "index_deletion") {
            Ok(Kind::IndexDeletion)
        } else if str_eq(s, "index_update") {
            Ok(Kind::IndexUpdate)
        } else if str_eq(s, "index_swap") {
            Ok(Kind::IndexSwap)
        } else if str_eq(s, "cancel_task") {
            Ok(Kind::CancelTask)
        } else if str_eq(s, "delete_tasks") {
            Ok(Kind::DeleteTasks)
        } else if str_eq(s, "dump_export") {
            Ok(Kind::DumpExport)
        } else if str_eq(s, "snapshot") {
            Ok(Kind::Snapshot)
        } else {
            let mut message = "`".to_owned();
            message.append(s);
            message.append("` is not a type. Available status are ");
            Err(ResponseError::bad_request(message))
        }
    }
}

impl vstd::std_specs::convert::FromSpecImpl<&KindWithContent> for Option<Details> {
    open spec fn obeys_from_spec() -> bool {
        true
    }

    open spec fn from_spec(kind: &KindWithContent) -> Option<Details> {
        match *kind {
            KindWithContent::DocumentImport { documents_count, .. } => Some(
                Details::DocumentAddition {
                    received_documents: documents_count,
                    indexed_documents: None,
                },
            ),
            KindWithContent::Settings { new_settings, .. } => Some(
                Details::Settings { settings: new_settings },
            ),
            KindWithContent::IndexCreation { primary_key, .. } => Some(
                Details::IndexInfo { primary_key },
            ),
            KindWithContent::IndexUpdate { primary_key, .. } => Some(
                Details::IndexInfo { primary_key },
            ),
            KindWithContent::DeleteTasks { query, tasks } => Some(
                Details::DeleteTasks {
                    matched_tasks: tasks@.len() as usize,
                    deleted_tasks: None,
                    original_query: query,
                },
            ),
            KindWithContent::DumpExport { dump_uid, .. } => Some(Details::Dump { dump_uid }),
            _ => None,
        }
    }
}

impl From<&KindWithContent> for Option<Details> {
    /// What is known of a task of this kind before anything ran.
    fn from(kind: &KindWithContent) -> (details: Option<Details>) {
        match kind {
            KindWithContent::DocumentImport { documents_count, .. } => Some(
                Details::DocumentAddition {
                    received_documents: *documents_count,
                    indexed_documents: None,
                },
            ),
            KindWithContent::Settings { new_settings, .. } => Some(
                Details::Settings { settings: Settings { document: new_settings.document.clone() } },
            ),
            KindWithContent::IndexCreation { primary_key, .. } => Some(
                Details::IndexInfo {
                    primary_key: match primary_key {
                        Some(key) => Some(key.clone()),
                        None => None,
                    },
                },
            ),
            KindWithContent::IndexUpdate { primary_key, .. } => Some(
                Details::IndexInfo {
                    primary_key: match primary_key {
                        Some(key) => Some(key.clone()),
                        None => None,
                    },
                },
            ),
            KindWithContent::DeleteTasks { query, tasks } => Some(
                Details::DeleteTasks {
                    matched_tasks: tasks.len(),
                    deleted_tasks: None,
                    original_query: query.clone(),
                },
            ),
            KindWithContent::DumpExport { dump_uid, .. } => Some(
                Details::Dump { dump_uid: dump_uid.clone() },
            ),
            _ => None,
        }
    }
}

/// The details that a conversion from a kind gives are those that the view
/// of the kind describes.
pub proof fn law_converted_details(kind: &KindWithContent)
    ensures
        <Option<Details> as vstd::std_specs::convert::FromSpec<&KindWithContent>>::from_spec(
            kind,
        ).deep_view() == kind@.converted_details(),
{
}


/// The name that an index has after the indexes `lhs` and `rhs` traded
/// their names.
pub open spec fn swap_name(name: Seq<char>, lhs: Seq<char>, rhs: Seq<char>) -> Seq<char> {
    if name == lhs {
        rhs
    } else if name == rhs {
        lhs
    } else {
        name
    }
}

impl KindView {
    /// The kind after the indexes `lhs` and `rhs` traded their names: it
    /// names `rhs` where it named `lhs`, and `lhs` where it named `rhs`.
    pub open spec fn swapped(self, lhs: Seq<char>, rhs: Seq<char>) -> KindView {
        match self {
            KindView::DocumentImport {
                index_uid,
                primary_key,
                method,
                content_file,
                documents_count,
                allow_index_creation,
            } => KindView::DocumentImport {
                index_uid: swap_name(index_uid, lhs, rhs),
                primary_key,
                method,
                content_file,
                documents_count,
                allow_index_creation,
            },
            KindView::DocumentDeletion { index_uid, documents_ids } => KindView::DocumentDeletion {
                index_uid: swap_name(index_uid, lhs, rhs),
                documents_ids,
            },
            KindView::DocumentClear { index_uid } => KindView::DocumentClear {
                index_uid: swap_name(index_uid, lhs, rhs),
            },
            KindView::Settings { index_uid, new_settings, is_deletion, allow_index_creation } => {
                KindView::Settings {
                    index_uid: swap_name(index_uid, lhs, rhs),
                    new_settings,
                    is_deletion,
                    allow_index_creation,
                }
            },
            KindView::IndexDeletion { index_uid } => KindView::IndexDeletion {
                index_uid: swap_name(index_uid, lhs, rhs),
            },
            KindView::IndexCreation { index_uid, primary_key } => KindView::IndexCreation {
                index_uid: swap_name(index_uid, lhs, rhs),
                primary_key,
            },
            KindView::IndexUpdate { index_uid, primary_key } => KindView::IndexUpdate {
                index_uid: swap_name(index_uid, lhs, rhs),
                primary_key,
            },
            KindView::IndexSwap { lhs: left, rhs: right } => KindView::IndexSwap {
                lhs: swap_name(left, lhs, rhs),
                rhs: swap_name(right, lhs, rhs),
            },
            _ => self,
        }
    }

    /// After two indexes traded their names, a kind touches an index
    /// exactly when it touched the index that had this name's other name
    /// before; and it is of the same kind as before.
    pub proof fn law_swapped(self, lhs: Seq<char>, rhs: Seq<char>, name: Seq<char>)
        ensures
            self.swapped(lhs, rhs).touches(name) == self.touches(swap_name(name, lhs, rhs)),
            self.swapped(lhs, rhs).as_kind() == self.as_kind(),
    {
        let after = self.swapped(lhs, rhs);
        let before_name = swap_name(name, lhs, rhs);
        match self.indexes() {
            Some(names) => {
                let renamed = after.indexes()->0;
                assert(renamed.len() == names.len());
                assert forall|i: int| 0 <= i < names.len() implies renamed[i] == swap_name(
                    names[i],
                    lhs,
                    rhs,
                ) by {}
                if names.contains(before_name) {
                    let i = choose|i: int| 0 <= i < names.len() && names[i] == before_name;
                    assert(renamed[i] == name);
                }
                if renamed.contains(name) {
                    let i = choose|i: int| 0 <= i < renamed.len() && renamed[i] == name;
                    assert(names[i] == before_name);
                }
            },
            None => {},
        }
    }
}

/// The name that an index has after the indexes `lhs` and `rhs` traded
/// their names.
pub fn swapped_name(name: String, lhs: &str, rhs: &str) -> (renamed: String)
    ensures
        renamed@ == swap_name(name@, lhs@, rhs@),
{
    if str_eq(name.as_str(), lhs) {
        rhs.to_owned()
    } else if str_eq(name.as_str(), rhs) {
        lhs.to_owned()
    } else {
        name
    }
}

impl KindWithContent {
    /// The kind after the indexes `lhs` and `rhs` traded their names.
    pub fn swapped(self, lhs: &str, rhs: &str) -> (renamed: KindWithContent)
        ensures
            renamed@ == self@.swapped(lhs@, rhs@),
    {
        match self {
            KindWithContent::DocumentImport {
                index_uid,
                primary_key,
                method,
                content_file,
                documents_count,
                allow_index_creation,
            } => KindWithContent::DocumentImport {
                index_uid: swapped_name(index_uid, lhs, rhs),
                primary_key,
                method,
                content_file,
                documents_count,
                allow_index_creation,
            },
            KindWithContent::DocumentDeletion { index_uid, documents_ids } => {
                KindWithContent::DocumentDeletion {
                    index_uid: swapped_name(index_uid, lhs, rhs),
                    documents_ids,
                }
            },
            KindWithContent::DocumentClear { index_uid } => KindWithContent::DocumentClear {
                index_uid: swapped_name(index_uid, lhs, rhs),
            },
            KindWithContent::Settings {
                index_uid,
                new_settings,
                is_deletion,
                allow_index_creation,
            } => KindWithContent::Settings {
                index_uid: swapped_name(index_uid, lhs, rhs),
                new_settings,
                is_deletion,
                allow_index_creation,
            },
            KindWithContent::IndexDeletion { index_uid } => KindWithContent::IndexDeletion {
                index_uid: swapped_name(index_uid, lhs, rhs),
            },
            KindWithContent::IndexCreation { index_uid, primary_key } => {
                KindWithContent::IndexCreation {
                    index_uid: swapped_name(index_uid, lhs, rhs),
                    primary_key,
                }
            },
            KindWithContent::IndexUpdate { index_uid, primary_key } => {
                KindWithContent::IndexUpdate {
                    index_uid: swapped_name(index_uid, lhs, rhs),
                    primary_key,
                }
            },
            KindWithContent::IndexSwap { lhs: left, rhs: right } => KindWithContent::IndexSwap {
                lhs: swapped_name(left, lhs, rhs),
                rhs: swapped_name(right, lhs, rhs),
            },
            KindWithContent::CancelTask { tasks } => KindWithContent::CancelTask { tasks },
            KindWithContent::DeleteTasks { query, tasks } => KindWithContent::DeleteTasks {
                query,
                tasks,
            },
            KindWithContent::DumpExport { dump_uid, keys, instance_uid } => {
                KindWithContent::DumpExport { dump_uid, keys, instance_uid }
            },
            KindWithContent::Snapshot => KindWithContent::Snapshot,
        }
    }
}

} // verus!
