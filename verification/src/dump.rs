//! Tasks as a dump holds them.
//!
//! A dump lists each task without what only the running instance needs: the
//! name of the index stands beside the kind, not inside it, and the update
//! file of an import is not named.

use vstd::prelude::*;
use time::OffsetDateTime;
use crate::tasks::{
    Details, IndexDocumentsMethod, KindWithContent, ResponseError, Settings, Status, Task, TaskId,
};

verus! {

/// The versions of the dump format.
#[derive(Debug, Clone, Copy, PartialEq, Eq, Structural)]
pub enum Version {
    V1,
    V2,
    V3,
    V4,
    V5,
    V6,
}

/// The version of the dumps that are written.
pub fn current_dump_version() -> (version: Version)
    ensures
        version == Version::V6,
{
    Version::V6
}

/// What a dump says of itself.
#[derive(Debug, PartialEq, Eq)]
pub struct Metadata {
    pub dump_version: Version,
    pub db_version: String,
    pub dump_date: OffsetDateTime,
}

/// What a dump says of an index.
#[derive(Debug, PartialEq, Eq)]
pub struct IndexMetadata {
    pub uid: String,
    pub primary_key: Option<String>,
    pub created_at: OffsetDateTime,
    pub updated_at: OffsetDateTime,
}

/// The kind of a task as a dump holds it.
#[derive(Debug, PartialEq)]
pub enum KindDump {
    DocumentImport {
        primary_key: Option<String>,
        method: IndexDocumentsMethod,
        documents_count: u64,
        allow_index_creation: bool,
    },
    DocumentDeletion { documents_ids: Vec<String> },
    DocumentClear,
    Settings { settings: Settings, is_deletion: bool, allow_index_creation: bool },
    IndexDeletion,
    IndexCreation { primary_key: Option<String> },
    IndexUpdate { primary_key: Option<String> },
    IndexSwap { lhs: String, rhs: String },
    CancelTask { tasks: Vec<TaskId> },
    DeleteTasks { query: String, tasks: Vec<TaskId> },
    DumpExport,
    Snapshot,
}

/// A task as a dump holds it.
#[derive(Debug, PartialEq)]
pub struct TaskDump {
    pub uid: TaskId,
    pub index_uid: Option<String>,
    pub status: Status,
    pub kind: KindDump,
    pub details: Option<Details>,
    pub error: Option<ResponseError>,
    pub enqueued_at: OffsetDateTime,
    pub started_at: Option<OffsetDateTime>,
    pub finished_at: Option<OffsetDateTime>,
}

/// The name of the one index that a kind works on, as `Task::index_uid`
/// gives it.
pub open spec fn index_name_of(kind: KindWithContent) -> Option<String> {
    match kind {
        KindWithContent::DocumentImport { index_uid, .. } => Some(index_uid),
        KindWithContent::DocumentDeletion { index_uid, .. } => Some(index_uid),
        KindWithContent::DocumentClear { index_uid } => Some(index_uid),
        KindWithContent::Settings { index_uid, .. } => Some(index_uid),
        KindWithContent::IndexCreation { index_uid, .. } => Some(index_uid),
        KindWithContent::IndexUpdate { index_uid, .. } => Some(index_uid),
        KindWithContent::IndexDeletion { index_uid } => Some(index_uid),
        _ => None,
    }
}

/// The kind as a dump holds it: without the name of its index and without
/// its update file.
pub open spec fn kind_dump_of(kind: KindWithContent) -> KindDump {
    match kind {
        KindWithContent::DocumentImport {
            primary_key,
            method,
            documents_count,
            allow_index_creation,
            ..
        } => KindDump::DocumentImport { primary_key, method, documents_count, allow_index_creation },
        KindWithContent::DocumentDeletion { documents_ids, .. } => KindDump::DocumentDeletion {
            documents_ids,
        },
        KindWithContent::DocumentClear { .. } => KindDump::DocumentClear,
        KindWithContent::Settings { new_settings, is_deletion, allow_index_creation, .. } => {
            KindDump::Settings { settings: new_settings, is_deletion, allow_index_creation }
        },
        KindWithContent::IndexDeletion { .. } => KindDump::IndexDeletion,
        KindWithContent::IndexCreation { primary_key, .. } => KindDump::IndexCreation {
            primary_key,
        },
        KindWithContent::IndexUpdate { primary_key, .. } => KindDump::IndexUpdate { primary_key },
        KindWithContent::IndexSwap { lhs, rhs } => KindDump::IndexSwap { lhs, rhs },
        KindWithContent::CancelTask { tasks } => KindDump::CancelTask { tasks },
        KindWithContent::DeleteTasks { query, tasks } => KindDump::DeleteTasks { query, tasks },
        KindWithContent::DumpExport { .. } => KindDump::DumpExport,
        KindWithContent::Snapshot => KindDump::Snapshot,
    }
}

impl vstd::std_specs::convert::FromSpecImpl<KindWithContent> for KindDump {
    open spec fn obeys_from_spec() -> bool {
        true
    }

    open spec fn from_spec(kind: KindWithContent) -> KindDump {
        kind_dump_of(kind)
    }
}

impl From<KindWithContent> for KindDump {
    /// The kind as a dump holds it.
    fn from(kind: KindWithContent) -> (dump: KindDump) {
        match kind {
            KindWithContent::DocumentImport {
                primary_key,
                method,
                documents_count,
                allow_index_creation,
                ..
            } => KindDump::DocumentImport {
                primary_key,
                method,
                documents_count,
                allow_index_creation,
            },
            KindWithContent::DocumentDeletion { documents_ids, .. } => KindDump::DocumentDeletion {
                documents_ids,
            },
            KindWithContent::DocumentClear { .. } => KindDump::DocumentClear,
            KindWithContent::Settings { new_settings, is_deletion, allow_index_creation, .. } => {
                KindDump::Settings { settings: new_settings, is_deletion, allow_index_creation }
            },
            KindWithContent::IndexDeletion { .. } => KindDump::IndexDeletion,
            KindWithContent::IndexCreation { primary_key, .. } => KindDump::IndexCreation {
                primary_key,
            },
            KindWithContent::IndexUpdate { primary_key, .. } => KindDump::IndexUpdate {
                primary_key,
            },
            KindWithContent::IndexSwap { lhs, rhs } => KindDump::IndexSwap { lhs, rhs },
            KindWithContent::CancelTask { tasks } => KindDump::CancelTask { tasks },
            KindWithContent::DeleteTasks { query, tasks } => KindDump::DeleteTasks { query, tasks },
            KindWithContent::DumpExport { .. } => KindDump::DumpExport,
            KindWithContent::Snapshot => KindDump::Snapshot,
        }
    }
}

/// A copy of the name of the one index that a kind works on.
fn index_name(kind: &KindWithContent) -> (name: Option<String>)
    ensures
        name == index_name_of(*kind),
{
    match kind {
        KindWithContent::DocumentImport { index_uid, .. } => Some(index_uid.clone()),
        KindWithContent::DocumentDeletion { index_uid, .. } => Some(index_uid.clone()),
        KindWithContent::DocumentClear { index_uid } => Some(index_uid.clone()),
        KindWithContent::Settings { index_uid, .. } => Some(index_uid.clone()),
        KindWithContent::IndexCreation { index_uid, .. } => Some(index_uid.clone()),
        KindWithContent::IndexUpdate { index_uid, .. } => Some(index_uid.clone()),
        KindWithContent::IndexDeletion { index_uid } => Some(index_uid.clone()),
        _ => None,
    }
}

impl vstd::std_specs::convert::FromSpecImpl<Task> for TaskDump {
    open spec fn obeys_from_spec() -> bool {
        true
    }

    open spec fn from_spec(task: Task) -> TaskDump {
        TaskDump {
            uid: task.uid,
            index_uid: index_name_of(task.kind),
            status: task.status,
            kind: kind_dump_of(task.kind),
            details: task.details,
            error: task.error,
            enqueued_at: task.enqueued_at,
            started_at: task.started_at,
            finished_at: task.finished_at,
        }
    }
}

impl From<Task> for TaskDump {
    /// The task as a dump holds it: the name of its index beside its kind,
    /// everything else as the store has it.
    fn from(task: Task) -> (dump: TaskDump) {
        let index_uid = index_name(&task.kind);
        TaskDump {
            uid: task.uid,
            index_uid,
            status: task.status,
            kind: KindDump::from(task.kind),
            details: task.details,
            error: task.error,
            enqueued_at: task.enqueued_at,
            started_at: task.started_at,
            finished_at: task.finished_at,
        }
    }
}

/// The name that a dump shows beside a task is the name of the index that
/// the task works on.
pub proof fn law_dump_names_the_index(task: Task)
    ensures
        index_name_of(task.kind).deep_view() == task@.kind.index_uid(),
{
}

} // verus!
