//! The autobatcher: which of the enqueued tasks run together as the next
//! batch.
//!
//! The decision reads the enqueued tasks from the oldest on. The oldest task
//! opens a batch; each following task either joins it, which may change what
//! the batch is, or ends it. A batch is therefore always a run of enqueued
//! tasks that starts at the oldest, and all its tasks work on one index.
//!
//! - An index deletion takes in the whole run before it on the same index,
//!   and nothing after it.
//! - An index creation takes in the document imports, settings changes,
//!   document deletions and clears that follow on its index, unless an
//!   import names another primary key than the one the batch has.
//! - Document imports join when they use the same method. A clear takes in
//!   the imports, deletions and clears before it; deletions join deletions.
//! - Settings changes join each other; then imports may follow that agree
//!   with the first settings change on whether the index may be created,
//!   and with each other on the method.
//! - An index update, an index swap, a task cancellation, a task deletion, a
//!   dump export and a snapshot always run alone.
//!
//! Batches therefore go in the order of the uids: no task runs before an
//! older one that is still enqueued.

use vstd::prelude::*;
use crate::tasks::{IndexDocumentsMethod, KindView, KindWithContent, Task, TaskId, TaskView};
use crate::text::{clone_opt_string, str_eq};

verus! {

/// What a batch does.
#[derive(Debug, PartialEq, Eq)]
pub enum BatchKind {
    IndexCreationWithOps { index_uid: String, primary_key: Option<String> },
    DocumentImport { index_uid: String, method: IndexDocumentsMethod },
    Settings { index_uid: String, allow_index_creation: bool },
    SettingsAndDocuments {
        index_uid: String,
        allow_index_creation: bool,
        method: IndexDocumentsMethod,
    },
    DocumentClear { index_uid: String },
    DocumentDeletion { index_uid: String },
    IndexDeletion { index_uid: String },
    IndexUpdate,
    IndexSwap,
    CancelTask,
    DeleteTasks,
    DumpExport,
    Snapshot,
}

/// The view of a [`BatchKind`].
pub enum BatchKindView {
    IndexCreationWithOps { index_uid: Seq<char>, primary_key: Option<Seq<char>> },
    DocumentImport { index_uid: Seq<char>, method: IndexDocumentsMethod },
    Settings { index_uid: Seq<char>, allow_index_creation: bool },
    SettingsAndDocuments {
        index_uid: Seq<char>,
        allow_index_creation: bool,
        method: IndexDocumentsMethod,
    },
    DocumentClear { index_uid: Seq<char> },
    DocumentDeletion { index_uid: Seq<char> },
    IndexDeletion { index_uid: Seq<char> },
    IndexUpdate,
    IndexSwap,
    CancelTask,
    DeleteTasks,
    DumpExport,
    Snapshot,
}

/// The tasks that run together, and what they do together.
#[derive(Debug, PartialEq, Eq)]
pub struct Batch {
    pub kind: BatchKind,
    /// The uids of the tasks of the batch, from the smallest to the
    /// greatest.
    pub ids: Vec<TaskId>,
}

impl View for BatchKind {
    type V = BatchKindView;

    open spec fn view(&self) -> BatchKindView {
        match *self {
            BatchKind::IndexCreationWithOps { index_uid, primary_key } => {
                BatchKindView::IndexCreationWithOps {
                    index_uid: index_uid@,
                    primary_key: primary_key.deep_view(),
                }
            },
            BatchKind::DocumentImport { index_uid, method } => BatchKindView::DocumentImport {
                index_uid: index_uid@,
                method,
            },
            BatchKind::Settings { index_uid, allow_index_creation } => BatchKindView::Settings {
                index_uid: index_uid@,
                allow_index_creation,
            },
            BatchKind::SettingsAndDocuments { index_uid, allow_index_creation, method } => {
                BatchKindView::SettingsAndDocuments {
                    index_uid: index_uid@,
                    allow_index_creation,
                    method,
                }
            },
            BatchKind::DocumentClear { index_uid } => BatchKindView::DocumentClear {
                index_uid: index_uid@,
            },
            BatchKind::DocumentDeletion { index_uid } => BatchKindView::DocumentDeletion {
                index_uid: index_uid@,
            },
            BatchKind::IndexDeletion { index_uid } => BatchKindView::IndexDeletion {
                index_uid: index_uid@,
            },
            BatchKind::IndexUpdate => BatchKindView::IndexUpdate,
            BatchKind::IndexSwap => BatchKindView::IndexSwap,
            BatchKind::CancelTask => BatchKindView::CancelTask,
            BatchKind::DeleteTasks => BatchKindView::DeleteTasks,
            BatchKind::DumpExport => BatchKindView::DumpExport,
            BatchKind::Snapshot => BatchKindView::Snapshot,
        }
    }
}

impl DeepView for BatchKind {
    type V = BatchKindView;

    open spec fn deep_view(&self) -> BatchKindView {
        self@
    }
}

impl BatchKindView {
    /// The batch that a task opens.
    pub open spec fn start(task: KindView) -> BatchKindView {
        match task {
            KindView::DocumentImport { index_uid, method, .. } => BatchKindView::DocumentImport {
                index_uid,
                method,
            },
            KindView::DocumentDeletion { index_uid, .. } => BatchKindView::DocumentDeletion {
                index_uid,
            },
            KindView::DocumentClear { index_uid } => BatchKindView::DocumentClear { index_uid },
            KindView::Settings { index_uid, allow_index_creation, .. } => BatchKindView::Settings {
                index_uid,
                allow_index_creation,
            },
            KindView::IndexDeletion { index_uid } => BatchKindView::IndexDeletion { index_uid },
            KindView::IndexCreation { index_uid, primary_key } => {
                BatchKindView::IndexCreationWithOps { index_uid, primary_key }
            },
            KindView::IndexUpdate { .. } => BatchKindView::IndexUpdate,
            KindView::IndexSwap { .. } => BatchKindView::IndexSwap,
            KindView::CancelTask { .. } => BatchKindView::CancelTask,
            KindView::DeleteTasks { .. } => BatchKindView::DeleteTasks,
            KindView::DumpExport { .. } => BatchKindView::DumpExport,
            KindView::Snapshot => BatchKindView::Snapshot,
        }
    }

    /// The index of a batch that may still take in tasks; `None` for a
    /// batch that is closed: an index deletion, and the kinds that run
    /// alone.
    pub open spec fn open_index(self) -> Option<Seq<char>> {
        match self {
            BatchKindView::IndexCreationWithOps { index_uid, .. } => Some(index_uid),
            BatchKindView::DocumentImport { index_uid, .. } => Some(index_uid),
            BatchKindView::Settings { index_uid, .. } => Some(index_uid),
            BatchKindView::SettingsAndDocuments { index_uid, .. } => Some(index_uid),
            BatchKindView::DocumentClear { index_uid } => Some(index_uid),
            BatchKindView::DocumentDeletion { index_uid } => Some(index_uid),
            _ => None,
        }
    }

    /// What the batch becomes when it takes in a task of its own index that
    /// is no index deletion; `None` when the task cannot join.
    pub open spec fn fuse(self, task: KindView) -> Option<BatchKindView> {
        match self {
            BatchKindView::IndexCreationWithOps { index_uid, primary_key } => match task {
                KindView::DocumentImport { primary_key: wanted, .. } => if wanted is None {
                    Some(self)
                } else if primary_key is None || primary_key == wanted {
                    Some(BatchKindView::IndexCreationWithOps { index_uid, primary_key: wanted })
                } else {
                    None
                },
                KindView::Settings { .. } => Some(self),
                KindView::DocumentDeletion { .. } => Some(self),
                KindView::DocumentClear { .. } => Some(self),
                _ => None,
            },
            BatchKindView::DocumentImport { index_uid, method } => match task {
                KindView::DocumentImport { method: other, .. } => if other == method {
                    Some(self)
                } else {
                    None
                },
                KindView::DocumentClear { .. } => Some(BatchKindView::DocumentClear { index_uid }),
                _ => None,
            },
            BatchKindView::DocumentDeletion { index_uid } => match task {
                KindView::DocumentDeletion { .. } => Some(self),
                KindView::DocumentClear { .. } => Some(BatchKindView::DocumentClear { index_uid }),
                _ => None,
            },
            BatchKindView::DocumentClear { .. } => match task {
                KindView::DocumentClear { .. } => Some(self),
                _ => None,
            },
            BatchKindView::Settings { index_uid, allow_index_creation } => match task {
                KindView::Settings { .. } => Some(self),
                KindView::DocumentImport { method, allow_index_creation: allowed, .. } => if allowed
                    == allow_index_creation {
                    Some(
                        BatchKindView::SettingsAndDocuments { index_uid, allow_index_creation, method },
                    )
                } else {
                    None
                },
                _ => None,
            },
            BatchKindView::SettingsAndDocuments { allow_index_creation, method, .. } => match task {
                KindView::DocumentImport { method: other, allow_index_creation: allowed, .. } => if other
                    == method && allowed == allow_index_creation {
                    Some(self)
                } else {
                    None
                },
                _ => None,
            },
            _ => None,
        }
    }

    /// What the batch becomes when it takes in the next enqueued task;
    /// `None` when the task ends the batch.
    pub open spec fn absorb(self, task: KindView) -> Option<BatchKindView> {
        match self.open_index() {
            None => None,
            Some(index_uid) => if task.index_uid() != Some(index_uid) {
                None
            } else if task is IndexDeletion {
                Some(BatchKindView::IndexDeletion { index_uid })
            } else {
                self.fuse(task)
            },
        }
    }
}

/// The number of tasks of `tasks` that the batch holds once it has read them
/// from position `next` on, having taken in the `next` first ones.
pub open spec fn batch_end(tasks: Seq<TaskView>, kind: BatchKindView, next: int) -> int
    decreases tasks.len() - next,
{
    if 0 <= next < tasks.len() && kind.absorb(tasks[next].kind) is Some {
        batch_end(tasks, kind.absorb(tasks[next].kind)->0, next + 1)
    } else {
        next
    }
}

/// What the batch is once it has read the tasks from position `next` on.
pub open spec fn batch_kind(tasks: Seq<TaskView>, kind: BatchKindView, next: int) -> BatchKindView
    decreases tasks.len() - next,
{
    if 0 <= next < tasks.len() && kind.absorb(tasks[next].kind) is Some {
        batch_kind(tasks, kind.absorb(tasks[next].kind)->0, next + 1)
    } else {
        kind
    }
}

/// The uids of the `count` first tasks.
pub open spec fn first_uids(tasks: Seq<TaskView>, count: int) -> Seq<TaskId> {
    Seq::new(count as nat, |i: int| tasks[i].uid)
}


/// A batch that reads on from position `next` ends between `next` and the
/// end of the list.
pub proof fn lemma_batch_end_bounds(tasks: Seq<TaskView>, kind: BatchKindView, next: int)
    requires
        0 <= next <= tasks.len(),
    ensures
        next <= batch_end(tasks, kind, next) <= tasks.len(),
    decreases tasks.len() - next,
{
    if next < tasks.len() && kind.absorb(tasks[next].kind) is Some {
        lemma_batch_end_bounds(tasks, kind.absorb(tasks[next].kind)->0, next + 1);
    }
}

/// Every task that a batch takes in from position `next` on works on the
/// index of the batch.
proof fn lemma_run_works_on_one_index(
    tasks: Seq<TaskView>,
    kind: BatchKindView,
    next: int,
    index_uid: Seq<char>,
    i: int,
)
    requires
        0 <= next <= i < batch_end(tasks, kind, next),
        kind.open_index() is Some ==> kind.open_index() == Some(index_uid),
    ensures
        tasks[i].kind.index_uid() == Some(index_uid),
    decreases tasks.len() - next,
{
    if next < tasks.len() && kind.absorb(tasks[next].kind) is Some {
        let fused = kind.absorb(tasks[next].kind)->0;
        assert(tasks[next].kind.index_uid() == Some(index_uid));
        if i > next {
            lemma_run_works_on_one_index(tasks, fused, next + 1, index_uid, i);
        }
    }
}

/// The batch of a list of enqueued tasks is a run that starts at the oldest
/// task. When it holds more than one task, all its tasks work on the index
/// of the oldest; so the kinds that work on no single index, and the index
/// update, never share a batch.
pub proof fn law_batch_works_on_one_index(tasks: Seq<TaskView>, i: int)
    requires
        tasks.len() > 0,
    ensures
        1 <= batch_end(tasks, BatchKindView::start(tasks[0].kind), 1) <= tasks.len(),
        BatchKindView::start(tasks[0].kind).open_index() is None ==> batch_end(
            tasks,
            BatchKindView::start(tasks[0].kind),
            1,
        ) == 1,
        1 < batch_end(tasks, BatchKindView::start(tasks[0].kind), 1) && 0 <= i < batch_end(
            tasks,
            BatchKindView::start(tasks[0].kind),
            1,
        ) ==> tasks[0].kind.index_uid() is Some && tasks[i].kind.index_uid()
            == tasks[0].kind.index_uid(),
{
    let start = BatchKindView::start(tasks[0].kind);
    lemma_batch_end_bounds(tasks, start, 1);
    if 1 < batch_end(tasks, start, 1) && 1 <= i < batch_end(tasks, start, 1) {
        let index_uid = start.open_index()->0;
        lemma_run_works_on_one_index(tasks, start, 1, index_uid, i);
    }
}

impl BatchKind {
    /// The batch that a task opens.
    pub fn start(task: &KindWithContent) -> (kind: BatchKind)
        ensures
            kind@ == BatchKindView::start(task@),
    {
        match task {
            KindWithContent::DocumentImport { index_uid, method, .. } => BatchKind::DocumentImport {
                index_uid: index_uid.clone(),
                method: *method,
            },
            KindWithContent::DocumentDeletion { index_uid, .. } => BatchKind::DocumentDeletion {
                index_uid: index_uid.clone(),
            },
            KindWithContent::DocumentClear { index_uid } => BatchKind::DocumentClear {
                index_uid: index_uid.clone(),
            },
            KindWithContent::Settings { index_uid, allow_index_creation, .. } => BatchKind::Settings {
                index_uid: index_uid.clone(),
                allow_index_creation: *allow_index_creation,
            },
            KindWithContent::IndexDeletion { index_uid } => BatchKind::IndexDeletion {
                index_uid: index_uid.clone(),
            },
            KindWithContent::IndexCreation { index_uid, primary_key } => {
                BatchKind::IndexCreationWithOps {
                    index_uid: index_uid.clone(),
                    primary_key: clone_opt_string(primary_key),
                }
            },
            KindWithContent::IndexUpdate { .. } => BatchKind::IndexUpdate,
            KindWithContent::IndexSwap { .. } => BatchKind::IndexSwap,
            KindWithContent::CancelTask { .. } => BatchKind::CancelTask,
            KindWithContent::DeleteTasks { .. } => BatchKind::DeleteTasks,
            KindWithContent::DumpExport { .. } => BatchKind::DumpExport,
            KindWithContent::Snapshot => BatchKind::Snapshot,
        }
    }

    /// The index of a batch that may still take in tasks.
    pub fn open_index(&self) -> (index: Option<&str>)
        ensures
            index.deep_view() == self@.open_index(),
    {
        match self {
            BatchKind::IndexCreationWithOps { index_uid, .. } => Some(index_uid.as_str()),
            BatchKind::DocumentImport { index_uid, .. } => Some(index_uid.as_str()),
            BatchKind::Settings { index_uid, .. } => Some(index_uid.as_str()),
            BatchKind::SettingsAndDocuments { index_uid, .. } => Some(index_uid.as_str()),
            BatchKind::DocumentClear { index_uid } => Some(index_uid.as_str()),
            BatchKind::DocumentDeletion { index_uid } => Some(index_uid.as_str()),
            _ => None,
        }
    }

    /// What the batch becomes when it takes in a task of its own index that
    /// is no index deletion; `None` when the task cannot join.
    fn fuse(&self, task: &KindWithContent) -> (next: Option<BatchKind>)
        ensures
            next.deep_view() == self@.fuse(task@),
    {
        match self {
            BatchKind::IndexCreationWithOps { index_uid, primary_key } => match task {
                KindWithContent::DocumentImport { primary_key: wanted, .. } => match wanted {
                    None => Some(
                        BatchKind::IndexCreationWithOps {
                            index_uid: index_uid.clone(),
                            primary_key: clone_opt_string(primary_key),
                        },
                    ),
                    Some(key) => {
                        let agrees = match primary_key {
                            None => true,
                            Some(own) => str_eq(own.as_str(), key.as_str()),
                        };
                        if agrees {
                            Some(
                                BatchKind::IndexCreationWithOps {
                                    index_uid: index_uid.clone(),
                                    primary_key: Some(key.clone()),
                                },
                            )
                        } else {
                            None
                        }
                    },
                },
                KindWithContent::Settings { .. } => Some(
                    BatchKind::IndexCreationWithOps {
                        index_uid: index_uid.clone(),
                        primary_key: clone_opt_string(primary_key),
                    },
                ),
                KindWithContent::DocumentDeletion { .. } => Some(
                    BatchKind::IndexCreationWithOps {
                        index_uid: index_uid.clone(),
                        primary_key: clone_opt_string(primary_key),
                    },
                ),
                KindWithContent::DocumentClear { .. } => Some(
                    BatchKind::IndexCreationWithOps {
                        index_uid: index_uid.clone(),
                        primary_key: clone_opt_string(primary_key),
                    },
                ),
                _ => None,
            },
            BatchKind::DocumentImport { index_uid, method } => match task {
                KindWithContent::DocumentImport { method: other, .. } => if *other == *method {
                    Some(BatchKind::DocumentImport { index_uid: index_uid.clone(), method: *method })
                } else {
                    None
                },
                KindWithContent::DocumentClear { .. } => Some(
                    BatchKind::DocumentClear { index_uid: index_uid.clone() },
                ),
                _ => None,
            },
            BatchKind::DocumentDeletion { index_uid } => match task {
                KindWithContent::DocumentDeletion { .. } => Some(
                    BatchKind::DocumentDeletion { index_uid: index_uid.clone() },
                ),
                KindWithContent::DocumentClear { .. } => Some(
                    BatchKind::DocumentClear { index_uid: index_uid.clone() },
                ),
                _ => None,
            },
            BatchKind::DocumentClear { index_uid } => match task {
                KindWithContent::DocumentClear { .. } => Some(
                    BatchKind::DocumentClear { index_uid: index_uid.clone() },
                ),
                _ => None,
            },
            BatchKind::Settings { index_uid, allow_index_creation } => match task {
                KindWithContent::Settings { .. } => Some(
                    BatchKind::Settings {
                        index_uid: index_uid.clone(),
                        allow_index_creation: *allow_index_creation,
                    },
                ),
                KindWithContent::DocumentImport {
                    method,
                    allow_index_creation: allowed,
                    ..
                } => if *allowed == *allow_index_creation {
                    Some(
                        BatchKind::SettingsAndDocuments {
                            index_uid: index_uid.clone(),
                            allow_index_creation: *allow_index_creation,
                            method: *method,
                        },
                    )
                } else {
                    None
                },
                _ => None,
            },
            BatchKind::SettingsAndDocuments { index_uid, allow_index_creation, method } => match task {
                KindWithContent::DocumentImport {
                    method: other,
                    allow_index_creation: allowed,
                    ..
                } => if *other == *method && *allowed == *allow_index_creation {
                    Some(
                        BatchKind::SettingsAndDocuments {
                            index_uid: index_uid.clone(),
                            allow_index_creation: *allow_index_creation,
                            method: *method,
                        },
                    )
                } else {
                    None
                },
                _ => None,
            },
            _ => None,
        }
    }

    /// What the batch becomes when it takes in the next enqueued task;
    /// `None` when the task ends the batch.
    pub fn absorb(&self, task: &KindWithContent) -> (next: Option<BatchKind>)
        ensures
            next.deep_view() == self@.absorb(task@),
    {
        let index = match self.open_index() {
            Some(index) => index,
            None => {
                return None;
            },
        };
        let same = match task.index_uid() {
            Some(name) => str_eq(name, index),
            None => false,
        };
        if !same {
            return None;
        }
        match task {
            KindWithContent::IndexDeletion { .. } => Some(
                BatchKind::IndexDeletion { index_uid: index.to_owned() },
            ),
            _ => self.fuse(task),
        }
    }
}

/// Whether `next` is the next batch of the enqueued tasks `tasks`, given
/// from the oldest on: none for an empty list; with `autobatching` the
/// longest run of tasks, from the oldest on, in which each task joins the
/// batch that the ones before it make; without it the oldest task alone.
pub open spec fn is_next_batch(tasks: Seq<TaskView>, autobatching: bool, next: Option<Batch>) -> bool {
    &&& tasks.len() == 0 <==> next is None
    &&& next matches Some(batch) ==> {
        let start = BatchKindView::start(tasks[0].kind);
        if autobatching {
            &&& batch.kind@ == batch_kind(tasks, start, 1)
            &&& batch.ids@ == first_uids(tasks, batch_end(tasks, start, 1))
        } else {
            &&& batch.kind@ == start
            &&& batch.ids@ == first_uids(tasks, 1)
        }
    }
}

/// The next batch of a list of enqueued tasks, given from the oldest on:
/// none for an empty list.
///
/// With `autobatching` the batch is the longest run of tasks, from the
/// oldest on, in which each task joins the batch that the ones before it
/// make. Without it the batch is the oldest task alone.
pub fn autobatch(tasks: &Vec<Task>, autobatching: bool) -> (next: Option<Batch>)
    ensures
        is_next_batch(tasks.deep_view(), autobatching, next),
{
    if tasks.len() == 0 {
        return None;
    }
    let ghost views = tasks.deep_view();
    assert(views[0] == tasks[0]@);
    let mut kind = BatchKind::start(&tasks[0].kind);
    let mut ids: Vec<TaskId> = Vec::new();
    ids.push(tasks[0].uid);
    assert(ids@ =~= first_uids(views, 1));
    if !autobatching {
        return Some(Batch { kind, ids });
    }
    let ghost start = kind@;
    let mut next: usize = 1;
    let mut open = true;
    while open && next < tasks.len()
        invariant
            1 <= next <= tasks.len(),
            views == tasks.deep_view(),
            start == BatchKindView::start(views[0].kind),
            ids@ == first_uids(views, next as int),
            batch_end(views, kind@, next as int) == batch_end(views, start, 1),
            batch_kind(views, kind@, next as int) == batch_kind(views, start, 1),
            !open ==> kind@.absorb(views[next as int].kind) is None && next < tasks.len(),
        decreases (if open { 1int } else { 0int }), tasks.len() - next,
    {
        assert(views[next as int] == tasks[next as int]@);
        match kind.absorb(&tasks[next].kind) {
            Some(fused) => {
                kind = fused;
                ids.push(tasks[next].uid);
                next += 1;
                assert(ids@ =~= first_uids(views, next as int));
            },
            None => {
                open = false;
            },
        }
    }
    Some(Batch { kind, ids })
}

} // verus!
