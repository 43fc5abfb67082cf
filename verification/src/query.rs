//! Queries over the tasks of the queue.

use vstd::prelude::*;
use crate::tasks::{Kind, Status, TaskId};

verus! {

/// A filtered listing of tasks.
///
/// A field that is `None` constrains nothing. Within a field the values are
/// alternatives; a task must satisfy every field that is set.
#[derive(Debug, PartialEq, Eq)]
pub struct Query {
    /// The greatest number of tasks to return.
    pub limit: u32,
    /// The greatest uid to return.
    pub from: Option<u32>,
    pub status: Option<Vec<Status>>,
    pub kind: Option<Vec<Kind>>,
    pub index_uid: Option<Vec<String>>,
    pub uid: Option<Vec<TaskId>>,
}

/// The view of a [`Query`].
pub struct QueryView {
    pub limit: u32,
    pub from: Option<u32>,
    pub status: Option<Seq<Status>>,
    pub kind: Option<Seq<Kind>>,
    pub index_uid: Option<Seq<Seq<char>>>,
    pub uid: Option<Seq<TaskId>>,
}

/// The number of tasks that a query returns at most when no limit is given.
pub const DEFAULT_LIMIT: u32 = 20;

/// The list `values` with `value` added at its end, where a missing list
/// counts as empty.
pub open spec fn pushed<T>(values: Option<Seq<T>>, value: T) -> Option<Seq<T>> {
    match values {
        Some(list) => Some(list.push(value)),
        None => Some(seq![value]),
    }
}

impl View for Query {
    type V = QueryView;

    open spec fn view(&self) -> QueryView {
        QueryView {
            limit: self.limit,
            from: self.from,
            status: self.status.deep_view(),
            kind: self.kind.deep_view(),
            index_uid: self.index_uid.deep_view(),
            uid: self.uid.deep_view(),
        }
    }
}

impl DeepView for Status {
    type V = Status;

    open spec fn deep_view(&self) -> Status {
        *self
    }
}

impl DeepView for Kind {
    type V = Kind;

    open spec fn deep_view(&self) -> Kind {
        *self
    }
}

impl Default for Query {
    /// The query that constrains nothing and returns at most
    /// [`DEFAULT_LIMIT`] tasks.
    fn default() -> (query: Self)
        ensures
            query@ == (QueryView {
                limit: DEFAULT_LIMIT,
                from: None,
                status: None,
                kind: None,
                index_uid: None,
                uid: None,
            }),
    {
        Query {
            limit: DEFAULT_LIMIT,
            from: None,
            status: None,
            kind: None,
            index_uid: None,
            uid: None,
        }
    }
}

impl Query {
    /// Also accepts the tasks with this status.
    pub fn with_status(self, status: Status) -> (query: Self)
        ensures
            query@ == (QueryView { status: pushed(self@.status, status), ..self@ }),
    {
        let Query { limit, from, status: statuses, kind, index_uid, uid } = self;
        let mut status_vec: Vec<Status> = match statuses {
            Some(list) => list,
            None => Vec::new(),
        };
        let ghost before = status_vec.deep_view();
        status_vec.push(status);
        proof {
            assert(status_vec.deep_view() =~= before.push(status));
            assert(statuses is None ==> before =~= Seq::<Status>::empty());
            assert(Seq::<Status>::empty().push(status) =~= seq![status]);
        }
        Query { limit, from, status: Some(status_vec), kind, index_uid, uid }
    }

    /// Also accepts the tasks of this kind.
    pub fn with_kind(self, kind: Kind) -> (query: Self)
        ensures
            query@ == (QueryView { kind: pushed(self@.kind, kind), ..self@ }),
    {
        let Query { limit, from, status, kind: kinds, index_uid, uid } = self;
        let mut kind_vec: Vec<Kind> = match kinds {
            Some(list) => list,
            None => Vec::new(),
        };
        let ghost before = kind_vec.deep_view();
        kind_vec.push(kind);
        proof {
            assert(kind_vec.deep_view() =~= before.push(kind));
            assert(kinds is None ==> before =~= Seq::<Kind>::empty());
            assert(Seq::<Kind>::empty().push(kind) =~= seq![kind]);
        }
        Query { limit, from, status, kind: Some(kind_vec), index_uid, uid }
    }

    /// Also accepts the tasks that touch this index.
    pub fn with_index(self, index_uid: String) -> (query: Self)
        ensures
            query@ == (QueryView { index_uid: pushed(self@.index_uid, index_uid@), ..self@ }),
    {
        let Query { limit, from, status, kind, index_uid: indexes, uid } = self;
        let mut index_vec: Vec<String> = match indexes {
            Some(list) => list,
            None => Vec::new(),
        };
        let ghost before = index_vec.deep_view();
        let ghost name = index_uid@;
        index_vec.push(index_uid);
        proof {
            assert(index_vec.deep_view() =~= before.push(name));
            assert(indexes is None ==> before =~= Seq::<Seq<char>>::empty());
            assert(Seq::<Seq<char>>::empty().push(name) =~= seq![name]);
        }
        Query { limit, from, status, kind, index_uid: Some(index_vec), uid }
    }

    /// Also accepts the task with this uid.
    pub fn with_uid(self, uid: TaskId) -> (query: Self)
        ensures
            query@ == (QueryView { uid: pushed(self@.uid, uid), ..self@ }),
    {
        let Query { limit, from, status, kind, index_uid, uid: uids } = self;
        let mut task_vec: Vec<TaskId> = match uids {
            Some(list) => list,
            None => Vec::new(),
        };
        let ghost before = task_vec.deep_view();
        task_vec.push(uid);
        proof {
            assert(task_vec.deep_view() =~= before.push(uid));
            assert(uids is None ==> before =~= Seq::<TaskId>::empty());
            assert(Seq::<TaskId>::empty().push(uid) =~= seq![uid]);
        }
        Query { limit, from, status, kind, index_uid, uid: Some(task_vec) }
    }

    /// Returns at most `limit` tasks.
    pub fn with_limit(self, limit: u32) -> (query: Self)
        ensures
            query@ == (QueryView { limit, ..self@ }),
    {
        Query { limit, ..self }
    }
}

} // verus!
