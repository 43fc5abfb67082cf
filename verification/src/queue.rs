//! The task store: every task by its uid, and the tables that list the
//! tasks by status, by kind and by index.
//!
//! The store keeps one invariant, [`TaskQueue::wf`]: each table lists exactly
//! the tasks that its key describes. Every operation either keeps the
//! invariant and changes the store as its contract says, or reports an error
//! and changes nothing.

use vstd::prelude::*;
use roaring::RoaringBitmap;
use time::OffsetDateTime;
use crate::bitmap::{
    bitmap_clone, bitmap_insert, bitmap_insert_span, bitmap_intersect_with, bitmap_new,
    bitmap_remove, bitmap_to_vec, bitmap_union_with, ids, span,
};
use crate::query::{Query, QueryView};
use crate::top::{highest, law_highest, take_highest};
use crate::error::{Error, ErrorView};
use crate::tasks::{
    swap_name, swapped_name, Kind, KindView, KindWithContent, Status, Task, TaskId, TaskView,
};
use crate::text::str_eq;

verus! {

/// The place of a status in the table of tasks by status.
pub open spec fn status_slot(status: Status) -> int {
    match status {
        Status::Enqueued => 0,
        Status::Processing => 1,
        Status::Succeeded => 2,
        Status::Failed => 3,
    }
}

/// The place of a kind in the table of tasks by kind.
pub open spec fn kind_slot(kind: Kind) -> int {
    match kind {
        Kind::DocumentImport => 0,
        Kind::DocumentDeletion => 1,
        Kind::DocumentClear => 2,
        Kind::Settings => 3,
        Kind::IndexCreation => 4,
        Kind::IndexDeletion => 5,
        Kind::IndexUpdate => 6,
        Kind::IndexSwap => 7,
        Kind::CancelTask => 8,
        Kind::DeleteTasks => 9,
        Kind::DumpExport => 10,
        Kind::Snapshot => 11,
    }
}

fn status_index(status: Status) -> (slot: usize)
    ensures
        slot == status_slot(status),
{
    match status {
        Status::Enqueued => 0,
        Status::Processing => 1,
        Status::Succeeded => 2,
        Status::Failed => 3,
    }
}

fn kind_index(kind: Kind) -> (slot: usize)
    ensures
        slot == kind_slot(kind),
{
    match kind {
        Kind::DocumentImport => 0,
        Kind::DocumentDeletion => 1,
        Kind::DocumentClear => 2,
        Kind::Settings => 3,
        Kind::IndexCreation => 4,
        Kind::IndexDeletion => 5,
        Kind::IndexUpdate => 6,
        Kind::IndexSwap => 7,
        Kind::CancelTask => 8,
        Kind::DeleteTasks => 9,
        Kind::DumpExport => 10,
        Kind::Snapshot => 11,
    }
}

/// The task that registration makes of a kind: enqueued at the given
/// instant, not started, not finished, without error, with the details that
/// its kind starts with.
pub open spec fn enqueued_task(uid: TaskId, kind: KindView, enqueued_at: OffsetDateTime) -> TaskView {
    TaskView {
        uid,
        enqueued_at,
        started_at: None,
        finished_at: None,
        error: None,
        details: kind.default_details(),
        status: Status::Enqueued,
        kind,
    }
}

/// Whether a stored task may be rewritten as `after`: the new record is not
/// `Processing`, which is never stored, and touches the same indexes in the
/// same order, since the table of tasks by index is fixed at registration.
pub open spec fn rewritable(before: TaskView, after: TaskView) -> bool {
    &&& after.status != Status::Processing
    &&& after.kind.indexes() == before.kind.indexes()
}

/// Whether a task has run to its end.
pub open spec fn is_terminal(status: Status) -> bool {
    status == Status::Succeeded || status == Status::Failed
}


/// The records of a store after the records of `updates` were written over
/// them, one after the other.
pub open spec fn written(records: Map<TaskId, TaskView>, updates: Seq<TaskView>) -> Map<
    TaskId,
    TaskView,
>
    decreases updates.len(),
{
    if updates.len() == 0 {
        records
    } else {
        written(records, updates.drop_last()).insert(updates.last().uid, updates.last())
    }
}

/// Whether records can be put back into a store: their uids grow from each
/// to the next, and none is `Processing`.
pub open spec fn restorable(tasks: Seq<TaskView>) -> bool {
    &&& forall|i: int, j: int| 0 <= i < j < tasks.len() ==> tasks[i].uid < tasks[j].uid
    &&& forall|i: int| 0 <= i < tasks.len() ==> (#[trigger] tasks[i]).status != Status::Processing
}

/// Whether each record of `updates` may be written over the record of its
/// uid.
pub open spec fn writable(records: Map<TaskId, TaskView>, updates: Seq<TaskView>) -> bool {
    forall|i: int|
        0 <= i < updates.len() ==> records.contains_key((#[trigger] updates[i]).uid) && rewritable(
            records[updates[i].uid],
            updates[i],
        )
}

/// Writing records over the records of their uids keeps the uids of the
/// store, and the indexes that each record touches.
proof fn lemma_written_keeps(records: Map<TaskId, TaskView>, updates: Seq<TaskView>)
    requires
        writable(records, updates),
    ensures
        written(records, updates).dom() == records.dom(),
        forall|uid: TaskId|
            records.contains_key(uid) ==> (#[trigger] written(records, updates)[uid]).kind.indexes()
                == records[uid].kind.indexes(),
    decreases updates.len(),
{
    if updates.len() > 0 {
        let shorter = updates.drop_last();
        assert forall|i: int| 0 <= i < shorter.len() implies records.contains_key(
            (#[trigger] shorter[i]).uid,
        ) && rewritable(records[shorter[i].uid], shorter[i]) by {
            assert(shorter[i] == updates[i]);
        }
        lemma_written_keeps(records, shorter);
        let last = updates.last();
        assert(updates[updates.len() - 1] == last);
        assert(written(records, updates).dom() =~= records.dom());
    }
}

/// The tasks of an index: its name and the ids of the tasks that touch it.
pub struct IndexTasks {
    name: String,
    ids: RoaringBitmap,
}

/// The task store.
pub struct TaskQueue {
    /// `all-tasks`: the record of uid `i` is at position `i`; a deleted task
    /// leaves a gap. The last position is never a gap.
    all_tasks: Vec<Option<Task>>,
    /// `status`: one set of ids for each status, at `status_slot`.
    status: Vec<RoaringBitmap>,
    /// `kind`: one set of ids for each kind, at `kind_slot`.
    kind: Vec<RoaringBitmap>,
    /// `index-tasks`: one entry for each index that a task ever touched.
    index_tasks: Vec<IndexTasks>,
}

spec fn holds(all: Seq<Option<Task>>, uid: TaskId) -> bool {
    (uid as int) < all.len() && all[uid as int] is Some
}

spec fn record(all: Seq<Option<Task>>, uid: TaskId) -> TaskView {
    all[uid as int]->0@
}

spec fn status_set(table: Seq<RoaringBitmap>, status: Status) -> Set<TaskId> {
    ids(table[status_slot(status)])
}

spec fn kind_set(table: Seq<RoaringBitmap>, kind: Kind) -> Set<TaskId> {
    ids(table[kind_slot(kind)])
}

spec fn entry_set(entries: Seq<IndexTasks>, i: int) -> Set<TaskId> {
    ids(entries[i].ids)
}

spec fn entry_name(entries: Seq<IndexTasks>, i: int) -> Seq<char> {
    entries[i].name@
}

spec fn listed(entries: Seq<IndexTasks>, name: Seq<char>) -> bool {
    exists|i: int| 0 <= i < entries.len() && #[trigger] entry_name(entries, i) == name
}

spec fn records_sound(all: Seq<Option<Task>>) -> bool {
    forall|uid: TaskId| #[trigger]
        holds(all, uid) ==> record(all, uid).uid == uid && record(all, uid).status
            != Status::Processing
}

spec fn status_exact(all: Seq<Option<Task>>, table: Seq<RoaringBitmap>) -> bool {
    forall|uid: TaskId, status: Status| #[trigger]
        status_set(table, status).contains(uid) <==> holds(all, uid) && record(all, uid).status
            == status
}

spec fn kind_exact(all: Seq<Option<Task>>, table: Seq<RoaringBitmap>) -> bool {
    forall|uid: TaskId, kind: Kind| #[trigger]
        kind_set(table, kind).contains(uid) <==> holds(all, uid) && record(
            all,
            uid,
        ).kind.as_kind() == kind
}

spec fn index_exact(all: Seq<Option<Task>>, entries: Seq<IndexTasks>) -> bool {
    forall|i: int, uid: TaskId|
        0 <= i < entries.len() ==> (#[trigger] entry_set(entries, i).contains(uid) <==> holds(
            all,
            uid,
        ) && record(all, uid).kind.touches(entry_name(entries, i)))
}

spec fn names_distinct(entries: Seq<IndexTasks>) -> bool {
    forall|i: int, j: int|
        0 <= i < j < entries.len() ==> #[trigger] entry_name(entries, i) != #[trigger] entry_name(
            entries,
            j,
        )
}

spec fn names_listed(all: Seq<Option<Task>>, entries: Seq<IndexTasks>) -> bool {
    forall|uid: TaskId, name: Seq<char>|
        holds(all, uid) && #[trigger] record(all, uid).kind.touches(name) ==> listed(entries, name)
}


/// What listing `uid` under the index `name` does to `index-tasks`.
spec fn index_step(
    before: Seq<IndexTasks>,
    after: Seq<IndexTasks>,
    name: Seq<char>,
    uid: TaskId,
) -> bool {
    &&& after.len() >= before.len()
    &&& forall|i: int|
        0 <= i < before.len() ==> #[trigger] entry_name(after, i) == entry_name(before, i)
            && entry_set(after, i) == if entry_name(before, i) == name {
            entry_set(before, i).insert(uid)
        } else {
            entry_set(before, i)
        }
    &&& if listed(before, name) {
        after.len() == before.len()
    } else {
        &&& after.len() == before.len() + 1
        &&& entry_name(after, before.len() as int) == name
        &&& entry_set(after, before.len() as int) == Set::<TaskId>::empty().insert(uid)
    }
}

/// What listing `uid` under each index of `names` does to `index-tasks`.
spec fn index_added(
    before: Seq<IndexTasks>,
    after: Seq<IndexTasks>,
    names: Seq<Seq<char>>,
    uid: TaskId,
) -> bool {
    &&& after.len() >= before.len()
    &&& forall|i: int|
        0 <= i < before.len() ==> #[trigger] entry_name(after, i) == entry_name(before, i)
            && entry_set(after, i) == if names.contains(entry_name(before, i)) {
            entry_set(before, i).insert(uid)
        } else {
            entry_set(before, i)
        }
    &&& forall|i: int|
        before.len() <= i < after.len() ==> names.contains(#[trigger] entry_name(after, i))
            && !listed(before, entry_name(after, i)) && entry_set(after, i) == Set::<
            TaskId,
        >::empty().insert(uid)
    &&& forall|k: int| 0 <= k < names.len() ==> listed(after, #[trigger] names[k])
    &&& names_distinct(before) ==> names_distinct(after)
}

proof fn lemma_index_added_step(
    before: Seq<IndexTasks>,
    middle: Seq<IndexTasks>,
    after: Seq<IndexTasks>,
    names: Seq<Seq<char>>,
    done: int,
    uid: TaskId,
)
    requires
        0 <= done < names.len(),
        index_added(before, middle, names.take(done), uid),
        index_step(middle, after, names[done], uid),
    ensures
        index_added(before, after, names.take(done + 1), uid),
{
    let earlier = names.take(done);
    let now = names.take(done + 1);
    let name = names[done];
    assert(now =~= earlier.push(name));
    assert forall|n: Seq<char>| now.contains(n) <==> (earlier.contains(n) || n == name) by {
        if earlier.contains(n) {
            let k = choose|k: int| 0 <= k < earlier.len() && earlier[k] == n;
            assert(now[k] == n);
        }
        if n == name {
            assert(now[done] == n);
        }
        if now.contains(n) {
            let k = choose|k: int| 0 <= k < now.len() && now[k] == n;
            if k < done {
                assert(earlier[k] == n);
            }
        }
    }
    assert forall|i: int| 0 <= i < before.len() implies #[trigger] entry_name(after, i)
        == entry_name(before, i) && entry_set(after, i) == if now.contains(entry_name(before, i)) {
        entry_set(before, i).insert(uid)
    } else {
        entry_set(before, i)
    } by {
        assert(entry_name(middle, i) == entry_name(before, i));
        assert(entry_name(after, i) == entry_name(middle, i));
        assert(entry_set(before, i).insert(uid).insert(uid) =~= entry_set(before, i).insert(uid));
    }
    assert forall|i: int| before.len() <= i < after.len() implies now.contains(
        #[trigger] entry_name(after, i),
    ) && !listed(before, entry_name(after, i)) && entry_set(after, i) == Set::<TaskId>::empty().insert(
        uid,
    ) by {
        if i < middle.len() {
            assert(entry_name(after, i) == entry_name(middle, i));
            assert(earlier.contains(entry_name(middle, i)));
            assert(Set::<TaskId>::empty().insert(uid).insert(uid) =~= Set::<TaskId>::empty().insert(
                uid,
            ));
        } else {
            assert(!listed(middle, name));
            if listed(before, name) {
                let j = choose|j: int| 0 <= j < before.len() && #[trigger] entry_name(before, j) == name;
                assert(entry_name(middle, j) == name);
            }
        }
    }
    assert forall|k: int| 0 <= k < now.len() implies listed(after, #[trigger] now[k]) by {
        if k < done {
            assert(listed(middle, earlier[k]));
            let j = choose|j: int| 0 <= j < middle.len() && #[trigger] entry_name(middle, j) == earlier[k];
            assert(entry_name(after, j) == earlier[k]);
        } else {
            if listed(middle, name) {
                let j = choose|j: int| 0 <= j < middle.len() && #[trigger] entry_name(middle, j) == name;
                assert(entry_name(after, j) == name);
            } else {
                assert(entry_name(after, middle.len() as int) == name);
            }
        }
    }
    if names_distinct(before) {
        assert forall|i: int, j: int| 0 <= i < j < after.len() implies #[trigger] entry_name(after, i)
            != #[trigger] entry_name(after, j) by {
            if j < middle.len() {
                assert(entry_name(after, i) == entry_name(middle, i));
                assert(entry_name(after, j) == entry_name(middle, j));
            } else {
                assert(entry_name(after, i) == entry_name(middle, i));
                assert(!listed(middle, name));
            }
        }
    }
}


/// The store after a registration is well formed.
proof fn lemma_registered(
    before: TaskQueue,
    after: TaskQueue,
    task: TaskView,
    names: Seq<Seq<char>>,
)
    requires
        before.wf_but_last(),
        before.all_tasks.len() <= u32::MAX,
        task.uid == before.all_tasks.len(),
        task.status != Status::Processing,
        names == match task.kind.indexes() {
            Some(list) => list,
            None => Seq::empty(),
        },
        after.all_tasks@.len() == before.all_tasks@.len() + 1,
        forall|i: int| 0 <= i < before.all_tasks@.len() ==> after.all_tasks@[i] == before.all_tasks@[i],
        after.all_tasks@[before.all_tasks@.len() as int] is Some,
        after.all_tasks@[before.all_tasks@.len() as int]->0@ == task,
        after.status@.len() == 4,
        forall|i: int|
            0 <= i < 4 && i != status_slot(task.status) ==> after.status@[i] == before.status@[i],
        ids(after.status@[status_slot(task.status)]) == ids(
            before.status@[status_slot(task.status)],
        ).insert(task.uid),
        after.kind@.len() == 12,
        forall|i: int|
            0 <= i < 12 && i != kind_slot(task.kind.as_kind()) ==> after.kind@[i] == before.kind@[i],
        ids(after.kind@[kind_slot(task.kind.as_kind())]) == ids(
            before.kind@[kind_slot(task.kind.as_kind())],
        ).insert(task.uid),
        index_added(before.index_tasks@, after.index_tasks@, names, task.uid),
    ensures
        after.wf(),
        after.tasks() == before.tasks().insert(task.uid, task),
{
    let old_all = before.all_tasks@;
    let new_all = after.all_tasks@;
    let uid = task.uid;
    assert(!holds(old_all, uid));
    assert(holds(new_all, uid) && record(new_all, uid) == task);
    assert forall|other: TaskId| other != uid implies holds(new_all, other) == holds(old_all, other)
        && (holds(old_all, other) ==> record(new_all, other) == record(old_all, other)) by {
        if (other as int) < old_all.len() {
            assert(new_all[other as int] == old_all[other as int]);
        }
    }
    assert(records_sound(new_all)) by {
        assert forall|other: TaskId| #[trigger] holds(new_all, other) implies record(
            new_all,
            other,
        ).uid == other && record(new_all, other).status != Status::Processing by {
            if other != uid {
                assert(holds(old_all, other));
            }
        }
    }
    assert(status_exact(new_all, after.status@)) by {
        assert forall|other: TaskId, status: Status| #[trigger]
            status_set(after.status@, status).contains(other) <==> holds(new_all, other) && record(
                new_all,
                other,
            ).status == status by {
            let was = status_set(before.status@, status).contains(other);
            assert(was <==> holds(old_all, other) && record(old_all, other).status == status);
        }
    }
    assert(kind_exact(new_all, after.kind@)) by {
        assert forall|other: TaskId, kind: Kind| #[trigger]
            kind_set(after.kind@, kind).contains(other) <==> holds(new_all, other) && record(
                new_all,
                other,
            ).kind.as_kind() == kind by {
            let was = kind_set(before.kind@, kind).contains(other);
            assert(was <==> holds(old_all, other) && record(old_all, other).kind.as_kind() == kind);
        }
    }
    assert forall|name: Seq<char>| task.kind.touches(name) <==> names.contains(name) by {}
    let old_e = before.index_tasks@;
    let new_e = after.index_tasks@;
    assert(index_exact(new_all, new_e)) by {
        assert forall|i: int, other: TaskId| 0 <= i < new_e.len() implies (#[trigger] entry_set(
            new_e,
            i,
        ).contains(other) <==> holds(new_all, other) && record(new_all, other).kind.touches(
            entry_name(new_e, i),
        )) by {
            if i < old_e.len() {
                assert(entry_name(new_e, i) == entry_name(old_e, i));
                let was = entry_set(old_e, i).contains(other);
                assert(was <==> holds(old_all, other) && record(old_all, other).kind.touches(
                    entry_name(old_e, i),
                ));
            } else {
                let name = entry_name(new_e, i);
                assert(names.contains(name));
                assert(!listed(old_e, name));
                if other != uid && holds(old_all, other) && record(old_all, other).kind.touches(name) {
                    assert(listed(old_e, name));
                }
            }
        }
    }
    assert(names_listed(new_all, new_e)) by {
        assert forall|other: TaskId, name: Seq<char>|
            holds(new_all, other) && #[trigger] record(new_all, other).kind.touches(
                name,
            ) implies listed(new_e, name) by {
            if other == uid {
                let k = choose|k: int| 0 <= k < names.len() && names[k] == name;
                assert(listed(new_e, names[k]));
            } else {
                assert(record(old_all, other).kind.touches(name));
                assert(listed(old_e, name));
                let j = choose|j: int| 0 <= j < old_e.len() && #[trigger] entry_name(old_e, j) == name;
                assert(entry_name(new_e, j) == name);
            }
        }
    }
    assert(after.tasks() =~= before.tasks().insert(uid, task));
}


/// The store after a record was rewritten is well formed.
proof fn lemma_rewritten(before: TaskQueue, after: TaskQueue, task: TaskView)
    requires
        before.wf(),
        holds(before.all_tasks@, task.uid),
        task.uid == record(before.all_tasks@, task.uid).uid,
        rewritable(record(before.all_tasks@, task.uid), task),
        after.all_tasks@.len() == before.all_tasks@.len(),
        forall|i: int|
            0 <= i < before.all_tasks@.len() && i != task.uid ==> after.all_tasks@[i]
                == before.all_tasks@[i],
        after.all_tasks@[task.uid as int] is Some,
        after.all_tasks@[task.uid as int]->0@ == task,
        after.status@.len() == 4,
        after.kind@.len() == 12,
        forall|status: Status|
            #[trigger] status_set(after.status@, status) == if status == task.status {
                status_set(before.status@, status).insert(task.uid)
            } else {
                status_set(before.status@, status).remove(task.uid)
            },
        forall|kind: Kind|
            #[trigger] kind_set(after.kind@, kind) == if kind == task.kind.as_kind() {
                kind_set(before.kind@, kind).insert(task.uid)
            } else {
                kind_set(before.kind@, kind).remove(task.uid)
            },
        after.index_tasks == before.index_tasks,
    ensures
        after.wf(),
        after.tasks() == before.tasks().insert(task.uid, task),
{
    let old_all = before.all_tasks@;
    let new_all = after.all_tasks@;
    let uid = task.uid;
    let entries = before.index_tasks@;
    assert forall|other: TaskId| other != uid implies holds(new_all, other) == holds(old_all, other)
        && (holds(old_all, other) ==> record(new_all, other) == record(old_all, other)) by {
        if (other as int) < old_all.len() {
            assert(new_all[other as int] == old_all[other as int]);
        }
    }
    assert(records_sound(new_all)) by {
        assert forall|other: TaskId| #[trigger] holds(new_all, other) implies record(
            new_all,
            other,
        ).uid == other && record(new_all, other).status != Status::Processing by {
            if other != uid {
                assert(holds(old_all, other));
            }
        }
    }
    assert(status_exact(new_all, after.status@)) by {
        assert forall|other: TaskId, status: Status| #[trigger]
            status_set(after.status@, status).contains(other) <==> holds(new_all, other) && record(
                new_all,
                other,
            ).status == status by {
            let was = status_set(before.status@, status).contains(other);
            assert(was <==> holds(old_all, other) && record(old_all, other).status == status);
        }
    }
    assert(kind_exact(new_all, after.kind@)) by {
        assert forall|other: TaskId, kind: Kind| #[trigger]
            kind_set(after.kind@, kind).contains(other) <==> holds(new_all, other) && record(
                new_all,
                other,
            ).kind.as_kind() == kind by {
            let was = kind_set(before.kind@, kind).contains(other);
            assert(was <==> holds(old_all, other) && record(old_all, other).kind.as_kind() == kind);
        }
    }
    assert forall|name: Seq<char>|
        task.kind.touches(name) == record(old_all, uid).kind.touches(name) by {}
    assert(index_exact(new_all, entries)) by {
        assert forall|i: int, other: TaskId| 0 <= i < entries.len() implies (#[trigger] entry_set(
            entries,
            i,
        ).contains(other) <==> holds(new_all, other) && record(new_all, other).kind.touches(
            entry_name(entries, i),
        )) by {
            assert(entry_set(entries, i).contains(other) <==> holds(old_all, other) && record(
                old_all,
                other,
            ).kind.touches(entry_name(entries, i)));
        }
    }
    assert(names_listed(new_all, entries)) by {
        assert forall|other: TaskId, name: Seq<char>|
            holds(new_all, other) && #[trigger] record(new_all, other).kind.touches(
                name,
            ) implies listed(entries, name) by {
            assert(record(old_all, other).kind.touches(name));
        }
    }
    assert(after.tasks() =~= before.tasks().insert(uid, task));
}

/// Whether two kinds touch the same indexes in the same order.
fn same_indexes(left: &KindWithContent, right: &KindWithContent) -> (same: bool)
    ensures
        same == (left@.indexes() == right@.indexes()),
{
    let left_names = left.indexes();
    let right_names = right.indexes();
    match (left_names, right_names) {
        (None, None) => true,
        (Some(l), Some(r)) => {
            proof {
                assert(left@.indexes() == Some(l.deep_view()));
                assert(right@.indexes() == Some(r.deep_view()));
                assert(l.deep_view().len() == l.len());
                assert(r.deep_view().len() == r.len());
            }
            if l.len() != r.len() {
                return false;
            }
            let mut i: usize = 0;
            while i < l.len()
                invariant
                    i <= l.len(),
                    l.len() == r.len(),
                    left@.indexes() == Some(l.deep_view()),
                    right@.indexes() == Some(r.deep_view()),
                    forall|j: int| 0 <= j < i ==> l[j]@ == r[j]@,
                decreases l.len() - i,
            {
                if !str_eq(l[i], r[i]) {
                    proof {
                        assert(l.deep_view()[i as int] == l[i as int]@);
                        assert(r.deep_view()[i as int] == r[i as int]@);
                    }
                    return false;
                }
                i += 1;
            }
            proof {
                assert(l.deep_view() =~= r.deep_view());
            }
            true
        },
        _ => false,
    }
}


/// What taking `uid` out of the entry of the index `name` does to
/// `index-tasks`.
spec fn index_unstep(
    before: Seq<IndexTasks>,
    after: Seq<IndexTasks>,
    name: Seq<char>,
    uid: TaskId,
) -> bool {
    &&& after.len() == before.len()
    &&& forall|i: int|
        0 <= i < before.len() ==> #[trigger] entry_name(after, i) == entry_name(before, i)
            && entry_set(after, i) == if entry_name(before, i) == name {
            entry_set(before, i).remove(uid)
        } else {
            entry_set(before, i)
        }
}

/// What taking `uid` out of the entries of the indexes of `names` does to
/// `index-tasks`.
spec fn index_dropped(
    before: Seq<IndexTasks>,
    after: Seq<IndexTasks>,
    names: Seq<Seq<char>>,
    uid: TaskId,
) -> bool {
    &&& after.len() == before.len()
    &&& forall|i: int|
        0 <= i < before.len() ==> #[trigger] entry_name(after, i) == entry_name(before, i)
            && entry_set(after, i) == if names.contains(entry_name(before, i)) {
            entry_set(before, i).remove(uid)
        } else {
            entry_set(before, i)
        }
}

proof fn lemma_index_dropped_step(
    before: Seq<IndexTasks>,
    middle: Seq<IndexTasks>,
    after: Seq<IndexTasks>,
    names: Seq<Seq<char>>,
    done: int,
    uid: TaskId,
)
    requires
        0 <= done < names.len(),
        index_dropped(before, middle, names.take(done), uid),
        index_unstep(middle, after, names[done], uid),
    ensures
        index_dropped(before, after, names.take(done + 1), uid),
{
    let earlier = names.take(done);
    let now = names.take(done + 1);
    let name = names[done];
    assert forall|n: Seq<char>| now.contains(n) <==> (earlier.contains(n) || n == name) by {
        if earlier.contains(n) {
            let k = choose|k: int| 0 <= k < earlier.len() && earlier[k] == n;
            assert(now[k] == n);
        }
        if n == name {
            assert(now[done] == n);
        }
        if now.contains(n) {
            let k = choose|k: int| 0 <= k < now.len() && now[k] == n;
            if k < done {
                assert(earlier[k] == n);
            }
        }
    }
    assert forall|i: int| 0 <= i < before.len() implies #[trigger] entry_name(after, i)
        == entry_name(before, i) && entry_set(after, i) == if now.contains(entry_name(before, i)) {
        entry_set(before, i).remove(uid)
    } else {
        entry_set(before, i)
    } by {
        assert(entry_name(middle, i) == entry_name(before, i));
        assert(entry_name(after, i) == entry_name(middle, i));
        assert(entry_set(before, i).remove(uid).remove(uid) =~= entry_set(before, i).remove(uid));
    }
}

/// The store after a record was deleted keeps every invariant but the one
/// on its last position.
proof fn lemma_deleted(before: TaskQueue, after: TaskQueue, uid: TaskId, names: Seq<Seq<char>>)
    requires
        before.wf_but_last(),
        holds(before.all_tasks@, uid),
        names == match record(before.all_tasks@, uid).kind.indexes() {
            Some(list) => list,
            None => Seq::empty(),
        },
        after.all_tasks@ == before.all_tasks@.update(uid as int, None),
        after.status@.len() == 4,
        after.kind@.len() == 12,
        forall|status: Status|
            #[trigger] status_set(after.status@, status) == status_set(before.status@, status).remove(
                uid,
            ),
        forall|kind: Kind|
            #[trigger] kind_set(after.kind@, kind) == kind_set(before.kind@, kind).remove(uid),
        index_dropped(before.index_tasks@, after.index_tasks@, names, uid),
    ensures
        after.wf_but_last(),
        after.tasks() == before.tasks().remove(uid),
{
    let old_all = before.all_tasks@;
    let new_all = after.all_tasks@;
    let old_e = before.index_tasks@;
    let new_e = after.index_tasks@;
    let gone = record(old_all, uid);
    assert(!holds(new_all, uid));
    assert forall|other: TaskId| other != uid implies holds(new_all, other) == holds(old_all, other)
        && (holds(old_all, other) ==> record(new_all, other) == record(old_all, other)) by {}
    assert(records_sound(new_all)) by {
        assert forall|other: TaskId| #[trigger] holds(new_all, other) implies record(
            new_all,
            other,
        ).uid == other && record(new_all, other).status != Status::Processing by {
            assert(holds(old_all, other));
        }
    }
    assert(status_exact(new_all, after.status@)) by {
        assert forall|other: TaskId, status: Status| #[trigger]
            status_set(after.status@, status).contains(other) <==> holds(new_all, other) && record(
                new_all,
                other,
            ).status == status by {
            let was = status_set(before.status@, status).contains(other);
            assert(was <==> holds(old_all, other) && record(old_all, other).status == status);
        }
    }
    assert(kind_exact(new_all, after.kind@)) by {
        assert forall|other: TaskId, kind: Kind| #[trigger]
            kind_set(after.kind@, kind).contains(other) <==> holds(new_all, other) && record(
                new_all,
                other,
            ).kind.as_kind() == kind by {
            let was = kind_set(before.kind@, kind).contains(other);
            assert(was <==> holds(old_all, other) && record(old_all, other).kind.as_kind() == kind);
        }
    }
    assert forall|name: Seq<char>| gone.kind.touches(name) <==> names.contains(name) by {}
    assert(index_exact(new_all, new_e)) by {
        assert forall|i: int, other: TaskId| 0 <= i < new_e.len() implies (#[trigger] entry_set(
            new_e,
            i,
        ).contains(other) <==> holds(new_all, other) && record(new_all, other).kind.touches(
            entry_name(new_e, i),
        )) by {
            assert(entry_name(new_e, i) == entry_name(old_e, i));
            let was = entry_set(old_e, i).contains(other);
            assert(was <==> holds(old_all, other) && record(old_all, other).kind.touches(
                entry_name(old_e, i),
            ));
        }
    }
    assert(names_distinct(new_e)) by {
        assert forall|i: int, j: int| 0 <= i < j < new_e.len() implies #[trigger] entry_name(new_e, i)
            != #[trigger] entry_name(new_e, j) by {
            assert(entry_name(new_e, i) == entry_name(old_e, i));
            assert(entry_name(new_e, j) == entry_name(old_e, j));
        }
    }
    assert(names_listed(new_all, new_e)) by {
        assert forall|other: TaskId, name: Seq<char>|
            holds(new_all, other) && #[trigger] record(new_all, other).kind.touches(
                name,
            ) implies listed(new_e, name) by {
            assert(record(old_all, other).kind.touches(name));
            assert(listed(old_e, name));
            let j = choose|j: int| 0 <= j < old_e.len() && #[trigger] entry_name(old_e, j) == name;
            assert(entry_name(new_e, j) == name);
        }
    }
    assert(after.tasks() =~= before.tasks().remove(uid));
}


/// A store whose records are those of a well-formed store, under the same
/// uids, with the same tables, keeps every invariant but the one on its
/// last position: gaps at the end of `all-tasks` change nothing.
proof fn lemma_same_records(before: TaskQueue, after: TaskQueue)
    requires
        before.wf_but_last(),
        after.status == before.status,
        after.kind == before.kind,
        after.index_tasks == before.index_tasks,
        after.all_tasks.len() <= 0x1_0000_0000,
        forall|uid: TaskId|
            holds(after.all_tasks@, uid) == holds(before.all_tasks@, uid) && (holds(
                before.all_tasks@,
                uid,
            ) ==> record(after.all_tasks@, uid) == record(before.all_tasks@, uid)),
    ensures
        after.wf_but_last(),
        after.tasks() == before.tasks(),
{
    let old_all = before.all_tasks@;
    let new_all = after.all_tasks@;
    assert(records_sound(new_all)) by {
        assert forall|uid: TaskId| #[trigger] holds(new_all, uid) implies record(new_all, uid).uid
            == uid && record(new_all, uid).status != Status::Processing by {
            assert(holds(old_all, uid));
        }
    }
    assert(status_exact(new_all, after.status@)) by {
        assert forall|uid: TaskId, status: Status| #[trigger]
            status_set(after.status@, status).contains(uid) <==> holds(new_all, uid) && record(
                new_all,
                uid,
            ).status == status by {
            assert(status_set(before.status@, status).contains(uid) <==> holds(old_all, uid)
                && record(old_all, uid).status == status);
        }
    }
    assert(kind_exact(new_all, after.kind@)) by {
        assert forall|uid: TaskId, kind: Kind| #[trigger]
            kind_set(after.kind@, kind).contains(uid) <==> holds(new_all, uid) && record(
                new_all,
                uid,
            ).kind.as_kind() == kind by {
            assert(kind_set(before.kind@, kind).contains(uid) <==> holds(old_all, uid) && record(
                old_all,
                uid,
            ).kind.as_kind() == kind);
        }
    }
    assert(index_exact(new_all, after.index_tasks@)) by {
        assert forall|j: int, uid: TaskId| 0 <= j < after.index_tasks@.len() implies (
        #[trigger] entry_set(after.index_tasks@, j).contains(uid) <==> holds(new_all, uid)
            && record(new_all, uid).kind.touches(entry_name(after.index_tasks@, j))) by {
            assert(entry_set(before.index_tasks@, j).contains(uid) <==> holds(old_all, uid)
                && record(old_all, uid).kind.touches(entry_name(before.index_tasks@, j)));
        }
    }
    assert(names_listed(new_all, after.index_tasks@)) by {
        assert forall|uid: TaskId, name: Seq<char>|
            holds(new_all, uid) && #[trigger] record(new_all, uid).kind.touches(
                name,
            ) implies listed(after.index_tasks@, name) by {
            assert(record(old_all, uid).kind.touches(name));
        }
    }
    assert(after.tasks() =~= before.tasks());
}


/// The record of a task after the indexes `lhs` and `rhs` traded their
/// names.
pub open spec fn renamed(task: TaskView, lhs: Seq<char>, rhs: Seq<char>) -> TaskView {
    TaskView { kind: task.kind.swapped(lhs, rhs), ..task }
}

/// The store after two indexes traded their names is well formed, and
/// lists under each name what it listed under the other.
proof fn lemma_swapped(before: TaskQueue, after: TaskQueue, lhs: Seq<char>, rhs: Seq<char>)
    requires
        before.wf(),
        after.status == before.status,
        after.kind == before.kind,
        after.all_tasks@.len() == before.all_tasks@.len(),
        forall|i: int|
            0 <= i < before.all_tasks@.len() ==> (#[trigger] after.all_tasks@[i] is Some)
                == (before.all_tasks@[i] is Some) && (before.all_tasks@[i] is Some
                ==> after.all_tasks@[i]->0@ == renamed(before.all_tasks@[i]->0@, lhs, rhs)),
        after.index_tasks@.len() == before.index_tasks@.len(),
        forall|i: int|
            0 <= i < before.index_tasks@.len() ==> #[trigger] entry_name(after.index_tasks@, i)
                == swap_name(entry_name(before.index_tasks@, i), lhs, rhs) && entry_set(
                after.index_tasks@,
                i,
            ) == entry_set(before.index_tasks@, i),
    ensures
        after.wf(),
        after.tasks() == Map::new(
            |uid: TaskId| before.tasks().contains_key(uid),
            |uid: TaskId| renamed(before.tasks()[uid], lhs, rhs),
        ),
        forall|name: Seq<char>|
            #[trigger] after.index_ids(name) == before.index_ids(swap_name(name, lhs, rhs)),
{
    let old_all = before.all_tasks@;
    let new_all = after.all_tasks@;
    let old_e = before.index_tasks@;
    let new_e = after.index_tasks@;
    assert forall|uid: TaskId| holds(new_all, uid) == holds(old_all, uid) && (holds(old_all, uid)
        ==> record(new_all, uid) == renamed(record(old_all, uid), lhs, rhs)) by {
        if (uid as int) < old_all.len() {
            assert((new_all[uid as int] is Some) == (old_all[uid as int] is Some));
        }
    }
    assert forall|uid: TaskId, name: Seq<char>| holds(old_all, uid) implies record(
        new_all,
        uid,
    ).kind.touches(name) == record(old_all, uid).kind.touches(swap_name(name, lhs, rhs)) && record(
        new_all,
        uid,
    ).kind.as_kind() == record(old_all, uid).kind.as_kind() by {
        record(old_all, uid).kind.law_swapped(lhs, rhs, name);
    }
    assert forall|name: Seq<char>| swap_name(swap_name(name, lhs, rhs), lhs, rhs) == name by {}
    assert(records_sound(new_all)) by {
        assert forall|uid: TaskId| #[trigger] holds(new_all, uid) implies record(new_all, uid).uid
            == uid && record(new_all, uid).status != Status::Processing by {
            assert(holds(old_all, uid));
        }
    }
    assert(status_exact(new_all, after.status@)) by {
        assert forall|uid: TaskId, status: Status| #[trigger]
            status_set(after.status@, status).contains(uid) <==> holds(new_all, uid) && record(
                new_all,
                uid,
            ).status == status by {
            assert(status_set(before.status@, status).contains(uid) <==> holds(old_all, uid)
                && record(old_all, uid).status == status);
        }
    }
    assert(kind_exact(new_all, after.kind@)) by {
        assert forall|uid: TaskId, kind: Kind| #[trigger]
            kind_set(after.kind@, kind).contains(uid) <==> holds(new_all, uid) && record(
                new_all,
                uid,
            ).kind.as_kind() == kind by {
            assert(kind_set(before.kind@, kind).contains(uid) <==> holds(old_all, uid) && record(
                old_all,
                uid,
            ).kind.as_kind() == kind);
            if holds(old_all, uid) {
                record(old_all, uid).kind.law_swapped(lhs, rhs, lhs);
            }
        }
    }
    assert(index_exact(new_all, new_e)) by {
        assert forall|i: int, uid: TaskId| 0 <= i < new_e.len() implies (#[trigger] entry_set(
            new_e,
            i,
        ).contains(uid) <==> holds(new_all, uid) && record(new_all, uid).kind.touches(
            entry_name(new_e, i),
        )) by {
            assert(entry_name(new_e, i) == swap_name(entry_name(old_e, i), lhs, rhs));
            assert(entry_set(new_e, i) == entry_set(old_e, i));
            assert(entry_set(old_e, i).contains(uid) <==> holds(old_all, uid) && record(
                old_all,
                uid,
            ).kind.touches(entry_name(old_e, i)));
            if holds(old_all, uid) {
                record(old_all, uid).kind.law_swapped(lhs, rhs, entry_name(new_e, i));
            }
        }
    }
    assert(names_distinct(new_e)) by {
        assert forall|i: int, j: int| 0 <= i < j < new_e.len() implies #[trigger] entry_name(new_e, i)
            != #[trigger] entry_name(new_e, j) by {
            assert(entry_name(old_e, i) != entry_name(old_e, j));
            assert(entry_name(new_e, i) == swap_name(entry_name(old_e, i), lhs, rhs));
            assert(entry_name(new_e, j) == swap_name(entry_name(old_e, j), lhs, rhs));
        }
    }
    assert(names_listed(new_all, new_e)) by {
        assert forall|uid: TaskId, name: Seq<char>|
            holds(new_all, uid) && #[trigger] record(new_all, uid).kind.touches(
                name,
            ) implies listed(new_e, name) by {
            record(old_all, uid).kind.law_swapped(lhs, rhs, name);
            let source = swap_name(name, lhs, rhs);
            assert(record(old_all, uid).kind.touches(source));
            assert(listed(old_e, source));
            let j = choose|j: int| 0 <= j < old_e.len() && #[trigger] entry_name(old_e, j) == source;
            assert(entry_name(new_e, j) == swap_name(source, lhs, rhs));
            assert(entry_name(new_e, j) == name);
        }
    }
    assert(after.tasks() =~= Map::new(
        |uid: TaskId| before.tasks().contains_key(uid),
        |uid: TaskId| renamed(before.tasks()[uid], lhs, rhs),
    ));
    assert forall|name: Seq<char>|
        #[trigger] after.index_ids(name) == before.index_ids(swap_name(name, lhs, rhs)) by {
        let source = swap_name(name, lhs, rhs);
        if listed(new_e, name) {
            let j = choose|j: int| 0 <= j < new_e.len() && #[trigger] entry_name(new_e, j) == name;
            assert(entry_name(new_e, j) == swap_name(entry_name(old_e, j), lhs, rhs));
            assert(entry_name(old_e, j) == source);
            let k = choose|k: int| 0 <= k < old_e.len() && #[trigger] entry_name(old_e, k) == source;
            if k != j {
                if k < j {
                    assert(entry_name(old_e, k) != entry_name(old_e, j));
                } else {
                    assert(entry_name(old_e, j) != entry_name(old_e, k));
                }
            }
            assert(entry_set(new_e, j) == entry_set(old_e, j));
        } else {
            if listed(old_e, source) {
                let k = choose|k: int| 0 <= k < old_e.len() && #[trigger] entry_name(old_e, k) == source;
                assert(entry_name(new_e, k) == swap_name(source, lhs, rhs));
                assert(entry_name(new_e, k) == name);
            }
        }
    }
}

impl TaskQueue {
    /// `all-tasks`: the stored record of each uid.
    pub closed spec fn tasks(&self) -> Map<TaskId, TaskView> {
        Map::new(|uid: TaskId| holds(self.all_tasks@, uid), |uid: TaskId| record(self.all_tasks@, uid))
    }

    /// The uid that the next registration gives: one past the greatest uid
    /// that has a record, 0 in an empty store.
    pub closed spec fn next_uid(&self) -> nat {
        self.all_tasks.len() as nat
    }

    /// `status`: the ids that the table lists under a status.
    pub closed spec fn status_ids(&self, status: Status) -> Set<TaskId> {
        status_set(self.status@, status)
    }

    /// `kind`: the ids that the table lists under a kind.
    pub closed spec fn kind_ids(&self, kind: Kind) -> Set<TaskId> {
        kind_set(self.kind@, kind)
    }

    /// `index-tasks`: the ids that the table lists under the name of an
    /// index; none under a name that the table does not know.
    pub closed spec fn index_ids(&self, name: Seq<char>) -> Set<TaskId> {
        if listed(self.index_tasks@, name) {
            entry_set(
                self.index_tasks@,
                choose|i: int|
                    0 <= i < self.index_tasks.len() && #[trigger] entry_name(self.index_tasks@, i)
                        == name,
            )
        } else {
            Set::empty()
        }
    }

    spec fn wf_but_last(&self) -> bool {
        &&& self.status.len() == 4
        &&& self.kind.len() == 12
        &&& self.all_tasks.len() <= 0x1_0000_0000
        &&& records_sound(self.all_tasks@)
        &&& status_exact(self.all_tasks@, self.status@)
        &&& kind_exact(self.all_tasks@, self.kind@)
        &&& index_exact(self.all_tasks@, self.index_tasks@)
        &&& names_distinct(self.index_tasks@)
        &&& names_listed(self.all_tasks@, self.index_tasks@)
    }

    /// The invariant of the store: every record sits under its own uid, none
    /// is `Processing`, and each table lists exactly the tasks that its key
    /// describes.
    pub closed spec fn wf(&self) -> bool {
        &&& self.wf_but_last()
        &&& self.all_tasks.len() > 0 ==> self.all_tasks[self.all_tasks.len() - 1] is Some
    }

    /// An empty store.
    pub fn new() -> (queue: Self)
        ensures
            queue.wf(),
            queue.tasks() == Map::<TaskId, TaskView>::empty(),
            queue.next_uid() == 0,
    {
        let mut status: Vec<RoaringBitmap> = Vec::new();
        let mut i: usize = 0;
        while i < 4
            invariant
                i <= 4,
                status.len() == i,
                forall|j: int| 0 <= j < i ==> ids(#[trigger] status[j]) == Set::<TaskId>::empty(),
            decreases 4 - i,
        {
            status.push(bitmap_new());
            i += 1;
        }
        let mut kind: Vec<RoaringBitmap> = Vec::new();
        let mut k: usize = 0;
        while k < 12
            invariant
                k <= 12,
                kind.len() == k,
                forall|j: int| 0 <= j < k ==> ids(#[trigger] kind[j]) == Set::<TaskId>::empty(),
            decreases 12 - k,
        {
            kind.push(bitmap_new());
            k += 1;
        }
        let queue = TaskQueue { all_tasks: Vec::new(), status, kind, index_tasks: Vec::new() };
        proof {
            assert(queue.tasks() =~= Map::<TaskId, TaskView>::empty());
        }
        queue
    }

    /// The position of the entry of an index in `index-tasks`.
    fn find_index(&self, name: &str) -> (found: Option<usize>)
        ensures
            match found {
                Some(i) => i < self.index_tasks.len() && entry_name(self.index_tasks@, i as int)
                    == name@,
                None => !listed(self.index_tasks@, name@),
            },
    {
        let mut i: usize = 0;
        while i < self.index_tasks.len()
            invariant
                i <= self.index_tasks.len(),
                forall|j: int| 0 <= j < i ==> entry_name(self.index_tasks@, j) != name@,
            decreases self.index_tasks.len() - i,
        {
            if str_eq(self.index_tasks[i].name.as_str(), name) {
                return Some(i);
            }
            i += 1;
        }
        None
    }

    /// The stored record of a uid, if there is one.
    pub fn get_task(&self, uid: TaskId) -> (task: Option<Task>)
        requires
            self.wf(),
        ensures
            task.deep_view() == if self.tasks().contains_key(uid) {
                Some(self.tasks()[uid])
            } else {
                None
            },
    {
        let position = uid as usize;
        if position < self.all_tasks.len() {
            match &self.all_tasks[position] {
                Some(task) => Some(task.clone()),
                None => None,
            }
        } else {
            None
        }
    }

    /// The greatest uid that has a record, if the store holds any.
    pub fn last_task_id(&self) -> (last: Option<TaskId>)
        requires
            self.wf(),
        ensures
            match last {
                Some(uid) => uid + 1 == self.next_uid(),
                None => self.next_uid() == 0,
            },
    {
        if self.all_tasks.len() == 0 {
            None
        } else {
            Some((self.all_tasks.len() - 1) as u32)
        }
    }

    /// The uid that the next registration gives, or `None` when every uid
    /// is taken.
    pub fn next_task_id(&self) -> (next: Option<TaskId>)
        requires
            self.wf(),
        ensures
            match next {
                Some(uid) => uid == self.next_uid(),
                None => self.next_uid() > u32::MAX,
            },
    {
        if self.all_tasks.len() > u32::MAX as usize {
            None
        } else {
            Some(self.all_tasks.len() as u32)
        }
    }

    /// The ids that `status` lists under a status.
    pub fn get_status(&self, status: Status) -> (bitmap: RoaringBitmap)
        requires
            self.wf(),
        ensures
            ids(bitmap) == self.status_ids(status),
    {
        bitmap_clone(&self.status[status_index(status)])
    }

    /// The ids that `kind` lists under a kind.
    pub fn get_kind(&self, kind: Kind) -> (bitmap: RoaringBitmap)
        requires
            self.wf(),
        ensures
            ids(bitmap) == self.kind_ids(kind),
    {
        bitmap_clone(&self.kind[kind_index(kind)])
    }

    /// The ids that `index-tasks` lists under the name of an index: none
    /// under a name that the table does not know.
    pub fn get_index(&self, name: &str) -> (bitmap: RoaringBitmap)
        requires
            self.wf(),
        ensures
            ids(bitmap) == self.index_ids(name@),
    {
        match self.find_index(name) {
            Some(i) => {
                proof {
                    let chosen = choose|j: int|
                        0 <= j < self.index_tasks.len() && #[trigger] entry_name(
                            self.index_tasks@,
                            j,
                        ) == name@;
                    assert(entry_name(self.index_tasks@, i as int) == name@);
                    assert(chosen == i);
                }
                bitmap_clone(&self.index_tasks[i].ids)
            },
            None => bitmap_new(),
        }
    }

    /// Lists `uid` under the index `name`, in a new entry if `index-tasks`
    /// does not know the name yet.
    fn list_under_index(&mut self, name: &str, uid: TaskId)
        requires
            names_distinct(old(self).index_tasks@),
        ensures
            final(self).all_tasks == old(self).all_tasks,
            final(self).status == old(self).status,
            final(self).kind == old(self).kind,
            index_step(old(self).index_tasks@, final(self).index_tasks@, name@, uid),
    {
        match self.find_index(name) {
            Some(i) => {
                let _ = bitmap_insert(&mut self.index_tasks[i].ids, uid);
                proof {
                    let before = old(self).index_tasks@;
                    let after = self.index_tasks@;
                    assert(entry_name(before, i as int) == name@);
                    assert forall|j: int| 0 <= j < before.len() implies #[trigger] entry_name(
                        after,
                        j,
                    ) == entry_name(before, j) && entry_set(after, j) == if entry_name(before, j)
                        == name@ {
                        entry_set(before, j).insert(uid)
                    } else {
                        entry_set(before, j)
                    } by {
                        if j != i {
                            assert(entry_name(before, j) != entry_name(before, i as int));
                        }
                    }
                }
            },
            None => {
                let mut fresh = bitmap_new();
                let _ = bitmap_insert(&mut fresh, uid);
                self.index_tasks.push(IndexTasks { name: name.to_owned(), ids: fresh });
                proof {
                    let before = old(self).index_tasks@;
                    let after = self.index_tasks@;
                    assert forall|j: int| 0 <= j < before.len() implies #[trigger] entry_name(
                        after,
                        j,
                    ) == entry_name(before, j) && entry_set(after, j) == if entry_name(before, j)
                        == name@ {
                        entry_set(before, j).insert(uid)
                    } else {
                        entry_set(before, j)
                    } by {
                        assert(after[j] == before[j]);
                    }
                }
            },
        }
    }

    /// Appends a record to `all-tasks`, under a uid that is not below the
    /// next uid, and lists it under its status, under its kind, and under
    /// each index that it touches.
    ///
    /// The store refuses a uid below the next one with `KvError`: a record
    /// is appended only as the new greatest key. A record that is
    /// `Processing` is refused as corrupted. Nothing changes then.
    pub fn append_task(&mut self, task: Task) -> (result: Result<(), Error>)
        requires
            old(self).wf(),
        ensures
            final(self).wf(),
            match result {
                Ok(()) => {
                    &&& old(self).next_uid() <= task.uid
                    &&& task.status != Status::Processing
                    &&& final(self).tasks() == old(self).tasks().insert(task.uid, task@)
                    &&& final(self).next_uid() == task.uid + 1
                },
                Err(error) => {
                    &&& *final(self) == *old(self)
                    &&& if task.uid < old(self).next_uid() {
                        error@ == ErrorView::KvError
                    } else {
                        task.status == Status::Processing && error@
                            == ErrorView::CorruptedTaskQueue
                    }
                },
            },
    {
        let uid = task.uid;
        if (uid as usize) < self.all_tasks.len() {
            return Err(Error::KvError);
        }
        if task.status == Status::Processing {
            return Err(Error::CorruptedTaskQueue);
        }
        while self.all_tasks.len() < uid as usize
            invariant
                self.wf_but_last(),
                self.all_tasks.len() <= uid,
                self.tasks() == old(self).tasks(),
                self.index_tasks == old(self).index_tasks,
            decreases uid - self.all_tasks.len(),
        {
            let ghost narrower = *self;
            self.all_tasks.push(None);
            proof {
                lemma_same_records(narrower, *self);
            }
        }
        let ghost padded = *self;
        let ghost view = task@;
        let ghost names_view: Seq<Seq<char>> = match view.kind.indexes() {
            Some(list) => list,
            None => Seq::empty(),
        };
        let names: Vec<&str> = match task.kind.indexes() {
            Some(list) => list,
            None => Vec::new(),
        };
        assert(names.deep_view() =~= names_view);
        let mut i: usize = 0;
        while i < names.len()
            invariant
                i <= names.len(),
                names.deep_view() == names_view,
                self.all_tasks == padded.all_tasks,
                self.status == padded.status,
                self.kind == padded.kind,
                names_distinct(padded.index_tasks@),
                index_added(padded.index_tasks@, self.index_tasks@, names_view.take(i as int), uid),
            decreases names.len() - i,
        {
            let ghost middle = self.index_tasks@;
            assert(names[i as int]@ == names_view[i as int]);
            self.list_under_index(names[i], uid);
            proof {
                lemma_index_added_step(
                    padded.index_tasks@,
                    middle,
                    self.index_tasks@,
                    names_view,
                    i as int,
                    uid,
                );
            }
            i += 1;
        }
        assert(names_view.take(names.len() as int) =~= names_view);
        let status_at = status_index(task.status);
        let _ = bitmap_insert(&mut self.status[status_at], uid);
        let kind_at = kind_index(task.kind.as_kind());
        let _ = bitmap_insert(&mut self.kind[kind_at], uid);
        self.all_tasks.push(Some(task));
        proof {
            lemma_registered(padded, *self, view, names_view);
        }
        Ok(())
    }

    /// Registers a task of the given kind, enqueued at the given instant.
    ///
    /// The task gets the uid that follows the greatest uid of the store. It
    /// is listed as `Enqueued`, under its kind, and under each index that it
    /// touches. When every uid is taken the store refuses the append, and
    /// nothing changes.
    pub fn register(&mut self, kind: KindWithContent, enqueued_at: OffsetDateTime) -> (result:
        Result<Task, Error>)
        requires
            old(self).wf(),
        ensures
            final(self).wf(),
            match result {
                Ok(task) => {
                    &&& old(self).next_uid() <= u32::MAX
                    &&& task@ == enqueued_task(old(self).next_uid() as u32, kind@, enqueued_at)
                    &&& final(self).tasks() == old(self).tasks().insert(task.uid, task@)
                    &&& final(self).next_uid() == old(self).next_uid() + 1
                },
                Err(error) => {
                    &&& old(self).next_uid() > u32::MAX
                    &&& error@ == ErrorView::KvError
                    &&& *final(self) == *old(self)
                },
            },
    {
        if self.all_tasks.len() > u32::MAX as usize {
            return Err(Error::KvError);
        }
        let uid = self.all_tasks.len() as u32;
        let details = kind.default_details();
        let task = Task {
            uid,
            enqueued_at,
            started_at: None,
            finished_at: None,
            error: None,
            details,
            status: Status::Enqueued,
            kind,
        };
        match self.append_task(task.clone()) {
            Ok(()) => Ok(task),
            Err(error) => Err(error),
        }
    }

    /// A store that holds the given records, handed over from the smallest
    /// uid to the greatest: the store as it was when the records were read
    /// from it.
    ///
    /// The records are refused as corrupted when their uids do not grow
    /// from each to the next, or when one is `Processing`.
    pub fn from_tasks(tasks: Vec<Task>) -> (result: Result<TaskQueue, Error>)
        ensures
            match result {
                Ok(queue) => {
                    &&& queue.wf()
                    &&& restorable(tasks.deep_view())
                    &&& queue.tasks() == written(Map::empty(), tasks.deep_view())
                },
                Err(error) => !restorable(tasks.deep_view()) && error@
                    == ErrorView::CorruptedTaskQueue,
            },
    {
        let mut queue = TaskQueue::new();
        let ghost views = tasks.deep_view();
        let mut i: usize = 0;
        assert(written(Map::empty(), views.take(0)) == Map::<TaskId, TaskView>::empty());
        while i < tasks.len()
            invariant
                i <= tasks.len(),
                views == tasks.deep_view(),
                queue.wf(),
                restorable(views.take(i as int)),
                queue.tasks() == written(Map::empty(), views.take(i as int)),
                i == 0 ==> queue.next_uid() == 0,
                i > 0 ==> queue.next_uid() == views[i - 1].uid + 1,
            decreases tasks.len() - i,
        {
            assert(views[i as int] == tasks[i as int]@);
            let ghost shorter = views.take(i as int);
            let ghost longer = views.take(i + 1);
            match queue.append_task(tasks[i].clone()) {
                Ok(()) => {
                    proof {
                        assert(longer.drop_last() =~= shorter);
                        assert(longer.last() == views[i as int]);
                        assert forall|a: int| 0 <= a < longer.len() implies (#[trigger] longer[a]).status
                            != Status::Processing by {
                            if a < i {
                                assert(shorter[a] == longer[a]);
                            }
                        }
                        assert forall|a: int, b: int| 0 <= a < b < longer.len() implies longer[a].uid
                            < longer[b].uid by {
                            if b < i {
                                assert(shorter[a].uid < shorter[b].uid);
                            } else if a < i - 1 {
                                assert(shorter[a].uid < shorter[i - 1].uid);
                            }
                        }
                    }
                },
                Err(_) => {
                    proof {
                        if restorable(views) {
                            assert(views[i as int].status != Status::Processing);
                            if i > 0 {
                                assert(views[i - 1].uid < views[i as int].uid);
                            }
                        }
                    }
                    return Err(Error::CorruptedTaskQueue);
                },
            }
            i += 1;
        }
        assert(views.take(tasks.len() as int) =~= views);
        Ok(queue)
    }

    /// Rewrites the record of `task.uid` as `task`, and moves the uid to the
    /// sets of its new status and of its new kind.
    ///
    /// The update is refused, and nothing changes, when the store has no
    /// record of this uid, when the new record is `Processing`, or when it
    /// touches other indexes than the stored record.
    pub fn update_task(&mut self, task: &Task) -> (result: Result<(), Error>)
        requires
            old(self).wf(),
        ensures
            final(self).wf(),
            match result {
                Ok(()) => {
                    &&& old(self).tasks().contains_key(task.uid)
                    &&& rewritable(old(self).tasks()[task.uid], task@)
                    &&& final(self).tasks() == old(self).tasks().insert(task.uid, task@)
                    &&& final(self).next_uid() == old(self).next_uid()
                },
                Err(error) => {
                    &&& !(old(self).tasks().contains_key(task.uid) && rewritable(
                        old(self).tasks()[task.uid],
                        task@,
                    ))
                    &&& error@ == ErrorView::CorruptedTaskQueue
                    &&& *final(self) == *old(self)
                },
            },
    {
        let uid = task.uid;
        let position = uid as usize;
        if position >= self.all_tasks.len() {
            return Err(Error::CorruptedTaskQueue);
        }
        let (old_status, old_kind, same) = match &self.all_tasks[position] {
            Some(stored) => (
                stored.status,
                stored.kind.as_kind(),
                same_indexes(&stored.kind, &task.kind),
            ),
            None => {
                return Err(Error::CorruptedTaskQueue);
            },
        };
        let new_status = task.status;
        let new_kind = task.kind.as_kind();
        if new_status == Status::Processing || !same {
            return Err(Error::CorruptedTaskQueue);
        }
        if old_status != new_status {
            let from = status_index(old_status);
            let _ = bitmap_remove(&mut self.status[from], uid);
            let to = status_index(new_status);
            let _ = bitmap_insert(&mut self.status[to], uid);
        }
        if old_kind != new_kind {
            let from = kind_index(old_kind);
            let _ = bitmap_remove(&mut self.kind[from], uid);
            let to = kind_index(new_kind);
            let _ = bitmap_insert(&mut self.kind[to], uid);
        }
        self.all_tasks[position] = Some(task.clone());
        proof {
            let before = *old(self);
            assert(status_set(before.status@, old_status).contains(uid));
            assert(kind_set(before.kind@, old_kind).contains(uid));
            assert forall|status: Status|
                #[trigger] status_set(self.status@, status) == if status == new_status {
                    status_set(before.status@, status).insert(uid)
                } else {
                    status_set(before.status@, status).remove(uid)
                } by {
                let was = status_set(before.status@, status);
                assert(was.contains(uid) <==> status == old_status);
                if status == new_status {
                    assert(status_set(self.status@, status) =~= was.insert(uid));
                } else {
                    assert(status_set(self.status@, status) =~= was.remove(uid));
                }
            }
            assert forall|kind: Kind|
                #[trigger] kind_set(self.kind@, kind) == if kind == new_kind {
                    kind_set(before.kind@, kind).insert(uid)
                } else {
                    kind_set(before.kind@, kind).remove(uid)
                } by {
                let was = kind_set(before.kind@, kind);
                assert(was.contains(uid) <==> kind == old_kind);
                if kind == new_kind {
                    assert(kind_set(self.kind@, kind) =~= was.insert(uid));
                } else {
                    assert(kind_set(self.kind@, kind) =~= was.remove(uid));
                }
            }
            lemma_rewritten(before, *self, task@);
        }
        Ok(())
    }

    /// Whether `status` lists `uid` under one of the statuses of `list`.
    pub open spec fn under_any_status(&self, list: Seq<Status>, uid: TaskId) -> bool {
        exists|i: int| 0 <= i < list.len() && self.status_ids(#[trigger] list[i]).contains(uid)
    }

    /// Whether `kind` lists `uid` under one of the kinds of `list`.
    pub open spec fn under_any_kind(&self, list: Seq<Kind>, uid: TaskId) -> bool {
        exists|i: int| 0 <= i < list.len() && self.kind_ids(#[trigger] list[i]).contains(uid)
    }

    /// Whether `index-tasks` lists `uid` under one of the names of `list`.
    pub open spec fn under_any_index(&self, list: Seq<Seq<char>>, uid: TaskId) -> bool {
        exists|i: int| 0 <= i < list.len() && self.index_ids(#[trigger] list[i]).contains(uid)
    }

    /// Whether a query accepts a uid: the uid is not greater than the last
    /// uid of the store nor than `from`, and each filter that is set lists
    /// it. The filters read the tables, so a status filter goes by the
    /// stored status.
    pub open spec fn accepts(&self, query: QueryView, uid: TaskId) -> bool {
        &&& uid < self.next_uid()
        &&& query.from matches Some(from) ==> uid <= from
        &&& query.uid matches Some(list) ==> list.contains(uid)
        &&& query.status matches Some(list) ==> self.under_any_status(list, uid)
        &&& query.kind matches Some(list) ==> self.under_any_kind(list, uid)
        &&& query.index_uid matches Some(list) ==> self.under_any_index(list, uid)
    }

    /// The uids that a query accepts.
    pub open spec fn candidates(&self, query: QueryView) -> Set<TaskId> {
        Set::new(|uid: TaskId| self.accepts(query, uid))
    }

    /// The uids that a query selects: the `limit` greatest of those it
    /// accepts, from the greatest down.
    pub open spec fn selection(&self, query: QueryView) -> Seq<TaskId> {
        highest(self.candidates(query), query.limit as nat)
    }

    /// The ids that `status` lists under any of the statuses of `list`.
    fn any_status(&self, list: &Vec<Status>) -> (bitmap: RoaringBitmap)
        requires
            self.wf(),
        ensures
            forall|uid: TaskId| ids(bitmap).contains(uid) <==> self.under_any_status(list@, uid),
    {
        let mut bitmap = bitmap_new();
        let mut i: usize = 0;
        while i < list.len()
            invariant
                i <= list.len(),
                self.wf(),
                forall|uid: TaskId|
                    ids(bitmap).contains(uid) <==> self.under_any_status(list@.take(i as int), uid),
            decreases list.len() - i,
        {
            let ghost before = ids(bitmap);
            bitmap_union_with(&mut bitmap, &self.status[status_index(list[i])]);
            proof {
                let shorter = list@.take(i as int);
                let longer = list@.take(i + 1);
                assert forall|uid: TaskId|
                    ids(bitmap).contains(uid) <==> self.under_any_status(longer, uid) by {
                    assert(before.contains(uid) <==> self.under_any_status(shorter, uid));
                    if self.under_any_status(shorter, uid) {
                        let k = choose|k: int|
                            0 <= k < shorter.len() && self.status_ids(#[trigger] shorter[k]).contains(uid);
                        assert(longer[k] == shorter[k]);
                    }
                    if self.status_ids(list[i as int]).contains(uid) {
                        assert(longer[i as int] == list[i as int]);
                    }
                    if self.under_any_status(longer, uid) {
                        let k = choose|k: int|
                            0 <= k < longer.len() && self.status_ids(#[trigger] longer[k]).contains(uid);
                        if k < i {
                            assert(shorter[k] == longer[k]);
                        }
                    }
                }
            }
            i += 1;
        }
        assert(list@.take(list.len() as int) =~= list@);
        bitmap
    }

    /// The ids that `kind` lists under any of the kinds of `list`.
    fn any_kind(&self, list: &Vec<Kind>) -> (bitmap: RoaringBitmap)
        requires
            self.wf(),
        ensures
            forall|uid: TaskId| ids(bitmap).contains(uid) <==> self.under_any_kind(list@, uid),
    {
        let mut bitmap = bitmap_new();
        let mut i: usize = 0;
        while i < list.len()
            invariant
                i <= list.len(),
                self.wf(),
                forall|uid: TaskId|
                    ids(bitmap).contains(uid) <==> self.under_any_kind(list@.take(i as int), uid),
            decreases list.len() - i,
        {
            let ghost before = ids(bitmap);
            bitmap_union_with(&mut bitmap, &self.kind[kind_index(list[i])]);
            proof {
                let shorter = list@.take(i as int);
                let longer = list@.take(i + 1);
                assert forall|uid: TaskId|
                    ids(bitmap).contains(uid) <==> self.under_any_kind(longer, uid) by {
                    assert(before.contains(uid) <==> self.under_any_kind(shorter, uid));
                    if self.under_any_kind(shorter, uid) {
                        let k = choose|k: int|
                            0 <= k < shorter.len() && self.kind_ids(#[trigger] shorter[k]).contains(uid);
                        assert(longer[k] == shorter[k]);
                    }
                    if self.kind_ids(list[i as int]).contains(uid) {
                        assert(longer[i as int] == list[i as int]);
                    }
                    if self.under_any_kind(longer, uid) {
                        let k = choose|k: int|
                            0 <= k < longer.len() && self.kind_ids(#[trigger] longer[k]).contains(uid);
                        if k < i {
                            assert(shorter[k] == longer[k]);
                        }
                    }
                }
            }
            i += 1;
        }
        assert(list@.take(list.len() as int) =~= list@);
        bitmap
    }

    /// The ids that `index-tasks` lists under any of the names of `list`.
    fn any_index(&self, list: &Vec<String>) -> (bitmap: RoaringBitmap)
        requires
            self.wf(),
        ensures
            forall|uid: TaskId|
                ids(bitmap).contains(uid) <==> self.under_any_index(list.deep_view(), uid),
    {
        let mut bitmap = bitmap_new();
        let mut i: usize = 0;
        let ghost names = list.deep_view();
        while i < list.len()
            invariant
                i <= list.len(),
                self.wf(),
                names == list.deep_view(),
                forall|uid: TaskId|
                    ids(bitmap).contains(uid) <==> self.under_any_index(names.take(i as int), uid),
            decreases list.len() - i,
        {
            let ghost before = ids(bitmap);
            let listed_ids = self.get_index(list[i].as_str());
            bitmap_union_with(&mut bitmap, &listed_ids);
            proof {
                let shorter = names.take(i as int);
                let longer = names.take(i + 1);
                assert(names[i as int] == list[i as int]@);
                assert forall|uid: TaskId|
                    ids(bitmap).contains(uid) <==> self.under_any_index(longer, uid) by {
                    assert(before.contains(uid) <==> self.under_any_index(shorter, uid));
                    if self.under_any_index(shorter, uid) {
                        let k = choose|k: int|
                            0 <= k < shorter.len() && self.index_ids(#[trigger] shorter[k]).contains(uid);
                        assert(longer[k] == shorter[k]);
                    }
                    if self.index_ids(names[i as int]).contains(uid) {
                        assert(longer[i as int] == names[i as int]);
                    }
                    if self.under_any_index(longer, uid) {
                        let k = choose|k: int|
                            0 <= k < longer.len() && self.index_ids(#[trigger] longer[k]).contains(uid);
                        if k < i {
                            assert(shorter[k] == longer[k]);
                        }
                    }
                }
            }
            i += 1;
        }
        assert(names.take(list.len() as int) =~= names);
        bitmap
    }

    /// The uids that a query accepts, as a bitmap.
    fn candidate_ids(&self, query: &Query) -> (bitmap: RoaringBitmap)
        requires
            self.wf(),
        ensures
            ids(bitmap) == self.candidates(query@),
    {
        let mut bitmap = bitmap_new();
        let last = match self.last_task_id() {
            Some(last) => last,
            None => {
                assert(ids(bitmap) =~= self.candidates(query@));
                return bitmap;
            },
        };
        let cap = match query.from {
            Some(from) => if from < last {
                from
            } else {
                last
            },
            None => last,
        };
        bitmap_insert_span(&mut bitmap, 0, cap);
        if let Some(uids) = &query.uid {
            let mut wanted = bitmap_new();
            let mut i: usize = 0;
            while i < uids.len()
                invariant
                    i <= uids.len(),
                    forall|uid: TaskId|
                        ids(wanted).contains(uid) <==> uids@.take(i as int).contains(uid),
                decreases uids.len() - i,
            {
                let ghost before = ids(wanted);
                let _ = bitmap_insert(&mut wanted, uids[i]);
                proof {
                    let shorter = uids@.take(i as int);
                    let longer = uids@.take(i + 1);
                    assert(longer =~= shorter.push(uids[i as int]));
                    assert forall|uid: TaskId|
                        ids(wanted).contains(uid) <==> longer.contains(uid) by {
                        if shorter.contains(uid) {
                            let k = choose|k: int| 0 <= k < shorter.len() && shorter[k] == uid;
                            assert(longer[k] == uid);
                        }
                        if uid == uids[i as int] {
                            assert(longer[i as int] == uid);
                        }
                        if longer.contains(uid) {
                            let k = choose|k: int| 0 <= k < longer.len() && longer[k] == uid;
                            if k < i {
                                assert(shorter[k] == uid);
                            }
                        }
                    }
                }
                i += 1;
            }
            assert(uids@.take(uids.len() as int) =~= uids@);
            assert(uids.deep_view() =~= uids@);
            bitmap_intersect_with(&mut bitmap, &wanted);
        }
        let ghost by_uid = ids(bitmap);
        assert forall|uid: TaskId| by_uid.contains(uid) <==> uid <= cap && (query@.uid matches Some(
            list,
        ) ==> list.contains(uid)) by {
            assert(span(0, cap).contains(uid) <==> uid <= cap);
        }
        if let Some(statuses) = &query.status {
            let wanted = self.any_status(statuses);
            assert(statuses.deep_view() =~= statuses@);
            bitmap_intersect_with(&mut bitmap, &wanted);
        }
        let ghost by_status = ids(bitmap);
        assert forall|uid: TaskId|
            by_status.contains(uid) <==> by_uid.contains(uid) && (query@.status matches Some(list)
                ==> self.under_any_status(list, uid)) by {}
        if let Some(kinds) = &query.kind {
            let wanted = self.any_kind(kinds);
            assert(kinds.deep_view() =~= kinds@);
            bitmap_intersect_with(&mut bitmap, &wanted);
        }
        let ghost by_kind = ids(bitmap);
        assert forall|uid: TaskId|
            by_kind.contains(uid) <==> by_status.contains(uid) && (query@.kind matches Some(list)
                ==> self.under_any_kind(list, uid)) by {}
        if let Some(names) = &query.index_uid {
            let wanted = self.any_index(names);
            bitmap_intersect_with(&mut bitmap, &wanted);
        }
        proof {
            assert forall|uid: TaskId|
                ids(bitmap).contains(uid) <==> self.accepts(query@, uid) by {
                assert(ids(bitmap).contains(uid) <==> by_kind.contains(uid) && (
                query@.index_uid matches Some(list) ==> self.under_any_index(list, uid)));
            }
            assert(ids(bitmap) =~= self.candidates(query@));
        }
        bitmap
    }

    /// The stored records that a query selects, the greatest uid first.
    ///
    /// The listing fails when a selected uid has no record, which happens
    /// only when no filter is set that reads a table and a task in the range
    /// was deleted.
    pub fn select(&self, query: &Query) -> (result: Result<Vec<Task>, Error>)
        requires
            self.wf(),
        ensures
            match result {
                Ok(tasks) => {
                    &&& tasks.len() == self.selection(query@).len()
                    &&& forall|i: int|
                        0 <= i < tasks.len() ==> self.tasks().contains_key(
                            #[trigger] self.selection(query@)[i],
                        ) && tasks[i]@ == self.tasks()[self.selection(query@)[i]]
                },
                Err(error) => {
                    &&& error@ == ErrorView::CorruptedTaskQueue
                    &&& exists|i: int|
                        0 <= i < self.selection(query@).len() && !self.tasks().contains_key(
                            #[trigger] self.selection(query@)[i],
                        )
                },
            },
    {
        let chosen = take_highest(self.candidate_ids(query), query.limit);
        let mut tasks: Vec<Task> = Vec::new();
        let mut i: usize = 0;
        while i < chosen.len()
            invariant
                i <= chosen.len(),
                self.wf(),
                chosen@ == self.selection(query@),
                tasks.len() == i,
                forall|j: int|
                    0 <= j < i ==> self.tasks().contains_key(#[trigger] chosen@[j]) && tasks[j]@
                        == self.tasks()[chosen@[j]],
            decreases chosen.len() - i,
        {
            match self.get_task(chosen[i]) {
                Some(task) => {
                    tasks.push(task);
                },
                None => {
                    assert(!self.tasks().contains_key(self.selection(query@)[i as int]));
                    return Err(Error::CorruptedTaskQueue);
                },
            }
            i += 1;
        }
        Ok(tasks)
    }

    /// Every table lists exactly the tasks that its key describes: a uid is
    /// listed under a status exactly when its record has this status, and
    /// under a kind exactly when its record is of this kind.
    pub proof fn law_status_and_kind(&self, uid: TaskId, status: Status, kind: Kind)
        requires
            self.wf(),
        ensures
            self.status_ids(status).contains(uid) <==> self.tasks().contains_key(uid)
                && self.tasks()[uid].status == status,
            self.kind_ids(kind).contains(uid) <==> self.tasks().contains_key(uid)
                && self.tasks()[uid].kind.as_kind() == kind,
    {
        assert(status_set(self.status@, status).contains(uid) <==> holds(self.all_tasks@, uid)
            && record(self.all_tasks@, uid).status == status);
        assert(kind_set(self.kind@, kind).contains(uid) <==> holds(self.all_tasks@, uid) && record(
            self.all_tasks@,
            uid,
        ).kind.as_kind() == kind);
    }

    /// A uid is listed under the name of an index exactly when its record
    /// touches this index.
    pub proof fn law_index_tasks(&self, uid: TaskId, name: Seq<char>)
        requires
            self.wf(),
        ensures
            self.index_ids(name).contains(uid) <==> self.tasks().contains_key(uid)
                && self.tasks()[uid].kind.touches(name),
    {
        let entries = self.index_tasks@;
        if listed(entries, name) {
            let i = choose|i: int| 0 <= i < entries.len() && #[trigger] entry_name(entries, i) == name;
            assert(entry_set(entries, i).contains(uid) <==> holds(self.all_tasks@, uid) && record(
                self.all_tasks@,
                uid,
            ).kind.touches(entry_name(entries, i)));
        } else {
            if holds(self.all_tasks@, uid) && record(self.all_tasks@, uid).kind.touches(name) {
                assert(listed(entries, name));
            }
        }
    }

    /// Every record sits under its own uid, below the next uid, and is never
    /// `Processing`; and the uid just below the next one has a record.
    pub proof fn law_uids(&self, uid: TaskId)
        requires
            self.wf(),
        ensures
            self.next_uid() <= u32::MAX + 1,
            self.next_uid() > 0 ==> self.tasks().contains_key((self.next_uid() - 1) as TaskId),
            self.tasks().contains_key(uid) ==> uid < self.next_uid() && self.tasks()[uid].uid == uid
                && self.tasks()[uid].status != Status::Processing,
    {
        if self.next_uid() > 0 {
            assert(holds(self.all_tasks@, (self.next_uid() - 1) as TaskId));
        }
        if self.tasks().contains_key(uid) {
            assert(holds(self.all_tasks@, uid));
        }
    }

    /// What a listing holds: at most `limit` uids, each accepted by the
    /// query, each smaller than the one before; and an accepted uid is left
    /// out only when the listing is full and the uid is smaller than all
    /// that are listed.
    pub proof fn law_selection(&self, query: QueryView)
        ensures
            self.selection(query).len() <= query.limit,
            forall|i: int|
                0 <= i < self.selection(query).len() ==> self.accepts(
                    query,
                    #[trigger] self.selection(query)[i],
                ),
            forall|i: int, j: int|
                0 <= i < j < self.selection(query).len() ==> self.selection(query)[i]
                    > self.selection(query)[j],
            forall|uid: TaskId|
                self.accepts(query, uid) && !self.selection(query).contains(uid)
                    ==> self.selection(query).len() == query.limit && forall|i: int|
                    0 <= i < self.selection(query).len() ==> uid < #[trigger] self.selection(
                        query,
                    )[i],
    {
        let set = self.candidates(query);
        let list = self.selection(query);
        law_highest(set, query.limit as nat);
        assert forall|i: int| 0 <= i < list.len() implies self.accepts(query, #[trigger] list[i]) by {
            assert(set.contains(list[i]));
        }
        assert forall|uid: TaskId| self.accepts(query, uid) && !list.contains(uid) implies list.len()
            == query.limit && forall|i: int| 0 <= i < list.len() ==> uid < #[trigger] list[i] by {
            assert(set.contains(uid));
        }
    }

    /// The uids of `uids` that the store may delete: those that have a
    /// record which has run to its end.
    pub open spec fn deletable(&self, uids: Seq<TaskId>) -> Set<TaskId> {
        Set::new(
            |uid: TaskId|
                uids.contains(uid) && self.tasks().contains_key(uid) && is_terminal(
                    self.tasks()[uid].status,
                ),
        )
    }

    /// Takes `uid` out of the entry of the index `name`, if there is one.
    fn unlist_under_index(&mut self, name: &str, uid: TaskId)
        requires
            names_distinct(old(self).index_tasks@),
        ensures
            final(self).all_tasks == old(self).all_tasks,
            final(self).status == old(self).status,
            final(self).kind == old(self).kind,
            index_unstep(old(self).index_tasks@, final(self).index_tasks@, name@, uid),
    {
        match self.find_index(name) {
            Some(i) => {
                let _ = bitmap_remove(&mut self.index_tasks[i].ids, uid);
                proof {
                    let before = old(self).index_tasks@;
                    let after = self.index_tasks@;
                    assert(entry_name(before, i as int) == name@);
                    assert forall|j: int| 0 <= j < before.len() implies #[trigger] entry_name(
                        after,
                        j,
                    ) == entry_name(before, j) && entry_set(after, j) == if entry_name(before, j)
                        == name@ {
                        entry_set(before, j).remove(uid)
                    } else {
                        entry_set(before, j)
                    } by {
                        if j != i {
                            assert(entry_name(before, j) != entry_name(before, i as int));
                        }
                    }
                }
            },
            None => {
                proof {
                    let before = old(self).index_tasks@;
                    assert forall|j: int| 0 <= j < before.len() implies entry_name(before, j)
                        != name@ by {}
                }
            },
        }
    }

    /// Deletes the record of `uid` if it has run to its end, and tells
    /// whether it did.
    fn delete_one(&mut self, uid: TaskId) -> (deleted: bool)
        requires
            old(self).wf_but_last(),
        ensures
            final(self).wf_but_last(),
            final(self).all_tasks.len() == old(self).all_tasks.len(),
            deleted == (old(self).tasks().contains_key(uid) && is_terminal(
                old(self).tasks()[uid].status,
            )),
            deleted ==> final(self).tasks() == old(self).tasks().remove(uid),
            !deleted ==> *final(self) == *old(self),
    {
        let position = uid as usize;
        if position >= self.all_tasks.len() {
            return false;
        }
        let (status, kind) = match &self.all_tasks[position] {
            Some(stored) => (stored.status, stored.kind.as_kind()),
            None => {
                return false;
            },
        };
        if !(status == Status::Succeeded || status == Status::Failed) {
            return false;
        }
        let ghost before = *old(self);
        let ghost gone = record(before.all_tasks@, uid);
        let ghost names_view: Seq<Seq<char>> = match gone.kind.indexes() {
            Some(list) => list,
            None => Seq::empty(),
        };
        let taken = self.all_tasks[position].take();
        let stored = match taken {
            Some(stored) => stored,
            None => {
                return false;
            },
        };
        let names: Vec<&str> = match stored.kind.indexes() {
            Some(list) => list,
            None => Vec::new(),
        };
        assert(names.deep_view() =~= names_view);
        let mut i: usize = 0;
        while i < names.len()
            invariant
                i <= names.len(),
                names.deep_view() == names_view,
                self.all_tasks@ == before.all_tasks@.update(uid as int, None),
                self.status == before.status,
                self.kind == before.kind,
                names_distinct(before.index_tasks@),
                names_distinct(self.index_tasks@),
                index_dropped(before.index_tasks@, self.index_tasks@, names_view.take(i as int), uid),
            decreases names.len() - i,
        {
            let ghost middle = self.index_tasks@;
            assert(names[i as int]@ == names_view[i as int]);
            self.unlist_under_index(names[i], uid);
            proof {
                lemma_index_dropped_step(
                    before.index_tasks@,
                    middle,
                    self.index_tasks@,
                    names_view,
                    i as int,
                    uid,
                );
                let after = self.index_tasks@;
                assert forall|a: int, b: int| 0 <= a < b < after.len() implies #[trigger] entry_name(
                    after,
                    a,
                ) != #[trigger] entry_name(after, b) by {
                    assert(entry_name(after, a) == entry_name(middle, a));
                    assert(entry_name(after, b) == entry_name(middle, b));
                }
            }
            i += 1;
        }
        assert(names_view.take(names.len() as int) =~= names_view);
        let status_at = status_index(status);
        let _ = bitmap_remove(&mut self.status[status_at], uid);
        let kind_at = kind_index(kind);
        let _ = bitmap_remove(&mut self.kind[kind_at], uid);
        proof {
            assert forall|other: Status|
                #[trigger] status_set(self.status@, other) == status_set(before.status@, other).remove(
                    uid,
                ) by {
                let was = status_set(before.status@, other);
                assert(was.contains(uid) <==> other == status);
                assert(status_set(self.status@, other) =~= was.remove(uid));
            }
            assert forall|other: Kind|
                #[trigger] kind_set(self.kind@, other) == kind_set(before.kind@, other).remove(
                    uid,
                ) by {
                let was = kind_set(before.kind@, other);
                assert(was.contains(uid) <==> other == kind);
                assert(kind_set(self.kind@, other) =~= was.remove(uid));
            }
            lemma_deleted(before, *self, uid, names_view);
        }
        true
    }

    /// Deletes, among the tasks of `uids`, those that have run to their end
    /// (`Succeeded` or `Failed`), from every table, and tells how many it
    /// deleted. A uid without a record, or whose task has not run yet, is
    /// passed over.
    pub fn delete_tasks(&mut self, uids: &Vec<TaskId>) -> (deleted: usize)
        requires
            old(self).wf(),
        ensures
            final(self).wf(),
            final(self).tasks() == old(self).tasks().remove_keys(old(self).deletable(uids@)),
            old(self).deletable(uids@).finite(),
            deleted == old(self).deletable(uids@).len(),
            final(self).next_uid() <= old(self).next_uid(),
            old(self).next_uid() > 0 && !old(self).deletable(uids@).contains(
                (old(self).next_uid() - 1) as TaskId,
            ) ==> final(self).next_uid() == old(self).next_uid(),
    {
        let ghost before = *old(self);
        let ghost mut done: Set<TaskId> = Set::empty();
        let mut deleted: usize = 0;
        let mut i: usize = 0;
        assert(self.tasks() =~= before.tasks().remove_keys(done));
        assert(done =~= before.deletable(uids@.take(0)));
        while i < uids.len()
            invariant
                i <= uids.len(),
                self.wf_but_last(),
                before.wf(),
                self.all_tasks.len() == before.all_tasks.len(),
                self.tasks() == before.tasks().remove_keys(done),
                done == before.deletable(uids@.take(i as int)),
                done.finite(),
                done.len() == deleted,
                deleted <= i,
            decreases uids.len() - i,
        {
            let uid = uids[i];
            let ghost current = self.tasks();
            let removed = self.delete_one(uid);
            proof {
                let shorter = uids@.take(i as int);
                let longer = uids@.take(i + 1);
                assert(longer =~= shorter.push(uid));
                assert forall|other: TaskId| longer.contains(other) <==> (shorter.contains(other)
                    || other == uid) by {
                    if shorter.contains(other) {
                        let k = choose|k: int| 0 <= k < shorter.len() && shorter[k] == other;
                        assert(longer[k] == other);
                    }
                    if other == uid {
                        assert(longer[i as int] == other);
                    }
                    if longer.contains(other) {
                        let k = choose|k: int| 0 <= k < longer.len() && longer[k] == other;
                        if k < i {
                            assert(shorter[k] == other);
                        }
                    }
                }
                if current.contains_key(uid) {
                    assert(before.tasks().contains_key(uid) && !done.contains(uid));
                    assert(current[uid] == before.tasks()[uid]);
                }
                if removed {
                    assert(before.deletable(longer) =~= done.insert(uid));
                    assert(self.tasks() =~= before.tasks().remove_keys(done.insert(uid)));
                    done = done.insert(uid);
                } else {
                    assert(before.deletable(longer) =~= done);
                }
            }
            if removed {
                deleted += 1;
            }
            i += 1;
        }
        assert(uids@.take(uids.len() as int) =~= uids@);
        let ghost kept = self.tasks();
        let ghost top: TaskId = if before.all_tasks.len() > 0 {
            (before.all_tasks.len() - 1) as TaskId
        } else {
            0
        };
        while self.all_tasks.len() > 0 && self.all_tasks[self.all_tasks.len() - 1].is_none()
            invariant
                self.wf_but_last(),
                self.tasks() == kept,
                self.all_tasks.len() <= before.all_tasks.len(),
                before.all_tasks.len() > 0 ==> top == before.all_tasks.len() - 1,
                before.all_tasks.len() > 0 && kept.contains_key(top) ==> self.all_tasks.len()
                    == before.all_tasks.len(),
            decreases self.all_tasks.len(),
        {
            proof {
                if before.all_tasks.len() > 0 && kept.contains_key(top) {
                    assert(holds(self.all_tasks@, top));
                }
            }
            let ghost wider = *self;
            let _ = self.all_tasks.pop();
            proof {
                lemma_same_records(wider, *self);
            }
        }
        deleted
    }

    /// The uids that `status` lists as `Enqueued`, from the smallest to the
    /// greatest.
    pub fn enqueued(&self) -> (uids: Vec<TaskId>)
        requires
            self.wf(),
        ensures
            forall|i: int, j: int| 0 <= i < j < uids.len() ==> uids[i] < uids[j],
            forall|uid: TaskId| uids@.contains(uid) <==> self.status_ids(Status::Enqueued).contains(uid),
    {
        bitmap_to_vec(&self.status[status_index(Status::Enqueued)])
    }

    /// Whether `tasks` is the list of the enqueued tasks of the store, from
    /// the oldest on.
    pub open spec fn lists_enqueued(&self, tasks: Seq<TaskView>) -> bool {
        &&& forall|i: int, j: int| 0 <= i < j < tasks.len() ==> tasks[i].uid < tasks[j].uid
        &&& forall|i: int|
            0 <= i < tasks.len() ==> self.tasks().contains_key((#[trigger] tasks[i]).uid)
                && self.tasks()[tasks[i].uid] == tasks[i] && tasks[i].status == Status::Enqueued
        &&& forall|uid: TaskId|
            self.tasks().contains_key(uid) && (#[trigger] self.tasks()[uid]).status
                == Status::Enqueued ==> exists|i: int|
                0 <= i < tasks.len() && (#[trigger] tasks[i]).uid == uid
    }

    /// The enqueued tasks of the store, from the oldest on.
    pub fn enqueued_tasks(&self) -> (tasks: Vec<Task>)
        requires
            self.wf(),
        ensures
            self.lists_enqueued(tasks.deep_view()),
    {
        let uids = self.enqueued();
        let mut tasks: Vec<Task> = Vec::new();
        let mut i: usize = 0;
        while i < uids.len()
            invariant
                i <= uids.len(),
                self.wf(),
                tasks.len() == i,
                forall|a: int, b: int| 0 <= a < b < uids.len() ==> uids[a] < uids[b],
                forall|uid: TaskId|
                    uids@.contains(uid) <==> self.status_ids(Status::Enqueued).contains(uid),
                forall|j: int|
                    0 <= j < i ==> (#[trigger] tasks[j])@.uid == uids[j] && self.tasks().contains_key(
                        uids[j],
                    ) && self.tasks()[uids[j]] == tasks[j]@ && tasks[j]@.status == Status::Enqueued,
            decreases uids.len() - i,
        {
            let uid = uids[i];
            proof {
                assert(uids@.contains(uid));
                self.law_status_and_kind(uid, Status::Enqueued, Kind::Snapshot);
                self.law_uids(uid);
            }
            match self.get_task(uid) {
                Some(task) => {
                    tasks.push(task);
                },
                None => {
                    assert(false);
                },
            }
            i += 1;
        }
        proof {
            let views = tasks.deep_view();
            assert forall|j: int| 0 <= j < views.len() implies views[j] == tasks[j]@ by {}
            assert forall|uid: TaskId|
                self.tasks().contains_key(uid) && (#[trigger] self.tasks()[uid]).status
                    == Status::Enqueued implies exists|k: int|
                0 <= k < views.len() && (#[trigger] views[k]).uid == uid by {
                self.law_status_and_kind(uid, Status::Enqueued, Kind::Snapshot);
                assert(uids@.contains(uid));
                let k = choose|k: int| 0 <= k < uids.len() && uids[k] == uid;
                assert(views[k].uid == uid);
            }
        }
        tasks
    }

    /// Whether `task` may be written over the record of its uid.
    pub fn can_update(&self, task: &Task) -> (allowed: bool)
        requires
            self.wf(),
        ensures
            allowed == (self.tasks().contains_key(task.uid) && rewritable(
                self.tasks()[task.uid],
                task@,
            )),
    {
        let position = task.uid as usize;
        if position >= self.all_tasks.len() {
            return false;
        }
        match &self.all_tasks[position] {
            Some(stored) => task.status != Status::Processing && same_indexes(
                &stored.kind,
                &task.kind,
            ),
            None => false,
        }
    }

    /// Rewrites the records of the uids of `updates`, one after the other,
    /// or none of them: when one of the updates would be refused, nothing
    /// changes.
    pub fn update_all(&mut self, updates: &Vec<Task>) -> (result: Result<(), Error>)
        requires
            old(self).wf(),
        ensures
            final(self).wf(),
            match result {
                Ok(()) => {
                    &&& writable(old(self).tasks(), updates.deep_view())
                    &&& final(self).tasks() == written(old(self).tasks(), updates.deep_view())
                    &&& final(self).next_uid() == old(self).next_uid()
                },
                Err(error) => {
                    &&& !writable(old(self).tasks(), updates.deep_view())
                    &&& error@ == ErrorView::CorruptedTaskQueue
                    &&& *final(self) == *old(self)
                },
            },
    {
        let ghost views = updates.deep_view();
        let ghost records = self.tasks();
        let mut i: usize = 0;
        while i < updates.len()
            invariant
                i <= updates.len(),
                self.wf(),
                *self == *old(self),
                views == updates.deep_view(),
                records == self.tasks(),
                writable(records, views.take(i as int)),
            decreases updates.len() - i,
        {
            assert(views[i as int] == updates[i as int]@);
            if !self.can_update(&updates[i]) {
                return Err(Error::CorruptedTaskQueue);
            }
            proof {
                let shorter = views.take(i as int);
                let longer = views.take(i + 1);
                assert forall|j: int| 0 <= j < longer.len() implies records.contains_key(
                    (#[trigger] longer[j]).uid,
                ) && rewritable(records[longer[j].uid], longer[j]) by {
                    if j < i {
                        assert(shorter[j] == longer[j]);
                    }
                }
            }
            i += 1;
        }
        assert(views.take(updates.len() as int) =~= views);
        let mut k: usize = 0;
        assert(written(records, views.take(0)) == records);
        while k < updates.len()
            invariant
                k <= updates.len(),
                self.wf(),
                views == updates.deep_view(),
                records == old(self).tasks(),
                writable(records, views),
                self.tasks() == written(records, views.take(k as int)),
                self.next_uid() == old(self).next_uid(),
            decreases updates.len() - k,
        {
            proof {
                let shorter = views.take(k as int);
                assert forall|j: int| 0 <= j < shorter.len() implies records.contains_key(
                    (#[trigger] shorter[j]).uid,
                ) && rewritable(records[shorter[j].uid], shorter[j]) by {
                    assert(shorter[j] == views[j]);
                }
                lemma_written_keeps(records, shorter);
                assert(views[k as int] == updates[k as int]@);
                let uid = views[k as int].uid;
                assert(records.contains_key(uid));
                assert(self.tasks().dom() == records.dom());
                assert(self.tasks().contains_key(uid));
                assert(self.tasks()[uid].kind.indexes() == records[uid].kind.indexes());
            }
            let outcome = self.update_task(&updates[k]);
            proof {
                assert(outcome is Ok);
                let longer = views.take(k + 1);
                assert(longer.drop_last() =~= views.take(k as int));
                assert(longer.last() == views[k as int]);
            }
            k += 1;
        }
        assert(views.take(updates.len() as int) =~= views);
        Ok(())
    }

    /// Registration keeps a store without gaps without gaps: when the uids
    /// of the store are all those below the next uid, they still are after
    /// a task was registered, and the next uid is greater by one.
    pub proof fn law_register_keeps_uids_contiguous(
        before: TaskQueue,
        after: TaskQueue,
        task: TaskView,
    )
        requires
            before.wf(),
            after.wf(),
            task.uid == before.next_uid(),
            after.tasks() == before.tasks().insert(task.uid, task),
            after.next_uid() == before.next_uid() + 1,
            forall|uid: TaskId| before.tasks().contains_key(uid) <==> uid < before.next_uid(),
        ensures
            after.next_uid() > before.next_uid(),
            forall|uid: TaskId| after.tasks().contains_key(uid) <==> uid < after.next_uid(),
    {
    }

    /// The list of the enqueued tasks of a store is one list only.
    pub proof fn law_enqueued_list_is_unique(&self, one: Seq<TaskView>, other: Seq<TaskView>)
        requires
            self.lists_enqueued(one),
            self.lists_enqueued(other),
        ensures
            one == other,
    {
        Self::lemma_enqueued_prefix(*self, one, other, one.len() as int);
        Self::lemma_enqueued_prefix(*self, other, one, other.len() as int);
        Self::lemma_enqueued_no_longer(*self, one, other);
        Self::lemma_enqueued_no_longer(*self, other, one);
        assert forall|i: int| 0 <= i < one.len() implies one[i] == other[i] by {
            assert(self.tasks()[one[i].uid] == one[i]);
            assert(self.tasks()[other[i].uid] == other[i]);
        }
        assert(one =~= other);
    }

    /// Two lists of the enqueued tasks agree on the uids at their common
    /// positions.
    proof fn lemma_enqueued_prefix(
        queue: TaskQueue,
        one: Seq<TaskView>,
        other: Seq<TaskView>,
        upto: int,
    )
        requires
            queue.lists_enqueued(one),
            queue.lists_enqueued(other),
            0 <= upto <= one.len(),
        ensures
            forall|i: int| 0 <= i < upto && i < other.len() ==> one[i].uid == other[i].uid,
        decreases upto,
    {
        if upto > 0 {
            Self::lemma_enqueued_prefix(queue, one, other, upto - 1);
            let i = upto - 1;
            if i < other.len() {
                // the uid at `i` of each list occurs in the other list, at `i` or later
                let a = one[i];
                assert(queue.tasks().contains_key(a.uid) && queue.tasks()[a.uid].status
                    == Status::Enqueued);
                let k = choose|k: int| 0 <= k < other.len() && (#[trigger] other[k]).uid == a.uid;
                if k < i {
                    assert(one[k].uid == other[k].uid);
                    assert(one[k].uid < one[i].uid);
                }
                let b = other[i];
                assert(queue.tasks().contains_key(b.uid) && queue.tasks()[b.uid].status
                    == Status::Enqueued);
                let m = choose|m: int| 0 <= m < one.len() && (#[trigger] one[m]).uid == b.uid;
                if m < i {
                    assert(one[m].uid == other[m].uid);
                    assert(other[m].uid < other[i].uid);
                }
                if k > i {
                    assert(other[i].uid < other[k].uid);
                }
                if m > i {
                    assert(one[i].uid < one[m].uid);
                }
            }
        }
    }

    /// Of two lists of the enqueued tasks, none is longer than the other.
    proof fn lemma_enqueued_no_longer(queue: TaskQueue, short: Seq<TaskView>, long: Seq<TaskView>)
        requires
            queue.lists_enqueued(short),
            queue.lists_enqueued(long),
        ensures
            long.len() <= short.len(),
    {
        if short.len() < long.len() {
            Self::lemma_enqueued_prefix(queue, short, long, short.len() as int);
            let extra = long[short.len() as int];
            assert(queue.tasks().contains_key(extra.uid) && queue.tasks()[extra.uid].status
                == Status::Enqueued);
            let k = choose|k: int| 0 <= k < short.len() && (#[trigger] short[k]).uid == extra.uid;
            assert(short[k].uid == long[k].uid);
            assert(long[k].uid < long[short.len() as int].uid);
        }
    }

    /// Lets the indexes `lhs` and `rhs` trade their names in the store:
    /// every task that named one names the other, and `index-tasks` lists
    /// under each of the two names what it listed under the other. Nothing
    /// else changes.
    pub fn swap_index_tasks(&mut self, lhs: &str, rhs: &str)
        requires
            old(self).wf(),
        ensures
            final(self).wf(),
            final(self).tasks() == Map::new(
                |uid: TaskId| old(self).tasks().contains_key(uid),
                |uid: TaskId| renamed(old(self).tasks()[uid], lhs@, rhs@),
            ),
            final(self).next_uid() == old(self).next_uid(),
            forall|name: Seq<char>|
                #[trigger] final(self).index_ids(name) == old(self).index_ids(
                    swap_name(name, lhs@, rhs@),
                ),
    {
        let ghost before = *old(self);
        let mut i: usize = 0;
        while i < self.all_tasks.len()
            invariant
                i <= self.all_tasks.len(),
                self.status == before.status,
                self.kind == before.kind,
                self.index_tasks == before.index_tasks,
                self.all_tasks@.len() == before.all_tasks@.len(),
                forall|j: int|
                    0 <= j < i ==> (#[trigger] self.all_tasks@[j] is Some)
                        == (before.all_tasks@[j] is Some) && (before.all_tasks@[j] is Some
                        ==> self.all_tasks@[j]->0@ == renamed(before.all_tasks@[j]->0@, lhs@, rhs@)),
                forall|j: int|
                    i <= j < self.all_tasks.len() ==> #[trigger] self.all_tasks@[j]
                        == before.all_tasks@[j],
            decreases self.all_tasks.len() - i,
        {
            let taken = self.all_tasks[i].take();
            if let Some(task) = taken {
                let Task { uid, enqueued_at, started_at, finished_at, error, details, status, kind } =
                    task;
                self.all_tasks[i] = Some(
                    Task {
                        uid,
                        enqueued_at,
                        started_at,
                        finished_at,
                        error,
                        details,
                        status,
                        kind: kind.swapped(lhs, rhs),
                    },
                );
            }
            i += 1;
        }
        let ghost renamed_tasks = self.all_tasks@;
        let mut k: usize = 0;
        while k < self.index_tasks.len()
            invariant
                k <= self.index_tasks.len(),
                self.status == before.status,
                self.kind == before.kind,
                self.all_tasks@ == renamed_tasks,
                self.index_tasks@.len() == before.index_tasks@.len(),
                forall|j: int|
                    0 <= j < k ==> #[trigger] entry_name(self.index_tasks@, j) == swap_name(
                        entry_name(before.index_tasks@, j),
                        lhs@,
                        rhs@,
                    ) && entry_set(self.index_tasks@, j) == entry_set(before.index_tasks@, j),
                forall|j: int|
                    k <= j < self.index_tasks.len() ==> #[trigger] self.index_tasks@[j]
                        == before.index_tasks@[j],
            decreases self.index_tasks.len() - k,
        {
            let ghost entries = self.index_tasks@;
            let current = self.index_tasks[k].name.clone();
            self.index_tasks[k].name = swapped_name(current, lhs, rhs);
            proof {
                let now = self.index_tasks@;
                assert(entries[k as int] == before.index_tasks@[k as int]);
                assert(now[k as int].ids == entries[k as int].ids);
                assert forall|j: int| 0 <= j < k + 1 implies #[trigger] entry_name(now, j)
                    == swap_name(entry_name(before.index_tasks@, j), lhs@, rhs@) && entry_set(now, j)
                    == entry_set(before.index_tasks@, j) by {
                    if j < k {
                        assert(now[j] == entries[j]);
                        assert(entry_name(entries, j) == swap_name(
                            entry_name(before.index_tasks@, j),
                            lhs@,
                            rhs@,
                        ));
                    }
                }
                assert forall|j: int| k + 1 <= j < now.len() implies #[trigger] now[j]
                    == before.index_tasks@[j] by {
                    assert(now[j] == entries[j]);
                }
            }
            k += 1;
        }
        proof {
            let now = self.index_tasks@;
            assert forall|j: int| 0 <= j < before.index_tasks@.len() implies #[trigger] entry_name(
                now,
                j,
            ) == swap_name(entry_name(before.index_tasks@, j), lhs@, rhs@) by {}
            assert forall|j: int| 0 <= j < before.index_tasks@.len() implies #[trigger] entry_set(
                now,
                j,
            ) == entry_set(before.index_tasks@, j) by {
                assert(entry_name(now, j) == swap_name(
                    entry_name(before.index_tasks@, j),
                    lhs@,
                    rhs@,
                ));
            }
            lemma_swapped(before, *self, lhs@, rhs@);
        }
    }
}

} // verus!
