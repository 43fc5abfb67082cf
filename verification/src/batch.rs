//! What the batch processor owes the scheduler for a fused batch: one count
//! of documents for the imports that run as one, and one status for all the
//! tasks of a batch that succeeded.

use vstd::prelude::*;
use uuid::Uuid;
use crate::tasks::{KindView, KindWithContent, Status, Task, TaskView};

verus! {

/// The documents that a task brings: those of its update file for an
/// import, none for any other task.
pub open spec fn documents_of(task: TaskView) -> nat {
    match task.kind {
        KindView::DocumentImport { documents_count, .. } => documents_count as nat,
        _ => 0,
    }
}

/// The documents that the tasks of a batch bring together.
pub open spec fn documents_in(tasks: Seq<TaskView>) -> nat
    decreases tasks.len(),
{
    if tasks.len() == 0 {
        0
    } else {
        documents_in(tasks.drop_last()) + documents_of(tasks.last())
    }
}

/// A task of a batch that succeeded.
pub open spec fn succeeded(task: TaskView) -> TaskView {
    TaskView { status: Status::Succeeded, ..task }
}

/// The documents that the tasks of a batch bring together: the sum of the
/// documents of its imports; none when the sum is too great to be counted.
pub fn fused_documents_count(tasks: &Vec<Task>) -> (count: Option<u64>)
    ensures
        match count {
            Some(count) => count == documents_in(tasks.deep_view()),
            None => documents_in(tasks.deep_view()) > u64::MAX,
        },
{
    let ghost views = tasks.deep_view();
    let mut count: u64 = 0;
    let mut i: usize = 0;
    assert(documents_in(views.take(0)) == 0);
    while i < tasks.len()
        invariant
            i <= tasks.len(),
            views == tasks.deep_view(),
            count == documents_in(views.take(i as int)),
        decreases tasks.len() - i,
    {
        assert(views[i as int] == tasks[i as int]@);
        let brought: u64 = match &tasks[i].kind {
            KindWithContent::DocumentImport { documents_count, .. } => *documents_count,
            _ => 0,
        };
        proof {
            let longer = views.take(i + 1);
            assert(longer.drop_last() =~= views.take(i as int));
            assert(longer.last() == views[i as int]);
        }
        match count.checked_add(brought) {
            Some(sum) => {
                count = sum;
            },
            None => {
                proof {
                    lemma_documents_grow(views, i + 1);
                }
                return None;
            },
        }
        i += 1;
    }
    assert(views.take(tasks.len() as int) =~= views);
    Some(count)
}

/// The tasks of a list bring at least as many documents as its first
/// tasks do.
proof fn lemma_documents_grow(tasks: Seq<TaskView>, first: int)
    requires
        0 <= first <= tasks.len(),
    ensures
        documents_in(tasks.take(first)) <= documents_in(tasks),
    decreases tasks.len() - first,
{
    if first < tasks.len() {
        let longer = tasks.take(first + 1);
        assert(longer.drop_last() =~= tasks.take(first));
        lemma_documents_grow(tasks, first + 1);
    } else {
        assert(tasks.take(first) =~= tasks);
    }
}

/// The tasks of a batch that succeeded: each as it was handed over, with
/// the status `Succeeded`.
pub fn succeed_all(tasks: Vec<Task>) -> (done: Vec<Task>)
    ensures
        done.len() == tasks.len(),
        forall|i: int| 0 <= i < tasks.len() ==> (#[trigger] done[i])@ == succeeded(tasks[i]@),
{
    let mut done = tasks;
    let mut i: usize = 0;
    while i < done.len()
        invariant
            i <= done.len(),
            done.len() == tasks.len(),
            forall|j: int| 0 <= j < i ==> (#[trigger] done[j])@ == succeeded(tasks[j]@),
            forall|j: int| i <= j < done.len() ==> (#[trigger] done[j])@ == tasks[j]@,
        decreases done.len() - i,
    {
        done[i].status = Status::Succeeded;
        i += 1;
    }
    done
}


/// The update files that are not needed any more once the tasks of a batch
/// are recorded: those of the imports that succeeded or failed, in the
/// order of the tasks. The file of an import that is still enqueued is
/// kept.
pub open spec fn finished_files(tasks: Seq<TaskView>) -> Seq<Uuid>
    decreases tasks.len(),
{
    if tasks.len() == 0 {
        Seq::empty()
    } else {
        let last = tasks.last();
        let before = finished_files(tasks.drop_last());
        if (last.status == Status::Succeeded || last.status == Status::Failed)
            && last.kind.content_uuid() is Some {
            before.push(last.kind.content_uuid()->0)
        } else {
            before
        }
    }
}

/// The update files to delete once the tasks of a batch are recorded.
pub fn files_to_delete(tasks: &Vec<Task>) -> (files: Vec<Uuid>)
    ensures
        files@ == finished_files(tasks.deep_view()),
{
    let ghost views = tasks.deep_view();
    let mut files: Vec<Uuid> = Vec::new();
    let mut i: usize = 0;
    assert(finished_files(views.take(0)) =~= Seq::<Uuid>::empty());
    while i < tasks.len()
        invariant
            i <= tasks.len(),
            views == tasks.deep_view(),
            files@ == finished_files(views.take(i as int)),
        decreases tasks.len() - i,
    {
        assert(views[i as int] == tasks[i as int]@);
        proof {
            let longer = views.take(i + 1);
            assert(longer.drop_last() =~= views.take(i as int));
            assert(longer.last() == views[i as int]);
        }
        let status = tasks[i].status;
        if status == Status::Succeeded || status == Status::Failed {
            match tasks[i].content_uuid() {
                Some(uuid) => {
                    files.push(*uuid);
                },
                None => {},
            }
        }
        i += 1;
    }
    assert(views.take(tasks.len() as int) =~= views);
    files
}

} // verus!
