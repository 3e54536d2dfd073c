//! The task list as a sequence, and what the operations do to it.
//!
//! A list in good order numbers its tasks `1..=N` from front to back
//! ([`dense`]). Adding keeps that order, completing does not touch ids, and
//! deleting closes the gap it leaves by numbering the remaining tasks anew.
//! None of the operations asks for a list in good order: each is defined on
//! every sequence, and the lemmas say what it does to one in good order.

use crate::task::TaskView;
use vstd::prelude::*;

verus! {

/// The ids run `1, 2, .., N` from front to back.
pub open spec fn dense(s: Seq<TaskView>) -> bool {
    forall|i: int| 0 <= i < s.len() ==> (#[trigger] s[i]).id == i + 1
}

/// Some task of `s` carries `id`.
pub open spec fn has_id(s: Seq<TaskView>, id: nat) -> bool {
    exists|i: int| 0 <= i < s.len() && (#[trigger] s[i]).id == id
}

/// `i` is the place of the first task of `s` that carries `id`.
pub open spec fn first_with_id(s: Seq<TaskView>, id: nat, i: int) -> bool {
    &&& 0 <= i < s.len()
    &&& s[i].id == id
    &&& forall|j: int| 0 <= j < i ==> (#[trigger] s[j]).id != id
}

/// The place of the first task of `s` that carries `id`, if there is one.
pub open spec fn position(s: Seq<TaskView>, id: nat) -> Option<int> {
    if exists|i: int| first_with_id(s, id, i) {
        Some(choose|i: int| first_with_id(s, id, i))
    } else {
        None
    }
}

/// `s` with a fresh task at its end: numbered one past the length, not done.
pub open spec fn appended(s: Seq<TaskView>, description: Seq<char>, created_at: Seq<char>) -> Seq<
    TaskView,
> {
    s.push(TaskView { id: s.len() + 1, description, created_at, done: false })
}

/// `s` with the first task that carries `id` marked as done; `s` itself where
/// no task carries it.
pub open spec fn completed(s: Seq<TaskView>, id: nat) -> Seq<TaskView> {
    Seq::new(
        s.len(),
        |i: int|
            if first_with_id(s, id, i) {
                TaskView { done: true, ..s[i] }
            } else {
                s[i]
            },
    )
}

/// `s` without the first task that carries `id`; `s` itself where no task
/// carries it. The ids are left as they were.
pub open spec fn without(s: Seq<TaskView>, id: nat) -> Seq<TaskView> {
    match position(s, id) {
        Some(p) => s.remove(p),
        None => s,
    }
}

/// `s` with every task numbered by its place, counted from one.
pub open spec fn renumbered(s: Seq<TaskView>) -> Seq<TaskView> {
    Seq::new(s.len(), |i: int| TaskView { id: (i + 1) as nat, ..s[i] })
}

/// `s` after the deletion of `id`: the first task that carries it is gone and
/// the rest is numbered anew.
pub open spec fn deleted(s: Seq<TaskView>, id: nat) -> Seq<TaskView> {
    renumbered(without(s, id))
}

/// At most one place is the first to carry an id.
pub proof fn lemma_first_with_id_unique(s: Seq<TaskView>, id: nat, i: int, j: int)
    requires
        first_with_id(s, id, i),
        first_with_id(s, id, j),
    ensures
        i == j,
{
    if i < j {
        assert(s[i].id != id);
    } else if j < i {
        assert(s[j].id != id);
    }
}

/// [`position`] finds the first place that carries the id, and finds none
/// exactly when no task carries it.
pub proof fn lemma_position(s: Seq<TaskView>, id: nat)
    ensures
        (match position(s, id) {
            Some(p) => first_with_id(s, id, p),
            None => !has_id(s, id),
        }),
        position(s, id) is Some <==> has_id(s, id),
        forall|i: int| first_with_id(s, id, i) ==> position(s, id) == Some(i),
{
    if has_id(s, id) {
        let k = choose|k: int| 0 <= k < s.len() && (#[trigger] s[k]).id == id;
        lemma_least_place(s, id, k);
    }
    assert forall|i: int| first_with_id(s, id, i) implies position(s, id) == Some(i) by {
        let p = choose|p: int| first_with_id(s, id, p);
        lemma_first_with_id_unique(s, id, i, p);
    }
    if position(s, id) is Some {
        let p = position(s, id)->0;
        assert(s[p].id == id);
    }
}

/// Below any place that carries the id there is a first one.
proof fn lemma_least_place(s: Seq<TaskView>, id: nat, k: int)
    requires
        0 <= k < s.len(),
        s[k].id == id,
    ensures
        exists|i: int| first_with_id(s, id, i),
    decreases k,
{
    if forall|j: int| 0 <= j < k ==> (#[trigger] s[j]).id != id {
        assert(first_with_id(s, id, k));
    } else {
        let j = choose|j: int| 0 <= j < k && (#[trigger] s[j]).id == id;
        lemma_least_place(s, id, j);
    }
}

/// In a list in good order the task under `id` stands at place `id - 1`, and
/// no task carries an id outside `1..=N`.
pub proof fn lemma_dense_position(s: Seq<TaskView>, id: nat)
    requires
        dense(s),
    ensures
        has_id(s, id) <==> 1 <= id <= s.len(),
        position(s, id) == (if 1 <= id <= s.len() {
            Some(id - 1)
        } else {
            None
        }),
{
    lemma_position(s, id);
    if 1 <= id <= s.len() {
        assert(s[id - 1].id == id);
        assert(first_with_id(s, id, id - 1));
    }
}

/// The tasks of `entries`, each a description with its creation time, added
/// to `s` one after the other.
pub open spec fn appended_all(s: Seq<TaskView>, entries: Seq<(Seq<char>, Seq<char>)>) -> Seq<
    TaskView,
>
    decreases entries.len(),
{
    if entries.len() == 0 {
        s
    } else {
        appended(appended_all(s, entries.drop_last()), entries.last().0, entries.last().1)
    }
}

/// Adding any number of tasks, with no deletion in between, leaves the old
/// tasks in front as they were and puts the new ones behind them in the order
/// in which they were added, each not done and under the id of its place. So
/// a list in good order stays in good order, and `N` additions to the empty
/// list give the ids `1..=N`.
pub proof fn lemma_adds_number_in_order(s: Seq<TaskView>, entries: Seq<(Seq<char>, Seq<char>)>)
    ensures
        appended_all(s, entries).len() == s.len() + entries.len(),
        forall|i: int| 0 <= i < s.len() ==> #[trigger] appended_all(s, entries)[i] == s[i],
        forall|k: int|
            0 <= k < entries.len() ==> #[trigger] appended_all(s, entries)[s.len() + k]
                == (TaskView {
                id: (s.len() + k + 1) as nat,
                description: entries[k].0,
                created_at: entries[k].1,
                done: false,
            }),
        dense(s) ==> dense(appended_all(s, entries)),
    decreases entries.len(),
{
    if entries.len() > 0 {
        let front = entries.drop_last();
        lemma_adds_number_in_order(s, front);
        let t = appended_all(s, entries);
        assert forall|k: int| 0 <= k < entries.len() implies #[trigger] t[s.len() + k]
            == (TaskView {
            id: (s.len() + k + 1) as nat,
            description: entries[k].0,
            created_at: entries[k].1,
            done: false,
        }) by {
            if k < front.len() {
                assert(t[s.len() + k] == appended_all(s, front)[s.len() + k]);
                assert(front[k] == entries[k]);
            }
        }
        if dense(s) {
            assert forall|i: int| 0 <= i < t.len() implies (#[trigger] t[i]).id == i + 1 by {
                if i < s.len() {
                    assert(t[i] == s[i]);
                } else {
                    assert(t[s.len() + (i - s.len())].id == i + 1);
                }
            }
        }
    }
}

/// Completing touches nothing but the flag of one task, and never clears a
/// flag: the list keeps its length, every task keeps its id, its description
/// and its creation time, and a task that was done stays done. A list in good
/// order stays in good order.
pub proof fn lemma_completed_sets_done_only(s: Seq<TaskView>, id: nat)
    ensures
        completed(s, id).len() == s.len(),
        forall|i: int|
            0 <= i < s.len() ==> (#[trigger] completed(s, id)[i]) == (TaskView {
                done: s[i].done || first_with_id(s, id, i),
                ..s[i]
            }),
        dense(s) ==> dense(completed(s, id)),
        !has_id(s, id) ==> completed(s, id) == s,
{
    if dense(s) {
        assert forall|i: int| 0 <= i < s.len() implies (#[trigger] completed(s, id)[i]).id == i
            + 1 by {
            assert(s[i].id == i + 1);
        }
    }
    if !has_id(s, id) {
        assert(completed(s, id) =~= s);
    }
}

/// Completing is idempotent: the id is found the second time as it was the
/// first, the task that carries it is done after either, and the second
/// completion changes nothing.
pub proof fn lemma_completed_twice(s: Seq<TaskView>, id: nat)
    ensures
        has_id(completed(s, id), id) == has_id(s, id),
        forall|i: int| first_with_id(s, id, i) ==> completed(s, id)[i].done,
        completed(completed(s, id), id) == completed(s, id),
{
    let c = completed(s, id);
    assert forall|i: int| first_with_id(c, id, i) == first_with_id(s, id, i) by {
        lemma_same_ids_same_first(s, c, id, i);
    }
    if has_id(s, id) {
        let k = choose|k: int| 0 <= k < s.len() && (#[trigger] s[k]).id == id;
        assert(c[k].id == id);
    }
    if has_id(c, id) {
        let k = choose|k: int| 0 <= k < c.len() && (#[trigger] c[k]).id == id;
        assert(s[k].id == id);
    }
    assert(completed(c, id) =~= c);
}

/// Where two lists carry the same ids at the same places, the same place is
/// the first to carry a given id.
proof fn lemma_same_ids_same_first(s: Seq<TaskView>, t: Seq<TaskView>, id: nat, i: int)
    requires
        s.len() == t.len(),
        forall|j: int| 0 <= j < s.len() ==> (#[trigger] s[j]).id == (#[trigger] t[j]).id,
    ensures
        first_with_id(s, id, i) == first_with_id(t, id, i),
{
    if first_with_id(s, id, i) {
        assert(s[i].id == t[i].id);
        assert forall|j: int| 0 <= j < i implies (#[trigger] t[j]).id != id by {
            assert(s[j].id == t[j].id);
        }
    }
    if first_with_id(t, id, i) {
        assert(s[i].id == t[i].id);
        assert forall|j: int| 0 <= j < i implies (#[trigger] s[j]).id != id by {
            assert(s[j].id == t[j].id);
        }
    }
}

/// After a deletion the list is in good order, whatever it was before. It is
/// shorter by one task where a task carried the id, and as long as before
/// where none did.
pub proof fn lemma_deleted_dense(s: Seq<TaskView>, id: nat)
    ensures
        dense(deleted(s, id)),
        deleted(s, id).len() == (if has_id(s, id) {
            s.len() - 1
        } else {
            s.len() as int
        }),
{
    lemma_position(s, id);
}

/// Deleting from a list in good order closes the gap: the tasks in front of
/// the deleted one stay as they are, and each task behind it moves up one
/// place and takes the id of that place, with nothing else about it changed.
/// An id that no task carries leaves the list as it is.
pub proof fn lemma_deleted_closes_gap(s: Seq<TaskView>, id: nat)
    requires
        dense(s),
    ensures
        1 <= id <= s.len() ==> deleted(s, id).len() == s.len() - 1,
        1 <= id <= s.len() ==> forall|i: int|
            0 <= i < id - 1 ==> #[trigger] deleted(s, id)[i] == s[i],
        1 <= id <= s.len() ==> forall|i: int|
            id - 1 <= i < s.len() - 1 ==> #[trigger] deleted(s, id)[i] == (TaskView {
                id: (i + 1) as nat,
                ..s[i + 1]
            }),
        !(1 <= id <= s.len()) ==> deleted(s, id) == s,
{
    lemma_dense_position(s, id);
    if 1 <= id <= s.len() {
        assert forall|i: int| 0 <= i < id - 1 implies #[trigger] deleted(s, id)[i] == s[i] by {
            assert(s[i].id == i + 1);
        }
    } else {
        assert forall|i: int| 0 <= i < s.len() implies #[trigger] deleted(s, id)[i] == s[i] by {
            assert(s[i].id == i + 1);
        }
        assert(deleted(s, id) =~= s);
    }
}

} // verus!
