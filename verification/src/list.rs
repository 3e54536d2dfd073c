//! The task list in memory, with each operation held to the model.

use crate::model::{
    appended, completed, deleted, dense, first_with_id, has_id, lemma_completed_sets_done_only,
    lemma_first_with_id_unique, lemma_position, position, renumbered,
};
use crate::task::{views, Task, TaskView};
use vstd::prelude::*;

verus! {

/// An ordered list of tasks.
#[derive(Debug, PartialEq, Eq)]
pub struct TaskList {
    /// The tasks, front to back.
    pub tasks: Vec<Task>,
}

impl View for TaskList {
    type V = Seq<TaskView>;

    open spec fn view(&self) -> Seq<TaskView> {
        views(self.tasks@)
    }
}

impl TaskList {
    /// The empty list, which is in good order.
    pub fn new() -> (list: TaskList)
        ensures
            list@ == Seq::<TaskView>::empty(),
            dense(list@),
    {
        let list = TaskList { tasks: Vec::new() };
        assert(list@ =~= Seq::<TaskView>::empty());
        list
    }

    /// The list that storage holds: the tasks that were read, in their order,
    /// or the empty list where what is stored could not be read as a task
    /// list.
    pub fn from_stored(parsed: Option<Vec<Task>>) -> (list: TaskList)
        ensures
            list@ == (match parsed {
                Some(tasks) => views(tasks@),
                None => Seq::<TaskView>::empty(),
            }),
    {
        match parsed {
            Some(tasks) => TaskList { tasks },
            None => TaskList::new(),
        }
    }

    /// The number of tasks.
    pub fn len(&self) -> (n: usize)
        ensures
            n == self@.len(),
    {
        self.tasks.len()
    }

    /// The place of the first task that carries `id`.
    pub fn find(&self, id: usize) -> (found: Option<usize>)
        ensures
            position(self@, id as nat) == (match found {
                Some(i) => Some(i as int),
                None => None,
            }),
    {
        let mut i: usize = 0;
        while i < self.tasks.len()
            invariant
                i <= self.tasks.len(),
                forall|j: int| 0 <= j < i ==> (#[trigger] self@[j]).id != id,
            decreases self.tasks.len() - i,
        {
            if self.tasks[i].id == id {
                proof {
                    assert(first_with_id(self@, id as nat, i as int));
                    lemma_position(self@, id as nat);
                }
                return Some(i);
            }
            i += 1;
        }
        proof {
            lemma_position(self@, id as nat);
        }
        None
    }

    /// Appends a task that is not done and returns its id, one past the
    /// number of tasks there were.
    pub fn add(&mut self, description: String, created_at: String) -> (id: usize)
        ensures
            id == old(self)@.len() + 1,
            final(self)@ == appended(old(self)@, description@, created_at@),
            dense(old(self)@) ==> dense(final(self)@),
    {
        let place: usize = self.tasks.len();
        self.tasks.push(Task { id: 0, description, created_at, done: false });
        // The list has grown, so its length, which is the new id, is in range.
        let id: usize = self.tasks.len();
        self.tasks[place].id = id;
        assert(self@ =~= appended(old(self)@, description@, created_at@));
        assert(dense(old(self)@) ==> dense(self@)) by {
            if dense(old(self)@) {
                assert forall|i: int| 0 <= i < self@.len() implies (#[trigger] self@[i]).id == i
                    + 1 by {
                    if i < old(self)@.len() {
                        assert(old(self)@[i].id == i + 1);
                    }
                }
            }
        }
        id
    }

    /// Marks the first task that carries `id` as done and says whether there
    /// was one. A task that was done already stays done.
    pub fn mark_done(&mut self, id: usize) -> (found: bool)
        ensures
            found == has_id(old(self)@, id as nat),
            final(self)@ == completed(old(self)@, id as nat),
            !found ==> final(self)@ == old(self)@,
            dense(old(self)@) ==> dense(final(self)@),
    {
        proof {
            lemma_position(self@, id as nat);
            lemma_completed_sets_done_only(self@, id as nat);
        }
        match self.find(id) {
            Some(i) => {
                self.tasks[i].done = true;
                assert(self@ =~= completed(old(self)@, id as nat)) by {
                    assert forall|j: int| 0 <= j < self@.len() implies self@[j] == completed(
                        old(self)@,
                        id as nat,
                    )[j] by {
                        if first_with_id(old(self)@, id as nat, j) {
                            lemma_first_with_id_unique(old(self)@, id as nat, j, i as int);
                        }
                    }
                }
                true
            },
            None => {
                assert(self@ =~= completed(old(self)@, id as nat));
                false
            },
        }
    }

    /// Numbers the tasks by their place, counted from one.
    pub fn renumber(&mut self)
        ensures
            final(self)@ == renumbered(old(self)@),
            dense(final(self)@),
    {
        let mut i: usize = 0;
        while i < self.tasks.len()
            invariant
                i <= self.tasks.len(),
                self@.len() == old(self)@.len(),
                forall|j: int| 0 <= j < i ==> (#[trigger] self@[j]) == renumbered(old(self)@)[j],
                forall|j: int| i <= j < self@.len() ==> (#[trigger] self@[j]) == old(self)@[j],
            decreases self.tasks.len() - i,
        {
            let ghost before = self@;
            assert(before[i as int] == old(self)@[i as int]);
            self.tasks[i].id = i + 1;
            assert forall|j: int| 0 <= j < self@.len() && j != i implies #[trigger] self@[j]
                == before[j] by {}
            i += 1;
        }
        assert(self@ =~= renumbered(old(self)@));
    }

    /// Removes the first task that carries `id`, if there is one, and numbers
    /// the remaining tasks anew. The list is in good order afterwards,
    /// whatever it was before.
    pub fn delete(&mut self, id: usize)
        ensures
            final(self)@ == deleted(old(self)@, id as nat),
            dense(final(self)@),
    {
        match self.find(id) {
            Some(i) => {
                self.tasks.remove(i);
                assert(self@ =~= old(self)@.remove(i as int));
            },
            None => {},
        }
        self.renumber();
    }
}

} // verus!
