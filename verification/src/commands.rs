//! The four commands and what each does to a task list.
//!
//! A command is applied to the list as it was read from storage. Its
//! [`Outcome`] holds the list afterwards, the lines to show, and whether the
//! list has changed hands and must be written back before the lines are shown.

use crate::clock::utc_now_rfc3339;
use crate::list::TaskList;
use crate::model::{
    appended, completed, deleted, dense, has_id, lemma_completed_sets_done_only,
    lemma_completed_twice, lemma_deleted_dense,
};
use crate::report::{
    added_message, added_text, deleted_message, deleted_text, listing, marked_message,
    marked_text, missing_message, missing_text, texts,
};
use crate::task::TaskView;
use vstd::prelude::*;

verus! {

/// A decoded command.
#[derive(Debug, PartialEq, Eq)]
pub enum TaskCmd {
    /// Add a new task.
    Add { description: String },
    /// List all tasks.
    List,
    /// Mark a task as done.
    Done { id: usize },
    /// Delete a task.
    Delete { id: usize },
}

/// What a command leaves behind.
#[derive(Debug, PartialEq, Eq)]
pub struct Outcome {
    /// The list after the command.
    pub tasks: TaskList,
    /// Whether the list is to be written back to storage.
    pub save: bool,
    /// The lines to show once the list is safe, in order.
    pub output: Vec<String>,
}

/// What an [`Outcome`] stands for in contracts.
pub struct OutcomeView {
    pub tasks: Seq<TaskView>,
    pub save: bool,
    pub output: Seq<Seq<char>>,
}

impl View for Outcome {
    type V = OutcomeView;

    open spec fn view(&self) -> OutcomeView {
        OutcomeView { tasks: self.tasks@, save: self.save, output: texts(self.output@) }
    }
}

/// Adding: the new task goes to the end under the next id, the list is
/// saved, and the id is confirmed.
pub open spec fn add_outcome(s: Seq<TaskView>, description: Seq<char>, created_at: Seq<char>)
    -> OutcomeView {
    OutcomeView {
        tasks: appended(s, description, created_at),
        save: true,
        output: seq![added_text(s.len() + 1)],
    }
}

/// Listing: nothing changes and nothing is saved; every task gets its line.
pub open spec fn list_outcome(s: Seq<TaskView>) -> OutcomeView {
    OutcomeView { tasks: s, save: false, output: listing(s) }
}

/// Completing: where a task carries the id, the first such task is done, the
/// list is saved and the id is confirmed; where none does, nothing changes,
/// nothing is saved, and the id is reported as not found.
pub open spec fn done_outcome(s: Seq<TaskView>, id: nat) -> OutcomeView {
    if has_id(s, id) {
        OutcomeView { tasks: completed(s, id), save: true, output: seq![marked_text(id)] }
    } else {
        OutcomeView { tasks: s, save: false, output: seq![missing_text(id)] }
    }
}

/// Deleting: the first task that carries the id goes, the rest is numbered
/// anew, and the list is saved and the id confirmed whether or not a task
/// carried it.
pub open spec fn delete_outcome(s: Seq<TaskView>, id: nat) -> OutcomeView {
    OutcomeView { tasks: deleted(s, id), save: true, output: seq![deleted_text(id)] }
}

/// What `cmd` does to the list `s` when the clock reads `now`. Only an
/// addition looks at the clock.
pub open spec fn outcome(cmd: TaskCmd, s: Seq<TaskView>, now: Seq<char>) -> OutcomeView {
    match cmd {
        TaskCmd::Add { description } => add_outcome(s, description@, now),
        TaskCmd::List => list_outcome(s),
        TaskCmd::Done { id } => done_outcome(s, id as nat),
        TaskCmd::Delete { id } => delete_outcome(s, id as nat),
    }
}

/// Every command leaves a list in good order in good order, and a deletion
/// puts any list in good order.
pub proof fn lemma_outcome_dense(cmd: TaskCmd, s: Seq<TaskView>, now: Seq<char>)
    ensures
        dense(s) || cmd is Delete ==> dense(outcome(cmd, s, now).tasks),
{
    match cmd {
        TaskCmd::Add { description } => {
            if dense(s) {
                let t = appended(s, description@, now);
                assert forall|i: int| 0 <= i < t.len() implies (#[trigger] t[i]).id == i + 1 by {
                    if i < s.len() {
                        assert(s[i].id == i + 1);
                    }
                }
            }
        },
        TaskCmd::List => {},
        TaskCmd::Done { id } => {
            lemma_completed_sets_done_only(s, id as nat);
        },
        TaskCmd::Delete { id } => {
            lemma_deleted_dense(s, id as nat);
        },
    }
}

/// The list is written back exactly when the command may have changed it:
/// after an addition, after a deletion, and after a completion that found its
/// task. A command that does not save leaves the list as it was.
pub proof fn lemma_saves_on_change(cmd: TaskCmd, s: Seq<TaskView>, now: Seq<char>)
    ensures
        outcome(cmd, s, now).save <==> cmd is Add || cmd is Delete || (cmd matches TaskCmd::Done {
            id,
        } && has_id(s, id as nat)),
        !outcome(cmd, s, now).save ==> outcome(cmd, s, now).tasks == s,
{
}

/// Listing is idempotent: it leaves the list as it was, so a second listing
/// shows the same lines as the first.
pub proof fn lemma_list_twice(s: Seq<TaskView>)
    ensures
        list_outcome(s).tasks == s,
        list_outcome(list_outcome(s).tasks) == list_outcome(s),
{
}

/// Completing is idempotent: marking a task done that is done already
/// succeeds with the same confirmation and leaves the list, with the task
/// done, as the first completion left it.
pub proof fn lemma_done_twice(s: Seq<TaskView>, id: nat)
    ensures
        done_outcome(done_outcome(s, id).tasks, id) == done_outcome(s, id),
{
    lemma_completed_twice(s, id);
}

/// Adds a task with the given description and creation time.
pub fn add_task(tasks: TaskList, description: String, created_at: String) -> (out: Outcome)
    ensures
        out@ == add_outcome(tasks@, description@, created_at@),
        dense(tasks@) ==> dense(out@.tasks),
{
    let mut list = tasks;
    let id: usize = list.add(description, created_at);
    let out = Outcome { tasks: list, save: true, output: vec![added_message(id)] };
    assert(out@.output =~= seq![added_text(id as nat)]);
    out
}

/// Lists the tasks.
pub fn list_tasks(tasks: TaskList) -> (out: Outcome)
    ensures
        out@ == list_outcome(tasks@),
{
    let output = tasks.lines();
    Outcome { tasks, save: false, output }
}

/// Marks the task with the given id as done.
pub fn complete_task(tasks: TaskList, id: usize) -> (out: Outcome)
    ensures
        out@ == done_outcome(tasks@, id as nat),
        dense(tasks@) ==> dense(out@.tasks),
{
    let mut list = tasks;
    if list.mark_done(id) {
        let out = Outcome { tasks: list, save: true, output: vec![marked_message(id)] };
        assert(out@.output =~= seq![marked_text(id as nat)]);
        out
    } else {
        let out = Outcome { tasks: list, save: false, output: vec![missing_message(id)] };
        assert(out@.output =~= seq![missing_text(id as nat)]);
        out
    }
}

/// Deletes the task with the given id.
pub fn delete_task(tasks: TaskList, id: usize) -> (out: Outcome)
    ensures
        out@ == delete_outcome(tasks@, id as nat),
        dense(out@.tasks),
{
    let mut list = tasks;
    list.delete(id);
    let out = Outcome { tasks: list, save: true, output: vec![deleted_message(id)] };
    assert(out@.output =~= seq![deleted_text(id as nat)]);
    out
}

/// Applies `cmd` to `tasks`. A task that is added is stamped with the time
/// of the call; everything else of the outcome is fixed by the arguments.
pub fn run(cmd: TaskCmd, tasks: TaskList) -> (out: Outcome)
    ensures
        exists|now: Seq<char>| out@ == outcome(cmd, tasks@, now),
        dense(tasks@) || cmd is Delete ==> dense(out@.tasks),
{
    let ghost before = tasks@;
    let ghost given = cmd;
    let out = match cmd {
        TaskCmd::Add { description } => {
            let created_at = utc_now_rfc3339();
            proof {
                assert(outcome(given, before, created_at@) == add_outcome(
                    before,
                    description@,
                    created_at@,
                ));
            }
            add_task(tasks, description, created_at)
        },
        TaskCmd::List => list_tasks(tasks),
        TaskCmd::Done { id } => complete_task(tasks, id),
        TaskCmd::Delete { id } => delete_task(tasks, id),
    };
    assert(given is Add || out@ == outcome(given, before, Seq::empty()));
    out
}

} // verus!
