//! The text that the commands report: one confirmation per change, one line
//! per task for a listing.

use crate::decimal::{decimal, to_decimal};
use crate::list::TaskList;
use crate::task::{Task, TaskView};
use vstd::prelude::*;
use vstd::string::StringExecFns;

verus! {

/// `Added task {id}`
pub open spec fn added_text(id: nat) -> Seq<char> {
    "Added task "@ + decimal(id)
}

/// `Marked task {id} done`
pub open spec fn marked_text(id: nat) -> Seq<char> {
    "Marked task "@ + decimal(id) + " done"@
}

/// `Task {id} not found`
pub open spec fn missing_text(id: nat) -> Seq<char> {
    "Task "@ + decimal(id) + " not found"@
}

/// `Deleted task {id}`
pub open spec fn deleted_text(id: nat) -> Seq<char> {
    "Deleted task "@ + decimal(id)
}

/// The mark between the square brackets of a task's line.
pub open spec fn check_mark(done: bool) -> Seq<char> {
    if done {
        "x"@
    } else {
        " "@
    }
}

/// `{id}. [{x or space}] {description} (created {created_at})`
pub open spec fn line_text(t: TaskView) -> Seq<char> {
    decimal(t.id) + ". ["@ + check_mark(t.done) + "] "@ + t.description + " (created "@
        + t.created_at + ")"@
}

/// One line per task, in the order of the list.
pub open spec fn listing(s: Seq<TaskView>) -> Seq<Seq<char>> {
    Seq::new(s.len(), |i: int| line_text(s[i]))
}

/// What a sequence of strings says, string by string.
pub open spec fn texts(lines: Seq<String>) -> Seq<Seq<char>> {
    Seq::new(lines.len(), |i: int| lines[i]@)
}

/// The confirmation of an addition.
pub fn added_message(id: usize) -> (text: String)
    ensures
        text@ == added_text(id as nat),
{
    let mut text = String::from_str("Added task ");
    text.append(to_decimal(id).as_str());
    text
}

/// The confirmation of a completion.
pub fn marked_message(id: usize) -> (text: String)
    ensures
        text@ == marked_text(id as nat),
{
    let mut text = String::from_str("Marked task ");
    text.append(to_decimal(id).as_str());
    text.append(" done");
    text
}

/// The notice that no task carries the id.
pub fn missing_message(id: usize) -> (text: String)
    ensures
        text@ == missing_text(id as nat),
{
    let mut text = String::from_str("Task ");
    text.append(to_decimal(id).as_str());
    text.append(" not found");
    text
}

/// The confirmation of a deletion.
pub fn deleted_message(id: usize) -> (text: String)
    ensures
        text@ == deleted_text(id as nat),
{
    let mut text = String::from_str("Deleted task ");
    text.append(to_decimal(id).as_str());
    text
}

impl Task {
    /// The task's line in a listing.
    pub fn line(&self) -> (text: String)
        ensures
            text@ == line_text(self@),
    {
        let mut text = to_decimal(self.id);
        text.append(". [");
        text.append(if self.done { "x" } else { " " });
        text.append("] ");
        text.append(self.description.as_str());
        text.append(" (created ");
        text.append(self.created_at.as_str());
        text.append(")");
        text
    }
}

impl TaskList {
    /// The listing: the line of each task, front to back. Nothing for the
    /// empty list.
    pub fn lines(&self) -> (lines: Vec<String>)
        ensures
            texts(lines@) == listing(self@),
    {
        let mut lines: Vec<String> = Vec::new();
        let mut i: usize = 0;
        while i < self.tasks.len()
            invariant
                i <= self.tasks.len(),
                lines@.len() == i,
                forall|j: int| 0 <= j < i ==> (#[trigger] lines@[j])@ == line_text(self@[j]),
            decreases self.tasks.len() - i,
        {
            lines.push(self.tasks[i].line());
            i += 1;
        }
        assert(texts(lines@) =~= listing(self@));
        lines
    }
}

} // verus!
