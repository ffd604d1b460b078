use vstd::prelude::*;
use vstd::string::*;

use crate::store::{
    Task, TaskList, TaskView, StoreView, has_id, added, updated, completed, deleted, task_views,
};

verus! {

/// The character of a decimal digit.
pub open spec fn digit(d: nat) -> char {
    if d == 0 {
        '0'
    } else if d == 1 {
        '1'
    } else if d == 2 {
        '2'
    } else if d == 3 {
        '3'
    } else if d == 4 {
        '4'
    } else if d == 5 {
        '5'
    } else if d == 6 {
        '6'
    } else if d == 7 {
        '7'
    } else if d == 8 {
        '8'
    } else {
        '9'
    }
}

/// The decimal digits of `n`, most significant first, without leading zeros.
pub open spec fn decimal(n: nat) -> Seq<char>
    decreases n,
{
    if n < 10 {
        seq![digit(n)]
    } else {
        decimal(n / 10).push(digit(n % 10))
    }
}

/// The line that lists one task: its status box, identifier and description.
pub open spec fn task_line(t: TaskView) -> Seq<char> {
    (if t.completed {
        "[x] "@
    } else {
        "[ ] "@
    }) + decimal(t.id as nat) + ": "@ + t.description
}

/// What `list` prints for `tasks`.
pub open spec fn list_lines(tasks: Seq<TaskView>) -> Seq<Seq<char>> {
    if tasks.len() == 0 {
        seq!["No tasks found."@]
    } else {
        tasks.map_values(|t: TaskView| task_line(t))
    }
}

/// The line that reports adding the task `id`.
pub open spec fn added_line(id: u32) -> Seq<char> {
    "Task added: "@ + decimal(id as nat)
}

/// A line about the task `id`: "Task", the identifier, then `tail`.
pub open spec fn task_status_line(id: u32, tail: Seq<char>) -> Seq<char> {
    "Task "@ + decimal(id as nat) + tail
}

/// A line about the task `id` in `s`: `found` where it exists, else that it
/// was not found.
pub open spec fn found_or_not(s: StoreView, id: u32, found: Seq<char>) -> Seq<char> {
    if has_id(s.tasks, id) {
        task_status_line(id, found)
    } else {
        task_status_line(id, " not found."@)
    }
}

/// One command of a single invocation.
#[derive(Debug, PartialEq, Eq)]
pub enum Command {
    Add { description: String },
    List,
    Update { id: u32, description: String },
    Delete { id: u32 },
    Complete { id: u32 },
}

/// The mathematical value of a command.
pub enum CommandView {
    Add { description: Seq<char> },
    List,
    Update { id: u32, description: Seq<char> },
    Delete { id: u32 },
    Complete { id: u32 },
}

impl View for Command {
    type V = CommandView;

    open spec fn view(&self) -> CommandView {
        match self {
            Command::Add { description } => CommandView::Add { description: description@ },
            Command::List => CommandView::List,
            Command::Update { id, description } => CommandView::Update {
                id: *id,
                description: description@,
            },
            Command::Delete { id } => CommandView::Delete { id: *id },
            Command::Complete { id } => CommandView::Complete { id: *id },
        }
    }
}

/// The store after `c` has run on `s`.
pub open spec fn next_store(s: StoreView, c: CommandView) -> StoreView {
    match c {
        CommandView::Add { description } => added(s, description),
        CommandView::List => s,
        CommandView::Update { id, description } => updated(s, id, description),
        CommandView::Delete { id } => deleted(s, id),
        CommandView::Complete { id } => completed(s, id),
    }
}

/// Whether `c` changes `s`, so that the store must be persisted before the
/// outcome is printed.
pub open spec fn needs_save(s: StoreView, c: CommandView) -> bool {
    match c {
        CommandView::Add { .. } => true,
        CommandView::List => false,
        CommandView::Update { id, .. } => has_id(s.tasks, id),
        CommandView::Delete { id } => has_id(s.tasks, id),
        CommandView::Complete { id } => has_id(s.tasks, id),
    }
}

/// The lines printed once `c` has run on `s`.
pub open spec fn output(s: StoreView, c: CommandView) -> Seq<Seq<char>> {
    match c {
        CommandView::Add { .. } => seq![added_line(s.next_id)],
        CommandView::List => list_lines(s.tasks),
        CommandView::Update { id, .. } => seq![found_or_not(s, id, " updated."@)],
        CommandView::Delete { id } => seq![found_or_not(s, id, " deleted."@)],
        CommandView::Complete { id } => seq![found_or_not(s, id, " marked as complete."@)],
    }
}

/// `c` is an addition, and the identifier counter of `s` has no successor.
pub open spec fn ids_exhausted(s: StoreView, c: CommandView) -> bool {
    c is Add && s.next_id == u32::MAX
}

/// What a command produced: the lines to print, and whether the store
/// changed and must be persisted before they are printed.
#[derive(Debug, PartialEq, Eq)]
pub struct Report {
    pub lines: Vec<String>,
    pub save: bool,
}

/// The views of a sequence of lines.
pub open spec fn line_views(lines: Seq<String>) -> Seq<Seq<char>> {
    lines.map_values(|l: String| l@)
}

/// Why a command could not run.
#[derive(Debug, Clone, Copy, PartialEq, Eq)]
pub enum CommandError {
    /// Every identifier has been issued; none is left for a new task.
    IdsExhausted,
}

/// The one-character string of a decimal digit.
fn digit_str(d: u32) -> (r: &'static str)
    requires
        d < 10,
    ensures
        r@ == seq![digit(d as nat)],
{
    proof {
        reveal_strlit("0");
        reveal_strlit("1");
        reveal_strlit("2");
        reveal_strlit("3");
        reveal_strlit("4");
        reveal_strlit("5");
        reveal_strlit("6");
        reveal_strlit("7");
        reveal_strlit("8");
        reveal_strlit("9");
    }
    if d == 0 {
        "0"
    } else if d == 1 {
        "1"
    } else if d == 2 {
        "2"
    } else if d == 3 {
        "3"
    } else if d == 4 {
        "4"
    } else if d == 5 {
        "5"
    } else if d == 6 {
        "6"
    } else if d == 7 {
        "7"
    } else if d == 8 {
        "8"
    } else {
        "9"
    }
}

/// The decimal representation of `n`.
pub fn decimal_string(n: u32) -> (r: String)
    ensures
        r@ == decimal(n as nat),
    decreases n,
{
    if n < 10 {
        String::from_str(digit_str(n))
    } else {
        let mut s = decimal_string(n / 10);
        s.append(digit_str(n % 10));
        s
    }
}

/// The line that lists `t`.
pub fn render_task(t: &Task) -> (r: String)
    ensures
        r@ == task_line(t@),
{
    let mut s = if t.completed {
        String::from_str("[x] ")
    } else {
        String::from_str("[ ] ")
    };
    s.append(decimal_string(t.id).as_str());
    s.append(": ");
    s.append(t.description.as_str());
    s
}

/// The lines that `list` prints for `list`'s tasks.
pub fn render_list(list: &TaskList) -> (r: Vec<String>)
    ensures
        line_views(r@) == list_lines(list@.tasks),
{
    let tasks = list.tasks();
    let mut lines: Vec<String> = Vec::new();
    if tasks.len() == 0 {
        lines.push(String::from_str("No tasks found."));
        assert(line_views(lines@) =~= list_lines(list@.tasks));
        return lines;
    }
    let mut i: usize = 0;
    while i < tasks.len()
        invariant
            i <= tasks.len(),
            task_views(tasks@) == list@.tasks,
            line_views(lines@) =~= list@.tasks.take(i as int).map_values(
                |t: TaskView| task_line(t),
            ),
        decreases tasks.len() - i,
    {
        assert(list@.tasks[i as int] == tasks@[i as int]@);
        let line = render_task(&tasks[i]);
        let ghost prev = lines@;
        lines.push(line);
        assert(line_views(lines@) =~= line_views(prev).push(task_line(list@.tasks[i as int])));
        assert(list@.tasks.take(i + 1) =~= list@.tasks.take(i as int).push(list@.tasks[i as int]));
        i = i + 1;
    }
    assert(list@.tasks.take(i as int) =~= list@.tasks);
    lines
}

/// The line "Task {id}" followed by `tail`.
fn status_line(id: u32, tail: &str) -> (r: String)
    ensures
        r@ == task_status_line(id, tail@),
{
    let mut s = String::from_str("Task ");
    s.append(decimal_string(id).as_str());
    s.append(tail);
    s
}

/// Runs `command` on `list`: changes the store as the command says, and
/// reports the lines to print and whether the store must be persisted.
pub fn execute(list: &mut TaskList, command: Command) -> (r: Result<Report, CommandError>)
    requires
        old(list).wf(),
    ensures
        final(list).wf(),
        r is Err <==> ids_exhausted(old(list)@, command@),
        r is Err ==> final(list)@ == old(list)@,
        r matches Ok(rep) ==> {
            &&& final(list)@ == next_store(old(list)@, command@)
            &&& line_views(rep.lines@) == output(old(list)@, command@)
            &&& rep.save == needs_save(old(list)@, command@)
        },
{
    let mut lines: Vec<String> = Vec::new();
    match command {
        Command::Add { description } => {
            if list.next_id() == u32::MAX {
                return Err(CommandError::IdsExhausted);
            }
            let id = list.add(description);
            let mut s = String::from_str("Task added: ");
            s.append(decimal_string(id).as_str());
            lines.push(s);
            assert(line_views(lines@) =~= output(old(list)@, command@));
            Ok(Report { lines, save: true })
        },
        Command::List => {
            let lines = render_list(list);
            Ok(Report { lines, save: false })
        },
        Command::Update { id, description } => {
            let found = list.update(id, description);
            if found {
                lines.push(status_line(id, " updated."));
            } else {
                lines.push(status_line(id, " not found."));
            }
            assert(line_views(lines@) =~= output(old(list)@, command@));
            Ok(Report { lines, save: found })
        },
        Command::Delete { id } => {
            let found = list.delete(id);
            if found {
                lines.push(status_line(id, " deleted."));
            } else {
                lines.push(status_line(id, " not found."));
            }
            assert(line_views(lines@) =~= output(old(list)@, command@));
            Ok(Report { lines, save: found })
        },
        Command::Complete { id } => {
            let found = list.complete(id);
            if found {
                lines.push(status_line(id, " marked as complete."));
            } else {
                lines.push(status_line(id, " not found."));
            }
            assert(line_views(lines@) =~= output(old(list)@, command@));
            Ok(Report { lines, save: found })
        },
    }
}

} // verus!
