use vstd::prelude::*;

verus! {

/// One unit of work: an identifier assigned by the store, a free-text
/// description and a completion flag.
#[derive(Debug, PartialEq, Eq)]
pub struct Task {
    pub id: u32,
    pub description: String,
    pub completed: bool,
}

/// The mathematical value of a task.
pub struct TaskView {
    pub id: u32,
    pub description: Seq<char>,
    pub completed: bool,
}

impl View for Task {
    type V = TaskView;

    open spec fn view(&self) -> TaskView {
        TaskView { id: self.id, description: self.description@, completed: self.completed }
    }
}

impl Task {
    /// A task that is not yet completed.
    pub fn new(id: u32, description: String) -> (t: Task)
        ensures
            t@ == (TaskView { id, description: description@, completed: false }),
    {
        Task { id, description, completed: false }
    }
}

/// The mathematical value of a store: its tasks in display order and the
/// identifier that the next added task receives.
pub struct StoreView {
    pub tasks: Seq<TaskView>,
    pub next_id: u32,
}

/// Index `i` of `tasks` holds the task with identifier `id`.
pub open spec fn id_at(tasks: Seq<TaskView>, id: u32, i: int) -> bool {
    0 <= i < tasks.len() && tasks[i].id == id
}

/// Some task of `tasks` has identifier `id`.
pub open spec fn has_id(tasks: Seq<TaskView>, id: u32) -> bool {
    exists|i: int| id_at(tasks, id, i)
}

/// Two tasks of `tasks` have identifier `id`.
pub open spec fn shared_id(tasks: Seq<TaskView>, id: u32) -> bool {
    exists|i: int, j: int| i != j && id_at(tasks, id, i) && id_at(tasks, id, j)
}

/// Identifiers are pairwise distinct and all below the counter.
pub open spec fn store_wf(s: StoreView) -> bool {
    &&& (forall|i: int, j: int|
        0 <= i < s.tasks.len() && 0 <= j < s.tasks.len() && i != j ==> s.tasks[i].id
            != s.tasks[j].id)
    &&& (forall|i: int| 0 <= i < s.tasks.len() ==> s.tasks[i].id < s.next_id)
}

/// The empty store: no tasks, and the first identifier is 1.
pub open spec fn empty_store() -> StoreView {
    StoreView { tasks: Seq::empty(), next_id: 1 }
}

/// `s` after adding a task described by `d`.
pub open spec fn added(s: StoreView, d: Seq<char>) -> StoreView {
    StoreView {
        tasks: s.tasks.push(TaskView { id: s.next_id, description: d, completed: false }),
        next_id: (s.next_id + 1) as u32,
    }
}

/// `s` with the description of the task `id` replaced by `d`.
pub open spec fn updated(s: StoreView, id: u32, d: Seq<char>) -> StoreView {
    StoreView {
        tasks: s.tasks.map_values(
            |t: TaskView|
                if t.id == id {
                    TaskView { id: t.id, description: d, completed: t.completed }
                } else {
                    t
                },
        ),
        next_id: s.next_id,
    }
}

/// `s` with the task `id` marked as completed.
pub open spec fn completed(s: StoreView, id: u32) -> StoreView {
    StoreView {
        tasks: s.tasks.map_values(
            |t: TaskView|
                if t.id == id {
                    TaskView { id: t.id, description: t.description, completed: true }
                } else {
                    t
                },
        ),
        next_id: s.next_id,
    }
}

/// Holds of the tasks whose identifier is not `id`.
pub open spec fn other_than(id: u32) -> spec_fn(TaskView) -> bool {
    |t: TaskView| t.id != id
}

/// `s` without the task `id`.
pub open spec fn deleted(s: StoreView, id: u32) -> StoreView {
    StoreView { tasks: s.tasks.filter(other_than(id)), next_id: s.next_id }
}

/// The view of a sequence of tasks.
pub open spec fn task_views(tasks: Seq<Task>) -> Seq<TaskView> {
    tasks.map_values(|t: Task| t@)
}

/// A filter that keeps every element is the identity.
pub(crate) proof fn lemma_filter_keeps_all<A>(s: Seq<A>, pred: spec_fn(A) -> bool)
    requires
        forall|k: int| 0 <= k < s.len() ==> pred(s[k]),
    ensures
        s.filter(pred) == s,
    decreases s.len(),
{
    reveal(Seq::filter);
    if s.len() > 0 {
        lemma_filter_keeps_all(s.drop_last(), pred);
        assert(s.drop_last().push(s.last()) =~= s);
    }
}

/// A filter that drops exactly the element at `i` removes it.
pub(crate) proof fn lemma_filter_drops_one<A>(s: Seq<A>, pred: spec_fn(A) -> bool, i: int)
    requires
        0 <= i < s.len(),
        !pred(s[i]),
        forall|k: int| 0 <= k < s.len() && k != i ==> pred(s[k]),
    ensures
        s.filter(pred) == s.remove(i),
    decreases s.len(),
{
    reveal(Seq::filter);
    if i == s.len() - 1 {
        lemma_filter_keeps_all(s.drop_last(), pred);
        assert(s.remove(i) =~= s.drop_last());
    } else {
        lemma_filter_drops_one(s.drop_last(), pred, i);
        assert(s.drop_last().remove(i).push(s.last()) =~= s.remove(i));
    }
}

/// The tasks of one invocation and the identifier counter.
pub struct TaskList {
    tasks: Vec<Task>,
    next_id: u32,
}

impl View for TaskList {
    type V = StoreView;

    closed spec fn view(&self) -> StoreView {
        StoreView { tasks: task_views(self.tasks@), next_id: self.next_id }
    }
}

/// Why persisted contents cannot be taken as a store.
#[derive(Debug, Clone, Copy, PartialEq, Eq)]
pub enum StoreError {
    /// Two tasks carry the same identifier.
    DuplicateId { id: u32 },
    /// A task's identifier is not below the counter.
    IdNotBelowCounter { id: u32, next_id: u32 },
}

impl TaskList {
    /// Identifiers are distinct and below the counter.
    pub open spec fn wf(&self) -> bool {
        store_wf(self@)
    }

    /// The store made of persisted contents: refused where an identifier
    /// is not below the counter, or, failing that, where two tasks share one.
    pub fn from_parts(tasks: Vec<Task>, next_id: u32) -> (r: Result<TaskList, StoreError>)
        ensures
            store_wf(StoreView { tasks: task_views(tasks@), next_id }) <==> r is Ok,
            r matches Ok(l) ==> l@ == (StoreView { tasks: task_views(tasks@), next_id }),
            r matches Err(StoreError::IdNotBelowCounter { id, next_id: n }) ==> {
                &&& n == next_id
                &&& next_id <= id
                &&& (exists|i: int| id_at(task_views(tasks@), id, i))
            },
            r matches Err(StoreError::DuplicateId { id }) ==> (forall|i: int|
                0 <= i < tasks@.len() ==> task_views(tasks@)[i].id < next_id),
            r matches Err(StoreError::DuplicateId { id }) ==> shared_id(task_views(tasks@), id),
    {
        let ghost s = StoreView { tasks: task_views(tasks@), next_id };
        assert(s.tasks.len() == tasks@.len());
        let mut i: usize = 0;
        while i < tasks.len()
            invariant
                i <= tasks.len(),
                s == (StoreView { tasks: task_views(tasks@), next_id }),
                s.tasks.len() == tasks@.len(),
                forall|k: int| 0 <= k < i ==> s.tasks[k].id < next_id,
            decreases tasks.len() - i,
        {
            assert(s.tasks[i as int] == tasks@[i as int]@);
            if tasks[i].id >= next_id {
                assert(id_at(s.tasks, tasks[i as int].id, i as int));
                return Err(StoreError::IdNotBelowCounter { id: tasks[i].id, next_id });
            }
            i = i + 1;
        }
        let mut i: usize = 0;
        while i < tasks.len()
            invariant
                i <= tasks.len(),
                s == (StoreView { tasks: task_views(tasks@), next_id }),
                s.tasks.len() == tasks@.len(),
                forall|k: int| 0 <= k < tasks.len() ==> s.tasks[k].id < next_id,
                forall|a: int, b: int|
                    0 <= a < i && 0 <= b < tasks.len() && a != b ==> s.tasks[a].id
                        != s.tasks[b].id,
            decreases tasks.len() - i,
        {
            let mut j: usize = 0;
            while j < tasks.len()
                invariant
                    i < tasks.len(),
                    j <= tasks.len(),
                    s == (StoreView { tasks: task_views(tasks@), next_id }),
                    s.tasks.len() == tasks@.len(),
                    forall|k: int| 0 <= k < tasks.len() ==> s.tasks[k].id < next_id,
                    forall|a: int, b: int|
                        0 <= a < i && 0 <= b < tasks.len() && a != b ==> s.tasks[a].id
                            != s.tasks[b].id,
                    forall|b: int| 0 <= b < j && b != i ==> s.tasks[i as int].id != s.tasks[b].id,
                decreases tasks.len() - j,
            {
                assert(s.tasks[i as int] == tasks@[i as int]@);
                assert(s.tasks[j as int] == tasks@[j as int]@);
                if j != i && tasks[i].id == tasks[j].id {
                    let ghost dup = tasks@[i as int].id;
                    assert(id_at(s.tasks, dup, i as int) && id_at(s.tasks, dup, j as int));
                    assert(shared_id(s.tasks, dup));
                    return Err(StoreError::DuplicateId { id: tasks[i].id });
                }
                j = j + 1;
            }
            i = i + 1;
        }
        let r = TaskList { tasks, next_id };
        assert(r@ == s);
        Ok(r)
    }

    /// The store used when nothing was persisted yet.
    pub fn new() -> (r: TaskList)
        ensures
            r@ == empty_store(),
            r.wf(),
    {
        let r = TaskList { tasks: Vec::new(), next_id: 1 };
        assert(r@.tasks =~= Seq::<TaskView>::empty());
        r
    }

    /// The tasks in display order.
    pub fn tasks(&self) -> (r: &Vec<Task>)
        ensures
            task_views(r@) == self@.tasks,
    {
        &self.tasks
    }

    /// The identifier that the next added task receives.
    pub fn next_id(&self) -> (r: u32)
        ensures
            r == self@.next_id,
    {
        self.next_id
    }

    /// Whether the store holds no task.
    pub fn is_empty(&self) -> (r: bool)
        ensures
            r == (self@.tasks.len() == 0),
    {
        self.tasks.len() == 0
    }

    /// The position of the task `id`, if any.
    pub fn position(&self, id: u32) -> (r: Option<usize>)
        ensures
            match r {
                Some(i) => id_at(self@.tasks, id, i as int),
                None => !has_id(self@.tasks, id),
            },
    {
        let mut i: usize = 0;
        while i < self.tasks.len()
            invariant
                i <= self.tasks.len(),
                forall|k: int| 0 <= k < i ==> self@.tasks[k].id != id,
            decreases self.tasks.len() - i,
        {
            if self.tasks[i].id == id {
                return Some(i);
            }
            i = i + 1;
        }
        None
    }

    /// The task `id`, if any.
    pub fn find(&self, id: u32) -> (r: Option<&Task>)
        ensures
            match r {
                Some(t) => t.id == id && self@.tasks.contains(t@),
                None => !has_id(self@.tasks, id),
            },
    {
        match self.position(id) {
            Some(i) => {
                assert(self@.tasks[i as int] == self.tasks@[i as int]@);
                Some(&self.tasks[i])
            },
            None => None,
        }
    }

    /// Appends a task described by `description` under the next identifier,
    /// advances the counter, and returns the identifier given.
    pub fn add(&mut self, description: String) -> (r: u32)
        requires
            old(self).wf(),
            old(self)@.next_id < u32::MAX,
        ensures
            r == old(self)@.next_id,
            final(self)@ == added(old(self)@, description@),
            final(self).wf(),
    {
        let id = self.next_id;
        let ghost d = description@;
        self.tasks.push(Task::new(id, description));
        self.next_id = id + 1;
        assert(self@.tasks =~= old(self)@.tasks.push(
            TaskView { id, description: d, completed: false },
        ));
        id
    }

    /// Replaces the description of the task `id`; false where there is none.
    pub fn update(&mut self, id: u32, description: String) -> (r: bool)
        requires
            old(self).wf(),
        ensures
            r == has_id(old(self)@.tasks, id),
            final(self)@ == updated(old(self)@, id, description@),
            final(self).wf(),
    {
        match self.position(id) {
            Some(i) => {
                let ghost d = description@;
                self.tasks[i].description = description;
                assert(self@.tasks =~= updated(old(self)@, id, d).tasks);
                true
            },
            None => {
                assert forall|k: int| 0 <= k < self@.tasks.len() implies self@.tasks[k].id
                    != id by {
                    assert(!id_at(self@.tasks, id, k));
                }
                assert(self@.tasks =~= updated(old(self)@, id, description@).tasks);
                false
            },
        }
    }

    /// Removes the task `id`, keeping the order of the others; false where
    /// there is none.
    pub fn delete(&mut self, id: u32) -> (r: bool)
        requires
            old(self).wf(),
        ensures
            r == has_id(old(self)@.tasks, id),
            final(self)@ == deleted(old(self)@, id),
            final(self).wf(),
    {
        match self.position(id) {
            Some(i) => {
                let ghost before = self@.tasks;
                self.tasks.remove(i);
                proof {
                    lemma_filter_drops_one(before, other_than(id), i as int);
                    assert(self@.tasks =~= before.remove(i as int));
                }
                true
            },
            None => {
                assert forall|k: int| 0 <= k < self@.tasks.len() implies other_than(id)(
                    self@.tasks[k],
                ) by {
                    assert(!id_at(self@.tasks, id, k));
                }
                proof {
                    lemma_filter_keeps_all(self@.tasks, other_than(id));
                }
                false
            },
        }
    }

    /// Marks the task `id` as completed; false where there is none.
    pub fn complete(&mut self, id: u32) -> (r: bool)
        requires
            old(self).wf(),
        ensures
            r == has_id(old(self)@.tasks, id),
            final(self)@ == completed(old(self)@, id),
            final(self).wf(),
    {
        match self.position(id) {
            Some(i) => {
                self.tasks[i].completed = true;
                assert(self@.tasks =~= completed(old(self)@, id).tasks);
                true
            },
            None => {
                assert forall|k: int| 0 <= k < self@.tasks.len() implies self@.tasks[k].id
                    != id by {
                    assert(!id_at(self@.tasks, id, k));
                }
                assert(self@.tasks =~= completed(old(self)@, id).tasks);
                false
            },
        }
    }
}

} // verus!
