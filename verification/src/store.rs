//! The executable task store.
//!
//! `TodoContract` holds the records and the identifier counter; every
//! operation is proved to realize the corresponding transition of `model`.
//! Caller identity is an explicit argument of each mutating operation: the
//! hosting environment resolves it before the operation runs.

use crate::model::{
    add_result, add_transition, delete_transition, has_match, ids_issued_below, ids_unique,
    initial_store, store_wf, task_matches, toggle_transition, toggled, StoreView, TaskView,
};
use vstd::prelude::*;

verus! {

/// One task record: an identifier unique for the lifetime of the store, a
/// title fixed at creation, a completion flag, and the identity that created
/// the record and alone may toggle or delete it.
pub struct Task {
    pub id: u64,
    pub title: String,
    pub completed: bool,
    pub owner: String,
}

impl View for Task {
    type V = TaskView;

    open spec fn view(&self) -> TaskView {
        TaskView {
            id: self.id as int,
            title: self.title@,
            completed: self.completed,
            owner: self.owner@,
        }
    }
}

impl Clone for Task {
    fn clone(&self) -> (r: Self)
        ensures
            r@ == self@,
    {
        Task {
            id: self.id,
            title: self.title.clone(),
            completed: self.completed,
            owner: self.owner.clone(),
        }
    }
}

/// The record images of a record sequence, in the same order.
pub open spec fn tasks_view(tasks: Seq<Task>) -> Seq<TaskView> {
    Seq::new(tasks.len(), |i: int| tasks[i]@)
}

/// The store state that records and a counter value, taken together, stand
/// for.
pub open spec fn parts_view(tasks: Seq<Task>, next_id: u64) -> StoreView {
    StoreView { tasks: tasks_view(tasks), next_id: next_id as int }
}

/// The task store: records in creation order and the counter naming the next
/// identifier. Both are reachable only through the store's operations.
pub struct TodoContract {
    tasks: Vec<Task>,
    next_id: u64,
}

impl View for TodoContract {
    type V = StoreView;

    closed spec fn view(&self) -> StoreView {
        StoreView { tasks: tasks_view(self.tasks@), next_id: self.next_id as int }
    }
}

impl Default for TodoContract {
    /// A fresh store: no tasks, identifiers start at 1.
    fn default() -> (s: Self)
        ensures
            s@ == initial_store(),
            s.wf(),
    {
        let s = TodoContract { tasks: Vec::new(), next_id: 1 };
        proof {
            assert(s@ =~= initial_store());
        }
        s
    }
}

impl TodoContract {
    /// The store only ever holds well-formed states.
    pub open spec fn wf(&self) -> bool {
        store_wf(self@)
    }

    /// The identifier the next successful add will assign.
    pub fn next_id(&self) -> (id: u64)
        ensures
            id as int == self@.next_id,
    {
        self.next_id
    }

    /// Rebuild a store from records and a counter value handed back by the
    /// persistence boundary. Succeeds exactly when they form a well-formed
    /// state: the counter at least 1, identifiers unique, and every
    /// identifier already issued by the counter.
    pub fn from_parts(tasks: Vec<Task>, next_id: u64) -> (store: Option<TodoContract>)
        ensures
            (store is Some) <==> store_wf(parts_view(tasks@, next_id)),
            (store is Some) ==> store.unwrap()@ == parts_view(tasks@, next_id),
    {
        let ghost target = StoreView { tasks: tasks_view(tasks@), next_id: next_id as int };
        if next_id < 1 {
            return None;
        }
        let n = tasks.len();
        let mut i: usize = 0;
        while i < n
            invariant
                i <= n,
                n == tasks@.len(),
                next_id >= 1,
                target == parts_view(tasks@, next_id),
                forall|k: int| 0 <= k < i ==> 1 <= #[trigger] tasks@[k]@.id < next_id as int,
                forall|k1: int, k2: int| 0 <= k1 < k2 < i ==> tasks@[k1]@.id != tasks@[k2]@.id,
            decreases n - i,
        {
            if tasks[i].id < 1 || tasks[i].id >= next_id {
                proof {
                    assert(target.tasks[i as int] == tasks@[i as int]@);
                    assert(!ids_issued_below(target.tasks, target.next_id)) by {
                        assert((i as int) < target.tasks.len());
                        assert(!(1 <= target.tasks[i as int].id < target.next_id));
                    }
                }
                return None;
            }
            let mut j: usize = 0;
            while j < i
                invariant
                    j <= i,
                    i < n,
                    n == tasks@.len(),
                    target == parts_view(tasks@, next_id),
                    forall|k: int| 0 <= k < j ==> tasks@[k]@.id != tasks@[i as int]@.id,
                decreases i - j,
            {
                if tasks[j].id == tasks[i].id {
                    proof {
                        assert(target.tasks[j as int] == tasks@[j as int]@);
                        assert(target.tasks[i as int] == tasks@[i as int]@);
                        assert(!ids_unique(target.tasks));
                    }
                    return None;
                }
                j = j + 1;
            }
            i = i + 1;
        }
        proof {
            assert forall|k: int| 0 <= k < target.tasks.len() implies 1
                <= #[trigger] target.tasks[k].id < target.next_id by {
                assert(target.tasks[k] == tasks@[k]@);
            }
            assert forall|k1: int, k2: int| 0 <= k1 < k2 < target.tasks.len()
                implies target.tasks[k1].id != target.tasks[k2].id by {
                assert(target.tasks[k1] == tasks@[k1]@);
                assert(target.tasks[k2] == tasks@[k2]@);
            }
        }
        let store = TodoContract { tasks, next_id };
        proof {
            assert(store@ =~= target);
        }
        Some(store)
    }

    /// Create a task titled `title`, owned by `caller`, with the next
    /// identifier; append it to the store and return an independent copy.
    pub fn add_task(&mut self, title: String, caller: &str) -> (task: Task)
        requires
            old(self).wf(),
            old(self)@.next_id < u64::MAX,
        ensures
            final(self).wf(),
            final(self)@ == add_transition(old(self)@, title@, caller@),
            task@ == add_result(old(self)@, title@, caller@),
    {
        let owner: String = caller.to_string();
        let task = Task { id: self.next_id, title, completed: false, owner };
        let result = task.clone();
        self.tasks.push(task);
        self.next_id = self.next_id + 1;
        proof {
            crate::model::lemma_add_preserves_wf(old(self)@, title@, caller@);
            assert(self@.tasks =~= add_transition(old(self)@, title@, caller@).tasks);
            assert(self@ =~= add_transition(old(self)@, title@, caller@));
        }
        result
    }

    /// Return an independent copy of every task, in creation order,
    /// whichever caller asks: listing applies no authorization filter.
    pub fn list_tasks(&self) -> (tasks: Vec<Task>)
        ensures
            tasks_view(tasks@) == self@.tasks,
    {
        let mut tasks: Vec<Task> = Vec::new();
        let n = self.tasks.len();
        let mut i: usize = 0;
        while i < n
            invariant
                i <= n,
                n == self.tasks.len(),
                tasks@.len() == i,
                forall|k: int| 0 <= k < i ==> tasks@[k]@ == self@.tasks[k],
            decreases n - i,
        {
            tasks.push(self.tasks[i].clone());
            i = i + 1;
        }
        proof {
            assert(tasks_view(tasks@) =~= self@.tasks);
        }
        tasks
    }

    /// Find the position of the task that answers to `task_id` under
    /// `caller`, scanning in creation order.
    fn find_owned(&self, task_id: u64, caller: &String) -> (found: Option<usize>)
        ensures
            match found {
                Some(i) => 0 <= i < self@.tasks.len() && task_matches(
                    self@.tasks[i as int],
                    task_id as int,
                    caller@,
                ),
                None => !has_match(self@.tasks, task_id as int, caller@),
            },
    {
        let n = self.tasks.len();
        let mut i: usize = 0;
        while i < n
            invariant
                i <= n,
                n == self.tasks.len(),
                forall|k: int| 0 <= k < i ==> !task_matches(
                    self@.tasks[k],
                    task_id as int,
                    caller@,
                ),
            decreases n - i,
        {
            if self.tasks[i].id == task_id && self.tasks[i].owner == *caller {
                return Some(i);
            }
            i = i + 1;
        }
        None
    }

    /// Remove the task that answers to `task_id` under `caller`, keeping the
    /// relative order of the rest; when no task answers — the id was never
    /// issued, was already deleted, or belongs to another owner — leave the
    /// store unchanged. The result says whether a task was removed.
    pub fn delete_task(&mut self, task_id: u64, caller: &str) -> (removed: bool)
        requires
            old(self).wf(),
        ensures
            final(self).wf(),
            removed == has_match(old(self)@.tasks, task_id as int, caller@),
            final(self)@ == delete_transition(old(self)@, task_id as int, caller@),
    {
        let owner: String = caller.to_string();
        match self.find_owned(task_id, &owner) {
            Some(i) => {
                self.tasks.remove(i);
                proof {
                    crate::model::lemma_match_index_unique(
                        old(self)@.tasks,
                        task_id as int,
                        caller@,
                        i as int,
                    );
                    crate::model::lemma_delete_preserves_wf(old(self)@, task_id as int, caller@);
                    assert(self@.tasks =~= old(self)@.tasks.remove(i as int));
                    assert(self@ =~= delete_transition(old(self)@, task_id as int, caller@));
                }
                true
            },
            None => {
                proof {
                    assert(self@ =~= delete_transition(old(self)@, task_id as int, caller@));
                }
                false
            },
        }
    }

    /// Flip the completion flag of the task that answers to `task_id` under
    /// `caller`; when no task answers, leave the store unchanged. The result
    /// says whether a task was toggled.
    pub fn toggle_task(&mut self, task_id: u64, caller: &str) -> (switched: bool)
        requires
            old(self).wf(),
        ensures
            final(self).wf(),
            switched == has_match(old(self)@.tasks, task_id as int, caller@),
            final(self)@ == toggle_transition(old(self)@, task_id as int, caller@),
    {
        let owner: String = caller.to_string();
        match self.find_owned(task_id, &owner) {
            Some(i) => {
                let flipped = Task {
                    id: self.tasks[i].id,
                    title: self.tasks[i].title.clone(),
                    completed: !self.tasks[i].completed,
                    owner: self.tasks[i].owner.clone(),
                };
                proof {
                    assert(flipped@ == toggled(old(self)@.tasks[i as int]));
                }
                self.tasks[i] = flipped;
                proof {
                    crate::model::lemma_match_index_unique(
                        old(self)@.tasks,
                        task_id as int,
                        caller@,
                        i as int,
                    );
                    crate::model::lemma_toggle_preserves_wf(old(self)@, task_id as int, caller@);
                    assert(self@.tasks =~= old(self)@.tasks.update(
                        i as int,
                        toggled(old(self)@.tasks[i as int]),
                    ));
                    assert(self@ =~= toggle_transition(old(self)@, task_id as int, caller@));
                }
                true
            },
            None => {
                proof {
                    assert(self@ =~= toggle_transition(old(self)@, task_id as int, caller@));
                }
                false
            },
        }
    }
}

} // verus!
