//! Mathematical model of the task store.
//!
//! A store state is a sequence of task records in creation order together
//! with the counter that names the next identifier. Every operation of the
//! executable store is specified as a transition function over these states.

use vstd::prelude::*;

verus! {

/// Mathematical image of one task record.
#[verifier::ext_equal]
pub ghost struct TaskView {
    pub id: int,
    pub title: Seq<char>,
    pub completed: bool,
    pub owner: Seq<char>,
}

/// Mathematical image of the whole store: records in creation order plus the
/// identifier counter.
#[verifier::ext_equal]
pub ghost struct StoreView {
    pub tasks: Seq<TaskView>,
    pub next_id: int,
}

/// The state a store starts in: no tasks, identifiers begin at 1.
pub open spec fn initial_store() -> StoreView {
    StoreView { tasks: Seq::empty(), next_id: 1 }
}

/// The record that a successful add with this identifier creates.
pub open spec fn fresh_task(id: int, title: Seq<char>, owner: Seq<char>) -> TaskView {
    TaskView { id, title, completed: false, owner }
}

/// A record answers to an identifier and a caller when both its id and its
/// owner agree; this is the sole authorization rule of the store.
pub open spec fn task_matches(t: TaskView, id: int, caller: Seq<char>) -> bool {
    t.id == id && t.owner == caller
}

/// Some record in `tasks` answers to `id` under `caller`.
pub open spec fn has_match(tasks: Seq<TaskView>, id: int, caller: Seq<char>) -> bool {
    exists|i: int| 0 <= i < tasks.len() && task_matches(tasks[i], id, caller)
}

/// The position of the record that answers to `id` under `caller`; meaningful
/// only when `has_match` holds, and unique once identifiers are unique.
pub open spec fn match_index(tasks: Seq<TaskView>, id: int, caller: Seq<char>) -> int {
    choose|i: int| 0 <= i < tasks.len() && task_matches(tasks[i], id, caller)
}

/// The same record with its completion flag flipped.
pub open spec fn toggled(t: TaskView) -> TaskView {
    TaskView { completed: !t.completed, ..t }
}

/// No two records carry the same identifier.
pub open spec fn ids_unique(tasks: Seq<TaskView>) -> bool {
    forall|i: int, j: int|
        0 <= i < j < tasks.len() ==> tasks[i].id != tasks[j].id
}

/// Every identifier already issued lies in `1 ..= bound - 1`.
pub open spec fn ids_issued_below(tasks: Seq<TaskView>, bound: int) -> bool {
    forall|i: int| 0 <= i < tasks.len() ==> 1 <= #[trigger] tasks[i].id < bound
}

/// Well-formedness of a store state: the counter started at 1 and only ever
/// grew, identifiers are unique, and every identifier in the store was issued
/// by the counter (so none is ever reused).
pub open spec fn store_wf(s: StoreView) -> bool {
    &&& 1 <= s.next_id
    &&& ids_unique(s.tasks)
    &&& ids_issued_below(s.tasks, s.next_id)
}

/// The record returned by adding `title` as `caller` to state `s`.
pub open spec fn add_result(s: StoreView, title: Seq<char>, caller: Seq<char>) -> TaskView {
    fresh_task(s.next_id, title, caller)
}

/// State transition of a successful add: the new record is appended and the
/// counter moves up by one.
pub open spec fn add_transition(s: StoreView, title: Seq<char>, caller: Seq<char>) -> StoreView {
    StoreView { tasks: s.tasks.push(add_result(s, title, caller)), next_id: s.next_id + 1 }
}

/// State transition of a delete: when some record answers to `id` under
/// `caller` it is removed and the others keep their relative order;
/// otherwise the state is unchanged. The counter never moves.
pub open spec fn delete_transition(s: StoreView, id: int, caller: Seq<char>) -> StoreView {
    if has_match(s.tasks, id, caller) {
        StoreView { tasks: s.tasks.remove(match_index(s.tasks, id, caller)), ..s }
    } else {
        s
    }
}

/// State transition of a toggle: when some record answers to `id` under
/// `caller` its completion flag is flipped in place; otherwise the state is
/// unchanged. The counter never moves.
pub open spec fn toggle_transition(s: StoreView, id: int, caller: Seq<char>) -> StoreView {
    if has_match(s.tasks, id, caller) {
        StoreView {
            tasks: s.tasks.update(
                match_index(s.tasks, id, caller),
                toggled(s.tasks[match_index(s.tasks, id, caller)]),
            ),
            ..s
        }
    } else {
        s
    }
}

/// With unique identifiers a record that answers to `id` under `caller` is
/// the only one, so `match_index` names exactly its position.
pub proof fn lemma_match_index_unique(tasks: Seq<TaskView>, id: int, caller: Seq<char>, i: int)
    requires
        ids_unique(tasks),
        0 <= i < tasks.len(),
        task_matches(tasks[i], id, caller),
    ensures
        has_match(tasks, id, caller),
        match_index(tasks, id, caller) == i,
{
    assert(has_match(tasks, id, caller));
    let j = match_index(tasks, id, caller);
    assert(0 <= j < tasks.len() && task_matches(tasks[j], id, caller));
    if i < j {
        assert(tasks[i].id != tasks[j].id);
    } else if j < i {
        assert(tasks[j].id != tasks[i].id);
    }
}

/// Adding preserves well-formedness: the new record takes the counter's
/// value, which no existing record holds.
pub proof fn lemma_add_preserves_wf(s: StoreView, title: Seq<char>, caller: Seq<char>)
    requires
        store_wf(s),
    ensures
        store_wf(add_transition(s, title, caller)),
{
    let t = add_transition(s, title, caller);
    assert forall|i: int, j: int| 0 <= i < j < t.tasks.len() implies t.tasks[i].id
        != t.tasks[j].id by {
        assert(1 <= s.tasks[i].id < s.next_id);
    }
    assert forall|i: int| 0 <= i < t.tasks.len() implies 1 <= #[trigger] t.tasks[i].id
        < t.next_id by {
        if i < s.tasks.len() {
            assert(1 <= s.tasks[i].id < s.next_id);
        }
    }
}

/// Deleting preserves well-formedness: removing a record keeps the remaining
/// identifiers unique and issued.
pub proof fn lemma_delete_preserves_wf(s: StoreView, id: int, caller: Seq<char>)
    requires
        store_wf(s),
    ensures
        store_wf(delete_transition(s, id, caller)),
{
    let t = delete_transition(s, id, caller);
    if has_match(s.tasks, id, caller) {
        let k = match_index(s.tasks, id, caller);
        assert(0 <= k < s.tasks.len() && task_matches(s.tasks[k], id, caller));
        assert forall|i: int, j: int| 0 <= i < j < t.tasks.len() implies t.tasks[i].id
            != t.tasks[j].id by {
            let i0: int = if i < k { i } else { i + 1 };
            let j0: int = if j < k { j } else { j + 1 };
            assert(t.tasks[i] == s.tasks[i0]);
            assert(t.tasks[j] == s.tasks[j0]);
        }
        assert forall|i: int| 0 <= i < t.tasks.len() implies 1 <= #[trigger] t.tasks[i].id
            < t.next_id by {
            let i0: int = if i < k { i } else { i + 1 };
            assert(t.tasks[i] == s.tasks[i0]);
            assert(1 <= s.tasks[i0].id < s.next_id);
        }
    }
}

/// Toggling preserves well-formedness: the flipped record keeps its
/// identifier, so uniqueness and issuance are untouched.
pub proof fn lemma_toggle_preserves_wf(s: StoreView, id: int, caller: Seq<char>)
    requires
        store_wf(s),
    ensures
        store_wf(toggle_transition(s, id, caller)),
{
    let t = toggle_transition(s, id, caller);
    if has_match(s.tasks, id, caller) {
        let k = match_index(s.tasks, id, caller);
        assert(0 <= k < s.tasks.len() && task_matches(s.tasks[k], id, caller));
        assert forall|i: int| 0 <= i < t.tasks.len() implies #[trigger] t.tasks[i].id
            == s.tasks[i].id by {
        }
        assert forall|i: int, j: int| 0 <= i < j < t.tasks.len() implies t.tasks[i].id
            != t.tasks[j].id by {
            assert(s.tasks[i].id != s.tasks[j].id);
        }
        assert forall|i: int| 0 <= i < t.tasks.len() implies 1 <= #[trigger] t.tasks[i].id
            < t.next_id by {
            assert(1 <= s.tasks[i].id < s.next_id);
        }
    }
}

} // verus!
