//! Properties that hold of every reachable store state.
//!
//! Each proof function below states a law of the store over the transition
//! functions of `model`; the operations of `store` are proved to realize
//! exactly those transitions, so each law carries over to the executable
//! store.

use crate::model::{
    add_result, add_transition, delete_transition, has_match, initial_store,
    lemma_match_index_unique, lemma_toggle_preserves_wf, match_index, store_wf, task_matches,
    toggle_transition, toggled, StoreView,
};
use vstd::prelude::*;

verus! {

/// Identifiers are handed out consecutively: a fresh store assigns id 1, and
/// whatever state a store is in, the add after any add returns an id exactly
/// one greater — regardless of which callers issue the two adds.
pub proof fn lemma_ids_consecutive(
    s: StoreView,
    title1: Seq<char>,
    caller1: Seq<char>,
    title2: Seq<char>,
    caller2: Seq<char>,
)
    ensures
        add_result(initial_store(), title1, caller1).id == 1,
        add_result(add_transition(s, title1, caller1), title2, caller2).id == add_result(
            s,
            title1,
            caller1,
        ).id + 1,
{
}

/// The identifier counter moves up by exactly one on every add and never
/// moves otherwise: deletes and toggles, successful or not, leave it alone.
/// This is why an identifier, once deleted, is never issued again.
pub proof fn lemma_counter_moves_only_on_add(
    s: StoreView,
    title: Seq<char>,
    id: int,
    caller: Seq<char>,
)
    ensures
        add_transition(s, title, caller).next_id == s.next_id + 1,
        delete_transition(s, id, caller).next_id == s.next_id,
        toggle_transition(s, id, caller).next_id == s.next_id,
{
}

/// The task count follows the operations exactly: every add grows the store
/// by one record, a delete shrinks it by one exactly when it succeeds and
/// otherwise changes nothing, and a toggle never changes the count. So after
/// any run of operations the count is the number of adds minus the number of
/// successful deletes.
pub proof fn lemma_task_count(
    s: StoreView,
    title: Seq<char>,
    id: int,
    caller: Seq<char>,
)
    ensures
        add_transition(s, title, caller).tasks.len() == s.tasks.len() + 1,
        has_match(s.tasks, id, caller) ==> delete_transition(s, id, caller).tasks.len()
            == s.tasks.len() - 1,
        !has_match(s.tasks, id, caller) ==> delete_transition(s, id, caller) == s,
        toggle_transition(s, id, caller).tasks.len() == s.tasks.len(),
{
}

/// Only the owner can act on a task: for a record owned by one identity, a
/// delete or toggle of its id by any other identity matches nothing and
/// leaves the state — the record's presence and flag included — unchanged.
pub proof fn lemma_owner_protection(s: StoreView, i: int, caller: Seq<char>)
    requires
        store_wf(s),
        0 <= i < s.tasks.len(),
        caller != s.tasks[i].owner,
    ensures
        !has_match(s.tasks, s.tasks[i].id, caller),
        delete_transition(s, s.tasks[i].id, caller) == s,
        toggle_transition(s, s.tasks[i].id, caller) == s,
{
    if has_match(s.tasks, s.tasks[i].id, caller) {
        let j = match_index(s.tasks, s.tasks[i].id, caller);
        assert(0 <= j < s.tasks.len() && task_matches(s.tasks[j], s.tasks[i].id, caller));
        if i < j {
            assert(s.tasks[i].id != s.tasks[j].id);
        } else if j < i {
            assert(s.tasks[j].id != s.tasks[i].id);
        }
        assert(false);
    }
}

/// Toggling is its own inverse: two successful toggles of the same id by the
/// owner restore the store — the record's flag included — exactly.
pub proof fn lemma_toggle_involution(s: StoreView, id: int, caller: Seq<char>)
    requires
        store_wf(s),
        has_match(s.tasks, id, caller),
    ensures
        toggle_transition(toggle_transition(s, id, caller), id, caller) == s,
{
    let i = match_index(s.tasks, id, caller);
    assert(0 <= i < s.tasks.len() && task_matches(s.tasks[i], id, caller));
    lemma_toggle_preserves_wf(s, id, caller);
    let s1 = toggle_transition(s, id, caller);
    assert(task_matches(s1.tasks[i], id, caller));
    lemma_match_index_unique(s1.tasks, id, caller, i);
    assert(toggled(toggled(s.tasks[i])) == s.tasks[i]);
    assert(toggle_transition(s1, id, caller).tasks =~= s.tasks);
    assert(toggle_transition(s1, id, caller) =~= s);
}

/// A successful delete removes exactly the one record that answered to the
/// id, keeping the others in order; afterwards no record with that id
/// remains for any caller, so deleting the same id again changes nothing.
pub proof fn lemma_delete_is_final(s: StoreView, id: int, caller: Seq<char>)
    requires
        store_wf(s),
        has_match(s.tasks, id, caller),
    ensures
        task_matches(s.tasks[match_index(s.tasks, id, caller)], id, caller),
        delete_transition(s, id, caller).tasks == s.tasks.remove(match_index(s.tasks, id, caller)),
        forall|later: Seq<char>| !has_match(delete_transition(s, id, caller).tasks, id, later),
        delete_transition(delete_transition(s, id, caller), id, caller) == delete_transition(
            s,
            id,
            caller,
        ),
{
    let i = match_index(s.tasks, id, caller);
    assert(0 <= i < s.tasks.len() && task_matches(s.tasks[i], id, caller));
    let rest = s.tasks.remove(i);
    assert forall|later: Seq<char>| !has_match(rest, id, later) by {
        if has_match(rest, id, later) {
            let j = match_index(rest, id, later);
            assert(0 <= j < rest.len() && task_matches(rest[j], id, later));
            let j0: int = if j < i {
                j
            } else {
                j + 1
            };
            assert(rest[j] == s.tasks[j0]);
            if j0 < i {
                assert(s.tasks[j0].id != s.tasks[i].id);
            } else {
                assert(s.tasks[i].id != s.tasks[j0].id);
            }
            assert(false);
        }
    }
}

/// An id the counter has not issued — zero, or at or above the counter —
/// matches no record for any caller: deleting or toggling it changes
/// nothing.
pub proof fn lemma_unissued_id_no_effect(s: StoreView, id: int, caller: Seq<char>)
    requires
        store_wf(s),
        id < 1 || s.next_id <= id,
    ensures
        !has_match(s.tasks, id, caller),
        delete_transition(s, id, caller) == s,
        toggle_transition(s, id, caller) == s,
{
    if has_match(s.tasks, id, caller) {
        let j = match_index(s.tasks, id, caller);
        assert(0 <= j < s.tasks.len() && task_matches(s.tasks[j], id, caller));
        assert(1 <= s.tasks[j].id < s.next_id);
        assert(false);
    }
}

} // verus!
