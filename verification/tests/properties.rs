use todo_contract::store::{Task, TodoContract};

#[test]
fn ids_increase_by_one_across_callers() {
    let mut contract = TodoContract::default();
    let a = contract.add_task("first".to_string(), "alice.near");
    let b = contract.add_task("second".to_string(), "bob.near");
    let c = contract.add_task("third".to_string(), "alice.near");
    assert_eq!(a.id, 1);
    assert_eq!(b.id, 2);
    assert_eq!(c.id, 3);
}

#[test]
fn ids_are_never_reused_after_delete() {
    let mut contract = TodoContract::default();
    let a = contract.add_task("first".to_string(), "alice.near");
    let b = contract.add_task("second".to_string(), "alice.near");
    assert!(contract.delete_task(a.id, "alice.near"));
    assert!(contract.delete_task(b.id, "alice.near"));
    let c = contract.add_task("third".to_string(), "alice.near");
    assert_eq!(c.id, 3);
    assert_eq!(contract.next_id(), 4);
}

#[test]
fn list_keeps_creation_order_and_count() {
    let mut contract = TodoContract::default();
    contract.add_task("one".to_string(), "alice.near");
    contract.add_task("two".to_string(), "bob.near");
    contract.add_task("three".to_string(), "alice.near");
    assert!(contract.delete_task(2, "bob.near"));
    // three adds, one successful delete: two tasks, still in creation order
    let tasks = contract.list_tasks();
    assert_eq!(tasks.len(), 2);
    assert_eq!(tasks[0].title, "one");
    assert_eq!(tasks[1].title, "three");
    assert_eq!(tasks[0].id, 1);
    assert_eq!(tasks[1].id, 3);
}

#[test]
fn listing_returns_an_independent_copy() {
    let mut contract = TodoContract::default();
    contract.add_task("kept".to_string(), "alice.near");
    let mut copy = contract.list_tasks();
    copy.clear();
    assert_eq!(contract.list_tasks().len(), 1);
    assert_eq!(contract.list_tasks()[0].title, "kept");
}

#[test]
fn other_caller_cannot_toggle_or_delete() {
    let mut contract = TodoContract::default();
    let task = contract.add_task("owned".to_string(), "alice.near");
    assert!(!contract.toggle_task(task.id, "bob.near"));
    assert!(!contract.list_tasks()[0].completed);
    assert!(!contract.delete_task(task.id, "bob.near"));
    let tasks = contract.list_tasks();
    assert_eq!(tasks.len(), 1);
    assert_eq!(tasks[0].id, task.id);
}

#[test]
fn toggle_twice_restores_the_flag() {
    let mut contract = TodoContract::default();
    let task = contract.add_task("flip".to_string(), "alice.near");
    assert!(contract.toggle_task(task.id, "alice.near"));
    assert!(contract.list_tasks()[0].completed);
    assert!(contract.toggle_task(task.id, "alice.near"));
    assert!(!contract.list_tasks()[0].completed);
    // the same from a completed starting point
    assert!(contract.toggle_task(task.id, "alice.near"));
    assert!(contract.toggle_task(task.id, "alice.near"));
    assert!(contract.toggle_task(task.id, "alice.near"));
    assert!(contract.list_tasks()[0].completed);
}

#[test]
fn delete_removes_exactly_one_and_is_final() {
    let mut contract = TodoContract::default();
    contract.add_task("one".to_string(), "alice.near");
    contract.add_task("two".to_string(), "alice.near");
    contract.add_task("three".to_string(), "alice.near");
    assert!(contract.delete_task(2, "alice.near"));
    let tasks = contract.list_tasks();
    assert_eq!(tasks.len(), 2);
    assert_eq!(tasks[0].title, "one");
    assert_eq!(tasks[1].title, "three");
    // deleting the same id again finds nothing
    assert!(!contract.delete_task(2, "alice.near"));
    assert_eq!(contract.list_tasks().len(), 2);
}

#[test]
fn unissued_id_changes_nothing() {
    let mut contract = TodoContract::default();
    contract.add_task("only".to_string(), "alice.near");
    assert!(!contract.delete_task(0, "alice.near"));
    assert!(!contract.toggle_task(0, "alice.near"));
    assert!(!contract.delete_task(999, "alice.near"));
    assert!(!contract.toggle_task(999, "alice.near"));
    let tasks = contract.list_tasks();
    assert_eq!(tasks.len(), 1);
    assert_eq!(tasks[0].title, "only");
    assert!(!tasks[0].completed);
}

#[test]
fn empty_title_is_accepted_as_is() {
    let mut contract = TodoContract::default();
    let task = contract.add_task(String::new(), "alice.near");
    assert_eq!(task.title, "");
    assert_eq!(contract.list_tasks()[0].title, "");
}

#[test]
fn scenario_alice_and_bob() {
    let mut contract = TodoContract::default();
    let task = contract.add_task("Buy groceries".to_string(), "alice.near");
    assert_eq!(task.id, 1);
    assert_eq!(task.title, "Buy groceries");
    assert_eq!(task.completed, false);
    assert_eq!(task.owner, "alice.near");

    let tasks = contract.list_tasks();
    assert_eq!(tasks.len(), 1);
    assert_eq!(tasks[0].id, 1);
    assert_eq!(tasks[0].title, "Buy groceries");
    assert_eq!(tasks[0].completed, false);
    assert_eq!(tasks[0].owner, "alice.near");

    assert!(contract.toggle_task(1, "alice.near"));
    assert!(contract.list_tasks()[0].completed);

    assert!(!contract.delete_task(1, "bob.near"));
    assert_eq!(contract.list_tasks().len(), 1);

    assert!(contract.delete_task(1, "alice.near"));
    assert!(contract.list_tasks().is_empty());
}

fn record(id: u64, title: &str, completed: bool, owner: &str) -> Task {
    Task { id, title: title.to_string(), completed, owner: owner.to_string() }
}

#[test]
fn from_parts_round_trips_a_store() {
    let mut contract = TodoContract::default();
    contract.add_task("one".to_string(), "alice.near");
    contract.add_task("two".to_string(), "bob.near");
    assert!(contract.toggle_task(2, "bob.near"));

    let rebuilt = TodoContract::from_parts(contract.list_tasks(), contract.next_id())
        .expect("a listed store is well formed");
    let tasks = rebuilt.list_tasks();
    assert_eq!(tasks.len(), 2);
    assert_eq!(tasks[0].title, "one");
    assert_eq!(tasks[1].title, "two");
    assert!(tasks[1].completed);
    assert_eq!(rebuilt.next_id(), 3);
}

#[test]
fn from_parts_rejects_duplicate_ids() {
    let parts = vec![
        record(1, "one", false, "alice.near"),
        record(1, "again", true, "bob.near"),
    ];
    assert!(TodoContract::from_parts(parts, 2).is_none());
}

#[test]
fn from_parts_rejects_a_zero_counter() {
    assert!(TodoContract::from_parts(Vec::new(), 0).is_none());
}

#[test]
fn from_parts_rejects_unissued_ids() {
    let parts = vec![record(5, "late", false, "alice.near")];
    assert!(TodoContract::from_parts(parts, 5).is_none());
    let zero = vec![record(0, "early", false, "alice.near")];
    assert!(TodoContract::from_parts(zero, 2).is_none());
}

#[test]
fn a_fresh_store_is_empty_and_counts_from_one() {
    let contract = TodoContract::default();
    assert!(contract.list_tasks().is_empty());
    assert_eq!(contract.next_id(), 1);
}
