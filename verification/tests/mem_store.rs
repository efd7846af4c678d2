use lazytodo::lazy_todo::{ToDoTrait, TodoError};
use lazytodo::mem_todo::MemToDo;

#[test]
fn empty_store_lists_nothing() {
    let store = MemToDo::new();
    let undone = store.get_all(false).unwrap();
    let done = store.get_all(true).unwrap();
    assert_eq!(undone.len(), 0);
    assert_eq!(done.len(), 0);
}

#[test]
fn insert_then_list_undone() {
    let mut store = MemToDo::new();
    assert_eq!(store.insert(String::from("Buy milk")), Ok(()));
    let undone = store.get_all(false).unwrap();
    assert_eq!(undone.len(), 1);
    assert_eq!(undone[0].description, "Buy milk");
    assert!(!undone[0].done);
    let done = store.get_all(true).unwrap();
    assert_eq!(done.len(), 0);
}

#[test]
fn insert_assigns_increasing_ids() {
    let mut store = MemToDo::new();
    assert_eq!(store.insert(String::from("first")), Ok(()));
    assert_eq!(store.insert(String::from("second")), Ok(()));
    let undone = store.get_all(false).unwrap();
    assert_eq!(undone.len(), 2);
    assert_eq!(undone[0].id, 1);
    assert_eq!(undone[1].id, 2);
    assert!(undone[0].id < undone[1].id);
}

#[test]
fn full_round_trip() {
    let mut store = MemToDo::new();
    assert_eq!(store.insert(String::from("Buy milk")), Ok(()));

    let undone = store.get_all(false).unwrap();
    assert_eq!(undone.len(), 1);
    assert_eq!(undone[0].description, "Buy milk");
    assert!(!undone[0].done);
    let id = undone[0].id;

    assert_eq!(store.mark_as_done(id), Ok(()));

    let undone_after = store.get_all(false).unwrap();
    assert_eq!(undone_after.len(), 0);

    let done_after = store.get_all(true).unwrap();
    assert_eq!(done_after.len(), 1);
    assert_eq!(done_after[0].id, id);
    assert!(done_after[0].done);
    assert_eq!(done_after[0].description, "Buy milk");
}

#[test]
fn mark_missing_id_fails_with_that_id() {
    let mut store = MemToDo::new();
    assert_eq!(store.mark_as_done(9999), Err(TodoError::UpdateError(9999)));
}

#[test]
fn mark_missing_id_alters_no_row() {
    let mut store = MemToDo::new();
    assert_eq!(store.insert(String::from("keep me")), Ok(()));
    assert_eq!(store.insert(String::from("me too")), Ok(()));
    assert_eq!(store.mark_as_done(2), Ok(()));

    assert_eq!(store.mark_as_done(9999), Err(TodoError::UpdateError(9999)));

    let undone = store.get_all(false).unwrap();
    let done = store.get_all(true).unwrap();
    assert_eq!(undone.len(), 1);
    assert_eq!(undone[0].description, "keep me");
    assert!(!undone[0].done);
    assert_eq!(done.len(), 1);
    assert_eq!(done[0].description, "me too");
    assert!(done[0].done);
}

#[test]
fn listings_partition_the_store() {
    let mut store = MemToDo::new();
    for text in ["a", "b", "c", "d", "e"] {
        assert_eq!(store.insert(String::from(text)), Ok(()));
    }
    assert_eq!(store.mark_as_done(2), Ok(()));
    assert_eq!(store.mark_as_done(4), Ok(()));

    let done = store.get_all(true).unwrap();
    let undone = store.get_all(false).unwrap();

    assert_eq!(done.len() + undone.len(), 5);
    let mut done_ids: Vec<i64> = done.iter().map(|e| e.id).collect();
    let mut undone_ids: Vec<i64> = undone.iter().map(|e| e.id).collect();
    assert_eq!(done_ids, vec![2, 4]);
    assert_eq!(undone_ids, vec![1, 3, 5]);
    done_ids.append(&mut undone_ids);
    done_ids.sort();
    assert_eq!(done_ids, vec![1, 2, 3, 4, 5]);
    assert!(done.iter().all(|e| e.done));
    assert!(undone.iter().all(|e| !e.done));
}

#[test]
fn marking_twice_stays_done() {
    let mut store = MemToDo::new();
    assert_eq!(store.insert(String::from("once")), Ok(()));
    assert_eq!(store.mark_as_done(1), Ok(()));
    assert_eq!(store.mark_as_done(1), Ok(()));
    let done = store.get_all(true).unwrap();
    assert_eq!(done.len(), 1);
    assert!(done[0].done);
}
