use lazytodo::lazy_todo::{LazyToDo, ToDoTrait, TodoError};

// The bootstrap resolves the real home directory; this only checks that it
// answers within its contract, without operating on whatever database file
// the account may really have.
#[test]
fn bootstrap_resolves_home() {
    match LazyToDo::new() {
        Ok(_) => {}
        Err(e) => {
            assert!(e == TodoError::PathResolutionError || e == TodoError::OpenError);
        }
    }
}

// The store assumes the `todo` table already exists in the opened file:
// provisioning it is outside the core. Opened on a scratch path instead of
// the home directory — the reason the path is injectable — the database
// has no such table, so every operation must fail with its own error kind,
// which exercises the whole path through SQLite.
#[test]
fn operations_fail_without_table() {
    let mut store = LazyToDo::open_at(String::from("/tmp/lazytodo_scratch_no_table.db"))
        .expect("opening a fresh database file must succeed");
    assert!(matches!(store.get_all(false), Err(TodoError::QueryError)));
    assert!(matches!(store.get_all(true), Err(TodoError::QueryError)));
    assert_eq!(
        store.insert(String::from("will not land")),
        Err(TodoError::InsertError)
    );
    assert_eq!(store.mark_as_done(1), Err(TodoError::UpdateError(1)));
}
