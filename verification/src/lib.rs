/// The task-list core: the entry model, the store interface, the
/// database-backed store and its bootstrap, and the error kinds.
pub mod lazy_todo;
/// An in-memory store behind the same interface, with exact contracts, and
/// the proofs of the listing laws.
pub mod mem_todo;
