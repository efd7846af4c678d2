use vstd::prelude::*;
use vstd::string::StringExecFns;

verus! {

/// The mathematical value of one task record: what the contracts speak of.
pub struct ToDoView {
    pub id: int,
    pub description: Seq<char>,
    pub done: bool,
    pub create_date: Seq<char>,
}

/// One task record: a unique id assigned by the store, the caller's
/// description, a completion flag that only ever moves from false to true,
/// and the timestamp the store captured at insertion.
#[derive(Debug)]
pub struct ToDo {
    pub id: i64,
    pub description: String,
    pub done: bool,
    pub create_date: String,
}

impl View for ToDo {
    type V = ToDoView;

    open spec fn view(&self) -> ToDoView {
        ToDoView {
            id: self.id as int,
            description: self.description@,
            done: self.done,
            create_date: self.create_date@,
        }
    }
}

/// Everything a store or the bootstrap can fail with.
#[derive(Clone, Copy, Debug, PartialEq, Eq, Structural)]
pub enum TodoError {
    /// The home directory could not be determined or is not valid text.
    PathResolutionError,
    /// The database file could not be opened or created.
    OpenError,
    /// A listing's read or row decoding failed.
    QueryError,
    /// An insertion's write failed or changed a row count other than one.
    InsertError,
    /// Marking the carried id as done failed or changed a row count other
    /// than one: the id may not exist, or the write itself may have failed.
    UpdateError(i64),
}

/// The store's capability set: one listing operation and two writes.
/// The presentation layer depends on this interface alone, so a substitute
/// backend can stand in for the database-backed one. Each implementation
/// states in its own spec functions what its operations guarantee.
pub trait ToDoTrait: Sized {
    /// What the implementation keeps true of itself between operations.
    spec fn inv(self) -> bool;

    /// What a finished listing guarantees.
    spec fn get_all_ens(self, checked: bool, r: Result<Vec<ToDo>, TodoError>) -> bool;

    /// What a finished insertion guarantees.
    spec fn insert_ens(self, post: Self, description: Seq<char>, r: Result<(), TodoError>) -> bool;

    /// What a finished mark-done guarantees.
    spec fn mark_as_done_ens(self, post: Self, id: i64, r: Result<(), TodoError>) -> bool;

    /// Returns the entries whose done flag equals `checked`, in store order.
    fn get_all(&self, checked: bool) -> (r: Result<Vec<ToDo>, TodoError>)
        requires
            self.inv(),
        ensures
            self.get_all_ens(checked, r),
    ;

    /// Adds one entry with the given description, not yet done.
    fn insert(&mut self, description: String) -> (r: Result<(), TodoError>)
        requires
            old(self).inv(),
        ensures
            final(self).inv(),
            old(self).insert_ens(*final(self), description@, r),
    ;

    /// Sets the done flag of the entry with the given id to true.
    fn mark_as_done(&mut self, id: i64) -> (r: Result<(), TodoError>)
        requires
            old(self).inv(),
        ensures
            final(self).inv(),
            old(self).mark_as_done_ens(*final(self), id, r),
    ;
}

#[verifier::external_type_specification]
#[verifier::external_body]
pub struct ExConnection(rusqlite::Connection);

#[verifier::external_type_specification]
#[verifier::external_body]
pub struct ExSqliteError(rusqlite::Error);

/// Relies on dirs::home_dir and Path::to_str: the user's home directory as
/// text, or None when it is unknown or not representable as text. The result
/// depends on the environment, so nothing is stated of it.
#[verifier::external_body]
fn home_dir_string() -> (r: Option<String>) {
    match dirs::home_dir() {
        Some(path) => match path.to_str() {
            Some(s) => Some(s.to_owned()),
            None => None,
        },
        None => None,
    }
}

/// Relies on rusqlite's Connection::open: opens the database file at the
/// given path, creating it if absent, and fails only if SQLite cannot open
/// it. The result depends on the disk, so nothing is stated of it.
#[verifier::external_body]
fn open_connection(path: String) -> (r: Result<rusqlite::Connection, rusqlite::Error>) {
    rusqlite::Connection::open(path)
}

/// Relies on rusqlite's Connection::prepare, Statement::query, Rows::next
/// and Row::get: runs the query and converts each row's four columns to
/// plain values. Any failure — preparing or running the query, stepping the
/// cursor, or decoding a row's columns — fails the whole call, so no
/// partial listing ever comes back. The result depends on the database
/// file, so nothing is stated of it.
#[verifier::external_body]
fn query_rows(conn: &rusqlite::Connection, sql: &str) -> (r: Result<
    Vec<(i64, String, bool, String)>,
    rusqlite::Error,
>) {
    let mut statement = conn.prepare(sql)?;
    let mut rows = statement.query([])?;
    let mut out: Vec<(i64, String, bool, String)> = Vec::new();
    while let Some(row) = rows.next()? {
        out.push((row.get(0)?, row.get(1)?, row.get(2)?, row.get(3)?));
    }
    Ok(out)
}

/// Relies on rusqlite's Connection::execute: runs exactly the statement
/// `INSERT INTO todo(description) VALUES(?)`, with the given description as
/// its one parameter; Ok carries the count of rows the statement changed.
/// That count depends on the database file, so nothing is stated of it.
#[verifier::external_body]
fn insert_row(conn: &rusqlite::Connection, description: String) -> (r: Result<
    usize,
    rusqlite::Error,
>) {
    conn.execute("INSERT INTO todo(description) VALUES(?)", [description])
}

/// Relies on rusqlite's Connection::execute: runs exactly the statement
/// `UPDATE todo SET done = ? WHERE id = ?`, with one as the new flag value
/// and the given id; Ok carries the count of rows the statement changed.
/// That count depends on the database file, so nothing is stated of it.
#[verifier::external_body]
fn mark_row_done(conn: &rusqlite::Connection, id: i64) -> (r: Result<usize, rusqlite::Error>) {
    conn.execute("UPDATE todo SET done = ? WHERE id = ?", [1, id])
}

/// The database file's place: the file `lazytodo.db` directly under the
/// given directory.
fn db_path_of(home: String) -> (r: String)
    ensures
        r@ == home@ + "/lazytodo.db"@,
{
    let mut r = home;
    r.append("/lazytodo.db");
    r
}

/// The read query a listing issues: rows are filtered by the done flag's
/// integer representation, one for done entries and zero for undone ones.
fn done_filter_sql(checked: bool) -> (s: &'static str)
    ensures
        s@ == if checked {
            "SELECT * FROM todo WHERE done == 1"@
        } else {
            "SELECT * FROM todo WHERE done == 0"@
        },
{
    if checked {
        "SELECT * FROM todo WHERE done == 1"
    } else {
        "SELECT * FROM todo WHERE done == 0"
    }
}

/// The record a row's four columns decode to.
pub open spec fn row_view(t: (i64, String, bool, String)) -> ToDoView {
    ToDoView { id: t.0 as int, description: t.1@, done: t.2, create_date: t.3@ }
}

/// Turns decoded rows into entries: one entry per row, each field taken
/// from its column, in the rows' order.
fn entries_of(rows: Vec<(i64, String, bool, String)>) -> (v: Vec<ToDo>)
    ensures
        v@.len() == rows@.len(),
        forall|i: int| 0 <= i < rows@.len() ==> (#[trigger] v@[i])@ == row_view(rows@[i]),
{
    let mut v: Vec<ToDo> = Vec::new();
    let n = rows.len();
    let mut i: usize = 0;
    while i < n
        invariant
            n == rows@.len(),
            i <= n,
            v@.len() == i as int,
            forall|k: int| 0 <= k < i ==> (#[trigger] v@[k])@ == row_view(rows@[k]),
        decreases n - i,
    {
        let r = &rows[i];
        v.push(
            ToDo {
                id: r.0,
                description: r.1.clone(),
                done: r.2,
                create_date: r.3.clone(),
            },
        );
        i += 1;
    }
    v
}

/// The defensive check on a write: a count of exactly one changed row is
/// success; any other count — a silent no-op or a wider change — is the
/// given error.
fn check_row_count(count: usize, error: TodoError) -> (r: Result<(), TodoError>)
    ensures
        r == if count == 1 {
            Result::<(), TodoError>::Ok(())
        } else {
            Result::<(), TodoError>::Err(error)
        },
{
    if count == 1 {
        Ok(())
    } else {
        Err(error)
    }
}

/// The database-backed store: owns the one connection to the database file.
/// It assumes the `todo` table already exists in that file; where it does
/// not, every operation fails with the operation's error.
pub struct LazyToDo {
    connection: rusqlite::Connection,
}

impl LazyToDo {
    /// Bootstrap: resolves `<home>/lazytodo.db` and opens it, creating the
    /// file if absent. Fails with PathResolutionError when the home
    /// directory is unknown, and with OpenError when the file cannot be
    /// opened; no other error comes out of it.
    pub fn new() -> (r: Result<LazyToDo, TodoError>)
        ensures
            r matches Err(e) ==> e == TodoError::PathResolutionError || e == TodoError::OpenError,
    {
        let home = match home_dir_string() {
            Some(h) => h,
            None => {
                return Err(TodoError::PathResolutionError);
            },
        };
        LazyToDo::open_at(db_path_of(home))
    }

    /// Opens (creating if absent) a store on the database file at the given
    /// path. The path is a parameter so that another location — a test's
    /// scratch directory — can stand in for the home directory.
    pub fn open_at(path: String) -> (r: Result<LazyToDo, TodoError>)
        ensures
            r matches Err(e) ==> e == TodoError::OpenError,
    {
        match open_connection(path) {
            Ok(connection) => Ok(LazyToDo { connection }),
            Err(_) => Err(TodoError::OpenError),
        }
    }
}

impl ToDoTrait for LazyToDo {
    /// The database file's contents are outside what this process can pin
    /// down, so nothing is carried between operations.
    open spec fn inv(self) -> bool {
        true
    }

    /// A listing fails only with QueryError; what the rows hold rests on
    /// the database file.
    open spec fn get_all_ens(self, checked: bool, r: Result<Vec<ToDo>, TodoError>) -> bool {
        r matches Err(e) ==> e == TodoError::QueryError
    }

    /// An insertion fails only with InsertError.
    open spec fn insert_ens(self, post: Self, description: Seq<char>, r: Result<(), TodoError>) -> bool {
        r matches Err(e) ==> e == TodoError::InsertError
    }

    /// A mark-done fails only with UpdateError carrying the id it was
    /// given.
    open spec fn mark_as_done_ens(self, post: Self, id: i64, r: Result<(), TodoError>) -> bool {
        r matches Err(e) ==> e == TodoError::UpdateError(id)
    }

    fn get_all(&self, checked: bool) -> (r: Result<Vec<ToDo>, TodoError>) {
        let sql = done_filter_sql(checked);
        match query_rows(&self.connection, sql) {
            Ok(raw) => Ok(entries_of(raw)),
            Err(_) => Err(TodoError::QueryError),
        }
    }

    fn insert(&mut self, description: String) -> (r: Result<(), TodoError>) {
        let count = match insert_row(&self.connection, description) {
            Ok(count) => count,
            Err(_) => {
                return Err(TodoError::InsertError);
            },
        };
        check_row_count(count, TodoError::InsertError)
    }

    fn mark_as_done(&mut self, id: i64) -> (r: Result<(), TodoError>) {
        let count = match mark_row_done(&self.connection, id) {
            Ok(count) => count,
            Err(_) => {
                return Err(TodoError::UpdateError(id));
            },
        };
        check_row_count(count, TodoError::UpdateError(id))
    }
}

} // verus!
