use vstd::prelude::*;

use crate::extract::{extract_title, title_of};

verus! {

#[verifier::external_type_specification]
#[verifier::external_body]
pub struct ExConnection(rusqlite::Connection);

#[verifier::external_type_specification]
#[verifier::external_body]
pub struct ExSqlError(rusqlite::Error);

/// Relies on rusqlite::Connection::open: opens, or creates, the store file at `path`.
#[verifier::external_body]
fn open_store(path: &str) -> (r: Result<rusqlite::Connection, rusqlite::Error>) {
    rusqlite::Connection::open(path)
}

/// Relies on rusqlite::Connection::execute_batch: runs each statement of `sql`.
#[verifier::external_body]
fn execute_batch(conn: &rusqlite::Connection, sql: &str) -> (r: Result<(), rusqlite::Error>) {
    conn.execute_batch(sql)
}

/// Relies on rusqlite::Connection::execute: runs `sql` with the one parameter `?1`.
#[verifier::external_body]
fn execute_with_path(conn: &rusqlite::Connection, sql: &str, path: &str) -> (r: Result<
    usize,
    rusqlite::Error,
>) {
    conn.execute(sql, [path])
}

/// Relies on rusqlite::Connection::execute: runs `sql` with a document's five fields
/// bound to `?1` to `?5`.
#[verifier::external_body]
fn execute_with_document(conn: &rusqlite::Connection, sql: &str, doc: &DocumentRecord) -> (r:
    Result<usize, rusqlite::Error>) {
    conn.execute(sql, (&doc.path, &doc.title, &doc.content, doc.modified, doc.created))
}

/// A failure of the store, by where it happened.
#[derive(Debug)]
pub enum IndexError {
    /// The store file or its schema could not be created.
    StorageInit(rusqlite::Error),
    /// The store could not be reached.
    Connection(rusqlite::Error),
    /// The root of a crawl could not be listed.
    Walk(String),
    /// One document could not be written; the store is as it was before.
    DocumentIndex(rusqlite::Error),
    /// A full-text query was refused.
    QuerySyntax(rusqlite::Error),
}

/// Statements that create the document table and its full-text shadow.
pub const SCHEMA_SQL: &'static str = "CREATE TABLE IF NOT EXISTS files (
        id INTEGER PRIMARY KEY,
        path TEXT UNIQUE NOT NULL,
        title TEXT,
        content TEXT,
        modified INTEGER,
        created INTEGER
    );
    CREATE VIRTUAL TABLE IF NOT EXISTS files_fts USING fts5(
        path, title, content,
        content='files',
        content_rowid='id'
    );";

/// Write-ahead journal and a relaxed flush policy, so that readers run during writes.
pub const JOURNAL_SQL: &'static str = "PRAGMA journal_mode = WAL; PRAGMA synchronous = NORMAL;";

/// The store file at a fixed location.
pub struct IndexService {
    db_path: String,
}

impl IndexService {
    pub closed spec fn db_path(&self) -> Seq<char> {
        self.db_path@
    }

    pub fn new(db_path: String) -> (r: Self)
        ensures
            r.db_path() == db_path@,
    {
        Self { db_path }
    }

    /// The location of the store file.
    pub fn path(&self) -> (r: &str)
        ensures
            r@ == self.db_path(),
    {
        self.db_path.as_str()
    }

    /// Creates the store file, its journal mode and its schema, where they are missing.
    pub fn initialize(&self) -> (r: Result<(), IndexError>)
        ensures
            r matches Err(e) ==> e is StorageInit,
    {
        let conn = match open_store(self.db_path.as_str()) {
            Ok(c) => c,
            Err(e) => {
                return Err(IndexError::StorageInit(e));
            },
        };
        match execute_batch(&conn, JOURNAL_SQL) {
            Ok(()) => {},
            Err(e) => {
                return Err(IndexError::StorageInit(e));
            },
        }
        create_schema(&conn)
    }

    /// A new handle on the store.
    pub fn get_connection(&self) -> (r: Result<rusqlite::Connection, IndexError>)
        ensures
            r matches Err(e) ==> e is Connection,
    {
        match open_store(self.db_path.as_str()) {
            Ok(c) => Ok(c),
            Err(e) => Err(IndexError::Connection(e)),
        }
    }
}

/// Creates the document table and its full-text shadow on `conn`, where missing.
pub fn create_schema(conn: &rusqlite::Connection) -> (r: Result<(), IndexError>)
    ensures
        r matches Err(e) ==> e is StorageInit,
{
    match execute_batch(conn, SCHEMA_SQL) {
        Ok(()) => Ok(()),
        Err(e) => Err(IndexError::StorageInit(e)),
    }
}

/// One document, as it is stored.
#[derive(Debug, Clone)]
pub struct DocumentRecord {
    pub path: String,
    pub title: Option<String>,
    pub content: String,
    pub modified: i64,
    pub created: i64,
}

impl DocumentRecord {
    /// The record of the file at `path` with `content`, titled as its text says.
    pub fn new(path: String, content: String, modified: i64, created: i64) -> (r: Self)
        ensures
            r.path@ == path@,
            r.content@ == content@,
            r.modified == modified,
            r.created == created,
            r.title is Some == title_of(content@, path@) is Some,
            r.title is Some ==> r.title->0@ == title_of(content@, path@)->0,
    {
        let title = extract_title(content.as_str(), path.as_str());
        Self { path, title, content, modified, created }
    }
}

/// The steps of a document write, inside one transaction.
#[derive(Debug, Clone, Copy, PartialEq, Eq, Structural)]
pub enum WriteStep {
    /// Remove the full-text entry of the stored row for the path, if any.
    ClearFullText,
    /// Insert the row, or update the row that holds the path, keeping its identity.
    UpsertDocument,
    /// Insert the full-text entry of the row that now holds the path.
    InsertFullText,
}

/// The order of the steps: the old entry is cleared while the old row still
/// holds the text it was built from.
pub open spec fn write_steps() -> Seq<WriteStep> {
    seq![WriteStep::ClearFullText, WriteStep::UpsertDocument, WriteStep::InsertFullText]
}

pub const CLEAR_FULL_TEXT_SQL: &'static str = "INSERT INTO files_fts (files_fts, rowid, path, title, content)
     SELECT 'delete', id, path, title, content FROM files WHERE path = ?1";

pub const UPSERT_DOCUMENT_SQL: &'static str = "INSERT INTO files (path, title, content, modified, created)
     VALUES (?1, ?2, ?3, ?4, ?5)
     ON CONFLICT(path) DO UPDATE SET title = excluded.title, content = excluded.content,
     modified = excluded.modified, created = excluded.created";

pub const INSERT_FULL_TEXT_SQL: &'static str = "INSERT INTO files_fts (rowid, path, title, content)
     SELECT id, path, title, content FROM files WHERE path = ?1";

fn run_write_step(conn: &rusqlite::Connection, step: WriteStep, doc: &DocumentRecord) -> (r:
    Result<usize, rusqlite::Error>) {
    match step {
        WriteStep::ClearFullText => execute_with_path(conn, CLEAR_FULL_TEXT_SQL, doc.path.as_str()),
        WriteStep::UpsertDocument => execute_with_document(conn, UPSERT_DOCUMENT_SQL, doc),
        WriteStep::InsertFullText => execute_with_path(
            conn,
            INSERT_FULL_TEXT_SQL,
            doc.path.as_str(),
        ),
    }
}

/// What a document write does next.
#[derive(Debug, Clone, Copy, PartialEq, Eq, Structural)]
pub enum TxAction {
    /// Run this step inside the open transaction.
    Run(WriteStep),
    /// Every step succeeded: commit.
    Commit,
    /// A step failed: roll back, so that none of the steps takes effect.
    Rollback,
}

/// The next action of a write that has run `done` steps, the last of them
/// successful when `ok`: roll back after a failure, else run the next of
/// `write_steps`, else commit.
pub open spec fn tx_action(done: nat, ok: bool) -> TxAction {
    if !ok {
        TxAction::Rollback
    } else if done < write_steps().len() {
        TxAction::Run(write_steps()[done as int])
    } else {
        TxAction::Commit
    }
}

pub fn next_tx_action(done: usize, ok: bool) -> (a: TxAction)
    ensures
        a == tx_action(done as nat, ok),
{
    if !ok {
        TxAction::Rollback
    } else if done == 0 {
        TxAction::Run(WriteStep::ClearFullText)
    } else if done == 1 {
        TxAction::Run(WriteStep::UpsertDocument)
    } else if done == 2 {
        TxAction::Run(WriteStep::InsertFullText)
    } else {
        TxAction::Commit
    }
}

/// Writes `doc` in one transaction. After `BEGIN`, each next action comes from
/// `next_tx_action`: the steps of `write_steps` run in order, the first failure
/// rolls the transaction back, and a write whose steps all succeeded commits.
pub fn write_document(conn: &rusqlite::Connection, doc: &DocumentRecord) -> (r: Result<
    (),
    IndexError,
>)
    ensures
        r matches Err(e) ==> e is DocumentIndex,
{
    match execute_batch(conn, "BEGIN") {
        Ok(()) => {},
        Err(e) => {
            return Err(IndexError::DocumentIndex(e));
        },
    }
    let mut done: usize = 0;
    let mut failure: Option<rusqlite::Error> = None;
    loop
        invariant
            done <= write_steps().len(),
        decreases write_steps().len() - done,
    {
        match next_tx_action(done, failure.is_none()) {
            TxAction::Run(step) => {
                match run_write_step(conn, step, doc) {
                    Ok(_) => {},
                    Err(e) => {
                        failure = Some(e);
                    },
                }
                done = done + 1;
            },
            TxAction::Commit => {
                return match execute_batch(conn, "COMMIT") {
                    Ok(()) => Ok(()),
                    Err(e) => {
                        let _ = execute_batch(conn, "ROLLBACK");
                        Err(IndexError::DocumentIndex(e))
                    },
                };
            },
            TxAction::Rollback => {
                let _ = execute_batch(conn, "ROLLBACK");
                return Err(IndexError::DocumentIndex(failure.unwrap()));
            },
        }
    }
}

/// Indexes the file at `path` whose text is `content`: titles it from its text and
/// writes it, with its full-text entry, in one transaction.
pub fn index_document(
    conn: &rusqlite::Connection,
    path: String,
    content: String,
    modified: i64,
    created: i64,
) -> (r: Result<(), IndexError>)
    ensures
        r matches Err(e) ==> e is DocumentIndex,
{
    let doc = DocumentRecord::new(path, content, modified, created);
    write_document(conn, &doc)
}

} // verus!
