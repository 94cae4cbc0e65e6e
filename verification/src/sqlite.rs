//! The SQL statements of the store, one function each, with what SQLite does
//! on the `entries` table that `SCHEMA` creates.
//!
//! Where a call fails, the function returns the error that the call came back
//! with: `refused`, `listing_refused` and `setup_refused` stand for that having
//! happened.
use vstd::prelude::*;

use crate::table::{
    capped, image_row, newest_first, next_id, has_room, row_with, text_row, without_image,
    without_row, without_text, StoredRow,
};
use crate::text::{opt_bytes, opt_text};

verus! {

#[verifier::external_type_specification]
#[verifier::external_body]
pub struct ExConnection(rusqlite::Connection);

#[verifier::external_type_specification]
#[verifier::external_body]
pub struct ExTransaction<'conn>(rusqlite::Transaction<'conn>);

#[verifier::external_type_specification]
#[verifier::external_body]
pub struct ExSqlError(rusqlite::Error);

/// An open database, with a connection whose transactions take the write lock
/// when they begin. Its statements all stand in this module.
pub struct Database {
    conn: rusqlite::Connection,
}

impl Database {
    /// The connection to the database.
    pub closed spec fn connection(self) -> rusqlite::Connection {
        self.conn
    }

    #[verifier::type_invariant]
    spec fn locks_up_front(self) -> bool {
        setup_of(self.conn).contains(Setup::Immediate)
    }

    /// The database that `conn` is open on, and the log of what is written
    /// through it, empty yet.
    pub(crate) fn on(conn: rusqlite::Connection) -> (r: (Database, WriteLog))
        requires
            setup_of(conn).contains(Setup::Immediate),
        ensures
            r.0.connection() == conn,
            r.1.events() == Seq::<WriteEvent>::empty(),
    {
        (Database { conn }, WriteLog { events: Ghost(Seq::empty()) })
    }
}

/// Something that was done to the database's file.
pub enum WriteEvent {
    /// A transaction that found the rows `before` was committed with the rows
    /// `after`; whether it kept other writers out from its beginning.
    Committed { before: Seq<StoredRow>, after: Seq<StoredRow>, write_locked: bool },
    /// Free pages were given back, as far as SQLite would: in so many steps, or
    /// not at all.
    Vacuumed { steps: Option<usize> },
}

/// The log of what has been written through a database. No transaction is
/// committed without being logged here: a function that cannot change the log
/// leaves the rows as they are.
pub struct WriteLog {
    events: Ghost<Seq<WriteEvent>>,
}

impl WriteLog {
    /// What has been done, in order.
    pub closed spec fn events(self) -> Seq<WriteEvent> {
        self.events@
    }
}

/// One step in the setup of a connection.
pub enum Setup {
    /// Transactions take the write lock when they begin.
    Immediate,
    /// A statement waits for this many seconds for another process's lock.
    BusyTimeout(u64),
    /// A pragma was set to a value.
    Pragma(Seq<char>, Seq<char>),
    /// These statements were run.
    Batch(Seq<char>),
}

/// The steps that have set the connection up, in order.
pub uninterp spec fn setup_of(conn: rusqlite::Connection) -> Seq<Setup>;

/// A step of the setup, taken on `conn`, has come back with the error `e`.
pub uninterp spec fn setup_refused(
    conn: rusqlite::Connection,
    step: Setup,
    e: rusqlite::Error,
) -> bool;

/// The rows of the `entries` table that the transaction sees, by descending id.
/// What the functions here say of them is said of the table that `SCHEMA`
/// makes: a database that came with another table of that name is not spoken
/// of.
pub uninterp spec fn table(tx: rusqlite::Transaction<'_>) -> Seq<StoredRow>;

/// How a transaction began: on which database, with which rows in it, and
/// whether it took the write lock at once.
pub struct Beginning {
    pub db: Database,
    pub rows: Seq<StoredRow>,
    pub write_locked: bool,
}

/// How the transaction began.
pub uninterp spec fn begun(tx: rusqlite::Transaction<'_>) -> Beginning;

/// `db` has been asked to give free pages back, and has done so in so many
/// steps, or has refused.
pub uninterp spec fn reclaim_tried(db: Database, steps: Option<usize>) -> bool;

/// A transaction on `db` has found the rows `rows`.
pub uninterp spec fn found(db: Database, rows: Seq<StoredRow>) -> bool;

/// A transaction on `db` that found the rows `before` has left the rows
/// `after`, for every later transaction to find.
pub uninterp spec fn committed(db: Database, before: Seq<StoredRow>, after: Seq<StoredRow>) -> bool;

/// A call on `db`, or on a transaction on it, has come back with the error `e`.
pub uninterp spec fn refused(db: Database, e: rusqlite::Error) -> bool;

/// A listing of the rows `rows` of `db` has broken off after the first `n`,
/// with the error `e`.
pub uninterp spec fn listing_refused(
    db: Database,
    rows: Seq<StoredRow>,
    n: int,
    e: rusqlite::Error,
) -> bool;

/// A listing of the rows `rows` of `db` has broken off after the first `n`.
pub open spec fn broke_off(db: Database, rows: Seq<StoredRow>, n: int) -> bool {
    exists|e: rusqlite::Error| listing_refused(db, rows, n, e)
}

/// Some call on `db` has come back with an error.
pub open spec fn has_refused(db: Database) -> bool {
    exists|e: rusqlite::Error| refused(db, e)
}

/// The table that holds the history.
pub const SCHEMA: &'static str = "CREATE TABLE IF NOT EXISTS entries (
    id       INTEGER PRIMARY KEY,
    ts       INTEGER NOT NULL,
    kind     TEXT NOT NULL,
    text     TEXT,
    img      BLOB,
    img_w    INTEGER,
    img_h    INTEGER,
    img_hash INTEGER,
    CHECK (
        (kind = 'text' AND text IS NOT NULL AND img IS NULL)
        OR (kind = 'image' AND img IS NOT NULL AND img_hash IS NOT NULL AND text IS NULL)
    )
);";

/// The columns of a row that the list of entries is made of. A column is
/// `None` where its cell does not read as the type given here.
pub struct FetchedRow {
    pub id: i64,
    pub ts: Option<i64>,
    pub kind: Option<String>,
    pub text: Option<String>,
    pub img_w: Option<u32>,
    pub img_h: Option<u32>,
    pub img_len: Option<i64>,
}

/// Whether `f` holds what the list of entries needs of `r`.
pub open spec fn fetched(f: FetchedRow, r: StoredRow) -> bool {
    &&& f.id == r.id
    &&& f.ts == r.ts
    &&& opt_text(f.kind) == r.kind
    &&& opt_text(f.text) == r.text
    &&& f.img_w == r.img_w
    &&& f.img_h == r.img_h
    &&& f.img_len == r.img_len
}

/// `Connection::set_transaction_behavior` with `Immediate`: transactions that
/// the connection opens take the write lock up front.
#[verifier::external_body]
pub(crate) fn set_immediate(conn: &mut rusqlite::Connection)
    ensures
        setup_of(*final(conn)) == setup_of(*old(conn)).push(Setup::Immediate),
{
    conn.set_transaction_behavior(rusqlite::TransactionBehavior::Immediate)
}

/// `Connection::busy_timeout`: how long a statement waits for another
/// process's lock. It panics where the milliseconds exceed an `i32`.
#[verifier::external_body]
pub(crate) fn set_busy_timeout(conn: &mut rusqlite::Connection, secs: u64) -> (res: Result<
    (),
    rusqlite::Error,
>)
    requires
        secs * 1000 <= i32::MAX,
    ensures
        res is Ok ==> setup_of(*final(conn)) == setup_of(*old(conn)).push(
            Setup::BusyTimeout(secs),
        ),
        res matches Err(e) ==> setup_refused(*old(conn), Setup::BusyTimeout(secs), e),
{
    conn.busy_timeout(std::time::Duration::from_secs(secs))
}

/// `Connection::pragma_update` without a schema name.
#[verifier::external_body]
pub(crate) fn set_pragma(conn: &mut rusqlite::Connection, name: &str, value: &str) -> (res: Result<
    (),
    rusqlite::Error,
>)
    ensures
        res is Ok ==> setup_of(*final(conn)) == setup_of(*old(conn)).push(
            Setup::Pragma(name@, value@),
        ),
        res matches Err(e) ==> setup_refused(
            *old(conn),
            Setup::Pragma(name@, value@),
            e,
        ),
{
    conn.pragma_update(None, name, value)
}

/// `Connection::execute_batch`: runs `sql`.
#[verifier::external_body]
pub(crate) fn run_batch(conn: &mut rusqlite::Connection, sql: &str) -> (res: Result<
    (),
    rusqlite::Error,
>)
    ensures
        res is Ok ==> setup_of(*final(conn)) == setup_of(*old(conn)).push(
            Setup::Batch(sql@),
        ),
        res matches Err(e) ==> setup_refused(*old(conn), Setup::Batch(sql@), e),
{
    conn.execute_batch(sql)
}

/// `PRAGMA incremental_vacuum`, stepped to its end: it frees one page per
/// step. Best effort, outside any transaction; the rows stay as they are. None
/// where the statement could not be run.
#[verifier::external_body]
fn incremental_vacuum(db: &Database) -> (steps: Option<usize>)
    ensures
        reclaim_tried(*db, steps),
{
    let mut stmt = db.conn.prepare("PRAGMA incremental_vacuum").ok()?;
    let steps = stmt.query_map([], |_row| Ok(())).ok()?;
    Some(steps.count())
}

/// Gives free pages of the database's file back.
pub(crate) fn vacuum(db: &Database, log: &mut WriteLog)
    ensures
        exists|steps: Option<usize>| #[trigger]
            reclaim_tried(*db, steps) && final(log).events() == old(log).events().push(
                WriteEvent::Vacuumed { steps },
            ),
{
    let steps = incremental_vacuum(db);
    log.events = Ghost(log.events@.push(WriteEvent::Vacuumed { steps }));
}

/// `Connection::unchecked_transaction`: a transaction, which sees the rows as
/// they stand. On a connection that was set up so, it takes the write lock when
/// it begins, and keeps other writers out. `id` is the primary key, so no two
/// rows share one.
#[verifier::external_body]
fn begin_transaction(db: &Database) -> (res: Result<rusqlite::Transaction<'_>, rusqlite::Error>)
    ensures
        res matches Ok(tx) ==> {
            &&& newest_first(table(tx))
            &&& begun(tx).db == *db
            &&& begun(tx).rows == table(tx)
            &&& setup_of(db.connection()).contains(Setup::Immediate) ==> begun(tx).write_locked
            &&& found(*db, table(tx))
        },
        res matches Err(e) ==> refused(*db, e),
{
    db.conn.unchecked_transaction()
}

/// A transaction that may write: it keeps other writers out from the start.
pub(crate) fn begin_write(db: &Database) -> (res: Result<
    rusqlite::Transaction<'_>,
    rusqlite::Error,
>)
    ensures
        res matches Ok(tx) ==> {
            &&& newest_first(table(tx))
            &&& begun(tx) == (Beginning { db: *db, rows: table(tx), write_locked: true })
            &&& found(*db, table(tx))
        },
        res matches Err(e) ==> refused(*db, e),
{
    proof {
        use_type_invariant(db);
    }
    begin_transaction(db)
}

/// `Transaction::new_unchecked` with `Deferred`: a transaction for reading,
/// which takes no write lock and sees one state of the table throughout.
#[verifier::external_body]
pub(crate) fn begin_read(db: &Database) -> (res: Result<
    rusqlite::Transaction<'_>,
    rusqlite::Error,
>)
    ensures
        res matches Ok(tx) ==> {
            &&& newest_first(table(tx))
            &&& begun(tx) == (Beginning { db: *db, rows: table(tx), write_locked: false })
            &&& found(*db, table(tx))
        },
        res matches Err(e) ==> refused(*db, e),
{
    rusqlite::Transaction::new_unchecked(&db.conn, rusqlite::TransactionBehavior::Deferred)
}

/// `Transaction::commit`: what the transaction made of the rows that it found
/// is what the database holds from then on.
#[verifier::external_body]
fn commit_transaction(tx: rusqlite::Transaction<'_>) -> (res: Result<(), rusqlite::Error>)
    ensures
        res is Ok ==> committed(begun(tx).db, begun(tx).rows, table(tx)),
        res matches Err(e) ==> refused(begun(tx).db, e),
{
    tx.commit()
}

/// What a commit of the transaction is logged as.
pub open spec fn commit_of(tx: rusqlite::Transaction<'_>) -> WriteEvent {
    WriteEvent::Committed {
        before: begun(tx).rows,
        after: table(tx),
        write_locked: begun(tx).write_locked,
    }
}

/// Commits the transaction.
pub(crate) fn commit(tx: rusqlite::Transaction<'_>, log: &mut WriteLog) -> (res: Result<
    (),
    rusqlite::Error,
>)
    ensures
        res is Ok ==> committed(begun(tx).db, begun(tx).rows, table(tx)),
        res is Ok ==> final(log).events() == old(log).events().push(commit_of(tx)),
        res is Err ==> *final(log) == *old(log),
        res matches Err(e) ==> refused(begun(tx).db, e),
{
    let ghost event = commit_of(tx);
    match commit_transaction(tx) {
        Ok(()) => {
            log.events = Ghost(log.events@.push(event));
            Ok(())
        },
        Err(e) => Err(e),
    }
}

/// Selects kind and text of the row with the largest id. A kind that is no
/// text, or a text that is neither text nor NULL, is an error.
#[verifier::external_body]
pub(crate) fn newest_text_columns(tx: &rusqlite::Transaction<'_>) -> (res: Result<
    Option<(String, Option<String>)>,
    rusqlite::Error,
>)
    ensures
        res matches Ok(None) ==> table(*tx).len() == 0,
        res matches Ok(Some(row)) ==> table(*tx).len() > 0 && table(*tx)[0].kind == Some(row.0@)
            && table(*tx)[0].text == opt_text(row.1),
        res matches Err(e) ==> refused(begun(*tx).db, e),
{
    rusqlite::OptionalExtension::optional(
        tx.query_row(
            "SELECT kind, text FROM entries ORDER BY id DESC LIMIT 1",
            [],
            |r| Ok((r.get(0)?, r.get(1)?)),
        ),
    )
}

/// Selects kind, dimensions and pixel hash of the row with the largest id. A
/// column that is neither of its type nor NULL is an error.
#[verifier::external_body]
pub(crate) fn newest_image_columns(tx: &rusqlite::Transaction<'_>) -> (res: Result<
    Option<(String, Option<u32>, Option<u32>, Option<i64>)>,
    rusqlite::Error,
>)
    ensures
        res matches Ok(None) ==> table(*tx).len() == 0,
        res matches Ok(Some(row)) ==> table(*tx).len() > 0 && table(*tx)[0].kind == Some(row.0@)
            && table(*tx)[0].img_w == row.1 && table(*tx)[0].img_h == row.2
            && table(*tx)[0].img_hash == row.3,
        res matches Err(e) ==> refused(begun(*tx).db, e),
{
    rusqlite::OptionalExtension::optional(
        tx.query_row(
            "SELECT kind, img_w, img_h, img_hash FROM entries ORDER BY id DESC LIMIT 1",
            [],
            |r| Ok((r.get(0)?, r.get(1)?, r.get(2)?, r.get(3)?)),
        ),
    )
}

/// Deletes every row that stores `text`.
#[verifier::external_body]
pub(crate) fn delete_text(tx: &mut rusqlite::Transaction<'_>, text: &str) -> (res: Result<
    usize,
    rusqlite::Error,
>)
    ensures
        res is Ok ==> begun(*final(tx)) == begun(*old(tx)),
        res is Ok ==> table(*final(tx)) == without_text(table(*old(tx)), text@),
        res matches Err(e) ==> refused(begun(*old(tx)).db, e),
{
    tx.execute("DELETE FROM entries WHERE kind = 'text' AND text = ?1", (text,))
}

/// Deletes every row that stores an image with these dimensions and hash.
#[verifier::external_body]
pub(crate) fn delete_image(
    tx: &mut rusqlite::Transaction<'_>,
    w: u32,
    h: u32,
    hash: i64,
) -> (res: Result<usize, rusqlite::Error>)
    ensures
        res is Ok ==> begun(*final(tx)) == begun(*old(tx)),
        res is Ok ==> table(*final(tx)) == without_image(table(*old(tx)), w, h, hash),
        res matches Err(e) ==> refused(begun(*old(tx)).db, e),
{
    tx.execute(
        "DELETE FROM entries WHERE kind = 'image' AND img_w = ?1 AND img_h = ?2 AND img_hash = ?3",
        (w, h, hash),
    )
}

/// Inserts a text row. SQLite gives a row of an `INTEGER PRIMARY KEY` table
/// the id one above the largest in use, or 1 in an empty table. Where the
/// largest possible id is in use it picks a free one at random; what the
/// table is then is left open here.
#[verifier::external_body]
pub(crate) fn insert_text(tx: &mut rusqlite::Transaction<'_>, ts: i64, text: &str) -> (res: Result<
    usize,
    rusqlite::Error,
>)
    ensures
        res is Ok ==> begun(*final(tx)) == begun(*old(tx)),
        res is Ok && has_room(table(*old(tx))) ==> table(*final(tx)) == seq![
            text_row(next_id(table(*old(tx))), ts, text@),
        ] + table(*old(tx)),
        res matches Err(e) ==> refused(begun(*old(tx)).db, e),
{
    tx.execute("INSERT INTO entries (ts, kind, text) VALUES (?1, 'text', ?2)", (ts, text))
}

/// Inserts an image row. The id is chosen as for a text row.
#[verifier::external_body]
pub(crate) fn insert_image(
    tx: &mut rusqlite::Transaction<'_>,
    ts: i64,
    png: &[u8],
    w: u32,
    h: u32,
    hash: i64,
) -> (res: Result<usize, rusqlite::Error>)
    ensures
        res is Ok ==> begun(*final(tx)) == begun(*old(tx)),
        res is Ok && has_room(table(*old(tx))) ==> table(*final(tx)) == seq![
            image_row(next_id(table(*old(tx))), ts, png@, w, h, hash),
        ] + table(*old(tx)),
        res matches Err(e) ==> refused(begun(*old(tx)).db, e),
{
    tx.execute(
        "INSERT INTO entries (ts, kind, img, img_w, img_h, img_hash)
         VALUES (?1, 'image', ?2, ?3, ?4, ?5)",
        (ts, png, w, h, hash),
    )
}

/// Deletes all rows but the `max` with the largest ids. SQLite takes a
/// negative offset for zero.
#[verifier::external_body]
pub(crate) fn delete_beyond(tx: &mut rusqlite::Transaction<'_>, max: i64) -> (res: Result<
    usize,
    rusqlite::Error,
>)
    requires
        max >= 0,
    ensures
        res is Ok ==> begun(*final(tx)) == begun(*old(tx)),
        res is Ok ==> table(*final(tx)) == capped(table(*old(tx)), max as nat),
        res matches Err(e) ==> refused(begun(*old(tx)).db, e),
{
    tx.execute(
        "DELETE FROM entries WHERE id IN (
            SELECT id FROM entries ORDER BY id DESC LIMIT -1 OFFSET ?1
        )",
        (max,),
    )
}

/// Deletes the row `id`.
#[verifier::external_body]
pub(crate) fn delete_row(tx: &mut rusqlite::Transaction<'_>, id: i64) -> (res: Result<
    usize,
    rusqlite::Error,
>)
    ensures
        res is Ok ==> begun(*final(tx)) == begun(*old(tx)),
        res is Ok ==> table(*final(tx)) == without_row(table(*old(tx)), id),
        res matches Err(e) ==> refused(begun(*old(tx)).db, e),
{
    tx.execute("DELETE FROM entries WHERE id = ?1", (id,))
}

/// Counts the rows.
#[verifier::external_body]
pub(crate) fn count_rows(tx: &rusqlite::Transaction<'_>) -> (res: Result<i64, rusqlite::Error>)
    ensures
        res matches Ok(n) ==> n == table(*tx).len(),
        res matches Err(e) ==> refused(begun(*tx).db, e),
{
    tx.query_row("SELECT count(*) FROM entries", [], |r| r.get(0))
}

/// Selects the blob of the row `id`; none if there is no such row. A cell
/// that is neither a blob nor NULL is an error.
#[verifier::external_body]
pub(crate) fn select_image(tx: &rusqlite::Transaction<'_>, id: i64) -> (res: Result<
    Option<Option<Vec<u8>>>,
    rusqlite::Error,
>)
    ensures
        res matches Ok(None) ==> row_with(table(*tx), id) is None,
        res matches Ok(Some(img)) ==> (row_with(table(*tx), id) matches Some(r) && r.img
            == opt_bytes(img)),
        res matches Err(e) ==> refused(begun(*tx).db, e),
{
    rusqlite::OptionalExtension::optional(
        tx.query_row("SELECT img FROM entries WHERE id = ?1", (id,), |r| r.get(0)),
    )
}

/// Selects the rows by descending id. Where stepping to a row fails, an error
/// stands in its place and nothing follows it.
#[verifier::external_body]
pub(crate) fn select_rows(tx: &rusqlite::Transaction<'_>) -> (res: Result<
    Vec<Result<FetchedRow, rusqlite::Error>>,
    rusqlite::Error,
>)
    ensures
        res matches Ok(rows) ==> {
            &&& forall|i: int|
                0 <= i < rows@.len() && (#[trigger] rows@[i]) is Ok ==> i < table(*tx).len()
                    && fetched(rows@[i].unwrap(), table(*tx)[i])
            &&& forall|i: int|
                0 <= i < rows@.len() && (#[trigger] rows@[i]) is Err ==> i == rows@.len() - 1
                    && listing_refused(begun(*tx).db, table(*tx), i, rows@[i]->Err_0)
            &&& rows@.len() == 0 || rows@.last() is Ok ==> rows@.len() == table(*tx).len()
        },
        res matches Err(e) ==> refused(begun(*tx).db, e),
{
    let mut stmt = tx.prepare(
        "SELECT id, ts, kind, text, img_w, img_h, length(img) FROM entries ORDER BY id DESC",
    )?;
    let rows = stmt.query_map([], |r| Ok(FetchedRow {
        id: r.get(0)?, ts: r.get(1).ok(), kind: r.get(2).ok(), text: r.get(3).ok(),
        img_w: r.get(4).ok(), img_h: r.get(5).ok(), img_len: r.get(6).ok(),
    }))?;
    Ok(rows.collect())
}

} // verus!
