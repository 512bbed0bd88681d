//! The event store: a persistent table of completion records keyed by
//! (event id, calendar id), held in an embedded SQL database. Its contents
//! are modeled as the set of keys present; a row's presence means "done".
//! Inserting is idempotent (the key is the table's primary key and the
//! insert ignores duplicates) and deleting a missing record is a no-op.

use vstd::prelude::*;

use crate::errors::StorageError;
use crate::event::{views, Event, EventView};

verus! {

#[verifier::external_type_specification]
#[verifier::external_body]
pub struct ExConnection(rusqlite::Connection);

#[verifier::external_type_specification]
#[verifier::external_body]
pub struct ExSqlError(rusqlite::Error);

/// The completion table of a database connection, modeled as the set of
/// (event id, calendar id) pairs that have a row.
pub uninterp spec fn table_of(conn: rusqlite::Connection) -> Set<(Seq<char>, Seq<char>)>;

/// Relies on rusqlite::Connection::open_in_memory: a fresh in-memory
/// database holds no tables and no rows, so no completion records.
#[verifier::external_body]
fn open_in_memory_conn() -> (r: Result<rusqlite::Connection, rusqlite::Error>)
    ensures
        r is Ok ==> table_of(r->Ok_0) == Set::<(Seq<char>, Seq<char>)>::empty(),
{
    rusqlite::Connection::open_in_memory()
}

/// Relies on rusqlite::Connection::open: it opens a database file whose
/// completion table holds finitely many rows (possibly none yet).
#[verifier::external_body]
fn open_file_conn(path: &str) -> (r: Result<rusqlite::Connection, rusqlite::Error>)
    ensures
        r is Ok ==> table_of(r->Ok_0).finite(),
{
    rusqlite::Connection::open(path)
}

/// Relies on rusqlite::Connection::execute with CREATE TABLE IF NOT EXISTS:
/// it never adds, removes or rewrites a row, so the recorded completions
/// are unchanged whether the table existed or was just created empty.
#[verifier::external_body]
fn create_table(conn: &mut rusqlite::Connection) -> (r: Result<(), rusqlite::Error>)
    ensures
        table_of(*final(conn)) == table_of(*old(conn)),
{
    let r = conn.execute(
        "CREATE TABLE IF NOT EXISTS done (
            event_id TEXT NOT NULL,
            calendar_id TEXT NOT NULL,
            timestamp INTEGER NOT NULL,
            PRIMARY KEY (event_id, calendar_id))",
        (),
    );
    match r {
        Ok(_) => Ok(()),
        Err(e) => Err(e),
    }
}

/// Relies on rusqlite::Connection::execute with INSERT OR IGNORE into the
/// completion table: on success the key's row exists (inserted once, or
/// already there and left alone); on failure nothing changed, since a
/// single statement runs in its own implicit transaction and rolls back.
#[verifier::external_body]
fn insert_done(
    conn: &mut rusqlite::Connection,
    event_id: &str,
    calendar_id: &str,
    stamp: i64,
) -> (r: Result<(), rusqlite::Error>)
    ensures
        r is Ok ==> table_of(*final(conn)) == table_of(*old(conn)).insert(
            (event_id@, calendar_id@),
        ),
        r is Err ==> table_of(*final(conn)) == table_of(*old(conn)),
{
    let r = conn.execute(
        "INSERT OR IGNORE INTO done (event_id, calendar_id, timestamp) VALUES (?1, ?2, ?3)",
        (event_id, calendar_id, stamp),
    );
    match r {
        Ok(_) => Ok(()),
        Err(e) => Err(e),
    }
}

/// Relies on rusqlite::Connection::execute with DELETE on the key: on
/// success the key's row is gone (deleting a missing row succeeds and is a
/// no-op); on failure nothing changed, as for the insert.
#[verifier::external_body]
fn delete_done(
    conn: &mut rusqlite::Connection,
    event_id: &str,
    calendar_id: &str,
) -> (r: Result<(), rusqlite::Error>)
    ensures
        r is Ok ==> table_of(*final(conn)) == table_of(*old(conn)).remove(
            (event_id@, calendar_id@),
        ),
        r is Err ==> table_of(*final(conn)) == table_of(*old(conn)),
{
    let r = conn.execute(
        "DELETE FROM done WHERE event_id = ?1 AND calendar_id = ?2",
        (event_id, calendar_id),
    );
    match r {
        Ok(_) => Ok(()),
        Err(e) => Err(e),
    }
}

/// Relies on rusqlite::Connection::prepare and Statement::query_map over
/// SELECT event_id, calendar_id: the rows handed back are exactly the
/// completion table's rows, pairwise distinct by its primary key.
#[verifier::external_body]
fn select_done_keys(conn: &rusqlite::Connection) -> (r: Result<
    Vec<(String, String)>,
    rusqlite::Error,
>)
    ensures
        r is Ok ==> r->Ok_0@.map_values(|p: (String, String)| (p.0@, p.1@)).to_set() == table_of(
            *conn,
        ),
        r is Ok ==> r->Ok_0@.map_values(|p: (String, String)| (p.0@, p.1@)).no_duplicates(),
{
    let mut stmt = conn.prepare("SELECT event_id, calendar_id FROM done")?;
    let rows = stmt.query_map((), |row| Ok((row.get(0)?, row.get(1)?)))?;
    let mut out = Vec::new();
    for row in rows {
        out.push(row?);
    }
    Ok(out)
}

/// Relies on rusqlite::Connection::query_row over SELECT COUNT(*): the
/// completion table holds one row per recorded key.
#[verifier::external_body]
fn count_done_rows(conn: &rusqlite::Connection) -> (r: Result<i64, rusqlite::Error>)
    ensures
        r is Ok ==> r->Ok_0 == table_of(*conn).len(),
{
    conn.query_row("SELECT COUNT(*) FROM done", (), |row| row.get(0))
}

/// The rows of a key query as mathematical values: each string pair as
/// its pair of character sequences.
pub open spec fn key_views(s: Seq<(String, String)>) -> Seq<(Seq<char>, Seq<char>)> {
    s.map_values(|p: (String, String)| (p.0@, p.1@))
}

/// Persistent completion records. The view is the set of (event id,
/// calendar id) pairs currently marked done.
pub struct EventStore {
    conn: rusqlite::Connection,
}

impl View for EventStore {
    type V = Set<(Seq<char>, Seq<char>)>;

    closed spec fn view(&self) -> Set<(Seq<char>, Seq<char>)> {
        table_of(self.conn)
    }
}

impl EventStore {
    /// A store is well formed when its record set is finite (a table's
    /// always is; this keeps counting meaningful).
    pub open spec fn wf(&self) -> bool {
        self@.finite()
    }

    /// Opens a fresh in-memory store: no completion records.
    pub fn open_in_memory() -> (r: Result<EventStore, StorageError>)
        ensures
            r is Ok ==> r->Ok_0@ == Set::<(Seq<char>, Seq<char>)>::empty(),
            r is Ok ==> r->Ok_0.wf(),
    {
        match open_in_memory_conn() {
            Ok(mut conn) => match create_table(&mut conn) {
                Ok(()) => Ok(EventStore { conn }),
                Err(_) => Err(StorageError),
            },
            Err(_) => Err(StorageError),
        }
    }

    /// Opens (creating the table if needed) the store in the database file
    /// at `path`. Whatever records the file already held are kept.
    pub fn open_at(path: &str) -> (r: Result<EventStore, StorageError>)
        ensures
            r is Ok ==> r->Ok_0.wf(),
    {
        match open_file_conn(path) {
            Ok(mut conn) => match create_table(&mut conn) {
                Ok(()) => Ok(EventStore { conn }),
                Err(_) => Err(StorageError),
            },
            Err(_) => Err(StorageError),
        }
    }

    /// Records that the event is done, at clock second `stamp`. Idempotent:
    /// a duplicate call succeeds silently and the record set is the same as
    /// after one call. On a storage failure nothing changed.
    pub fn record_done(&mut self, event_id: &str, calendar_id: &str, stamp: i64) -> (r: Result<
        (),
        StorageError,
    >)
        requires
            old(self).wf(),
        ensures
            final(self).wf(),
            r is Ok ==> final(self)@ == old(self)@.insert((event_id@, calendar_id@)),
            r is Err ==> final(self)@ == old(self)@,
    {
        match insert_done(&mut self.conn, event_id, calendar_id, stamp) {
            Ok(()) => Ok(()),
            Err(_) => Err(StorageError),
        }
    }

    /// Deletes the event's completion record (a hard delete; the "was
    /// done" history is not retained). Idempotent: deleting a record that
    /// was never created succeeds silently and changes nothing. On a
    /// storage failure nothing changed.
    pub fn record_undone(&mut self, event_id: &str, calendar_id: &str) -> (r: Result<
        (),
        StorageError,
    >)
        requires
            old(self).wf(),
        ensures
            final(self).wf(),
            r is Ok ==> final(self)@ == old(self)@.remove((event_id@, calendar_id@)),
            r is Err ==> final(self)@ == old(self)@,
    {
        match delete_done(&mut self.conn, event_id, calendar_id) {
            Ok(()) => Ok(()),
            Err(_) => Err(StorageError),
        }
    }

    /// How many completion records exist.
    pub fn count_done(&self) -> (r: Result<u64, StorageError>)
        requires
            self.wf(),
        ensures
            r is Ok ==> r->Ok_0 == self@.len(),
    {
        match count_done_rows(&self.conn) {
            Ok(n) => {
                if n >= 0 {
                    Ok(n as u64)
                } else {
                    Err(StorageError)
                }
            },
            Err(_) => Err(StorageError),
        }
    }

    /// The events of `events` with no completion record, in input order:
    /// the pending ones. One query reads the record set (no per-event
    /// lookups, so no read skew across the scan).
    pub fn filter_pending(&self, events: &Vec<Event>) -> (r: Result<Vec<Event>, StorageError>)
        ensures
            r is Ok ==> views(r->Ok_0@) == views(events@).filter(pending_pred(self@)),
    {
        let done = match select_done_keys(&self.conn) {
            Ok(d) => d,
            Err(_) => {
                return Err(StorageError);
            },
        };
        let ghost done_set = self@;
        proof {
            assert(key_views(done@).to_set() == done_set);
        }
        let mut out: Vec<Event> = Vec::new();
        let mut i: usize = 0;
        while i < events.len()
            invariant
                i <= events@.len(),
                key_views(done@).to_set() == done_set,
                views(out@) == views(events@.take(i as int)).filter(pending_pred(done_set)),
            decreases events@.len() - i,
        {
            let ev = &events[i];
            let is_done = key_in_list(&done, &ev.key.event_id, &ev.key.calendar_id);
            proof {
                lemma_views_take_push(events@, i as int);
                lemma_filter_one(
                    views(events@.take(i as int)),
                    events@[i as int]@,
                    pending_pred(done_set),
                );
            }
            if !is_done {
                out.push(ev.clone());
            }
            i = i + 1;
        }
        proof {
            assert(events@.take(events@.len() as int) =~= events@);
        }
        Ok(out)
    }
}

/// Pending means: no completion record for the event's key.
pub open spec fn pending_pred(done: Set<(Seq<char>, Seq<char>)>) -> spec_fn(EventView) -> bool {
    |ev: EventView| !done.contains(ev.key)
}

/// Whether `(event_id, calendar_id)` occurs in `list`.
fn key_in_list(list: &Vec<(String, String)>, event_id: &String, calendar_id: &String) -> (r: bool)
    ensures
        r == key_views(list@).to_set().contains((event_id@, calendar_id@)),
{
    let mut i: usize = 0;
    while i < list.len()
        invariant
            i <= list@.len(),
            forall|j: int| 0 <= j < i ==> key_views(list@)[j] != (event_id@, calendar_id@),
        decreases list@.len() - i,
    {
        if list[i].0 == *event_id && list[i].1 == *calendar_id {
            proof {
                assert(key_views(list@)[i as int] == (event_id@, calendar_id@));
                assert(key_views(list@).to_set().contains((event_id@, calendar_id@))) by {
                    assert(key_views(list@).contains((event_id@, calendar_id@)));
                }
            }
            return true;
        }
        proof {
            assert(key_views(list@)[i as int].0 == list@[i as int].0@);
            assert(key_views(list@)[i as int].1 == list@[i as int].1@);
            if key_views(list@)[i as int] == (event_id@, calendar_id@) {
                assert(list@[i as int].0@ == event_id@);
                assert(list@[i as int].1@ == calendar_id@);
                assert(false);
            }
        }
        i = i + 1;
    }
    proof {
        if key_views(list@).to_set().contains((event_id@, calendar_id@)) {
            assert(key_views(list@).contains((event_id@, calendar_id@)));
        }
    }
    false
}

/// Filtering a sequence extended by one element appends that element
/// exactly when it satisfies the predicate.
pub proof fn lemma_filter_one(s: Seq<EventView>, x: EventView, pred: spec_fn(EventView) -> bool)
    ensures
        s.push(x).filter(pred) == if pred(x) {
            s.filter(pred).push(x)
        } else {
            s.filter(pred)
        },
{
    reveal_with_fuel(Seq::filter, 2);
    assert(s.push(x).drop_last() =~= s);
    if pred(x) {
        assert(s.push(x).filter(pred) =~= s.filter(pred).push(x));
    } else {
        assert(s.push(x).filter(pred) =~= s.filter(pred));
    }
}

/// The views of one more event extend the views taken so far.
pub proof fn lemma_views_take_push(s: Seq<Event>, i: int)
    requires
        0 <= i < s.len(),
    ensures
        views(s.take(i + 1)) == views(s.take(i)).push(s[i]@),
{
    assert(views(s.take(i + 1)) =~= views(s.take(i)).push(s[i]@));
}

/// Marking done twice leaves exactly what one marking leaves: recording a
/// completion is idempotent.
pub proof fn lemma_record_done_idempotent(
    done: Set<(Seq<char>, Seq<char>)>,
    key: (Seq<char>, Seq<char>),
)
    ensures
        done.insert(key).insert(key) == done.insert(key),
{
    assert(done.insert(key).insert(key) =~= done.insert(key));
}

/// Marking a never-completed event not-done changes nothing: the delete
/// is a no-op, not an error.
pub proof fn lemma_record_undone_absent(
    done: Set<(Seq<char>, Seq<char>)>,
    key: (Seq<char>, Seq<char>),
)
    requires
        !done.contains(key),
    ensures
        done.remove(key) == done,
{
    assert(done.remove(key) =~= done);
}

/// Mark-done then mark-undone restores the pending classification: the
/// key is absent again afterwards, and for an event that was pending
/// before, the record set itself is restored.
pub proof fn lemma_done_undone_roundtrip(
    done: Set<(Seq<char>, Seq<char>)>,
    key: (Seq<char>, Seq<char>),
)
    ensures
        !done.insert(key).remove(key).contains(key),
        !done.contains(key) ==> done.insert(key).remove(key) == done,
{
    if !done.contains(key) {
        assert(done.insert(key).remove(key) =~= done);
    }
}

} // verus!
