use vstd::prelude::*;

use crate::entry::ClipboardEntry;
use crate::entry::StoredEntry;
use crate::render::render_entries;
use crate::render::rendered_line;
use crate::select::select_recent;
use crate::select::sorted_desc;

verus! {

#[verifier::external_type_specification]
#[verifier::external_body]
pub struct ExConnection(rusqlite::Connection);

#[verifier::external_type_specification]
#[verifier::external_body]
pub struct ExError(rusqlite::Error);

/// Relies on rusqlite::Connection::open: opens, creating it if absent, the
/// database file at `path`. Whether it succeeds depends on the disk, so
/// nothing is promised of the outcome.
#[verifier::external_body]
fn open_connection(path: &str) -> Result<rusqlite::Connection, rusqlite::Error> {
    rusqlite::Connection::open(path)
}

/// Relies on rusqlite::Connection::open_in_memory: opens a fresh database
/// that lives in memory only, with no rows in it.
#[verifier::external_body]
fn open_memory_connection() -> Result<rusqlite::Connection, rusqlite::Error> {
    rusqlite::Connection::open_in_memory()
}

/// Relies on rusqlite::Connection::execute: runs one SQL statement with the
/// given textual parameters; `Ok(n)` carries the engine's count of rows
/// changed by the statement. What the statement does depends on the database
/// file, so nothing is promised of the outcome.
#[verifier::external_body]
fn execute_sql(
    conn: &rusqlite::Connection,
    sql: &str,
    params: &Vec<String>,
) -> Result<usize, rusqlite::Error> {
    conn.execute(sql, rusqlite::params_from_iter(params.iter()))
}

/// Relies on rusqlite::Connection::prepare and rusqlite::Statement::query_map:
/// runs one SELECT of (id, date, time, content) rows and hands the yielded
/// row outcomes over one for one, in the order the engine yields them, a
/// decoded row as `Some` and a row that failed to decode as `None`; after a
/// failed row the engine yields no further rows, so the collection ends
/// there. The rows come from the database file, so nothing is promised of
/// their values.
#[verifier::external_body]
fn fetch_row_outcomes(conn: &rusqlite::Connection, sql: &str) -> Result<
    Vec<Option<StoredEntry>>,
    rusqlite::Error,
> {
    let mut statement = conn.prepare(sql)?;
    let rows = statement.query_map([], |row| {
        Ok(StoredEntry { id: row.get(0)?, date: row.get(1)?, time: row.get(2)?, content: row.get(3)? })
    })?;
    let mut out = Vec::new();
    for row in rows {
        match row { Ok(entry) => out.push(Some(entry)), Err(_) => { out.push(None); return Ok(out) } }
    }
    Ok(out)
}

/// How many rows decoded before the first decode failure: the length of the
/// longest prefix of decoded rows.
pub open spec fn decoded_prefix_len(s: Seq<Option<StoredEntry>>) -> int
    decreases s.len(),
{
    if s.len() == 0 || s[0] is None {
        0
    } else {
        1 + decoded_prefix_len(s.drop_first())
    }
}

/// A row-decode failure aborts the remaining sequence: keep exactly the rows
/// that stand before the first failure, in order, and say whether every row
/// decoded.
pub fn take_decoded_prefix(rows: Vec<Option<StoredEntry>>) -> (r: (Vec<StoredEntry>, bool))
    ensures
        r.0@.len() == decoded_prefix_len(rows@),
        forall|i: int| 0 <= i < r.0@.len() ==> rows@[i] == Some((#[trigger] r.0@[i])),
        r.1 == (decoded_prefix_len(rows@) == rows@.len()),
{
    let mut remaining = rows;
    let mut out: Vec<StoredEntry> = Vec::new();
    proof {
        assert(rows@.skip(0) =~= rows@);
    }
    while remaining.len() > 0
        invariant
            out@.len() + remaining@.len() == rows@.len(),
            remaining@ == rows@.skip(out@.len() as int),
            forall|i: int| 0 <= i < out@.len() ==> rows@[i] == Some((#[trigger] out@[i])),
            decoded_prefix_len(rows@) == out@.len() + decoded_prefix_len(remaining@),
        decreases remaining.len(),
    {
        let ghost before = remaining@;
        let head = remaining.remove(0);
        proof {
            assert(remaining@ =~= before.drop_first());
        }
        match head {
            Some(entry) => {
                out.push(entry);
                proof {
                    assert(remaining@ =~= rows@.skip(out@.len() as int));
                }
            },
            None => {
                proof {
                    assert(decoded_prefix_len(before) == 0);
                }
                return (out, false);
            },
        }
    }
    proof {
        assert(decoded_prefix_len(remaining@) == 0);
    }
    (out, true)
}

/// Ensure the single `clipboard` table exists on an open connection. The
/// statement creates the table only if it is absent, so running this again
/// on a database that already has the table leaves its rows as they are.
pub fn ensure_schema(conn: &rusqlite::Connection) -> Result<(), rusqlite::Error> {
    let params: Vec<String> = Vec::new();
    match execute_sql(
        conn,
        "CREATE TABLE IF NOT EXISTS clipboard ( id INTEGER PRIMARY KEY, date TEXT NOT NULL, time TEXT NOT NULL, content TEXT NOT NULL )",
        &params,
    ) {
        Ok(_) => Ok(()),
        Err(e) => Err(e),
    }
}

/// Open, creating it if absent, the database file at `path`, and make sure
/// its schema is in place. Either failure is handed back for the caller to
/// treat as fatal.
pub fn init_database(db_path: &str) -> Result<rusqlite::Connection, rusqlite::Error> {
    let conn = match open_connection(db_path) {
        Ok(c) => c,
        Err(e) => return Err(e),
    };
    match ensure_schema(&conn) {
        Ok(_) => Ok(conn),
        Err(e) => Err(e),
    }
}

/// Open a fresh store that lives in memory only, with its schema in place
/// and no rows: the same store as `init_database` gives, at no fixed path.
pub fn init_database_in_memory() -> Result<rusqlite::Connection, rusqlite::Error> {
    let conn = match open_memory_connection() {
        Ok(c) => c,
        Err(e) => return Err(e),
    };
    match ensure_schema(&conn) {
        Ok(_) => Ok(conn),
        Err(e) => Err(e),
    }
}

/// Insert one captured entry as a new row; the engine assigns the next id.
/// A database-level failure is handed back for the caller to log and
/// otherwise ignore.
pub fn store_entry(conn: &rusqlite::Connection, entry: ClipboardEntry) -> Result<
    (),
    rusqlite::Error,
> {
    let mut params: Vec<String> = Vec::new();
    params.push(entry.date);
    params.push(entry.time);
    params.push(entry.content);
    match execute_sql(
        conn,
        "INSERT INTO clipboard ( date, time, content ) VALUES (?1, ?2, ?3)",
        &params,
    ) {
        Ok(_) => Ok(()),
        Err(e) => Err(e),
    }
}

/// Delete every row and report how many rows were deleted.
pub fn clear_database(conn: &rusqlite::Connection) -> Result<usize, rusqlite::Error> {
    let params: Vec<String> = Vec::new();
    execute_sql(conn, "DELETE FROM clipboard", &params)
}

/// Read back the `amount` most recent rows, most recent first; an `amount`
/// of zero reads them all. Whatever rows the database holds, the rows handed
/// back stand in descending id order, there are at most `amount` of them
/// when `amount` is positive, and every row handed back has an id at least
/// as large as every row read but left out. The flag says whether every row
/// decoded; rows after the first decode failure are left out.
pub fn query_recent(conn: &rusqlite::Connection, amount: usize) -> (r: Result<
    (Vec<StoredEntry>, bool),
    rusqlite::Error,
>)
    ensures
        r matches Ok(q) ==> {
            &&& sorted_desc(q.0@)
            &&& amount > 0 ==> q.0@.len() <= amount
            &&& exists|full: Seq<StoredEntry>|
                {
                    &&& sorted_desc(full)
                    &&& q.0@ == if amount == 0 || full.len() <= amount {
                        full
                    } else {
                        full.take(amount as int)
                    }
                }
        },
{
    let outcomes = match fetch_row_outcomes(
        conn,
        "SELECT id, date, time, content FROM clipboard ORDER BY id DESC",
    ) {
        Ok(f) => f,
        Err(e) => return Err(e),
    };
    let (rows, complete) = take_decoded_prefix(outcomes);
    let ghost fetched_rows = rows@;
    let selected = select_recent(rows, amount);
    proof {
        let full = choose|f: Seq<StoredEntry>|
            {
                &&& f.to_multiset() == fetched_rows.to_multiset()
                &&& sorted_desc(f)
                &&& selected@ == if amount == 0 || f.len() <= amount {
                    f
                } else {
                    f.take(amount as int)
                }
            };
        assert(exists|f: Seq<StoredEntry>|
            {
                &&& sorted_desc(f)
                &&& selected@ == if amount == 0 || f.len() <= amount {
                    f
                } else {
                    f.take(amount as int)
                }
            }) by {
            assert({
                &&& sorted_desc(full)
                &&& selected@ == if amount == 0 || full.len() <= amount {
                    full
                } else {
                    full.take(amount as int)
                }
            });
        }
    }
    Ok((selected, complete))
}

/// The lister's reading half: query the `amount` most recent rows and render
/// each as its output line, honoring the hide flags. Whatever rows the
/// database holds, the lines handed back render some descending-id list of
/// rows, at most `amount` of them when `amount` is positive, one line per
/// row in order. The flag says whether every row decoded.
pub fn list_recent(
    conn: &rusqlite::Connection,
    hide_time: bool,
    hide_date: bool,
    amount: usize,
) -> (r: Result<(Vec<String>, bool), rusqlite::Error>)
    ensures
        r matches Ok(q) ==> exists|entries: Seq<StoredEntry>|
            {
                &&& sorted_desc(entries)
                &&& amount > 0 ==> entries.len() <= amount
                &&& q.0@.len() == entries.len()
                &&& forall|i: int|
                    0 <= i < entries.len() ==> (#[trigger] q.0@[i])@ == rendered_line(
                        entries[i]@,
                        hide_time,
                        hide_date,
                    )
            },
{
    let queried = match query_recent(conn, amount) {
        Ok(q) => q,
        Err(e) => return Err(e),
    };
    let (entries, complete) = queried;
    let lines = render_entries(&entries, hide_time, hide_date);
    proof {
        assert(exists|es: Seq<StoredEntry>|
            {
                &&& sorted_desc(es)
                &&& amount > 0 ==> es.len() <= amount
                &&& lines@.len() == es.len()
                &&& forall|i: int|
                    0 <= i < es.len() ==> (#[trigger] lines@[i])@ == rendered_line(
                        es[i]@,
                        hide_time,
                        hide_date,
                    )
            }) by {
            assert({
                &&& sorted_desc(entries@)
                &&& amount > 0 ==> entries@.len() <= amount
                &&& lines@.len() == entries@.len()
                &&& forall|i: int|
                    0 <= i < entries@.len() ==> (#[trigger] lines@[i])@ == rendered_line(
                        entries@[i]@,
                        hide_time,
                        hide_date,
                    )
            });
        }
    }
    Ok((lines, complete))
}

} // verus!
