//! The usage-history ledger: a durable table of (identity, timestamp) facts
//! kept in an SQLite database, queried for a per-identity count.
//!
//! The ledger's contents are modelled as a multiset of (identity, timestamp)
//! pairs. Every write appends one fact and then prunes every fact older
//! than the thirty-day retention window; a count never errors, it degrades
//! to zero when the store does. The table deliberately has no uniqueness
//! constraint on the identity column: the count of a frequently chosen
//! identity is the number of its facts inside the window, so repeated
//! selections must insert repeated rows.
//!
//! The embedding program decides where the database file lives and passes
//! the clock in as an argument; nothing here reads the machine's time.
use vstd::multiset::Multiset;
use vstd::prelude::*;

verus! {

/// Facts older than this many seconds are pruned on every write.
pub const RETENTION_SECONDS: i64 = 60 * 60 * 24 * 30;

#[verifier::external_type_specification]
#[verifier::external_body]
pub struct ExConnection(rusqlite::Connection);

/// The (identity, timestamp) facts the history table of this connection
/// holds.
pub uninterp spec fn db_rows(db: rusqlite::Connection) -> Multiset<(Seq<char>, int)>;

/// Relies on rusqlite::Connection::open_in_memory and Connection::execute:
/// a fresh in-memory database is empty, and creating the history table adds
/// no row to it.
#[verifier::external_body]
fn open_memory_db() -> (r: Result<rusqlite::Connection, ()>)
    ensures
        r is Ok ==> db_rows(r->Ok_0) == Multiset::<(Seq<char>, int)>::empty(),
{
    let conn = rusqlite::Connection::open_in_memory().map_err(|_| ())?;
    match conn.execute(
        "CREATE TABLE IF NOT EXISTS history (id TEXT NOT NULL, timestamp INTEGER NOT NULL)",
        [],
    ) {
        Ok(_) => Ok(conn),
        Err(_) => Err(()),
    }
}

/// Relies on rusqlite::Connection::open and Connection::execute: opening a
/// database file and making sure the history table exists. What the file
/// already held is unknown, so nothing is promised of the rows.
#[verifier::external_body]
fn open_path_db(path: &str) -> (r: Result<rusqlite::Connection, ()>)
{
    let conn = rusqlite::Connection::open(path).map_err(|_| ())?;
    match conn.execute(
        "CREATE TABLE IF NOT EXISTS history (id TEXT NOT NULL, timestamp INTEGER NOT NULL)",
        [],
    ) {
        Ok(_) => Ok(conn),
        Err(_) => Err(()),
    }
}

/// Relies on rusqlite::Connection::execute: a single INSERT adds exactly the
/// given row, and a failed statement changes nothing.
#[verifier::external_body]
fn insert_fact(db: &mut rusqlite::Connection, id: &str, ts: i64) -> (r: Result<(), ()>)
    ensures
        r is Ok ==> db_rows(*final(db)) == db_rows(*old(db)).insert((id@, ts as int)),
        r is Err ==> db_rows(*final(db)) == db_rows(*old(db)),
{
    match db.execute("INSERT INTO history (id, timestamp) VALUES (?1, ?2)", (id, ts)) {
        Ok(_) => Ok(()),
        Err(_) => Err(()),
    }
}

/// Relies on rusqlite::Connection::execute: DELETE with a timestamp bound
/// removes exactly the rows older than the bound, and a failed statement
/// changes nothing.
#[verifier::external_body]
fn delete_older_than(db: &mut rusqlite::Connection, cutoff: i64) -> (r: Result<(), ()>)
    ensures
        r is Ok ==> db_rows(*final(db)) == db_rows(*old(db)).filter(ts_at_least(cutoff as int)),
        r is Err ==> db_rows(*final(db)) == db_rows(*old(db)),
{
    match db.execute("DELETE FROM history WHERE timestamp < ?1", (cutoff,)) {
        Ok(_) => Ok(()),
        Err(_) => Err(()),
    }
}

/// Relies on rusqlite::Connection::query_row: SELECT COUNT over an identity
/// returns the number of rows holding that identity.
#[verifier::external_body]
fn count_rows_for(db: &rusqlite::Connection, id: &str) -> (r: Result<i64, ()>)
    ensures
        r is Ok ==> r->Ok_0 == db_rows(*db).filter(id_pred(id@)).len(),
{
    db.query_row("SELECT COUNT(1) FROM history WHERE id = ?1", (id,), |row| row.get(0)).map_err(
        |_| (),
    )
}

/// Relies on rusqlite::Connection::cache_flush: forcing dirty pages to disk
/// reads and changes no row.
#[verifier::external_body]
fn flush_db(db: &rusqlite::Connection) -> (r: Result<(), ()>) {
    db.cache_flush().map_err(|_| ())
}

/// Relies on rusqlite::Connection::close releasing the handle.
#[verifier::external_body]
fn close_db(db: rusqlite::Connection) {
    let _ = db.close();
}

/// The facts whose identity is `id`.
pub open spec fn id_pred(id: Seq<char>) -> spec_fn((Seq<char>, int)) -> bool {
    |row: (Seq<char>, int)| row.0 == id
}

/// The facts no older than `cutoff`.
pub open spec fn ts_at_least(cutoff: int) -> spec_fn((Seq<char>, int)) -> bool {
    |row: (Seq<char>, int)| row.1 >= cutoff
}

/// The number of facts for `id` among `rows`.
pub open spec fn id_count(rows: Multiset<(Seq<char>, int)>, id: Seq<char>) -> int {
    rows.filter(id_pred(id)).len() as int
}

/// What one recorded selection does to the ledger: add the fact, then prune
/// everything older than the retention window.
pub open spec fn record_spec(
    rows: Multiset<(Seq<char>, int)>,
    id: Seq<char>,
    now: int,
) -> Multiset<(Seq<char>, int)> {
    rows.insert((id, now)).filter(ts_at_least(now - RETENTION_SECONDS))
}

/// The usage-history ledger.
pub struct History {
    db: rusqlite::Connection,
}

impl History {
    /// The facts the ledger currently holds.
    pub closed spec fn rows(&self) -> Multiset<(Seq<char>, int)> {
        db_rows(self.db)
    }

    /// Open the ledger stored in the database file at `path`, creating the
    /// table if the file is new. What the file already held stays.
    pub fn new(path: &str) -> (r: Result<History, ()>) {
        match open_path_db(path) {
            Ok(db) => Ok(History { db }),
            Err(_) => Err(()),
        }
    }

    /// An empty ledger that lives only as long as the process.
    pub fn new_in_memory() -> (r: Result<History, ()>)
        ensures
            r is Ok ==> r->Ok_0.rows() == Multiset::<(Seq<char>, int)>::empty(),
    {
        match open_memory_db() {
            Ok(db) => Ok(History { db }),
            Err(_) => Err(()),
        }
    }

    /// Close the ledger.
    pub fn deinit(self) {
        close_db(self.db);
    }

    /// Delete every fact older than the retention window, counted back from
    /// `now`.
    pub fn prune_old(&mut self, now: i64) -> (r: Result<(), ()>)
        requires
            i64::MIN + RETENTION_SECONDS <= now,
        ensures
            r is Ok ==> final(self).rows() == old(self).rows().filter(
                ts_at_least(now - RETENTION_SECONDS),
            ),
            r is Err ==> final(self).rows() == old(self).rows(),
    {
        let cutoff = now - RETENTION_SECONDS;
        delete_older_than(&mut self.db, cutoff)
    }

    /// Record that the item with identity `id` was chosen at time `now`:
    /// append the fact, prune aged facts, and force the write durable. On an
    /// error the ledger holds either what it held before or at most the
    /// freshly appended fact on top of it.
    pub fn add(&mut self, id: &str, now: i64) -> (r: Result<(), ()>)
        requires
            i64::MIN + RETENTION_SECONDS <= now,
        ensures
            r is Ok ==> final(self).rows() == record_spec(old(self).rows(), id@, now as int),
            r is Err ==> final(self).rows() == old(self).rows() || final(self).rows() == old(
                self,
            ).rows().insert((id@, now as int)),
    {
        insert_fact(&mut self.db, id, now)?;
        self.prune_old(now)?;
        let _ = flush_db(&self.db);
        Ok(())
    }

    /// The number of non-pruned facts for `id`: the count itself when the
    /// store answers (saturated to `u32::MAX`), and zero when it errors.
    pub fn get(&self, id: &str) -> (c: u32)
        ensures
            c as int == id_count(self.rows(), id@) || (c == u32::MAX && id_count(self.rows(), id@)
                > u32::MAX) || c == 0,
    {
        match count_rows_for(&self.db, id) {
            Ok(n) => {
                if n < 0 {
                    0
                } else if n > u32::MAX as i64 {
                    u32::MAX
                } else {
                    n as u32
                }
            },
            Err(_) => 0,
        }
    }
}

/// Recording a selection makes its count positive: right after `record(id)`,
/// `count(id)` is at least one.
pub proof fn lemma_record_then_count(rows: Multiset<(Seq<char>, int)>, id: Seq<char>, now: int)
    ensures
        id_count(record_spec(rows, id, now), id) >= 1,
{
    broadcast use vstd::multiset::group_multiset_axioms;

    let recorded = record_spec(rows, id, now);
    let fact = (id, now);
    assert(ts_at_least(now - RETENTION_SECONDS)(fact));
    assert(id_pred(id)(fact));
    assert(rows.insert(fact).count(fact) >= 1);
    assert(recorded.count(fact) == rows.insert(fact).count(fact));
    let for_id = recorded.filter(id_pred(id));
    assert(for_id.count(fact) == recorded.count(fact));
    assert(for_id.count(fact) <= for_id.len());
}

/// Pruning is the only decay: a fact inside the retention window survives a
/// recording, so a count within the window never shrinks when something else
/// is recorded.
pub proof fn lemma_count_monotone_within_window(
    rows: Multiset<(Seq<char>, int)>,
    id: Seq<char>,
    other: Seq<char>,
    now: int,
)
    requires
        forall|row: (Seq<char>, int)| rows.count(row) > 0 ==> row.1 >= now - RETENTION_SECONDS,
    ensures
        id_count(record_spec(rows, other, now), id) >= id_count(rows, id),
{
    broadcast use vstd::multiset::group_multiset_axioms;

    let recorded = record_spec(rows, other, now);
    let p = id_pred(id);
    let w = ts_at_least(now - RETENTION_SECONDS);
    let a = rows.filter(p);
    let b = recorded.filter(p);
    assert forall|row: (Seq<char>, int)| #[trigger] a.count(row) <= b.count(row) by {
        if a.count(row) > 0 {
            assert(rows.count(row) > 0);
            assert(w(row));
            assert(rows.insert((other, now)).count(row) >= rows.count(row));
            assert(recorded.count(row) >= rows.count(row));
        }
    }
    assert(b =~= a.add(b.sub(a)));
    assert(a.subset_of(b));
    assert(b.len() == a.len() + b.sub(a).len());
}

} // verus!
