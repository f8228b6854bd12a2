//! The record store: an append-only SQLite table of heartbeat rows behind a
//! single connection. The two statements the store runs — a single-row INSERT
//! and a full SELECT — stand behind trusted wrappers whose contracts speak of
//! the table's contents; everything around them is verified.

use vstd::prelude::*;

use crate::clock::Timestamp;
use crate::clock::format_rfc3339;
use crate::clock::now_parts;
use crate::clock::parse_rfc3339;
use crate::clock::parse_ts;
use crate::clock::rfc3339_of;
use crate::record::HeartbeatRecord;
use crate::record::RawRow;
use crate::record::RecordModel;
use crate::record::RowModel;
use crate::record::all_rows_parse;
use crate::record::record_of;
use crate::record::records_of;
use crate::record::recs_model;
use crate::record::row_parses;
use crate::record::rows_model;

verus! {

#[verifier::external_type_specification]
#[verifier::external_body]
pub struct ExConnection(rusqlite::Connection);

/// The rows of the record table behind a connection, in insertion order.
pub uninterp spec fn table_of(c: rusqlite::Connection) -> Seq<RowModel>;

/// Relates a store's table to a scan's output: some ordering of the table, in
/// which every row parses, maps row by row to the output records. The order is
/// existential because the database chooses the order of an unordered SELECT.
pub open spec fn scan_models(rows: Seq<RowModel>, out: Seq<RecordModel>) -> bool {
    exists|perm: Seq<RowModel>|
        #[trigger] perm.to_multiset() == rows.to_multiset() && all_rows_parse(perm) && out
            == records_of(perm)
}

/// Durable append-only storage for heartbeat records. Owns the connection
/// exclusively; the table is created at startup before the store is built.
pub struct Store {
    conn: rusqlite::Connection,
}

impl Store {
    /// The rows of the record table, in insertion order.
    pub closed spec fn rows(self) -> Seq<RowModel> {
        table_of(self.conn)
    }

    /// Wraps an open connection whose record table already exists.
    pub fn from_connection(conn: rusqlite::Connection) -> (s: Store)
        ensures
            s.rows() == table_of(conn),
    {
        Store { conn }
    }

    /// Relies on `rusqlite::Connection::execute` running a single-row INSERT:
    /// on success the statement appends exactly the given row to the table; a
    /// failed statement leaves the table as it was.
    #[verifier::external_body]
    fn insert_row(&mut self, time: &str, source: &str, event: &str, note: &str) -> (r: Result<
        (),
        String,
    >)
        ensures
            r is Ok ==> table_of(final (self).conn) == table_of(old(self).conn).push(
                RowModel { time: time@, source: source@, event: event@, note: note@ },
            ),
            r is Err ==> table_of(final (self).conn) == table_of(old(self).conn),
    {
        match self.conn.execute(
            "INSERT INTO record (time, source, event, note) VALUES (?1, ?2, ?3, ?4)",
            (time, source, event, note),
        ) {
            Ok(_) => Ok(()),
            Err(e) => Err(e.to_string()),
        }
    }

    /// Relies on `rusqlite::Connection::prepare` and `Statement::query_map`
    /// over `SELECT time, source, event, note FROM record`: the query yields
    /// every row of the table exactly once, each as its four text columns; the
    /// order is the database's choice.
    #[verifier::external_body]
    fn select_rows(&self) -> (r: Result<Vec<RawRow>, String>)
        ensures
            r matches Ok(v) ==> rows_model(v@).to_multiset() == table_of(self.conn).to_multiset(),
    {
        let run = || -> rusqlite::Result<Vec<RawRow>> {
            let mut stmt = self.conn.prepare("SELECT time, source, event, note FROM record")?;
            let rows = stmt.query_map(
                [],
                |r| Ok(
                    RawRow { time: r.get(0)?, source: r.get(1)?, event: r.get(2)?, note: r.get(3)? },
                ),
            )?;
            rows.collect()
        };
        run().map_err(|e| e.to_string())
    }

    /// Appends one heartbeat: assigns the current UTC instant, formats it as
    /// RFC 3339 and inserts the row. On success the table has gained exactly
    /// that row and the stored text parses back to the returned instant; on
    /// failure the table is unchanged.
    pub fn append(&mut self, source: &str, event: &str, note: &str) -> (r: Result<
        Timestamp,
        String,
    >)
        ensures
            r matches Ok(t) ==> t.nanos < 1_000_000_000 && final (self).rows() == old(
                self,
            ).rows().push(
                RowModel {
                    time: rfc3339_of(t.secs as int, t.nanos as int),
                    source: source@,
                    event: event@,
                    note: note@,
                },
            ) && parse_ts(rfc3339_of(t.secs as int, t.nanos as int)) == Some(
                (t.secs as int, t.nanos as int),
            ),
            r is Err ==> final (self).rows() == old(self).rows(),
    {
        let (secs, nanos) = now_parts();
        if secs > 253_402_300_799 {
            // Past the last instant whose RFC 3339 text has a four-digit
            // year: refuse rather than store text a scan cannot read back.
            return Err("timestamp out of range".to_owned());
        }
        match format_rfc3339(secs, nanos) {
            Some(time_text) => match self.insert_row(time_text.as_str(), source, event, note) {
                Ok(()) => Ok(Timestamp { secs, nanos }),
                Err(e) => Err(e),
            },
            None => Err("timestamp out of range".to_owned()),
        }
    }

    /// Reads every stored row and parses each timestamp. On success the output
    /// models the table's contents; a malformed stored timestamp is a
    /// corruption condition and fails the whole scan.
    pub fn scan_all(&self) -> (r: Result<Vec<HeartbeatRecord>, String>)
        ensures
            r matches Ok(v) ==> scan_models(self.rows(), recs_model(v@)) && (forall|k: int|
                0 <= k < v@.len() ==> crate::clock::displayable(
                    #[trigger] recs_model(v@)[k].secs,
                )),
    {
        match self.select_rows() {
            Ok(raw) => {
                let ghost raw_models = rows_model(raw@);
                let r = parse_records(raw);
                proof {
                    if r is Ok {
                        let out = recs_model(r->Ok_0@);
                        assert(raw_models.to_multiset() == self.rows().to_multiset());
                        assert(out == records_of(raw_models));
                    }
                }
                r
            },
            Err(e) => Err(e),
        }
    }
}

/// Turns raw rows into heartbeat records, in order: succeeds exactly when
/// every row's timestamp text is valid RFC 3339, and then maps each row to its
/// record.
pub fn parse_records(raw: Vec<RawRow>) -> (r: Result<Vec<HeartbeatRecord>, String>)
    ensures
        r matches Ok(v) ==> all_rows_parse(rows_model(raw@)) && recs_model(v@) == records_of(
            rows_model(raw@),
        ) && (forall|k: int|
            0 <= k < v@.len() ==> crate::clock::displayable(#[trigger] recs_model(v@)[k].secs)),
        r is Err ==> !all_rows_parse(rows_model(raw@)),
{
    let ghost models = rows_model(raw@);
    let mut out: Vec<HeartbeatRecord> = Vec::new();
    let mut i: usize = 0;
    while i < raw.len()
        invariant
            0 <= i <= raw.len(),
            models == rows_model(raw@),
            forall|k: int| 0 <= k < i ==> row_parses(#[trigger] models[k]),
            recs_model(out@) == records_of(models.subrange(0, i as int)),
            forall|k: int|
                0 <= k < out@.len() ==> crate::clock::displayable(
                    #[trigger] recs_model(out@)[k].secs,
                ),
        decreases raw.len() - i,
    {
        let row = &raw[i];
        proof {
            assert(models[i as int] == raw@[i as int]@);
        }
        match parse_rfc3339(row.time.as_str()) {
            Some((secs, nanos)) => {
                let rec = HeartbeatRecord {
                    time: Timestamp { secs, nanos },
                    source: row.source.clone(),
                    event: row.event.clone(),
                    note: row.note.clone(),
                };
                proof {
                    assert(parse_ts(models[i as int].time) == Some((secs as int, nanos as int)));
                    assert(rec@ == record_of(models[i as int]));
                }
                let ghost prev = out@;
                let ghost grec = rec@;
                out.push(rec);
                proof {
                    assert(recs_model(out@) =~= recs_model(prev).push(grec));
                    assert(records_of(models.subrange(0, i as int + 1)) =~= records_of(
                        models.subrange(0, i as int),
                    ).push(record_of(models[i as int])));
                    assert(recs_model(out@) == records_of(models.subrange(0, i as int + 1)));
                }
            },
            None => {
                proof {
                    assert(!row_parses(models[i as int]));
                    assert(!all_rows_parse(models));
                }
                return Err("malformed stored timestamp".to_owned());
            },
        }
        i = i + 1;
    }
    proof {
        assert(models.subrange(0, raw.len() as int) =~= models);
    }
    Ok(out)
}

} // verus!
