//! The record shapes: the inbound report, the stored row as raw text, and the
//! heartbeat record with its parsed timestamp, each with its mathematical
//! model.

use vstd::prelude::*;

use crate::clock::Timestamp;
use crate::clock::parse_ts;

verus! {

/// Model of one stored row: the four text columns.
pub ghost struct RowModel {
    pub time: Seq<char>,
    pub source: Seq<char>,
    pub event: Seq<char>,
    pub note: Seq<char>,
}

/// Model of one heartbeat record: the parsed instant and the three text
/// fields.
pub ghost struct RecordModel {
    pub secs: int,
    pub nanos: int,
    pub source: Seq<char>,
    pub event: Seq<char>,
    pub note: Seq<char>,
}

/// One row as the table stores it: the timestamp still as RFC 3339 text.
pub struct RawRow {
    pub time: String,
    pub source: String,
    pub event: String,
    pub note: String,
}

impl View for RawRow {
    type V = RowModel;

    open spec fn view(&self) -> RowModel {
        RowModel { time: self.time@, source: self.source@, event: self.event@, note: self.note@ }
    }
}

/// One heartbeat record as the render path uses it: the server-assigned
/// instant and the three text fields.
pub struct HeartbeatRecord {
    pub time: Timestamp,
    pub source: String,
    pub event: String,
    pub note: String,
}

impl View for HeartbeatRecord {
    type V = RecordModel;

    open spec fn view(&self) -> RecordModel {
        RecordModel {
            secs: self.time.secs as int,
            nanos: self.time.nanos as int,
            source: self.source@,
            event: self.event@,
            note: self.note@,
        }
    }
}

/// An inbound report: three free-text fields and the authentication token,
/// which is never persisted.
pub struct HeartbeatReport {
    pub source: String,
    pub event: String,
    pub note: String,
    pub token: String,
}

/// Whether a stored row's timestamp text is valid RFC 3339.
pub open spec fn row_parses(r: RowModel) -> bool {
    parse_ts(r.time) is Some
}

/// The record a stored row denotes: its text parsed to an instant. Rows whose
/// text does not parse are mapped to the epoch; `row_parses` guards every use.
pub open spec fn record_of(r: RowModel) -> RecordModel {
    match parse_ts(r.time) {
        Some(p) => RecordModel {
            secs: p.0,
            nanos: p.1,
            source: r.source,
            event: r.event,
            note: r.note,
        },
        None => RecordModel { secs: 0, nanos: 0, source: r.source, event: r.event, note: r.note },
    }
}

/// Whether every row of a table parses.
pub open spec fn all_rows_parse(rows: Seq<RowModel>) -> bool {
    forall|i: int| 0 <= i < rows.len() ==> row_parses(#[trigger] rows[i])
}

/// The models of a sequence of raw rows.
pub open spec fn rows_model(s: Seq<RawRow>) -> Seq<RowModel> {
    s.map_values(|r: RawRow| r@)
}

/// The models of a sequence of heartbeat records.
pub open spec fn recs_model(s: Seq<HeartbeatRecord>) -> Seq<RecordModel> {
    s.map_values(|r: HeartbeatRecord| r@)
}

/// The records a table of rows denotes, row by row.
pub open spec fn records_of(rows: Seq<RowModel>) -> Seq<RecordModel> {
    rows.map_values(|m: RowModel| record_of(m))
}

} // verus!
