//! The request-handling surface: token-checked ingestion of reports and the
//! rendering of every stored record as an HTML page, newest first. Both
//! handlers return plain values; the HTTP boundary around them only maps
//! these to statuses and bodies.

use vstd::prelude::*;
use vstd::string::StringExecFns;

use crate::clock::Timestamp;
use crate::clock::displayable;
use crate::clock::format_minute;
use crate::clock::minute_display;
use crate::clock::parse_ts;
use crate::clock::rfc3339_of;
use crate::record::HeartbeatRecord;
use crate::record::HeartbeatReport;
use crate::record::RecordModel;
use crate::record::RowModel;
use crate::record::recs_model;
use crate::sort::sort_desc;
use crate::sort::sort_records;
use crate::store::Store;
use crate::store::scan_models;

verus! {

/// The two failure kinds: a rejected token, or a storage or rendering
/// failure. Each carries a human-readable message.
#[derive(Debug)]
pub enum AppError {
    Unauthorized(String),
    Server(String),
}

impl AppError {
    /// The carried message, for the HTTP boundary's error body.
    pub fn message(&self) -> (r: &String)
        ensures
            self matches AppError::Unauthorized(m) ==> r == m,
            self matches AppError::Server(m) ==> r == m,
    {
        match self {
            AppError::Unauthorized(m) => m,
            AppError::Server(m) => m,
        }
    }

    /// The HTTP status this failure maps to: a rejected token is 401, a
    /// server failure 500. The boundary only copies this number out.
    pub fn status_code(&self) -> (r: u16)
        ensures
            self is Unauthorized ==> r == 401,
            self is Server ==> r == 500,
    {
        match self {
            AppError::Unauthorized(_) => 401,
            AppError::Server(_) => 500,
        }
    }
}

/// The fixed page shell before the table rows.
pub open spec fn page_head() -> Seq<char> {
    "<!doctype html><html lang=en><head><meta charset=utf-8><title>Heartbeats</title></head><body><h1>Heartbeats</h1><main><table><thead><tr><th scope=col>Time [UTC]</th><th scope=col>Event</th><th scope=col>Source</th><th scope=col>Note</th></tr></thead><tbody>"@
}

/// The fixed page shell after the table rows.
pub open spec fn page_tail() -> Seq<char> {
    "</tbody></table></main></body></html>"@
}

/// One table row: the instant to minute granularity, then event, source and
/// note.
pub open spec fn row_html(r: RecordModel) -> Seq<char> {
    "<tr><td>"@ + minute_display(r.secs) + "</td><td>"@ + r.event + "</td><td>"@ + r.source
        + "</td><td>"@ + r.note + "</td></tr>"@
}

/// The table rows, in the records' order.
pub open spec fn rows_html(rs: Seq<RecordModel>) -> Seq<char>
    decreases rs.len(),
{
    if rs.len() == 0 {
        Seq::empty()
    } else {
        rows_html(rs.drop_last()) + row_html(rs.last())
    }
}

/// The whole page for a record sequence, in that order.
pub open spec fn page_html(rs: Seq<RecordModel>) -> Seq<char> {
    page_head() + rows_html(rs) + page_tail()
}

fn head_text() -> (r: &'static str)
    ensures
        r@ == page_head(),
{
    "<!doctype html><html lang=en><head><meta charset=utf-8><title>Heartbeats</title></head><body><h1>Heartbeats</h1><main><table><thead><tr><th scope=col>Time [UTC]</th><th scope=col>Event</th><th scope=col>Source</th><th scope=col>Note</th></tr></thead><tbody>"
}

fn tail_text() -> (r: &'static str)
    ensures
        r@ == page_tail(),
{
    "</tbody></table></main></body></html>"
}

/// Renders the given records, in their order, into the page. The output text
/// is a function of the records alone; a failure can come only of an instant
/// that cannot be formatted, and is a server error — so whenever every
/// record's instant is displayable (as every scanned record's is), the page
/// is owed. In particular, no records at all render to the bare shell.
pub fn build_page(records: &Vec<HeartbeatRecord>) -> (r: Result<String, AppError>)
    ensures
        r matches Ok(h) ==> h@ == page_html(recs_model(records@)),
        r matches Err(e) ==> e is Server,
        (forall|k: int|
            0 <= k < records@.len() ==> displayable(#[trigger] recs_model(records@)[k].secs))
            ==> r is Ok,
{
    let ghost models = recs_model(records@);
    let mut body = String::new();
    let mut i: usize = 0;
    while i < records.len()
        invariant
            0 <= i <= records@.len(),
            models == recs_model(records@),
            body@ == rows_html(models.subrange(0, i as int)),
        decreases records@.len() - i,
    {
        let rec = &records[i];
        let minute = match format_minute(rec.time.secs) {
            Some(m) => m,
            None => {
                proof {
                    assert(!displayable(recs_model(records@)[i as int].secs));
                }
                return Err(AppError::Server("timestamp out of range".to_owned()));
            },
        };
        body.append("<tr><td>");
        body.append(minute.as_str());
        body.append("</td><td>");
        body.append(rec.event.as_str());
        body.append("</td><td>");
        body.append(rec.source.as_str());
        body.append("</td><td>");
        body.append(rec.note.as_str());
        body.append("</td></tr>");
        proof {
            assert(models[i as int] == (records@[i as int])@);
            assert(body@ =~= rows_html(models.subrange(0, i as int)) + row_html(
                models[i as int],
            ));
            assert(models.subrange(0, i as int + 1).drop_last() =~= models.subrange(0, i as int));
            assert(models.subrange(0, i as int + 1).last() == models[i as int]);
            assert(body@ == rows_html(models.subrange(0, i as int + 1)));
        }
        i = i + 1;
    }
    proof {
        assert(models.subrange(0, models.len() as int) =~= models);
    }
    let mut page = String::from_str(head_text());
    page.append(body.as_str());
    page.append(tail_text());
    proof {
        assert(page@ =~= page_html(models));
    }
    Ok(page)
}

/// Ingestion: compares the report's token with the configured secret by exact
/// string equality. On mismatch nothing is stored and the rejection is
/// `Unauthorized`; on match the report is appended with a server-assigned UTC
/// instant, which is returned; a storage failure is a `Server` error and
/// stores nothing.
pub fn receive(store: &mut Store, secret: &String, report: &HeartbeatReport) -> (r: Result<
    Timestamp,
    AppError,
>)
    ensures
        r matches Ok(t) ==> report.token@ == secret@ && t.nanos < 1_000_000_000 && final (
        store).rows() == old(store).rows().push(
            RowModel {
                time: rfc3339_of(t.secs as int, t.nanos as int),
                source: report.source@,
                event: report.event@,
                note: report.note@,
            },
        ) && parse_ts(rfc3339_of(t.secs as int, t.nanos as int)) == Some(
            (t.secs as int, t.nanos as int),
        ),
        r matches Err(e) ==> final (store).rows() == old(store).rows() && ((e is Unauthorized)
            <==> report.token@ != secret@),
        r matches Err(AppError::Unauthorized(m)) ==> m@ == "invalid authentication token"@,
{
    if report.token == *secret {
        match store.append(report.source.as_str(), report.event.as_str(), report.note.as_str()) {
            Ok(t) => Ok(t),
            Err(e) => Err(AppError::Server(e)),
        }
    } else {
        Err(AppError::Unauthorized("invalid authentication token".to_owned()))
    }
}

/// Rendering: scans every stored record and renders the page, newest first.
/// On success the page is the rendering of some scan of the table, sorted;
/// any failure is a `Server` error.
pub fn render(store: &Store) -> (r: Result<String, AppError>)
    ensures
        r matches Ok(h) ==> exists|scanned: Seq<RecordModel>|
            #[trigger] scan_models(store.rows(), scanned) && h@ == page_html(sort_desc(scanned)),
        r matches Err(e) ==> e is Server,
{
    match store.scan_all() {
        Ok(mut records) => {
            let ghost scanned = recs_model(records@);
            sort_records(&mut records);
            match build_page(&records) {
                Ok(h) => {
                    proof {
                        assert(scan_models(store.rows(), scanned));
                        assert(h@ == page_html(sort_desc(scanned)));
                    }
                    Ok(h)
                },
                Err(e) => Err(e),
            }
        },
        Err(e) => Err(AppError::Server(e)),
    }
}

} // verus!
