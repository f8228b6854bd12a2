use heartbeat::record::HeartbeatReport;
use heartbeat::store::Store;
use heartbeat::view::{receive, render, AppError};

fn fresh_store() -> Store {
    let conn = rusqlite::Connection::open_in_memory().unwrap();
    conn.execute(
        "CREATE TABLE IF NOT EXISTS record (
            id INTEGER PRIMARY KEY,
            time TEXT,
            source TEXT,
            event TEXT,
            note TEXT
        )",
        (),
    )
    .unwrap();
    Store::from_connection(conn)
}

fn store_with_rows(rows: &[(&str, &str, &str, &str)]) -> Store {
    let conn = rusqlite::Connection::open_in_memory().unwrap();
    conn.execute(
        "CREATE TABLE IF NOT EXISTS record (
            id INTEGER PRIMARY KEY,
            time TEXT,
            source TEXT,
            event TEXT,
            note TEXT
        )",
        (),
    )
    .unwrap();
    for (time, source, event, note) in rows {
        conn.execute(
            "INSERT INTO record (time, source, event, note) VALUES (?1, ?2, ?3, ?4)",
            (time, source, event, note),
        )
        .unwrap();
    }
    Store::from_connection(conn)
}

fn report(source: &str, event: &str, note: &str, token: &str) -> HeartbeatReport {
    HeartbeatReport {
        source: source.to_owned(),
        event: event.to_owned(),
        note: note.to_owned(),
        token: token.to_owned(),
    }
}

#[test]
fn accepted_report_is_scanned_back() {
    let mut store = fresh_store();
    let secret = String::from("token-123");
    let before = chrono::Utc::now().timestamp();
    let t = receive(&mut store, &secret, &report("sensor-1", "up", "note a", "token-123"))
        .expect("valid token must be accepted");
    let after = chrono::Utc::now().timestamp();
    assert!(before <= t.secs && t.secs <= after);
    let records = store.scan_all().unwrap();
    assert_eq!(records.len(), 1);
    assert_eq!(records[0].source, "sensor-1");
    assert_eq!(records[0].event, "up");
    assert_eq!(records[0].note, "note a");
    assert!(before <= records[0].time.secs && records[0].time.secs <= after);
}

#[test]
fn wrong_token_adds_no_row() {
    let mut store = fresh_store();
    let secret = String::from("token-123");
    receive(&mut store, &secret, &report("sensor-1", "up", "", "token-123")).unwrap();
    let count_before = store.scan_all().unwrap().len();
    let r = receive(&mut store, &secret, &report("sensor-2", "down", "", "bad-token"));
    match r {
        Err(AppError::Unauthorized(_)) => {}
        _ => panic!("wrong token must be rejected as unauthorized"),
    }
    let count_after = store.scan_all().unwrap().len();
    assert_eq!(count_before, count_after);
}

#[test]
fn render_is_idempotent() {
    let mut store = fresh_store();
    let secret = String::from("token-123");
    receive(&mut store, &secret, &report("sensor-1", "up", "x", "token-123")).unwrap();
    receive(&mut store, &secret, &report("sensor-2", "down", "y", "token-123")).unwrap();
    let first = render(&store).unwrap();
    let second = render(&store).unwrap();
    assert_eq!(first, second);
}

#[test]
fn increasing_timestamps_render_newest_first() {
    let store = store_with_rows(&[
        ("2021-01-01T00:00:00+00:00", "a", "e1", "n1"),
        ("2021-01-02T00:00:00+00:00", "b", "e2", "n2"),
        ("2021-01-03T00:00:00+00:00", "c", "e3", "n3"),
    ]);
    let mut records = store.scan_all().unwrap();
    heartbeat::sort::sort_records(&mut records);
    assert_eq!(records.len(), 3);
    assert!(records[0].time.secs > records[1].time.secs);
    assert!(records[1].time.secs > records[2].time.secs);
    assert_eq!(records[0].source, "c");
    assert_eq!(records[2].source, "a");
    let page = render(&store).unwrap();
    let p3 = page.find("2021-01-03 00:00").unwrap();
    let p2 = page.find("2021-01-02 00:00").unwrap();
    let p1 = page.find("2021-01-01 00:00").unwrap();
    assert!(p3 < p2 && p2 < p1);
}

#[test]
fn stored_timestamp_round_trips() {
    let mut store = fresh_store();
    let secret = String::from("token-123");
    let t = receive(&mut store, &secret, &report("s", "e", "n", "token-123")).unwrap();
    let records = store.scan_all().unwrap();
    assert_eq!(records.len(), 1);
    assert_eq!(records[0].time.secs, t.secs);
    assert_eq!(records[0].time.nanos, t.nanos);
}

#[test]
fn single_heartbeat_scenario() {
    let mut store = fresh_store();
    let secret = String::from("token-123");
    receive(&mut store, &secret, &report("sensor-1", "up", "", "token-123"))
        .expect("valid submission must succeed");
    let r = receive(&mut store, &secret, &report("sensor-1", "up", "", "wrong"));
    assert!(matches!(r, Err(AppError::Unauthorized(_))));
    assert_eq!(store.scan_all().unwrap().len(), 1);
    let page = render(&store).unwrap();
    assert_eq!(page.matches("<tr><td>").count(), 1);
    assert!(page.contains("</td><td>up</td><td>sensor-1</td><td></td></tr>"));
}

#[test]
fn empty_table_renders_empty_body() {
    let store = fresh_store();
    let records = store.scan_all().unwrap();
    assert_eq!(records.len(), 0);
    let page = render(&store).unwrap();
    assert!(page.contains("<tbody></tbody>"));
    assert!(!page.contains("<tr><td>"));
}

#[test]
fn missing_table_is_a_server_error() {
    let conn = rusqlite::Connection::open_in_memory().unwrap();
    let mut store = Store::from_connection(conn);
    let secret = String::from("token-123");
    let r = receive(&mut store, &secret, &report("s", "e", "n", "token-123"));
    assert!(matches!(r, Err(AppError::Server(_))));
}

#[test]
fn malformed_stored_timestamp_fails_the_scan() {
    let store = store_with_rows(&[("not-a-timestamp", "s", "e", "n")]);
    assert!(store.scan_all().is_err());
    assert!(matches!(render(&store), Err(AppError::Server(_))));
}

#[test]
fn known_instant_renders_to_the_minute() {
    let store = store_with_rows(&[("2021-05-15T12:34:56.789+00:00", "s", "boot", "n")]);
    let records = store.scan_all().unwrap();
    let parsed = chrono::DateTime::parse_from_rfc3339("2021-05-15T12:34:56.789+00:00").unwrap();
    assert_eq!(records[0].time.secs, parsed.timestamp());
    assert_eq!(records[0].time.nanos, parsed.timestamp_subsec_nanos());
    let page = render(&store).unwrap();
    assert!(page.contains("<tr><td>2021-05-15 12:34</td><td>boot</td><td>s</td><td>n</td></tr>"));
}

#[test]
fn stored_text_is_rfc3339() {
    let mut store = fresh_store();
    let secret = String::from("token-123");
    let t = receive(&mut store, &secret, &report("s", "e", "n", "token-123")).unwrap();
    // The page shows the assigned instant formatted to the minute, so the
    // stored text cannot merely have been echoed from the inputs.
    let expected = chrono::DateTime::<chrono::Utc>::from_timestamp(t.secs, 0)
        .unwrap()
        .format("%Y-%m-%d %H:%M")
        .to_string();
    let page = render(&store).unwrap();
    assert!(page.contains(&expected));
}
