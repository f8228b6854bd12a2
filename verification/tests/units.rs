use heartbeat::clock::Timestamp;
use heartbeat::config::resolve_token;
use heartbeat::record::HeartbeatRecord;
use heartbeat::view::build_page;

#[test]
fn environment_token_takes_precedence() {
    let r = resolve_token(Some("from-env".to_owned()), "from-file".to_owned());
    assert_eq!(r, "from-env");
}

#[test]
fn file_token_is_the_fallback() {
    let r = resolve_token(None, "from-file".to_owned());
    assert_eq!(r, "from-file");
}

#[test]
fn instant_order_is_seconds_then_nanos() {
    let a = Timestamp { secs: 10, nanos: 5 };
    let b = Timestamp { secs: 10, nanos: 6 };
    let c = Timestamp { secs: 11, nanos: 0 };
    assert!(a.lt(&b));
    assert!(b.lt(&c));
    assert!(!c.lt(&a));
    assert!(!a.lt(&a));
}

#[test]
fn page_of_no_records_is_the_bare_shell() {
    let page = build_page(&Vec::new()).unwrap();
    assert!(page.starts_with("<!doctype html>"));
    assert!(page.ends_with("</tbody></table></main></body></html>"));
    assert!(page.contains("<tbody></tbody>"));
}

#[test]
fn page_rows_follow_record_order() {
    let records = vec![
        HeartbeatRecord {
            time: Timestamp { secs: 86400, nanos: 0 },
            source: "s1".to_owned(),
            event: "e1".to_owned(),
            note: "n1".to_owned(),
        },
        HeartbeatRecord {
            time: Timestamp { secs: 0, nanos: 0 },
            source: "s2".to_owned(),
            event: "e2".to_owned(),
            note: "n2".to_owned(),
        },
    ];
    let page = build_page(&records).unwrap();
    assert!(page.contains(
        "<tr><td>1970-01-02 00:00</td><td>e1</td><td>s1</td><td>n1</td></tr>\
         <tr><td>1970-01-01 00:00</td><td>e2</td><td>s2</td><td>n2</td></tr>"
    ));
}
