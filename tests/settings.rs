use scriptorium::render::render_md;
use scriptorium::session::{Dialect, SyncError};
use scriptorium::settings::{acquire_timeout_secs, auto_sync_time, parse_u32};
use scriptorium::timestamp::Timestamp;
use scriptorium::types::ValueString;

fn rows(v: &[&str]) -> Vec<ValueString> {
    v.iter().map(|s| ValueString { value: s.to_string() }).collect()
}

#[test]
fn auto_sync_time_defaults_to_five() {
    assert_eq!(auto_sync_time(&rows(&[])), 5);
}

#[test]
fn auto_sync_time_reads_first_row() {
    assert_eq!(auto_sync_time(&rows(&["12", "30"])), 12);
    assert_eq!(auto_sync_time(&rows(&["0"])), 0);
}

#[test]
fn malformed_auto_sync_time_falls_back() {
    assert_eq!(auto_sync_time(&rows(&["soon"])), 5);
    assert_eq!(auto_sync_time(&rows(&["-3"])), 5);
    assert_eq!(auto_sync_time(&rows(&[""])), 5);
    assert_eq!(auto_sync_time(&rows(&["4294967296"])), 5);
}

#[test]
fn parse_u32_edges() {
    assert_eq!(parse_u32("4294967295"), Some(u32::MAX));
    assert_eq!(parse_u32("+7"), Some(7));
    assert_eq!(parse_u32("007"), Some(7));
    assert_eq!(parse_u32("+"), None);
    assert_eq!(parse_u32("1 "), None);
    assert_eq!(parse_u32("99999999999999999999"), None);
}

#[test]
fn acquire_timeout_is_one_less_and_positive() {
    assert_eq!(acquire_timeout_secs(5), 4);
    assert_eq!(acquire_timeout_secs(2), 1);
    assert_eq!(acquire_timeout_secs(1), 1);
    assert_eq!(acquire_timeout_secs(0), 1);
}

#[test]
fn dialects_by_name() {
    assert_eq!(Dialect::from_db_type("mysql"), Some(Dialect::MySql));
    assert_eq!(Dialect::from_db_type("postgresql"), Some(Dialect::Postgres));
    assert_eq!(Dialect::from_db_type("postgres"), None);
    assert_eq!(Dialect::from_db_type("MySQL"), None);
}

#[test]
fn error_messages() {
    assert_eq!(SyncError::UnrecognizedDialect("x".to_string()).message(), "Unrecognized database type: \"x\"");
    assert_eq!(
        SyncError::UnrecognizedDialect("a\"b".to_string()).message(),
        "Unrecognized database type: \"a\\\"b\""
    );
    assert_eq!(
        SyncError::UnrecognizedDialect("c:\\db\n".to_string()).message(),
        "Unrecognized database type: \"c:\\\\db\\n\""
    );
    assert_eq!(
        SyncError::UnrecognizedDialect("a\"b".to_string()).message(),
        format!("Unrecognized database type: {:?}", "a\"b")
    );
    assert_eq!(SyncError::Connect("refused".to_string()).message(), "refused");
    assert_eq!(SyncError::Query("bad".to_string()).message(), "bad");
}

#[test]
fn timestamps_from_rfc3339() {
    assert_eq!(Timestamp::parse_rfc3339("2024-01-01T00:00:00Z"), Some(Timestamp::from_micros(1_704_067_200_000_000)));
    assert_eq!(Timestamp::parse_rfc3339("1970-01-01T00:00:01.5+00:00"), Some(Timestamp::from_micros(1_500_000)));
    assert_eq!(Timestamp::parse_rfc3339("2024-01-01T01:00:00+01:00"), Some(Timestamp::from_micros(1_704_067_200_000_000)));
    assert_eq!(Timestamp::parse_rfc3339("yesterday"), None);
    let a = Timestamp::parse_rfc3339("2024-01-02T00:00:00Z").unwrap();
    let b = Timestamp::parse_rfc3339("2024-01-01T23:59:59Z").unwrap();
    assert!(a.is_after(&b));
    assert!(!b.is_after(&a));
    assert!(!a.is_after(&a));
}

#[test]
fn markdown_renders_to_html() {
    assert_eq!(render_md("# Hi"), "<h1>Hi</h1>\n");
    assert_eq!(render_md("~~x~~"), "<p><del>x</del></p>\n");
    assert_eq!(render_md(""), "");
}
