use run_tracker::date::{date_timestamp, parse_run_date, Date};

#[test]
fn parses_valid_dates() {
    assert_eq!(parse_run_date("2024-01-01"), Some(Date { year: 2024, month: 1, day: 1 }));
    assert_eq!(parse_run_date("1970-01-01"), Some(Date { year: 1970, month: 1, day: 1 }));
    assert_eq!(parse_run_date("2024-02-29"), Some(Date { year: 2024, month: 2, day: 29 }));
    assert_eq!(parse_run_date("2000-02-29"), Some(Date { year: 2000, month: 2, day: 29 }));
    assert_eq!(parse_run_date("9999-12-31"), Some(Date { year: 9999, month: 12, day: 31 }));
}

#[test]
fn rejects_invalid_dates() {
    assert_eq!(parse_run_date("2023-02-29"), None);
    assert_eq!(parse_run_date("1900-02-29"), None);
    assert_eq!(parse_run_date("2024-13-01"), None);
    assert_eq!(parse_run_date("2024-00-10"), None);
    assert_eq!(parse_run_date("2024-04-31"), None);
    assert_eq!(parse_run_date("0000-01-01"), None);
}

#[test]
fn rejects_malformed_strings() {
    assert_eq!(parse_run_date(""), None);
    assert_eq!(parse_run_date("2024-1-1"), None);
    assert_eq!(parse_run_date("01-01-2024"), None);
    assert_eq!(parse_run_date("2024/01/01"), None);
    assert_eq!(parse_run_date("2024-01-01T00:00:00"), None);
    assert_eq!(parse_run_date("abcd-ef-gh"), None);
}

#[test]
fn timestamps_match_the_epoch() {
    assert_eq!(date_timestamp(&Date { year: 1970, month: 1, day: 1 }), 0);
    assert_eq!(date_timestamp(&Date { year: 2024, month: 1, day: 1 }), 1704067200);
    assert_eq!(date_timestamp(&Date { year: 2000, month: 2, day: 29 }), 951782400);
    assert_eq!(date_timestamp(&Date { year: 1969, month: 12, day: 31 }), -86400);
}
