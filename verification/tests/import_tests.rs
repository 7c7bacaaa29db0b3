use run_tracker::import::{import_record, import_records, should_seed, EventRecord};
use run_tracker::state::WorkflowState;
use run_tracker::store::Store;

fn record(title: &str, date: &str, status: &str, url: &str) -> EventRecord {
    EventRecord {
        title: String::from(title),
        date: String::from(date),
        status: String::from(status),
        url: String::from(url),
        description: String::new(),
    }
}

#[test]
fn non_numeric_title_is_skipped_and_creates_no_run() {
    let mut store = Store::new();
    let imported = import_record(&mut store, &record("Run A", "2024-01-01", "Complete", "u"));
    assert!(!imported);
    assert_eq!(store.list_runs().len(), 0);
    let report = import_records(
        &mut store,
        &vec![record("not a number", "2024-01-01", "Complete", "u")],
    );
    assert_eq!(report.total, 1);
    assert_eq!(report.imported, 0);
    assert_eq!(report.skipped, 1);
    assert_eq!(store.list_runs().len(), 0);
}

#[test]
fn bad_date_is_skipped() {
    let mut store = Store::new();
    let imported = import_record(&mut store, &record("17", "2024-02-30", "Complete", "u"));
    assert!(!imported);
    assert_eq!(store.list_runs().len(), 0);
}

#[test]
fn valid_record_is_imported_with_two_steps() {
    let mut store = Store::new();
    let imported = import_record(
        &mut store,
        &record("17", "2024-01-01", "Process Step 1", "http://example/17"),
    );
    assert!(imported);
    let details = store.get_run_with_steps(17).unwrap();
    assert_eq!(details.run.run_number, 17);
    assert_eq!(details.run.file_number, 0);
    assert_eq!(details.run.run_start_date, 1704067200);
    assert!(details.run.state == WorkflowState::ProcessStep1);
    assert_eq!(details.run.url.as_deref(), Some("http://example/17"));
    assert_eq!(details.steps.len(), 2);
    assert_eq!(details.steps[0].step_number, 1);
    assert_eq!(details.steps[1].step_number, 2);
}

#[test]
fn unknown_status_imports_as_not_yet_started() {
    let mut store = Store::new();
    assert!(import_record(&mut store, &record("3", "2024-01-01", "who knows", "u")));
    assert!(store.get_run(3).unwrap().state == WorkflowState::NotYetStarted);
}

#[test]
fn shared_run_number_upserts_without_duplicating_steps() {
    let mut store = Store::new();
    let report = import_records(
        &mut store,
        &vec![
            record("5", "2024-01-01", "Process Step 1", "http://first"),
            record("5", "2024-06-01", "Complete", "http://second"),
        ],
    );
    assert_eq!(report.total, 2);
    assert_eq!(report.imported, 2);
    assert_eq!(report.skipped, 0);
    let runs = store.list_runs();
    assert_eq!(runs.len(), 1);
    let details = store.get_run_with_steps(5).unwrap();
    // The second record's state and url win.
    assert!(details.run.state == WorkflowState::Complete);
    assert_eq!(details.run.url.as_deref(), Some("http://second"));
    // Only state and url are overwritten: the start date is the first's.
    assert_eq!(details.run.run_start_date, 1704067200);
    // Step rows are not duplicated: still exactly two.
    assert_eq!(details.steps.len(), 2);
    assert_eq!(details.steps[0].step_number, 1);
    assert_eq!(details.steps[1].step_number, 2);
}

#[test]
fn batch_counts_account_for_every_record() {
    let mut store = Store::new();
    let report = import_records(
        &mut store,
        &vec![
            record("1", "2024-01-01", "Complete", "a"),
            record("x", "2024-01-01", "Complete", "b"),
            record("2", "bad date", "Complete", "c"),
            record("3", "2024-01-02", "Finish Step 2", "d"),
        ],
    );
    assert_eq!(report.total, 4);
    assert_eq!(report.imported, 2);
    assert_eq!(report.skipped, 2);
    assert_eq!(store.list_runs().len(), 2);
}

#[test]
fn import_keeps_created_numbers_fresh() {
    let mut store = Store::new();
    assert!(import_record(&mut store, &record("41", "2024-01-01", "Complete", "u")));
    let fresh = store.create_run(0, 0, WorkflowState::NotYetStarted, None).unwrap();
    assert_eq!(fresh, 42);
}

#[test]
fn seeding_only_runs_on_an_empty_store() {
    assert!(should_seed(0));
    assert!(!should_seed(5));
}
