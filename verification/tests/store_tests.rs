use run_tracker::state::WorkflowState;
use run_tracker::store::{StepFields, Store};

fn empty_fields() -> StepFields {
    StepFields { started_date: None, end_date: None, site: None, checksum: None, location: None }
}

#[test]
fn create_run_assigns_sequential_numbers() {
    let mut store = Store::new();
    let first = store.create_run(0, 1704067200, WorkflowState::NotYetStarted, None).unwrap();
    let second = store.create_run(3, 1704067201, WorkflowState::Complete, None).unwrap();
    assert_eq!(first, 1);
    assert_eq!(second, 2);
}

#[test]
fn create_run_creates_exactly_two_empty_steps() {
    let mut store = Store::new();
    let n = store.create_run(0, 1704067200, WorkflowState::NotYetStarted, None).unwrap();
    assert_eq!(n, 1);
    let details = store.get_run_with_steps(1).unwrap();
    assert_eq!(details.run.run_number, 1);
    assert_eq!(details.run.file_number, 0);
    assert!(details.run.state == WorkflowState::NotYetStarted);
    assert_eq!(details.steps.len(), 2);
    assert_eq!(details.steps[0].step_number, 1);
    assert_eq!(details.steps[1].step_number, 2);
    for step in &details.steps {
        assert_eq!(step.run_number, 1);
        assert!(step.started_date.is_none());
        assert!(step.end_date.is_none());
        assert!(step.site.is_none());
        assert!(step.checksum.is_none());
        assert!(step.location.is_none());
        assert_eq!(step.id.len(), 36);
    }
}

#[test]
fn get_run_finds_only_existing_runs() {
    let mut store = Store::new();
    store.create_run(0, 10, WorkflowState::NotYetStarted, None).unwrap();
    assert!(store.get_run(1).is_some());
    assert!(store.get_run(2).is_none());
    assert!(store.get_run_with_steps(2).is_none());
}

#[test]
fn list_runs_orders_by_start_date_descending() {
    let mut store = Store::new();
    store.create_run(0, 100, WorkflowState::NotYetStarted, None).unwrap();
    store.create_run(0, 300, WorkflowState::NotYetStarted, None).unwrap();
    store.create_run(0, 200, WorkflowState::NotYetStarted, None).unwrap();
    let runs = store.list_runs();
    assert_eq!(runs.len(), 3);
    assert_eq!(runs[0].run_start_date, 300);
    assert_eq!(runs[1].run_start_date, 200);
    assert_eq!(runs[2].run_start_date, 100);
}

#[test]
fn update_run_state_reports_missing_runs() {
    let mut store = Store::new();
    store.create_run(0, 10, WorkflowState::NotYetStarted, None).unwrap();
    assert!(store.update_run_state(1, WorkflowState::ProcessStep1));
    assert!(store.get_run(1).unwrap().state == WorkflowState::ProcessStep1);
    assert!(!store.update_run_state(7, WorkflowState::ProcessStep1));
}

#[test]
fn update_step_applies_partial_updates() {
    let mut store = Store::new();
    store.create_run(0, 10, WorkflowState::NotYetStarted, None).unwrap();
    let fields = StepFields {
        started_date: Some(123),
        end_date: None,
        site: Some(String::from("south pole")),
        checksum: None,
        location: None,
    };
    assert!(store.update_step(1, 1, &fields));
    let details = store.get_run_with_steps(1).unwrap();
    assert_eq!(details.steps[0].started_date, Some(123));
    assert_eq!(details.steps[0].site.as_deref(), Some("south pole"));
    assert!(details.steps[0].end_date.is_none());
    assert!(details.steps[0].checksum.is_none());
    // The other step is untouched.
    assert!(details.steps[1].started_date.is_none());
    assert!(details.steps[1].site.is_none());
}

#[test]
fn update_step_with_all_fields_absent_changes_nothing() {
    let mut store = Store::new();
    store.create_run(0, 10, WorkflowState::NotYetStarted, None).unwrap();
    let fields = StepFields {
        started_date: Some(5),
        end_date: Some(9),
        site: Some(String::from("lab")),
        checksum: Some(String::from("abc123")),
        location: Some(String::from("tape")),
    };
    assert!(store.update_step(1, 2, &fields));
    assert!(store.update_step(1, 2, &empty_fields()));
    let details = store.get_run_with_steps(1).unwrap();
    assert_eq!(details.steps[1].started_date, Some(5));
    assert_eq!(details.steps[1].end_date, Some(9));
    assert_eq!(details.steps[1].site.as_deref(), Some("lab"));
    assert_eq!(details.steps[1].checksum.as_deref(), Some("abc123"));
    assert_eq!(details.steps[1].location.as_deref(), Some("tape"));
}

#[test]
fn update_step_rejects_bad_addresses() {
    let mut store = Store::new();
    store.create_run(0, 10, WorkflowState::NotYetStarted, None).unwrap();
    assert!(!store.update_step(1, 3, &empty_fields()));
    assert!(!store.update_step(1, 0, &empty_fields()));
    assert!(!store.update_step(2, 1, &empty_fields()));
}
