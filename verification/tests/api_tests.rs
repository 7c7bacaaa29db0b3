use run_tracker::api::{
    check_login, handle_create_run, handle_update_run_state, handle_update_step, is_authorized,
    CreateRunRequest, CreateRunResponse, UpdateRunStateResponse, UpdateStepResponse,
};
use run_tracker::state::WorkflowState;
use run_tracker::store::{StepFields, Store};

fn session() -> Option<String> {
    Some(String::from("admin_authorized"))
}

fn create_request(state: &str) -> CreateRunRequest {
    CreateRunRequest {
        file_number: 0,
        run_start_date: 1704067200,
        state: String::from(state),
        url: None,
    }
}

#[test]
fn guard_accepts_only_the_exact_credential() {
    assert!(is_authorized(&session()));
    assert!(!is_authorized(&None));
    assert!(!is_authorized(&Some(String::from("admin"))));
    assert!(!is_authorized(&Some(String::from("admin_authorized "))));
}

#[test]
fn login_issues_the_session_value_only_on_the_right_password() {
    let admin = String::from("hunter2");
    let granted = check_login(&String::from("hunter2"), &admin);
    assert_eq!(granted.as_deref(), Some("admin_authorized"));
    assert!(check_login(&String::from("wrong"), &admin).is_none());
    assert!(check_login(&String::new(), &admin).is_none());
}

#[test]
fn unauthenticated_state_update_leaves_the_run_unchanged() {
    let mut store = Store::new();
    store.create_run(0, 10, WorkflowState::NotYetStarted, None).unwrap();
    let r = handle_update_run_state(&mut store, &None, 1, &String::from("Complete"));
    assert!(matches!(r, UpdateRunStateResponse::Unauthorized));
    assert!(store.get_run(1).unwrap().state == WorkflowState::NotYetStarted);
}

#[test]
fn authenticated_state_update_applies_and_returns_the_snapshot() {
    let mut store = Store::new();
    store.create_run(0, 10, WorkflowState::NotYetStarted, None).unwrap();
    let r = handle_update_run_state(&mut store, &session(), 1, &String::from("Process Step 2"));
    match r {
        UpdateRunStateResponse::Updated(run) => {
            assert_eq!(run.run_number, 1);
            assert!(run.state == WorkflowState::ProcessStep2);
        },
        _ => panic!("expected an update"),
    }
    assert!(store.get_run(1).unwrap().state == WorkflowState::ProcessStep2);
}

#[test]
fn applying_the_same_state_twice_is_idempotent() {
    let mut store = Store::new();
    store.create_run(0, 10, WorkflowState::NotYetStarted, None).unwrap();
    let first = handle_update_run_state(&mut store, &session(), 1, &String::from("Complete"));
    assert!(matches!(first, UpdateRunStateResponse::Updated(_)));
    let second = handle_update_run_state(&mut store, &session(), 1, &String::from("Complete"));
    assert!(matches!(second, UpdateRunStateResponse::Updated(_)));
    assert!(store.get_run(1).unwrap().state == WorkflowState::Complete);
}

#[test]
fn state_update_rejects_unknown_states_and_missing_runs() {
    let mut store = Store::new();
    store.create_run(0, 10, WorkflowState::NotYetStarted, None).unwrap();
    let bad = handle_update_run_state(&mut store, &session(), 1, &String::from("Nonsense"));
    assert!(matches!(bad, UpdateRunStateResponse::InvalidState));
    assert!(store.get_run(1).unwrap().state == WorkflowState::NotYetStarted);
    let missing = handle_update_run_state(&mut store, &session(), 9, &String::from("Complete"));
    assert!(matches!(missing, UpdateRunStateResponse::NoRowsUpdated));
}

#[test]
fn unauthenticated_create_run_creates_nothing() {
    let mut store = Store::new();
    let r = handle_create_run(&mut store, &None, create_request("Not Yet Started"));
    assert!(matches!(r, CreateRunResponse::Unauthorized));
    assert_eq!(store.list_runs().len(), 0);
}

#[test]
fn create_run_validates_the_state_string() {
    let mut store = Store::new();
    let r = handle_create_run(&mut store, &session(), create_request("does not exist"));
    assert!(matches!(r, CreateRunResponse::InvalidState));
    assert_eq!(store.list_runs().len(), 0);
    let ok = handle_create_run(&mut store, &session(), create_request("Not Yet Started"));
    match ok {
        CreateRunResponse::Created(n) => assert_eq!(n, 1),
        _ => panic!("expected a created run"),
    }
    let details = store.get_run_with_steps(1).unwrap();
    assert_eq!(details.steps.len(), 2);
}

#[test]
fn unauthenticated_step_update_changes_nothing() {
    let mut store = Store::new();
    store.create_run(0, 10, WorkflowState::NotYetStarted, None).unwrap();
    let fields = StepFields {
        started_date: Some(5),
        end_date: None,
        site: None,
        checksum: None,
        location: None,
    };
    let r = handle_update_step(&mut store, &None, 1, 1, &fields);
    assert_eq!(r, UpdateStepResponse::Unauthorized);
    let details = store.get_run_with_steps(1).unwrap();
    assert!(details.steps[0].started_date.is_none());
}

#[test]
fn authenticated_step_update_applies() {
    let mut store = Store::new();
    store.create_run(0, 10, WorkflowState::NotYetStarted, None).unwrap();
    let fields = StepFields {
        started_date: Some(5),
        end_date: None,
        site: None,
        checksum: None,
        location: None,
    };
    let r = handle_update_step(&mut store, &session(), 1, 1, &fields);
    assert_eq!(r, UpdateStepResponse::StepUpdated);
    let missing = handle_update_step(&mut store, &session(), 2, 1, &fields);
    assert_eq!(missing, UpdateStepResponse::NoStepsUpdated);
    let details = store.get_run_with_steps(1).unwrap();
    assert_eq!(details.steps[0].started_date, Some(5));
}
