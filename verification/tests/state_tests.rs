use run_tracker::state::{parse_status_to_state, state_from_str, state_to_string, WorkflowState};

#[test]
fn canonical_strings_round_trip() {
    let all = [
        WorkflowState::NotYetStarted,
        WorkflowState::TransferFromTape,
        WorkflowState::ProcessStep1,
        WorkflowState::FinishStep1,
        WorkflowState::TransferWIPAC,
        WorkflowState::ProcessStep2,
        WorkflowState::FinishStep2,
        WorkflowState::Complete,
        WorkflowState::Step1Error,
        WorkflowState::Step2Error,
    ];
    for st in all {
        let s = state_to_string(st);
        assert_eq!(state_from_str(s.as_str()), Some(st));
        assert_eq!(parse_status_to_state(s.as_str()), st);
    }
}

#[test]
fn display_strings_are_canonical() {
    assert_eq!(state_to_string(WorkflowState::NotYetStarted), "Not Yet Started");
    assert_eq!(state_to_string(WorkflowState::TransferFromTape), "Transfer from Tape");
    assert_eq!(state_to_string(WorkflowState::ProcessStep1), "Process Step 1");
    assert_eq!(state_to_string(WorkflowState::FinishStep1), "Finish Step 1");
    assert_eq!(state_to_string(WorkflowState::TransferWIPAC), "Transfer WIPAC");
    assert_eq!(state_to_string(WorkflowState::ProcessStep2), "Process Step 2");
    assert_eq!(state_to_string(WorkflowState::FinishStep2), "Finish Step 2");
    assert_eq!(state_to_string(WorkflowState::Complete), "Complete");
    assert_eq!(state_to_string(WorkflowState::Step1Error), "Step 1 Error");
    assert_eq!(state_to_string(WorkflowState::Step2Error), "Step 2 Error");
}

#[test]
fn unknown_status_defaults_to_not_yet_started() {
    assert_eq!(parse_status_to_state("On Hold"), WorkflowState::NotYetStarted);
    assert_eq!(parse_status_to_state(""), WorkflowState::NotYetStarted);
    assert_eq!(parse_status_to_state("complete"), WorkflowState::NotYetStarted);
    assert_eq!(state_from_str("On Hold"), None);
    assert_eq!(state_from_str("complete"), None);
}

#[test]
fn exact_match_parses() {
    assert_eq!(state_from_str("Transfer WIPAC"), Some(WorkflowState::TransferWIPAC));
    assert_eq!(state_from_str("Step 2 Error"), Some(WorkflowState::Step2Error));
}
