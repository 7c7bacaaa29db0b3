//! The workflow state enumeration and its wire representation.
//!
//! Each state has a fixed canonical display string used on the wire, both
//! when serializing a run and when reading legacy status strings back in.

use vstd::prelude::*;
use crate::text::str_eq;

verus! {

/// The closed set of workflow states a run can be in.  `NotYetStarted` is
/// the initial state; `Complete`, `Step1Error` and `Step2Error` are terminal
/// for their respective paths.
#[derive(Clone, Copy, PartialEq, Eq, Structural, Debug)]
pub enum WorkflowState {
    NotYetStarted,
    TransferFromTape,
    ProcessStep1,
    FinishStep1,
    TransferWIPAC,
    ProcessStep2,
    FinishStep2,
    Complete,
    Step1Error,
    Step2Error,
}

/// The canonical display string of a workflow state.
pub open spec fn state_str(s: WorkflowState) -> Seq<char> {
    match s {
        WorkflowState::NotYetStarted => "Not Yet Started"@,
        WorkflowState::TransferFromTape => "Transfer from Tape"@,
        WorkflowState::ProcessStep1 => "Process Step 1"@,
        WorkflowState::FinishStep1 => "Finish Step 1"@,
        WorkflowState::TransferWIPAC => "Transfer WIPAC"@,
        WorkflowState::ProcessStep2 => "Process Step 2"@,
        WorkflowState::FinishStep2 => "Finish Step 2"@,
        WorkflowState::Complete => "Complete"@,
        WorkflowState::Step1Error => "Step 1 Error"@,
        WorkflowState::Step2Error => "Step 2 Error"@,
    }
}

/// The state whose canonical display string is `s`, if any.
pub open spec fn spec_state_of(s: Seq<char>) -> Option<WorkflowState> {
    if s == state_str(WorkflowState::NotYetStarted) { Some(WorkflowState::NotYetStarted) }
    else if s == state_str(WorkflowState::TransferFromTape) { Some(WorkflowState::TransferFromTape) }
    else if s == state_str(WorkflowState::ProcessStep1) { Some(WorkflowState::ProcessStep1) }
    else if s == state_str(WorkflowState::FinishStep1) { Some(WorkflowState::FinishStep1) }
    else if s == state_str(WorkflowState::TransferWIPAC) { Some(WorkflowState::TransferWIPAC) }
    else if s == state_str(WorkflowState::ProcessStep2) { Some(WorkflowState::ProcessStep2) }
    else if s == state_str(WorkflowState::FinishStep2) { Some(WorkflowState::FinishStep2) }
    else if s == state_str(WorkflowState::Complete) { Some(WorkflowState::Complete) }
    else if s == state_str(WorkflowState::Step1Error) { Some(WorkflowState::Step1Error) }
    else if s == state_str(WorkflowState::Step2Error) { Some(WorkflowState::Step2Error) }
    else { None }
}

/// The state a free-text legacy status string maps to: exact match against
/// the canonical display strings, with any unmatched string defaulting to
/// `NotYetStarted`.
pub open spec fn spec_status_state(s: Seq<char>) -> WorkflowState {
    match spec_state_of(s) {
        Some(st) => st,
        None => WorkflowState::NotYetStarted,
    }
}

/// Renders a workflow state as its canonical display string.
pub fn state_to_string(s: WorkflowState) -> (r: String)
    ensures
        r@ == state_str(s),
{
    match s {
        WorkflowState::NotYetStarted => String::from_str("Not Yet Started"),
        WorkflowState::TransferFromTape => String::from_str("Transfer from Tape"),
        WorkflowState::ProcessStep1 => String::from_str("Process Step 1"),
        WorkflowState::FinishStep1 => String::from_str("Finish Step 1"),
        WorkflowState::TransferWIPAC => String::from_str("Transfer WIPAC"),
        WorkflowState::ProcessStep2 => String::from_str("Process Step 2"),
        WorkflowState::FinishStep2 => String::from_str("Finish Step 2"),
        WorkflowState::Complete => String::from_str("Complete"),
        WorkflowState::Step1Error => String::from_str("Step 1 Error"),
        WorkflowState::Step2Error => String::from_str("Step 2 Error"),
    }
}

/// Parses a wire string as a workflow state; `None` for anything that is not
/// one of the ten canonical display strings.
pub fn state_from_str(s: &str) -> (r: Option<WorkflowState>)
    ensures
        r == spec_state_of(s@),
{
    if str_eq(s, "Not Yet Started") { Some(WorkflowState::NotYetStarted) }
    else if str_eq(s, "Transfer from Tape") { Some(WorkflowState::TransferFromTape) }
    else if str_eq(s, "Process Step 1") { Some(WorkflowState::ProcessStep1) }
    else if str_eq(s, "Finish Step 1") { Some(WorkflowState::FinishStep1) }
    else if str_eq(s, "Transfer WIPAC") { Some(WorkflowState::TransferWIPAC) }
    else if str_eq(s, "Process Step 2") { Some(WorkflowState::ProcessStep2) }
    else if str_eq(s, "Finish Step 2") { Some(WorkflowState::FinishStep2) }
    else if str_eq(s, "Complete") { Some(WorkflowState::Complete) }
    else if str_eq(s, "Step 1 Error") { Some(WorkflowState::Step1Error) }
    else if str_eq(s, "Step 2 Error") { Some(WorkflowState::Step2Error) }
    else { None }
}

/// Maps a free-text legacy status string to a workflow state, defaulting to
/// `NotYetStarted` for anything unrecognized.
pub fn parse_status_to_state(status: &str) -> (r: WorkflowState)
    ensures
        r == spec_status_state(status@),
{
    match state_from_str(status) {
        Some(st) => st,
        None => WorkflowState::NotYetStarted,
    }
}

/// The display strings round-trip: parsing the canonical string of a state
/// yields that state back, so the string-to-state table is a left inverse of
/// the state-to-string table.
pub proof fn lemma_state_str_round_trip(s: WorkflowState)
    ensures
        spec_state_of(state_str(s)) == Some(s),
{
    reveal_strlit("Not Yet Started");
    reveal_strlit("Transfer from Tape");
    reveal_strlit("Process Step 1");
    reveal_strlit("Finish Step 1");
    reveal_strlit("Transfer WIPAC");
    reveal_strlit("Process Step 2");
    reveal_strlit("Finish Step 2");
    reveal_strlit("Complete");
    reveal_strlit("Step 1 Error");
    reveal_strlit("Step 2 Error");
    assert("Not Yet Started"@.len() == 15);
    assert("Transfer from Tape"@.len() == 18);
    assert("Process Step 1"@.len() == 14);
    assert("Finish Step 1"@.len() == 13);
    assert("Transfer WIPAC"@.len() == 14);
    assert("Process Step 2"@.len() == 14);
    assert("Finish Step 2"@.len() == 13);
    assert("Complete"@.len() == 8);
    assert("Step 1 Error"@.len() == 12);
    assert("Step 2 Error"@.len() == 12);
    assert("Process Step 1"@[0] == 'P');
    assert("Transfer WIPAC"@[0] == 'T');
    assert("Process Step 1"@[13] == '1');
    assert("Process Step 2"@[13] == '2');
    assert("Finish Step 1"@[12] == '1');
    assert("Finish Step 2"@[12] == '2');
    assert("Step 1 Error"@[5] == '1');
    assert("Step 2 Error"@[5] == '2');
}

} // verus!
