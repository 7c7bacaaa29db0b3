//! The request-handling layer over the store and the state machine.
//!
//! Every mutating operation passes one uniform authorization guard: the
//! caller must present the session credential, and without it the handler
//! answers unauthorized and mutates nothing.  Reads need no credential.
//! Each handler states exactly how it changes the store and which mirror
//! push it schedules.

use vstd::prelude::*;
use crate::state::{WorkflowState, spec_state_of, state_from_str};
use crate::store::{
    Store, StoreError, Run, StepFields, contains_run, created_entry, opt_str_view, run_index,
    spec_set_state, spec_update_step,
};
use crate::machine::{apply_transition, TransitionError};
use crate::text::str_eq;

verus! {

/// The session credential a mutating request must carry.
pub open spec fn spec_session_value() -> Seq<char> {
    "admin_authorized"@
}

/// Whether a presented session cookie value authorizes mutation: it must be
/// exactly the session credential.
pub open spec fn spec_authorized(session: Option<Seq<char>>) -> bool {
    match session {
        Some(v) => v == spec_session_value(),
        None => false,
    }
}

/// The uniform authorization guard over an optional session cookie value.
pub fn is_authorized(session: &Option<String>) -> (r: bool)
    ensures
        r == spec_authorized(match *session {
            Some(v) => Some(v@),
            None => None,
        }),
{
    match session {
        Some(v) => str_eq(v.as_str(), "admin_authorized"),
        None => false,
    }
}

/// Checks a login attempt: on the configured admin password, yields the
/// session cookie value to set; on anything else, nothing.
pub fn check_login(password: &String, admin_password: &String) -> (r: Option<String>)
    ensures
        r is Some <==> password@ == admin_password@,
        r matches Some(v) ==> v@ == spec_session_value(),
{
    if str_eq(password.as_str(), admin_password.as_str()) {
        Some(String::from_str("admin_authorized"))
    } else {
        None
    }
}

/// What a create-run request answered.
pub enum CreateRunResponse {
    /// No valid session credential; nothing was mutated.
    Unauthorized,
    /// The requested state is not a member of the workflow enumeration.
    InvalidState,
    /// The store could not assign a fresh run number.
    Failed(StoreError),
    /// The run was created under this fresh run number.
    Created(i32),
}

/// The create-run request body: the state arrives as its wire string.
pub struct CreateRunRequest {
    pub file_number: i32,
    pub run_start_date: i64,
    pub state: String,
    pub url: Option<String>,
}

/// Handles a create-run request: with a valid credential and a valid state
/// string, creates the run and its two empty steps atomically.
pub fn handle_create_run(store: &mut Store, session: &Option<String>, req: CreateRunRequest) -> (r:
    CreateRunResponse)
    requires
        old(store).wf(),
    ensures
        final(store).wf(),
        !spec_authorized(opt_str_view(*session)) ==> r is Unauthorized && final(store)@ == old(
            store,
        )@,
        spec_authorized(opt_str_view(*session)) && spec_state_of(req.state@) is None ==> r
            is InvalidState && final(store)@ == old(store)@,
        spec_authorized(opt_str_view(*session)) ==> (spec_state_of(req.state@) matches Some(st)
            ==> {
            &&& r is Created <==> old(store)@.next <= i32::MAX as int
            &&& r matches CreateRunResponse::Created(n) ==> {
                &&& n as int == old(store)@.next
                &&& final(store)@.entries.len() == old(store)@.entries.len() + 1
                &&& final(store)@.entries.drop_last() == old(store)@.entries
                &&& created_entry(
                    final(store)@.entries.last(),
                    n as int,
                    req.file_number as int,
                    req.run_start_date as int,
                    st,
                    opt_str_view(req.url),
                )
            }
            &&& r is Failed ==> final(store)@ == old(store)@
        }),
{
    if !is_authorized(session) {
        return CreateRunResponse::Unauthorized;
    }
    let st = match state_from_str(req.state.as_str()) {
        Some(st) => st,
        None => {
            return CreateRunResponse::InvalidState;
        },
    };
    match store.create_run(req.file_number, req.run_start_date, st, req.url) {
        Ok(n) => CreateRunResponse::Created(n),
        Err(e) => CreateRunResponse::Failed(e),
    }
}

/// What a state-transition request answered.
pub enum UpdateRunStateResponse {
    /// No valid session credential; nothing was mutated.
    Unauthorized,
    /// The requested state is not a member of the workflow enumeration.
    InvalidState,
    /// No run with that number exists; no row was updated.
    NoRowsUpdated,
    /// The state was assigned; the carried snapshot is the updated run, to
    /// be pushed to the mirror.
    Updated(Run),
}

/// Handles a state-transition request: with a valid credential, applies the
/// transition and hands back the snapshot for the one mirror push this
/// transition schedules.  Without a credential the store is untouched.
pub fn handle_update_run_state(
    store: &mut Store,
    session: &Option<String>,
    run_number: i32,
    new_state: &String,
) -> (r: UpdateRunStateResponse)
    requires
        old(store).wf(),
    ensures
        final(store).wf(),
        !spec_authorized(opt_str_view(*session)) ==> r is Unauthorized && final(store)@ == old(
            store,
        )@,
        spec_authorized(opt_str_view(*session)) ==> {
            &&& spec_state_of(new_state@) is None ==> r is InvalidState && final(store)@ == old(
                store,
            )@
            &&& spec_state_of(new_state@) matches Some(st) ==> {
                &&& final(store)@.entries == spec_set_state(
                    old(store)@.entries,
                    run_number as int,
                    st,
                )
                &&& final(store)@.next == old(store)@.next
                &&& r is Updated <==> contains_run(old(store)@.entries, run_number as int)
                &&& !contains_run(old(store)@.entries, run_number as int) ==> r is NoRowsUpdated
                &&& r matches UpdateRunStateResponse::Updated(run) ==> run@
                    == final(store)@.entries[run_index(
                    old(store)@.entries,
                    run_number as int,
                )].run && run@.state == st && run@.run_number == run_number as int
            }
        },
{
    if !is_authorized(session) {
        return UpdateRunStateResponse::Unauthorized;
    }
    match apply_transition(store, run_number, new_state.as_str()) {
        Ok(run) => UpdateRunStateResponse::Updated(run),
        Err(TransitionError::InvalidState) => UpdateRunStateResponse::InvalidState,
        Err(TransitionError::NoRowsUpdated) => UpdateRunStateResponse::NoRowsUpdated,
    }
}

/// What a step-update request answered.
#[derive(Clone, Copy, PartialEq, Eq, Structural, Debug)]
pub enum UpdateStepResponse {
    /// No valid session credential; nothing was mutated.
    Unauthorized,
    /// No step row matches the run and step number; no row was updated.
    NoStepsUpdated,
    /// The step row was partially updated.
    StepUpdated,
}

/// Handles a step-update request: with a valid credential, applies the
/// partial update to the addressed step row.  Absent fields leave the
/// stored values unchanged; without a credential the store is untouched.
pub fn handle_update_step(
    store: &mut Store,
    session: &Option<String>,
    run_number: i32,
    step_number: i32,
    fields: &StepFields,
) -> (r: UpdateStepResponse)
    requires
        old(store).wf(),
    ensures
        final(store).wf(),
        !spec_authorized(opt_str_view(*session)) ==> r is Unauthorized && final(store)@ == old(
            store,
        )@,
        spec_authorized(opt_str_view(*session)) ==> {
            &&& final(store)@.entries == spec_update_step(
                old(store)@.entries,
                run_number as int,
                step_number as int,
                fields@,
            )
            &&& final(store)@.next == old(store)@.next
            &&& r is StepUpdated <==> (contains_run(old(store)@.entries, run_number as int) && (
            step_number == 1 || step_number == 2))
            &&& r is StepUpdated || r is NoStepsUpdated
        },
{
    if !is_authorized(session) {
        return UpdateStepResponse::Unauthorized;
    }
    if store.update_step(run_number, step_number, fields) {
        UpdateStepResponse::StepUpdated
    } else {
        UpdateStepResponse::NoStepsUpdated
    }
}

} // verus!
