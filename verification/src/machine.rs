//! The workflow state machine.
//!
//! `apply_transition` validates that a requested state names a member of the
//! workflow enumeration, assigns it to the run, and hands back the updated
//! run snapshot so that exactly one mirror push can be scheduled for the
//! successful transition.  No transition graph is enforced: any state may
//! follow any other, as the store's history model allows.

use vstd::prelude::*;
use crate::state::{WorkflowState, spec_state_of, state_from_str};
use crate::store::{
    Store, Run, EntryView, contains_run, run_index, spec_set_state, lemma_run_index_valid,
};

verus! {

/// Why a transition was rejected.
#[derive(Clone, Copy, PartialEq, Eq, Structural, Debug)]
pub enum TransitionError {
    /// The requested state is not a member of the workflow enumeration.
    InvalidState,
    /// No run with the requested number exists; no row was updated.
    NoRowsUpdated,
}

/// Validates `requested` as a workflow state and assigns it to run
/// `run_number`.  On success the returned snapshot is the updated run, to be
/// carried by the one mirror push scheduled for this transition.
pub fn apply_transition(store: &mut Store, run_number: i32, requested: &str) -> (r: Result<
    Run,
    TransitionError,
>)
    requires
        old(store).wf(),
    ensures
        final(store).wf(),
        spec_state_of(requested@) is None ==> r == Result::<Run, TransitionError>::Err(
            TransitionError::InvalidState,
        ) && final(store)@ == old(store)@,
        spec_state_of(requested@) matches Some(st) ==> {
            &&& final(store)@.entries == spec_set_state(
                old(store)@.entries,
                run_number as int,
                st,
            )
            &&& final(store)@.next == old(store)@.next
            &&& r is Ok <==> contains_run(old(store)@.entries, run_number as int)
            &&& r matches Ok(run) ==> run@ == final(store)@.entries[run_index(
                old(store)@.entries,
                run_number as int,
            )].run && run@.state == st && run@.run_number == run_number as int
            &&& r is Err ==> r == Result::<Run, TransitionError>::Err(
                TransitionError::NoRowsUpdated,
            )
        },
{
    let st = match state_from_str(requested) {
        Some(st) => st,
        None => {
            return Err(TransitionError::InvalidState);
        },
    };
    let updated = store.update_run_state(run_number, st);
    if updated {
        proof {
            lemma_run_index_valid(old(store)@.entries, run_number as int);
        }
        match store.get_run(run_number) {
            Some(run) => {
                proof {
                    let s0 = old(store)@.entries;
                    let s1 = final(store)@.entries;
                    let i = run_index(s0, run_number as int);
                    crate::store::lemma_run_index_is_first(s0, run_number as int);
                    crate::store::lemma_run_index_first(s1, run_number as int, i);
                }
                Ok(run)
            },
            None => {
                proof {
                    // The run was just updated in place, so it is still there.
                    let s0 = old(store)@.entries;
                    let s1 = final(store)@.entries;
                    let i = run_index(s0, run_number as int);
                    crate::store::lemma_run_index_is_first(s0, run_number as int);
                    crate::store::lemma_run_index_first(s1, run_number as int, i);
                    assert(false);
                }
                Err(TransitionError::NoRowsUpdated)
            },
        }
    } else {
        Err(TransitionError::NoRowsUpdated)
    }
}

/// Applying the same state twice is idempotent: the second application
/// leaves the stored entries exactly as the first left them, and the run is
/// still found, so the second call reports success just as the first did.
pub proof fn lemma_apply_transition_idempotent(s: Seq<EntryView>, rn: int, st: WorkflowState)
    ensures
        spec_set_state(spec_set_state(s, rn, st), rn, st) == spec_set_state(s, rn, st),
        contains_run(spec_set_state(s, rn, st), rn) == contains_run(s, rn),
{
    let s1 = spec_set_state(s, rn, st);
    assert(spec_set_state(s1, rn, st) =~= s1);
    lemma_set_state_contains(s, rn, st);
}

/// Setting a run's state changes no run numbers, so membership is kept.
proof fn lemma_set_state_contains(s: Seq<EntryView>, rn: int, st: WorkflowState)
    ensures
        contains_run(spec_set_state(s, rn, st), rn) == contains_run(s, rn),
{
    let s1 = spec_set_state(s, rn, st);
    assert(forall|j: int| 0 <= j < s.len() ==> s1[j].run.run_number == s[j].run.run_number);
    lemma_run_index_valid(s, rn);
    lemma_run_index_valid(s1, rn);
    if run_index(s, rn) >= 0 {
        crate::store::lemma_run_index_is_first(s, rn);
        crate::store::lemma_run_index_first(s1, rn, run_index(s, rn));
        assert(contains_run(s1, rn));
    } else {
        crate::store::lemma_run_index_absent(s, rn);
        crate::store::lemma_run_index_none(s1, rn);
    }
}

} // verus!
