//! The workflow state store: the authoritative record of runs and their
//! processing steps.
//!
//! Every run owns exactly two processing step rows, created in the same
//! operation that creates the run and never deleted or duplicated; the store
//! type makes that structural by keeping a run and its two steps in one
//! entry.  Run numbers are unique and assigned sequentially.  Each operation
//! states over the store's view exactly which rows it touches.

use vstd::prelude::*;
use crate::state::WorkflowState;

verus! {

/// A trackable unit of processing work.
pub struct Run {
    pub run_number: i32,
    pub file_number: i32,
    /// Seconds since the Unix epoch.
    pub run_start_date: i64,
    pub state: WorkflowState,
    pub url: Option<String>,
}

/// One of the two mandatory processing stages of a run.
pub struct ProcessingStep {
    /// Opaque identifier; unique per row in practice, not relied on.
    pub id: String,
    pub run_number: i32,
    pub step_number: i32,
    pub started_date: Option<i64>,
    pub end_date: Option<i64>,
    pub site: Option<String>,
    pub checksum: Option<String>,
    pub location: Option<String>,
}

/// The optional fields of a step-update request; an absent field leaves the
/// stored value unchanged.
pub struct StepFields {
    pub started_date: Option<i64>,
    pub end_date: Option<i64>,
    pub site: Option<String>,
    pub checksum: Option<String>,
    pub location: Option<String>,
}

/// A run together with its two steps, as returned by detail reads.
pub struct RunWithSteps {
    pub run: Run,
    pub steps: Vec<ProcessingStep>,
}

/// One stored entry: a run and its two processing step rows.
pub struct RunEntry {
    pub run: Run,
    pub step1: ProcessingStep,
    pub step2: ProcessingStep,
}

/// The store: all entries, and the next run number to assign.
pub struct Store {
    pub entries: Vec<RunEntry>,
    pub next_run_number: i64,
}

/// Errors a store operation can report.
#[derive(Clone, Copy, PartialEq, Eq, Structural, Debug)]
pub enum StoreError {
    /// Every assignable run number has been used.
    RunNumbersExhausted,
}

pub ghost struct RunView {
    pub run_number: int,
    pub file_number: int,
    pub run_start_date: int,
    pub state: WorkflowState,
    pub url: Option<Seq<char>>,
}

pub ghost struct StepView {
    pub id: Seq<char>,
    pub run_number: int,
    pub step_number: int,
    pub started_date: Option<int>,
    pub end_date: Option<int>,
    pub site: Option<Seq<char>>,
    pub checksum: Option<Seq<char>>,
    pub location: Option<Seq<char>>,
}

pub ghost struct StepFieldsView {
    pub started_date: Option<int>,
    pub end_date: Option<int>,
    pub site: Option<Seq<char>>,
    pub checksum: Option<Seq<char>>,
    pub location: Option<Seq<char>>,
}

pub ghost struct EntryView {
    pub run: RunView,
    pub step1: StepView,
    pub step2: StepView,
}

pub ghost struct StoreView {
    pub entries: Seq<EntryView>,
    pub next: int,
}

pub open spec fn opt_str_view(o: Option<String>) -> Option<Seq<char>> {
    match o {
        Some(s) => Some(s@),
        None => None,
    }
}

pub open spec fn opt_int_view(o: Option<i64>) -> Option<int> {
    match o {
        Some(v) => Some(v as int),
        None => None,
    }
}

impl View for Run {
    type V = RunView;

    open spec fn view(&self) -> RunView {
        RunView {
            run_number: self.run_number as int,
            file_number: self.file_number as int,
            run_start_date: self.run_start_date as int,
            state: self.state,
            url: opt_str_view(self.url),
        }
    }
}

impl View for ProcessingStep {
    type V = StepView;

    open spec fn view(&self) -> StepView {
        StepView {
            id: self.id@,
            run_number: self.run_number as int,
            step_number: self.step_number as int,
            started_date: opt_int_view(self.started_date),
            end_date: opt_int_view(self.end_date),
            site: opt_str_view(self.site),
            checksum: opt_str_view(self.checksum),
            location: opt_str_view(self.location),
        }
    }
}

impl View for StepFields {
    type V = StepFieldsView;

    open spec fn view(&self) -> StepFieldsView {
        StepFieldsView {
            started_date: opt_int_view(self.started_date),
            end_date: opt_int_view(self.end_date),
            site: opt_str_view(self.site),
            checksum: opt_str_view(self.checksum),
            location: opt_str_view(self.location),
        }
    }
}

impl View for RunEntry {
    type V = EntryView;

    open spec fn view(&self) -> EntryView {
        EntryView { run: self.run@, step1: self.step1@, step2: self.step2@ }
    }
}

impl View for Store {
    type V = StoreView;

    open spec fn view(&self) -> StoreView {
        StoreView {
            entries: self.entries@.map_values(|e: RunEntry| e@),
            next: self.next_run_number as int,
        }
    }
}

/// Index of the entry holding run `rn`, or `-1` when there is none.
pub open spec fn run_index(s: Seq<EntryView>, rn: int) -> int
    decreases s.len(),
{
    if s.len() == 0 {
        -1
    } else if s[0].run.run_number == rn {
        0
    } else {
        let r = run_index(s.drop_first(), rn);
        if r == -1 {
            -1
        } else {
            r + 1
        }
    }
}

/// The store holds an entry for run `rn`.
pub open spec fn contains_run(s: Seq<EntryView>, rn: int) -> bool {
    run_index(s, rn) >= 0
}

/// `run_index` returns either `-1` or the index of a matching entry.
pub proof fn lemma_run_index_valid(s: Seq<EntryView>, rn: int)
    ensures
        run_index(s, rn) == -1 || (0 <= run_index(s, rn) < s.len() && s[run_index(
            s,
            rn,
        )].run.run_number == rn),
    decreases s.len(),
{
    if s.len() != 0 && s[0].run.run_number != rn {
        lemma_run_index_valid(s.drop_first(), rn);
    }
}

/// When no entry before `i` matches and `s[i]` does, the first match is `i`.
pub proof fn lemma_run_index_first(s: Seq<EntryView>, rn: int, i: int)
    requires
        0 <= i < s.len(),
        s[i].run.run_number == rn,
        forall|j: int| 0 <= j < i ==> s[j].run.run_number != rn,
    ensures
        run_index(s, rn) == i,
    decreases i,
{
    if i > 0 {
        lemma_run_index_first(s.drop_first(), rn, i - 1);
    }
}

/// A non-negative `run_index` is the first match.
pub proof fn lemma_run_index_is_first(s: Seq<EntryView>, rn: int)
    requires
        run_index(s, rn) >= 0,
    ensures
        forall|j: int| 0 <= j < run_index(s, rn) ==> s[j].run.run_number != rn,
    decreases s.len(),
{
    if s.len() != 0 && s[0].run.run_number != rn {
        lemma_run_index_valid(s.drop_first(), rn);
        lemma_run_index_is_first(s.drop_first(), rn);
        assert forall|j: int| 0 <= j < run_index(s, rn) implies s[j].run.run_number != rn by {
            if j > 0 {
                assert(s.drop_first()[j - 1] == s[j]);
            }
        }
    }
}

/// When `run_index` is `-1`, no entry matches.
pub proof fn lemma_run_index_absent(s: Seq<EntryView>, rn: int)
    requires
        run_index(s, rn) == -1,
    ensures
        forall|j: int| 0 <= j < s.len() ==> s[j].run.run_number != rn,
    decreases s.len(),
{
    if s.len() != 0 {
        reveal_with_fuel(run_index, 2);
        assert(s[0].run.run_number != rn);
        lemma_run_index_valid(s.drop_first(), rn);
        assert(run_index(s.drop_first(), rn) == -1);
        lemma_run_index_absent(s.drop_first(), rn);
        assert forall|j: int| 0 <= j < s.len() implies s[j].run.run_number != rn by {
            if j > 0 {
                assert(s.drop_first()[j - 1] == s[j]);
            }
        }
    }
}

/// When no entry matches at all, `run_index` is `-1`.
pub proof fn lemma_run_index_none(s: Seq<EntryView>, rn: int)
    requires
        forall|j: int| 0 <= j < s.len() ==> s[j].run.run_number != rn,
    ensures
        run_index(s, rn) == -1,
    decreases s.len(),
{
    if s.len() != 0 {
        lemma_run_index_none(s.drop_first(), rn);
    }
}

/// A processing step row as created together with its run: correct key, all
/// optional fields empty.
pub open spec fn empty_step(sv: StepView, rn: int, n: int) -> bool {
    &&& sv.run_number == rn
    &&& sv.step_number == n
    &&& sv.started_date is None
    &&& sv.end_date is None
    &&& sv.site is None
    &&& sv.checksum is None
    &&& sv.location is None
}

/// A freshly created entry: the given run fields, and exactly the two step
/// rows, both empty.  The step ids are opaque and not constrained.
pub open spec fn created_entry(
    e: EntryView,
    rn: int,
    file_number: int,
    date: int,
    st: WorkflowState,
    url: Option<Seq<char>>,
) -> bool {
    &&& e.run.run_number == rn
    &&& e.run.file_number == file_number
    &&& e.run.run_start_date == date
    &&& e.run.state == st
    &&& e.run.url == url
    &&& empty_step(e.step1, rn, 1)
    &&& empty_step(e.step2, rn, 2)
}

/// The entries after setting the state of run `rn` (every matching entry;
/// with unique run numbers, at most one).
pub open spec fn spec_set_state(s: Seq<EntryView>, rn: int, st: WorkflowState) -> Seq<EntryView> {
    Seq::new(
        s.len(),
        |i: int|
            if s[i].run.run_number == rn {
                EntryView { run: RunView { state: st, ..s[i].run }, ..s[i] }
            } else {
                s[i]
            },
    )
}

/// A step row after a partial update: present fields replaced, absent fields
/// kept, the key and id untouched.
pub open spec fn spec_apply_fields(sv: StepView, f: StepFieldsView) -> StepView {
    StepView {
        started_date: if f.started_date is Some { f.started_date } else { sv.started_date },
        end_date: if f.end_date is Some { f.end_date } else { sv.end_date },
        site: if f.site is Some { f.site } else { sv.site },
        checksum: if f.checksum is Some { f.checksum } else { sv.checksum },
        location: if f.location is Some { f.location } else { sv.location },
        ..sv
    }
}

/// The entries after a partial update of step (`rn`, `sn`): nothing changes
/// unless `sn` names one of the two steps of an entry for `rn`.
pub open spec fn spec_update_step(
    s: Seq<EntryView>,
    rn: int,
    sn: int,
    f: StepFieldsView,
) -> Seq<EntryView> {
    if sn == 1 || sn == 2 {
        Seq::new(
            s.len(),
            |i: int|
                if s[i].run.run_number == rn {
                    if sn == 1 {
                        EntryView { step1: spec_apply_fields(s[i].step1, f), ..s[i] }
                    } else {
                        EntryView { step2: spec_apply_fields(s[i].step2, f), ..s[i] }
                    }
                } else {
                    s[i]
                },
        )
    } else {
        s
    }
}

/// The entries after an import upsert hits an existing run: only `state` and
/// `url` of the run change; the step rows and all other fields stay.
pub open spec fn spec_upsert_existing(
    s: Seq<EntryView>,
    rn: int,
    st: WorkflowState,
    url: Seq<char>,
) -> Seq<EntryView> {
    Seq::new(
        s.len(),
        |i: int|
            if s[i].run.run_number == rn {
                EntryView { run: RunView { state: st, url: Some(url), ..s[i].run }, ..s[i] }
            } else {
                s[i]
            },
    )
}

impl Store {
    /// Well-formedness: run numbers unique and below the next to assign;
    /// each entry's step rows carry its run number and step numbers 1 and 2.
    pub open spec fn wf(&self) -> bool {
        let s = self@.entries;
        &&& forall|i: int, j: int|
            0 <= i < j < s.len() ==> s[i].run.run_number != s[j].run.run_number
        &&& forall|i: int|
            0 <= i < s.len() ==> {
                &&& (#[trigger] s[i]).step1.run_number == s[i].run.run_number
                &&& s[i].step1.step_number == 1
                &&& s[i].step2.run_number == s[i].run.run_number
                &&& s[i].step2.step_number == 2
            }
        &&& forall|i: int| 0 <= i < s.len() ==> (#[trigger] s[i]).run.run_number < self@.next
        &&& 1 <= self@.next <= i32::MAX as int + 1
    }

    /// An empty store; run numbers start at 1.
    pub fn new() -> (s: Store)
        ensures
            s.wf(),
            s@.entries.len() == 0,
            s@.next == 1,
    {
        let s = Store { entries: Vec::new(), next_run_number: 1 };
        proof {
            assert(s@.entries =~= Seq::<EntryView>::empty());
        }
        s
    }

    /// Index of the entry for `run_number`, if any.
    fn find_index(&self, run_number: i32) -> (r: Option<usize>)
        ensures
            match r {
                Some(i) => i < self@.entries.len() && run_index(
                    self@.entries,
                    run_number as int,
                ) == i,
                None => run_index(self@.entries, run_number as int) == -1,
            },
    {
        let ghost s = self@.entries;
        let mut i: usize = 0;
        let n = self.entries.len();
        while i < n
            invariant
                i <= n,
                n == s.len(),
                s == self@.entries,
                forall|j: int| 0 <= j < i ==> s[j].run.run_number != run_number as int,
            decreases n - i,
        {
            if self.entries[i].run.run_number == run_number {
                proof {
                    lemma_run_index_first(s, run_number as int, i as int);
                }
                return Some(i);
            }
            i += 1;
        }
        proof {
            lemma_run_index_none(s, run_number as int);
        }
        None
    }

    /// Creates a run with a fresh sequential run number and, atomically with
    /// it, its two empty processing step rows.
    pub fn create_run(
        &mut self,
        file_number: i32,
        run_start_date: i64,
        state: WorkflowState,
        url: Option<String>,
    ) -> (r: Result<i32, StoreError>)
        requires
            old(self).wf(),
        ensures
            final(self).wf(),
            r is Ok <==> old(self)@.next <= i32::MAX as int,
            r matches Ok(n) ==> {
                &&& n as int == old(self)@.next
                &&& final(self)@.next == old(self)@.next + 1
                &&& final(self)@.entries.len() == old(self)@.entries.len() + 1
                &&& final(self)@.entries.drop_last() == old(self)@.entries
                &&& created_entry(
                    final(self)@.entries.last(),
                    n as int,
                    file_number as int,
                    run_start_date as int,
                    state,
                    opt_str_view(url),
                )
            },
            r is Err ==> final(self)@ == old(self)@,
    {
        if self.next_run_number > i32::MAX as i64 {
            return Err(StoreError::RunNumbersExhausted);
        }
        let n: i32 = self.next_run_number as i32;
        let entry = RunEntry {
            run: Run { run_number: n, file_number, run_start_date, state, url },
            step1: ProcessingStep {
                id: fresh_step_id(),
                run_number: n,
                step_number: 1,
                started_date: None,
                end_date: None,
                site: None,
                checksum: None,
                location: None,
            },
            step2: ProcessingStep {
                id: fresh_step_id(),
                run_number: n,
                step_number: 2,
                started_date: None,
                end_date: None,
                site: None,
                checksum: None,
                location: None,
            },
        };
        self.entries.push(entry);
        self.next_run_number = self.next_run_number + 1;
        proof {
            assert(final(self)@.entries =~= old(self)@.entries.push(final(self)@.entries.last()));
            assert(final(self)@.entries.drop_last() =~= old(self)@.entries);
        }
        Ok(n)
    }

    /// Reads the run with the given number.
    pub fn get_run(&self, run_number: i32) -> (r: Option<Run>)
        ensures
            r is Some <==> contains_run(self@.entries, run_number as int),
            r matches Some(run) ==> run@ == self@.entries[run_index(
                self@.entries,
                run_number as int,
            )].run,
    {
        match self.find_index(run_number) {
            Some(i) => Some(clone_run(&self.entries[i].run)),
            None => None,
        }
    }

    /// Reads the run with the given number together with its two steps,
    /// ordered by step number.
    pub fn get_run_with_steps(&self, run_number: i32) -> (r: Option<RunWithSteps>)
        requires
            self.wf(),
        ensures
            r is Some <==> contains_run(self@.entries, run_number as int),
            r matches Some(d) ==> {
                let e = self@.entries[run_index(self@.entries, run_number as int)];
                &&& d.run@ == e.run
                &&& d.steps@.len() == 2
                &&& d.steps@[0]@ == e.step1
                &&& d.steps@[1]@ == e.step2
                &&& d.steps@[0]@.step_number == 1
                &&& d.steps@[1]@.step_number == 2
            },
    {
        match self.find_index(run_number) {
            Some(i) => {
                proof {
                    lemma_run_index_valid(self@.entries, run_number as int);
                }
                let e = &self.entries[i];
                let mut steps: Vec<ProcessingStep> = Vec::new();
                steps.push(clone_step(&e.step1));
                steps.push(clone_step(&e.step2));
                Some(RunWithSteps { run: clone_run(&e.run), steps })
            },
            None => None,
        }
    }

    /// Sets the state of run `run_number`; reports whether any row was
    /// updated, and touches nothing else.
    pub fn update_run_state(&mut self, run_number: i32, new_state: WorkflowState) -> (updated:
        bool)
        requires
            old(self).wf(),
        ensures
            final(self).wf(),
            updated == contains_run(old(self)@.entries, run_number as int),
            final(self)@.entries == spec_set_state(
                old(self)@.entries,
                run_number as int,
                new_state,
            ),
            final(self)@.next == old(self)@.next,
    {
        let ghost s0 = self@.entries;
        match self.find_index(run_number) {
            Some(i) => {
                proof {
                    lemma_run_index_valid(s0, run_number as int);
                }
                self.entries[i].run.state = new_state;
                proof {
                    assert(final(self)@.entries =~= spec_set_state(
                        s0,
                        run_number as int,
                        new_state,
                    ));
                }
                true
            },
            None => {
                proof {
                    lemma_run_index_absent(s0, run_number as int);
                    assert(final(self)@.entries =~= spec_set_state(
                        s0,
                        run_number as int,
                        new_state,
                    ));
                }
                false
            },
        }
    }

    /// Applies a partial update to step (`run_number`, `step_number`):
    /// present fields replace the stored values, absent fields leave them
    /// unchanged.  Reports whether such a step row exists.
    pub fn update_step(&mut self, run_number: i32, step_number: i32, fields: &StepFields) -> (
        updated: bool)
        requires
            old(self).wf(),
        ensures
            final(self).wf(),
            updated == (contains_run(old(self)@.entries, run_number as int) && (step_number == 1
                || step_number == 2)),
            final(self)@.entries == spec_update_step(
                old(self)@.entries,
                run_number as int,
                step_number as int,
                fields@,
            ),
            final(self)@.next == old(self)@.next,
    {
        let ghost s0 = self@.entries;
        if step_number != 1 && step_number != 2 {
            return false;
        }
        match self.find_index(run_number) {
            Some(i) => {
                proof {
                    lemma_run_index_valid(s0, run_number as int);
                }
                if step_number == 1 {
                    apply_fields(&mut self.entries[i].step1, fields);
                } else {
                    apply_fields(&mut self.entries[i].step2, fields);
                }
                proof {
                    assert(final(self)@.entries =~= spec_update_step(
                        s0,
                        run_number as int,
                        step_number as int,
                        fields@,
                    ));
                }
                true
            },
            None => {
                proof {
                    lemma_run_index_absent(s0, run_number as int);
                    assert(final(self)@.entries =~= spec_update_step(
                        s0,
                        run_number as int,
                        step_number as int,
                        fields@,
                    ));
                }
                false
            },
        }
    }

    /// Import upsert: inserts the run (with its two empty step rows) when it
    /// is new; when the run number already exists, updates only `state` and
    /// `url`, leaving every other run field and both step rows untouched.
    pub fn upsert_run(
        &mut self,
        run_number: i32,
        file_number: i32,
        run_start_date: i64,
        state: WorkflowState,
        url: String,
    )
        requires
            old(self).wf(),
        ensures
            final(self).wf(),
            contains_run(old(self)@.entries, run_number as int) ==> {
                &&& final(self)@.entries == spec_upsert_existing(
                    old(self)@.entries,
                    run_number as int,
                    state,
                    url@,
                )
                &&& final(self)@.next == old(self)@.next
            },
            !contains_run(old(self)@.entries, run_number as int) ==> {
                &&& final(self)@.entries.len() == old(self)@.entries.len() + 1
                &&& final(self)@.entries.drop_last() == old(self)@.entries
                &&& created_entry(
                    final(self)@.entries.last(),
                    run_number as int,
                    file_number as int,
                    run_start_date as int,
                    state,
                    Some(url@),
                )
                &&& final(self)@.next == if run_number as int + 1 > old(self)@.next {
                    run_number as int + 1
                } else {
                    old(self)@.next
                }
            },
    {
        let ghost s0 = self@.entries;
        match self.find_index(run_number) {
            Some(i) => {
                proof {
                    lemma_run_index_valid(s0, run_number as int);
                }
                self.entries[i].run.state = state;
                self.entries[i].run.url = Some(url);
                proof {
                    assert(final(self)@.entries =~= spec_upsert_existing(
                        s0,
                        run_number as int,
                        state,
                        url@,
                    ));
                }
            },
            None => {
                let entry = RunEntry {
                    run: Run {
                        run_number,
                        file_number,
                        run_start_date,
                        state,
                        url: Some(url),
                    },
                    step1: ProcessingStep {
                        id: fresh_step_id(),
                        run_number,
                        step_number: 1,
                        started_date: None,
                        end_date: None,
                        site: None,
                        checksum: None,
                        location: None,
                    },
                    step2: ProcessingStep {
                        id: fresh_step_id(),
                        run_number,
                        step_number: 2,
                        started_date: None,
                        end_date: None,
                        site: None,
                        checksum: None,
                        location: None,
                    },
                };
                self.entries.push(entry);
                if (run_number as i64) + 1 > self.next_run_number {
                    self.next_run_number = (run_number as i64) + 1;
                }
                proof {
                    lemma_run_index_absent(s0, run_number as int);
                    assert(final(self)@.entries =~= s0.push(final(self)@.entries.last()));
                    assert(final(self)@.entries.drop_last() =~= s0);
                }
            },
        }
    }
}

/// All step rows stored for run `rn`, in storage order.
pub open spec fn steps_for_run(s: Seq<EntryView>, rn: int) -> Seq<StepView>
    decreases s.len(),
{
    if s.len() == 0 {
        Seq::empty()
    } else {
        steps_for_run(s.drop_last(), rn) + entry_steps_for(s.last(), rn)
    }
}

/// The step rows of one entry that carry run number `rn`.
pub open spec fn entry_steps_for(e: EntryView, rn: int) -> Seq<StepView> {
    let first = if e.step1.run_number == rn {
        seq![e.step1]
    } else {
        Seq::empty()
    };
    let second = if e.step2.run_number == rn {
        seq![e.step2]
    } else {
        Seq::empty()
    };
    first + second
}

/// Entries whose step rows all carry other run numbers contribute no step
/// row for `rn`.
proof fn lemma_steps_for_run_absent(s: Seq<EntryView>, rn: int)
    requires
        forall|i: int|
            0 <= i < s.len() ==> (#[trigger] s[i]).step1.run_number != rn
                && s[i].step2.run_number != rn,
    ensures
        steps_for_run(s, rn) == Seq::<StepView>::empty(),
    decreases s.len(),
{
    if s.len() != 0 {
        assert(forall|i: int| 0 <= i < s.len() - 1 ==> s.drop_last()[i] == s[i]);
        lemma_steps_for_run_absent(s.drop_last(), rn);
        assert(s.last() == s[s.len() - 1]);
        assert(steps_for_run(s, rn) =~= Seq::<StepView>::empty());
    }
}

/// After a run is created, exactly two step rows exist for it: step numbers
/// 1 and 2, every optional field empty.  The premises are what
/// `create_run` ensures for a well-formed store whose next run number is
/// fresh.
pub proof fn lemma_created_run_has_exactly_two_steps(
    pre: Seq<EntryView>,
    post: Seq<EntryView>,
    n: int,
    file_number: int,
    date: int,
    st: WorkflowState,
    url: Option<Seq<char>>,
)
    requires
        post.len() == pre.len() + 1,
        post.drop_last() == pre,
        created_entry(post.last(), n, file_number, date, st, url),
        forall|i: int|
            0 <= i < pre.len() ==> (#[trigger] pre[i]).step1.run_number
                == pre[i].run.run_number && pre[i].step2.run_number == pre[i].run.run_number,
        forall|i: int| 0 <= i < pre.len() ==> (#[trigger] pre[i]).run.run_number != n,
    ensures
        steps_for_run(post, n).len() == 2,
        steps_for_run(post, n)[0].step_number == 1,
        steps_for_run(post, n)[1].step_number == 2,
        empty_step(steps_for_run(post, n)[0], n, 1),
        empty_step(steps_for_run(post, n)[1], n, 2),
{
    lemma_steps_for_run_absent(pre, n);
    let e = post.last();
    assert(steps_for_run(post, n) =~= steps_for_run(pre, n) + entry_steps_for(e, n));
    assert(entry_steps_for(e, n) =~= seq![e.step1, e.step2]);
    assert(steps_for_run(post, n) =~= seq![e.step1, e.step2]);
}

/// In a store with unique run numbers whose entries key their step rows
/// correctly — what `wf` guarantees — every present run has exactly its two
/// step rows, numbered 1 and 2, and an absent run has none.
pub proof fn lemma_run_has_exactly_two_steps(s: Seq<EntryView>, rn: int)
    requires
        forall|i: int, j: int|
            0 <= i < j < s.len() ==> s[i].run.run_number != s[j].run.run_number,
        forall|i: int|
            0 <= i < s.len() ==> {
                &&& (#[trigger] s[i]).step1.run_number == s[i].run.run_number
                &&& s[i].step1.step_number == 1
                &&& s[i].step2.run_number == s[i].run.run_number
                &&& s[i].step2.step_number == 2
            },
    ensures
        contains_run(s, rn) ==> steps_for_run(s, rn) == seq![
            s[run_index(s, rn)].step1,
            s[run_index(s, rn)].step2,
        ],
        !contains_run(s, rn) ==> steps_for_run(s, rn) == Seq::<StepView>::empty(),
    decreases s.len(),
{
    lemma_run_index_valid(s, rn);
    if s.len() == 0 {
        assert(steps_for_run(s, rn) =~= Seq::<StepView>::empty());
    } else {
        let prefix = s.drop_last();
        let e = s.last();
        assert(forall|i: int| 0 <= i < prefix.len() ==> prefix[i] == s[i]);
        lemma_run_has_exactly_two_steps(prefix, rn);
        lemma_run_index_valid(prefix, rn);
        if e.run.run_number == rn {
            // The last entry holds the run; uniqueness keeps it out of the
            // prefix.
            assert(forall|i: int| 0 <= i < prefix.len() ==> prefix[i].run.run_number != rn);
            lemma_run_index_none(prefix, rn);
            lemma_run_index_first(s, rn, s.len() - 1);
            assert(entry_steps_for(e, rn) =~= seq![e.step1, e.step2]);
            assert(steps_for_run(s, rn) =~= seq![e.step1, e.step2]);
        } else {
            assert(entry_steps_for(e, rn) =~= Seq::<StepView>::empty());
            assert(steps_for_run(s, rn) =~= steps_for_run(prefix, rn));
            if run_index(prefix, rn) >= 0 {
                lemma_run_index_is_first(prefix, rn);
                lemma_run_index_first(s, rn, run_index(prefix, rn));
            } else {
                lemma_run_index_absent(prefix, rn);
                lemma_run_index_none(s, rn);
            }
        }
    }
}

/// A step update with every field absent leaves every stored value
/// unchanged, whichever step it addresses.
pub proof fn lemma_update_step_all_absent_identity(
    s: Seq<EntryView>,
    rn: int,
    sn: int,
    f: StepFieldsView,
)
    requires
        f.started_date is None,
        f.end_date is None,
        f.site is None,
        f.checksum is None,
        f.location is None,
    ensures
        spec_update_step(s, rn, sn, f) == s,
{
    assert(spec_update_step(s, rn, sn, f) =~= s);
}

/// The run views of a sequence of runs.
pub open spec fn runs_seq(v: Seq<Run>) -> Seq<RunView> {
    v.map_values(|x: Run| x@)
}

/// The run views of a sequence of store entries.
pub open spec fn runs_of(s: Seq<EntryView>) -> Seq<RunView> {
    s.map_values(|e: EntryView| e.run)
}

/// Runs ordered by start date, newest first.
pub open spec fn sorted_by_date_desc(s: Seq<RunView>) -> bool {
    forall|i: int, j: int|
        0 <= i <= j < s.len() ==> s[i].run_start_date >= s[j].run_start_date
}

/// Inserting into a sequence inserts into its multiset of elements.
proof fn lemma_seq_insert_to_multiset<A>(s: Seq<A>, j: int, x: A)
    requires
        0 <= j <= s.len(),
    ensures
        s.insert(j, x).to_multiset() == s.to_multiset().insert(x),
{
    broadcast use vstd::seq_lib::group_to_multiset_ensures;

    let s2 = s.insert(j, x);
    assert(s2.remove(j) =~= s);
    assert(s2[j] == x);
    assert(s.to_multiset() == s2.to_multiset().remove(x));
    assert(s2.to_multiset().contains(x));
    assert(s2.to_multiset() =~= s.to_multiset().insert(x));
}

/// Inserts a run into a list kept ordered by start date descending.
fn insert_by_date(v: &mut Vec<Run>, x: Run)
    requires
        sorted_by_date_desc(runs_seq(old(v)@)),
    ensures
        sorted_by_date_desc(runs_seq(final(v)@)),
        runs_seq(final(v)@).to_multiset() == runs_seq(old(v)@).to_multiset().insert(x@),
        final(v)@.len() == old(v)@.len() + 1,
    {
    let n = v.len();
    let mut j: usize = 0;
    while j < n && v[j].run_start_date > x.run_start_date
        invariant
            j <= n,
            n == v@.len(),
            v@ == old(v)@,
            forall|k: int| 0 <= k < j ==> runs_seq(v@)[k].run_start_date > x@.run_start_date,
        decreases n - j,
    {
        j += 1;
    }
    v.insert(j, x);
    proof {
        assert(runs_seq(final(v)@) =~= runs_seq(old(v)@).insert(j as int, x@));
        lemma_seq_insert_to_multiset(runs_seq(old(v)@), j as int, x@);
        assert forall|a: int, b: int|
            0 <= a <= b < runs_seq(final(v)@).len() implies runs_seq(final(v)@)[a].run_start_date
            >= runs_seq(final(v)@)[b].run_start_date by {
            let s = runs_seq(old(v)@);
            let t = runs_seq(final(v)@);
            assert(forall|k: int| 0 <= k < j ==> t[k] == s[k]);
            assert(forall|k: int| j < k < t.len() ==> t[k] == s[k - 1]);
            assert forall|k: int| j <= k < s.len() implies s[k].run_start_date
                <= x@.run_start_date by {
                assert(s[j as int].run_start_date <= x@.run_start_date);
                assert(s[j as int].run_start_date >= s[k].run_start_date);
            }
        }
    }
}

impl Store {
    /// All runs, ordered by start date, newest first: the result is a
    /// permutation of the stored runs sorted descending.
    pub fn list_runs(&self) -> (r: Vec<Run>)
        ensures
            sorted_by_date_desc(runs_seq(r@)),
            runs_seq(r@).to_multiset() == runs_of(self@.entries).to_multiset(),
            r@.len() == self@.entries.len(),
    {
        broadcast use vstd::seq_lib::group_to_multiset_ensures;

        let ghost s = self@.entries;
        let mut out: Vec<Run> = Vec::new();
        let n = self.entries.len();
        let mut i: usize = 0;
        proof {
            assert(runs_seq(out@) =~= Seq::<RunView>::empty());
            assert(runs_of(s.subrange(0, 0)) =~= Seq::<RunView>::empty());
            assert(runs_seq(out@).to_multiset() =~= runs_of(s.subrange(0, 0)).to_multiset());
        }
        while i < n
            invariant
                i <= n,
                n == s.len(),
                s == self@.entries,
                out@.len() == i,
                sorted_by_date_desc(runs_seq(out@)),
                runs_seq(out@).to_multiset() == runs_of(s.subrange(0, i as int)).to_multiset(),
            decreases n - i,
        {
            let run = clone_run(&self.entries[i].run);
            proof {
                assert(run@ == s[i as int].run);
            }
            insert_by_date(&mut out, run);
            proof {
                broadcast use vstd::seq_lib::group_to_multiset_ensures;

                assert(runs_of(s.subrange(0, i + 1)) =~= runs_of(s.subrange(0, i as int)).push(
                    s[i as int].run,
                ));
            }
            i += 1;
        }
        proof {
            assert(s.subrange(0, n as int) =~= s);
        }
        out
    }
}

/// Relies on `uuid::Uuid::new_v4` and its `Display` form: a fresh random
/// UUID rendered in the standard hyphenated format, 36 characters long.
#[verifier::external_body]
fn fresh_step_id() -> (r: String)
    ensures
        r@.len() == 36,
{
    uuid::Uuid::new_v4().to_string()
}

fn clone_opt_string(o: &Option<String>) -> (r: Option<String>)
    ensures
        r == *o,
{
    match o {
        Some(s) => Some(s.clone()),
        None => None,
    }
}

/// Copies a run value.
pub fn clone_run(r: &Run) -> (c: Run)
    ensures
        c == *r,
{
    Run {
        run_number: r.run_number,
        file_number: r.file_number,
        run_start_date: r.run_start_date,
        state: r.state,
        url: clone_opt_string(&r.url),
    }
}

/// Copies a processing step value.
pub fn clone_step(s: &ProcessingStep) -> (c: ProcessingStep)
    ensures
        c == *s,
{
    ProcessingStep {
        id: s.id.clone(),
        run_number: s.run_number,
        step_number: s.step_number,
        started_date: s.started_date,
        end_date: s.end_date,
        site: clone_opt_string(&s.site),
        checksum: clone_opt_string(&s.checksum),
        location: clone_opt_string(&s.location),
    }
}

/// Applies a partial update to one step row.
fn apply_fields(step: &mut ProcessingStep, fields: &StepFields)
    ensures
        final(step)@ == spec_apply_fields(old(step)@, fields@),
{
    if let Some(v) = &fields.started_date {
        step.started_date = Some(*v);
    }
    if let Some(v) = &fields.end_date {
        step.end_date = Some(*v);
    }
    if let Some(v) = &fields.site {
        step.site = Some(v.clone());
    }
    if let Some(v) = &fields.checksum {
        step.checksum = Some(v.clone());
    }
    if let Some(v) = &fields.location {
        step.location = Some(v.clone());
    }
}

} // verus!
