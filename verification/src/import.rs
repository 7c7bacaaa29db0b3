//! The legacy import loader.
//!
//! A one-time bootstrap reads a flat list of legacy event records.  Each
//! record is handled independently: a record whose title is not a decimal
//! run number, or whose date is not a valid fixed-format calendar date, is
//! skipped and counted; every other record is upserted into the store, the
//! free-text status mapped to a workflow state (defaulting to
//! `NotYetStarted`).  No record's failure aborts the batch.

use vstd::prelude::*;
use crate::state::{WorkflowState, spec_status_state, parse_status_to_state};
use crate::text::{spec_parse_i32, parse_i32};
use crate::date::{spec_parse_date, parse_run_date, spec_date_timestamp, date_timestamp};
use crate::store::{
    Store, StoreView, contains_run, created_entry, spec_upsert_existing,
};

verus! {

/// One legacy record, as read from the flat list.
pub struct EventRecord {
    pub title: String,
    pub date: String,
    pub status: String,
    pub url: String,
    pub description: String,
}

pub ghost struct RecordView {
    pub title: Seq<char>,
    pub date: Seq<char>,
    pub status: Seq<char>,
    pub url: Seq<char>,
    pub description: Seq<char>,
}

impl View for EventRecord {
    type V = RecordView;

    open spec fn view(&self) -> RecordView {
        RecordView {
            title: self.title@,
            date: self.date@,
            status: self.status@,
            url: self.url@,
            description: self.description@,
        }
    }
}

/// Whether a record is imported rather than skipped: its title parses as a
/// run number and its date as a calendar date.
pub open spec fn record_ok(r: RecordView) -> bool {
    spec_parse_i32(r.title) is Some && spec_parse_date(r.date) is Some
}

/// How an upsert changes the store: an existing run keeps everything but
/// `state` and `url`; a new run is appended with its two empty step rows and
/// the next run number is kept above every stored one.
pub open spec fn spec_upserted(
    pre: StoreView,
    post: StoreView,
    rn: int,
    file_number: int,
    date: int,
    st: WorkflowState,
    url: Seq<char>,
) -> bool {
    &&& contains_run(pre.entries, rn) ==> {
        &&& post.entries == spec_upsert_existing(pre.entries, rn, st, url)
        &&& post.next == pre.next
    }
    &&& !contains_run(pre.entries, rn) ==> {
        &&& post.entries.len() == pre.entries.len() + 1
        &&& post.entries.drop_last() == pre.entries
        &&& created_entry(post.entries.last(), rn, file_number, date, st, Some(url))
        &&& post.next == if rn + 1 > pre.next {
            rn + 1
        } else {
            pre.next
        }
    }
}

/// Imports one record: skipped records leave the store untouched; imported
/// records are upserted with file number 0, the date's midnight timestamp,
/// and the mapped status.
pub fn import_record(store: &mut Store, rec: &EventRecord) -> (imported: bool)
    requires
        old(store).wf(),
    ensures
        final(store).wf(),
        imported == record_ok(rec@),
        !record_ok(rec@) ==> final(store)@ == old(store)@,
        record_ok(rec@) ==> spec_upserted(
            old(store)@,
            final(store)@,
            spec_parse_i32(rec@.title).unwrap() as int,
            0,
            spec_date_timestamp(spec_parse_date(rec@.date).unwrap()),
            spec_status_state(rec@.status),
            rec@.url,
        ),
{
    let rn = match parse_i32(self_str(&rec.title)) {
        Some(v) => v,
        None => {
            return false;
        },
    };
    let date = match parse_run_date(self_str(&rec.date)) {
        Some(d) => d,
        None => {
            return false;
        },
    };
    let ts = date_timestamp(&date);
    let st = parse_status_to_state(self_str(&rec.status));
    store.upsert_run(rn, 0, ts, st, rec.url.clone());
    true
}

fn self_str(s: &String) -> (r: &str)
    ensures
        r@ == s@,
{
    s.as_str()
}

/// The number of records in the list that import rather than skip.
pub open spec fn count_ok(rs: Seq<RecordView>) -> int
    decreases rs.len(),
{
    if rs.len() == 0 {
        0
    } else {
        count_ok(rs.drop_last()) + (if record_ok(rs.last()) {
            1int
        } else {
            0int
        })
    }
}

/// The batch report: every record is either imported or skipped.
pub struct ImportReport {
    pub total: usize,
    pub imported: usize,
    pub skipped: usize,
}

/// Imports a whole legacy list, record by record, never aborting on a row:
/// the report accounts for every record, and the imported count is exactly
/// the number of records whose title and date parse.
#[verifier::loop_isolation(false)]
pub fn import_records(store: &mut Store, recs: &Vec<EventRecord>) -> (r: ImportReport)
    requires
        old(store).wf(),
    ensures
        final(store).wf(),
        r.total == recs@.len(),
        r.imported + r.skipped == r.total,
        r.imported == count_ok(recs@.map_values(|e: EventRecord| e@)),
{
    let ghost all = recs@.map_values(|e: EventRecord| e@);
    let mut imported: usize = 0;
    let mut skipped: usize = 0;
    let n = recs.len();
    let mut i: usize = 0;
    proof {
        assert(all.subrange(0, 0) =~= Seq::<RecordView>::empty());
    }
    while i < n
        invariant
            i <= n,
            store.wf(),
            imported + skipped == i,
            imported == count_ok(all.subrange(0, i as int)),
        decreases n - i,
    {
        let ok = import_record(store, &recs[i]);
        proof {
            assert(all.subrange(0, i + 1).drop_last() =~= all.subrange(0, i as int));
            assert(all.subrange(0, i + 1).last() == recs@[i as int]@);
        }
        if ok {
            imported += 1;
        } else {
            skipped += 1;
        }
        i += 1;
    }
    proof {
        assert(all.subrange(0, n as int) =~= all);
    }
    ImportReport { total: n, imported, skipped }
}

/// The one-time bootstrap runs only against an empty store: with any runs
/// already present, the migration is skipped.
pub fn should_seed(existing_runs: i64) -> (r: bool)
    ensures
        r == (existing_runs <= 0),
{
    existing_runs <= 0
}

/// Importing two records that share a run number upserts: the first insert
/// creates the entry with its two empty step rows; the second finds the run
/// present and overwrites only its state and url, so the run keeps the first
/// record's start date, the step rows are not duplicated, and the rest of
/// the store is untouched.
pub proof fn lemma_import_shared_run_number_upserts(
    s0: StoreView,
    s1: StoreView,
    s2: StoreView,
    rn: int,
    d1: int,
    st1: WorkflowState,
    u1: Seq<char>,
    d2: int,
    st2: WorkflowState,
    u2: Seq<char>,
)
    requires
        !contains_run(s0.entries, rn),
        spec_upserted(s0, s1, rn, 0, d1, st1, u1),
        spec_upserted(s1, s2, rn, 0, d2, st2, u2),
    ensures
        contains_run(s1.entries, rn),
        s2.entries.len() == s0.entries.len() + 1,
        s2.entries.drop_last() == s0.entries,
        s2.entries.last().run.run_number == rn,
        s2.entries.last().run.state == st2,
        s2.entries.last().run.url == Some(u2),
        s2.entries.last().run.run_start_date == d1,
        crate::store::empty_step(s2.entries.last().step1, rn, 1),
        crate::store::empty_step(s2.entries.last().step2, rn, 2),
{
    let n0 = s0.entries.len() as int;
    crate::store::lemma_run_index_valid(s0.entries, rn);
    crate::store::lemma_run_index_absent(s0.entries, rn);
    assert(forall|j: int| 0 <= j < n0 ==> s1.entries[j] == s0.entries[j]);
    crate::store::lemma_run_index_first(s1.entries, rn, n0);
    assert(contains_run(s1.entries, rn));
    let e2 = spec_upsert_existing(s1.entries, rn, st2, u2);
    assert(s2.entries == e2);
    assert(e2[n0].run.state == st2);
    assert(s2.entries.drop_last() =~= s0.entries);
}

} // verus!
