use run_tracker::json::{run_to_json, runs_to_json};
use run_tracker::mirror::{build_bulk_write, build_run_write, Mirror, MirrorError};
use run_tracker::state::WorkflowState;
use run_tracker::store::Run;

fn sample_run() -> Run {
    Run {
        run_number: 1,
        file_number: 0,
        run_start_date: 0,
        state: WorkflowState::NotYetStarted,
        url: None,
    }
}

#[test]
fn canonical_json_of_one_run() {
    let json = run_to_json(&sample_run());
    assert_eq!(
        json,
        "{\"run_number\":1,\"file_number\":0,\"run_start_date\":0,\"state\":\"Not Yet Started\",\"url\":null}"
    );
}

#[test]
fn canonical_json_escapes_urls() {
    let mut run = sample_run();
    run.run_number = -3;
    run.url = Some(String::from("http://example/?q=\"a\\b\"\n"));
    let json = run_to_json(&run);
    assert_eq!(
        json,
        "{\"run_number\":-3,\"file_number\":0,\"run_start_date\":0,\"state\":\"Not Yet Started\",\"url\":\"http://example/?q=\\\"a\\\\b\\\"\\n\"}"
    );
}

#[test]
fn canonical_json_of_collections() {
    let empty: Vec<Run> = Vec::new();
    assert_eq!(runs_to_json(&empty), "[]");
    let mut two = Vec::new();
    two.push(sample_run());
    let mut second = sample_run();
    second.run_number = 2;
    second.state = WorkflowState::Complete;
    two.push(second);
    assert_eq!(
        runs_to_json(&two),
        "[{\"run_number\":1,\"file_number\":0,\"run_start_date\":0,\"state\":\"Not Yet Started\",\"url\":null},{\"run_number\":2,\"file_number\":0,\"run_start_date\":0,\"state\":\"Complete\",\"url\":null}]"
    );
}

#[test]
fn write_content_is_base64_of_the_canonical_json() {
    let w = build_run_write(&sample_run(), String::from("token-1"));
    assert_eq!(
        w.content,
        "W3sicnVuX251bWJlciI6MSwiZmlsZV9udW1iZXIiOjAsInJ1bl9zdGFydF9kYXRlIjowLCJzdGF0ZSI6Ik5vdCBZZXQgU3RhcnRlZCIsInVybCI6bnVsbH1d"
    );
    assert_eq!(w.token, "token-1");
    assert_eq!(w.message, "Update run 1 state to Not Yet Started via Web Dashboard");
}

#[test]
fn bulk_write_message_and_content() {
    let empty: Vec<Run> = Vec::new();
    let w = build_bulk_write(&empty, String::from("t"));
    assert_eq!(w.message, "Bulk update runs state via Web Dashboard");
    assert_eq!(w.content, "W10=");
}

#[test]
fn run_write_message_names_run_and_state() {
    let mut run = sample_run();
    run.run_number = 42;
    run.state = WorkflowState::Step2Error;
    let w = build_run_write(&run, String::new());
    assert_eq!(w.message, "Update run 42 state to Step 2 Error via Web Dashboard");
}

#[test]
fn stale_token_write_conflicts_and_changes_nothing() {
    let mut mirror = Mirror { content: String::from("old"), token: 7 };
    let (_, token) = mirror.fetch();
    // Two writes prepared from the same fetch.
    assert!(mirror.conditional_write(String::from("first"), token).is_ok());
    let second = mirror.conditional_write(String::from("second"), token);
    assert_eq!(second, Err(MirrorError::Conflict));
    // The mirror content reflects only the first write.
    assert_eq!(mirror.content, "first");
}

#[test]
fn fresh_token_write_succeeds_after_refetch() {
    let mut mirror = Mirror { content: String::new(), token: 0 };
    let (_, t0) = mirror.fetch();
    assert!(mirror.conditional_write(String::from("a"), t0).is_ok());
    let (content, t1) = mirror.fetch();
    assert_eq!(content, "a");
    assert_ne!(t0, t1);
    assert!(mirror.conditional_write(String::from("b"), t1).is_ok());
    assert_eq!(mirror.content, "b");
}

#[test]
fn push_runs_updates_the_mirror() {
    let mut mirror = Mirror { content: String::new(), token: 3 };
    let mut runs = Vec::new();
    runs.push(sample_run());
    assert!(mirror.push_runs(&runs).is_ok());
    assert_eq!(
        mirror.content,
        "W3sicnVuX251bWJlciI6MSwiZmlsZV9udW1iZXIiOjAsInJ1bl9zdGFydF9kYXRlIjowLCJzdGF0ZSI6Ik5vdCBZZXQgU3RhcnRlZCIsInVybCI6bnVsbH1d"
    );
}
