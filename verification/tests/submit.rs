use control_plane::submit::{
    check_request, fresh_workflow_id, lookup_kind, plan_submission, AppendOutcome, IngestPayload,
    Submission, SubmitAction, SubmitError, SubmitStage, TaskKind,
};

fn ingest_of(source: &str) -> Result<IngestPayload, String> {
    Ok(IngestPayload { source_id: source.to_string() })
}

fn append_texts(action: &SubmitAction) -> Vec<String> {
    match action {
        SubmitAction::Append(cmd) => cmd
            .args_iter()
            .map(|a| match a {
                redis::Arg::Simple(b) => String::from_utf8(b.to_vec()).unwrap(),
                redis::Arg::Cursor => panic!("cursor argument"),
            })
            .collect(),
        _ => panic!("an append was expected"),
    }
}

fn error_of<T>(r: Result<T, SubmitError>) -> SubmitError {
    match r {
        Ok(_) => panic!("an error was expected"),
        Err(e) => e,
    }
}

#[test]
fn the_registry_holds_ingest_and_nothing_else() {
    assert_eq!(lookup_kind("ingest"), Some(TaskKind::Ingest));
    assert_eq!(lookup_kind("bogus"), None);
    assert_eq!(lookup_kind(""), None);
    assert_eq!(lookup_kind("ingest "), None);
    assert_eq!(lookup_kind("ingests"), None);
    assert_eq!(lookup_kind("inges"), None);
    // the registry is asked with a normalized name
    assert_eq!(lookup_kind("INGEST"), None);
}

#[test]
fn check_request_takes_an_ingest_with_a_source() {
    let p = match check_request("ingest", ingest_of("abc")) {
        Ok(p) => p,
        Err(_) => panic!("the request is valid"),
    };
    assert_eq!(p.source_id, "abc");
}

#[test]
fn check_request_refuses_an_unknown_task_type_and_names_it() {
    let e = error_of(check_request("bogus", ingest_of("abc")));
    assert!(e.is_invalid_argument());
    assert!(matches!(e, SubmitError::InvalidArgument(_)));
    assert_eq!(e.message(), "unknown task_type bogus");
}

#[test]
fn check_request_does_not_look_at_the_payload_of_an_unknown_task_type() {
    let e = error_of(check_request("", Err("broken".to_string())));
    assert_eq!(e.message(), "unknown task_type ");
    assert!(e.is_invalid_argument());
}

#[test]
fn check_request_refuses_a_payload_that_did_not_decode() {
    let e = error_of(check_request(
        "ingest",
        Err("missing field `source_id` at line 1 column 2".to_string()),
    ));
    assert!(e.is_invalid_argument());
    assert_eq!(e.message(), "bad payload: missing field `source_id` at line 1 column 2");
}

#[test]
fn check_request_refuses_an_empty_source() {
    let e = error_of(check_request("ingest", ingest_of("")));
    assert!(e.is_invalid_argument());
    assert_eq!(e.message(), "bad payload: field `source_id` is empty");
}

#[test]
fn a_fresh_workflow_id_is_hyphenated_lower_case_hex() {
    let id = fresh_workflow_id();
    assert_eq!(id.len(), 36);
    for (i, c) in id.chars().enumerate() {
        if i == 8 || i == 13 || i == 18 || i == 23 {
            assert_eq!(c, '-');
        } else {
            assert!(c.is_ascii_digit() || ('a'..='f').contains(&c));
        }
    }
}

#[test]
fn fresh_workflow_ids_differ() {
    let a = fresh_workflow_id();
    let b = fresh_workflow_id();
    let c = fresh_workflow_id();
    assert_ne!(a, b);
    assert_ne!(a, c);
    assert_ne!(b, c);
}

#[test]
fn a_submission_writes_the_request_and_then_the_event() {
    let p = IngestPayload { source_id: "abc".to_string() };
    let mut s = Submission::ingest("W1".to_string(), &p);
    assert_eq!(s.workflow_id(), "W1");
    assert_eq!(s.stage(), SubmitStage::Request);
    assert_eq!(s.request().stream, "ingest:requests");
    assert_eq!(
        s.request().fields,
        vec![
            ("wf".to_string(), "W1".to_string()),
            ("source_id".to_string(), "abc".to_string()),
        ]
    );
    assert_eq!(s.event().stream, "tasks:events");
    assert_eq!(
        s.event().fields,
        vec![
            ("wf".to_string(), "W1".to_string()),
            ("phase".to_string(), "submitted".to_string()),
            ("note".to_string(), "ingest request for source_id=abc".to_string()),
        ]
    );
    assert_eq!(
        append_texts(&s.action()),
        vec!["XADD", "ingest:requests", "*", "wf", "W1", "source_id", "abc"]
    );
    let a = s.step(AppendOutcome::Appended);
    assert_eq!(s.stage(), SubmitStage::Event);
    assert_eq!(
        append_texts(&a),
        vec![
            "XADD",
            "tasks:events",
            "*",
            "wf",
            "W1",
            "phase",
            "submitted",
            "note",
            "ingest request for source_id=abc"
        ]
    );
    let a = s.step(AppendOutcome::Appended);
    assert_eq!(s.stage(), SubmitStage::Done);
    match a {
        SubmitAction::Accept(id) => assert_eq!(id, "W1"),
        _ => panic!("the submission is done"),
    }
}

#[test]
fn a_submission_that_is_done_stays_done() {
    let p = IngestPayload { source_id: "abc".to_string() };
    let mut s = Submission::ingest("W1".to_string(), &p);
    s.step(AppendOutcome::Appended);
    s.step(AppendOutcome::Appended);
    assert!(matches!(s.step(AppendOutcome::Appended), SubmitAction::Accept(_)));
    assert!(matches!(s.step(AppendOutcome::Failed("late".to_string())), SubmitAction::Accept(_)));
    assert_eq!(s.stage(), SubmitStage::Done);
}

#[test]
fn a_failed_first_append_is_an_internal_error_and_ends_the_submission() {
    let p = IngestPayload { source_id: "abc".to_string() };
    let mut s = Submission::ingest("W1".to_string(), &p);
    let a = s.step(AppendOutcome::Failed("connection refused".to_string()));
    assert_eq!(s.stage(), SubmitStage::Failed);
    match a {
        SubmitAction::Reject(e) => {
            assert!(!e.is_invalid_argument());
            assert!(matches!(e, SubmitError::Internal(_)));
            assert_eq!(e.message(), "connection refused");
        }
        _ => panic!("the submission failed"),
    }
    // no append is asked for after the failure
    assert!(matches!(s.step(AppendOutcome::Appended), SubmitAction::Reject(_)));
    assert!(matches!(s.action(), SubmitAction::Reject(_)));
    assert_eq!(s.stage(), SubmitStage::Failed);
}

#[test]
fn a_failed_second_append_is_an_internal_error() {
    let p = IngestPayload { source_id: "abc".to_string() };
    let mut s = Submission::ingest("W1".to_string(), &p);
    s.step(AppendOutcome::Appended);
    let a = s.step(AppendOutcome::Failed("timed out".to_string()));
    assert_eq!(s.stage(), SubmitStage::Failed);
    match a {
        SubmitAction::Reject(SubmitError::Internal(m)) => assert_eq!(m, "timed out"),
        _ => panic!("the submission failed"),
    }
    // the client hears of the first failure
    match s.step(AppendOutcome::Failed("again".to_string())) {
        SubmitAction::Reject(SubmitError::Internal(m)) => assert_eq!(m, "timed out"),
        _ => panic!("the submission failed"),
    }
}

#[test]
fn plan_submission_starts_a_submission_for_a_valid_request() {
    let s = match plan_submission("ingest", ingest_of("src-9"), "W7".to_string()) {
        Ok(s) => s,
        Err(_) => panic!("the request is valid"),
    };
    assert_eq!(s.workflow_id(), "W7");
    assert_eq!(s.stage(), SubmitStage::Request);
    assert_eq!(s.request().fields[1], ("source_id".to_string(), "src-9".to_string()));
    assert_eq!(
        s.event().fields[2],
        ("note".to_string(), "ingest request for source_id=src-9".to_string())
    );
}

#[test]
fn plan_submission_gives_the_error_for_a_request_that_is_not_taken() {
    let e = error_of(plan_submission("bogus", ingest_of("abc"), "W7".to_string()));
    assert_eq!(e.message(), "unknown task_type bogus");
    let e = error_of(plan_submission("ingest", Err("eof".to_string()), "W7".to_string()));
    assert_eq!(e.message(), "bad payload: eof");
    let e = error_of(plan_submission("ingest", ingest_of(""), "W7".to_string()));
    assert_eq!(e.message(), "bad payload: field `source_id` is empty");
}
