use cnr::executor::{
    ClaimBlockError, FULL_CONFIDENCE_BITS, WorkerArtifact, WorkerClaim, WorkerOutput,
    extract_claim_block, incomplete_run_claim_event, parsed_transcript_events,
    run_lifecycle_events, transcript_run_events, worker_claims_to_axial,
};
use cnr::records::{ClaimValue, Payload, RunStatus, StreamType, system_actor};

#[test]
fn extracts_fenced_claims() {
    let transcript = r#"hello
```cnr-claims
{"claims":[{"subject":"task:1","predicate":"ready_for_review","value":true,"confidence":0.82}],"artifacts":[]}
```
"#;
    let json = extract_claim_block(transcript).unwrap();
    let output: serde_json::Value = serde_json::from_str(&json).unwrap();
    assert_eq!(output["claims"][0]["predicate"], "ready_for_review");
}

#[test]
fn missing_claims_is_error() {
    assert!(extract_claim_block("plain transcript").is_err());
}

#[test]
fn claim_block_errors() {
    assert_eq!(extract_claim_block("no fence"), Err(ClaimBlockError::MissingFence));
    assert_eq!(
        extract_claim_block("a ```cnr-claims {}"),
        Err(ClaimBlockError::UnterminatedFence)
    );
    assert_eq!(ClaimBlockError::MissingFence.message(), "missing cnr-claims fence");
    assert_eq!(ClaimBlockError::UnterminatedFence.message(), "unterminated cnr-claims fence");
}

#[test]
fn claim_block_is_the_first_block_trimmed() {
    assert_eq!(
        extract_claim_block("x```cnr-claims\n  {\"a\":1}  \n```\n```cnr-claims\n{}\n```").unwrap(),
        "{\"a\":1}"
    );
    assert_eq!(extract_claim_block("```cnr-claims```").unwrap(), "");
}

#[test]
fn worker_transcript_example_frames() {
    let transcript = "Worker inspected the task.\n\n```cnr-claims\n{\n  \"claims\": [],\n  \"artifacts\": [{\"kind\": \"diff\", \"path\": \"a.diff\"}]\n}\n```\n";
    let json = extract_claim_block(transcript).unwrap();
    let v: serde_json::Value = serde_json::from_str(&json).unwrap();
    assert_eq!(v["artifacts"][0]["kind"], "diff");
}

#[test]
fn worker_claims_keep_their_order_and_fields() {
    let output = WorkerOutput {
        claims: vec![
            WorkerClaim {
                subject: "task:1".into(),
                predicate: "tests_run".into(),
                value: serde_json::Value::Bool(true),
                confidence_bits: Some(0.9f32.to_bits()),
                evidence: vec!["ev1".into()],
            },
            WorkerClaim {
                subject: "task:1".into(),
                predicate: "ready_for_review".into(),
                value: serde_json::Value::Null,
                confidence_bits: None,
                evidence: vec![],
            },
        ],
        artifacts: vec![WorkerArtifact { kind: "diff".into(), path: "a.diff".into() }],
    };
    let claims = worker_claims_to_axial(output, &vec!["c1".into(), "c2".into()]);
    assert_eq!(claims.len(), 2);
    assert_eq!(claims[0].id, "c1");
    assert_eq!(claims[0].predicate, "tests_run");
    assert_eq!(claims[0].confidence_bits.map(f32::from_bits), Some(0.9));
    assert_eq!(claims[0].evidence, vec!["ev1".to_string()]);
    assert!(matches!(claims[0].value, ClaimValue::Json(serde_json::Value::Bool(true))));
    assert_eq!(claims[1].id, "c2");
    assert_eq!(claims[1].predicate, "ready_for_review");
}

#[test]
fn incomplete_run_needs_a_human() {
    let b = incomplete_run_claim_event("c9".into(), "run_1", "t7", "no block");
    assert_eq!(b.stream, "run_1");
    assert!(!b.new_stream);
    assert_eq!(b.events.len(), 1);
    let e = b.events.into_iter().next().unwrap();
    assert_eq!(e.stream_type, StreamType::Run);
    assert_eq!(e.actor, system_actor());
    match e.payload {
        Payload::ClaimAsserted(c) => {
            assert_eq!(c.id, "c9");
            assert_eq!(c.subject, "task:t7");
            assert_eq!(c.predicate, "needs_human");
            assert_eq!(c.confidence_bits, Some(FULL_CONFIDENCE_BITS));
            assert_eq!(FULL_CONFIDENCE_BITS, 1.0f32.to_bits());
            match c.value {
                ClaimValue::Fields(f) => assert_eq!(
                    f,
                    vec![("run".to_string(), "run_1".to_string()), ("reason".to_string(), "no block".to_string())]
                ),
                ClaimValue::Json(_) => panic!("expected fields"),
            }
        }
        other => panic!("unexpected {other:?}"),
    }
}

#[test]
fn lifecycle_starts_then_finishes() {
    let b = run_lifecycle_events(
        "run_1",
        Some("goal:g".into()),
        Some("label".into()),
        RunStatus::Failed,
        Some("why".into()),
    );
    assert_eq!(b.stream, "run_1");
    assert!(!b.new_stream);
    let events = b.events;
    assert_eq!(events.len(), 2);
    match (&events[0].payload, &events[1].payload) {
        (Payload::RunStarted(s), Payload::RunFinished(f)) => {
            assert_eq!(s.id, "run_1");
            assert_eq!(s.goal.as_deref(), Some("goal:g"));
            assert_eq!(s.label.as_deref(), Some("label"));
            assert_eq!(f.id, "run_1");
            assert_eq!(f.status, RunStatus::Failed);
            assert_eq!(f.summary.as_deref(), Some("why"));
        }
        other => panic!("unexpected {other:?}"),
    }
}

#[test]
fn parsed_transcript_wraps_claims_in_a_run() {
    let output = WorkerOutput {
        claims: vec![WorkerClaim {
            subject: "task:1".into(),
            predicate: "tests_pass".into(),
            value: serde_json::Value::Bool(true),
            confidence_bits: None,
            evidence: vec![],
        }],
        artifacts: vec![],
    };
    let claims = worker_claims_to_axial(output, &vec!["c1".into()]);
    let b = parsed_transcript_events("run_2", None, Some("manual".into()), claims);
    assert_eq!(b.stream, "run_2");
    assert!(b.new_stream);
    let events = b.events;
    assert_eq!(events.len(), 3);
    assert!(matches!(&events[0].payload, Payload::RunStarted(s) if s.id == "run_2" && s.goal.is_none()));
    assert!(matches!(&events[1].payload, Payload::ClaimAsserted(c) if c.id == "c1"));
    assert!(matches!(&events[2].payload, Payload::RunFinished(f)
        if f.status == RunStatus::Succeeded && f.summary.as_deref() == Some("parsed cnr-claims")));
}

#[test]
fn unreadable_transcript_fails_the_run_and_asks_a_human() {
    let appends = transcript_run_events(
        "run_3",
        Some("goal:g".into()),
        Some("manual transcript t.md".into()),
        "manual",
        Err("missing cnr-claims fence".into()),
        "c5".into(),
    );
    assert_eq!(appends.len(), 2);
    assert_eq!(appends[0].stream, "run_3");
    assert!(!appends[0].new_stream);
    assert!(matches!(&appends[0].events[1].payload, Payload::RunFinished(f)
        if f.status == RunStatus::Failed && f.summary.as_deref() == Some("missing cnr-claims fence")));
    assert_eq!(appends[1].stream, "run_3");
    assert!(matches!(&appends[1].events[0].payload, Payload::ClaimAsserted(c)
        if c.id == "c5" && c.subject == "task:manual" && c.predicate == "needs_human"));
}

#[test]
fn readable_transcript_opens_a_succeeded_run() {
    let appends = transcript_run_events("run_4", None, None, "manual", Ok(vec![]), "unused".into());
    assert_eq!(appends.len(), 1);
    assert!(appends[0].new_stream);
    assert_eq!(appends[0].events.len(), 2);
    assert!(matches!(&appends[0].events[1].payload, Payload::RunFinished(f) if f.status == RunStatus::Succeeded));
}
