use cnr::manager::manager_cycle_events;
use cnr::planner::PlannerAction;
use cnr::records::{
    Actor, ClaimValue, CnrActor, CnrPredicate, Payload, StreamType, crown_actor, human_actor,
    normalize_goal, payload_event, stream_type_for, system_actor,
};

#[test]
fn actors_are_recorded_by_role() {
    assert_eq!(
        human_actor(),
        Actor::Human { id: "human:local".to_string(), name: None }
    );
    assert_eq!(
        crown_actor("opus"),
        Actor::Agent {
            id: "crown:local".to_string(),
            model: Some("opus".to_string()),
            harness: Some("crown".to_string()),
            run: None
        }
    );
    assert_eq!(system_actor(), Actor::System { id: "system:cnr".to_string() });
    assert_eq!(
        CnrActor::Connor { id: "connor:1".to_string() }.into_actor(),
        Actor::Agent {
            id: "connor:1".to_string(),
            model: None,
            harness: Some("connor".to_string()),
            run: None
        }
    );
    assert_eq!(
        CnrActor::ReachWorker {
            id: "reach:1".to_string(),
            model: "m".to_string(),
            harness: "codex".to_string(),
            run: Some("run_9".to_string())
        }
        .into_actor(),
        Actor::Agent {
            id: "reach:1".to_string(),
            model: Some("m".to_string()),
            harness: Some("codex".to_string()),
            run: Some("run_9".to_string())
        }
    );
}

#[test]
fn stream_types_follow_the_prefix() {
    assert_eq!(stream_type_for("goal:x"), StreamType::Goal);
    assert_eq!(stream_type_for("thread:x"), StreamType::Thread);
    assert_eq!(stream_type_for("run:x"), StreamType::Run);
    assert_eq!(stream_type_for("claim:x"), StreamType::Claim);
    assert_eq!(stream_type_for("artifact:x"), StreamType::Artifact);
    assert_eq!(stream_type_for("artifact_x"), StreamType::Artifact);
    assert_eq!(stream_type_for("system:cnr"), StreamType::System);
    assert_eq!(stream_type_for("team:a:b"), StreamType::Custom("team".to_string()));
    assert_eq!(stream_type_for("plain"), StreamType::Custom("plain".to_string()));
    assert_eq!(stream_type_for(""), StreamType::Custom("".to_string()));
    assert_eq!(stream_type_for("goal"), StreamType::Custom("goal".to_string()));
}

#[test]
fn goal_ids_are_normalized_once() {
    assert_eq!(normalize_goal("abc"), "goal:abc");
    assert_eq!(normalize_goal("goal:abc"), "goal:abc");
    assert_eq!(normalize_goal(&normalize_goal("x")), normalize_goal("x"));
    assert_eq!(stream_type_for(&normalize_goal("anything")), StreamType::Goal);
}

#[test]
fn predicate_names() {
    let all = [
        (CnrPredicate::TaskUnderstood, "task_understood"),
        (CnrPredicate::ApproachSelected, "approach_selected"),
        (CnrPredicate::ImplementationChanged, "implementation_changed"),
        (CnrPredicate::TestsRun, "tests_run"),
        (CnrPredicate::TestsPass, "tests_pass"),
        (CnrPredicate::Blocked, "blocked"),
        (CnrPredicate::NeedsHuman, "needs_human"),
        (CnrPredicate::ReadyForReview, "ready_for_review"),
        (CnrPredicate::ApprovedForMerge, "approved_for_merge"),
        (CnrPredicate::ApproachDead, "approach_dead"),
    ];
    for (p, name) in all {
        assert_eq!(p.as_str(), name);
    }
}

#[test]
fn payload_events_are_typed_by_stream() {
    let e = payload_event("run:1", Payload::Message("m".to_string()));
    assert_eq!(e.stream_type, StreamType::Run);
    assert_eq!(e.actor, system_actor());
}

#[test]
fn manager_records_each_action() {
    let actions = vec![
        PlannerAction::CreateTask { title: "T".into(), instructions: "I".into() },
        PlannerAction::DispatchRun { task_id: "task:goal:g".into(), executor: "modal".into() },
        PlannerAction::PostDigest { body: "B".into() },
        PlannerAction::AskHuman { question: "Q".into() },
    ];
    let ids: Vec<String> = vec!["c0".into(), "c1".into(), "c2".into(), "c3".into()];
    let batch = manager_cycle_events("goal:g", &actions, &ids);
    assert_eq!(batch.stream, "goal:g");
    assert!(!batch.new_stream);
    let events = batch.events;
    assert_eq!(events.len(), 4);
    for e in &events {
        assert_eq!(e.stream_type, StreamType::Goal);
        assert_eq!(e.actor, crown_actor("frontier-planner"));
    }
    let fields = |v: &ClaimValue| match v {
        ClaimValue::Fields(f) => f.clone(),
        ClaimValue::Json(_) => panic!("expected fields"),
    };
    match &events[0].payload {
        Payload::ClaimAsserted(c) => {
            assert_eq!((c.id.as_str(), c.subject.as_str(), c.predicate.as_str()), ("c0", "task:goal:g", "task_understood"));
            assert_eq!(
                fields(&c.value),
                vec![("title".to_string(), "T".to_string()), ("instructions".to_string(), "I".to_string())]
            );
        }
        other => panic!("unexpected {other:?}"),
    }
    match &events[1].payload {
        Payload::ClaimAsserted(c) => {
            assert_eq!((c.id.as_str(), c.subject.as_str(), c.predicate.as_str()), ("c1", "task:goal:g", "approach_selected"));
            assert_eq!(fields(&c.value), vec![("executor".to_string(), "modal".to_string())]);
        }
        other => panic!("unexpected {other:?}"),
    }
    match &events[2].payload {
        Payload::Message(m) => assert_eq!(m, "B"),
        other => panic!("unexpected {other:?}"),
    }
    match &events[3].payload {
        Payload::ClaimAsserted(c) => {
            assert_eq!((c.id.as_str(), c.subject.as_str(), c.predicate.as_str()), ("c3", "goal:g", "needs_human"));
            assert_eq!(fields(&c.value), vec![("question".to_string(), "Q".to_string())]);
            assert_eq!(c.confidence_bits, None);
            assert!(c.evidence.is_empty());
        }
        other => panic!("unexpected {other:?}"),
    }
}
