use cnr::manager::manager_cycle_events;
use cnr::planner::{PlanError, PlannerAction, first_task_id, plan_next, validate_executor};
use cnr::records::{ClaimValue, Payload, RunStarted, claim, field_value};

fn approach_claim(subject: &str) -> Payload {
    Payload::ClaimAsserted(claim(
        "claim_1".to_string(),
        subject.to_string(),
        "approach_selected".to_string(),
        field_value("executor", "local"),
        vec![],
    ))
}

#[test]
fn dispatch_uses_requested_executor() {
    let output = plan_next(&vec![], "goal:test", "modal").unwrap();
    assert!(output.actions.iter().any(|action| {
        matches!(
            action,
            PlannerAction::DispatchRun { executor, .. } if executor == "modal"
        )
    }));
}

#[test]
fn dispatch_defaults_to_local_when_caller_requests_local() {
    let output = plan_next(&vec![], "goal:test", "local").unwrap();
    assert!(output.actions.iter().any(|action| {
        matches!(
            action,
            PlannerAction::DispatchRun { executor, .. } if executor == "local"
        )
    }));
}

#[test]
fn rejects_unknown_executor() {
    let err = plan_next(&vec![], "goal:test", "remote").unwrap_err();
    assert!(err.message().contains("unsupported executor"));
    assert_eq!(err, PlanError::UnsupportedExecutor { executor: "remote".to_string() });
    assert_eq!(err.message(), "unsupported executor `remote`; expected `local` or `modal`");
}

#[test]
fn does_not_dispatch_same_task_twice_before_run_starts() {
    let events = vec![approach_claim(&first_task_id("goal:test"))];
    let output = plan_next(&events, "goal:test", "local").unwrap();
    assert!(
        !output
            .actions
            .iter()
            .any(|action| matches!(action, PlannerAction::DispatchRun { .. }))
    );
    assert!(
        output
            .actions
            .iter()
            .any(|action| matches!(action, PlannerAction::AskHuman { .. }))
    );
}

#[test]
fn first_plan_creates_dispatches_and_posts() {
    let output = plan_next(&vec![], "goal:g", "local").unwrap();
    assert_eq!(
        output.actions,
        vec![
            PlannerAction::CreateTask {
                title: "Understand goal and propose first implementation slice".to_string(),
                instructions: "Inspect the repository, identify the smallest useful first slice for goal:g, and emit cnr-claims.".to_string(),
            },
            PlannerAction::DispatchRun { task_id: "task:goal:g".to_string(), executor: "local".to_string() },
            PlannerAction::PostDigest {
                body: "Crown created the first task and requested Reach execution.".to_string()
            },
        ]
    );
}

#[test]
fn pending_dispatch_question_names_the_task() {
    let events = vec![approach_claim("task:goal:g")];
    let output = plan_next(&events, "goal:g", "modal").unwrap();
    assert_eq!(
        output.actions,
        vec![PlannerAction::AskHuman {
            question: "Dispatch intent is already recorded for task:goal:g, but no run has started yet. Start the executor, redirect, or inspect dispatch state?".to_string()
        }]
    );
}

fn run_for(goal: &str) -> Payload {
    Payload::RunStarted(RunStarted { id: "run_1".into(), goal: Some(goal.into()), label: None })
}

#[test]
fn started_run_waits_for_review_claim() {
    let events = vec![run_for("goal:g"), approach_claim("task:goal:g")];
    let output = plan_next(&events, "goal:g", "local").unwrap();
    assert_eq!(
        output.actions,
        vec![PlannerAction::AskHuman {
            question: "Reach has not produced a ready_for_review claim yet. Continue, redirect, or inspect transcript?".to_string()
        }]
    );
}

#[test]
fn ready_for_review_asks_for_approval() {
    let ready = Payload::ClaimAsserted(claim(
        "c".into(),
        "task:goal:g".into(),
        "ready_for_review".into(),
        ClaimValue::Json(serde_json::Value::Bool(true)),
        vec![],
    ));
    let events = vec![ready, run_for("goal:g")];
    let output = plan_next(&events, "goal:g", "local").unwrap();
    assert_eq!(
        output.actions,
        vec![PlannerAction::PostDigest {
            body: "Reach reported work ready for review. Human approval is the next gate.".to_string()
        }]
    );
}

#[test]
fn runs_of_other_goals_do_not_count() {
    let events = vec![run_for("goal:other"), Payload::Other, Payload::GoalCreated];
    let output = plan_next(&events, "goal:g", "local").unwrap();
    assert_eq!(output.actions.len(), 3);
}

#[test]
fn validate_executor_accepts_only_local_and_modal() {
    assert!(validate_executor("local").is_ok());
    assert!(validate_executor("modal").is_ok());
    assert!(validate_executor("Local").is_err());
    assert!(validate_executor("").is_err());
}

#[test]
fn second_cycle_does_not_dispatch_again() {
    let mut events: Vec<Payload> = vec![];
    let first = plan_next(&events, "goal:g", "local").unwrap();
    let ids: Vec<String> = (0..first.actions.len()).map(|i| format!("claim_{i}")).collect();
    for e in manager_cycle_events("goal:g", &first.actions, &ids).events {
        events.push(e.payload);
    }
    let second = plan_next(&events, "goal:g", "modal").unwrap();
    assert!(!second.actions.iter().any(|a| matches!(a, PlannerAction::DispatchRun { .. })));
    assert!(matches!(second.actions[0], PlannerAction::AskHuman { .. }));
}
