use cnr::projections::{CnrStateSummary, status_line, summarize};
use cnr::records::{ClaimValue, Payload, RunStarted, claim};

fn sample() -> Vec<Payload> {
    vec![
        Payload::GoalCreated,
        Payload::RunStarted(RunStarted { id: "r".into(), goal: None, label: None }),
        Payload::ClaimAsserted(claim(
            "c".into(),
            "s".into(),
            "p".into(),
            ClaimValue::Json(serde_json::Value::Null),
            vec![],
        )),
        Payload::ArtifactRef,
        Payload::Other,
        Payload::GoalCreated,
        Payload::Message("m".into()),
    ]
}

#[test]
fn summary_counts_each_kind() {
    let s = summarize(&sample());
    assert_eq!(
        s,
        CnrStateSummary { events: 7, goals: 2, runs: 1, claims: 1, artifacts: 1 }
    );
    assert!(s.goals + s.runs + s.claims + s.artifacts <= s.events);
}

#[test]
fn summary_of_appended_logs_adds_up() {
    let a = summarize(&sample());
    let mut both = sample();
    both.extend(sample());
    let b = summarize(&both);
    assert_eq!(b.goals, 2 * a.goals);
    assert_eq!(b.claims, 2 * a.claims);
    assert_eq!(summarize(&vec![]), CnrStateSummary { events: 0, goals: 0, runs: 0, claims: 0, artifacts: 0 });
}

#[test]
fn summary_texts() {
    let s = CnrStateSummary { events: 12, goals: 3, runs: 0, claims: 105, artifacts: 9 };
    assert_eq!(s.status_text(), "events=12 goals=3 runs=0 claims=105 artifacts=9");
    assert_eq!(s.replay_text(), "replayed 12 events (goals=3 claims=105)");
    assert_eq!(status_line("goal:x", "open", "Fix it"), "goal:x open Fix it");
}
