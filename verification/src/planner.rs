//! Crown's planner: from what the event log holds about a goal, the next
//! actions to take.
use vstd::prelude::*;

use crate::records::{Payload, RunStarted};
use crate::text::{cat, cat3, copy_str, str_eq};

verus! {

/// An action the planner asks for.
#[allow(inconsistent_fields)]
#[derive(Clone, Debug, PartialEq, Eq)]
pub enum PlannerAction {
    CreateTask { title: String, instructions: String },
    DispatchRun { task_id: String, executor: String },
    PostDigest { body: String },
    AskHuman { question: String },
}

/// A planner action, with its text as character sequences.
#[allow(inconsistent_fields)]
pub enum ActionView {
    CreateTask { title: Seq<char>, instructions: Seq<char> },
    DispatchRun { task_id: Seq<char>, executor: Seq<char> },
    PostDigest { body: Seq<char> },
    AskHuman { question: Seq<char> },
}

impl View for PlannerAction {
    type V = ActionView;

    open spec fn view(&self) -> ActionView {
        match self {
            PlannerAction::CreateTask { title, instructions } => ActionView::CreateTask {
                title: title@,
                instructions: instructions@,
            },
            PlannerAction::DispatchRun { task_id, executor } => ActionView::DispatchRun {
                task_id: task_id@,
                executor: executor@,
            },
            PlannerAction::PostDigest { body } => ActionView::PostDigest { body: body@ },
            PlannerAction::AskHuman { question } => ActionView::AskHuman { question: question@ },
        }
    }
}

/// The texts of a sequence of actions.
pub open spec fn actions_view(actions: Seq<PlannerAction>) -> Seq<ActionView> {
    actions.map_values(|a: PlannerAction| a@)
}

/// What the planner decided.
#[derive(Clone, Debug, PartialEq, Eq)]
pub struct PlannerOutput {
    pub actions: Vec<PlannerAction>,
}

/// Why the planner refused to plan.
#[derive(Clone, Debug, PartialEq, Eq)]
pub enum PlanError {
    /// The executor is neither `local` nor `modal`.
    UnsupportedExecutor { executor: String },
}

/// The text of a planner error.
pub open spec fn plan_error_text(executor: Seq<char>) -> Seq<char> {
    "unsupported executor `"@ + executor + "`; expected `local` or `modal`"@
}

impl PlanError {
    /// The error's text.
    pub fn message(&self) -> (s: String)
        ensures
            self matches PlanError::UnsupportedExecutor { executor } && s@ == plan_error_text(
                executor@,
            ),
    {
        match self {
            PlanError::UnsupportedExecutor { executor } => cat3(
                "unsupported executor `",
                executor.as_str(),
                "`; expected `local` or `modal`",
            ),
        }
    }
}

/// The executors that runs can be dispatched to.
pub open spec fn valid_executor(executor: Seq<char>) -> bool {
    executor == "local"@ || executor == "modal"@
}

/// Accepts `local` and `modal`; refuses any other executor.
pub fn validate_executor(executor: &str) -> (r: Result<(), PlanError>)
    ensures
        r is Ok <==> valid_executor(executor@),
        r matches Err(PlanError::UnsupportedExecutor { executor: e }) ==> e@ == executor@,
{
    if str_eq(executor, "local") || str_eq(executor, "modal") {
        Ok(())
    } else {
        Err(PlanError::UnsupportedExecutor { executor: copy_str(executor) })
    }
}

/// The id of a goal's first task.
pub open spec fn task_id_for(goal: Seq<char>) -> Seq<char> {
    "task:"@ + goal
}

/// The id of the first task of goal `goal_id`.
pub fn first_task_id(goal_id: &str) -> (s: String)
    ensures
        s@ == task_id_for(goal_id@),
{
    cat("task:", goal_id)
}

/// The event records that a run started for `goal`.
pub open spec fn starts_run_for(p: Payload, goal: Seq<char>) -> bool {
    match p {
        Payload::RunStarted(r) => match r.goal {
            Some(g) => g@ == goal,
            None => false,
        },
        _ => false,
    }
}

/// The event asserts a claim that `subject` has `predicate`.
pub open spec fn asserts(p: Payload, subject: Seq<char>, predicate: Seq<char>) -> bool {
    match p {
        Payload::ClaimAsserted(c) => c.subject@ == subject && c.predicate@ == predicate,
        _ => false,
    }
}

/// Some event records that a run started for `goal`.
pub open spec fn run_started(events: Seq<Payload>, goal: Seq<char>) -> bool {
    exists|i: int| 0 <= i < events.len() && #[trigger] starts_run_for(events[i], goal)
}

/// Some event asserts that `subject` has `predicate`.
pub open spec fn claim_recorded(events: Seq<Payload>, subject: Seq<char>, predicate: Seq<char>) -> bool {
    exists|i: int| 0 <= i < events.len() && #[trigger] asserts(events[i], subject, predicate)
}

/// The question asked when a dispatch is recorded but no run started.
pub open spec fn dispatch_pending_question(task: Seq<char>) -> Seq<char> {
    "Dispatch intent is already recorded for "@ + task
        + ", but no run has started yet. Start the executor, redirect, or inspect dispatch state?"@
}

/// The instructions of a goal's first task.
pub open spec fn first_task_instructions(goal: Seq<char>) -> Seq<char> {
    "Inspect the repository, identify the smallest useful first slice for "@ + goal
        + ", and emit cnr-claims."@
}

/// The title of a goal's first task.
pub open spec fn first_task_title() -> Seq<char> {
    "Understand goal and propose first implementation slice"@
}

/// The digest posted with the first dispatch.
pub open spec fn dispatched_digest() -> Seq<char> {
    "Crown created the first task and requested Reach execution."@
}

/// The digest posted when work is ready for review.
pub open spec fn ready_digest() -> Seq<char> {
    "Reach reported work ready for review. Human approval is the next gate."@
}

/// The question asked while a run has not reported work ready for review.
pub open spec fn not_ready_question() -> Seq<char> {
    "Reach has not produced a ready_for_review claim yet. Continue, redirect, or inspect transcript?"@
}

/// The plan for `goal` given the events so far:
/// a dispatch recorded with no run started yet asks a human rather than
/// dispatching again; no run yet creates and dispatches the first task to
/// `executor`; a run whose task is ready for review asks for approval;
/// otherwise a human is asked how to go on.
pub open spec fn plan_spec(events: Seq<Payload>, goal: Seq<char>, executor: Seq<char>) -> Seq<
    ActionView,
> {
    let task = task_id_for(goal);
    let has_run = run_started(events, goal);
    let has_dispatch = claim_recorded(events, task, "approach_selected"@);
    let has_ready = claim_recorded(events, task, "ready_for_review"@);
    if has_dispatch && !has_run {
        seq![ActionView::AskHuman { question: dispatch_pending_question(task) }]
    } else if !has_run {
        seq![
            ActionView::CreateTask {
                title: first_task_title(),
                instructions: first_task_instructions(goal),
            },
            ActionView::DispatchRun { task_id: task, executor },
            ActionView::PostDigest { body: dispatched_digest() },
        ]
    } else if has_ready {
        seq![ActionView::PostDigest { body: ready_digest() }]
    } else {
        seq![ActionView::AskHuman { question: not_ready_question() }]
    }
}

/// Plans the next actions for goal `goal_id` from the events recorded so
/// far, dispatching to `executor`, which must be `local` or `modal`.
pub fn plan_next(events: &Vec<Payload>, goal_id: &str, executor: &str) -> (r: Result<
    PlannerOutput,
    PlanError,
>)
    ensures
        r is Ok <==> valid_executor(executor@),
        r matches Err(PlanError::UnsupportedExecutor { executor: e }) ==> e@ == executor@,
        r matches Ok(out) ==> actions_view(out.actions@) == plan_spec(events@, goal_id@, executor@),
{
    validate_executor(executor)?;
    let task_id = first_task_id(goal_id);
    let mut has_run = false;
    let mut has_dispatch = false;
    let mut has_ready_claim = false;
    let mut i: usize = 0;
    while i < events.len()
        invariant
            i <= events@.len(),
            task_id@ == task_id_for(goal_id@),
            has_run == run_started(events@.take(i as int), goal_id@),
            has_dispatch == claim_recorded(events@.take(i as int), task_id@, "approach_selected"@),
            has_ready_claim == claim_recorded(events@.take(i as int), task_id@, "ready_for_review"@),
        decreases events@.len() - i,
    {
        let ghost prev = events@.take(i as int);
        let ghost next = events@.take(i + 1);
        assert(next =~= prev.push(events@[i as int]));
        match &events[i] {
            Payload::RunStarted(run) => {
                match &run.goal {
                    Some(g) => {
                        if str_eq(g.as_str(), goal_id) {
                            has_run = true;
                        }
                    },
                    None => {},
                }
            },
            Payload::ClaimAsserted(c) => {
                if str_eq(c.subject.as_str(), task_id.as_str()) {
                    if str_eq(c.predicate.as_str(), "approach_selected") {
                        has_dispatch = true;
                    } else if str_eq(c.predicate.as_str(), "ready_for_review") {
                        has_ready_claim = true;
                    }
                }
            },
            _ => {},
        }
        proof {
            reveal_strlit("approach_selected");
            reveal_strlit("ready_for_review");
            assert("approach_selected"@.len() != "ready_for_review"@.len());
            assert(forall|j: int| 0 <= j < prev.len() ==> prev[j] == #[trigger] next[j]);
            if starts_run_for(events@[i as int], goal_id@) {
                assert(starts_run_for(next[i as int], goal_id@));
            }
            if asserts(events@[i as int], task_id@, "approach_selected"@) {
                assert(asserts(next[i as int], task_id@, "approach_selected"@));
            }
            if asserts(events@[i as int], task_id@, "ready_for_review"@) {
                assert(asserts(next[i as int], task_id@, "ready_for_review"@));
            }
            if run_started(next, goal_id@) {
                let j = choose|j: int| 0 <= j < next.len() && #[trigger] starts_run_for(next[j], goal_id@);
                if j < prev.len() {
                    assert(starts_run_for(prev[j], goal_id@));
                }
            }
            if claim_recorded(next, task_id@, "approach_selected"@) {
                let j = choose|j: int| 0 <= j < next.len() && #[trigger] asserts(next[j], task_id@, "approach_selected"@);
                if j < prev.len() {
                    assert(asserts(prev[j], task_id@, "approach_selected"@));
                }
            }
            if claim_recorded(next, task_id@, "ready_for_review"@) {
                let j = choose|j: int| 0 <= j < next.len() && #[trigger] asserts(next[j], task_id@, "ready_for_review"@);
                if j < prev.len() {
                    assert(asserts(prev[j], task_id@, "ready_for_review"@));
                }
            }
        }
        i = i + 1;
    }
    assert(events@.take(events@.len() as int) =~= events@);
    let mut actions: Vec<PlannerAction> = Vec::new();
    if has_dispatch && !has_run {
        let question = cat3(
            "Dispatch intent is already recorded for ",
            task_id.as_str(),
            ", but no run has started yet. Start the executor, redirect, or inspect dispatch state?",
        );
        actions.push(PlannerAction::AskHuman { question });
    } else if !has_run {
        let title = copy_str("Understand goal and propose first implementation slice");
        let instructions = cat3(
            "Inspect the repository, identify the smallest useful first slice for ",
            goal_id,
            ", and emit cnr-claims.",
        );
        actions.push(PlannerAction::CreateTask { title, instructions });
        actions.push(PlannerAction::DispatchRun { task_id, executor: copy_str(executor) });
        actions.push(
            PlannerAction::PostDigest {
                body: copy_str("Crown created the first task and requested Reach execution."),
            },
        );
    } else if has_ready_claim {
        actions.push(
            PlannerAction::PostDigest {
                body: copy_str(
                    "Reach reported work ready for review. Human approval is the next gate.",
                ),
            },
        );
    } else {
        actions.push(
            PlannerAction::AskHuman {
                question: copy_str(
                    "Reach has not produced a ready_for_review claim yet. Continue, redirect, or inspect transcript?",
                ),
            },
        );
    }
    assert(actions_view(actions@) =~= plan_spec(events@, goal_id@, executor@));
    Ok(PlannerOutput { actions })
}

} // verus!

verus! {

/// Only a run started for the goal itself is its run: a goal has a run
/// exactly when some event starts a run whose goal is that goal. A run
/// started for no goal, or for another goal, is nobody's run of `goal`.
pub proof fn lemma_run_started_only_for_its_goal(events: Seq<Payload>, goal: Seq<char>)
    ensures
        run_started(events, goal) <==> exists|i: int|
            0 <= i < events.len() && (#[trigger] events[i] matches Payload::RunStarted(r)
                && r.goal matches Some(x) && x@ == goal),
{
    if run_started(events, goal) {
        let i = choose|i: int| 0 <= i < events.len() && #[trigger] starts_run_for(events[i], goal);
        assert(events[i] matches Payload::RunStarted(r) && r.goal matches Some(x) && x@ == goal);
    }
    if exists|i: int|
        0 <= i < events.len() && (#[trigger] events[i] matches Payload::RunStarted(r)
            && r.goal matches Some(x) && x@ == goal) {
        let i = choose|i: int|
            0 <= i < events.len() && (#[trigger] events[i] matches Payload::RunStarted(r)
                && r.goal matches Some(x) && x@ == goal);
        assert(starts_run_for(events[i], goal));
    }
}

/// A run started for no goal does not count as a run of any goal: on a log
/// holding only such a run, every goal still gets its first task created
/// and dispatched to the executor asked for.
pub proof fn lemma_goalless_run_does_not_block_dispatch(
    r: RunStarted,
    goal: Seq<char>,
    executor: Seq<char>,
)
    requires
        r.goal is None,
    ensures
        !run_started(seq![Payload::RunStarted(r)], goal),
        plan_spec(seq![Payload::RunStarted(r)], goal, executor).len() == 3,
        plan_spec(seq![Payload::RunStarted(r)], goal, executor)[1] == (ActionView::DispatchRun {
            task_id: "task:"@ + goal,
            executor,
        }),
{
    let events = seq![Payload::RunStarted(r)];
    lemma_run_started_only_for_its_goal(events, goal);
    if claim_recorded(events, task_id_for(goal), "approach_selected"@) {
        let i = choose|i: int|
            0 <= i < events.len() && #[trigger] asserts(events[i], task_id_for(goal), "approach_selected"@);
        assert(events[i] == Payload::RunStarted(r));
    }
}

} // verus!

verus! {

/// A claim counts as recorded exactly when some event asserts a claim with
/// that very subject and predicate.
pub proof fn lemma_claim_recorded_only_when_asserted(
    events: Seq<Payload>,
    subject: Seq<char>,
    predicate: Seq<char>,
)
    ensures
        claim_recorded(events, subject, predicate) <==> exists|i: int|
            0 <= i < events.len() && (#[trigger] events[i] matches Payload::ClaimAsserted(c)
                && c.subject@ == subject && c.predicate@ == predicate),
{
    if claim_recorded(events, subject, predicate) {
        let i = choose|i: int|
            0 <= i < events.len() && #[trigger] asserts(events[i], subject, predicate);
        assert(events[i] matches Payload::ClaimAsserted(c) && c.subject@ == subject
            && c.predicate@ == predicate);
    }
    if exists|i: int|
        0 <= i < events.len() && (#[trigger] events[i] matches Payload::ClaimAsserted(c)
            && c.subject@ == subject && c.predicate@ == predicate) {
        let i = choose|i: int|
            0 <= i < events.len() && (#[trigger] events[i] matches Payload::ClaimAsserted(c)
                && c.subject@ == subject && c.predicate@ == predicate);
        assert(asserts(events[i], subject, predicate));
    }
}

} // verus!

verus! {

/// The four situations a goal can be in, and what Crown does in each:
/// - its run started and its task is ready for review: post that human
///   approval is the next gate;
/// - its run started and its task is not ready: ask a human how to go on;
/// - no run yet but a dispatch recorded for its task: ask a human about the
///   pending dispatch, naming the task;
/// - neither: create the task `task:{goal}`, dispatch it to the executor
///   asked for, and post that it was dispatched.
pub proof fn lemma_plan_by_situation(events: Seq<Payload>, goal: Seq<char>, executor: Seq<char>)
    ensures
        ({
            let task = "task:"@ + goal;
            let plan = plan_spec(events, goal, executor);
            &&& run_started(events, goal) && claim_recorded(events, task, "ready_for_review"@)
                ==> plan == seq![
                ActionView::PostDigest {
                    body: "Reach reported work ready for review. Human approval is the next gate."@,
                },
            ]
            &&& run_started(events, goal) && !claim_recorded(events, task, "ready_for_review"@)
                ==> plan == seq![
                ActionView::AskHuman {
                    question: "Reach has not produced a ready_for_review claim yet. Continue, redirect, or inspect transcript?"@,
                },
            ]
            &&& !run_started(events, goal) && claim_recorded(events, task, "approach_selected"@)
                ==> plan == seq![
                ActionView::AskHuman {
                    question: "Dispatch intent is already recorded for "@ + task
                        + ", but no run has started yet. Start the executor, redirect, or inspect dispatch state?"@,
                },
            ]
            &&& !run_started(events, goal) && !claim_recorded(events, task, "approach_selected"@)
                ==> plan == seq![
                ActionView::CreateTask {
                    title: "Understand goal and propose first implementation slice"@,
                    instructions: "Inspect the repository, identify the smallest useful first slice for "@
                        + goal + ", and emit cnr-claims."@,
                },
                ActionView::DispatchRun { task_id: task, executor },
                ActionView::PostDigest {
                    body: "Crown created the first task and requested Reach execution."@,
                },
            ]
        }),
{
}

} // verus!
