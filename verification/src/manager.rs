//! The manager cycle: what Crown records on a goal's stream for each action
//! the planner decided, and the laws that tie planning and recording
//! together.
use vstd::prelude::*;

use crate::planner::{
    ActionView, PlannerAction, plan_spec, task_id_for, run_started,
    claim_recorded, starts_run_for, asserts, first_task_id,
};
use crate::records::{
    ActorView, Claim, ClaimValue, NewEvent, Payload, StreamAppend, StreamType, StreamTypeView, claim,
    crown_actor, field_value, fields_value, fields_view,
};
use crate::text::copy_str;

verus! {

/// The model named for the planner when it records its actions.
pub open spec fn planner_actor() -> ActorView {
    ActorView::Agent {
        id: "crown:local"@,
        model: Some("frontier-planner"@),
        harness: Some("crown"@),
        run: None,
    }
}

/// `c` is the asserted claim `id` that `subject` has `predicate`, whose
/// value is an object with exactly the string `fields`, with no evidence and
/// no stated confidence.
pub open spec fn claim_is(
    c: Claim,
    id: Seq<char>,
    subject: Seq<char>,
    predicate: Seq<char>,
    fields: Seq<(Seq<char>, Seq<char>)>,
) -> bool {
    &&& c.id@ == id
    &&& c.subject@ == subject
    &&& c.predicate@ == predicate
    &&& c.value matches ClaimValue::Fields(f) && fields_view(f@) == fields
    &&& c.confidence_bits is None
    &&& c.evidence@.len() == 0
}

/// `e` is what the planner records on the stream of goal `goal` for action
/// `a`, a claim of it taking the id `id`: a task is recorded as understood,
/// a dispatch as the approach selected for the task, a digest as a message,
/// and a question as the goal needing a human.
pub open spec fn action_event(e: NewEvent, goal: Seq<char>, a: ActionView, id: Seq<char>) -> bool {
    &&& e.stream_type@ == StreamTypeView::Goal
    &&& e.actor@ == planner_actor()
    &&& match a {
        ActionView::CreateTask { title, instructions } => e.payload matches Payload::ClaimAsserted(
            c,
        ) && claim_is(
            c,
            id,
            task_id_for(goal),
            "task_understood"@,
            seq![("title"@, title), ("instructions"@, instructions)],
        ),
        ActionView::DispatchRun { task_id, executor } => e.payload matches Payload::ClaimAsserted(
            c,
        ) && claim_is(c, id, task_id, "approach_selected"@, seq![("executor"@, executor)]),
        ActionView::PostDigest { body } => e.payload matches Payload::Message(m) && m@ == body,
        ActionView::AskHuman { question } => e.payload matches Payload::ClaimAsserted(c)
            && claim_is(c, id, goal, "needs_human"@, seq![("question"@, question)]),
    }
}

/// The event the planner records for one action.
fn action_to_event(goal_id: &str, action: &PlannerAction, claim_id: &String) -> (e: NewEvent)
    ensures
        action_event(e, goal_id@, action@, claim_id@),
{
    let actor = crown_actor("frontier-planner");
    let payload = match action {
        PlannerAction::CreateTask { title, instructions } => {
            let value = fields_value("title", title.as_str(), "instructions", instructions.as_str());
            Payload::ClaimAsserted(
                claim(
                    claim_id.clone(),
                    first_task_id(goal_id),
                    copy_str("task_understood"),
                    value,
                    Vec::new(),
                ),
            )
        },
        PlannerAction::DispatchRun { task_id, executor } => {
            let value = field_value("executor", executor.as_str());
            Payload::ClaimAsserted(
                claim(
                    claim_id.clone(),
                    task_id.clone(),
                    copy_str("approach_selected"),
                    value,
                    Vec::new(),
                ),
            )
        },
        PlannerAction::PostDigest { body } => Payload::Message(body.clone()),
        PlannerAction::AskHuman { question } => {
            let value = field_value("question", question.as_str());
            Payload::ClaimAsserted(
                claim(
                    claim_id.clone(),
                    copy_str(goal_id),
                    copy_str("needs_human"),
                    value,
                    Vec::new(),
                ),
            )
        },
    };
    NewEvent { stream_type: StreamType::Goal, actor, payload }
}

/// The events a manager cycle appends for the planner's `actions`, in
/// order, to the stream named by the goal id `goal_id`, whatever it already
/// holds; the claim recorded for the `i`-th action takes the id
/// `claim_ids[i]`.
pub fn manager_cycle_events(
    goal_id: &str,
    actions: &Vec<PlannerAction>,
    claim_ids: &Vec<String>,
) -> (batch: StreamAppend)
    requires
        claim_ids@.len() == actions@.len(),
    ensures
        batch.stream@ == goal_id@,
        !batch.new_stream,
        batch.events@.len() == actions@.len(),
        forall|i: int|
            0 <= i < actions@.len() ==> action_event(
                #[trigger] batch.events@[i],
                goal_id@,
                actions@[i]@,
                claim_ids@[i]@,
            ),
        forall|i: int|
            #![trigger batch.events@[i]]
            0 <= i < actions@.len() ==> match actions@[i] {
                PlannerAction::CreateTask { title, instructions } => batch.events@[i].payload matches Payload::ClaimAsserted(c)
                    && c.id@ == claim_ids@[i]@ && c.subject@ == "task:"@ + goal_id@
                    && c.predicate@ == "task_understood"@,
                PlannerAction::DispatchRun { task_id, executor } => batch.events@[i].payload matches Payload::ClaimAsserted(c)
                    && c.id@ == claim_ids@[i]@ && c.subject@ == task_id@
                    && c.predicate@ == "approach_selected"@,
                PlannerAction::PostDigest { body } => batch.events@[i].payload matches Payload::Message(m)
                    && m@ == body@,
                PlannerAction::AskHuman { question } => batch.events@[i].payload matches Payload::ClaimAsserted(c)
                    && c.id@ == claim_ids@[i]@ && c.subject@ == goal_id@
                    && c.predicate@ == "needs_human"@,
            },
{
    let mut events: Vec<NewEvent> = Vec::new();
    let mut i: usize = 0;
    while i < actions.len()
        invariant
            i <= actions@.len(),
            claim_ids@.len() == actions@.len(),
            events@.len() == i,
            forall|j: int|
                0 <= j < i ==> action_event(
                    #[trigger] events@[j],
                    goal_id@,
                    actions@[j]@,
                    claim_ids@[j]@,
                ),
        decreases actions@.len() - i,
    {
        let e = action_to_event(goal_id, &actions[i], &claim_ids[i]);
        events.push(e);
        i = i + 1;
    }
    StreamAppend { stream: copy_str(goal_id), new_stream: false, events }
}

/// The payloads of a sequence of events.
pub open spec fn payloads(events: Seq<NewEvent>) -> Seq<Payload> {
    events.map_values(|e: NewEvent| e.payload)
}

/// `recorded` is what a manager cycle appends for goal `goal` after
/// planning on `events` with `executor`.
pub open spec fn records_plan(
    events: Seq<Payload>,
    goal: Seq<char>,
    executor: Seq<char>,
    recorded: Seq<NewEvent>,
    ids: Seq<Seq<char>>,
) -> bool {
    let plan = plan_spec(events, goal, executor);
    &&& recorded.len() == plan.len()
    &&& ids.len() == plan.len()
    &&& forall|i: int|
        0 <= i < plan.len() ==> action_event(#[trigger] recorded[i], goal, plan[i], ids[i])
}

/// No action of a plan dispatches a run.
pub open spec fn dispatches_nothing(plan: Seq<ActionView>) -> bool {
    forall|i: int| 0 <= i < plan.len() ==> !(#[trigger] plan[i] is DispatchRun)
}

proof fn lemma_recorded_starts_no_run(
    events: Seq<Payload>,
    goal: Seq<char>,
    executor: Seq<char>,
    recorded: Seq<NewEvent>,
    ids: Seq<Seq<char>>,
)
    requires
        records_plan(events, goal, executor, recorded, ids),
    ensures
        run_started(events + payloads(recorded), goal) == run_started(events, goal),
{
    let all = events + payloads(recorded);
    let plan = plan_spec(events, goal, executor);
    if run_started(all, goal) {
        let j = choose|j: int| 0 <= j < all.len() && #[trigger] starts_run_for(all[j], goal);
        if j >= events.len() {
            let k = j - events.len();
            assert(action_event(recorded[k], goal, plan[k], ids[k]));
            assert(all[j] == recorded[k].payload);
            assert(false);
        } else {
            assert(all[j] == events[j]);
        }
    }
    if run_started(events, goal) {
        let j = choose|j: int| 0 <= j < events.len() && #[trigger] starts_run_for(events[j], goal);
        assert(all[j] == events[j]);
        assert(starts_run_for(all[j], goal));
    }
}

/// A claim recorded before stays recorded when events are appended.
proof fn lemma_claim_kept(
    events: Seq<Payload>,
    more: Seq<Payload>,
    subject: Seq<char>,
    predicate: Seq<char>,
)
    requires
        claim_recorded(events, subject, predicate),
    ensures
        claim_recorded(events + more, subject, predicate),
{
    let j = choose|j: int| 0 <= j < events.len() && #[trigger] asserts(events[j], subject, predicate);
    assert((events + more)[j] == events[j]);
    assert(asserts((events + more)[j], subject, predicate));
}

/// A manager cycle never dispatches the same task twice before its run
/// starts: after the events a cycle records for goal `goal` on a log in
/// which no run of the goal has started, the plan for the goal dispatches
/// nothing, with any executor, and asks a human instead.
pub proof fn lemma_no_second_dispatch_before_run(
    events: Seq<Payload>,
    goal: Seq<char>,
    executor: Seq<char>,
    recorded: Seq<NewEvent>,
    ids: Seq<Seq<char>>,
    next_executor: Seq<char>,
)
    requires
        records_plan(events, goal, executor, recorded, ids),
        !run_started(events, goal),
    ensures
        dispatches_nothing(plan_spec(events + payloads(recorded), goal, next_executor)),
        plan_spec(events + payloads(recorded), goal, next_executor) == seq![
            ActionView::AskHuman {
                question: crate::planner::dispatch_pending_question(task_id_for(goal)),
            },
        ],
{
    let all = events + payloads(recorded);
    let task = task_id_for(goal);
    let plan = plan_spec(events, goal, executor);
    lemma_recorded_starts_no_run(events, goal, executor, recorded, ids);
    if claim_recorded(events, task, "approach_selected"@) {
        lemma_claim_kept(events, payloads(recorded), task, "approach_selected"@);
    } else {
        // The first plan dispatched the task; its record names the approach.
        assert(plan[1] == ActionView::DispatchRun { task_id: task, executor });
        assert(action_event(recorded[1], goal, plan[1], ids[1]));
        assert(all[events.len() as int + 1] == recorded[1].payload);
        assert(asserts(all[events.len() as int + 1], task, "approach_selected"@));
    }
    assert(claim_recorded(all, task, "approach_selected"@));
}

/// A dispatch goes to the executor asked for: on a log where the goal has
/// no run and no dispatch recorded, the plan dispatches the goal's first
/// task to `executor`.
pub proof fn lemma_dispatch_uses_requested_executor(
    events: Seq<Payload>,
    goal: Seq<char>,
    executor: Seq<char>,
)
    requires
        !run_started(events, goal),
        !claim_recorded(events, task_id_for(goal), "approach_selected"@),
    ensures
        exists|i: int|
            0 <= i < plan_spec(events, goal, executor).len() && #[trigger] plan_spec(
                events,
                goal,
                executor,
            )[i] == (ActionView::DispatchRun { task_id: task_id_for(goal), executor }),
{
    assert(plan_spec(events, goal, executor)[1] == (ActionView::DispatchRun {
        task_id: task_id_for(goal),
        executor,
    }));
}

} // verus!

verus! {

/// The dispatch intent is durable truth: when a cycle dispatches the goal's
/// first task, it records on the goal's stream that the approach for that
/// task is selected, naming the executor asked for.
pub proof fn lemma_dispatch_records_executor(
    events: Seq<Payload>,
    goal: Seq<char>,
    executor: Seq<char>,
    recorded: Seq<NewEvent>,
    ids: Seq<Seq<char>>,
)
    requires
        records_plan(events, goal, executor, recorded, ids),
        !run_started(events, goal),
        !claim_recorded(events, task_id_for(goal), "approach_selected"@),
    ensures
        recorded.len() == 3,
        recorded[1].stream_type@ == StreamTypeView::Goal,
        recorded[1].payload matches Payload::ClaimAsserted(c) && claim_is(
            c,
            ids[1],
            task_id_for(goal),
            "approach_selected"@,
            seq![("executor"@, executor)],
        ),
{
    let plan = plan_spec(events, goal, executor);
    assert(plan[1] == ActionView::DispatchRun { task_id: task_id_for(goal), executor });
    assert(action_event(recorded[1], goal, plan[1], ids[1]));
}

} // verus!
