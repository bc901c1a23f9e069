//! The records CNR writes to and reads from the event spine: actors, stream
//! kinds, claims and event payloads, held as plain values. The durable store
//! itself lives outside the library; these are what the library decides.
use vstd::prelude::*;

use crate::text::{cat, copy_str, has_prefix, starts_with, substring, chars_of};

verus! {

/// A JSON value carried through unchanged (a claim's value as a worker
/// wrote it).
#[verifier::external_type_specification]
#[verifier::external_body]
pub struct ExJsonValue(serde_json::Value);

/// Who acts in the coordination runtime.
#[allow(inconsistent_fields)]
#[derive(Clone, Debug, PartialEq, Eq)]
pub enum CnrActor {
    Human { id: String, name: Option<String> },
    Connor { id: String },
    Crown { id: String, model: String },
    ReachWorker { id: String, model: String, harness: String, run: Option<String> },
    System { id: String },
}

/// An actor as the event spine records it.
#[allow(inconsistent_fields)]
#[derive(Clone, Debug, PartialEq, Eq)]
pub enum Actor {
    Human { id: String, name: Option<String> },
    Agent { id: String, model: Option<String>, harness: Option<String>, run: Option<String> },
    System { id: String },
}

/// A recorded actor, with its text as character sequences.
#[allow(inconsistent_fields)]
pub enum ActorView {
    Human { id: Seq<char>, name: Option<Seq<char>> },
    Agent {
        id: Seq<char>,
        model: Option<Seq<char>>,
        harness: Option<Seq<char>>,
        run: Option<Seq<char>>,
    },
    System { id: Seq<char> },
}

/// The text of an optional string.
pub open spec fn text_of(o: Option<String>) -> Option<Seq<char>> {
    match o {
        Some(s) => Some(s@),
        None => None,
    }
}

impl View for Actor {
    type V = ActorView;

    open spec fn view(&self) -> ActorView {
        match self {
            Actor::Human { id, name } => ActorView::Human { id: id@, name: text_of(*name) },
            Actor::Agent { id, model, harness, run } => ActorView::Agent {
                id: id@,
                model: text_of(*model),
                harness: text_of(*harness),
                run: text_of(*run),
            },
            Actor::System { id } => ActorView::System { id: id@ },
        }
    }
}

/// How each CNR actor is recorded: Connor and Crown are agents whose harness
/// names their role, a Reach worker is an agent of its own harness.
pub open spec fn recorded_actor(a: CnrActor) -> ActorView {
    match a {
        CnrActor::Human { id, name } => ActorView::Human { id: id@, name: text_of(name) },
        CnrActor::Connor { id } => ActorView::Agent {
            id: id@,
            model: None,
            harness: Some("connor"@),
            run: None,
        },
        CnrActor::Crown { id, model } => ActorView::Agent {
            id: id@,
            model: Some(model@),
            harness: Some("crown"@),
            run: None,
        },
        CnrActor::ReachWorker { id, model, harness, run } => ActorView::Agent {
            id: id@,
            model: Some(model@),
            harness: Some(harness@),
            run: text_of(run),
        },
        CnrActor::System { id } => ActorView::System { id: id@ },
    }
}

/// The id of a recorded actor.
pub open spec fn actor_id(a: ActorView) -> Seq<char> {
    match a {
        ActorView::Human { id, .. } => id,
        ActorView::Agent { id, .. } => id,
        ActorView::System { id } => id,
    }
}

/// The id of a CNR actor.
pub open spec fn cnr_actor_id(a: CnrActor) -> Seq<char> {
    match a {
        CnrActor::Human { id, .. } => id@,
        CnrActor::Connor { id } => id@,
        CnrActor::Crown { id, .. } => id@,
        CnrActor::ReachWorker { id, .. } => id@,
        CnrActor::System { id } => id@,
    }
}

impl CnrActor {
    /// The actor as the event spine records it.
    pub fn into_actor(self) -> (a: Actor)
        ensures
            a@ == recorded_actor(self),
    {
        match self {
            CnrActor::Human { id, name } => Actor::Human { id, name },
            CnrActor::Connor { id } => Actor::Agent {
                id,
                model: None,
                harness: Some(copy_str("connor")),
                run: None,
            },
            CnrActor::Crown { id, model } => Actor::Agent {
                id,
                model: Some(model),
                harness: Some(copy_str("crown")),
                run: None,
            },
            CnrActor::ReachWorker { id, model, harness, run } => Actor::Agent {
                id,
                model: Some(model),
                harness: Some(harness),
                run,
            },
            CnrActor::System { id } => Actor::System { id },
        }
    }
}

/// The local human operator.
pub fn human_actor() -> (a: Actor)
    ensures
        a@ == (ActorView::Human { id: "human:local"@, name: None }),
{
    CnrActor::Human { id: copy_str("human:local"), name: None }.into_actor()
}

/// The local Crown planner running `model`.
pub fn crown_actor(model: &str) -> (a: Actor)
    ensures
        a@ == (ActorView::Agent {
            id: "crown:local"@,
            model: Some(model@),
            harness: Some("crown"@),
            run: None,
        }),
{
    CnrActor::Crown { id: copy_str("crown:local"), model: copy_str(model) }.into_actor()
}

/// The runtime itself.
pub fn system_actor() -> (a: Actor)
    ensures
        a@ == (ActorView::System { id: "system:cnr"@ }),
{
    CnrActor::System { id: copy_str("system:cnr") }.into_actor()
}

/// The kind of an event stream.
#[derive(Clone, Debug, PartialEq, Eq)]
pub enum StreamType {
    Goal,
    Thread,
    Run,
    Claim,
    Artifact,
    System,
    Custom(String),
}

/// A stream kind, with its text as a character sequence.
pub enum StreamTypeView {
    Goal,
    Thread,
    Run,
    Claim,
    Artifact,
    System,
    Custom(Seq<char>),
}

impl View for StreamType {
    type V = StreamTypeView;

    open spec fn view(&self) -> StreamTypeView {
        match self {
            StreamType::Goal => StreamTypeView::Goal,
            StreamType::Thread => StreamTypeView::Thread,
            StreamType::Run => StreamTypeView::Run,
            StreamType::Claim => StreamTypeView::Claim,
            StreamType::Artifact => StreamTypeView::Artifact,
            StreamType::System => StreamTypeView::System,
            StreamType::Custom(s) => StreamTypeView::Custom(s@),
        }
    }
}

/// The first index at or after `i` at which `s` holds `c`, or the length.
pub open spec fn find_char_from(s: Seq<char>, c: char, i: int) -> int
    decreases s.len() - i,
{
    if i >= s.len() {
        s.len() as int
    } else if s[i] == c {
        i
    } else {
        find_char_from(s, c, i + 1)
    }
}

/// The kind of the stream named `s`, read from its prefix; an unknown
/// prefix, the text before the first `:`, or the whole name when it has
/// none, becomes a custom kind.
pub open spec fn stream_type_spec(s: Seq<char>) -> StreamTypeView {
    if has_prefix(s, "goal:"@) {
        StreamTypeView::Goal
    } else if has_prefix(s, "thread:"@) {
        StreamTypeView::Thread
    } else if has_prefix(s, "run:"@) {
        StreamTypeView::Run
    } else if has_prefix(s, "claim:"@) {
        StreamTypeView::Claim
    } else if has_prefix(s, "artifact:"@) || has_prefix(s, "artifact_"@) {
        StreamTypeView::Artifact
    } else if has_prefix(s, "system:"@) {
        StreamTypeView::System
    } else {
        StreamTypeView::Custom(s.subrange(0, find_char_from(s, ':', 0)))
    }
}

/// The kind of the stream named `stream`.
pub fn stream_type_for(stream: &str) -> (t: StreamType)
    ensures
        t@ == stream_type_spec(stream@),
{
    if starts_with(stream, "goal:") {
        StreamType::Goal
    } else if starts_with(stream, "thread:") {
        StreamType::Thread
    } else if starts_with(stream, "run:") {
        StreamType::Run
    } else if starts_with(stream, "claim:") {
        StreamType::Claim
    } else if starts_with(stream, "artifact:") || starts_with(stream, "artifact_") {
        StreamType::Artifact
    } else if starts_with(stream, "system:") {
        StreamType::System
    } else {
        let v = chars_of(stream);
        let mut i: usize = 0;
        while i < v.len() && v[i] != ':'
            invariant
                i <= v@.len(),
                v@ == stream@,
                find_char_from(stream@, ':', 0) == find_char_from(stream@, ':', i as int),
            decreases v@.len() - i,
        {
            i = i + 1;
        }
        assert(find_char_from(stream@, ':', i as int) == i);
        StreamType::Custom(substring(stream, 0, i))
    }
}

/// A goal id: `goal` itself when it already carries the `goal:` prefix,
/// otherwise `goal:` followed by it.
pub open spec fn normalized_goal(goal: Seq<char>) -> Seq<char> {
    if has_prefix(goal, "goal:"@) {
        goal
    } else {
        "goal:"@ + goal
    }
}

/// The goal id that `goal` names.
pub fn normalize_goal(goal: &str) -> (r: String)
    ensures
        r@ == normalized_goal(goal@),
{
    if starts_with(goal, "goal:") {
        copy_str(goal)
    } else {
        cat("goal:", goal)
    }
}

/// The predicates CNR asserts about tasks.
#[derive(Clone, Copy, Debug, PartialEq, Eq)]
pub enum CnrPredicate {
    TaskUnderstood,
    ApproachSelected,
    ImplementationChanged,
    TestsRun,
    TestsPass,
    Blocked,
    NeedsHuman,
    ReadyForReview,
    ApprovedForMerge,
    ApproachDead,
}

/// The name under which a predicate is recorded.
pub open spec fn predicate_name(p: CnrPredicate) -> Seq<char> {
    match p {
        CnrPredicate::TaskUnderstood => "task_understood"@,
        CnrPredicate::ApproachSelected => "approach_selected"@,
        CnrPredicate::ImplementationChanged => "implementation_changed"@,
        CnrPredicate::TestsRun => "tests_run"@,
        CnrPredicate::TestsPass => "tests_pass"@,
        CnrPredicate::Blocked => "blocked"@,
        CnrPredicate::NeedsHuman => "needs_human"@,
        CnrPredicate::ReadyForReview => "ready_for_review"@,
        CnrPredicate::ApprovedForMerge => "approved_for_merge"@,
        CnrPredicate::ApproachDead => "approach_dead"@,
    }
}

impl CnrPredicate {
    /// The name under which the predicate is recorded.
    pub fn as_str(&self) -> (s: &'static str)
        ensures
            s@ == predicate_name(*self),
    {
        match self {
            CnrPredicate::TaskUnderstood => "task_understood",
            CnrPredicate::ApproachSelected => "approach_selected",
            CnrPredicate::ImplementationChanged => "implementation_changed",
            CnrPredicate::TestsRun => "tests_run",
            CnrPredicate::TestsPass => "tests_pass",
            CnrPredicate::Blocked => "blocked",
            CnrPredicate::NeedsHuman => "needs_human",
            CnrPredicate::ReadyForReview => "ready_for_review",
            CnrPredicate::ApprovedForMerge => "approved_for_merge",
            CnrPredicate::ApproachDead => "approach_dead",
        }
    }
}

/// The value a claim asserts.
#[derive(Debug)]
pub enum ClaimValue {
    /// A JSON object whose fields all hold strings, in this order.
    Fields(Vec<(String, String)>),
    /// Any JSON value, as a worker reported it.
    Json(serde_json::Value),
}

/// The texts of an object's fields.
pub open spec fn fields_view(f: Seq<(String, String)>) -> Seq<(Seq<char>, Seq<char>)> {
    f.map_values(|p: (String, String)| (p.0@, p.1@))
}

/// A claim, asserted: a durable semantic record that `subject` has
/// `predicate` with `value`, on the strength of the `evidence` events. It
/// supersedes nothing.
#[derive(Debug)]
pub struct Claim {
    pub id: String,
    pub subject: String,
    pub predicate: String,
    pub value: ClaimValue,
    /// The bit pattern (`f32::to_bits`) of the confidence, if one is given.
    pub confidence_bits: Option<u32>,
    pub evidence: Vec<String>,
}

/// An asserted claim with the given id, with no stated confidence.
pub fn claim(id: String, subject: String, predicate: String, value: ClaimValue, evidence: Vec<
    String,
>) -> (c: Claim)
    ensures
        c.id == id,
        c.subject == subject,
        c.predicate == predicate,
        c.value == value,
        c.confidence_bits is None,
        c.evidence == evidence,
{
    Claim { id, subject, predicate, value, confidence_bits: None, evidence }
}

/// A one-field object value whose field holds a string.
pub fn field_value(key: &str, value: &str) -> (v: ClaimValue)
    ensures
        v matches ClaimValue::Fields(f) && fields_view(f@) == seq![(key@, value@)],
{
    let mut f: Vec<(String, String)> = Vec::new();
    f.push((copy_str(key), copy_str(value)));
    assert(fields_view(f@) =~= seq![(key@, value@)]);
    ClaimValue::Fields(f)
}

/// A two-field object value whose fields hold strings.
pub fn fields_value(k1: &str, v1: &str, k2: &str, v2: &str) -> (v: ClaimValue)
    ensures
        v matches ClaimValue::Fields(f) && fields_view(f@) == seq![(k1@, v1@), (k2@, v2@)],
{
    let mut f: Vec<(String, String)> = Vec::new();
    f.push((copy_str(k1), copy_str(v1)));
    f.push((copy_str(k2), copy_str(v2)));
    assert(fields_view(f@) =~= seq![(k1@, v1@), (k2@, v2@)]);
    ClaimValue::Fields(f)
}

/// How a run ended.
#[derive(Clone, Copy, Debug, PartialEq, Eq)]
pub enum RunStatus {
    Succeeded,
    Failed,
}

/// A run began, for a goal if it has one.
#[derive(Clone, Debug, PartialEq, Eq)]
pub struct RunStarted {
    pub id: String,
    pub goal: Option<String>,
    pub label: Option<String>,
}

/// A run ended.
#[derive(Clone, Debug, PartialEq, Eq)]
pub struct RunFinished {
    pub id: String,
    pub status: RunStatus,
    pub summary: Option<String>,
}

/// What an event says. Payload kinds that the runtime neither writes nor
/// reads are `Other`.
#[derive(Debug)]
pub enum Payload {
    GoalCreated,
    RunStarted(RunStarted),
    RunFinished(RunFinished),
    ClaimAsserted(Claim),
    /// A Markdown message.
    Message(String),
    ArtifactRef,
    Other,
}

/// An event to be appended to a stream.
#[derive(Debug)]
pub struct NewEvent {
    pub stream_type: StreamType,
    pub actor: Actor,
    pub payload: Payload,
}

/// Events to append, in order, to the stream named `stream`.
#[derive(Debug)]
pub struct StreamAppend {
    pub stream: String,
    /// The stream must not exist yet; otherwise it may hold any number of
    /// events already.
    pub new_stream: bool,
    pub events: Vec<NewEvent>,
}

/// An event with a payload, appended by the runtime to the stream named
/// `stream`: the stream's kind is read from its name.
pub fn payload_event(stream: &str, payload: Payload) -> (e: NewEvent)
    ensures
        e.stream_type@ == stream_type_spec(stream@),
        e.actor@ == (ActorView::System { id: "system:cnr"@ }),
        e.payload == payload,
{
    NewEvent { stream_type: stream_type_for(stream), actor: system_actor(), payload }
}

} // verus!

verus! {

/// Normalizing a goal id twice changes nothing more than normalizing it
/// once, and a normalized goal id always carries the `goal:` prefix.
pub proof fn lemma_normalize_goal_idempotent(goal: Seq<char>)
    ensures
        normalized_goal(normalized_goal(goal)) == normalized_goal(goal),
        has_prefix(normalized_goal(goal), "goal:"@),
{
    reveal_strlit("goal:");
    if !has_prefix(goal, "goal:"@) {
        assert(("goal:"@ + goal).subrange(0, 5) =~= "goal:"@);
    }
}

/// The stream of a normalized goal id is a goal stream.
pub proof fn lemma_goal_stream_type(goal: Seq<char>)
    ensures
        stream_type_spec(normalized_goal(goal)) == StreamTypeView::Goal,
{
    lemma_normalize_goal_idempotent(goal);
}

/// Every CNR actor is recorded under its own id.
pub proof fn lemma_recorded_actor_keeps_id(a: CnrActor)
    ensures
        actor_id(recorded_actor(a)) == cnr_actor_id(a),
{
}

} // verus!

verus! {

/// A goal id keeps a `goal:` prefix it already has, and otherwise gains
/// exactly one.
pub proof fn lemma_normalize_goal_adds_prefix_once(goal: Seq<char>)
    ensures
        has_prefix(goal, "goal:"@) ==> normalized_goal(goal) == goal,
        !has_prefix(goal, "goal:"@) ==> normalized_goal(goal) == "goal:"@ + goal,
{
}

proof fn lemma_first_char_differs(t: Seq<char>, q: Seq<char>)
    requires
        t.len() > 0,
        q.len() > 0,
        t[0] != q[0],
    ensures
        !has_prefix(t, q),
{
    if q.len() <= t.len() {
        assert(t.subrange(0, q.len() as int)[0] == t[0]);
    }
}

proof fn lemma_has_prefix_concat(q: Seq<char>, s: Seq<char>)
    ensures
        has_prefix(q + s, q),
{
    assert((q + s).subrange(0, q.len() as int) =~= q);
}

/// A stream's kind is read from its prefix: every stream named `goal:..`,
/// `thread:..`, `run:..`, `claim:..`, `artifact:..` or `artifact_..`, or
/// `system:..` is of that kind, whatever follows.
pub proof fn lemma_stream_kind_from_prefix(s: Seq<char>)
    ensures
        stream_type_spec("goal:"@ + s) == StreamTypeView::Goal,
        stream_type_spec("thread:"@ + s) == StreamTypeView::Thread,
        stream_type_spec("run:"@ + s) == StreamTypeView::Run,
        stream_type_spec("claim:"@ + s) == StreamTypeView::Claim,
        stream_type_spec("artifact:"@ + s) == StreamTypeView::Artifact,
        stream_type_spec("artifact_"@ + s) == StreamTypeView::Artifact,
        stream_type_spec("system:"@ + s) == StreamTypeView::System,
{
    reveal_strlit("goal:");
    reveal_strlit("thread:");
    reveal_strlit("run:");
    reveal_strlit("claim:");
    reveal_strlit("artifact:");
    reveal_strlit("artifact_");
    reveal_strlit("system:");
    lemma_has_prefix_concat("goal:"@, s);
    lemma_has_prefix_concat("thread:"@, s);
    lemma_has_prefix_concat("run:"@, s);
    lemma_has_prefix_concat("claim:"@, s);
    lemma_has_prefix_concat("artifact:"@, s);
    lemma_has_prefix_concat("artifact_"@, s);
    lemma_has_prefix_concat("system:"@, s);
    let t = "thread:"@ + s;
    assert(t[0] == 't');
    lemma_first_char_differs(t, "goal:"@);
    let r = "run:"@ + s;
    assert(r[0] == 'r');
    lemma_first_char_differs(r, "goal:"@);
    lemma_first_char_differs(r, "thread:"@);
    let c = "claim:"@ + s;
    assert(c[0] == 'c');
    lemma_first_char_differs(c, "goal:"@);
    lemma_first_char_differs(c, "thread:"@);
    lemma_first_char_differs(c, "run:"@);
    let a = "artifact:"@ + s;
    let b = "artifact_"@ + s;
    assert(a[0] == 'a' && b[0] == 'a');
    lemma_first_char_differs(a, "goal:"@);
    lemma_first_char_differs(a, "thread:"@);
    lemma_first_char_differs(a, "run:"@);
    lemma_first_char_differs(a, "claim:"@);
    lemma_first_char_differs(b, "goal:"@);
    lemma_first_char_differs(b, "thread:"@);
    lemma_first_char_differs(b, "run:"@);
    lemma_first_char_differs(b, "claim:"@);
    let y = "system:"@ + s;
    assert(y[0] == 's');
    lemma_first_char_differs(y, "goal:"@);
    lemma_first_char_differs(y, "thread:"@);
    lemma_first_char_differs(y, "run:"@);
    lemma_first_char_differs(y, "claim:"@);
    lemma_first_char_differs(y, "artifact:"@);
    lemma_first_char_differs(y, "artifact_"@);
}

/// Any other stream is of a custom kind named by the text before its first
/// `:`.
pub proof fn lemma_custom_stream_kind(x: Seq<char>, s: Seq<char>)
    requires
        forall|i: int| 0 <= i < x.len() ==> #[trigger] x[i] != ':',
        !has_prefix(x + ":"@ + s, "goal:"@),
        !has_prefix(x + ":"@ + s, "thread:"@),
        !has_prefix(x + ":"@ + s, "run:"@),
        !has_prefix(x + ":"@ + s, "claim:"@),
        !has_prefix(x + ":"@ + s, "artifact:"@),
        !has_prefix(x + ":"@ + s, "artifact_"@),
        !has_prefix(x + ":"@ + s, "system:"@),
    ensures
        stream_type_spec(x + ":"@ + s) == StreamTypeView::Custom(x),
{
    reveal_strlit(":");
    let t = x + ":"@ + s;
    assert forall|j: int| 0 <= j < x.len() implies #[trigger] t[j] != ':' by {
        assert(t[j] == x[j]);
    }
    assert(t[x.len() as int] == ':');
    lemma_find_char_at(t, ':', 0, x.len() as int);
    assert(t.subrange(0, x.len() as int) =~= x);
}

proof fn lemma_find_char_at(s: Seq<char>, c: char, i: int, k: int)
    requires
        0 <= i <= k < s.len(),
        s[k] == c,
        forall|j: int| i <= j < k ==> #[trigger] s[j] != c,
    ensures
        find_char_from(s, c, i) == k,
    decreases k - i,
{
    if i < k {
        lemma_find_char_at(s, c, i + 1, k);
    }
}

} // verus!
