//! Reach workers' side of the contract: finding the `cnr-claims` block in a
//! worker transcript, turning worker claims into recorded claims, and the
//! run lifecycle events a run leaves on its stream.
use vstd::prelude::*;

use crate::records::{
    ActorView, Claim, ClaimValue, NewEvent, Payload, RunFinished, RunStarted, RunStatus, StreamAppend,
    StreamType, StreamTypeView, fields_value, fields_view, system_actor, text_of,
};
use crate::text::{cat, chars_match_at, chars_of, copy_str, substring, trim, trim_bounds};

verus! {

/// A claim as a worker reports it in its transcript.
#[derive(Debug)]
pub struct WorkerClaim {
    pub subject: String,
    pub predicate: String,
    pub value: serde_json::Value,
    /// The bit pattern (`f32::to_bits`) of the reported confidence, if any.
    pub confidence_bits: Option<u32>,
    pub evidence: Vec<String>,
}

/// A file a worker produced.
#[derive(Clone, Debug, PartialEq, Eq)]
pub struct WorkerArtifact {
    pub kind: String,
    pub path: String,
}

/// What a worker reports at the end of its transcript.
#[derive(Debug)]
pub struct WorkerOutput {
    pub claims: Vec<WorkerClaim>,
    pub artifacts: Vec<WorkerArtifact>,
}

/// Why a transcript holds no claim block.
#[derive(Clone, Copy, Debug, PartialEq, Eq)]
pub enum ClaimBlockError {
    /// No line opens a ```` ```cnr-claims ```` fence.
    MissingFence,
    /// The fence is never closed.
    UnterminatedFence,
}

impl ClaimBlockError {
    /// The error's text.
    pub fn message(&self) -> (s: String)
        ensures
            *self is MissingFence ==> s@ == "missing cnr-claims fence"@,
            *self is UnterminatedFence ==> s@ == "unterminated cnr-claims fence"@,
    {
        match self {
            ClaimBlockError::MissingFence => copy_str("missing cnr-claims fence"),
            ClaimBlockError::UnterminatedFence => copy_str("unterminated cnr-claims fence"),
        }
    }
}

/// The first index at or after `i` where `p` occurs in `s` (`str::find`).
pub open spec fn find_from(s: Seq<char>, p: Seq<char>, i: int) -> Option<int>
    decreases s.len() + 1 - i,
{
    if i + p.len() > s.len() {
        None
    } else if s.subrange(i, i + p.len()) == p {
        Some(i)
    } else {
        find_from(s, p, i + 1)
    }
}

/// The fence that opens a claim block.
pub open spec fn claims_fence() -> Seq<char> {
    "```cnr-claims"@
}

/// The JSON text of the first claim block of transcript `t`: what follows
/// the first ```` ```cnr-claims ```` up to the next ```` ``` ````, trimmed.
pub open spec fn claim_block_spec(t: Seq<char>) -> Result<Seq<char>, ClaimBlockError> {
    match find_from(t, claims_fence(), 0) {
        None => Err(ClaimBlockError::MissingFence),
        Some(start) => {
            let rest = t.subrange(start + claims_fence().len(), t.len() as int);
            match find_from(rest, "```"@, 0) {
                None => Err(ClaimBlockError::UnterminatedFence),
                Some(end) => Ok(trim(rest.subrange(0, end))),
            }
        },
    }
}

/// The first index at or after `from` where `p` occurs in `s`.
fn find_chars(s: &Vec<char>, p: &Vec<char>, from: usize) -> (r: Option<usize>)
    requires
        from <= s@.len(),
    ensures
        match r {
            Some(i) => find_from(s@, p@, from as int) == Some(i as int) && from <= i && i
                + p@.len() <= s@.len(),
            None => find_from(s@, p@, from as int) is None,
        },
{
    if p.len() > s.len() {
        return None;
    }
    let last = s.len() - p.len();
    if from > last {
        return None;
    }
    let mut i = from;
    while i < last
        invariant
            from <= i <= last,
            last + p@.len() == s@.len(),
            find_from(s@, p@, from as int) == find_from(s@, p@, i as int),
        decreases last - i,
    {
        if chars_match_at(s, i, p) {
            return Some(i);
        }
        i = i + 1;
    }
    if chars_match_at(s, last, p) {
        Some(last)
    } else {
        assert(find_from(s@, p@, last + 1) is None);
        None
    }
}

/// The JSON text of the claim block of a worker transcript.
pub fn extract_claim_block(transcript: &str) -> (r: Result<String, ClaimBlockError>)
    ensures
        match r {
            Ok(json) => claim_block_spec(transcript@) == Ok::<Seq<char>, ClaimBlockError>(json@),
            Err(e) => claim_block_spec(transcript@) == Err::<Seq<char>, ClaimBlockError>(e),
        },
{
    let fence = "```cnr-claims";
    let close = "```";
    proof {
        reveal_strlit("```cnr-claims");
    }
    let tv = chars_of(transcript);
    let fv = chars_of(fence);
    let start = match find_chars(&tv, &fv, 0) {
        None => {
            return Err(ClaimBlockError::MissingFence);
        },
        Some(start) => start,
    };
    let tlen = tv.len();
    let json_start = start + fv.len();
    let rest = substring(transcript, json_start, tlen);
    let rv = chars_of(rest.as_str());
    let cv = chars_of(close);
    let end = match find_chars(&rv, &cv, 0) {
        None => {
            return Err(ClaimBlockError::UnterminatedFence);
        },
        Some(end) => end,
    };
    let block = substring(rest.as_str(), 0, end);
    let bv = chars_of(block.as_str());
    let (a, b) = trim_bounds(&bv);
    Ok(substring(block.as_str(), a, b))
}

/// `c` is worker claim `w` recorded under id `id`.
pub open spec fn records_worker_claim(c: Claim, w: WorkerClaim, id: Seq<char>) -> bool {
    &&& c.id@ == id
    &&& c.subject == w.subject
    &&& c.predicate == w.predicate
    &&& c.value == ClaimValue::Json(w.value)
    &&& c.confidence_bits == w.confidence_bits
    &&& c.evidence == w.evidence
}

/// The claims of a worker's output, asserted in the order the worker gave
/// them; the `i`-th takes the id `claim_ids[i]`.
pub fn worker_claims_to_axial(output: WorkerOutput, claim_ids: &Vec<String>) -> (r: Vec<Claim>)
    requires
        claim_ids@.len() == output.claims@.len(),
    ensures
        r@.len() == output.claims@.len(),
        forall|i: int|
            0 <= i < r@.len() ==> records_worker_claim(
                #[trigger] r@[i],
                output.claims@[i],
                claim_ids@[i]@,
            ),
        forall|i: int|
            #![trigger r@[i]]
            0 <= i < r@.len() ==> {
                &&& r@[i].id@ == claim_ids@[i]@
                &&& r@[i].subject@ == output.claims@[i].subject@
                &&& r@[i].predicate@ == output.claims@[i].predicate@
                &&& r@[i].value == ClaimValue::Json(output.claims@[i].value)
                &&& r@[i].confidence_bits == output.claims@[i].confidence_bits
                &&& r@[i].evidence@ == output.claims@[i].evidence@
            },
{
    let ghost claims = output.claims@;
    let n = claim_ids.len();
    let mut r: Vec<Claim> = Vec::new();
    let mut k: usize = 0;
    for w in it: output.claims.into_iter()
        invariant
            it.seq() == claims,
            n == claim_ids@.len(),
            claim_ids@.len() == claims.len(),
            k == it.index(),
            r@.len() == k,
            forall|i: int|
                0 <= i < k ==> records_worker_claim(#[trigger] r@[i], claims[i], claim_ids@[i]@),
    {
        let c = Claim {
            id: claim_ids[k].clone(),
            subject: w.subject,
            predicate: w.predicate,
            value: ClaimValue::Json(w.value),
            confidence_bits: w.confidence_bits,
            evidence: w.evidence,
        };
        r.push(c);
        k = k + 1;
    }
    r
}

/// The bit pattern of the confidence `1.0` (`1.0f32.to_bits()`).
pub const FULL_CONFIDENCE_BITS: u32 = 0x3f80_0000;

/// `e` is an event the runtime appends to a run's stream.
pub open spec fn run_stream_event(e: NewEvent) -> bool {
    &&& e.stream_type@ == StreamTypeView::Run
    &&& e.actor@ == (ActorView::System { id: "system:cnr"@ })
}

/// `b` is the claim appended to the stream of run `run_id` when the run
/// ended without a usable claim block: claim `claim_id` that task
/// `task:{task_id}` needs a human, with full confidence, naming the run and
/// the reason.
pub open spec fn incomplete_claim_batch(
    b: StreamAppend,
    claim_id: Seq<char>,
    run_id: Seq<char>,
    task_id: Seq<char>,
    reason: Seq<char>,
) -> bool {
    &&& b.stream@ == run_id
    &&& !b.new_stream
    &&& b.events@.len() == 1
    &&& run_stream_event(b.events@[0])
    &&& b.events@[0].payload matches Payload::ClaimAsserted(c) && {
        &&& c.id@ == claim_id
        &&& c.subject@ == "task:"@ + task_id
        &&& c.predicate@ == "needs_human"@
        &&& c.value matches ClaimValue::Fields(f) && fields_view(f@) == seq![
            ("run"@, run_id),
            ("reason"@, reason),
        ]
        &&& c.confidence_bits == Some(FULL_CONFIDENCE_BITS)
        &&& c.evidence@.len() == 0
    }
}

/// The claim recorded on the stream of run `run_id` when the run ended
/// without a usable claim block.
pub fn incomplete_run_claim_event(claim_id: String, run_id: &str, task_id: &str, reason: &str) -> (b:
    StreamAppend)
    ensures
        incomplete_claim_batch(b, claim_id@, run_id@, task_id@, reason@),
        b.stream@ == run_id@,
        b.events@.len() == 1,
        b.events@[0].payload matches Payload::ClaimAsserted(c) && c.id == claim_id
            && c.subject@ == "task:"@ + task_id@ && c.predicate@ == "needs_human"@,
{
    let c = Claim {
        id: claim_id,
        subject: cat("task:", task_id),
        predicate: copy_str("needs_human"),
        value: fields_value("run", run_id, "reason", reason),
        confidence_bits: Some(FULL_CONFIDENCE_BITS),
        evidence: Vec::new(),
    };
    let mut events: Vec<NewEvent> = Vec::new();
    events.push(
        NewEvent {
            stream_type: StreamType::Run,
            actor: system_actor(),
            payload: Payload::ClaimAsserted(c),
        },
    );
    StreamAppend { stream: copy_str(run_id), new_stream: false, events }
}

/// `e` records that run `run_id` started, for `goal`, labelled `label`.
pub open spec fn starts_run(
    e: NewEvent,
    run_id: Seq<char>,
    goal: Option<Seq<char>>,
    label: Option<Seq<char>>,
) -> bool {
    &&& run_stream_event(e)
    &&& e.payload matches Payload::RunStarted(s) && s.id@ == run_id && text_of(s.goal) == goal
        && text_of(s.label) == label
}

/// `e` records that run `run_id` ended with `status` and `summary`.
pub open spec fn finishes_run(
    e: NewEvent,
    run_id: Seq<char>,
    status: RunStatus,
    summary: Option<Seq<char>>,
) -> bool {
    &&& run_stream_event(e)
    &&& e.payload matches Payload::RunFinished(f) && f.id@ == run_id && f.status == status
        && text_of(f.summary) == summary
}

/// `b` is a run's whole lifecycle on the stream of run `run_id`: it started,
/// for `goal` and labelled `label`, and ended with `status` and `summary`.
pub open spec fn lifecycle_batch(
    b: StreamAppend,
    run_id: Seq<char>,
    goal: Option<Seq<char>>,
    label: Option<Seq<char>>,
    status: RunStatus,
    summary: Option<Seq<char>>,
) -> bool {
    &&& b.stream@ == run_id
    &&& !b.new_stream
    &&& b.events@.len() == 2
    &&& starts_run(b.events@[0], run_id, goal, label)
    &&& finishes_run(b.events@[1], run_id, status, summary)
}

/// A run's whole lifecycle, for the stream of run `run_id`.
pub fn run_lifecycle_events(
    run_id: &str,
    goal: Option<String>,
    label: Option<String>,
    status: RunStatus,
    summary: Option<String>,
) -> (b: StreamAppend)
    ensures
        lifecycle_batch(b, run_id@, text_of(goal), text_of(label), status, text_of(summary)),
        b.stream@ == run_id@,
        b.events@.len() == 2,
        b.events@[0].payload matches Payload::RunStarted(s) && s.id@ == run_id@ && s.goal == goal
            && s.label == label,
        b.events@[1].payload matches Payload::RunFinished(f) && f.id@ == run_id@ && f.status
            == status && f.summary == summary,
{
    let mut events: Vec<NewEvent> = Vec::new();
    events.push(
        NewEvent {
            stream_type: StreamType::Run,
            actor: system_actor(),
            payload: Payload::RunStarted(RunStarted { id: copy_str(run_id), goal, label }),
        },
    );
    events.push(
        NewEvent {
            stream_type: StreamType::Run,
            actor: system_actor(),
            payload: Payload::RunFinished(RunFinished { id: copy_str(run_id), status, summary }),
        },
    );
    StreamAppend { stream: copy_str(run_id), new_stream: false, events }
}

/// `b` opens the stream of run `run_id` with a run whose transcript held a
/// claim block: it started, for `goal` and labelled `label`, asserted the
/// `claims` in order, and succeeded.
pub open spec fn parsed_batch(
    b: StreamAppend,
    run_id: Seq<char>,
    goal: Option<Seq<char>>,
    label: Option<Seq<char>>,
    claims: Seq<Claim>,
) -> bool {
    &&& b.stream@ == run_id
    &&& b.new_stream
    &&& b.events@.len() == claims.len() + 2
    &&& starts_run(b.events@[0], run_id, goal, label)
    &&& forall|i: int|
        0 <= i < claims.len() ==> run_stream_event(#[trigger] b.events@[i + 1])
            && b.events@[i + 1].payload == Payload::ClaimAsserted(claims[i])
    &&& finishes_run(
        b.events@[claims.len() as int + 1],
        run_id,
        RunStatus::Succeeded,
        Some("parsed cnr-claims"@),
    )
}

/// A run whose transcript held a claim block, for a new stream of run
/// `run_id`.
pub fn parsed_transcript_events(
    run_id: &str,
    goal: Option<String>,
    label: Option<String>,
    claims: Vec<Claim>,
) -> (b: StreamAppend)
    ensures
        parsed_batch(b, run_id@, text_of(goal), text_of(label), claims@),
        b.stream@ == run_id@,
        b.new_stream,
        b.events@.len() == claims@.len() + 2,
        b.events@[0].payload matches Payload::RunStarted(s) && s.id@ == run_id@ && s.goal == goal
            && s.label == label,
        forall|i: int|
            0 <= i < claims@.len() ==> #[trigger] b.events@[i + 1].payload
                == Payload::ClaimAsserted(claims@[i]),
        b.events@[claims@.len() as int + 1].payload matches Payload::RunFinished(f) && f.id@
            == run_id@ && f.status == RunStatus::Succeeded && f.summary is Some && f.summary->0@
            == "parsed cnr-claims"@,
{
    let ghost all = claims@;
    let mut events: Vec<NewEvent> = Vec::new();
    events.push(
        NewEvent {
            stream_type: StreamType::Run,
            actor: system_actor(),
            payload: Payload::RunStarted(RunStarted { id: copy_str(run_id), goal, label }),
        },
    );
    for c in it: claims.into_iter()
        invariant
            it.seq() == all,
            events@.len() == it.index() + 1,
            starts_run(events@[0], run_id@, text_of(goal), text_of(label)),
            events@[0].payload matches Payload::RunStarted(s) && s.id@ == run_id@ && s.goal == goal
                && s.label == label,
            forall|i: int|
                0 <= i < it.index() ==> run_stream_event(#[trigger] events@[i + 1])
                    && events@[i + 1].payload == Payload::ClaimAsserted(all[i]),
    {
        events.push(
            NewEvent {
                stream_type: StreamType::Run,
                actor: system_actor(),
                payload: Payload::ClaimAsserted(c),
            },
        );
    }
    events.push(
        NewEvent {
            stream_type: StreamType::Run,
            actor: system_actor(),
            payload: Payload::RunFinished(
                RunFinished {
                    id: copy_str(run_id),
                    status: RunStatus::Succeeded,
                    summary: Some(copy_str("parsed cnr-claims")),
                },
            ),
        },
    );
    StreamAppend { stream: copy_str(run_id), new_stream: true, events }
}

/// What a run recorded from a worker transcript leaves: when the claims
/// were read, a new run stream that starts, asserts them and succeeds; when
/// they could not be read, a failed lifecycle summarized by the error, then
/// a claim `claim_id` that task `task_id` needs a human, giving the error as
/// the reason.
pub fn transcript_run_events(
    run_id: &str,
    goal: Option<String>,
    label: Option<String>,
    task_id: &str,
    outcome: Result<Vec<Claim>, String>,
    claim_id: String,
) -> (r: Vec<StreamAppend>)
    ensures
        match outcome {
            Ok(claims) => r@.len() == 1 && parsed_batch(
                r@[0],
                run_id@,
                text_of(goal),
                text_of(label),
                claims@,
            ),
            Err(error) => r@.len() == 2 && lifecycle_batch(
                r@[0],
                run_id@,
                text_of(goal),
                text_of(label),
                RunStatus::Failed,
                Some(error@),
            ) && incomplete_claim_batch(r@[1], claim_id@, run_id@, task_id@, error@),
        },
        outcome is Ok ==> r@.len() == 1 && r@[0].stream@ == run_id@ && r@[0].new_stream,
        outcome matches Err(error) ==> {
            &&& r@.len() == 2
            &&& r@[0].stream@ == run_id@
            &&& r@[0].events@.len() == 2
            &&& r@[0].events@[1].payload matches Payload::RunFinished(f) && f.status
                == RunStatus::Failed && f.summary is Some && f.summary->0@ == error@
            &&& r@[1].stream@ == run_id@
            &&& r@[1].events@[0].payload matches Payload::ClaimAsserted(c) && c.id == claim_id
                && c.subject@ == "task:"@ + task_id@ && c.predicate@ == "needs_human"@
                && c.value is Fields && fields_view(c.value->Fields_0@) == seq![
                ("run"@, run_id@),
                ("reason"@, error@),
            ]
        },
{
    let mut r: Vec<StreamAppend> = Vec::new();
    match outcome {
        Ok(claims) => {
            r.push(parsed_transcript_events(run_id, goal, label, claims));
        },
        Err(error) => {
            let reason = copy_str(error.as_str());
            r.push(run_lifecycle_events(run_id, goal, label, RunStatus::Failed, Some(error)));
            r.push(incomplete_run_claim_event(claim_id, run_id, task_id, reason.as_str()));
        },
    }
    r
}

} // verus!

verus! {

/// `s` holds no backtick.
pub open spec fn no_backtick(s: Seq<char>) -> bool {
    forall|i: int| 0 <= i < s.len() ==> #[trigger] s[i] != '`'
}

/// Searching from `i` finds `p` at `k` when `p` occurs at `k` and nothing
/// between `i` and `k` can start it.
proof fn lemma_find_at(s: Seq<char>, p: Seq<char>, i: int, k: int)
    requires
        0 <= i <= k,
        p.len() > 0,
        k + p.len() <= s.len(),
        s.subrange(k, k + p.len()) == p,
        forall|j: int| i <= j < k ==> #[trigger] s[j] != p[0],
    ensures
        find_from(s, p, i) == Some(k),
    decreases k - i,
{
    if i < k {
        assert(s.subrange(i, i + p.len())[0] == s[i]);
        lemma_find_at(s, p, i + 1, k);
    }
}

/// A worker's claim block is read back as written: in a transcript whose
/// text before the block and whose block hold no backtick, the claim block
/// is the block's text, trimmed.
pub proof fn lemma_claim_block_round_trip(pre: Seq<char>, block: Seq<char>, post: Seq<char>)
    requires
        no_backtick(pre),
        no_backtick(block),
    ensures
        claim_block_spec(pre + claims_fence() + block + "```"@ + post) == Ok::<
            Seq<char>,
            ClaimBlockError,
        >(trim(block)),
{
    reveal_strlit("```cnr-claims");
    reveal_strlit("```");
    let fence = claims_fence();
    let t = pre + fence + block + "```"@ + post;
    assert(t.subrange(pre.len() as int, pre.len() + fence.len() as int) =~= fence);
    assert forall|j: int| 0 <= j < pre.len() implies #[trigger] t[j] != fence[0] by {
        assert(t[j] == pre[j]);
    }
    lemma_find_at(t, fence, 0, pre.len() as int);
    let rest = t.subrange(pre.len() + fence.len() as int, t.len() as int);
    assert(rest =~= block + "```"@ + post);
    assert(rest.subrange(block.len() as int, block.len() as int + 3) =~= "```"@);
    assert forall|j: int| 0 <= j < block.len() implies #[trigger] rest[j] != "```"@[0] by {
        assert(rest[j] == block[j]);
    }
    lemma_find_at(rest, "```"@, 0, block.len() as int);
    assert(rest.subrange(0, block.len() as int) =~= block);
}

} // verus!

verus! {

/// What a search finds in a text it still finds when more text follows.
proof fn lemma_find_extends(s: Seq<char>, s2: Seq<char>, p: Seq<char>, i: int, k: int)
    requires
        0 <= i,
        find_from(s, p, i) == Some(k),
        s.len() <= s2.len(),
        s2.subrange(0, s.len() as int) == s,
    ensures
        find_from(s2, p, i) == Some(k),
    decreases s.len() + 1 - i,
{
    if i + p.len() <= s.len() {
        assert(s2.subrange(i, i + p.len()) =~= s.subrange(i, i + p.len())) by {
            assert forall|j: int| 0 <= j < p.len() implies #[trigger] s2.subrange(i, i + p.len())[j]
                == s.subrange(i, i + p.len())[j] by {
                assert(s2[i + j] == s2.subrange(0, s.len() as int)[i + j]);
            }
        }
        if s.subrange(i, i + p.len()) != p {
            lemma_find_extends(s, s2, p, i + 1, k);
        }
    }
}

/// The claim block is found after any text that holds no claim fence, code
/// blocks and other backticks included: when ```` ```cnr-claims ```` first
/// occurs where the block opens, and the block holds no backtick, the claim
/// block is the block's text, trimmed.
pub proof fn lemma_claim_block_after_any_text(pre: Seq<char>, block: Seq<char>, post: Seq<char>)
    requires
        find_from(pre + "```cnr-claims"@, "```cnr-claims"@, 0) == Some(pre.len() as int),
        no_backtick(block),
    ensures
        claim_block_spec(pre + "```cnr-claims"@ + block + "```"@ + post) == Ok::<
            Seq<char>,
            ClaimBlockError,
        >(trim(block)),
{
    reveal_strlit("```cnr-claims");
    reveal_strlit("```");
    let fence = claims_fence();
    let head = pre + fence;
    let t = pre + fence + block + "```"@ + post;
    assert(t.subrange(0, head.len() as int) =~= head);
    lemma_find_extends(head, t, fence, 0, pre.len() as int);
    let rest = t.subrange(pre.len() + fence.len() as int, t.len() as int);
    assert(rest =~= block + "```"@ + post);
    assert(rest.subrange(block.len() as int, block.len() as int + 3) =~= "```"@);
    assert forall|j: int| 0 <= j < block.len() implies #[trigger] rest[j] != "```"@[0] by {
        assert(rest[j] == block[j]);
    }
    lemma_find_at(rest, "```"@, 0, block.len() as int);
    assert(rest.subrange(0, block.len() as int) =~= block);
}

} // verus!
