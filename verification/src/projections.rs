//! Projections of the event log: how many goals, runs, claims and artifacts
//! it records, and the one-line views the command surfaces print.
use vstd::prelude::*;

use crate::records::Payload;
use crate::text::{cat, cat3, decimal, decimal_string};

verus! {

/// The counts a replay of the log reports.
#[derive(Clone, Debug, PartialEq, Eq)]
pub struct CnrStateSummary {
    pub events: usize,
    pub goals: usize,
    pub runs: usize,
    pub claims: usize,
    pub artifacts: usize,
}

/// What the summary counts.
pub enum Tally {
    Goals,
    Runs,
    Claims,
    Artifacts,
}

/// The payload is counted under `t`: a created goal, a started run, an
/// asserted claim, an artifact reference.
pub open spec fn counted_as(p: Payload, t: Tally) -> bool {
    match p {
        Payload::GoalCreated => t is Goals,
        Payload::RunStarted(_) => t is Runs,
        Payload::ClaimAsserted(_) => t is Claims,
        Payload::ArtifactRef => t is Artifacts,
        _ => false,
    }
}

/// How many of the events are counted under `t`.
pub open spec fn count(events: Seq<Payload>, t: Tally) -> nat
    decreases events.len(),
{
    if events.len() == 0 {
        0
    } else {
        count(events.drop_last(), t) + if counted_as(events.last(), t) {
            1nat
        } else {
            0nat
        }
    }
}

proof fn lemma_count_le(events: Seq<Payload>, t: Tally)
    ensures
        count(events, t) <= events.len(),
    decreases events.len(),
{
    if events.len() > 0 {
        lemma_count_le(events.drop_last(), t);
    }
}

/// Counts the goals, runs, claims and artifacts the events record.
pub fn summarize(events: &Vec<Payload>) -> (s: CnrStateSummary)
    ensures
        s.events == events@.len(),
        s.goals == count(events@, Tally::Goals),
        s.runs == count(events@, Tally::Runs),
        s.claims == count(events@, Tally::Claims),
        s.artifacts == count(events@, Tally::Artifacts),
{
    let mut s = CnrStateSummary { events: events.len(), goals: 0, runs: 0, claims: 0, artifacts: 0 };
    let mut i: usize = 0;
    while i < events.len()
        invariant
            i <= events@.len(),
            s.events == events@.len(),
            s.goals == count(events@.take(i as int), Tally::Goals),
            s.runs == count(events@.take(i as int), Tally::Runs),
            s.claims == count(events@.take(i as int), Tally::Claims),
            s.artifacts == count(events@.take(i as int), Tally::Artifacts),
        decreases events@.len() - i,
    {
        proof {
            assert(events@.take(i + 1).drop_last() =~= events@.take(i as int));
            lemma_count_le(events@.take(i as int), Tally::Goals);
            lemma_count_le(events@.take(i as int), Tally::Runs);
            lemma_count_le(events@.take(i as int), Tally::Claims);
            lemma_count_le(events@.take(i as int), Tally::Artifacts);
        }
        match &events[i] {
            Payload::GoalCreated => s.goals = s.goals + 1,
            Payload::RunStarted(_) => s.runs = s.runs + 1,
            Payload::ClaimAsserted(_) => s.claims = s.claims + 1,
            Payload::ArtifactRef => s.artifacts = s.artifacts + 1,
            _ => {},
        }
        i = i + 1;
    }
    assert(events@.take(events@.len() as int) =~= events@);
    s
}

/// Counting is additive: the tally of a log is the tally of its first part
/// plus the tally of what was appended after it.
pub proof fn lemma_count_append(a: Seq<Payload>, b: Seq<Payload>, t: Tally)
    ensures
        count(a + b, t) == count(a, t) + count(b, t),
    decreases b.len(),
{
    if b.len() > 0 {
        lemma_count_append(a, b.drop_last(), t);
        assert((a + b).drop_last() =~= a + b.drop_last());
    }
}

/// The tallies never exceed the number of events, together: every event is
/// counted at most once.
pub proof fn lemma_tallies_bounded(events: Seq<Payload>)
    ensures
        count(events, Tally::Goals) + count(events, Tally::Runs) + count(events, Tally::Claims)
            + count(events, Tally::Artifacts) <= events.len(),
    decreases events.len(),
{
    if events.len() > 0 {
        lemma_tallies_bounded(events.drop_last());
    }
}

/// The status line of a summary.
pub open spec fn status_text_spec(s: CnrStateSummary) -> Seq<char> {
    "events="@ + decimal(s.events as nat) + " goals="@ + decimal(s.goals as nat) + " runs="@
        + decimal(s.runs as nat) + " claims="@ + decimal(s.claims as nat) + " artifacts="@
        + decimal(s.artifacts as nat)
}

/// The report of a replay.
pub open spec fn replay_text_spec(s: CnrStateSummary) -> Seq<char> {
    "replayed "@ + decimal(s.events as nat) + " events (goals="@ + decimal(s.goals as nat)
        + " claims="@ + decimal(s.claims as nat) + ")"@
}

impl CnrStateSummary {
    /// `events=.. goals=.. runs=.. claims=.. artifacts=..`
    pub fn status_text(&self) -> (t: String)
        ensures
            t@ == status_text_spec(*self),
    {
        let e = decimal_string(self.events as u64);
        let g = decimal_string(self.goals as u64);
        let r = decimal_string(self.runs as u64);
        let c = decimal_string(self.claims as u64);
        let a = decimal_string(self.artifacts as u64);
        let t = cat3("events=", e.as_str(), " goals=");
        let t = cat3(t.as_str(), g.as_str(), " runs=");
        let t = cat3(t.as_str(), r.as_str(), " claims=");
        let t = cat3(t.as_str(), c.as_str(), " artifacts=");
        cat(t.as_str(), a.as_str())
    }

    /// `replayed .. events (goals=.. claims=..)`
    pub fn replay_text(&self) -> (t: String)
        ensures
            t@ == replay_text_spec(*self),
    {
        let e = decimal_string(self.events as u64);
        let g = decimal_string(self.goals as u64);
        let c = decimal_string(self.claims as u64);
        let t = cat3("replayed ", e.as_str(), " events (goals=");
        let t = cat3(t.as_str(), g.as_str(), " claims=");
        cat3(t.as_str(), c.as_str(), ")")
    }
}

/// The status line of a goal: its id, its status and its title.
pub fn status_line(id: &str, status: &str, title: &str) -> (t: String)
    ensures
        t@ == id@ + " "@ + status@ + " "@ + title@,
{
    let t = cat3(id, " ", status);
    cat3(t.as_str(), " ", title)
}

} // verus!

verus! {

/// Each event adds one to exactly the tally of its kind, and to no other: a
/// created goal to the goals, a started run to the runs, an asserted claim
/// to the claims, an artifact reference to the artifacts; a finished run, a
/// message or any other payload leaves every tally as it was.
pub proof fn lemma_event_counts_once(events: Seq<Payload>, p: Payload)
    ensures
        count(events.push(p), Tally::Goals) == count(events, Tally::Goals) + if p is GoalCreated {
            1nat
        } else {
            0nat
        },
        count(events.push(p), Tally::Runs) == count(events, Tally::Runs) + if p is RunStarted {
            1nat
        } else {
            0nat
        },
        count(events.push(p), Tally::Claims) == count(events, Tally::Claims) + if p is ClaimAsserted {
            1nat
        } else {
            0nat
        },
        count(events.push(p), Tally::Artifacts) == count(events, Tally::Artifacts)
            + if p is ArtifactRef {
            1nat
        } else {
            0nat
        },
{
    assert(events.push(p).drop_last() =~= events);
}

/// An empty log counts nothing.
pub proof fn lemma_empty_log_counts_nothing(t: Tally)
    ensures
        count(Seq::<Payload>::empty(), t) == 0,
{
}

} // verus!
