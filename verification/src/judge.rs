//! Judge events: what a player's game decided about single notes.
use crate::chart::{has_note, note_count, with_status, JudgeStatus, Note};
use vstd::prelude::*;

verus! {

/// A decision about one note, as the player's game sends it.
#[derive(Clone, Copy, PartialEq, Eq, Debug, Structural)]
pub enum Judgement {
    Perfect,
    Good,
    Bad,
    Miss,
    /// A hold note was caught perfectly and is now being held.
    HoldPerfect,
    /// A hold note was caught well and is now being held.
    HoldGood,
}

/// A judgement with its time and its note.
#[derive(Clone, Copy, PartialEq, Eq, Debug, Structural)]
pub struct JudgeEvent {
    pub time: i64,
    pub line_id: u32,
    pub note_id: u32,
    pub judgement: Judgement,
}

/// A judgement that settles a note.
#[derive(Clone, Copy, PartialEq, Eq, Debug, Structural)]
pub enum Verdict {
    Perfect,
    Good,
    Bad,
    Miss,
}

/// What is left to do for a judge event once the state has taken it over.
#[derive(Clone, Copy, PartialEq, Eq, Debug, Structural)]
pub enum JudgeAction {
    /// Count the verdict for the note and show its effect.
    Commit { verdict: Verdict, line_id: u32, note_id: u32 },
    /// Show the note as being held.
    Hold { perfect: bool, line_id: u32, note_id: u32 },
}

/// What a judgement makes of a note: settled with a verdict, or held, perfectly or not.
pub open spec fn outcome(judgement: Judgement) -> Result<Verdict, bool> {
    match judgement {
        Judgement::Perfect => Ok(Verdict::Perfect),
        Judgement::Good => Ok(Verdict::Good),
        Judgement::Bad => Ok(Verdict::Bad),
        Judgement::Miss => Ok(Verdict::Miss),
        Judgement::HoldPerfect => Err(true),
        Judgement::HoldGood => Err(false),
    }
}

/// The status that an event gives its note when it is taken over at `t`.
pub open spec fn status_of(event: JudgeEvent, t: i64) -> JudgeStatus {
    match outcome(event.judgement) {
        Ok(_) => JudgeStatus::Judged,
        Err(perfect) => JudgeStatus::Hold { perfect, at: t },
    }
}

/// What is left to do for an event.
pub open spec fn action_of(event: JudgeEvent) -> JudgeAction {
    match outcome(event.judgement) {
        Ok(verdict) => JudgeAction::Commit {
            verdict,
            line_id: event.line_id,
            note_id: event.note_id,
        },
        Err(perfect) => JudgeAction::Hold {
            perfect,
            line_id: event.line_id,
            note_id: event.note_id,
        },
    }
}

/// How many events at the front of the queue are due at `t`.
pub open spec fn due_count(events: Seq<JudgeEvent>, t: i64) -> nat
    decreases events.len(),
{
    if events.len() == 0 || events[0].time > t {
        0
    } else {
        1 + due_count(events.skip(1), t)
    }
}

/// How many of the events settle a note.
pub open spec fn commit_count(events: Seq<JudgeEvent>) -> nat
    decreases events.len(),
{
    if events.len() == 0 {
        0
    } else {
        commit_count(events.drop_last()) + if outcome(events.last().judgement) is Ok {
            1nat
        } else {
            0nat
        }
    }
}

/// The chart once the events have been taken over at `t`, in order.
pub open spec fn judged(chart: Seq<Seq<Note>>, events: Seq<JudgeEvent>, t: i64) -> Seq<Seq<Note>>
    decreases events.len(),
{
    if events.len() == 0 {
        chart
    } else {
        with_status(
            judged(chart, events.drop_last(), t),
            events.last().line_id as int,
            events.last().note_id as int,
            status_of(events.last(), t),
        )
    }
}

/// Whether the event names a note of the chart.
pub open spec fn names_note(chart: Seq<Seq<Note>>, event: JudgeEvent) -> bool {
    has_note(chart, event.line_id as int, event.note_id as int)
}

/// The events that are due are those at the front up to the first that is not.
pub proof fn lemma_due_count(events: Seq<JudgeEvent>, t: i64)
    ensures
        due_count(events, t) <= events.len(),
        forall|i: int| 0 <= i < due_count(events, t) ==> (#[trigger] events[i]).time <= t,
        due_count(events, t) < events.len() ==> events[due_count(events, t) as int].time > t,
    decreases events.len(),
{
    if events.len() > 0 && events[0].time <= t {
        let rest = events.skip(1);
        lemma_due_count(rest, t);
        assert forall|i: int| 0 <= i < due_count(events, t) implies (#[trigger] events[i]).time
            <= t by {
            if i > 0 {
                assert(rest[i - 1] == events[i]);
            }
        }
    }
}

/// Taking over events that name notes of the chart changes no shape and no count.
pub proof fn lemma_judged_shape(chart: Seq<Seq<Note>>, events: Seq<JudgeEvent>, t: i64)
    requires
        forall|i: int| 0 <= i < events.len() ==> names_note(chart, #[trigger] events[i]),
    ensures
        judged(chart, events, t).len() == chart.len(),
        forall|i: int|
            0 <= i < chart.len() ==> (#[trigger] judged(chart, events, t)[i]).len()
                == chart[i].len(),
        note_count(judged(chart, events, t)) == note_count(chart),
    decreases events.len(),
{
    if events.len() > 0 {
        let last = events.last();
        lemma_judged_shape(chart, events.drop_last(), t);
        assert(names_note(chart, events[events.len() - 1]));
        crate::chart::lemma_with_status_count(
            judged(chart, events.drop_last(), t),
            last.line_id as int,
            last.note_id as int,
            status_of(last, t),
        );
    }
}

/// The first `k` events settle no more notes than all of them.
pub proof fn lemma_commit_count_prefix(events: Seq<JudgeEvent>, k: int)
    requires
        0 <= k <= events.len(),
    ensures
        commit_count(events.take(k)) <= commit_count(events),
    decreases events.len(),
{
    if k < events.len() {
        lemma_commit_count_prefix(events.drop_last(), k);
        assert(events.drop_last().take(k) =~= events.take(k));
    } else {
        assert(events.take(k) =~= events);
    }
}

impl JudgeEvent {
    /// What the judgement makes of its note.
    pub fn outcome(&self) -> (r: Result<Verdict, bool>)
        ensures
            r == outcome(self.judgement),
    {
        match self.judgement {
            Judgement::Perfect => Ok(Verdict::Perfect),
            Judgement::Good => Ok(Verdict::Good),
            Judgement::Bad => Ok(Verdict::Bad),
            Judgement::Miss => Ok(Verdict::Miss),
            Judgement::HoldPerfect => Err(true),
            Judgement::HoldGood => Err(false),
        }
    }
}

} // verus!
