//! Missing judges: when a note is overdue and nothing says what became of it.
use crate::chart::{has_note, Chart, JudgeStatus, Note};
use crate::time::{exceeds, JUDGE_BUFFER};
use vstd::prelude::*;

verus! {

/// Whether playback at `now` has run past the note by more than the buffer, and the note is still
/// without a judge. Fake notes and notes that are being held are never overdue.
pub open spec fn overdue(note: Note, now: i64) -> bool {
    &&& !note.fake
    &&& note.judge is NotJudged
    &&& now > note.time + JUDGE_BUFFER
}

/// Whether the chart has an overdue note.
pub open spec fn any_overdue(chart: Seq<Seq<Note>>, now: i64) -> bool {
    exists|i: int, j: int| has_note(chart, i, j) && overdue(#[trigger] chart[i][j], now)
}

/// Whether `earliest` is the time of the first overdue note on a line.
spec fn earliest_on_line(notes: Seq<Note>, now: i64, earliest: Option<i64>) -> bool {
    match earliest {
        None => forall|j: int| 0 <= j < notes.len() ==> !overdue(#[trigger] notes[j], now),
        Some(time) => {
            &&& exists|j: int|
                0 <= j < notes.len() && overdue(#[trigger] notes[j], now) && notes[j].time == time
            &&& forall|j: int|
                0 <= j < notes.len() && overdue(#[trigger] notes[j], now) ==> time <= notes[j].time
        },
    }
}

/// Whether `earliest` is the time of the first overdue note of the chart, if there is one.
pub open spec fn is_earliest_overdue(
    chart: Seq<Seq<Note>>,
    now: i64,
    earliest: Option<i64>,
) -> bool {
    match earliest {
        None => !any_overdue(chart, now),
        Some(time) => {
            &&& exists|i: int, j: int|
                has_note(chart, i, j) && overdue(#[trigger] chart[i][j], now) && chart[i][j].time
                    == time
            &&& forall|i: int, j: int|
                has_note(chart, i, j) && overdue(#[trigger] chart[i][j], now) ==> time
                    <= chart[i][j].time
        },
    }
}

/// The earlier of two optional times.
fn earlier(a: Option<i64>, b: Option<i64>) -> (r: Option<i64>)
    ensures
        a is None ==> r == b,
        b is None ==> r == a,
        a is Some && b is Some ==> r == if b->0 < a->0 {
            b
        } else {
            a
        },
{
    match (a, b) {
        (Some(x), Some(y)) => if y < x {
            Some(y)
        } else {
            Some(x)
        },
        (Some(x), None) => Some(x),
        (None, y) => y,
    }
}

fn line_earliest(notes: &Vec<Note>, now: i64) -> (r: Option<i64>)
    ensures
        earliest_on_line(notes@, now, r),
{
    let mut earliest: Option<i64> = None;
    for j in 0..notes.len()
        invariant
            earliest_on_line(notes@.take(j as int), now, earliest),
    {
        let note: Note = notes[j];
        let ghost before = notes@.take(j as int);
        let ghost after = notes@.take(j + 1);
        let ghost previous = earliest;
        let unjudged = match note.judge {
            JudgeStatus::NotJudged => true,
            _ => false,
        };
        if !note.fake && unjudged && exceeds(now, note.time, JUDGE_BUFFER) {
            earliest = earlier(earliest, Some(note.time));
        }
        proof {
            assert(after[j as int] == note);
            assert(forall|k: int| 0 <= k < j ==> #[trigger] after[k] == before[k]);
            if overdue(note, now) {
                if previous is Some && earliest == previous {
                    let k = choose|k: int|
                        0 <= k < before.len() && overdue(#[trigger] before[k], now)
                            && before[k].time == previous->0;
                    assert(overdue(after[k], now) && after[k].time == earliest->0);
                } else {
                    assert(overdue(after[j as int], now) && after[j as int].time == earliest->0);
                }
            } else if previous is Some {
                let k = choose|k: int|
                    0 <= k < before.len() && overdue(#[trigger] before[k], now) && before[k].time
                        == previous->0;
                assert(overdue(after[k], now) && after[k].time == earliest->0);
            }
        }
    }
    assert(notes@.take(notes@.len() as int) =~= notes@);
    earliest
}

impl Chart {
    /// The time of the first overdue note, if there is one.
    pub fn earliest_overdue(&self, now: i64) -> (r: Option<i64>)
        ensures
            is_earliest_overdue(self@, now, r),
    {
        let mut earliest: Option<i64> = None;
        for i in 0..self.lines.len()
            invariant
                is_earliest_overdue(self@.take(i as int), now, earliest),
        {
            let ghost before = self@.take(i as int);
            let ghost after = self@.take(i + 1);
            let ghost previous = earliest;
            let on_line: Option<i64> = line_earliest(&self.lines[i].notes, now);
            earliest = earlier(earliest, on_line);
            proof {
                let line = self.lines@[i as int].notes@;
                assert(after[i as int] == line);
                assert(forall|a: int| 0 <= a < i ==> #[trigger] after[a] == before[a]);
                assert forall|a: int, b: int|
                    has_note(after, a, b) && overdue(#[trigger] after[a][b], now) implies earliest
                    is Some && earliest->0 <= after[a][b].time by {
                    if a < i {
                        assert(has_note(before, a, b) && overdue(before[a][b], now));
                    } else {
                        assert(overdue(line[b], now));
                    }
                }
                if earliest is Some {
                    if previous is Some && earliest == previous {
                        let (a, b) = choose|a: int, b: int|
                            has_note(before, a, b) && overdue(#[trigger] before[a][b], now)
                                && before[a][b].time == previous->0;
                        assert(has_note(after, a, b) && overdue(after[a][b], now)
                            && after[a][b].time == earliest->0);
                    } else {
                        let b = choose|b: int|
                            0 <= b < line.len() && overdue(#[trigger] line[b], now) && line[b].time
                                == on_line->0;
                        assert(has_note(after, i as int, b) && overdue(after[i as int][b], now)
                            && after[i as int][b].time == earliest->0);
                    }
                }
            }
        }
        assert(self@.take(self@.len() as int) =~= self@);
        earliest
    }
}

} // verus!
