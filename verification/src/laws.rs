//! Laws of single players and of the whole monitor.
use crate::chart::{has_note, Note};
use crate::judge::{due_count, judged, lemma_due_count, names_note, status_of, JudgeEvent};
use crate::pause::{any_overdue, overdue};
use crate::player::{
    colour_after, lemma_passed_count, passed_count, with_frames, Overlay, PlayerModel,
};
use crate::state::MonitorGameState;
use crate::time::{saturate, END_WINDOW, JUDGE_BUFFER, RESUME_BUFFER_TIME};
use crate::touch::{
    drawn, finger, fingers_only, held, moving, unmentioned, Position, TouchInput, TouchPoint,
    FINGERS,
};
use vstd::prelude::*;

verus! {

/// An aborted player ignores both the clock and everything that still arrives.
pub proof fn law_aborted_player_is_frozen(
    player: PlayerModel,
    delta: i64,
    now: i64,
    touch_frames: Seq<crate::touch::TouchFrameModel>,
    judge_events: Seq<JudgeEvent>,
)
    requires
        player.is_aborted,
    ensures
        player.ticked(delta, now) == player,
        player.received(touch_frames, judge_events) == player,
{
}

/// A player's clock moves by the global step or not at all, and it moves exactly when the player
/// has started, has not aborted, and comes out of the tick neither paused nor resuming.
pub proof fn law_clock_moves_or_stands(player: PlayerModel, delta: i64, now: i64)
    ensures
        ({
            let after = player.ticked(delta, now);
            let runs = player.has_started && !player.is_aborted && !after.is_paused
                && !after.is_resuming;
            after.local_time == if runs {
                saturate(player.local_time + delta)
            } else {
                player.local_time
            }
        }),
{
}

/// Nobody is paused in the last stretch of a chart.
pub proof fn law_no_pause_near_the_end(player: PlayerModel)
    requires
        player.local_time >= player.expected_end_time - END_WINDOW,
    ensures
        !player.should_pause(),
{
}

/// Nobody is paused as long as every note that playback has left behind by more than the buffer is
/// judged or held: however long the gap to the next note, and however long a note is held.
pub proof fn law_no_pause_without_overdue_note(player: PlayerModel)
    requires
        forall|i: int, j: int|
            has_note(player.chart, i, j) ==> {
                let note = #[trigger] player.chart[i][j];
                ||| note.fake
                ||| !(note.judge is NotJudged)
                ||| player.local_time <= note.time + JUDGE_BUFFER
            },
    ensures
        !any_overdue(player.chart, player.local_time),
        !player.should_pause(),
{
}

/// Nobody is paused while the next judge in the queue lies no further than the buffer behind any
/// overdue note: it may be the missing one.
pub proof fn law_no_pause_while_judges_wait(player: PlayerModel)
    requires
        player.judges.len() > 0,
        forall|i: int, j: int|
            has_note(player.chart, i, j) && overdue(
                #[trigger] player.chart[i][j],
                player.local_time,
            ) ==> player.judges[0].time <= player.chart[i][j].time + JUDGE_BUFFER,
    ensures
        !player.should_pause(),
{
}

/// The player after the global clock has shown the given times, one after the other, having shown
/// `last` before.
pub open spec fn run(player: PlayerModel, last: i64, times: Seq<i64>) -> PlayerModel
    decreases times.len(),
{
    if times.len() == 0 {
        player
    } else {
        let before = times.drop_last();
        let previous = if before.len() == 0 {
            last
        } else {
            before.last()
        };
        run(player, last, before).ticked(saturate(times.last() - previous), times.last())
    }
}

/// From the moment a resume buffer begins, playback stands still for the whole buffer, whatever
/// the judges do meanwhile.
pub proof fn law_resume_waits(player: PlayerModel, last: i64, times: Seq<i64>)
    requires
        player.wf(),
        player.is_resuming,
        forall|i: int|
            0 <= i < times.len() ==> #[trigger] times[i] < player.resume_buffer_start->0
                + RESUME_BUFFER_TIME,
    ensures
        run(player, last, times) == player,
    decreases times.len(),
{
    if times.len() > 0 {
        assert forall|i: int| 0 <= i < times.drop_last().len() implies #[trigger] times.drop_last()[i]
            < player.resume_buffer_start->0 + RESUME_BUFFER_TIME by {
            assert(times.drop_last()[i] == times[i]);
        }
        law_resume_waits(player, last, times.drop_last());
        assert(times.last() == times[times.len() - 1]);
    }
}

/// A player who runs and lacks a judge is paused by the next tick, and the clock stands.
pub proof fn law_missing_judge_pauses(player: PlayerModel, delta: i64, now: i64)
    requires
        player.has_started,
        !player.is_aborted,
        !player.is_paused,
        !player.is_resuming,
        player.should_pause(),
    ensures
        player.ticked(delta, now) == player.paused(now),
        player.ticked(delta, now).local_time == player.local_time,
{
}

/// A pause lasts as long as the judge is missing: without new data the clock alone changes nothing.
pub proof fn law_pause_lasts(player: PlayerModel, last: i64, times: Seq<i64>)
    requires
        player.wf(),
        player.is_paused,
        player.should_pause(),
    ensures
        run(player, last, times) == player,
    decreases times.len(),
{
    if times.len() > 0 {
        law_pause_lasts(player, last, times.drop_last());
    }
}

/// Every pause for want of judges is counted: the tick that ends it adds the time since it began to
/// the time spent in pauses.
pub proof fn law_every_pause_is_counted(player: PlayerModel, delta: i64, now: i64)
    requires
        player.wf(),
        player.has_started,
        !player.is_aborted,
        player.is_paused,
        !player.should_pause(),
    ensures
        player.pause_start_time is Some,
        player.ticked(delta, now).total_paused_duration == saturate(
            player.total_paused_duration + saturate(now - player.pause_start_time->0),
        ),
        player.ticked(delta, now).is_resuming,
{
}

/// The time between the beginning and the end of a pause is added to the time spent in pauses.
pub proof fn law_pauses_add_up(player: PlayerModel, begin: i64, end: i64)
    ensures
        player.paused(begin).resuming(end).total_paused_duration == saturate(
            player.total_paused_duration + saturate(end - begin),
        ),
        player.paused(begin).resuming(end).pause_start_time is None,
{
}

/// A player is ready from the first judge on, and no data makes a player unready.
pub proof fn law_first_judge_makes_ready(
    player: PlayerModel,
    touch_frames: Seq<crate::touch::TouchFrameModel>,
    judge_events: Seq<JudgeEvent>,
)
    requires
        !player.is_aborted,
    ensures
        player.has_started ==> player.received(touch_frames, judge_events).has_started,
        player.judges.len() == 0 && judge_events.len() > 0 ==> player.received(
            touch_frames,
            judge_events,
        ).has_started,
        judge_events.len() == 0 ==> player.received(touch_frames, judge_events).has_started
            == player.has_started,
{
}

/// Once the buffer is over, the next tick lets the clock run on.
pub proof fn law_resume_ends(player: PlayerModel, delta: i64, now: i64)
    requires
        player.wf(),
        player.has_started,
        !player.is_aborted,
        player.is_resuming,
        now >= player.resume_buffer_start->0 + RESUME_BUFFER_TIME,
    ensures
        player.ticked(delta, now).local_time == saturate(player.local_time + delta),
        !player.ticked(delta, now).is_resuming,
{
}

/// A player never gets ahead of the global clock, and never goes back in time: over any run of a
/// clock that does not go back, the player's clock moves on by at least nothing and at most as
/// much as the global clock.
pub proof fn law_local_time_follows_global_time(player: PlayerModel, last: i64, times: Seq<i64>)
    requires
        forall|i: int, j: int| 0 <= i <= j < times.len() ==> times[i] <= times[j],
        times.len() > 0 ==> last <= times[0],
    ensures
        player.local_time <= run(player, last, times).local_time,
        times.len() > 0 ==> run(player, last, times).local_time <= player.local_time + (times.last()
            - last),
    decreases times.len(),
{
    if times.len() > 0 {
        let before = times.drop_last();
        assert forall|i: int, j: int| 0 <= i <= j < before.len() implies before[i]
            <= before[j] by {
            assert(before[i] == times[i] && before[j] == times[j]);
        }
        law_local_time_follows_global_time(player, last, before);
        let previous = if before.len() == 0 {
            last
        } else {
            before.last()
        };
        if before.len() > 0 {
            assert(before.last() == times[times.len() - 2]);
            assert(times.last() == times[times.len() - 1]);
        }
        law_clock_moves_or_stands(
            run(player, last, before),
            saturate(times.last() - previous),
            times.last(),
        );
    }
}

/// While the monitor is idle nothing is drawn over a player's picture.
pub proof fn law_no_overlay_while_idle(player: PlayerModel, now: i64)
    ensures
        player.overlay(now, MonitorGameState::Idle) == Overlay::Nothing,
{
}

/// After the end of a game, and at no other time, every player's picture says so: whoever was
/// paused, resuming or gone is shown as finished.
pub proof fn law_finished_is_shown_after_the_game(
    player: PlayerModel,
    now: i64,
    state: MonitorGameState,
)
    ensures
        player.overlay(now, state) == Overlay::Finished <==> state is Ended,
{
}

/// The colour state never returns: it only grows, and white is final.
pub proof fn law_colour_never_returns(state: u8, counts: Seq<u32>)
    requires
        state <= 2,
        counts.len() == 4,
    ensures
        state <= colour_after(state, counts) <= 2,
        colour_after(2, counts) == 2,
        colour_after(colour_after(state, counts), counts) == colour_after(state, counts),
{
}

/// A finger on its way between two frames has covered some of the way, and at most all of it.
pub proof fn law_touch_progress(player: PlayerModel, t: i64)
    requires
        passed_count(player.touches, t) > 0,
    ensures
        forall|i: int|
            0 <= i < player.touched(t).touch_points.len() ==> match
            #[trigger] player.touched(t).touch_points[i] {
                TouchPoint::Moving { elapsed, span, .. } => 0 < elapsed <= span,
                TouchPoint::Held { .. } => true,
            },
{
    lemma_passed_count(player.touches, t);
    let passed = passed_count(player.touches, t) as int;
    let rest = player.touches.skip(passed);
    if rest.len() > 0 {
        let since = player.touches[passed - 1].time;
        let current = with_frames(player.current_touches, player.touches.take(passed));
        let elapsed = saturate(t - since);
        let span = saturate(rest[0].time - since);
        assert(0 < elapsed <= span);
        lemma_moving_progress(current, rest[0].points, elapsed, span);
        lemma_held_progress(unmentioned(current, rest[0].points), FINGERS as int);
    }
}

proof fn lemma_moving_progress(
    current: Map<i8, Position>,
    points: Seq<TouchInput>,
    elapsed: i64,
    span: i64,
)
    ensures
        forall|i: int|
            0 <= i < moving(current, points, elapsed, span).len() ==> (match #[trigger] moving(
                current,
                points,
                elapsed,
                span,
            )[i] {
                TouchPoint::Moving { elapsed: e, span: s, .. } => e == elapsed && s == span,
                TouchPoint::Held { .. } => false,
            }),
    decreases points.len(),
{
    if points.len() > 0 {
        lemma_moving_progress(current, points.drop_last(), elapsed, span);
    }
}

proof fn lemma_held_progress(current: Map<i8, Position>, count: int)
    ensures
        forall|i: int|
            0 <= i < held(current, count).len() ==> #[trigger] held(current, count)[i] is Held,
    decreases count,
{
    if count > 0 {
        lemma_held_progress(current, count - 1);
    }
}

/// Every finger that is down is drawn exactly once.
pub proof fn law_every_finger_is_drawn_once(
    current: Map<i8, Position>,
    points: Seq<TouchInput>,
    elapsed: i64,
    span: i64,
)
    requires
        fingers_only(current),
    ensures
        current.dom().finite(),
        drawn(current, points, elapsed, span).len() == current.dom().len(),
{
    lemma_finite(current, FINGERS as int);
    lemma_moving_count(current, points, elapsed, span);
    let left = unmentioned(current, points);
    lemma_held_count(left, FINGERS as int);
    assert(left.dom() =~= left.dom().filter(|id: i8| id < FINGERS));
}

/// A map that names no finger from `count` on is finite.
proof fn lemma_finite(current: Map<i8, Position>, count: int)
    requires
        fingers_only(current),
        0 <= count <= FINGERS,
        forall|id: i8| #[trigger] current.contains_key(id) ==> id < count,
    ensures
        current.dom().finite(),
    decreases count,
{
    if count == 0 {
        assert(current.dom() =~= Set::empty());
    } else {
        let last = (count - 1) as i8;
        lemma_finite(current.remove(last), count - 1);
        assert(current.dom() =~= current.remove(last).dom().insert(last) || current.dom()
            =~= current.remove(last).dom());
    }
}

proof fn lemma_moving_count(
    current: Map<i8, Position>,
    points: Seq<TouchInput>,
    elapsed: i64,
    span: i64,
)
    requires
        fingers_only(current),
        current.dom().finite(),
    ensures
        fingers_only(unmentioned(current, points)),
        unmentioned(current, points).dom().finite(),
        moving(current, points, elapsed, span).len() + unmentioned(current, points).dom().len()
            == current.dom().len(),
    decreases points.len(),
{
    if points.len() > 0 {
        lemma_moving_count(current, points.drop_last(), elapsed, span);
        let left = unmentioned(current, points.drop_last());
        let id = finger(points.last().id);
        assert(left.remove(id).dom() =~= left.dom().remove(id));
    }
}

proof fn lemma_held_count(current: Map<i8, Position>, count: int)
    requires
        fingers_only(current),
        current.dom().finite(),
        0 <= count <= FINGERS,
    ensures
        current.dom().filter(|id: i8| id < count).finite(),
        held(current, count).len() == current.dom().filter(|id: i8| id < count).len(),
    decreases count,
{
    let below = current.dom().filter(|id: i8| id < count);
    if count == 0 {
        assert(below =~= Set::empty());
    } else {
        lemma_held_count(current, count - 1);
        let before = current.dom().filter(|id: i8| id < count - 1);
        let last = (count - 1) as i8;
        if current.contains_key(last) {
            assert(below =~= before.insert(last));
        } else {
            assert(below =~= before);
        }
    }
}

/// Taking over the judges that are due loses none and repeats none: the queue was those that are
/// taken, followed by those that wait, and nothing that is due waits at the front.
pub proof fn law_judges_are_taken_once(player: PlayerModel, t: i64)
    ensures
        player.judges == player.due(t) + player.judged(t).judges,
        player.due_actions(t).len() == player.due(t).len(),
        player.judged(t).due(t).len() == 0,
{
    lemma_due_count(player.judges, t);
    let n = due_count(player.judges, t) as int;
    let rest = player.judges.skip(n);
    assert(player.judges =~= player.due(t) + rest);
    if rest.len() > 0 {
        assert(rest[0] == player.judges[n]);
    }
    assert(due_count(rest, t) == 0);
}

/// Whether event `k` is the last of the events that names note (`line`, `note`).
pub open spec fn is_last_for(events: Seq<JudgeEvent>, k: int, line: int, note: int) -> bool {
    &&& 0 <= k < events.len()
    &&& events[k].line_id == line && events[k].note_id == note
    &&& forall|m: int|
        k < m < events.len() ==> !((#[trigger] events[m]).line_id == line && events[m].note_id
            == note)
}

/// After judges have been taken over, each note has the status of the last judge that names it,
/// and is otherwise as it was.
pub proof fn law_last_judge_decides(
    chart: Seq<Seq<Note>>,
    events: Seq<JudgeEvent>,
    t: i64,
    line: int,
    note: int,
)
    requires
        forall|i: int| 0 <= i < events.len() ==> names_note(chart, #[trigger] events[i]),
        has_note(chart, line, note),
    ensures
        has_note(judged(chart, events, t), line, note),
        forall|k: int|
            #[trigger] is_last_for(events, k, line, note) ==> judged(chart, events, t)[line][note]
                == (Note { judge: status_of(events[k], t), ..chart[line][note] }),
        (forall|k: int| !#[trigger] is_last_for(events, k, line, note)) ==> judged(
            chart,
            events,
            t,
        )[line][note] == chart[line][note],
    decreases events.len(),
{
    if events.len() > 0 {
        let before = events.drop_last();
        let last = events.last();
        let n = events.len() - 1;
        assert forall|i: int| 0 <= i < before.len() implies names_note(
            chart,
            #[trigger] before[i],
        ) by {
            assert(before[i] == events[i]);
        }
        law_last_judge_decides(chart, before, t, line, note);
        crate::judge::lemma_judged_shape(chart, before, t);
        assert(names_note(chart, events[n]));
        if last.line_id == line && last.note_id == note {
            assert(is_last_for(events, n, line, note));
            assert forall|k: int| #[trigger] is_last_for(events, k, line, note) implies k == n by {
                if k < n {
                    assert(!(events[n].line_id == line && events[n].note_id == note));
                }
            }
            if exists|k: int| is_last_for(before, k, line, note) {
                let k = choose|k: int| is_last_for(before, k, line, note);
                assert(judged(chart, before, t)[line][note] == (Note {
                    judge: status_of(before[k], t),
                    ..chart[line][note]
                }));
            } else {
                assert(judged(chart, before, t)[line][note] == chart[line][note]);
            }
            assert(judged(chart, events, t)[line][note] == (Note {
                judge: status_of(events[n], t),
                ..chart[line][note]
            }));
        } else {
            assert forall|k: int| is_last_for(events, k, line, note) == #[trigger] is_last_for(
                before,
                k,
                line,
                note,
            ) by {
                if is_last_for(before, k, line, note) {
                    assert forall|m: int| k < m < events.len() implies !((
                    #[trigger] events[m]).line_id == line && events[m].note_id == note) by {
                        if m < n {
                            assert(before[m] == events[m]);
                        }
                    }
                }
                if is_last_for(events, k, line, note) {
                    assert forall|m: int| k < m < before.len() implies !((
                    #[trigger] before[m]).line_id == line && before[m].note_id == note) by {
                        assert(before[m] == events[m]);
                    }
                }
            }
            assert(judged(chart, events, t)[line][note] == judged(chart, before, t)[line][note]);
            assert forall|k: int| #[trigger] is_last_for(events, k, line, note) implies judged(
                chart,
                events,
                t,
            )[line][note] == (Note { judge: status_of(events[k], t), ..chart[line][note] }) by {
                assert(is_last_for(before, k, line, note));
                assert(before[k] == events[k]);
            }
            if forall|k: int| !#[trigger] is_last_for(events, k, line, note) {
                assert forall|k: int| !#[trigger] is_last_for(before, k, line, note) by {
                    assert(!is_last_for(events, k, line, note));
                }
            }
        }
    }
}

} // verus!
