//! Laws of a player's clock and of what is drawn over the player's picture, stated by what the
//! player's record and the chart's notes hold.
use crate::chart::{is_expected_end, NoteKind};
use crate::player::{colour_after, Overlay, PlayerModel};
use crate::state::MonitorGameState;
use crate::time::{
    saturate, END_WINDOW, JUDGE_BUFFER, NANOS_PER_SECOND, RESUME_BUFFER_TIME,
};
use vstd::prelude::*;

verus! {

/// A judge may be half a second late, a pause is followed by one and a half seconds of standing
/// still, and the last two seconds of a chart are never paused.
pub proof fn law_buffers()
    ensures
        NANOS_PER_SECOND == 1_000_000_000,
        2 * JUDGE_BUFFER == NANOS_PER_SECOND,
        2 * RESUME_BUFFER_TIME == 3 * NANOS_PER_SECOND,
        END_WINDOW == 2 * NANOS_PER_SECOND,
{
}

/// A time that an `i64` can hold is kept, and any other is replaced by the nearest end of the range.
pub proof fn law_saturation(x: int)
    ensures
        i64::MIN <= x <= i64::MAX ==> saturate(x) == x,
        x > i64::MAX ==> saturate(x) == i64::MAX,
        x < i64::MIN ==> saturate(x) == i64::MIN,
{
}

/// Playback has to wait if a real note of any kind lies more than half a second back, has no judge
/// yet, and no judge for it can be on its way: the next judge in the queue is for a later note, or
/// the queue has been dry for more than half a second of playback.
pub proof fn law_missing_judge_demands_a_pause(player: PlayerModel, line: int, note: int)
    requires
        0 <= line < player.chart.len(),
        0 <= note < player.chart[line].len(),
        !player.chart[line][note].fake,
        player.chart[line][note].judge is NotJudged,
        player.local_time > player.chart[line][note].time + 500_000_000,
        player.local_time < player.expected_end_time - 2_000_000_000,
        if player.judges.len() > 0 {
            player.judges[0].time > player.chart[line][note].time + 500_000_000
        } else {
            &&& player.has_received_judges
            &&& player.last_processed_judge_time > 0
            &&& player.local_time > player.last_processed_judge_time + 500_000_000
        },
    ensures
        player.should_pause(),
{
    assert(crate::chart::has_note(player.chart, line, note) && crate::pause::overdue(
        player.chart[line][note],
        player.local_time,
    ) && player.lacks_judge(player.chart[line][note]));
}

/// Playback waits for nothing else: where it has to wait, there is such a note, and the end of the
/// chart is more than two seconds away.
pub proof fn law_a_pause_has_a_missing_judge(player: PlayerModel)
    requires
        player.should_pause(),
    ensures
        player.local_time < player.expected_end_time - 2_000_000_000,
        exists|line: int, note: int|
            {
                &&& 0 <= line < player.chart.len()
                &&& 0 <= note < player.chart[line].len()
                &&& !(#[trigger] player.chart[line][note]).fake
                &&& player.chart[line][note].judge is NotJudged
                &&& player.local_time > player.chart[line][note].time + 500_000_000
                &&& player.judges.len() > 0 ==> player.judges[0].time
                    > player.chart[line][note].time + 500_000_000
            },
        player.judges.len() == 0 ==> {
            &&& player.has_received_judges
            &&& player.last_processed_judge_time > 0
            &&& player.local_time > player.last_processed_judge_time + 500_000_000
        },
{
    let (line, note) = choose|i: int, j: int|
        crate::chart::has_note(player.chart, i, j) && crate::pause::overdue(
            #[trigger] player.chart[i][j],
            player.local_time,
        ) && player.lacks_judge(player.chart[i][j]);
    assert(!player.chart[line][note].fake);
}

/// A player who has not started, or has left, is not touched by the clock; of any other player the
/// clock touches nothing but the clock's own fields.
pub proof fn law_tick_touches_the_clock_only(player: PlayerModel, delta: i64, now: i64)
    ensures
        ({
            let after = player.ticked(delta, now);
            &&& !player.has_started || player.is_aborted ==> after == player
            &&& after == (PlayerModel {
                local_time: after.local_time,
                is_paused: after.is_paused,
                is_resuming: after.is_resuming,
                pause_start_time: after.pause_start_time,
                resume_buffer_start: after.resume_buffer_start,
                total_paused_duration: after.total_paused_duration,
                ..player
            })
        }),
{
}

/// A tick of a running clock: playback moves on by the step, or stops where it is and a pause begins
/// now.
pub proof fn law_running_clock(player: PlayerModel, delta: i64, now: i64)
    requires
        player.has_started,
        !player.is_aborted,
        !player.is_paused,
        !player.is_resuming,
    ensures
        ({
            let after = player.ticked(delta, now);
            &&& after.is_paused == player.should_pause()
            &&& !after.is_resuming
            &&& after.total_paused_duration == player.total_paused_duration
            &&& player.should_pause() ==> {
                &&& after.local_time == player.local_time
                &&& after.pause_start_time == Some(now)
                &&& after.resume_buffer_start is None
            }
            &&& !player.should_pause() ==> {
                &&& after.local_time == saturate(player.local_time + delta)
                &&& after.pause_start_time == player.pause_start_time
                &&& after.resume_buffer_start == player.resume_buffer_start
            }
        }),
{
}

/// A tick of a paused clock: nothing changes while the judge is missing. Once it has come, the
/// buffer begins now, the pause is counted, and playback still stands.
pub proof fn law_paused_clock(player: PlayerModel, delta: i64, now: i64)
    requires
        player.wf(),
        player.has_started,
        !player.is_aborted,
        player.is_paused,
    ensures
        ({
            let after = player.ticked(delta, now);
            &&& player.should_pause() ==> after == player
            &&& !player.should_pause() ==> {
                &&& !after.is_paused
                &&& after.is_resuming
                &&& after.resume_buffer_start == Some(now)
                &&& after.local_time == player.local_time
                &&& after.pause_start_time is None
                &&& after.total_paused_duration == saturate(
                    player.total_paused_duration + saturate(now - player.pause_start_time->0),
                )
            }
        }),
{
}

/// A tick in the buffer: nothing changes for one and a half seconds, missing judge or not; then
/// playback moves on by the step.
pub proof fn law_resuming_clock(player: PlayerModel, delta: i64, now: i64)
    requires
        player.wf(),
        player.has_started,
        !player.is_aborted,
        player.is_resuming,
    ensures
        ({
            let after = player.ticked(delta, now);
            let waited = now - player.resume_buffer_start->0;
            &&& waited < 1_500_000_000 ==> after == player
            &&& waited >= 1_500_000_000 ==> {
                &&& !after.is_paused
                &&& !after.is_resuming
                &&& after.resume_buffer_start is None
                &&& after.local_time == saturate(player.local_time + delta)
                &&& after.pause_start_time == player.pause_start_time
                &&& after.total_paused_duration == player.total_paused_duration
            }
        }),
{
}

/// A missing judge stops a running player, whatever the kind of its note.
pub proof fn law_missing_judge_stops_playback(
    player: PlayerModel,
    line: int,
    note: int,
    delta: i64,
    now: i64,
)
    requires
        player.has_started,
        !player.is_aborted,
        !player.is_paused,
        !player.is_resuming,
        0 <= line < player.chart.len(),
        0 <= note < player.chart[line].len(),
        !player.chart[line][note].fake,
        player.chart[line][note].judge is NotJudged,
        player.local_time > player.chart[line][note].time + 500_000_000,
        player.local_time < player.expected_end_time - 2_000_000_000,
        player.judges.len() > 0,
        player.judges[0].time > player.chart[line][note].time + 500_000_000,
    ensures
        player.ticked(delta, now).is_paused,
        player.ticked(delta, now).local_time == player.local_time,
        player.ticked(delta, now).pause_start_time == Some(now),
{
    law_missing_judge_demands_a_pause(player, line, note);
    law_running_clock(player, delta, now);
}

/// The end of a chart: no real note ends later, a hold note ending with its hold and any other at
/// its time, and one of them ends just then, unless the end is at zero. There is only one such time.
pub proof fn law_the_last_note_ends_the_chart(
    chart: Seq<Seq<crate::chart::Note>>,
    end: int,
    other: int,
)
    requires
        is_expected_end(chart, end),
    ensures
        end >= 0,
        forall|line: int, note: int|
            0 <= line < chart.len() && 0 <= note < chart[line].len() && !(
            #[trigger] chart[line][note]).fake ==> match chart[line][note].kind {
                NoteKind::Hold { end_time } => end_time <= end,
                _ => chart[line][note].time <= end,
            },
        end > 0 ==> exists|line: int, note: int|
            {
                &&& 0 <= line < chart.len()
                &&& 0 <= note < chart[line].len()
                &&& !(#[trigger] chart[line][note]).fake
                &&& match chart[line][note].kind {
                    NoteKind::Hold { end_time } => end_time == end,
                    _ => chart[line][note].time == end,
                }
            },
        is_expected_end(chart, other) ==> other == end,
{
    assert forall|line: int, note: int|
        0 <= line < chart.len() && 0 <= note < chart[line].len() && !(
        #[trigger] chart[line][note]).fake implies match chart[line][note].kind {
        NoteKind::Hold { end_time } => end_time <= end,
        _ => chart[line][note].time <= end,
    } by {
        assert(crate::chart::has_note(chart, line, note));
    }
    if end > 0 {
        let (line, note) = choose|i: int, j: int|
            crate::chart::has_note(chart, i, j) && !(#[trigger] chart[i][j]).fake
                && crate::chart::note_end(chart[i][j]) == end;
        assert(!chart[line][note].fake);
    }
}

/// What is drawn over a picture while a round is on: that the player has left; else that playback is
/// paused; else how much of the one and a half seconds of standing still is over; else nothing.
pub proof fn law_overlay_in_a_round(player: PlayerModel, now: i64, state: MonitorGameState)
    requires
        player.wf(),
        state is WaitingReady || state is Playing,
    ensures
        player.is_aborted ==> player.overlay(now, state) is Aborted,
        !player.is_aborted && player.is_paused ==> player.overlay(now, state) is Paused,
        !player.is_aborted && player.is_resuming ==> {
            let waited = now - player.resume_buffer_start->0;
            &&& player.overlay(now, state) matches Overlay::Resuming { elapsed }
            &&& 0 <= waited <= 1_500_000_000 ==> elapsed == waited
            &&& waited < 0 ==> elapsed == 0
            &&& waited > 1_500_000_000 ==> elapsed == 1_500_000_000
        },
        !player.is_aborted && !player.is_paused && !player.is_resuming ==> player.overlay(now, state)
            is Nothing,
{
}

/// The colour state: a bad or a missed note makes it white for good, a good one ends perfection, and
/// nothing else changes it.
pub proof fn law_colour_follows_counts(state: u8, counts: Seq<u32>)
    requires
        state <= 2,
        counts.len() == 4,
    ensures
        counts[2] > 0 || counts[3] > 0 ==> colour_after(state, counts) == 2,
        counts[2] == 0 && counts[3] == 0 && counts[1] > 0 && state == 0 ==> colour_after(
            state,
            counts,
        ) == 1,
        counts[2] == 0 && counts[3] == 0 && (counts[1] == 0 || state > 0) ==> colour_after(
            state,
            counts,
        ) == state,
{
}

/// Going back to the beginning of a chart, starting a new round, leaving, and being let go each
/// touch exactly these fields.
pub proof fn law_what_a_player_forgets(player: PlayerModel)
    ensures
        player.rewound() == (PlayerModel {
            local_time: 0,
            total_paused_duration: 0,
            is_paused: false,
            is_resuming: false,
            pause_start_time: None,
            resume_buffer_start: None,
            ..player
        }),
        player.reset().judges.len() == 0,
        player.reset().touches.len() == 0,
        player.reset() == (PlayerModel {
            has_started: false,
            is_aborted: false,
            fc_ap_state: 0,
            judges: player.reset().judges,
            touches: player.reset().touches,
            ..player.rewound()
        }),
        player.aborted() == (PlayerModel {
            is_aborted: true,
            is_paused: true,
            is_resuming: false,
            resume_buffer_start: None,
            ..player
        }),
        player.released() == (PlayerModel { is_paused: false, is_resuming: false, ..player }),
{
}

/// A new round makes up for everything that happened to a player in the old one: the clock, leaving,
/// and being let go leave no trace of their own.
pub proof fn law_a_new_round_starts_afresh(player: PlayerModel, delta: i64, now: i64)
    ensures
        player.aborted().reset() == player.reset(),
        player.released().reset() == player.reset(),
        player.ticked(delta, now).reset() == player.reset(),
        player.reset().reset() == player.reset(),
        player.rewound().rewound() == player.rewound(),
        player.released().released() == player.released(),
        player.aborted().aborted() == player.aborted(),
{
}

} // verus!
