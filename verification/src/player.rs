//! One player of the room: the data that the player's game sends, and the player's own clock.
use crate::chart::{has_note, holds, is_expected_end, note_count, Chart, JudgeStatus, Note};
use crate::judge::{
    action_of, commit_count, due_count, judged, names_note, JudgeAction, JudgeEvent,
};
use crate::pause::overdue;
use crate::state::MonitorGameState;
use crate::time::{
    add_time, exceeds, saturate, sub_time, END_WINDOW, JUDGE_BUFFER, RESUME_BUFFER_TIME,
};
use crate::touch::{
    apply_points, draw_points, drawn, fingers_only, with_points, Position, TouchFrame,
    TouchFrameModel, TouchPoint,
};
use std::collections::{HashMap, VecDeque};
use vstd::prelude::*;

verus! {

/// A user of the room. Monitors watch and do not play.
#[derive(Debug)]
pub struct UserInfo {
    pub id: i32,
    pub name: String,
    pub monitor: bool,
}

/// What has arrived from one player's game and has not been taken over yet.
#[derive(Debug)]
pub struct LivePlayer {
    pub touch_frames: VecDeque<TouchFrame>,
    pub judge_events: VecDeque<JudgeEvent>,
}

/// One player, with the state of the player's own playback.
#[derive(Debug)]
pub struct PlayerView {
    pub id: i32,
    pub name: String,
    pub chart: Chart,
    /// The fingers to draw.
    pub touch_points: Vec<TouchPoint>,
    /// Touch frames that playback has not reached.
    pub touches: VecDeque<TouchFrame>,
    /// Judge events that playback has not reached.
    pub judges: VecDeque<JudgeEvent>,
    /// Where the fingers were in the last touch frame that playback has passed.
    pub current_touches: HashMap<i8, Position>,
    /// The time of that frame.
    pub current_time: i64,
    /// The time of the last touch frame received.
    pub latest_time: Option<i64>,
    /// Whether the first judge event has arrived.
    pub has_started: bool,
    /// The player's own playback time.
    pub local_time: i64,
    /// Whether playback is paused for want of judges.
    pub is_paused: bool,
    /// How long playback has been paused in all.
    pub total_paused_duration: i64,
    /// When the current pause began.
    pub pause_start_time: Option<i64>,
    /// The time of the last judge event that playback has reached.
    pub last_judge_time: i64,
    /// When the resume buffer began.
    pub resume_buffer_start: Option<i64>,
    /// Whether the player is in the resume buffer.
    pub is_resuming: bool,
    /// How many notes have been settled.
    pub judged_notes_count: u32,
    /// How many notes are being held.
    pub active_hold_notes: u32,
    /// The time of the last judge event that was taken over.
    pub last_processed_judge_time: i64,
    /// Whether any judge has ever arrived.
    pub has_received_judges: bool,
    /// When the chart is over.
    pub expected_end_time: i64,
    /// Whether the player has left the game.
    pub is_aborted: bool,
    /// 0: all perfect; 1: full combo with a good; 2: neither.
    pub fc_ap_state: u8,
}

/// The state of a player.
#[verifier::ext_equal]
pub struct PlayerModel {
    pub id: i32,
    pub name: Seq<char>,
    pub chart: Seq<Seq<Note>>,
    pub touch_points: Seq<TouchPoint>,
    pub touches: Seq<TouchFrameModel>,
    pub judges: Seq<JudgeEvent>,
    pub current_touches: Map<i8, Position>,
    pub current_time: i64,
    pub latest_time: Option<i64>,
    pub has_started: bool,
    pub local_time: i64,
    pub is_paused: bool,
    pub total_paused_duration: i64,
    pub pause_start_time: Option<i64>,
    pub last_judge_time: i64,
    pub resume_buffer_start: Option<i64>,
    pub is_resuming: bool,
    pub judged_notes_count: u32,
    pub active_hold_notes: u32,
    pub last_processed_judge_time: i64,
    pub has_received_judges: bool,
    pub expected_end_time: i64,
    pub is_aborted: bool,
    pub fc_ap_state: u8,
}

/// The contents of a sequence of touch frames.
pub open spec fn frames(s: Seq<TouchFrame>) -> Seq<TouchFrameModel> {
    Seq::new(s.len(), |i: int| s[i]@)
}

impl View for PlayerView {
    type V = PlayerModel;

    open spec fn view(&self) -> PlayerModel {
        PlayerModel {
            id: self.id,
            name: self.name@,
            chart: self.chart@,
            touch_points: self.touch_points@,
            touches: frames(self.touches@),
            judges: self.judges@,
            current_touches: self.current_touches@,
            current_time: self.current_time,
            latest_time: self.latest_time,
            has_started: self.has_started,
            local_time: self.local_time,
            is_paused: self.is_paused,
            total_paused_duration: self.total_paused_duration,
            pause_start_time: self.pause_start_time,
            last_judge_time: self.last_judge_time,
            resume_buffer_start: self.resume_buffer_start,
            is_resuming: self.is_resuming,
            judged_notes_count: self.judged_notes_count,
            active_hold_notes: self.active_hold_notes,
            last_processed_judge_time: self.last_processed_judge_time,
            has_received_judges: self.has_received_judges,
            expected_end_time: self.expected_end_time,
            is_aborted: self.is_aborted,
            fc_ap_state: self.fc_ap_state,
        }
    }
}

/// The colour of a player's judge lines.
#[derive(Clone, Copy, PartialEq, Eq, Debug, Structural)]
pub enum LineColor {
    Perfect,
    Good,
    White,
}

/// What is drawn over a player's picture.
#[derive(Clone, Copy, PartialEq, Eq, Debug, Structural)]
pub enum Overlay {
    Nothing,
    Aborted,
    Paused,
    /// The resume buffer is running; `elapsed` of it is over.
    Resuming { elapsed: i64 },
    /// The game is over for everybody.
    Finished,
}

impl PlayerModel {
    /// What holds of every player at any time: nobody is paused and resuming at once, a pause for
    /// want of judges and a running resume buffer each have a start, the colour state is one of
    /// three, and touches name fingers.
    pub open spec fn wf(self) -> bool {
        &&& !(self.is_paused && self.is_resuming)
        &&& self.is_paused && !self.is_aborted ==> self.pause_start_time is Some
        &&& self.is_resuming ==> self.resume_buffer_start is Some
        &&& self.fc_ap_state <= 2
        &&& fingers_only(self.current_touches)
    }

    /// Whether nothing says what became of an overdue note. Either the next judge in the queue is
    /// for a later note, or the queue is empty and no judge has been taken over for longer than
    /// the buffer.
    pub open spec fn lacks_judge(self, note: Note) -> bool {
        if self.judges.len() > 0 {
            self.judges[0].time > note.time + JUDGE_BUFFER
        } else {
            &&& self.has_received_judges
            &&& self.last_processed_judge_time > 0
            &&& self.local_time > self.last_processed_judge_time + JUDGE_BUFFER
        }
    }

    /// Whether playback has to wait: some overdue note lacks its judge, and the chart is not
    /// about to end.
    pub open spec fn should_pause(self) -> bool {
        &&& self.local_time < self.expected_end_time - END_WINDOW
        &&& exists|i: int, j: int|
            has_note(self.chart, i, j) && overdue(#[trigger] self.chart[i][j], self.local_time)
                && self.lacks_judge(self.chart[i][j])
    }

    /// A player who enters a pause at `now`.
    pub open spec fn paused(self, now: i64) -> PlayerModel {
        PlayerModel {
            is_paused: true,
            pause_start_time: Some(now),
            resume_buffer_start: None,
            is_resuming: false,
            ..self
        }
    }

    /// A player whose pause ends at `now`, and whose resume buffer begins.
    pub open spec fn resuming(self, now: i64) -> PlayerModel {
        PlayerModel {
            is_paused: false,
            is_resuming: true,
            resume_buffer_start: Some(now),
            total_paused_duration: match self.pause_start_time {
                Some(start) => saturate(self.total_paused_duration + saturate(now - start)),
                None => self.total_paused_duration,
            },
            pause_start_time: None,
            ..self
        }
    }

    /// The player after the decision to pause, to start the resume buffer, or neither.
    pub open spec fn decided(self, now: i64) -> PlayerModel {
        if self.should_pause() && !self.is_paused && !self.is_resuming {
            self.paused(now)
        } else if !self.should_pause() && self.is_paused {
            self.resuming(now)
        } else {
            self
        }
    }

    /// Whether the resume buffer is over at `now`.
    pub open spec fn buffer_over(self, now: i64) -> bool {
        self.is_resuming && self.resume_buffer_start is Some && now
            >= self.resume_buffer_start->0 + RESUME_BUFFER_TIME
    }

    /// The player with a finished resume buffer closed.
    pub open spec fn settled(self, now: i64) -> PlayerModel {
        if self.buffer_over(now) {
            PlayerModel { is_resuming: false, resume_buffer_start: None, ..self }
        } else {
            self
        }
    }

    /// The player with the clock moved on, unless it is frozen.
    pub open spec fn advanced(self, delta: i64) -> PlayerModel {
        if self.is_paused || self.is_resuming {
            self
        } else {
            PlayerModel { local_time: saturate(self.local_time + delta), ..self }
        }
    }

    /// The player after the global clock has moved on by `delta` to `now`.
    pub open spec fn ticked(self, delta: i64, now: i64) -> PlayerModel {
        if !self.has_started || self.is_aborted {
            self
        } else {
            self.decided(now).settled(now).advanced(delta)
        }
    }

    /// The player after taking over new data, which an aborted player ignores.
    pub open spec fn received(
        self,
        touch_frames: Seq<TouchFrameModel>,
        judge_events: Seq<JudgeEvent>,
    ) -> PlayerModel {
        if self.is_aborted {
            self
        } else {
            let touches = self.touches + touch_frames;
            let judges = self.judges + judge_events;
            PlayerModel {
                touches,
                judges,
                latest_time: if touches.len() > 0 {
                    Some(touches.last().time)
                } else {
                    self.latest_time
                },
                has_received_judges: self.has_received_judges || judges.len() > 0,
                has_started: self.has_started || (self.judges.len() == 0 && judges.len() > 0),
                ..self
            }
        }
    }

    /// The player with the fingers where they are at `t`: the frames before `t` are taken over,
    /// and the fingers are drawn on their way to the first frame that is left.
    pub open spec fn touched(self, t: i64) -> PlayerModel {
        let passed = passed_count(self.touches, t);
        if passed == 0 {
            self
        } else {
            let current = with_frames(self.current_touches, self.touches.take(passed as int));
            let since = self.touches[passed - 1].time;
            let rest = self.touches.skip(passed as int);
            PlayerModel {
                touches: rest,
                current_touches: current,
                current_time: since,
                touch_points: if rest.len() == 0 {
                    Seq::empty()
                } else {
                    drawn(
                        current,
                        rest[0].points,
                        saturate(t - since),
                        saturate(rest[0].time - since),
                    )
                },
                ..self
            }
        }
    }

    /// The judge events that are due at `t`.
    pub open spec fn due(self, t: i64) -> Seq<JudgeEvent> {
        self.judges.take(due_count(self.judges, t) as int)
    }

    /// Whether the judge events due at `t` can be taken over: each names a note of the chart, and
    /// the 32-bit counters can count.
    pub open spec fn judges_applicable(self, t: i64) -> bool {
        &&& forall|i: int|
            0 <= i < self.due(t).len() ==> names_note(self.chart, #[trigger] self.due(t)[i])
        &&& self.judged_notes_count + commit_count(self.due(t)) <= u32::MAX
        &&& note_count(self.chart) <= u32::MAX
    }

    /// The player with the judge events that are due at `t` taken over.
    pub open spec fn judged(self, t: i64) -> PlayerModel {
        let due = self.due(t);
        let chart = judged(self.chart, due, t);
        PlayerModel {
            chart,
            judges: self.judges.skip(due.len() as int),
            judged_notes_count: (self.judged_notes_count + commit_count(due)) as u32,
            active_hold_notes: holds(chart) as u32,
            last_judge_time: if due.len() > 0 {
                due.last().time
            } else {
                self.last_judge_time
            },
            last_processed_judge_time: if due.len() > 0 {
                due.last().time
            } else {
                self.last_processed_judge_time
            },
            ..self
        }
    }

    /// What is left to do for the judge events that are due at `t`.
    pub open spec fn due_actions(self, t: i64) -> Seq<JudgeAction> {
        Seq::new(self.due(t).len(), |i: int| action_of(self.due(t)[i]))
    }

    /// The player back at the beginning of the chart, with nothing paused.
    pub open spec fn rewound(self) -> PlayerModel {
        PlayerModel {
            local_time: 0,
            is_paused: false,
            is_resuming: false,
            total_paused_duration: 0,
            pause_start_time: None,
            resume_buffer_start: None,
            ..self
        }
    }

    /// The player at the start of a new round.
    pub open spec fn reset(self) -> PlayerModel {
        PlayerModel {
            has_started: false,
            is_aborted: false,
            judges: Seq::empty(),
            touches: Seq::empty(),
            fc_ap_state: 0,
            ..self.rewound()
        }
    }

    /// The player after leaving the game.
    pub open spec fn aborted(self) -> PlayerModel {
        PlayerModel {
            is_aborted: true,
            is_paused: true,
            is_resuming: false,
            resume_buffer_start: None,
            ..self
        }
    }

    /// The player with no pause and no resume buffer shown.
    pub open spec fn released(self) -> PlayerModel {
        PlayerModel { is_paused: false, is_resuming: false, ..self }
    }

    /// What is drawn over the player's picture.
    pub open spec fn overlay(self, now: i64, state: MonitorGameState) -> Overlay {
        if state is Idle {
            Overlay::Nothing
        } else if state is Ended {
            Overlay::Finished
        } else if self.is_aborted {
            Overlay::Aborted
        } else if self.is_paused {
            Overlay::Paused
        } else if self.is_resuming && self.resume_buffer_start is Some {
            let elapsed = now - self.resume_buffer_start->0;
            Overlay::Resuming {
                elapsed: if elapsed < 0 {
                    0
                } else if elapsed > RESUME_BUFFER_TIME {
                    RESUME_BUFFER_TIME
                } else {
                    elapsed as i64
                },
            }
        } else {
            Overlay::Nothing
        }
    }
}

/// The colour state after judges have been counted: it moves from perfect to good with a good, and
/// to white with a bad or a miss, and never back.
pub open spec fn colour_after(state: u8, counts: Seq<u32>) -> u8 {
    if state <= 1 && (counts[2] > 0 || counts[3] > 0) {
        2
    } else if state == 0 && counts[1] > 0 {
        1
    } else {
        state
    }
}

/// How many touch frames at the front lie before `t`.
pub open spec fn passed_count(touches: Seq<TouchFrameModel>, t: i64) -> nat
    decreases touches.len(),
{
    if touches.len() == 0 || touches[0].time >= t {
        0
    } else {
        1 + passed_count(touches.skip(1), t)
    }
}

/// Where the fingers are once the frames have been taken over, in order.
pub open spec fn with_frames(current: Map<i8, Position>, passed: Seq<TouchFrameModel>) -> Map<
    i8,
    Position,
>
    decreases passed.len(),
{
    if passed.len() == 0 {
        current
    } else {
        with_points(with_frames(current, passed.drop_last()), passed.last().points)
    }
}

/// The frames that lie before `t` are those at the front up to the first that does not.
pub proof fn lemma_passed_count(touches: Seq<TouchFrameModel>, t: i64)
    ensures
        passed_count(touches, t) <= touches.len(),
        forall|i: int| 0 <= i < passed_count(touches, t) ==> (#[trigger] touches[i]).time < t,
        passed_count(touches, t) < touches.len() ==> touches[passed_count(
            touches,
            t,
        ) as int].time >= t,
    decreases touches.len(),
{
    if touches.len() > 0 && touches[0].time < t {
        let rest = touches.skip(1);
        lemma_passed_count(rest, t);
        assert forall|i: int| 0 <= i < passed_count(touches, t) implies (#[trigger] touches[i]).time
            < t by {
            if i > 0 {
                assert(rest[i - 1] == touches[i]);
            }
        }
    }
}

/// Taking over frames names fingers only.
pub proof fn lemma_with_frames_fingers(current: Map<i8, Position>, passed: Seq<TouchFrameModel>)
    requires
        fingers_only(current),
    ensures
        fingers_only(with_frames(current, passed)),
    decreases passed.len(),
{
    if passed.len() > 0 {
        lemma_with_frames_fingers(current, passed.drop_last());
        crate::touch::lemma_with_points_fingers(
            with_frames(current, passed.drop_last()),
            passed.last().points,
        );
    }
}

impl PlayerView {
    /// A player who is about to play `chart`.
    pub fn new(info: UserInfo, chart: Chart) -> (r: Self)
        ensures
            is_expected_end(chart@, r.expected_end_time as int),
            r@ == (PlayerModel {
                id: info.id,
                name: info.name@,
                chart: chart@,
                touch_points: Seq::empty(),
                touches: Seq::empty(),
                judges: Seq::empty(),
                current_touches: Map::empty(),
                current_time: 0,
                latest_time: None,
                has_started: false,
                local_time: 0,
                is_paused: false,
                total_paused_duration: 0,
                pause_start_time: None,
                last_judge_time: 0,
                resume_buffer_start: None,
                is_resuming: false,
                judged_notes_count: 0,
                active_hold_notes: 0,
                last_processed_judge_time: 0,
                has_received_judges: false,
                expected_end_time: r.expected_end_time,
                is_aborted: false,
                fc_ap_state: 0,
            }),
            r@.wf(),
    {
        let expected_end_time: i64 = chart.expected_end_time();
        PlayerView {
            id: info.id,
            name: info.name,
            chart,
            touch_points: Vec::new(),
            touches: VecDeque::new(),
            judges: VecDeque::new(),
            current_touches: HashMap::new(),
            current_time: 0,
            latest_time: None,
            has_started: false,
            local_time: 0,
            is_paused: false,
            total_paused_duration: 0,
            pause_start_time: None,
            last_judge_time: 0,
            resume_buffer_start: None,
            is_resuming: false,
            judged_notes_count: 0,
            active_hold_notes: 0,
            last_processed_judge_time: 0,
            has_received_judges: false,
            expected_end_time,
            is_aborted: false,
            fc_ap_state: 0,
        }
    }

    /// Takes over what has arrived from the player's game, and leaves nothing of it behind. Data
    /// of an aborted player stays where it is.
    pub fn update(&mut self, live: &mut LivePlayer)
        ensures
            final(self)@ == old(self)@.received(
                frames(old(live).touch_frames@),
                old(live).judge_events@,
            ),
            old(self).is_aborted ==> *final(live) == *old(live),
            !old(self).is_aborted ==> final(live).touch_frames@.len() == 0
                && final(live).judge_events@.len() == 0,
            old(self)@.wf() ==> final(self)@.wf(),
    {
        if self.is_aborted {
            return;
        }
        self.touches.append(&mut live.touch_frames);
        if self.touches.len() > 0 {
            self.latest_time = Some(self.touches[self.touches.len() - 1].time);
        }
        let had_judges = self.judges.len() > 0;
        self.judges.append(&mut live.judge_events);
        if self.judges.len() > 0 {
            self.has_received_judges = true;
        }
        if !had_judges && self.judges.len() > 0 {
            self.has_started = true;
        }
        assert(self@ =~= old(self)@.received(
            frames(old(live).touch_frames@),
            old(live).judge_events@,
        ));
    }

    /// Counts the notes that are being held.
    pub fn update_active_hold_notes(&mut self)
        requires
            note_count(old(self).chart@) <= u32::MAX,
        ensures
            final(self)@ == (PlayerModel {
                active_hold_notes: holds(old(self)@.chart) as u32,
                ..old(self)@
            }),
            final(self).active_hold_notes == holds(old(self)@.chart),
    {
        self.active_hold_notes = self.chart.count_holds();
    }

    /// Whether playback has to wait for judges.
    pub fn should_pause(&self) -> (r: bool)
        ensures
            r == self@.should_pause(),
    {
        if self.local_time as i128 >= self.expected_end_time as i128 - END_WINDOW as i128 {
            return false;
        }
        let missing: Option<i64> = self.chart.earliest_overdue(self.local_time);
        proof {
            if self@.should_pause() {
                let (i, j) = choose|i: int, j: int|
                    has_note(self@.chart, i, j) && overdue(
                        #[trigger] self@.chart[i][j],
                        self.local_time,
                    ) && self@.lacks_judge(self@.chart[i][j]);
                assert(has_note(self.chart@, i, j) && overdue(
                    self.chart@[i][j],
                    self.local_time,
                ));
                assert(missing is Some && missing->0 <= self.chart@[i][j].time);
            }
        }
        match missing {
            None => false,
            Some(missing_time) => {
                let ghost (a, b) = choose|i: int, j: int|
                    has_note(self.chart@, i, j) && overdue(
                        #[trigger] self.chart@[i][j],
                        self.local_time,
                    ) && self.chart@[i][j].time == missing_time;
                if self.judges.len() > 0 {
                    let late = exceeds(self.judges[0].time, missing_time, JUDGE_BUFFER);
                    proof {
                        if late {
                            assert(self@.lacks_judge(self.chart@[a][b]));
                        }
                    }
                    late
                } else if self.has_received_judges && self.last_processed_judge_time > 0 {
                    let late = exceeds(
                        self.local_time,
                        self.last_processed_judge_time,
                        JUDGE_BUFFER,
                    );
                    proof {
                        if late {
                            assert(self@.lacks_judge(self.chart@[a][b]));
                        }
                    }
                    late
                } else {
                    false
                }
            },
        }
    }

    /// Moves the player's clock on, and pauses or resumes it.
    pub fn update_time(&mut self, global_delta: i64, global_now: i64)
        ensures
            final(self)@ == old(self)@.ticked(global_delta, global_now),
            old(self)@.wf() ==> final(self)@.wf(),
    {
        if !self.has_started || self.is_aborted {
            return;
        }
        let should_pause = self.should_pause();
        if should_pause && !self.is_paused && !self.is_resuming {
            self.is_paused = true;
            self.pause_start_time = Some(global_now);
            self.resume_buffer_start = None;
            self.is_resuming = false;
        } else if !should_pause && self.is_paused {
            self.is_paused = false;
            self.is_resuming = true;
            self.resume_buffer_start = Some(global_now);
            if let Some(start) = self.pause_start_time {
                self.total_paused_duration =
                    add_time(self.total_paused_duration, sub_time(global_now, start));
                self.pause_start_time = None;
            }
        }
        assert(self@ =~= old(self)@.decided(global_now));
        if self.is_resuming {
            if let Some(buffer_start) = self.resume_buffer_start {
                if global_now as i128 >= buffer_start as i128 + RESUME_BUFFER_TIME as i128 {
                    self.is_resuming = false;
                    self.resume_buffer_start = None;
                }
            }
        }
        assert(self@ =~= old(self)@.decided(global_now).settled(global_now));
        if !self.is_paused && !self.is_resuming {
            self.local_time = add_time(self.local_time, global_delta);
        }
    }

    /// Puts the fingers where they are at `t`.
    pub fn advance_touches(&mut self, t: i64)
        ensures
            final(self)@ == old(self)@.touched(t),
            old(self)@.wf() ==> final(self)@.wf(),
    {
        let ghost all = self@.touches;
        let ghost mut passed: int = 0;
        let mut updated = false;
        proof {
            lemma_passed_count(all, t);
            assert(all.skip(0) =~= all);
            assert(all.take(0) =~= Seq::empty());
        }
        while self.touches.len() > 0 && self.touches[0].time < t
            invariant
                all == old(self)@.touches,
                0 <= passed <= all.len(),
                self@ == (PlayerModel {
                    touches: all.skip(passed),
                    current_touches: with_frames(old(self)@.current_touches, all.take(passed)),
                    current_time: if passed > 0 {
                        all[passed - 1].time
                    } else {
                        old(self)@.current_time
                    },
                    ..old(self)@
                }),
                passed_count(all, t) == passed + passed_count(all.skip(passed), t),
                updated == (passed > 0),
            decreases self.touches@.len(),
        {
            let ghost rest = self@.touches;
            if let Some(frame) = self.touches.pop_front() {
                apply_points(&mut self.current_touches, &frame.points);
                self.current_time = frame.time;
                updated = true;
                proof {
                    assert(frame@ == rest[0]);
                    assert(rest.skip(1) =~= all.skip(passed + 1));
                    assert(all.take(passed + 1).drop_last() =~= all.take(passed));
                    assert(self@.touches =~= all.skip(passed + 1));
                    passed = passed + 1;
                }
            }
        }
        proof {
            assert(passed_count(all.skip(passed), t) == 0);
            lemma_passed_count(all, t);
        }
        if updated {
            if self.touches.len() > 0 {
                let next: &TouchFrame = &self.touches[0];
                assert(next@ == self@.touches[0]);
                let elapsed: i64 = sub_time(t, self.current_time);
                let span: i64 = sub_time(next.time, self.current_time);
                self.touch_points =
                    draw_points(&self.current_touches, &next.points, elapsed, span);
            } else {
                self.touch_points = Vec::new();
            }
        }
        assert(self@ =~= old(self)@.touched(t));
        proof {
            if old(self)@.wf() {
                lemma_with_frames_fingers(old(self)@.current_touches, all.take(passed));
            }
        }
    }

    /// Whether the judge events that are due at `t` can be taken over.
    pub fn can_apply_judges(&self, t: i64) -> (r: bool)
        ensures
            r == self@.judges_applicable(t),
    {
        let mut i: usize = 0;
        let mut named = true;
        let mut commits: u64 = 0;
        let ghost all = self@.judges;
        proof {
            assert(all.skip(0) =~= all);
            crate::judge::lemma_due_count(all, t);
        }
        while i < self.judges.len() && self.judges[i].time <= t
            invariant
                all == self@.judges,
                i <= all.len(),
                due_count(all, t) == i + due_count(all.skip(i as int), t),
                named == forall|k: int| 0 <= k < i ==> names_note(self.chart@, #[trigger] all[k]),
                commits == commit_count(all.take(i as int)),
                commits <= i,
            decreases self.judges.len() - i,
        {
            let event: JudgeEvent = self.judges[i];
            let line: usize = event.line_id as usize;
            let note: usize = event.note_id as usize;
            if line >= self.chart.lines.len() || note >= self.chart.lines[line].notes.len() {
                named = false;
                assert(!names_note(self.chart@, all[i as int]));
            }
            if event.outcome().is_ok() {
                commits = commits + 1;
            }
            proof {
                assert(all.skip(i as int).skip(1) =~= all.skip(i + 1));
                assert(all.take(i + 1).drop_last() =~= all.take(i as int));
            }
            i = i + 1;
        }
        proof {
            assert(due_count(all, t) == i);
            assert(forall|k: int| 0 <= k < i ==> #[trigger] self@.due(t)[k] == all[k]);
        }
        named && commits <= (u32::MAX - self.judged_notes_count) as u64 && self.chart.is_countable()
    }

    /// Takes over the judge events that are due at `t`, and says what is left to do for each.
    pub fn apply_judges(&mut self, t: i64) -> (r: Vec<JudgeAction>)
        requires
            old(self)@.judges_applicable(t),
        ensures
            final(self)@ == old(self)@.judged(t),
            final(self)@.judged_notes_count == old(self)@.judged_notes_count + commit_count(
                old(self)@.due(t),
            ),
            final(self)@.active_hold_notes == holds(final(self)@.chart),
            r@ == old(self)@.due_actions(t),
            old(self)@.wf() ==> final(self)@.wf(),
    {
        let mut actions: Vec<JudgeAction> = Vec::new();
        let ghost all = self@.judges;
        let ghost chart = self@.chart;
        let ghost due = self@.due(t);
        let ghost mut done: int = 0;
        proof {
            assert(all.skip(0) =~= all);
            assert(due.take(0) =~= Seq::empty());
            crate::judge::lemma_due_count(all, t);
        }
        while self.judges.len() > 0 && self.judges[0].time <= t
            invariant
                all == old(self)@.judges,
                chart == old(self)@.chart,
                due == old(self)@.due(t),
                due == all.take(due_count(all, t) as int),
                due.len() == due_count(all, t),
                old(self)@.judges_applicable(t),
                0 <= done <= due.len() <= all.len(),
                due_count(all, t) == done + due_count(all.skip(done), t),
                self@ == (PlayerModel {
                    chart: judged(chart, due.take(done), t),
                    judges: all.skip(done),
                    judged_notes_count: (old(self)@.judged_notes_count + commit_count(
                        due.take(done),
                    )) as u32,
                    last_judge_time: if done > 0 {
                        due[done - 1].time
                    } else {
                        old(self)@.last_judge_time
                    },
                    last_processed_judge_time: if done > 0 {
                        due[done - 1].time
                    } else {
                        old(self)@.last_processed_judge_time
                    },
                    ..old(self)@
                }),
                actions@ =~= Seq::new(done as nat, |i: int| action_of(due[i])),
            decreases self.judges@.len(),
        {
            assert(all.skip(done)[0].time <= t);
            if let Some(event) = self.judges.pop_front() {
                proof {
                    assert(event == due[done]);
                    assert(names_note(chart, due[done]));
                    crate::judge::lemma_judged_shape(chart, due.take(done), t);
                    crate::judge::lemma_commit_count_prefix(due, done);
                    crate::judge::lemma_commit_count_prefix(due, done + 1);
                    assert(due.take(done + 1).drop_last() =~= due.take(done));
                    assert(all.skip(done).skip(1) =~= all.skip(done + 1));
                    assert(self@.judges =~= all.skip(done + 1));
                }
                self.last_judge_time = event.time;
                self.last_processed_judge_time = event.time;
                match event.outcome() {
                    Ok(verdict) => {
                        self.chart.set_status(
                            event.line_id as usize,
                            event.note_id as usize,
                            JudgeStatus::Judged,
                        );
                        self.judged_notes_count = self.judged_notes_count + 1;
                        actions.push(
                            JudgeAction::Commit {
                                verdict,
                                line_id: event.line_id,
                                note_id: event.note_id,
                            },
                        );
                    },
                    Err(perfect) => {
                        self.chart.set_status(
                            event.line_id as usize,
                            event.note_id as usize,
                            JudgeStatus::Hold { perfect, at: t },
                        );
                        actions.push(
                            JudgeAction::Hold {
                                perfect,
                                line_id: event.line_id,
                                note_id: event.note_id,
                            },
                        );
                    },
                }
                proof {
                    done = done + 1;
                }
            }
        }
        proof {
            assert(due_count(all.skip(done), t) == 0);
            assert(due.take(done) =~= due);
            crate::judge::lemma_judged_shape(chart, due, t);
            crate::chart::lemma_holds_bound(judged(chart, due, t));
            assert forall|i: int| 0 <= i < due.len() implies names_note(chart, #[trigger] due[i]) by {}
        }
        self.update_active_hold_notes();
        assert(self@ =~= old(self)@.judged(t));
        actions
    }

    /// Updates the colour state from the numbers of perfect, good, bad and missed notes.
    pub fn update_fc_ap(&mut self, counts: [u32; 4])
        ensures
            final(self)@ == (PlayerModel {
                fc_ap_state: colour_after(old(self)@.fc_ap_state, counts@),
                ..old(self)@
            }),
            old(self)@.wf() ==> final(self)@.wf(),
    {
        if self.fc_ap_state == 0 && counts[1] > 0 {
            self.fc_ap_state = 1;
        }
        if self.fc_ap_state <= 1 && (counts[2] > 0 || counts[3] > 0) {
            self.fc_ap_state = 2;
        }
    }

    /// The colour of the player's judge lines.
    pub fn judge_line_color(&self) -> (r: LineColor)
        ensures
            r == match self.fc_ap_state {
                0 => LineColor::Perfect,
                1 => LineColor::Good,
                _ => LineColor::White,
            },
    {
        match self.fc_ap_state {
            0 => LineColor::Perfect,
            1 => LineColor::Good,
            _ => LineColor::White,
        }
    }

    /// What is drawn over the player's picture.
    pub fn render(&self, global_now: i64, game_state: MonitorGameState) -> (r: Overlay)
        ensures
            r == self@.overlay(global_now, game_state),
    {
        match game_state {
            MonitorGameState::Playing | MonitorGameState::WaitingReady => {
                if self.is_aborted {
                    Overlay::Aborted
                } else {
                    self.pause_or_resume_indicator(global_now)
                }
            },
            MonitorGameState::Ended => Overlay::Finished,
            MonitorGameState::Idle => Overlay::Nothing,
        }
    }

    /// The pause or the progress of the resume buffer, whichever is on.
    fn pause_or_resume_indicator(&self, global_now: i64) -> (r: Overlay)
        requires
            !self.is_aborted,
        ensures
            r == self@.overlay(global_now, MonitorGameState::Playing),
    {
        if self.is_paused {
            return Overlay::Paused;
        }
        if self.is_resuming {
            if let Some(buffer_start) = self.resume_buffer_start {
                let elapsed: i128 = global_now as i128 - buffer_start as i128;
                if elapsed < 0 {
                    return Overlay::Resuming { elapsed: 0 };
                }
                if elapsed > RESUME_BUFFER_TIME as i128 {
                    return Overlay::Resuming { elapsed: RESUME_BUFFER_TIME };
                }
                return Overlay::Resuming { elapsed: elapsed as i64 };
            }
        }
        Overlay::Nothing
    }

    /// Goes back to the beginning of the chart, with nothing paused.
    pub fn rewind(&mut self)
        ensures
            final(self)@ == old(self)@.rewound(),
            old(self)@.wf() ==> final(self)@.wf(),
    {
        self.local_time = 0;
        self.is_paused = false;
        self.is_resuming = false;
        self.total_paused_duration = 0;
        self.pause_start_time = None;
        self.resume_buffer_start = None;
    }

    /// Gets ready for a new round.
    pub fn reset(&mut self)
        ensures
            final(self)@ == old(self)@.reset(),
            old(self)@.wf() ==> final(self)@.wf(),
    {
        self.has_started = false;
        self.rewind();
        self.is_aborted = false;
        self.judges.clear();
        self.touches.clear();
        self.fc_ap_state = 0;
        assert(self@ =~= old(self)@.reset());
    }

    /// Leaves the game.
    pub fn abort(&mut self)
        ensures
            final(self)@ == old(self)@.aborted(),
            old(self)@.wf() ==> final(self)@.wf(),
    {
        self.is_aborted = true;
        self.is_paused = true;
        self.is_resuming = false;
        self.resume_buffer_start = None;
    }

    /// Shows no pause and no resume buffer any more.
    pub fn release(&mut self)
        ensures
            final(self)@ == old(self)@.released(),
            old(self)@.wf() ==> final(self)@.wf(),
    {
        self.is_paused = false;
        self.is_resuming = false;
    }
}

} // verus!
