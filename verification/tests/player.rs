use phira_monitor::chart::{Chart, JudgeLine, JudgeStatus, Note, NoteKind};
use phira_monitor::judge::{JudgeAction, JudgeEvent, Judgement, Verdict};
use phira_monitor::player::{LineColor, LivePlayer, Overlay, PlayerView, UserInfo};
use phira_monitor::state::MonitorGameState;
use phira_monitor::time::{JUDGE_BUFFER, RESUME_BUFFER_TIME};
use phira_monitor::touch::{Position, TouchFrame, TouchInput, TouchPoint};
use std::collections::VecDeque;

const SECOND: i64 = 1_000_000_000;

fn note(time: i64) -> Note {
    Note { time, kind: NoteKind::Click, fake: false, judge: JudgeStatus::NotJudged }
}

fn chart(lines: Vec<Vec<Note>>) -> Chart {
    Chart { lines: lines.into_iter().map(|notes| JudgeLine { notes }).collect() }
}

fn player(lines: Vec<Vec<Note>>) -> PlayerView {
    PlayerView::new(UserInfo { id: 7, name: "Ann".into(), monitor: false }, chart(lines))
}

fn judge(time: i64, line_id: u32, note_id: u32, judgement: Judgement) -> JudgeEvent {
    JudgeEvent { time, line_id, note_id, judgement }
}

fn live(touch_frames: Vec<TouchFrame>, judge_events: Vec<JudgeEvent>) -> LivePlayer {
    LivePlayer { touch_frames: touch_frames.into(), judge_events: judge_events.into() }
}

fn pos(n: u32) -> Position {
    Position { x: n, y: n + 1 }
}

fn frame(time: i64, points: &[(i8, u32)]) -> TouchFrame {
    TouchFrame {
        time,
        points: points.iter().map(|&(id, n)| TouchInput { id, pos: pos(n) }).collect(),
    }
}

#[test]
fn a_chart_ends_with_its_last_real_note() {
    let hold = Note { kind: NoteKind::Hold { end_time: 9 * SECOND }, ..note(4 * SECOND) };
    let fake = Note { fake: true, ..note(20 * SECOND) };
    assert_eq!(player(vec![vec![note(SECOND), hold], vec![fake, note(5 * SECOND)]]).expected_end_time, 9 * SECOND);
    assert_eq!(player(vec![]).expected_end_time, 0);
    assert_eq!(player(vec![vec![note(-3)]]).expected_end_time, 0);
}

#[test]
fn a_new_player_is_at_rest() {
    let p = player(vec![]);
    assert_eq!((p.id, p.name.as_str()), (7, "Ann"));
    assert!(!p.has_started && !p.is_paused && !p.is_resuming && !p.is_aborted);
    assert_eq!((p.local_time, p.judged_notes_count, p.fc_ap_state), (0, 0, 0));
}

#[test]
fn data_is_taken_over_and_the_first_judge_starts() {
    let mut p = player(vec![vec![note(0)]]);
    let mut first = live(vec![frame(5, &[]), frame(8, &[])], vec![]);
    p.update(&mut first);
    assert!(first.touch_frames.is_empty());
    assert_eq!(p.latest_time, Some(8));
    assert!(!p.has_started && !p.has_received_judges);
    p.update(&mut live(vec![], vec![judge(0, 0, 0, Judgement::Good)]));
    assert!(p.has_started && p.has_received_judges);
    assert_eq!(p.judges.len(), 1);
    assert_eq!(p.latest_time, Some(8));
}

#[test]
fn an_aborted_player_ignores_data_and_clock() {
    let mut p = player(vec![vec![note(0)]]);
    p.has_started = true;
    p.abort();
    assert!(p.is_aborted && p.is_paused && !p.is_resuming);
    let mut data = live(vec![frame(5, &[])], vec![judge(0, 0, 0, Judgement::Good)]);
    p.update(&mut data);
    assert_eq!(data.judge_events.len(), 1);
    assert_eq!(data.touch_frames.len(), 1);
    assert!(p.judges.is_empty());
    p.update_time(SECOND, SECOND);
    assert_eq!(p.local_time, 0);
}

#[test]
fn playback_waits_for_a_missing_judge() {
    let mut p = player(vec![vec![note(SECOND), note(100 * SECOND)]]);
    p.local_time = SECOND + JUDGE_BUFFER;
    p.judges = VecDeque::from(vec![judge(50 * SECOND, 0, 1, Judgement::Perfect)]);
    assert!(!p.should_pause());
    p.local_time += 1;
    assert!(p.should_pause());
    // A judge that can still be for the missing note is waited for without a pause.
    p.judges = VecDeque::from(vec![judge(SECOND + JUDGE_BUFFER, 0, 0, Judgement::Perfect)]);
    assert!(!p.should_pause());
    p.judges = VecDeque::from(vec![judge(SECOND + JUDGE_BUFFER + 1, 0, 1, Judgement::Perfect)]);
    assert!(p.should_pause());
}

#[test]
fn an_empty_queue_pauses_only_after_judges_have_come() {
    let mut p = player(vec![vec![note(SECOND), note(100 * SECOND)]]);
    p.local_time = 3 * SECOND;
    assert!(!p.should_pause());
    p.has_received_judges = true;
    assert!(!p.should_pause());
    p.last_processed_judge_time = 3 * SECOND - JUDGE_BUFFER;
    assert!(!p.should_pause());
    p.last_processed_judge_time -= 1;
    assert!(p.should_pause());
}

#[test]
fn gaps_holds_and_fakes_never_pause() {
    let held = Note {
        judge: JudgeStatus::Hold { perfect: true, at: SECOND },
        kind: NoteKind::Hold { end_time: 60 * SECOND },
        ..note(SECOND)
    };
    let fake = Note { fake: true, ..note(2 * SECOND) };
    let judged = Note { judge: JudgeStatus::Judged, ..note(3 * SECOND) };
    let mut p = player(vec![vec![held, fake], vec![judged, note(100 * SECOND)]]);
    p.local_time = 50 * SECOND;
    p.has_received_judges = true;
    p.last_processed_judge_time = SECOND;
    assert!(!p.should_pause());
}

#[test]
fn nobody_is_paused_near_the_end() {
    let mut p = player(vec![vec![note(SECOND), note(10 * SECOND)]]);
    p.has_received_judges = true;
    p.last_processed_judge_time = 1;
    p.local_time = 8 * SECOND - 1;
    assert!(p.should_pause());
    p.local_time = 8 * SECOND;
    assert!(!p.should_pause());
}

#[test]
fn pause_resume_buffer_and_clock() {
    let mut p = player(vec![vec![note(SECOND), note(100 * SECOND)]]);
    p.update_time(SECOND, SECOND);
    assert_eq!(p.local_time, 0);
    p.has_started = true;
    p.has_received_judges = true;
    p.last_processed_judge_time = 1;
    p.update_time(2 * SECOND, 2 * SECOND);
    assert_eq!(p.local_time, 2 * SECOND);
    // The judge of the first note is missing.
    p.update_time(SECOND, 3 * SECOND);
    assert!(p.is_paused);
    assert_eq!(p.local_time, 2 * SECOND);
    assert_eq!(p.pause_start_time, Some(3 * SECOND));
    assert_eq!(p.render(3 * SECOND, MonitorGameState::Playing), Overlay::Paused);
    p.update_time(SECOND, 4 * SECOND);
    assert!(p.is_paused);
    // It arrives.
    p.judges.push_back(judge(SECOND, 0, 0, Judgement::Perfect));
    p.update_time(SECOND, 5 * SECOND);
    assert!(!p.is_paused && p.is_resuming);
    assert_eq!(p.total_paused_duration, 2 * SECOND);
    assert_eq!(p.pause_start_time, None);
    assert_eq!(p.local_time, 2 * SECOND);
    assert_eq!(
        p.render(6 * SECOND, MonitorGameState::Playing),
        Overlay::Resuming { elapsed: SECOND }
    );
    p.update_time(SECOND, 5 * SECOND + RESUME_BUFFER_TIME - 1);
    assert!(p.is_resuming);
    assert_eq!(p.local_time, 2 * SECOND);
    p.update_time(3, 5 * SECOND + RESUME_BUFFER_TIME);
    assert!(!p.is_resuming);
    assert_eq!(p.resume_buffer_start, None);
    assert_eq!(p.local_time, 2 * SECOND + 3);
}

#[test]
fn overlays_follow_state_and_player() {
    let mut p = player(vec![]);
    assert_eq!(p.render(0, MonitorGameState::Playing), Overlay::Nothing);
    p.is_resuming = true;
    p.resume_buffer_start = Some(10);
    assert_eq!(p.render(5, MonitorGameState::WaitingReady), Overlay::Resuming { elapsed: 0 });
    assert_eq!(
        p.render(i64::MAX, MonitorGameState::Playing),
        Overlay::Resuming { elapsed: RESUME_BUFFER_TIME }
    );
    p.abort();
    assert_eq!(p.render(0, MonitorGameState::WaitingReady), Overlay::Aborted);
    assert_eq!(p.render(0, MonitorGameState::Idle), Overlay::Nothing);
}

#[test]
fn everybody_is_finished_after_the_game() {
    let running = player(vec![]);
    let mut paused = player(vec![]);
    paused.is_paused = true;
    paused.pause_start_time = Some(0);
    let mut resuming = player(vec![]);
    resuming.is_resuming = true;
    resuming.resume_buffer_start = Some(0);
    let mut aborted = player(vec![]);
    aborted.abort();
    for p in [running, paused, resuming, aborted] {
        assert_eq!(p.render(1, MonitorGameState::Ended), Overlay::Finished);
        assert_eq!(p.render(1, MonitorGameState::Idle), Overlay::Nothing);
        assert_ne!(p.render(1, MonitorGameState::Playing), Overlay::Finished);
        assert_ne!(p.render(1, MonitorGameState::WaitingReady), Overlay::Finished);
    }
}

#[test]
fn due_judges_settle_and_hold_notes() {
    let mut p = player(vec![vec![note(1), note(2)], vec![note(3)]]);
    p.judges = VecDeque::from(vec![
        judge(1, 0, 0, Judgement::Perfect),
        judge(2, 1, 0, Judgement::HoldGood),
        judge(3, 0, 0, Judgement::Miss),
        judge(9, 0, 1, Judgement::Bad),
    ]);
    assert!(p.can_apply_judges(3));
    let actions = p.apply_judges(3);
    assert_eq!(
        actions,
        vec![
            JudgeAction::Commit { verdict: Verdict::Perfect, line_id: 0, note_id: 0 },
            JudgeAction::Hold { perfect: false, line_id: 1, note_id: 0 },
            JudgeAction::Commit { verdict: Verdict::Miss, line_id: 0, note_id: 0 },
        ]
    );
    assert_eq!(p.judges.len(), 1);
    assert_eq!(p.judged_notes_count, 2);
    assert_eq!(p.active_hold_notes, 1);
    assert_eq!((p.last_judge_time, p.last_processed_judge_time), (3, 3));
    assert_eq!(p.chart.lines[0].notes[0].judge, JudgeStatus::Judged);
    assert_eq!(p.chart.lines[0].notes[1].judge, JudgeStatus::NotJudged);
    assert_eq!(p.chart.lines[1].notes[0].judge, JudgeStatus::Hold { perfect: false, at: 3 });
    // The hold ends with a verdict of its own.
    p.judges.push_front(judge(4, 1, 0, Judgement::Good));
    assert_eq!(
        p.apply_judges(4),
        vec![JudgeAction::Commit { verdict: Verdict::Good, line_id: 1, note_id: 0 }]
    );
    assert_eq!(p.active_hold_notes, 0);
    assert!(p.apply_judges(8).is_empty());
    assert_eq!(p.last_judge_time, 4);
}

#[test]
fn judges_must_name_notes() {
    let mut p = player(vec![vec![note(1)]]);
    p.judges = VecDeque::from(vec![
        judge(1, 0, 0, Judgement::HoldPerfect),
        judge(2, 0, 1, Judgement::Perfect),
    ]);
    assert!(p.can_apply_judges(1));
    assert!(!p.can_apply_judges(2));
    p.judges[1] = judge(2, 1, 0, Judgement::Perfect);
    assert!(!p.can_apply_judges(2));
    p.judges[1] = judge(2, 0, 0, Judgement::Perfect);
    assert!(p.can_apply_judges(2));
    p.judged_notes_count = u32::MAX;
    assert!(!p.can_apply_judges(2));
    assert!(p.can_apply_judges(1));
}

#[test]
fn fingers_are_followed_between_frames() {
    let mut p = player(vec![]);
    p.touches = VecDeque::from(vec![
        frame(10, &[(0, 1), (3, 2), (5, 9)]),
        frame(20, &[(3, 4), (!5, 0)]),
        frame(40, &[(0, 6), (!0, 7), (9, 8)]),
    ]);
    p.advance_touches(10);
    assert_eq!(p.touches.len(), 3);
    assert!(p.touch_points.is_empty());
    p.advance_touches(25);
    assert_eq!(p.touches.len(), 1);
    assert_eq!(p.current_time, 20);
    assert_eq!(p.current_touches.len(), 2);
    assert_eq!(
        p.touch_points,
        vec![
            TouchPoint::Moving { from: pos(1), to: pos(6), elapsed: 5, span: 20 },
            TouchPoint::Held { at: pos(4) },
        ]
    );
    // Without a new frame nothing moves.
    p.advance_touches(30);
    assert_eq!(p.touch_points.len(), 2);
    p.advance_touches(41);
    assert!(p.touches.is_empty() && p.touch_points.is_empty());
    assert_eq!(p.current_time, 40);
}

#[test]
fn a_lifted_finger_moves_to_where_it_was_lifted() {
    let mut p = player(vec![]);
    p.touches = VecDeque::from(vec![frame(0, &[(2, 1)]), frame(10, &[(!2, 5)])]);
    p.advance_touches(10);
    assert_eq!(
        p.touch_points,
        vec![TouchPoint::Moving { from: pos(1), to: pos(5), elapsed: 10, span: 10 }]
    );
}

#[test]
fn the_line_colour_never_returns() {
    let mut p = player(vec![]);
    assert_eq!(p.judge_line_color(), LineColor::Perfect);
    p.update_fc_ap([5, 0, 0, 0]);
    assert_eq!(p.judge_line_color(), LineColor::Perfect);
    p.update_fc_ap([5, 1, 0, 0]);
    assert_eq!(p.judge_line_color(), LineColor::Good);
    p.update_fc_ap([6, 0, 0, 0]);
    assert_eq!(p.judge_line_color(), LineColor::Good);
    p.update_fc_ap([6, 1, 0, 1]);
    assert_eq!(p.judge_line_color(), LineColor::White);
    p.update_fc_ap([0, 0, 0, 0]);
    assert_eq!(p.judge_line_color(), LineColor::White);
    let mut q = player(vec![]);
    q.update_fc_ap([0, 3, 1, 0]);
    assert_eq!(q.fc_ap_state, 2);
}

#[test]
fn resets_and_rewinds() {
    let mut p = player(vec![vec![note(1)]]);
    p.has_started = true;
    p.local_time = 5;
    p.total_paused_duration = 6;
    p.fc_ap_state = 2;
    p.judges.push_back(judge(1, 0, 0, Judgement::Good));
    p.touches.push_back(frame(1, &[]));
    p.abort();
    p.release();
    assert!(p.is_aborted && !p.is_paused);
    p.rewind();
    assert_eq!((p.local_time, p.total_paused_duration), (0, 0));
    assert!(p.has_started && p.is_aborted && p.judges.len() == 1);
    p.reset();
    assert!(!p.has_started && !p.is_aborted && p.judges.is_empty() && p.touches.is_empty());
    assert_eq!(p.fc_ap_state, 0);
}
