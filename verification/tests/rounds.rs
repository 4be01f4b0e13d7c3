use phira_monitor::chart::Chart;
use phira_monitor::config::Config;
use phira_monitor::entity::{ChartEntity, LocalInfo, Timestamp};
use phira_monitor::init::{create_init_task, InitAction, InitEvent, InitResult};
use phira_monitor::judge::{JudgeEvent, Judgement};
use phira_monitor::layout::Cell;
use phira_monitor::player::{LivePlayer, Overlay, PlayerView, UserInfo};
use phira_monitor::ready::{ReadyAction, ReadyEvent, ReadyTask};
use phira_monitor::room::{playing_users, read_score, Message, RoomNews, RoomState, TimeOfDay};
use phira_monitor::roster::{find_player, players_ready, sort_players};
use phira_monitor::scene::{
    InitPoll, MainScene, ReadyPoll, ScenePoll, UpdateAction, UpdateEvent,
};
use phira_monitor::screen::{LobbyLine, Picture, Screen};
use phira_monitor::state::MonitorGameState;
use std::collections::VecDeque;

fn config() -> Config {
    Config {
        server: "server".into(),
        email: "email".into(),
        password: "password".into(),
        room_id: "room".into(),
    }
}

fn user(id: i32, name: &str) -> UserInfo {
    UserInfo { id, name: name.into(), monitor: false }
}

fn player(id: i32, name: &str) -> PlayerView {
    PlayerView::new(user(id, name), Chart { lines: vec![] })
}

fn nothing() -> LivePlayer {
    LivePlayer { touch_frames: VecDeque::new(), judge_events: VecDeque::new() }
}

fn one_judge() -> LivePlayer {
    LivePlayer {
        touch_frames: VecDeque::new(),
        judge_events: VecDeque::from(vec![JudgeEvent {
            time: 0,
            line_id: 0,
            note_id: 0,
            judgement: Judgement::Perfect,
        }]),
    }
}

fn begin() -> UpdateEvent {
    UpdateEvent::Begin { init: InitPoll::Pending, ready: ReadyPoll::Pending }
}

fn news(room_state: RoomState, messages: Vec<Message>) -> UpdateEvent {
    UpdateEvent::RoomRead {
        t: 77,
        scene: ScenePoll::Pending,
        news: Some(RoomNews { room_state, is_ready: Some(true), ping_fail_count: 0, messages }),
    }
}

fn connected() -> MainScene {
    let (mut scene, _) = MainScene::new(config(), false);
    let result = InitResult { chart: Some((5, "Song".into())), token: "token".into() };
    let action =
        scene.update(UpdateEvent::Begin { init: InitPoll::Done { result }, ready: ReadyPoll::Pending });
    assert_eq!(action, UpdateAction::ReadRoom);
    assert!(scene.client);
    scene
}

/// Runs the rest of a frame with nothing new.
fn finish(scene: &mut MainScene, mut action: UpdateAction, now: i64) {
    for _ in 0..100 {
        let event = match action {
            UpdateAction::Finish => return,
            UpdateAction::ReadRoom => news(RoomState::Playing, vec![]),
            UpdateAction::PauseMusic => UpdateEvent::MusicPaused,
            UpdateAction::Receive { .. } => UpdateEvent::Received { live: nothing() },
            UpdateAction::StartClock => UpdateEvent::ClockStarted { real_time: now, now },
            UpdateAction::EnterScene => UpdateEvent::SceneEntered { ok: true },
            UpdateAction::ReadClock => UpdateEvent::ClockRead { now },
            UpdateAction::UpdateScene => UpdateEvent::SceneUpdated,
            other => panic!("{other:?}"),
        };
        action = scene.update(event);
    }
    panic!("the frame does not end");
}

/// A monitor with two players, Ann (2) and Bob (1), who wait for their first judges.
fn waiting() -> MainScene {
    let mut scene = connected();
    let action = scene.update(news(RoomState::Playing, vec![Message::StartPlaying]));
    finish(&mut scene, action, 0);
    scene.scene_task = true;
    assert_eq!(scene.update(begin()), UpdateAction::ReadRoom);
    let action = scene.update(UpdateEvent::RoomRead {
        t: 0,
        scene: ScenePoll::Loaded { players: vec![player(1, "Bob"), player(2, "Ann")] },
        news: Some(RoomNews {
            room_state: RoomState::Playing,
            is_ready: None,
            ping_fail_count: 0,
            messages: vec![],
        }),
    });
    assert_eq!(action, UpdateAction::Receive { player: 2 });
    finish(&mut scene, action, 0);
    assert!(scene.game_scene && !scene.scene_task && scene.frame.loaded);
    scene
}

fn feed(scene: &mut MainScene, judges_for: &[i32]) -> UpdateAction {
    scene.update(begin());
    let mut action = scene.update(news(RoomState::Playing, vec![]));
    while let UpdateAction::Receive { player } = action {
        let live = if judges_for.contains(&player) { one_judge() } else { nothing() };
        action = scene.update(UpdateEvent::Received { live });
    }
    action
}

fn playing() -> MainScene {
    let mut scene = waiting();
    let action = feed(&mut scene, &[1, 2]);
    finish(&mut scene, action, 0);
    let action = scene.update(begin());
    finish(&mut scene, action, 1_000);
    assert_eq!(scene.monitor_game_state, MonitorGameState::Playing);
    scene
}

#[test]
fn a_monitor_starts_with_its_login() {
    let (scene, task) = MainScene::new(config(), false);
    assert!(!scene.client && scene.init_task && scene.players.is_empty());
    assert!(scene.touch());
    assert!(matches!(task.action(), InitAction::Login { email, password }
        if email == "email" && password == "password"));
    let (_, task) = MainScene::new(config(), true);
    assert!(matches!(task.action(), InitAction::Connect { server } if server == "server"));
    assert_eq!(task.token, Some("password".to_string()));
}

#[test]
fn getting_into_the_room() {
    let task = create_init_task(config(), None);
    let task = task.advance(InitEvent::Connected);
    assert!(matches!(task.action(), InitAction::Login { .. }));
    let task = task.advance(InitEvent::LoggedIn { token: "t".into() });
    assert!(matches!(task.action(), InitAction::Connect { .. }));
    let task = task.advance(InitEvent::Connected);
    assert!(matches!(task.action(), InitAction::Authenticate { token } if token == "t"));
    let task = task.advance(InitEvent::Authenticated);
    assert!(matches!(task.action(), InitAction::CheckRoom { room_id } if room_id == "room"));
    let task = task.advance(InitEvent::RoomChecked { in_room: false });
    assert!(matches!(task.action(), InitAction::JoinRoom { room_id } if room_id == "room"));
    let task = task.advance(InitEvent::Joined);
    assert!(matches!(task.action(), InitAction::ReadRoom));
    let task =
        task.advance(InitEvent::RoomRead { room_state: RoomState::SelectChart(Some(8)) });
    assert!(matches!(task.action(), InitAction::FetchChart { id: 8 }));
    let task = task.advance(InitEvent::ChartFetched { name: "Song".into() });
    match task.action() {
        InitAction::Finish { result } => {
            assert_eq!(result.chart, Some((8, "Song".to_string())));
            assert_eq!(result.token, "t");
        }
        _ => panic!("not done"),
    }
}

#[test]
fn a_room_that_was_joined_before_is_not_joined_again() {
    let task = create_init_task(config(), Some("t".into()))
        .advance(InitEvent::Connected)
        .advance(InitEvent::Authenticated)
        .advance(InitEvent::RoomChecked { in_room: true });
    assert!(matches!(task.action(), InitAction::ReadRoom));
    let task = task.advance(InitEvent::RoomRead { room_state: RoomState::SelectChart(None) });
    assert!(matches!(task.action(), InitAction::Finish { result } if result.chart.is_none()));
}

fn entity(updated: i64) -> ChartEntity {
    let at = |seconds| Timestamp { seconds, nanos: 0 };
    ChartEntity {
        id: 5,
        name: "Song".into(),
        file: "file".into(),
        chart_updated: at(1),
        updated: at(updated),
        created: at(1),
        uploader: 3,
    }
}

#[test]
fn stale_copies_are_replaced() {
    let at = |seconds| Some(LocalInfo { updated: Some(Timestamp { seconds, nanos: 0 }) });
    let undated = Some(LocalInfo { updated: None });
    assert!(entity(2).should_download(None));
    assert!(!entity(2).should_download(at(2)));
    assert!(entity(2).should_download(at(1)));
    assert!(entity(2).should_download(undated));
    assert!(!entity(1).should_download(undated));
    assert_eq!(entity(2).duplicate().name, "Song");
}

#[test]
fn getting_ready_downloads_a_stale_chart() {
    let task = ReadyTask::new(5, "t".into());
    assert!(matches!(task.action(), ReadyAction::Fetch { url }
        if url == "https://phira.5wyxi.com/chart/5"));
    let task = task.advance(ReadyEvent::Fetched { entity: entity(2) });
    assert!(matches!(task.action(), ReadyAction::ReadInfo { path }
        if path == "data/charts/download/5/info.yml"));
    let task = task.advance(ReadyEvent::InfoRead { local: None });
    assert!(matches!(task.action(), ReadyAction::Download { entity, token }
        if entity.id == 5 && token == "t"));
    let task = task.advance(ReadyEvent::Announced).advance(ReadyEvent::Downloaded);
    assert!(matches!(task.action(), ReadyAction::Announce));
    let task = task.advance(ReadyEvent::Announced);
    assert!(matches!(task.action(), ReadyAction::Finish));
}

#[test]
fn getting_ready_keeps_a_current_chart() {
    let task = ReadyTask::new(5, "t".into())
        .advance(ReadyEvent::Fetched { entity: entity(1) })
        .advance(ReadyEvent::InfoRead { local: Some(LocalInfo { updated: None }) });
    assert!(matches!(task.action(), ReadyAction::Announce));
}

#[test]
fn monitors_do_not_play() {
    let mut list = vec![user(1, "a"), user(2, "b"), user(3, "c")];
    list[1].monitor = true;
    let ids: Vec<i32> = playing_users(list).iter().map(|u| u.id).collect();
    assert_eq!(ids, vec![1, 3]);
    assert!(playing_users(vec![]).is_empty());
}

#[test]
fn negative_scores_wrap() {
    assert_eq!(read_score(7), 7);
    assert_eq!(read_score(-1), u32::MAX);
    assert_eq!(read_score(i32::MIN), 0x8000_0000);
}

#[test]
fn players_are_sorted_by_name_and_stay_in_order() {
    let list = vec![player(1, "b"), player(2, "全"), player(3, "a"), player(4, "b"), player(5, "B")];
    let ids: Vec<i32> = sort_players(list).iter().map(|p| p.id).collect();
    assert_eq!(ids, vec![5, 3, 1, 4, 2]);
}

#[test]
fn players_are_found_by_id() {
    let list = vec![player(4, "a"), player(2, "b"), player(4, "c")];
    assert_eq!(find_player(&list, 4), Some(0));
    assert_eq!(find_player(&list, 2), Some(1));
    assert_eq!(find_player(&list, 3), None);
}

#[test]
fn readiness_looks_past_aborted_players() {
    let mut list = vec![player(1, "a"), player(2, "b")];
    assert!(!players_ready(&vec![]));
    assert!(!players_ready(&list));
    list[0].has_started = true;
    assert!(!players_ready(&list));
    list[1].abort();
    assert!(players_ready(&list));
    list[0].abort();
    assert!(!players_ready(&list));
}

#[test]
fn without_a_connection_a_frame_does_nothing() {
    let (mut scene, _) = MainScene::new(config(), false);
    assert_eq!(scene.update(begin()), UpdateAction::ReadRoom);
    let action = scene.update(news(RoomState::WaitingForReady, vec![Message::StartPlaying]));
    assert_eq!(action, UpdateAction::Finish);
    assert_eq!(scene.monitor_game_state, MonitorGameState::Idle);
    assert_eq!(scene.render(RoomState::Playing, 0), Screen::Loading);
}

#[test]
fn a_failed_start_leaves_the_monitor_out() {
    let (mut scene, _) = MainScene::new(config(), false);
    let event = UpdateEvent::Begin { init: InitPoll::Failed, ready: ReadyPoll::Pending };
    assert_eq!(scene.update(event), UpdateAction::ReadRoom);
    assert!(!scene.client && scene.token.is_none());
}

#[test]
fn an_unexpected_answer_changes_nothing() {
    let mut scene = connected();
    assert_eq!(scene.update(UpdateEvent::SceneUpdated), UpdateAction::ReadRoom);
    assert_eq!(scene.update(UpdateEvent::ClockRead { now: 5 }), UpdateAction::ReadRoom);
    assert_eq!(scene.last_global_time, 0);
}

#[test]
fn the_room_makes_the_monitor_get_ready() {
    let mut scene = connected();
    let event = UpdateEvent::RoomRead {
        t: 0,
        scene: ScenePoll::Pending,
        news: Some(RoomNews {
            room_state: RoomState::WaitingForReady,
            is_ready: None,
            ping_fail_count: 0,
            messages: vec![],
        }),
    };
    assert_eq!(scene.update(event), UpdateAction::StartGetReady);
    let task = scene.start_get_ready();
    assert_eq!((task.id, task.token.as_str()), (5, "token"));
    assert!(scene.get_ready_task && !scene.game_scene);
    assert_eq!(scene.update(UpdateEvent::GetReadyStarted), UpdateAction::Finish);
    // The chart is there: load it.
    let event = UpdateEvent::Begin { init: InitPoll::Pending, ready: ReadyPoll::Done };
    assert_eq!(scene.update(event), UpdateAction::Launch { id: 5 });
    assert_eq!(scene.update(UpdateEvent::Launched { ok: true }), UpdateAction::ReadRoom);
    assert!(scene.scene_task && !scene.get_ready_task);
}

#[test]
fn a_chart_on_disk_must_be_selected() {
    let mut scene = connected();
    let done = |chart| InitPoll::Done { result: InitResult { chart, token: "t".into() } };
    assert!(scene.can_begin(&InitPoll::Pending, ReadyPoll::Done));
    scene.get_ready_task = true;
    assert!(scene.can_begin(&InitPoll::Pending, ReadyPoll::Done));
    assert!(!scene.can_begin(&done(None), ReadyPoll::Done));
    assert!(scene.can_begin(&done(None), ReadyPoll::Pending));
    assert!(scene.can_begin(&done(None), ReadyPoll::Failed));
    scene.selected_chart = None;
    assert!(!scene.can_begin(&InitPoll::Failed, ReadyPoll::Done));
    // A chart that was selected while the monitor was getting in counts.
    let init = done(Some((8, "Other".into())));
    assert!(scene.can_begin(&init, ReadyPoll::Done));
    let event = UpdateEvent::Begin { init, ready: ReadyPoll::Done };
    assert_eq!(scene.update(event), UpdateAction::Launch { id: 8 });
}

#[test]
fn a_chart_loaded_again_in_a_game_is_played() {
    let mut scene = playing();
    scene.update(begin());
    let mut action = scene.update(UpdateEvent::RoomRead {
        t: 0,
        scene: ScenePoll::Pending,
        news: Some(RoomNews {
            room_state: RoomState::WaitingForReady,
            is_ready: Some(false),
            ping_fail_count: 0,
            messages: vec![],
        }),
    });
    while let UpdateAction::Receive { .. } = action {
        action = scene.update(UpdateEvent::Received { live: nothing() });
    }
    assert_eq!(action, UpdateAction::StartGetReady);
    scene.start_get_ready();
    assert!(!scene.game_scene && !scene.render_started);
    assert_eq!(scene.update(UpdateEvent::GetReadyStarted), UpdateAction::Finish);
    let event = UpdateEvent::Begin { init: InitPoll::Pending, ready: ReadyPoll::Done };
    assert_eq!(scene.update(event), UpdateAction::Launch { id: 5 });
    scene.update(UpdateEvent::Launched { ok: true });
    let action = scene.update(UpdateEvent::RoomRead {
        t: 0,
        scene: ScenePoll::Loaded { players: vec![player(3, "Cid")] },
        news: Some(RoomNews {
            room_state: RoomState::Playing,
            is_ready: Some(true),
            ping_fail_count: 0,
            messages: vec![],
        }),
    });
    assert_eq!(action, UpdateAction::Receive { player: 3 });
    finish(&mut scene, action, 0);
    assert_eq!(scene.monitor_game_state, MonitorGameState::Playing);
    assert_eq!(feed(&mut scene, &[3]), UpdateAction::Finish);
    let action = feed(&mut scene, &[]);
    assert_eq!(action, UpdateAction::StartClock);
    finish(&mut scene, action, 9_000);
    assert!(scene.render_started && scene.all_players_ready);
    assert_eq!(scene.playback_start_time, Some(9_000));
    assert_eq!(scene.monitor_game_state, MonitorGameState::Playing);
}

#[test]
fn a_failed_launch_ends_the_frame() {
    let mut scene = connected();
    scene.get_ready_task = true;
    let event = UpdateEvent::Begin { init: InitPoll::Pending, ready: ReadyPoll::Done };
    assert_eq!(scene.update(event), UpdateAction::Launch { id: 5 });
    assert_eq!(scene.update(UpdateEvent::Launched { ok: false }), UpdateAction::Finish);
    assert!(scene.get_ready_task && !scene.scene_task);
    let event = UpdateEvent::Begin { init: InitPoll::Pending, ready: ReadyPoll::Failed };
    assert_eq!(scene.update(event), UpdateAction::ReadRoom);
    assert!(!scene.get_ready_task);
}

#[test]
fn lost_pings_reconnect_unless_a_task_was_started() {
    let lost = || UpdateEvent::RoomRead {
        t: 0,
        scene: ScenePoll::Pending,
        news: Some(RoomNews {
            room_state: RoomState::Playing,
            is_ready: None,
            ping_fail_count: 2,
            messages: vec![],
        }),
    };
    let mut scene = connected();
    assert_eq!(scene.update(lost()), UpdateAction::Finish);
    scene.init_task = false;
    scene.update(begin());
    assert_eq!(scene.update(lost()), UpdateAction::Reconnect);
    let task = scene.reconnect();
    assert!(scene.init_task);
    assert_eq!(task.token, Some("token".to_string()));
    assert!(matches!(task.action(), InitAction::Connect { .. }));
    assert_eq!(scene.update(UpdateEvent::Reconnecting), UpdateAction::Finish);
}

#[test]
fn a_chart_loaded_while_idle_is_dropped() {
    let mut scene = connected();
    scene.scene_task = true;
    scene.update(UpdateEvent::RoomRead {
        t: 0,
        scene: ScenePoll::Loaded { players: vec![player(1, "Bob")] },
        news: None,
    });
    assert!(!scene.scene_task && !scene.game_scene && scene.players.is_empty());
    assert!(!scene.frame.loaded);
    scene.scene_task = true;
    scene.update(begin());
    scene.update(UpdateEvent::RoomRead { t: 0, scene: ScenePoll::Failed, news: None });
    assert!(!scene.scene_task);
}

#[test]
fn playback_waits_for_all_and_starts_at_zero() {
    let mut scene = waiting();
    assert_eq!(scene.players[0].name, "Ann");
    assert_eq!(feed(&mut scene, &[1]), UpdateAction::Finish);
    assert_eq!(feed(&mut scene, &[2]), UpdateAction::Finish);
    // Now both have started; playback begins in the next frame.
    scene.players[0].local_time = 9;
    let action = feed(&mut scene, &[]);
    assert_eq!(action, UpdateAction::StartClock);
    let action = scene.update(UpdateEvent::ClockStarted { real_time: 500, now: 3 });
    assert_eq!(action, UpdateAction::EnterScene);
    assert_eq!(scene.playback_start_time, Some(500));
    assert_eq!(scene.players[0].local_time, 0);
    let action = scene.update(UpdateEvent::SceneEntered { ok: true });
    assert_eq!(action, UpdateAction::ReadClock);
    assert_eq!(scene.monitor_game_state, MonitorGameState::Playing);
    let action = scene.update(UpdateEvent::ClockRead { now: 10 });
    assert_eq!(action, UpdateAction::UpdateScene);
    assert_eq!(scene.players[0].local_time, 7);
    assert_eq!(scene.players[1].local_time, 7);
    assert_eq!(scene.last_global_time, 10);
    assert_eq!(scene.update(UpdateEvent::SceneUpdated), UpdateAction::Finish);
}

#[test]
fn a_scene_that_cannot_be_entered_does_not_play() {
    let mut scene = waiting();
    feed(&mut scene, &[1, 2]);
    assert_eq!(feed(&mut scene, &[]), UpdateAction::StartClock);
    scene.update(UpdateEvent::ClockStarted { real_time: 0, now: 0 });
    let action = scene.update(UpdateEvent::SceneEntered { ok: false });
    assert_eq!(action, UpdateAction::ReadClock);
    assert_eq!(scene.monitor_game_state, MonitorGameState::WaitingReady);
    assert!(scene.render_started && scene.all_players_ready);
}

#[test]
fn an_aborted_player_stays_and_is_not_asked() {
    let mut scene = waiting();
    scene.update(begin());
    let messages = vec![Message::Abort { player: 2 }, Message::Abort { player: 99 }];
    let action = scene.update(news(RoomState::Playing, messages));
    assert_eq!(action, UpdateAction::Receive { player: 1 });
    assert_eq!(scene.players.len(), 2);
    assert!(scene.players[0].is_aborted && !scene.players[1].is_aborted);
    let action = scene.update(UpdateEvent::Received { live: one_judge() });
    finish(&mut scene, action, 0);
    assert_eq!(feed(&mut scene, &[]), UpdateAction::StartClock);
}

#[test]
fn selecting_a_chart_ends_a_running_game() {
    let mut scene = playing();
    scene.players[0].is_paused = true;
    scene.players[0].pause_start_time = Some(0);
    scene.update(begin());
    let message = Message::SelectChart { id: 9, name: "Next".into() };
    let action = scene.update(news(RoomState::SelectChart(Some(9)), vec![message]));
    assert_eq!(action, UpdateAction::PauseMusic);
    assert_eq!(scene.monitor_game_state, MonitorGameState::Idle);
    assert_eq!(scene.selected_chart, Some((9, "Next".to_string())));
    assert!(!scene.render_started && !scene.all_players_ready && !scene.players[0].is_paused);
    // Neither the rest of the frame nor the next one plays the old chart on.
    finish(&mut scene, action, 2_000);
    assert_eq!(scene.monitor_game_state, MonitorGameState::Idle);
    assert_eq!(feed(&mut scene, &[1, 2]), UpdateAction::Finish);
    assert_eq!(scene.monitor_game_state, MonitorGameState::Idle);
    assert!(!scene.render_started && scene.playback_start_time.is_none());
}

#[test]
fn the_end_of_the_game_stops_the_music() {
    let mut scene = playing();
    scene.players[1].is_resuming = true;
    scene.players[1].resume_buffer_start = Some(0);
    scene.update(begin());
    let action = scene.update(news(RoomState::Playing, vec![Message::GameEnd]));
    assert_eq!(action, UpdateAction::PauseMusic);
    assert!(scene.game_end && !scene.render_started && !scene.players[1].is_resuming);
    assert_eq!(scene.monitor_game_state, MonitorGameState::Ended);
    assert!(matches!(scene.render(RoomState::Playing, 0), Screen::Board { .. }));
    assert_eq!(scene.render(RoomState::WaitingForReady, 0), Screen::Over);
}

#[test]
fn ending_twice_is_ending_once() {
    let mut scene = playing();
    assert!(scene.force_end_game());
    assert_eq!(scene.monitor_game_state, MonitorGameState::Ended);
    scene.render_started = true;
    assert!(!scene.force_end_game());
    assert!(scene.render_started);
}

#[test]
fn an_ended_game_stays_ended_until_the_next_round() {
    let mut scene = playing();
    scene.update(begin());
    let action = scene.update(news(RoomState::Playing, vec![Message::GameEnd]));
    finish(&mut scene, action, 2_000);
    // The chart is still loaded and everybody has sent judges, but the game is over.
    assert!(scene.game_scene && scene.check_all_players_ready());
    for _ in 0..3 {
        assert_eq!(scene.monitor_game_state, MonitorGameState::Ended);
        assert!(scene.game_end && !scene.render_started && !scene.all_players_ready);
        assert_eq!(scene.playback_start_time, None);
        let finished = |player, column| Picture {
            cell: Cell { player, row: 0, column },
            overlay: Overlay::Finished,
        };
        assert_eq!(
            scene.render(RoomState::Playing, 2_000),
            Screen::Board { rows: 1, columns: 2, pictures: vec![finished(0, 0), finished(1, 1)] }
        );
        assert_eq!(feed(&mut scene, &[1, 2]), UpdateAction::Finish);
    }
    // A new round waits for fresh judges, and then plays the chart again.
    scene.update(begin());
    let action = scene.update(news(RoomState::Playing, vec![Message::StartPlaying]));
    finish(&mut scene, action, 3_000);
    assert_eq!(scene.monitor_game_state, MonitorGameState::WaitingReady);
    assert_eq!(feed(&mut scene, &[1, 2]), UpdateAction::Finish);
    let action = feed(&mut scene, &[]);
    assert_eq!(action, UpdateAction::StartClock);
    finish(&mut scene, action, 4_000);
    assert_eq!(scene.monitor_game_state, MonitorGameState::Playing);
    // A game ends without its chart as well.
    scene.render(RoomState::SelectChart(None), 0);
    scene.update(begin());
    let action = scene.update(news(RoomState::SelectChart(None), vec![Message::GameEnd]));
    finish(&mut scene, action, 5_000);
    assert_eq!(scene.monitor_game_state, MonitorGameState::Ended);
}

#[test]
fn a_chart_selected_at_the_end_leaves_the_monitor_idle() {
    let mut scene = playing();
    scene.update(begin());
    let messages = vec![
        Message::GameEnd,
        Message::SelectChart { id: 9, name: "Next".into() },
        Message::GameEnd,
    ];
    let action = scene.update(news(RoomState::SelectChart(Some(9)), messages));
    finish(&mut scene, action, 2_000);
    assert_eq!(scene.monitor_game_state, MonitorGameState::Idle);
    assert!(scene.game_end && !scene.render_started);
}

#[test]
fn the_end_of_no_game_changes_no_state() {
    let mut scene = waiting();
    scene.update(begin());
    scene.update(news(RoomState::Playing, vec![Message::GameEnd]));
    assert!(scene.game_end);
    assert_eq!(scene.monitor_game_state, MonitorGameState::WaitingReady);
}

#[test]
fn a_new_round_resets_players_and_scores() {
    let mut scene = playing();
    let played = |user: &str, score| Message::Played {
        user: user.into(),
        score,
        accuracy: 1,
        full_combo: false,
    };
    scene.update(begin());
    let action = scene.update(news(RoomState::Playing, vec![played("Ann", 3)]));
    finish(&mut scene, action, 3_000);
    assert_eq!(scene.scores.entries.len(), 1);
    scene.update(begin());
    let messages =
        vec![played("Bob", 1), Message::StartPlaying, played("Ann", 4), played("Ann", -1)];
    let action = scene.update(news(RoomState::Playing, messages));
    assert_eq!(scene.monitor_game_state, MonitorGameState::WaitingReady);
    assert_eq!(scene.start_playing_time, Some(77));
    assert!(scene.players.iter().all(|p| !p.has_started && p.local_time == 0));
    // Results are entered after everything else.
    assert_eq!(scene.scores.entries.len(), 2);
    assert_eq!(scene.scores.entries[0].user, "Bob");
    assert_eq!(scene.scores.entries[1].score.score, u32::MAX);
    finish(&mut scene, action, 4_000);
    assert!(!scene.check_all_players_ready());
}

#[test]
fn chat_is_kept_in_order() {
    let mut scene = connected();
    let chat = |user: &str, content: &str, second| Message::Chat {
        user: user.into(),
        content: content.into(),
        at: TimeOfDay { hour: 1, minute: 2, second },
    };
    let messages = vec![chat("Ann", "hi", 3), Message::Other, chat("Bob", "ho", 14)];
    scene.update(news(RoomState::Playing, messages));
    assert_eq!(scene.messages, vec!["[01:02:03] [Ann] hi", "[01:02:14] [Bob] ho"]);
}

#[test]
fn screens_follow_room_and_state() {
    let mut scene = connected();
    assert!(!scene.touch());
    assert_eq!(scene.render(RoomState::Playing, 0), Screen::Idle);
    scene.transition_state(MonitorGameState::WaitingReady);
    assert_eq!(scene.render(RoomState::Playing, 0), Screen::Lobby { lines: vec![] });
    scene.transition_state(MonitorGameState::Playing);
    assert_eq!(
        scene.render(RoomState::WaitingForReady, 0),
        Screen::Board { rows: 1, columns: 0, pictures: vec![] }
    );
    scene.game_scene = true;
    assert!(matches!(scene.render(RoomState::SelectChart(None), 0), Screen::Selecting { .. }));
    assert!(!scene.game_scene);
}

#[test]
fn the_lobby_shows_who_is_ready() {
    let mut scene = waiting();
    assert_eq!(feed(&mut scene, &[1]), UpdateAction::Finish);
    let line = |text: &str, ready| LobbyLine { text: text.into(), ready };
    assert_eq!(
        scene.render(RoomState::Playing, 0),
        Screen::Lobby { lines: vec![line("Ann: 等待中…", false), line("Bob: 就绪", true)] }
    );
}

#[test]
fn selecting_shows_the_chart_and_the_results() {
    let mut scene = connected();
    let played = |user: &str, score, full_combo| Message::Played {
        user: user.into(),
        score,
        accuracy: 1,
        full_combo,
    };
    let messages = vec![played("Bob", 7, false), played("Ann", 9, true), played("Bob", 8, false)];
    scene.update(news(RoomState::Playing, messages));
    match scene.render(RoomState::SelectChart(Some(5)), 0) {
        Screen::Selecting { chart, results } => {
            assert_eq!(chart, Some("Song (#5)".to_string()));
            let lines: Vec<(&str, String)> =
                results.entries.iter().map(|it| (it.user.as_str(), it.line("0.00"))).collect();
            assert_eq!(
                lines,
                vec![("Bob", "8 (0.00%)".to_string()), ("Ann", "9 (0.00%) 全连".to_string())]
            );
        }
        other => panic!("{other:?}"),
    }
    scene.selected_chart = None;
    assert!(matches!(
        scene.render(RoomState::SelectChart(None), 0),
        Screen::Selecting { chart: None, .. }
    ));
}

#[test]
fn the_board_places_players_with_their_overlays() {
    let mut scene = playing();
    scene.players.push(player(3, "Cid"));
    scene.players[0].is_resuming = true;
    scene.players[0].resume_buffer_start = Some(10);
    scene.players[1].abort();
    let picture = |player, row, column, overlay| Picture {
        cell: Cell { player, row, column },
        overlay,
    };
    assert_eq!(
        scene.render(RoomState::Playing, 15),
        Screen::Board {
            rows: 2,
            columns: 2,
            pictures: vec![
                picture(0, 0, 0, Overlay::Resuming { elapsed: 5 }),
                picture(1, 0, 1, Overlay::Aborted),
                picture(2, 1, 0, Overlay::Nothing),
            ],
        }
    );
}
