//! Laws of frames: what each answer to outside work changes, and which work comes next. They speak
//! of single fields and conditions.
use crate::player::{frames, LivePlayer, PlayerModel};
use crate::room::{RoomNews, RoomState};
use crate::roster::{all_ready, is_sorted, law_sorting_is_stable, models, named};
use crate::scene::{
    phase_after, phases_left, Frame, InitPoll, Phase, ReadyPoll, SceneModel, ScenePoll, UpdateAction,
    UpdateEvent,
};
use crate::scene_laws::after_events;
use crate::state::MonitorGameState;
use crate::time::saturate;
use vstd::prelude::*;

verus! {

/// The place of a phase in a frame.
pub open spec fn step(phase: Phase) -> int {
    match phase {
        Phase::Launch => 0,
        Phase::Room => 1,
        Phase::Music => 2,
        Phase::Receive { .. } => 3,
        Phase::StartClock => 4,
        Phase::Enter => 5,
        Phase::Ready => 6,
        Phase::Connect => 7,
        Phase::Clock => 8,
        Phase::Scene => 9,
        Phase::Done => 10,
    }
}

/// Whether phase `a` comes before phase `b`: players are asked one after the other.
pub open spec fn comes_first(a: Phase, b: Phase) -> bool {
    ||| step(a) < step(b)
    ||| {
        &&& a matches Phase::Receive { index: i }
        &&& b matches Phase::Receive { index: j }
        &&& i < j
    }
}

/// Whether there is something to do in a phase: a chart to load, the room to ask, music to pause, a
/// player who has not left, playback to start in a round whose chart is loaded and whose players
/// were all ready, the game scene to enter behind that, a room to get ready for, a lost connection,
/// a running clock, and a game scene whose clock has moved.
pub open spec fn to_do(scene: SceneModel, phase: Phase) -> bool {
    match phase {
        Phase::Launch => scene.frame.launch is Some,
        Phase::Room => true,
        Phase::Music => scene.frame.pause_music,
        Phase::Receive { index } => {
            &&& scene.client
            &&& index < scene.players.len()
            &&& !scene.players[index as int].is_aborted
        },
        Phase::StartClock => {
            &&& scene.client
            &&& !(scene.monitor_game_state is Idle)
            &&& !(scene.monitor_game_state is Ended)
            &&& !scene.all_players_ready
            &&& !scene.render_started
            &&& scene.game_scene
            &&& scene.frame.all_ready
        },
        Phase::Enter => scene.frame.entering,
        Phase::Ready => {
            &&& scene.client
            &&& !scene.get_ready_task
            &&& scene.frame.wants_ready
        },
        Phase::Connect => scene.frame.lost && !scene.init_task,
        Phase::Clock => scene.render_started && scene.all_players_ready,
        Phase::Scene => scene.frame.ticked && scene.game_scene,
        Phase::Done => true,
    }
}

/// Between a phase and the one behind it there is nothing to do.
proof fn lemma_no_gap(scene: SceneModel, phase: Phase)
    requires
        !(phase is Done),
    ensures
        ({
            let after = phase_after(phase, scene.players.len());
            &&& comes_first(phase, after)
            &&& forall|q: Phase|
                comes_first(phase, q) && #[trigger] to_do(scene, q) ==> q == after || comes_first(
                    after,
                    q,
                )
        }),
{
}

proof fn lemma_next_work(scene: SceneModel, phase: Phase)
    ensures
        ({
            let next = scene.first_work(phase);
            &&& to_do(scene, next)
            &&& next == phase || comes_first(phase, next)
            &&& forall|q: Phase|
                (q == phase || comes_first(phase, q)) && comes_first(q, next) ==> !#[trigger] to_do(
                    scene,
                    q,
                )
        }),
    decreases phases_left(phase, scene.players.len()),
{
    if !scene.has_work(phase) {
        lemma_no_gap(scene, phase);
        lemma_next_work(scene, phase_after(phase, scene.players.len()));
        assert(!to_do(scene, phase));
    }
}

/// An answer leaves the frame where it is until it goes on.
proof fn lemma_answered_phase(scene: SceneModel, event: UpdateEvent)
    requires
        scene.awaits(event),
        !(event is Begin),
    ensures
        scene.taken(event).frame.phase == scene.frame.phase,
        !(scene.frame.phase is Done),
{
    if let UpdateEvent::RoomRead { t, scene: poll, news } = event {
        crate::scene_laws::lemma_heard_phase(scene.scene_polled(poll), news, t);
    }
}

proof fn lemma_gone_on(taken: SceneModel, from: Phase)
    ensures
        ({
            let after = taken.going_on(from);
            let next = after.frame.phase;
            &&& to_do(after, next)
            &&& next == from || comes_first(from, next)
            &&& forall|q: Phase|
                (q == from || comes_first(from, q)) && comes_first(q, next) ==> !#[trigger] to_do(
                    after,
                    q,
                )
            &&& forall|q: Phase| #[trigger] to_do(after, q) == to_do(taken, q)
        }),
{
    lemma_next_work(taken, from);
    let after = taken.going_on(from);
    assert forall|q: Phase| #[trigger] to_do(after, q) == to_do(taken, q) by {}
}

/// A frame does what there is to do, in its fixed order, and leaves nothing out: behind an answer it
/// goes to the first later phase in which there is something to do. A frame that begins starts from
/// the front.
pub proof fn law_a_frame_leaves_nothing_out(scene: SceneModel, event: UpdateEvent)
    requires
        scene.awaits(event),
        !(event matches UpdateEvent::Launched { ok } && !ok),
    ensures
        ({
            let after = scene.updated(event);
            let next = after.frame.phase;
            &&& to_do(after, next)
            &&& event is Begin || comes_first(scene.frame.phase, next)
            &&& forall|q: Phase|
                (event is Begin || comes_first(scene.frame.phase, q)) && comes_first(q, next)
                    ==> !#[trigger] to_do(after, q)
        }),
{
    let taken = scene.taken(event);
    let from = taken.phase_from(event);
    lemma_gone_on(taken, from);
    assert(scene.updated(event) == taken.going_on(from));
    if event is Begin {
        assert(from == Phase::Launch);
    } else {
        lemma_answered_phase(scene, event);
        lemma_no_gap(taken, scene.frame.phase);
        assert(from == phase_after(scene.frame.phase, taken.players.len()));
    }
}

/// Each phase asks for its own work: the chart to load, and the player to ask, by number.
pub proof fn law_each_phase_has_its_work(scene: SceneModel)
    ensures
        scene.frame.phase is Launch && scene.frame.launch is Some ==> scene.action() == (
        UpdateAction::Launch { id: scene.frame.launch->0 }),
        scene.frame.phase is Room ==> scene.action() is ReadRoom,
        scene.frame.phase is Music ==> scene.action() is PauseMusic,
        scene.frame.phase matches Phase::Receive { index } ==> (index < scene.players.len()
            ==> scene.action() == (UpdateAction::Receive { player: scene.players[index as int].id })),
        scene.frame.phase is StartClock ==> scene.action() is StartClock,
        scene.frame.phase is Enter ==> scene.action() is EnterScene,
        scene.frame.phase is Ready ==> scene.action() is StartGetReady,
        scene.frame.phase is Connect ==> scene.action() is Reconnect,
        scene.frame.phase is Clock ==> scene.action() is ReadClock,
        scene.frame.phase is Scene ==> scene.action() is UpdateScene,
        scene.frame.phase is Done ==> scene.action() is Finish,
{
}

/// An answer to other work than what was asked for changes nothing; an answer to what was asked for
/// is taken, and so is the beginning of a frame at any time.
pub proof fn law_only_answers_are_taken(scene: SceneModel, event: UpdateEvent)
    requires
        scene.frame.phase is Launch ==> scene.frame.launch is Some,
    ensures
        ({
            let answers = match event {
                UpdateEvent::Begin { .. } => true,
                UpdateEvent::Launched { .. } => scene.action() is Launch,
                UpdateEvent::RoomRead { .. } => scene.action() is ReadRoom,
                UpdateEvent::MusicPaused => scene.action() is PauseMusic,
                UpdateEvent::Received { .. } => scene.action() is Receive,
                UpdateEvent::ClockStarted { .. } => scene.action() is StartClock,
                UpdateEvent::SceneEntered { .. } => scene.action() is EnterScene,
                UpdateEvent::GetReadyStarted => scene.action() is StartGetReady,
                UpdateEvent::Reconnecting => scene.action() is Reconnect,
                UpdateEvent::ClockRead { .. } => scene.action() is ReadClock,
                UpdateEvent::SceneUpdated => scene.action() is UpdateScene,
            };
            &&& scene.awaits(event) == answers
            &&& !answers ==> scene.updated(event) == scene
        }),
{
}

/// What the beginning of a frame changes. All that the last frame decided is forgotten. If the task
/// that gets into the room is done, the monitor is connected and has its token and its chart. The
/// task that gets ready is dropped when it fails; when it is done, the selected chart is to be
/// loaded.
pub proof fn law_what_the_beginning_changes(scene: SceneModel, init: InitPoll, ready: ReadyPoll)
    ensures
        ({
            let after = scene.updated(UpdateEvent::Begin { init, ready });
            let entered = scene.init_task && init is Done;
            &&& after.client == (scene.client || entered)
            &&& after.selected_chart == if entered {
                init->result.chart
            } else {
                scene.selected_chart
            }
            &&& after.token == if entered {
                Some(init->result.token)
            } else {
                scene.token
            }
            &&& after.get_ready_task == (scene.get_ready_task && !(ready is Failed))
            &&& scene.get_ready_task && ready is Done && after.selected_chart is Some
                ==> after.frame.launch == Some((after.selected_chart->0).0)
            &&& !scene.get_ready_task || !(ready is Done) ==> after.frame.launch is None
            &&& after == (SceneModel {
                client: after.client,
                selected_chart: after.selected_chart,
                token: after.token,
                get_ready_task: after.get_ready_task,
                frame: Frame {
                    phase: after.frame.phase,
                    launch: after.frame.launch,
                    loaded: false,
                    pause_music: false,
                    all_ready: false,
                    wants_ready: false,
                    lost: false,
                    entering: false,
                    ticked: false,
                },
                ..scene
            })
        }),
{
}

/// A frame can begin unless a chart is to be loaded and none is selected; the selection that comes
/// with getting into the room counts. Every other event can be taken over.
pub proof fn law_when_a_frame_can_begin(scene: SceneModel, event: UpdateEvent)
    ensures
        !(event is Begin) ==> scene.admits(event),
        event matches UpdateEvent::Begin { init, ready } ==> (scene.admits(event) <==> {
            ||| !scene.get_ready_task
            ||| !(ready is Done)
            ||| scene.updated(event).selected_chart is Some
        }),
{
    if let UpdateEvent::Begin { init, ready } = event {
        law_what_the_beginning_changes(scene, init, ready);
    }
}

/// What a launch changes: the chart is being loaded and the task that got ready is over; or, if it
/// failed, nothing, and the frame is over.
pub proof fn law_what_a_launch_changes(scene: SceneModel, ok: bool)
    requires
        scene.frame.phase is Launch,
    ensures
        ({
            let after = scene.updated(UpdateEvent::Launched { ok });
            &&& ok ==> after == (SceneModel {
                scene_task: true,
                get_ready_task: false,
                frame: Frame { phase: after.frame.phase, ..scene.frame },
                ..scene
            })
            &&& !ok ==> after == (SceneModel {
                frame: Frame { phase: Phase::Done, ..scene.frame },
                ..scene
            }) && after.action() is Finish
        }),
{
    let taken = scene.taken(UpdateEvent::Launched { ok });
    if !ok {
        assert(taken.first_work(Phase::Done) == Phase::Done);
    }
}

/// What the chart that is being loaded changes. Nothing until it is loaded or has failed, and then
/// the task is over. A loaded chart is taken over unless the monitor is idle: its players, all of
/// them and nobody else, stand in the order of their names.
pub proof fn law_what_a_loaded_chart_changes(scene: SceneModel, poll: ScenePoll)
    ensures
        ({
            let after = scene.scene_polled(poll);
            &&& !scene.scene_task || poll is Pending ==> after == scene
            &&& scene.scene_task && (poll is Failed || (poll is Loaded
                && scene.monitor_game_state is Idle)) ==> after == (SceneModel {
                scene_task: false,
                ..scene
            })
            &&& scene.scene_task && !(scene.monitor_game_state is Idle) ==> (
            poll matches ScenePoll::Loaded { players } ==> {
                &&& after.players.to_multiset() == models(players@).to_multiset()
                &&& is_sorted(after.players)
                &&& forall|name: Seq<char>| #[trigger]
                    named(after.players, name) == named(models(players@), name)
                &&& after == (SceneModel {
                    scene_task: false,
                    game_scene: true,
                    players: after.players,
                    frame: Frame { loaded: true, ..scene.frame },
                    ..scene
                })
            })
        }),
{
    if let ScenePoll::Loaded { players } = poll {
        law_sorting_is_stable(models(players@));
    }
}

/// What the server's news changes: the loaded chart is taken over first, then the messages are
/// heard; and the frame notes whether everybody is ready, whether the room waits for the monitor,
/// which has not said that it is ready, and whether two pings in a row have failed. Without a
/// connection, and without news, there is only the chart.
pub proof fn law_what_news_changes(
    scene: SceneModel,
    t: i64,
    poll: ScenePoll,
    news: Option<RoomNews>,
)
    requires
        scene.frame.phase is Room,
    ensures
        ({
            let after = scene.updated(UpdateEvent::RoomRead { t, scene: poll, news });
            let loaded = scene.scene_polled(poll);
            &&& news is None || !scene.client ==> after == (SceneModel {
                frame: Frame { phase: after.frame.phase, ..loaded.frame },
                ..loaded
            })
            &&& scene.client ==> (news matches Some(news) ==> {
                let heard = loaded.heard(news.messages@, t);
                &&& after == (SceneModel {
                    frame: Frame {
                        phase: after.frame.phase,
                        all_ready: after.frame.all_ready,
                        wants_ready: after.frame.wants_ready,
                        lost: after.frame.lost,
                        ..heard.frame
                    },
                    ..heard
                })
                &&& after.frame.all_ready == all_ready(after.players)
                &&& after.frame.wants_ready == (news.room_state == RoomState::WaitingForReady
                    && !(news.is_ready is Some && news.is_ready->0))
                &&& after.frame.lost == (news.ping_fail_count >= 2)
            })
        }),
{
}

/// What a player's data changes: that player's queues, and nothing else.
pub proof fn law_what_data_changes(scene: SceneModel, index: usize, live: LivePlayer, k: int)
    requires
        scene.frame.phase == (Phase::Receive { index }),
        index < scene.players.len(),
        0 <= k < scene.players.len(),
    ensures
        ({
            let after = scene.updated(UpdateEvent::Received { live });
            &&& after == (SceneModel {
                players: after.players,
                frame: Frame { phase: after.frame.phase, ..scene.frame },
                ..scene
            })
            &&& after.players.len() == scene.players.len()
            &&& k != index ==> after.players[k] == scene.players[k]
            &&& after.players[index as int] == scene.players[index as int].received(
                frames(live.touch_frames@),
                live.judge_events@,
            )
            &&& !scene.players[index as int].is_aborted ==> after.players[index as int].judges
                == scene.players[index as int].judges + live.judge_events@
        }),
{
}

/// What starting the clock changes: playback is on from that instant, everybody is at time zero with
/// nothing paused, and the game scene is to be entered.
pub proof fn law_what_starting_changes(scene: SceneModel, real_time: i64, now: i64, k: int)
    requires
        scene.frame.phase is StartClock,
        0 <= k < scene.players.len(),
    ensures
        ({
            let after = scene.updated(UpdateEvent::ClockStarted { real_time, now });
            &&& after.players.len() == scene.players.len()
            &&& after.players[k] == (PlayerModel {
                local_time: 0,
                is_paused: false,
                is_resuming: false,
                total_paused_duration: 0,
                pause_start_time: None,
                resume_buffer_start: None,
                ..scene.players[k]
            })
            &&& after == (SceneModel {
                all_players_ready: true,
                render_started: true,
                playback_start_time: Some(real_time),
                last_global_time: now,
                players: after.players,
                frame: Frame { phase: Phase::Enter, entering: true, ..scene.frame },
                ..scene
            })
            &&& after.action() is EnterScene
        }),
{
    let taken = scene.taken(UpdateEvent::ClockStarted { real_time, now });
    assert(taken.first_work(Phase::Enter) == Phase::Enter);
}

/// What entering the game scene changes: the game runs, if it could be entered.
pub proof fn law_what_entering_changes(scene: SceneModel, ok: bool)
    requires
        scene.frame.phase is Enter,
    ensures
        ({
            let after = scene.updated(UpdateEvent::SceneEntered { ok });
            after == (SceneModel {
                monitor_game_state: if ok {
                    MonitorGameState::Playing
                } else {
                    scene.monitor_game_state
                },
                frame: Frame { phase: after.frame.phase, ..scene.frame },
                ..scene
            })
        }),
{
}

/// What reading the clock changes: every player's clock gets the same step, from the last reading to
/// this one.
pub proof fn law_what_a_reading_changes(scene: SceneModel, now: i64, k: int)
    requires
        scene.frame.phase is Clock,
        0 <= k < scene.players.len(),
    ensures
        ({
            let after = scene.updated(UpdateEvent::ClockRead { now });
            &&& after.players.len() == scene.players.len()
            &&& after.players[k] == scene.players[k].ticked(
                saturate(now - scene.last_global_time),
                now,
            )
            &&& after == (SceneModel {
                last_global_time: now,
                players: after.players,
                frame: Frame { phase: after.frame.phase, ticked: true, ..scene.frame },
                ..scene
            })
        }),
{
}

/// Pausing the music, starting to get ready, starting to connect again and updating the game scene
/// are answered with nothing that changes more than the place in the frame.
pub proof fn law_other_answers_change_nothing(scene: SceneModel)
    ensures
        scene.frame.phase is Music ==> differ_in_place(
            scene,
            scene.updated(UpdateEvent::MusicPaused),
        ),
        scene.frame.phase is Ready ==> differ_in_place(
            scene,
            scene.updated(UpdateEvent::GetReadyStarted),
        ),
        scene.frame.phase is Connect ==> differ_in_place(
            scene,
            scene.updated(UpdateEvent::Reconnecting),
        ),
        scene.frame.phase is Scene ==> differ_in_place(
            scene,
            scene.updated(UpdateEvent::SceneUpdated),
        ),
{
    if scene.frame.phase is Music {
        lemma_music_answered(scene);
    }
    if scene.frame.phase is Ready {
        lemma_ready_answered(scene);
    }
    if scene.frame.phase is Connect {
        lemma_connect_answered(scene);
    }
    if scene.frame.phase is Scene {
        lemma_scene_answered(scene);
    }
}

proof fn lemma_music_answered(scene: SceneModel)
    requires
        scene.frame.phase is Music,
    ensures
        differ_in_place(scene, scene.updated(UpdateEvent::MusicPaused)),
{
    let next = phase_after(scene.frame.phase, scene.players.len());
    assert(scene.taken(UpdateEvent::MusicPaused) == scene);
    assert(scene.updated(UpdateEvent::MusicPaused) == scene.going_on(next));
    lemma_place_only(scene, next);
}

proof fn lemma_ready_answered(scene: SceneModel)
    requires
        scene.frame.phase is Ready,
    ensures
        differ_in_place(scene, scene.updated(UpdateEvent::GetReadyStarted)),
{
    let next = phase_after(scene.frame.phase, scene.players.len());
    assert(scene.taken(UpdateEvent::GetReadyStarted) == scene);
    assert(scene.updated(UpdateEvent::GetReadyStarted) == scene.going_on(next));
    lemma_place_only(scene, next);
}

proof fn lemma_connect_answered(scene: SceneModel)
    requires
        scene.frame.phase is Connect,
    ensures
        differ_in_place(scene, scene.updated(UpdateEvent::Reconnecting)),
{
    let next = phase_after(scene.frame.phase, scene.players.len());
    assert(scene.taken(UpdateEvent::Reconnecting) == scene);
    assert(scene.updated(UpdateEvent::Reconnecting) == scene.going_on(next));
    lemma_place_only(scene, next);
}

proof fn lemma_scene_answered(scene: SceneModel)
    requires
        scene.frame.phase is Scene,
    ensures
        differ_in_place(scene, scene.updated(UpdateEvent::SceneUpdated)),
{
    let next = phase_after(scene.frame.phase, scene.players.len());
    assert(scene.taken(UpdateEvent::SceneUpdated) == scene);
    assert(scene.updated(UpdateEvent::SceneUpdated) == scene.going_on(next));
    lemma_place_only(scene, next);
}

proof fn lemma_place_only(scene: SceneModel, phase: Phase)
    ensures
        differ_in_place(scene, scene.going_on(phase)),
{
}

/// Whether two monitors differ in their place in the frame at most.
pub open spec fn differ_in_place(scene: SceneModel, after: SceneModel) -> bool {
    after == (SceneModel { frame: Frame { phase: after.frame.phase, ..scene.frame }, ..scene })
}

/// Whether the news asks the monitor to get ready: the room waits, and the monitor has not said that
/// it is ready.
pub open spec fn asks_for_readiness(news: RoomNews) -> bool {
    news.room_state == RoomState::WaitingForReady && !(news.is_ready is Some && news.is_ready->0)
}

/// What is fixed for the rest of a frame once the room has been read.
spec fn room_was_read(scene: SceneModel, wanted: bool, client: bool, task: bool) -> bool {
    &&& scene.frame.wants_ready == wanted
    &&& scene.client == client
    &&& scene.get_ready_task == task
    &&& step(scene.frame.phase) > step(Phase::Room)
    &&& scene.frame.phase is Ready ==> wanted && client && !task
}

proof fn lemma_rest_of_frame(
    scene: SceneModel,
    event: UpdateEvent,
    wanted: bool,
    client: bool,
    task: bool,
)
    requires
        room_was_read(scene, wanted, client, task),
        !(event is Begin),
    ensures
        room_was_read(scene.updated(event), wanted, client, task),
        wanted && client && !task && step(scene.frame.phase) < step(Phase::Ready) ==> step(
            scene.updated(event).frame.phase,
        ) <= step(Phase::Ready),
{
    if scene.awaits(event) {
        law_a_frame_leaves_nothing_out(scene, event);
        let after = scene.updated(event);
        assert(to_do(after, Phase::Ready) == (client && !task && wanted));
    }
}

proof fn lemma_messages_keep_tasks(
    scene: SceneModel,
    messages: Seq<crate::room::Message>,
    t: i64,
)
    ensures
        scene.after_messages(messages, t).get_ready_task == scene.get_ready_task,
        scene.after_messages(messages, t).client == scene.client,
    decreases messages.len(),
{
    if messages.len() > 0 {
        lemma_messages_keep_tasks(scene, messages.drop_last(), t);
    }
}

/// In the rest of a frame that has read the room's news, the monitor is asked to get ready only if
/// the room waits, the monitor has not said that it is ready, and no task to get ready runs. If so,
/// the frame does not go past that point without asking.
pub proof fn law_getting_ready_is_asked_for_when_due(
    scene: SceneModel,
    t: i64,
    poll: ScenePoll,
    news: RoomNews,
    events: Seq<UpdateEvent>,
)
    requires
        scene.frame.phase is Room,
        scene.client,
        forall|i: int| 0 <= i < events.len() ==> !((#[trigger] events[i]) is Begin),
    ensures
        ({
            let first = scene.updated(UpdateEvent::RoomRead { t, scene: poll, news: Some(news) });
            let after = after_events(first, events);
            let due = asks_for_readiness(news) && !scene.get_ready_task;
            &&& after.action() is StartGetReady ==> due
            &&& due && step(after.frame.phase) > step(Phase::Ready) ==> exists|k: int|
                0 <= k <= events.len() && (#[trigger] after_events(
                    first,
                    events.take(k),
                )).action() is StartGetReady
        }),
{
    let event = UpdateEvent::RoomRead { t, scene: poll, news: Some(news) };
    let first = scene.updated(event);
    law_a_frame_leaves_nothing_out(scene, event);
    law_what_news_changes(scene, t, poll, Some(news));
    lemma_messages_keep_tasks(scene.scene_polled(poll), news.messages@, t);
    assert(to_do(first, Phase::Ready) == (asks_for_readiness(news) && !scene.get_ready_task));
    lemma_ready_in_frame(
        first,
        asks_for_readiness(news),
        scene.get_ready_task,
        events,
    );
    if first.action() is StartGetReady {
        assert(events.take(0) =~= Seq::empty());
        assert(after_events(first, events.take(0)).action() is StartGetReady);
    }
}

proof fn lemma_ready_in_frame(
    first: SceneModel,
    wanted: bool,
    task: bool,
    events: Seq<UpdateEvent>,
)
    requires
        room_was_read(first, wanted, true, task),
        wanted && !task ==> step(first.frame.phase) <= step(Phase::Ready),
        forall|i: int| 0 <= i < events.len() ==> !((#[trigger] events[i]) is Begin),
    ensures
        room_was_read(after_events(first, events), wanted, true, task),
        wanted && !task && step(after_events(first, events).frame.phase) > step(Phase::Ready)
            ==> exists|k: int|
            0 <= k <= events.len() && (#[trigger] after_events(
                first,
                events.take(k),
            )).action() is StartGetReady,
    decreases events.len(),
{
    if events.len() > 0 {
        let front = events.drop_last();
        let n = front.len() as int;
        assert(forall|i: int| 0 <= i < front.len() ==> #[trigger] front[i] == events[i]);
        lemma_ready_in_frame(first, wanted, task, front);
        let before = after_events(first, front);
        assert(!(events[events.len() - 1] is Begin));
        lemma_rest_of_frame(before, events.last(), wanted, true, task);
        if wanted && !task && step(after_events(first, events).frame.phase) > step(Phase::Ready) {
            if step(before.frame.phase) > step(Phase::Ready) {
                let k = choose|k: int|
                    0 <= k <= front.len() && (#[trigger] after_events(
                        first,
                        front.take(k),
                    )).action() is StartGetReady;
                assert(front.take(k) =~= events.take(k));
                assert(after_events(first, events.take(k)).action() is StartGetReady);
            } else {
                assert(before.frame.phase is Ready);
                assert(events.take(n) =~= front);
                assert(after_events(first, events.take(n)).action() is StartGetReady);
            }
        }
    }
}

} // verus!
