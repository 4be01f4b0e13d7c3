//! The monitor's state, and what one frame makes of it.
//!
//! A frame alternates outside work and decisions. [`MainScene::update`] takes what came of the
//! outside work, and answers with the next piece of it, until there is none left.
use crate::args::texts;
use crate::config::Config;
use crate::init::{create_init_task, InitResult, InitStage, InitTask};
use crate::labels::{chart_label, chart_title, chat_line};
use crate::player::{frames, LivePlayer, PlayerModel, PlayerView};
use crate::ready::{ReadyStage, ReadyTask};
use crate::room::{
    chat_lines, read_score, with_scores, Message, RoomNews, RoomState,
};
use crate::roster::{
    all_ready, all_released, all_reset, all_rewound, all_ticked, all_wf, find_player,
    insert_by_name, models,
    players_ready, release_all, reset_all, rewind_all, sort_by_name, sort_players, tick_all,
    with_abort,
};
use crate::scores::{Score, ScoreBoard};
use crate::screen::{board, lobby, show_board, show_lobby, Screen, ScreenModel};
use crate::state::MonitorGameState;
use crate::text::before;
use crate::time::{saturate, sub_time};
use vstd::prelude::*;

verus! {

/// How many failed pings in a row make a connection lost.
pub const LOST_PINGS: u32 = 2;

/// What has come of the task that gets into the room.
pub enum InitPoll {
    Pending,
    Failed,
    Done { result: InitResult },
}

/// What has come of the task that gets ready.
#[derive(Clone, Copy, PartialEq, Eq, Debug, Structural)]
pub enum ReadyPoll {
    Pending,
    Failed,
    Done,
}

/// What has come of loading the chart for all players.
#[derive(Debug)]
pub enum ScenePoll {
    Pending,
    Failed,
    Loaded { players: Vec<PlayerView> },
}

/// The steps of a frame that wait for outside work, in order.
#[derive(Clone, Copy, PartialEq, Eq, Debug, Structural)]
pub enum Phase {
    Launch,
    Room,
    Music,
    Receive { index: usize },
    StartClock,
    Enter,
    Ready,
    Connect,
    Clock,
    Scene,
    Done,
}

/// Where the current frame is, and what it has decided so far.
#[derive(Clone, Copy, PartialEq, Eq, Debug, Structural)]
pub struct Frame {
    pub phase: Phase,
    /// The chart that is on disk now and has to be loaded.
    pub launch: Option<i32>,
    /// The chart that was being loaded has been taken over.
    pub loaded: bool,
    /// The game was ended: pause the music.
    pub pause_music: bool,
    /// Everybody who plays had sent a judge before this frame's data arrived.
    pub all_ready: bool,
    /// The room waits for the monitor to get ready.
    pub wants_ready: bool,
    /// The connection is lost.
    pub lost: bool,
    /// Playback has begun: enter the game scene.
    pub entering: bool,
    /// The clocks have moved on.
    pub ticked: bool,
}

/// What came of a piece of outside work.
pub enum UpdateEvent {
    /// A new frame begins; what has come of the two tasks.
    Begin { init: InitPoll, ready: ReadyPoll },
    /// Loading the chart has been started, or could not be.
    Launched { ok: bool },
    /// What has come of loading the chart, and what the server says, at time `t`.
    RoomRead { t: i64, scene: ScenePoll, news: Option<RoomNews> },
    MusicPaused,
    /// What has arrived from a player's game.
    Received { live: LivePlayer },
    /// The playback clock has been restarted, at `real_time`; it shows `now`.
    ClockStarted { real_time: i64, now: i64 },
    /// The game scene has been entered, or could not be.
    SceneEntered { ok: bool },
    GetReadyStarted,
    Reconnecting,
    /// The playback clock shows `now`.
    ClockRead { now: i64 },
    SceneUpdated,
}

/// The next piece of outside work.
#[derive(Clone, Copy, PartialEq, Eq, Debug, Structural)]
pub enum UpdateAction {
    /// Start to load chart `id`, the selected one, for the players of the room.
    Launch { id: i32 },
    /// Ask for the room, its messages, and what has come of loading the chart.
    ReadRoom,
    PauseMusic,
    /// Take what has arrived from this player's game.
    Receive { player: i32 },
    /// Restart the playback clock: the players of a round that has begun are all ready.
    StartClock,
    EnterScene,
    /// Run the task that [`MainScene::start_get_ready`] makes.
    StartGetReady,
    /// Run the task that [`MainScene::reconnect`] makes. It is asked for only where no task to get
    /// into the room was ever started, so never by a monitor that [`MainScene::new`] made.
    Reconnect,
    ReadClock,
    UpdateScene,
    /// Nothing: the frame is over.
    Finish,
}

/// The monitor.
pub struct MainScene {
    pub config: Config,
    /// Whether there is a connection to the server.
    pub client: bool,
    pub token: Option<String>,
    /// Whether a task to get into the room was started.
    pub init_task: bool,
    /// The chat so far.
    pub messages: Vec<String>,
    /// Whether the chart is being loaded.
    pub scene_task: bool,
    pub selected_chart: Option<(i32, String)>,
    /// Whether a task to get ready is running.
    pub get_ready_task: bool,
    /// Whether a chart is loaded.
    pub game_scene: bool,
    /// Whether pictures and sound have started.
    pub render_started: bool,
    /// Whether every player's first judge has arrived and playback has begun.
    pub all_players_ready: bool,
    /// When playback began.
    pub playback_start_time: Option<i64>,
    pub players: Vec<PlayerView>,
    /// When the last round began.
    pub start_playing_time: Option<i64>,
    /// The results of the last round.
    pub scores: ScoreBoard,
    pub game_end: bool,
    /// What the playback clock showed when it was last read.
    pub last_global_time: i64,
    pub monitor_game_state: MonitorGameState,
    pub frame: Frame,
}

/// The state of the monitor.
#[verifier::ext_equal]
pub struct SceneModel {
    pub config: Config,
    pub client: bool,
    pub token: Option<String>,
    pub init_task: bool,
    pub messages: Seq<Seq<char>>,
    pub scene_task: bool,
    pub selected_chart: Option<(i32, String)>,
    pub get_ready_task: bool,
    pub game_scene: bool,
    pub render_started: bool,
    pub all_players_ready: bool,
    pub playback_start_time: Option<i64>,
    pub players: Seq<PlayerModel>,
    pub start_playing_time: Option<i64>,
    pub scores: Map<Seq<char>, Score>,
    pub game_end: bool,
    pub last_global_time: i64,
    pub monitor_game_state: MonitorGameState,
    pub frame: Frame,
}

impl View for MainScene {
    type V = SceneModel;

    open spec fn view(&self) -> SceneModel {
        SceneModel {
            config: self.config,
            client: self.client,
            token: self.token,
            init_task: self.init_task,
            messages: texts(self.messages@),
            scene_task: self.scene_task,
            selected_chart: self.selected_chart,
            get_ready_task: self.get_ready_task,
            game_scene: self.game_scene,
            render_started: self.render_started,
            all_players_ready: self.all_players_ready,
            playback_start_time: self.playback_start_time,
            players: models(self.players@),
            start_playing_time: self.start_playing_time,
            scores: self.scores@,
            game_end: self.game_end,
            last_global_time: self.last_global_time,
            monitor_game_state: self.monitor_game_state,
            frame: self.frame,
        }
    }
}

/// A frame that has decided nothing yet.
pub open spec fn fresh_frame(phase: Phase) -> Frame {
    Frame {
        phase,
        launch: None,
        loaded: false,
        pause_music: false,
        all_ready: false,
        wants_ready: false,
        lost: false,
        entering: false,
        ticked: false,
    }
}

/// The phase behind `phase`, with so many players.
pub open spec fn phase_after(phase: Phase, players: nat) -> Phase {
    match phase {
        Phase::Launch => Phase::Room,
        Phase::Room => Phase::Music,
        Phase::Music => Phase::Receive { index: 0 },
        Phase::Receive { index } => if index + 1 < players && index < usize::MAX {
            Phase::Receive { index: (index + 1) as usize }
        } else {
            Phase::StartClock
        },
        Phase::StartClock => Phase::Enter,
        Phase::Enter => Phase::Ready,
        Phase::Ready => Phase::Connect,
        Phase::Connect => Phase::Clock,
        Phase::Clock => Phase::Scene,
        Phase::Scene => Phase::Done,
        Phase::Done => Phase::Done,
    }
}

/// How many phases are left behind `phase`, with so many players.
pub open spec fn phases_left(phase: Phase, players: nat) -> nat {
    match phase {
        Phase::Launch => (players + 10) as nat,
        Phase::Room => (players + 9) as nat,
        Phase::Music => (players + 8) as nat,
        Phase::Receive { index } => if index < players {
            (players - index + 7) as nat
        } else {
            7
        },
        Phase::StartClock => 6,
        Phase::Enter => 5,
        Phase::Ready => 4,
        Phase::Connect => 3,
        Phase::Clock => 2,
        Phase::Scene => 1,
        Phase::Done => 0,
    }
}

impl SceneModel {
    /// What holds of the monitor at any time: all players are well-formed, and who is connected
    /// has a token.
    pub open spec fn wf(self) -> bool {
        &&& all_wf(self.players)
        &&& self.client ==> self.token is Some
    }

    /// The monitor in another phase of its round.
    pub open spec fn in_state(self, state: MonitorGameState) -> SceneModel {
        SceneModel { monitor_game_state: state, ..self }
    }

    /// The monitor after the game was ended. Ending an ended game changes nothing.
    pub open spec fn force_ended(self) -> SceneModel {
        if self.monitor_game_state is Ended {
            self
        } else {
            SceneModel {
                players: all_released(self.players),
                render_started: false,
                all_players_ready: false,
                playback_start_time: None,
                monitor_game_state: MonitorGameState::Ended,
                ..self
            }
        }
    }

    /// The monitor after a running game was ended; a game that does not run is left alone. The
    /// music is to be paused if there is any.
    pub open spec fn stopped(self) -> SceneModel {
        if self.monitor_game_state is Playing {
            let ended = self.force_ended();
            SceneModel {
                frame: Frame { pause_music: self.frame.pause_music || self.game_scene, ..self.frame },
                ..ended
            }
        } else {
            self
        }
    }

    /// The monitor after one message, heard at time `t`. Chat and results are entered afterwards.
    pub open spec fn after_message(self, message: Message, t: i64) -> SceneModel {
        match message {
            Message::SelectChart { id, name } => SceneModel {
                selected_chart: Some((id, name)),
                ..self
            }.stopped().in_state(MonitorGameState::Idle),
            Message::StartPlaying => SceneModel {
                start_playing_time: Some(t),
                scores: Map::empty(),
                game_end: false,
                all_players_ready: false,
                render_started: false,
                playback_start_time: None,
                monitor_game_state: MonitorGameState::WaitingReady,
                players: all_reset(self.players),
                ..self
            },
            Message::GameEnd => SceneModel { game_end: true, ..self }.stopped(),
            Message::Abort { player } => SceneModel {
                players: with_abort(self.players, player),
                ..self
            },
            _ => self,
        }
    }

    /// The monitor after messages, heard at time `t`, without their chat and results.
    pub open spec fn after_messages(self, messages: Seq<Message>, t: i64) -> SceneModel
        decreases messages.len(),
    {
        if messages.len() == 0 {
            self
        } else {
            self.after_messages(messages.drop_last(), t).after_message(messages.last(), t)
        }
    }

    /// The monitor after messages, heard at time `t`. Chat and results are entered when all other
    /// messages have had their effect.
    pub open spec fn heard(self, messages: Seq<Message>, t: i64) -> SceneModel {
        let s = self.after_messages(messages, t);
        SceneModel {
            messages: s.messages + chat_lines(messages),
            scores: with_scores(s.scores, messages),
            ..s
        }
    }

    /// The monitor after looking at the task that gets into the room.
    pub open spec fn init_polled(self, init: InitPoll) -> SceneModel {
        match init {
            InitPoll::Done { result } => if self.init_task {
                SceneModel {
                    client: true,
                    selected_chart: result.chart,
                    token: Some(result.token),
                    ..self
                }
            } else {
                self
            },
            _ => self,
        }
    }

    /// The selected chart.
    pub open spec fn selected_id(self) -> Option<i32> {
        match self.selected_chart {
            Some(chart) => Some(chart.0),
            None => None,
        }
    }

    /// The monitor after looking at the task that gets ready. The chart is on disk when the task is
    /// done.
    pub open spec fn ready_polled(self, ready: ReadyPoll) -> SceneModel {
        if !self.get_ready_task {
            self
        } else {
            match ready {
                ReadyPoll::Pending => self,
                ReadyPoll::Failed => SceneModel { get_ready_task: false, ..self },
                ReadyPoll::Done => SceneModel {
                    frame: Frame { launch: self.selected_id(), ..self.frame },
                    ..self
                },
            }
        }
    }

    /// The monitor after the chart has begun to load.
    pub open spec fn launched(self) -> SceneModel {
        SceneModel { scene_task: true, get_ready_task: false, ..self }
    }

    /// The monitor after looking at the chart that is being loaded. While the monitor is idle, a
    /// loaded chart is out of date, and is dropped.
    pub open spec fn scene_polled(self, scene: ScenePoll) -> SceneModel {
        if !self.scene_task {
            self
        } else {
            match scene {
                ScenePoll::Pending => self,
                ScenePoll::Failed => SceneModel { scene_task: false, ..self },
                ScenePoll::Loaded { players } => if self.monitor_game_state is Idle {
                    SceneModel { scene_task: false, ..self }
                } else {
                    SceneModel {
                        scene_task: false,
                        game_scene: true,
                        players: sort_by_name(models(players@)),
                        frame: Frame { loaded: true, ..self.frame },
                        ..self
                    }
                },
            }
        }
    }

    /// The monitor after the server was asked, at time `t`. Without a connection there is nothing
    /// to hear.
    pub open spec fn room_polled(self, news: Option<RoomNews>, t: i64) -> SceneModel {
        match news {
            Some(news) => if self.client {
                let s = self.heard(news.messages@, t);
                SceneModel {
                    frame: Frame {
                        all_ready: all_ready(s.players),
                        wants_ready: news.room_state is WaitingForReady && news.is_ready != Some(
                            true,
                        ),
                        lost: news.ping_fail_count >= LOST_PINGS,
                        ..s.frame
                    },
                    ..s
                }
            } else {
                self
            },
            None => self,
        }
    }

    /// The monitor with playback begun: everybody at time zero.
    pub open spec fn playback_started(self, real_time: i64, now: i64) -> SceneModel {
        SceneModel {
            all_players_ready: true,
            render_started: true,
            playback_start_time: Some(real_time),
            last_global_time: now,
            players: all_rewound(self.players),
            ..self
        }
    }

    /// The monitor after the playback clock was read.
    pub open spec fn ticked(self, now: i64) -> SceneModel {
        SceneModel {
            players: all_ticked(self.players, saturate(now - self.last_global_time), now),
            last_global_time: now,
            ..self
        }
    }

    /// The monitor after a task to get ready was started.
    pub open spec fn getting_ready(self) -> SceneModel {
        SceneModel {
            render_started: false,
            all_players_ready: false,
            playback_start_time: None,
            game_scene: false,
            get_ready_task: true,
            ..self
        }
    }

    /// Whether a round is on: it has begun, and its game has not ended.
    pub open spec fn in_round(self) -> bool {
        self.monitor_game_state is WaitingReady || self.monitor_game_state is Playing
    }

    /// Whether there is outside work to do in a phase.
    pub open spec fn has_work(self, phase: Phase) -> bool {
        match phase {
            Phase::Launch => self.frame.launch is Some,
            Phase::Room => true,
            Phase::Music => self.frame.pause_music,
            Phase::Receive { index } => self.client && index < self.players.len()
                && !self.players[index as int].is_aborted,
            Phase::StartClock => self.client && self.in_round() && !self.all_players_ready
                && !self.render_started && self.game_scene && self.frame.all_ready,
            Phase::Enter => self.frame.entering,
            Phase::Ready => self.client && !self.get_ready_task && self.frame.wants_ready,
            Phase::Connect => self.frame.lost && !self.init_task,
            Phase::Clock => self.render_started && self.all_players_ready,
            Phase::Scene => self.frame.ticked && self.game_scene,
            Phase::Done => true,
        }
    }

    /// The first phase from `phase` on that has work to do.
    pub open spec fn first_work(self, phase: Phase) -> Phase
        decreases phases_left(phase, self.players.len()),
    {
        if self.has_work(phase) {
            phase
        } else {
            self.first_work(phase_after(phase, self.players.len()))
        }
    }

    /// The monitor in the first phase from `phase` on that has work to do.
    pub open spec fn going_on(self, phase: Phase) -> SceneModel {
        SceneModel { frame: Frame { phase: self.first_work(phase), ..self.frame }, ..self }
    }

    /// The outside work of the current phase.
    pub open spec fn action(self) -> UpdateAction {
        match self.frame.phase {
            Phase::Launch => match self.frame.launch {
                Some(id) => UpdateAction::Launch { id },
                None => UpdateAction::Finish,
            },
            Phase::Room => UpdateAction::ReadRoom,
            Phase::Music => UpdateAction::PauseMusic,
            Phase::Receive { index } => if index < self.players.len() {
                UpdateAction::Receive { player: self.players[index as int].id }
            } else {
                UpdateAction::Finish
            },
            Phase::StartClock => UpdateAction::StartClock,
            Phase::Enter => UpdateAction::EnterScene,
            Phase::Ready => UpdateAction::StartGetReady,
            Phase::Connect => UpdateAction::Reconnect,
            Phase::Clock => UpdateAction::ReadClock,
            Phase::Scene => UpdateAction::UpdateScene,
            Phase::Done => UpdateAction::Finish,
        }
    }

    /// Whether the event answers the work of the current phase. A frame can begin at any time.
    pub open spec fn awaits(self, event: UpdateEvent) -> bool {
        match (self.frame.phase, event) {
            (_, UpdateEvent::Begin { .. }) => true,
            (Phase::Launch, UpdateEvent::Launched { .. }) => true,
            (Phase::Room, UpdateEvent::RoomRead { .. }) => true,
            (Phase::Music, UpdateEvent::MusicPaused) => true,
            (Phase::Receive { index }, UpdateEvent::Received { .. }) => index < self.players.len(),
            (Phase::StartClock, UpdateEvent::ClockStarted { .. }) => true,
            (Phase::Enter, UpdateEvent::SceneEntered { .. }) => true,
            (Phase::Ready, UpdateEvent::GetReadyStarted) => true,
            (Phase::Connect, UpdateEvent::Reconnecting) => true,
            (Phase::Clock, UpdateEvent::ClockRead { .. }) => true,
            (Phase::Scene, UpdateEvent::SceneUpdated) => true,
            _ => false,
        }
    }

    /// Whether the event can be taken over: a chart that is on disk is a selected one.
    pub open spec fn admits(self, event: UpdateEvent) -> bool {
        match event {
            UpdateEvent::Begin { init, ready } => self.get_ready_task && ready is Done
                ==> self.init_polled(init).selected_chart is Some,
            _ => true,
        }
    }

    /// The monitor after an event that it awaits, still in the phase of the event.
    pub open spec fn taken(self, event: UpdateEvent) -> SceneModel {
        match event {
            UpdateEvent::Begin { init, ready } => SceneModel {
                frame: fresh_frame(Phase::Launch),
                ..self
            }.init_polled(init).ready_polled(ready),
            UpdateEvent::Launched { ok } => if ok {
                self.launched()
            } else {
                self
            },
            UpdateEvent::RoomRead { t, scene, news } => self.scene_polled(scene).room_polled(
                news,
                t,
            ),
            UpdateEvent::Received { live } => {
                let index = self.frame.phase->index as int;
                SceneModel {
                    players: self.players.update(
                        index,
                        self.players[index].received(
                            frames(live.touch_frames@),
                            live.judge_events@,
                        ),
                    ),
                    ..self
                }
            },
            UpdateEvent::ClockStarted { real_time, now } => {
                let s = self.playback_started(real_time, now);
                SceneModel { frame: Frame { entering: true, ..s.frame }, ..s }
            },
            UpdateEvent::SceneEntered { ok } => if ok {
                self.in_state(MonitorGameState::Playing)
            } else {
                self
            },
            UpdateEvent::ClockRead { now } => {
                let s = self.ticked(now);
                SceneModel { frame: Frame { ticked: true, ..s.frame }, ..s }
            },
            _ => self,
        }
    }

    /// The phase from which the frame goes on after an event that the monitor awaits. A chart that
    /// could not be loaded ends the frame.
    pub open spec fn phase_from(self, event: UpdateEvent) -> Phase {
        match event {
            UpdateEvent::Begin { .. } => Phase::Launch,
            UpdateEvent::Launched { ok: false } => Phase::Done,
            _ => phase_after(self.frame.phase, self.players.len()),
        }
    }

    /// The monitor after an event. One that answers no work of the current phase changes nothing.
    pub open spec fn updated(self, event: UpdateEvent) -> SceneModel {
        if self.awaits(event) {
            let s = self.taken(event);
            s.going_on(s.phase_from(event))
        } else {
            self
        }
    }

    /// What the monitor shows at `now` while the room is in this state; `rows` are the results of the
    /// last round, in order.
    pub open spec fn screen(
        self,
        room_state: RoomState,
        now: i64,
        rows: Seq<(Seq<char>, Score)>,
    ) -> ScreenModel {
        if !self.client {
            ScreenModel::Loading
        } else if room_state is SelectChart {
            ScreenModel::Selecting {
                chart: match self.selected_chart {
                    Some(chart) => Some(chart_title(chart.0, chart.1@)),
                    None => None,
                },
                results: rows,
            }
        } else {
            match self.monitor_game_state {
                MonitorGameState::Idle => ScreenModel::Idle,
                MonitorGameState::WaitingReady => lobby(self.players),
                MonitorGameState::Playing => board(self.players, now, self.monitor_game_state),
                MonitorGameState::Ended => if room_state is Playing {
                    board(self.players, now, self.monitor_game_state)
                } else {
                    ScreenModel::Over
                },
            }
        }
    }
}

impl UpdateEvent {
    /// Whether the values of the event are such as outside work gives.
    pub open spec fn wf(self) -> bool {
        match self {
            UpdateEvent::RoomRead { scene, news, .. } => {
                &&& scene matches ScenePoll::Loaded { players } ==> all_wf(models(players@))
                &&& news matches Some(news) ==> forall|i: int|
                    0 <= i < news.messages@.len() ==> (#[trigger] news.messages@[i]).wf()
            },
            _ => true,
        }
    }
}

/// Inserting a player keeps a list well-formed.
proof fn lemma_insert_wf(sorted: Seq<PlayerModel>, player: PlayerModel)
    requires
        all_wf(sorted),
        player.wf(),
    ensures
        all_wf(insert_by_name(sorted, player)),
    decreases sorted.len(),
{
    if sorted.len() > 0 && before(sorted[0].name, player.name) {
        lemma_insert_wf(sorted.skip(1), player);
    }
}

/// Sorting keeps a list well-formed.
proof fn lemma_sort_wf(players: Seq<PlayerModel>)
    requires
        all_wf(players),
    ensures
        all_wf(sort_by_name(players)),
    decreases players.len(),
{
    if players.len() > 0 {
        lemma_sort_wf(players.skip(1));
        lemma_insert_wf(sort_by_name(players.skip(1)), players[0]);
    }
}

/// One message keeps the monitor well-formed.
proof fn lemma_after_message_wf(scene: SceneModel, message: Message, t: i64)
    requires
        scene.wf(),
    ensures
        scene.after_message(message, t).wf(),
{
}

/// Messages keep the monitor well-formed.
proof fn lemma_after_messages_wf(scene: SceneModel, messages: Seq<Message>, t: i64)
    requires
        scene.wf(),
    ensures
        scene.after_messages(messages, t).wf(),
    decreases messages.len(),
{
    if messages.len() > 0 {
        lemma_after_messages_wf(scene, messages.drop_last(), t);
        lemma_after_message_wf(
            scene.after_messages(messages.drop_last(), t),
            messages.last(),
            t,
        );
    }
}

/// Every event keeps the monitor well-formed.
pub proof fn law_events_keep_wf(scene: SceneModel, event: UpdateEvent)
    requires
        scene.wf(),
        event.wf(),
    ensures
        scene.updated(event).wf(),
{
    if scene.awaits(event) {
        match event {
            UpdateEvent::RoomRead { t, scene: poll, news } => {
                if let ScenePoll::Loaded { players } = poll {
                    lemma_sort_wf(models(players@));
                }
                let loaded = scene.scene_polled(poll);
                assert(loaded.wf());
                if let Some(news) = news {
                    lemma_after_messages_wf(loaded, news.messages@, t);
                }
            },
            _ => {},
        }
        assert(scene.taken(event).wf());
    }
}

impl MainScene {
    /// Whether the monitor is well-formed.
    pub open spec fn wf(&self) -> bool {
        self@.wf() && self.scores.wf()
    }

    /// A monitor, with the task that gets it into the room. In a replay the password is the token.
    pub fn new(config: Config, replay: bool) -> (r: (Self, InitTask))
        ensures
            r.0.wf(),
            r.0@ == (SceneModel {
                config,
                client: false,
                token: None,
                init_task: true,
                messages: Seq::empty(),
                scene_task: false,
                selected_chart: None,
                get_ready_task: false,
                game_scene: false,
                render_started: false,
                all_players_ready: false,
                playback_start_time: None,
                players: Seq::empty(),
                start_playing_time: None,
                scores: Map::empty(),
                game_end: false,
                last_global_time: 0,
                monitor_game_state: MonitorGameState::Idle,
                frame: fresh_frame(Phase::Done),
            }),
            r.1.wf(),
            r.1 == (InitTask {
                config,
                token: if replay {
                    Some(config.password)
                } else {
                    None
                },
                stage: if replay {
                    InitStage::Connect
                } else {
                    InitStage::Login
                },
            }),
    {
        let token: Option<String> = config.initial_token(replay);
        let task: InitTask = create_init_task(config.duplicate(), token);
        let scene = MainScene {
            config,
            client: false,
            token: None,
            init_task: true,
            messages: Vec::new(),
            scene_task: false,
            selected_chart: None,
            get_ready_task: false,
            game_scene: false,
            render_started: false,
            all_players_ready: false,
            playback_start_time: None,
            players: Vec::new(),
            start_playing_time: None,
            scores: ScoreBoard::new(),
            game_end: false,
            last_global_time: 0,
            monitor_game_state: MonitorGameState::Idle,
            frame: new_frame(Phase::Done),
        };
        assert(scene@.players =~= Seq::empty());
        assert(scene@.messages =~= Seq::empty());
        (scene, task)
    }

    /// Moves the monitor to another phase of its round.
    pub fn transition_state(&mut self, new_state: MonitorGameState)
        ensures
            final(self)@ == old(self)@.in_state(new_state),
            old(self).wf() ==> final(self).wf(),
    {
        if self.monitor_game_state != new_state {
            self.monitor_game_state = new_state;
        }
    }

    /// Whether somebody plays, and everybody who plays has sent a judge.
    pub fn check_all_players_ready(&self) -> (r: bool)
        ensures
            r == all_ready(self@.players),
    {
        players_ready(&self.players)
    }

    /// Ends the game. Returns whether there is music to pause.
    pub fn force_end_game(&mut self) -> (r: bool)
        ensures
            final(self)@ == old(self)@.force_ended(),
            r == (!(old(self)@.monitor_game_state is Ended) && old(self)@.game_scene),
            old(self).wf() ==> final(self).wf(),
    {
        if self.monitor_game_state == MonitorGameState::Ended {
            return false;
        }
        release_all(&mut self.players);
        self.render_started = false;
        self.all_players_ready = false;
        self.playback_start_time = None;
        self.transition_state(MonitorGameState::Ended);
        self.game_scene
    }

    /// Ends the game if it runs, and remembers to pause the music.
    fn stop(&mut self)
        ensures
            final(self)@ == old(self)@.stopped(),
            old(self).wf() ==> final(self).wf(),
    {
        if self.monitor_game_state == MonitorGameState::Playing {
            let music = self.force_end_game();
            if music {
                self.frame.pause_music = true;
            }
        }
    }

    /// Begins a round at time `t`.
    fn start_round(&mut self, t: i64)
        ensures
            final(self)@ == old(self)@.after_message(Message::StartPlaying, t),
            old(self).wf() ==> final(self).wf(),
    {
        self.start_playing_time = Some(t);
        self.scores.clear();
        self.game_end = false;
        self.all_players_ready = false;
        self.render_started = false;
        self.playback_start_time = None;
        self.transition_state(MonitorGameState::WaitingReady);
        reset_all(&mut self.players);
    }

    /// Lets a player leave the round. A player whom nobody knows is ignored.
    fn abort_player(&mut self, player: i32)
        ensures
            final(self)@ == old(self)@.after_message(Message::Abort { player }, 0),
            old(self).wf() ==> final(self).wf(),
    {
        let ghost before = self.players@;
        match find_player(&self.players, player) {
            Some(i) => {
                self.players[i].abort();
                assert(models(self.players@) =~= with_abort(models(before), player));
                proof {
                    if old(self).wf() {
                        assert(models(before)[i as int].wf());
                        assert forall|k: int|
                            0 <= k < self.players@.len() implies (#[trigger] models(
                            self.players@,
                        )[k]).wf() by {
                            assert(models(before)[k].wf());
                        }
                    }
                }
            },
            None => {},
        }
    }

    /// Starts playback at time zero for everybody. The clock was restarted at `real_time`, and
    /// shows `now`.
    pub fn start_playback(&mut self, real_time: i64, now: i64)
        ensures
            final(self)@ == old(self)@.playback_started(real_time, now),
            old(self).wf() ==> final(self).wf(),
    {
        self.all_players_ready = true;
        self.render_started = true;
        self.playback_start_time = Some(real_time);
        self.last_global_time = now;
        rewind_all(&mut self.players);
    }

    /// Moves all players' clocks on to `now`.
    pub fn tick(&mut self, now: i64)
        ensures
            final(self)@ == old(self)@.ticked(now),
            old(self).wf() ==> final(self).wf(),
    {
        let delta: i64 = sub_time(now, self.last_global_time);
        self.last_global_time = now;
        tick_all(&mut self.players, delta, now);
    }

    /// Starts to get ready for the selected chart; returns the task that does it.
    pub fn start_get_ready(&mut self) -> (r: ReadyTask)
        requires
            old(self)@.selected_chart is Some,
            old(self)@.token is Some,
        ensures
            final(self)@ == old(self)@.getting_ready(),
            r == (ReadyTask {
                id: (old(self)@.selected_chart->0).0,
                token: old(self)@.token->0,
                stage: ReadyStage::Fetch,
            }),
            old(self).wf() ==> final(self).wf(),
    {
        self.render_started = false;
        self.all_players_ready = false;
        self.playback_start_time = None;
        self.game_scene = false;
        self.get_ready_task = true;
        let id: i32 = match &self.selected_chart {
            Some(chart) => chart.0,
            None => 0,
        };
        let token: String = match &self.token {
            Some(token) => token.clone(),
            None => String::new(),
        };
        ReadyTask::new(id, token)
    }

    /// Starts to connect again; returns the task that does it. The token in use spares the login.
    pub fn reconnect(&mut self) -> (r: InitTask)
        ensures
            final(self)@ == (SceneModel { init_task: true, ..old(self)@ }),
            r.wf(),
            r == (InitTask {
                config: old(self)@.config,
                token: old(self)@.token,
                stage: if old(self)@.token is Some {
                    InitStage::Connect
                } else {
                    InitStage::Login
                },
            }),
            old(self).wf() ==> final(self).wf(),
    {
        self.init_task = true;
        let token: Option<String> = match &self.token {
            Some(token) => Some(token.clone()),
            None => None,
        };
        create_init_task(self.config.duplicate(), token)
    }

    /// Takes over one message, heard at time `t`, but for chat and results.
    fn take_message(&mut self, message: &Message, t: i64)
        ensures
            final(self)@ == old(self)@.after_message(*message, t),
            old(self).wf() ==> final(self).wf(),
    {
        match message {
            Message::SelectChart { id, name } => {
                self.selected_chart = Some((*id, name.clone()));
                self.stop();
                self.transition_state(MonitorGameState::Idle);
            },
            Message::StartPlaying => {
                self.start_round(t);
            },
            Message::GameEnd => {
                self.game_end = true;
                self.stop();
            },
            Message::Abort { player } => {
                self.abort_player(*player);
            },
            _ => {},
        }
    }

    /// Takes over messages, heard at time `t`.
    fn hear(&mut self, messages: &Vec<Message>, t: i64)
        requires
            old(self).wf(),
            forall|i: int| 0 <= i < messages@.len() ==> (#[trigger] messages@[i]).wf(),
        ensures
            final(self)@ == old(self)@.heard(messages@, t),
            final(self).wf(),
    {
        let count: usize = messages.len();
        for i in 0..count
            invariant
                count == messages@.len(),
                self.wf(),
                self@ == old(self)@.after_messages(messages@.take(i as int), t),
        {
            assert(messages@.take(i + 1).drop_last() =~= messages@.take(i as int));
            self.take_message(&messages[i], t);
        }
        assert(messages@.take(messages@.len() as int) =~= messages@);
        let ghost s = self@;
        assert(s.messages + chat_lines(messages@.take(0)) =~= s.messages);
        for i in 0..count
            invariant
                count == messages@.len(),
                self.wf(),
                forall|k: int| 0 <= k < messages@.len() ==> (#[trigger] messages@[k]).wf(),
                self@ == (SceneModel {
                    messages: s.messages + chat_lines(messages@.take(i as int)),
                    scores: with_scores(s.scores, messages@.take(i as int)),
                    ..s
                }),
        {
            assert(messages@.take(i + 1).drop_last() =~= messages@.take(i as int));
            assert(messages@[i as int].wf());
            let ghost was = self@;
            match &messages[i] {
                Message::Chat { user, content, at } => {
                    let line: String = chat_line(
                        at.hour,
                        at.minute,
                        at.second,
                        user.as_str(),
                        content.as_str(),
                    );
                    self.messages.push(line);
                    assert(self@.messages =~= was.messages.push(line@));
                    assert(self@.messages =~= s.messages + chat_lines(messages@.take(i + 1)));
                },
                Message::Played { user, score, accuracy, full_combo } => {
                    self.scores.insert(
                        user.clone(),
                        Score {
                            score: read_score(*score),
                            accuracy: *accuracy,
                            full_combo: *full_combo,
                        },
                    );
                },
                _ => {},
            }
        }
    }

    /// Takes over what has come of the task that gets into the room.
    fn poll_init(&mut self, init: InitPoll)
        ensures
            final(self)@ == old(self)@.init_polled(init),
            old(self).wf() ==> final(self).wf(),
    {
        match init {
            InitPoll::Done { result } => {
                if self.init_task {
                    self.client = true;
                    self.selected_chart = result.chart;
                    self.token = Some(result.token);
                }
            },
            _ => {},
        }
    }

    /// Takes over what has come of the task that gets ready.
    fn poll_ready(&mut self, ready: ReadyPoll)
        ensures
            final(self)@ == old(self)@.ready_polled(ready),
            old(self).wf() ==> final(self).wf(),
    {
        if self.get_ready_task {
            match ready {
                ReadyPoll::Pending => {},
                ReadyPoll::Failed => {
                    self.get_ready_task = false;
                },
                ReadyPoll::Done => {
                    self.frame.launch = match &self.selected_chart {
                        Some(chart) => Some(chart.0),
                        None => None,
                    };
                },
            }
        }
    }

    /// Takes over what has come of loading the chart.
    fn poll_scene(&mut self, scene: ScenePoll)
        requires
            scene matches ScenePoll::Loaded { players } ==> all_wf(models(players@)),
        ensures
            final(self)@ == old(self)@.scene_polled(scene),
            old(self).wf() ==> final(self).wf(),
    {
        if self.scene_task {
            match scene {
                ScenePoll::Pending => {},
                ScenePoll::Failed => {
                    self.scene_task = false;
                },
                ScenePoll::Loaded { players } => {
                    if self.monitor_game_state != MonitorGameState::Idle {
                        self.game_scene = true;
                        proof {
                            lemma_sort_wf(models(players@));
                        }
                        self.players = sort_players(players);
                        self.frame.loaded = true;
                    }
                    self.scene_task = false;
                },
            }
        }
    }

    /// Takes over what the server says, at time `t`.
    fn poll_room(&mut self, news: Option<RoomNews>, t: i64)
        requires
            old(self).wf(),
            news matches Some(news) ==> forall|i: int|
                0 <= i < news.messages@.len() ==> (#[trigger] news.messages@[i]).wf(),
        ensures
            final(self)@ == old(self)@.room_polled(news, t),
            final(self).wf(),
    {
        if let Some(news) = news {
            if self.client {
                self.hear(&news.messages, t);
                let waiting = match news.room_state {
                    RoomState::WaitingForReady => true,
                    _ => false,
                };
                let is_ready = match news.is_ready {
                    Some(is_ready) => is_ready,
                    None => false,
                };
                let mut frame: Frame = self.frame;
                frame.all_ready = self.check_all_players_ready();
                frame.wants_ready = waiting && !is_ready;
                frame.lost = news.ping_fail_count >= LOST_PINGS;
                self.set_frame(frame);
            }
        }
    }

    /// Whether a round is on.
    fn in_round(&self) -> (r: bool)
        ensures
            r == self@.in_round(),
    {
        match self.monitor_game_state {
            MonitorGameState::WaitingReady | MonitorGameState::Playing => true,
            MonitorGameState::Idle | MonitorGameState::Ended => false,
        }
    }

    /// Whether there is outside work to do in a phase.
    fn has_work(&self, phase: Phase) -> (r: bool)
        ensures
            r == self@.has_work(phase),
    {
        match phase {
            Phase::Launch => self.frame.launch.is_some(),
            Phase::Room => true,
            Phase::Music => self.frame.pause_music,
            Phase::Receive { index } => self.client && index < self.players.len()
                && !self.players[index].is_aborted,
            Phase::StartClock => self.client && self.in_round() && !self.all_players_ready
                && !self.render_started && self.game_scene && self.frame.all_ready,
            Phase::Enter => self.frame.entering,
            Phase::Ready => self.client && !self.get_ready_task && self.frame.wants_ready,
            Phase::Connect => self.frame.lost && !self.init_task,
            Phase::Clock => self.render_started && self.all_players_ready,
            Phase::Scene => self.frame.ticked && self.game_scene,
            Phase::Done => true,
        }
    }

    /// The phase behind `phase`.
    fn phase_after(&self, phase: Phase) -> (r: Phase)
        ensures
            r == phase_after(phase, self@.players.len()),
    {
        match phase {
            Phase::Launch => Phase::Room,
            Phase::Room => Phase::Music,
            Phase::Music => Phase::Receive { index: 0 },
            Phase::Receive { index } => if index < usize::MAX && index + 1 < self.players.len() {
                Phase::Receive { index: index + 1 }
            } else {
                Phase::StartClock
            },
            Phase::StartClock => Phase::Enter,
            Phase::Enter => Phase::Ready,
            Phase::Ready => Phase::Connect,
            Phase::Connect => Phase::Clock,
            Phase::Clock => Phase::Scene,
            Phase::Scene => Phase::Done,
            Phase::Done => Phase::Done,
        }
    }

    /// Replaces what the frame has decided.
    fn set_frame(&mut self, frame: Frame)
        ensures
            final(self)@ == (SceneModel { frame, ..old(self)@ }),
            old(self).wf() ==> final(self).wf(),
    {
        self.frame = frame;
    }

    /// The first phase from `phase` on that has work to do.
    fn first_work(&self, phase: Phase) -> (r: Phase)
        ensures
            r == self@.first_work(phase),
    {
        let mut next: Phase = phase;
        while !self.has_work(next)
            invariant
                self@.first_work(next) == self@.first_work(phase),
            decreases phases_left(next, self@.players.len()),
        {
            next = self.phase_after(next);
        }
        next
    }

    /// Goes to the first phase from `phase` on that has work to do.
    fn go_on(&mut self, phase: Phase)
        ensures
            final(self)@ == old(self)@.going_on(phase),
            old(self).wf() ==> final(self).wf(),
    {
        let next: Phase = self.first_work(phase);
        let mut frame: Frame = self.frame;
        frame.phase = next;
        self.set_frame(frame);
    }

    /// The outside work of the current phase.
    pub fn action(&self) -> (r: UpdateAction)
        ensures
            r == self@.action(),
    {
        match self.frame.phase {
            Phase::Launch => match self.frame.launch {
                Some(id) => UpdateAction::Launch { id },
                None => UpdateAction::Finish,
            },
            Phase::Room => UpdateAction::ReadRoom,
            Phase::Music => UpdateAction::PauseMusic,
            Phase::Receive { index } => if index < self.players.len() {
                UpdateAction::Receive { player: self.players[index].id }
            } else {
                UpdateAction::Finish
            },
            Phase::StartClock => UpdateAction::StartClock,
            Phase::Enter => UpdateAction::EnterScene,
            Phase::Ready => UpdateAction::StartGetReady,
            Phase::Connect => UpdateAction::Reconnect,
            Phase::Clock => UpdateAction::ReadClock,
            Phase::Scene => UpdateAction::UpdateScene,
            Phase::Done => UpdateAction::Finish,
        }
    }

    /// Begins a frame.
    fn begin(&mut self, init: InitPoll, ready: ReadyPoll)
        ensures
            final(self)@ == old(self)@.taken(UpdateEvent::Begin { init, ready }),
            old(self).wf() ==> final(self).wf(),
    {
        self.set_frame(new_frame(Phase::Launch));
        self.poll_init(init);
        self.poll_ready(ready);
    }

    /// Takes over that the chart has begun to load, or could not be.
    fn take_launch(&mut self, ok: bool)
        ensures
            final(self)@ == old(self)@.taken(UpdateEvent::Launched { ok }),
            old(self).wf() ==> final(self).wf(),
    {
        if ok {
            self.scene_task = true;
            self.get_ready_task = false;
        }
    }

    /// Takes over what has come of loading the chart, and what the server says.
    fn take_room(&mut self, t: i64, scene: ScenePoll, news: Option<RoomNews>)
        requires
            old(self).wf(),
            (UpdateEvent::RoomRead { t, scene, news }).wf(),
        ensures
            final(self)@ == old(self)@.taken(UpdateEvent::RoomRead { t, scene, news }),
            final(self).wf(),
    {
        self.poll_scene(scene);
        self.poll_room(news, t);
    }

    /// Takes over what has arrived from a player's game.
    fn take_data(&mut self, index: usize, live: LivePlayer)
        requires
            old(self).wf(),
            old(self).frame.phase == (Phase::Receive { index }),
            index < old(self).players@.len(),
        ensures
            final(self)@ == old(self)@.taken(UpdateEvent::Received { live }),
            final(self).wf(),
    {
        let ghost before = models(self.players@);
        let ghost touch_frames = frames(live.touch_frames@);
        let ghost judge_events = live.judge_events@;
        let mut live = live;
        self.players[index].update(&mut live);
        proof {
            let after = models(self.players@);
            assert(before[index as int].wf());
            assert(after =~= before.update(
                index as int,
                before[index as int].received(touch_frames, judge_events),
            ));
            assert forall|k: int| 0 <= k < after.len() implies (#[trigger] after[k]).wf() by {
                assert(before[k].wf());
            }
        }
    }

    /// Starts playback, and remembers to enter the game scene.
    fn take_start(&mut self, real_time: i64, now: i64)
        ensures
            final(self)@ == old(self)@.taken(UpdateEvent::ClockStarted { real_time, now }),
            old(self).wf() ==> final(self).wf(),
    {
        self.start_playback(real_time, now);
        let mut frame: Frame = self.frame;
        frame.entering = true;
        self.set_frame(frame);
    }

    /// Moves the clocks on, and remembers to update the game scene.
    fn take_clock(&mut self, now: i64)
        ensures
            final(self)@ == old(self)@.taken(UpdateEvent::ClockRead { now }),
            old(self).wf() ==> final(self).wf(),
    {
        self.tick(now);
        let mut frame: Frame = self.frame;
        frame.ticked = true;
        self.set_frame(frame);
    }

    /// Takes over an event, if it answers the work of the current phase. Returns the phase from
    /// which the frame goes on.
    #[verifier::spinoff_prover]
    fn take(&mut self, event: UpdateEvent) -> (r: Option<Phase>)
        requires
            old(self).wf(),
            event.wf(),
        ensures
            r is Some == old(self)@.awaits(event),
            r is Some ==> final(self)@ == old(self)@.taken(event) && r->0
                == final(self)@.phase_from(event),
            r is None ==> *final(self) == *old(self),
            final(self).wf(),
    {
        let phase: Phase = self.frame.phase;
        match (phase, event) {
            (_, UpdateEvent::Begin { init, ready }) => {
                self.begin(init, ready);
                Some(Phase::Launch)
            },
            (Phase::Launch, UpdateEvent::Launched { ok }) => {
                self.take_launch(ok);
                if ok {
                    Some(Phase::Room)
                } else {
                    Some(Phase::Done)
                }
            },
            (Phase::Room, UpdateEvent::RoomRead { t, scene, news }) => {
                self.take_room(t, scene, news);
                Some(self.phase_after(self.frame.phase))
            },
            (Phase::Receive { index }, UpdateEvent::Received { live }) => {
                if index < self.players.len() {
                    self.take_data(index, live);
                    Some(self.phase_after(self.frame.phase))
                } else {
                    None
                }
            },
            (Phase::StartClock, UpdateEvent::ClockStarted { real_time, now }) => {
                self.take_start(real_time, now);
                Some(self.phase_after(self.frame.phase))
            },
            (Phase::Enter, UpdateEvent::SceneEntered { ok }) => {
                if ok {
                    self.transition_state(MonitorGameState::Playing);
                }
                Some(self.phase_after(self.frame.phase))
            },
            (Phase::Clock, UpdateEvent::ClockRead { now }) => {
                self.take_clock(now);
                Some(self.phase_after(self.frame.phase))
            },
            (Phase::Music, UpdateEvent::MusicPaused) => Some(self.phase_after(phase)),
            (Phase::Ready, UpdateEvent::GetReadyStarted) => Some(self.phase_after(phase)),
            (Phase::Connect, UpdateEvent::Reconnecting) => Some(self.phase_after(phase)),
            (Phase::Scene, UpdateEvent::SceneUpdated) => Some(self.phase_after(phase)),
            _ => None,
        }
    }

    /// Whether a frame can begin with this news of the two tasks: a chart that is on disk is a
    /// selected one.
    pub fn can_begin(&self, init: &InitPoll, ready: ReadyPoll) -> (r: bool)
        ensures
            r == self@.admits(UpdateEvent::Begin { init: *init, ready }),
    {
        if !self.get_ready_task || ready != ReadyPoll::Done {
            return true;
        }
        match init {
            InitPoll::Done { result } if self.init_task => result.chart.is_some(),
            _ => self.selected_chart.is_some(),
        }
    }

    /// Takes over what came of the outside work, and says what to do next. One frame begins with
    /// [`UpdateEvent::Begin`] and is over at [`UpdateAction::Finish`].
    pub fn update(&mut self, event: UpdateEvent) -> (r: UpdateAction)
        requires
            old(self).wf(),
            event.wf(),
            old(self)@.admits(event),
        ensures
            final(self)@ == old(self)@.updated(event),
            r == final(self)@.action(),
            final(self).wf(),
    {
        match self.take(event) {
            Some(phase) => {
                self.go_on(phase);
            },
            None => {},
        }
        self.action()
    }

    /// What the monitor shows at `now` while the room is in this state. Selecting a chart lets go of
    /// the one that is loaded.
    pub fn render(&mut self, room_state: RoomState, now: i64) -> (r: Screen)
        ensures
            r@ == old(self)@.screen(room_state, now, old(self).scores.rows()),
            final(self)@ == (SceneModel {
                game_scene: old(self)@.game_scene && !(r is Selecting),
                ..old(self)@
            }),
            final(self).scores == old(self).scores,
            old(self).wf() ==> final(self).wf(),
            old(self).wf() ==> (r matches Screen::Selecting { results, .. } ==> results.wf()),
    {
        if !self.client {
            return Screen::Loading;
        }
        match room_state {
            RoomState::SelectChart(_) => {
                self.game_scene = false;
                let chart: Option<String> = match &self.selected_chart {
                    Some(chart) => Some(chart_label(chart.0, chart.1.as_str())),
                    None => None,
                };
                Screen::Selecting { chart, results: self.scores.duplicate() }
            },
            _ => match self.monitor_game_state {
                MonitorGameState::Idle => Screen::Idle,
                MonitorGameState::WaitingReady => show_lobby(&self.players),
                MonitorGameState::Playing => show_board(
                    &self.players,
                    now,
                    self.monitor_game_state,
                ),
                MonitorGameState::Ended => match room_state {
                    RoomState::Playing => show_board(&self.players, now, self.monitor_game_state),
                    _ => Screen::Over,
                },
            },
        }
    }

    /// Whether a touch on the monitor's own screen is swallowed: only while there is no connection.
    pub fn touch(&self) -> (r: bool)
        ensures
            r == !self.client,
    {
        !self.client
    }
}

/// A frame that has decided nothing yet.
fn new_frame(phase: Phase) -> (r: Frame)
    ensures
        r == fresh_frame(phase),
{
    Frame {
        phase,
        launch: None,
        loaded: false,
        pause_music: false,
        all_ready: false,
        wants_ready: false,
        lost: false,
        entering: false,
        ticked: false,
    }
}

} // verus!
