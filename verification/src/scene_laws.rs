//! Laws of rounds and frames.
use crate::layout::law_places_are_distinct;
use crate::player::{Overlay, PlayerModel};
use crate::room::{unsigned_score, with_scores, Message, RoomNews, RoomState};
use crate::roster::{all_ready, index_of};
use crate::scene::{
    fresh_frame, phase_after, phases_left, Phase, SceneModel, ScenePoll, UpdateEvent,
};
use crate::scores::Score;
use crate::state::MonitorGameState;
use vstd::prelude::*;

verus! {

/// Ending a game twice is ending it once.
pub proof fn law_force_end_is_idempotent(scene: SceneModel)
    ensures
        scene.force_ended().force_ended() == scene.force_ended(),
{
}

/// Whether playback is off.
pub open spec fn playback_off(scene: SceneModel) -> bool {
    &&& !scene.render_started
    &&& !scene.all_players_ready
    &&& scene.playback_start_time is None
}

/// Whether nobody is paused, nobody is resuming, and playback is off.
pub open spec fn at_rest(scene: SceneModel) -> bool {
    &&& playback_off(scene)
    &&& forall|i: int|
        0 <= i < scene.players.len() ==> !(#[trigger] scene.players[i]).is_paused
            && !scene.players[i].is_resuming
}

/// The message that a chart was selected, heard in the middle of a game, ends the game at once; and
/// it always leaves the monitor idle.
pub proof fn law_selecting_ends_the_game(scene: SceneModel, id: i32, name: String, t: i64)
    ensures
        ({
            let after = scene.after_message(Message::SelectChart { id, name }, t);
            &&& after.monitor_game_state is Idle
            &&& after.selected_chart == Some((id, name))
            &&& scene.monitor_game_state is Playing ==> at_rest(after)
            &&& scene.monitor_game_state is Playing && scene.game_scene
                ==> after.frame.pause_music
        }),
{
}

/// The message that the game has ended reaches a running game and no other.
pub proof fn law_game_end_ends_a_running_game(scene: SceneModel, t: i64)
    ensures
        ({
            let after = scene.after_message(Message::GameEnd, t);
            &&& after.game_end
            &&& scene.monitor_game_state is Playing ==> after.monitor_game_state is Ended
                && at_rest(after)
            &&& !(scene.monitor_game_state is Playing) ==> after == (SceneModel {
                game_end: true,
                ..scene
            })
        }),
{
}

/// The messages that an event brings.
pub open spec fn messages_of(event: UpdateEvent) -> Seq<Message> {
    match event {
        UpdateEvent::RoomRead { news: Some(news), .. } => news.messages@,
        _ => Seq::empty(),
    }
}

/// Whether one of the messages begins a round.
pub open spec fn begins_round(messages: Seq<Message>) -> bool {
    exists|i: int| 0 <= i < messages.len() && (#[trigger] messages[i]) is StartPlaying
}

/// Whether one of the messages selects a chart.
pub open spec fn selects_chart(messages: Seq<Message>) -> bool {
    exists|i: int| 0 <= i < messages.len() && (#[trigger] messages[i]) is SelectChart
}

/// Whether one of the messages ends the game.
pub open spec fn ends_game(messages: Seq<Message>) -> bool {
    exists|i: int| 0 <= i < messages.len() && (#[trigger] messages[i]) is GameEnd
}

pub proof fn lemma_last_message(messages: Seq<Message>)
    requires
        messages.len() > 0,
    ensures
        begins_round(messages) == (begins_round(messages.drop_last())
            || messages.last() is StartPlaying),
        selects_chart(messages) == (selects_chart(messages.drop_last())
            || messages.last() is SelectChart),
        ends_game(messages) == (ends_game(messages.drop_last()) || messages.last() is GameEnd),
{
    let front = messages.drop_last();
    assert(forall|i: int| 0 <= i < front.len() ==> #[trigger] front[i] == messages[i]);
    assert(messages.last() == messages[messages.len() - 1]);
    if begins_round(front) {
        let i = choose|i: int| 0 <= i < front.len() && (#[trigger] front[i]) is StartPlaying;
        assert(messages[i] is StartPlaying);
    }
    if selects_chart(front) {
        let i = choose|i: int| 0 <= i < front.len() && (#[trigger] front[i]) is SelectChart;
        assert(messages[i] is SelectChart);
    }
    if ends_game(front) {
        let i = choose|i: int| 0 <= i < front.len() && (#[trigger] front[i]) is GameEnd;
        assert(messages[i] is GameEnd);
    }
    if begins_round(messages) {
        let i = choose|i: int| 0 <= i < messages.len() && (#[trigger] messages[i]) is StartPlaying;
        assert(i < front.len() ==> front[i] is StartPlaying);
    }
    if selects_chart(messages) {
        let i = choose|i: int| 0 <= i < messages.len() && (#[trigger] messages[i]) is SelectChart;
        assert(i < front.len() ==> front[i] is SelectChart);
    }
    if ends_game(messages) {
        let i = choose|i: int| 0 <= i < messages.len() && (#[trigger] messages[i]) is GameEnd;
        assert(i < front.len() ==> front[i] is GameEnd);
    }
}

/// What messages that begin no round do outside the time in which the monitor waits for judges.
proof fn lemma_messages_without_round(scene: SceneModel, messages: Seq<Message>, t: i64)
    requires
        !(scene.monitor_game_state is WaitingReady),
        !begins_round(messages),
    ensures
        ({
            let after = scene.after_messages(messages, t);
            let stops = scene.monitor_game_state is Playing && (selects_chart(messages)
                || ends_game(messages));
            &&& after.monitor_game_state == if selects_chart(messages) {
                MonitorGameState::Idle
            } else if stops {
                MonitorGameState::Ended
            } else {
                scene.monitor_game_state
            }
            &&& playback_off(scene) || stops ==> playback_off(after)
            &&& after.game_end == (scene.game_end || ends_game(messages))
            &&& after.game_scene == scene.game_scene
            &&& scene.frame.pause_music || (stops && scene.game_scene) ==> after.frame.pause_music
        }),
    decreases messages.len(),
{
    if messages.len() > 0 {
        lemma_last_message(messages);
        lemma_messages_without_round(scene, messages.drop_last(), t);
    }
}

/// The monitor after events, one after the other.
pub open spec fn after_events(scene: SceneModel, events: Seq<UpdateEvent>) -> SceneModel
    decreases events.len(),
{
    if events.len() == 0 {
        scene
    } else {
        after_events(scene, events.drop_last()).updated(events.last())
    }
}

/// Whether the frame starts playback only while a round is on, and enters the game scene only behind
/// that.
pub open spec fn on_course(scene: SceneModel) -> bool {
    &&& scene.frame.phase is StartClock || scene.frame.phase is Enter ==> scene.in_round()
    &&& scene.frame.entering ==> phases_left(scene.frame.phase, scene.players.len())
        <= phases_left(Phase::Enter, scene.players.len())
}

/// Whether the monitor is between rounds: no game runs, and playback is off.
pub open spec fn between_rounds(scene: SceneModel) -> bool {
    &&& on_course(scene)
    &&& scene.monitor_game_state is Idle || scene.monitor_game_state is Ended
    &&& playback_off(scene)
}

/// Where the game scene is entered behind an event, the event has just started the clock, or the
/// frame was already that far.
proof fn lemma_entering(scene: SceneModel, event: UpdateEvent)
    requires
        on_course(scene),
        scene.awaits(event),
        scene.taken(event).frame.entering,
    ensures
        !(event is Begin),
        scene.taken(event).frame.phase == scene.frame.phase,
        !(event is ClockStarted) ==> scene.frame.entering,
        scene.taken(event).players.len() == scene.players.len(),
{
    if let UpdateEvent::RoomRead { t, scene: poll, news } = event {
        lemma_heard_phase(scene.scene_polled(poll), news, t);
    }
}

/// A new monitor is on course, and every event keeps it there.
pub proof fn law_frames_keep_the_course(scene: SceneModel, event: UpdateEvent)
    ensures
        scene.frame == fresh_frame(Phase::Done) ==> on_course(scene),
        on_course(scene) ==> on_course(scene.updated(event)),
{
    if on_course(scene) && scene.awaits(event) {
        let taken = scene.taken(event);
        let next = taken.first_work(taken.phase_from(event));
        lemma_first_work(taken, taken.phase_from(event));
        assert(scene.updated(event).frame.phase == next);
        if taken.frame.entering {
            lemma_entering(scene, event);
            if event is ClockStarted {
                assert(taken.phase_from(event) == Phase::Enter);
                assert(taken.in_round());
            } else {
                assert(!(next is Enter));
            }
        }
    }
}

/// Between rounds no event starts playback or a game, unless it brings the message that a round
/// begins. The monitor stays in its phase, unless a chart is selected. Nor does it start anything
/// to get ready, to connect again, or to let go of the loaded chart.
pub proof fn law_no_playback_between_rounds(scene: SceneModel, event: UpdateEvent)
    requires
        between_rounds(scene),
        !begins_round(messages_of(event)),
    ensures
        between_rounds(scene.updated(event)),
        !selects_chart(messages_of(event)) ==> scene.updated(event).monitor_game_state
            == scene.monitor_game_state,
        scene.monitor_game_state is Idle ==> scene.updated(event).monitor_game_state is Idle,
        scene.game_end ==> scene.updated(event).game_end,
        !(scene.updated(event).action() is StartClock),
        !(scene.updated(event).action() is EnterScene),
        between_rounds(scene.getting_ready()),
        between_rounds(SceneModel { init_task: true, ..scene }),
        between_rounds(SceneModel { game_scene: false, ..scene }),
{
    law_frames_keep_the_course(scene, event);
    if let UpdateEvent::RoomRead { t, scene: poll, news: Some(news) } = event {
        lemma_messages_without_round(scene.scene_polled(poll), news.messages@, t);
    }
}

/// Between rounds the monitor stays there, over any number of events and frames, until it hears
/// that a round begins. An ended game stays ended, unless a chart is selected, and an idle monitor
/// stays idle.
pub proof fn law_a_game_that_is_over_stays_over(scene: SceneModel, events: Seq<UpdateEvent>)
    requires
        between_rounds(scene),
        forall|i: int| 0 <= i < events.len() ==> !begins_round(messages_of(#[trigger] events[i])),
    ensures
        between_rounds(after_events(scene, events)),
        (forall|i: int|
            0 <= i < events.len() ==> !selects_chart(messages_of(#[trigger] events[i])))
            ==> after_events(scene, events).monitor_game_state == scene.monitor_game_state,
        scene.monitor_game_state is Idle ==> after_events(scene, events).monitor_game_state is Idle,
        scene.game_end ==> after_events(scene, events).game_end,
    decreases events.len(),
{
    if events.len() > 0 {
        let front = events.drop_last();
        assert(forall|i: int| 0 <= i < front.len() ==> #[trigger] front[i] == events[i]);
        assert(events.last() == events[events.len() - 1]);
        law_a_game_that_is_over_stays_over(scene, front);
        law_no_playback_between_rounds(after_events(scene, front), events.last());
    }
}

/// News of the end of a running game, or of a selected chart, ends the game for good: neither the
/// rest of the frame nor any later frame plays it on. The monitor is idle once a chart was selected,
/// and else ended; the next thing to do is to pause the music, if there is any.
pub proof fn law_an_ended_game_stays_ended(
    scene: SceneModel,
    event: UpdateEvent,
    events: Seq<UpdateEvent>,
)
    requires
        on_course(scene),
        scene.client,
        scene.monitor_game_state is Playing,
        scene.awaits(event),
        event is RoomRead,
        selects_chart(messages_of(event)) || ends_game(messages_of(event)),
        !begins_round(messages_of(event)),
        forall|i: int| 0 <= i < events.len() ==> !begins_round(messages_of(#[trigger] events[i])),
    ensures
        scene.game_scene ==> scene.updated(event).action() is PauseMusic,
        scene.updated(event).monitor_game_state == if selects_chart(messages_of(event)) {
            MonitorGameState::Idle
        } else {
            MonitorGameState::Ended
        },
        between_rounds(after_events(scene.updated(event), events)),
        (forall|i: int|
            0 <= i < events.len() ==> !selects_chart(messages_of(#[trigger] events[i])))
            ==> after_events(scene.updated(event), events).monitor_game_state == scene.updated(
            event,
        ).monitor_game_state,
        ends_game(messages_of(event)) ==> after_events(scene.updated(event), events).game_end,
{
    law_frames_keep_the_course(scene, event);
    if let UpdateEvent::RoomRead { t, scene: poll, news: Some(news) } = event {
        lemma_messages_without_round(scene.scene_polled(poll), news.messages@, t);
        lemma_heard_phase(scene.scene_polled(poll), Some(news), t);
    }
    law_a_game_that_is_over_stays_over(scene.updated(event), events);
}

/// A frame begins with loading a chart exactly when the task that gets ready is done, and the chart
/// is the selected one. No other step of a frame loads a chart.
pub proof fn law_the_selected_chart_is_loaded(scene: SceneModel, event: UpdateEvent)
    requires
        scene.awaits(event),
        scene.admits(event),
    ensures
        scene.updated(event).action() is Launch <==> {
            &&& scene.get_ready_task
            &&& event matches UpdateEvent::Begin { ready, .. }
            &&& ready is Done
        },
        scene.updated(event).action() is Launch ==> scene.updated(event).selected_id() == Some(
            scene.updated(event).action()->id,
        ),
{
    let taken = scene.taken(event);
    lemma_first_work(taken, taken.phase_from(event));
    if !(event is Begin) {
        if let UpdateEvent::RoomRead { t, scene: poll, news } = event {
            lemma_heard_phase(scene.scene_polled(poll), news, t);
        }
        assert(!(taken.phase_from(event) is Launch));
    }
}

/// At the start of a round nobody is ready, so playback waits for fresh judges; a chart that is
/// loaded stays.
pub proof fn law_round_starts_unready(scene: SceneModel, t: i64)
    ensures
        !all_ready(scene.after_message(Message::StartPlaying, t).players),
        at_rest(scene.after_message(Message::StartPlaying, t)),
        scene.after_message(Message::StartPlaying, t).game_scene == scene.game_scene,
{
    let players = scene.after_message(Message::StartPlaying, t).players;
    if exists|i: int| 0 <= i < players.len() && !(#[trigger] players[i]).is_aborted {
        let i = choose|i: int| 0 <= i < players.len() && !(#[trigger] players[i]).is_aborted;
        assert(!players[i].has_started);
    }
}

/// Whether two lists hold the same players in the same order.
pub open spec fn same_players(a: Seq<PlayerModel>, b: Seq<PlayerModel>) -> bool {
    &&& a.len() == b.len()
    &&& forall|i: int|
        0 <= i < a.len() ==> (#[trigger] a[i]).id == b[i].id && a[i].name == b[i].name
            && a[i].chart == b[i].chart
}

proof fn lemma_index_of(players: Seq<PlayerModel>, id: i32)
    ensures
        index_of(players, id) <= players.len(),
        index_of(players, id) < players.len() ==> players[index_of(players, id) as int].id == id,
    decreases players.len(),
{
    if players.len() > 0 && players[0].id != id {
        lemma_index_of(players.skip(1), id);
    }
}

/// Messages never add, remove or reorder players: whoever aborts stays in the list.
pub proof fn law_messages_keep_the_players(scene: SceneModel, messages: Seq<Message>, t: i64)
    ensures
        same_players(scene.players, scene.heard(messages, t).players),
    decreases messages.len(),
{
    if messages.len() > 0 {
        law_messages_keep_the_players(scene, messages.drop_last(), t);
        let before = scene.after_messages(messages.drop_last(), t);
        assert(same_players(scene.players, before.players));
        match messages.last() {
            Message::Abort { player } => {
                lemma_index_of(before.players, player);
            },
            _ => {},
        }
        let after = before.after_message(messages.last(), t);
        assert(same_players(before.players, after.players));
        assert(same_players(scene.players, after.players));
    }
}

/// A message that a player has left marks the first player with that id, and nobody else.
pub proof fn law_abort_marks_one_player(scene: SceneModel, player: i32, t: i64, i: int)
    requires
        0 <= i < scene.players.len(),
    ensures
        ({
            let after = scene.after_message(Message::Abort { player }, t);
            after.players[i] == if i == index_of(scene.players, player) {
                scene.players[i].aborted()
            } else {
                scene.players[i]
            }
        }),
        index_of(scene.players, player) < scene.players.len() ==> scene.players[index_of(
            scene.players,
            player,
        ) as int].id == player,
        scene.players[i].id == player ==> index_of(scene.players, player) <= i,
{
    lemma_index_of(scene.players, player);
    if scene.players[i].id == player {
        lemma_index_of_first(scene.players, player, i);
    }
}

proof fn lemma_index_of_first(players: Seq<PlayerModel>, id: i32, i: int)
    requires
        0 <= i < players.len(),
        players[i].id == id,
    ensures
        index_of(players, id) <= i,
    decreases players.len(),
{
    if players[0].id != id {
        assert(players.skip(1)[i - 1] == players[i]);
        lemma_index_of_first(players.skip(1), id, i - 1);
    }
}

/// A chart that comes in while the monitor is idle is out of date, and changes no player.
pub proof fn law_stale_chart_is_dropped(scene: SceneModel, players: Vec<crate::player::PlayerView>)
    requires
        scene.monitor_game_state is Idle,
    ensures
        scene.scene_polled(ScenePoll::Loaded { players }).players == scene.players,
        scene.scene_polled(ScenePoll::Loaded { players }).game_scene == scene.game_scene,
        scene.scene_polled(ScenePoll::Loaded { players }).frame == scene.frame,
{
}

/// Without a connection nothing that a server might say has an effect.
pub proof fn law_nothing_is_heard_without_connection(
    scene: SceneModel,
    news: Option<RoomNews>,
    t: i64,
)
    requires
        !scene.client,
    ensures
        scene.room_polled(news, t) == scene,
{
}

/// Whether the frame's word that everybody is ready, once the room has been read, is still true.
pub open spec fn readiness_holds(scene: SceneModel) -> bool {
    scene.frame.all_ready ==> {
        &&& all_ready(scene.players)
        &&& !(scene.frame.phase is Launch)
        &&& !(scene.frame.phase is Room)
    }
}

proof fn lemma_all_ready_kept(a: Seq<PlayerModel>, b: Seq<PlayerModel>)
    requires
        all_ready(a),
        a.len() == b.len(),
        forall|i: int|
            0 <= i < a.len() ==> (#[trigger] b[i]).is_aborted == a[i].is_aborted && (a[i].has_started
                ==> b[i].has_started),
    ensures
        all_ready(b),
{
    let i = choose|i: int| 0 <= i < a.len() && !(#[trigger] a[i]).is_aborted;
    assert(!b[i].is_aborted);
    assert forall|k: int| 0 <= k < b.len() && !(#[trigger] b[k]).is_aborted implies b[k].has_started by {
        assert(!a[k].is_aborted);
    }
}

/// Playback begins only when a round is on, somebody plays, and everybody who plays has sent a judge.
/// The frame keeps its word on that from the moment it is given until it is acted on.
pub proof fn law_playback_waits_for_everybody(scene: SceneModel, event: UpdateEvent)
    requires
        readiness_holds(scene),
        scene.awaits(event),
    ensures
        readiness_holds(scene.updated(event)),
        scene.updated(event).action() is StartClock ==> all_ready(scene.updated(event).players)
            && scene.updated(event).game_scene && scene.updated(event).client,
        scene.updated(event).action() is StartClock ==> scene.updated(event).in_round(),
{
    let taken = scene.taken(event);
    if taken.frame.all_ready {
        match event {
            UpdateEvent::Received { .. } => {
                lemma_all_ready_kept(scene.players, taken.players);
            },
            UpdateEvent::ClockStarted { .. } => {
                lemma_all_ready_kept(scene.players, taken.players);
            },
            UpdateEvent::ClockRead { .. } => {
                lemma_all_ready_kept(scene.players, taken.players);
            },
            UpdateEvent::RoomRead { t, scene: poll, news } => {
                lemma_messages_keep_frame(scene.scene_polled(poll), news, t);
                lemma_heard_phase(scene.scene_polled(poll), news, t);
            },
            _ => {},
        }
    }
    let players = taken.players.len();
    lemma_first_work(taken, taken.phase_from(event));
    if taken.frame.all_ready {
        assert(phases_left(taken.phase_from(event), players) <= players + 8);
    }
}

/// Only the server's word sets the frame's word on readiness.
proof fn lemma_messages_keep_frame(scene: SceneModel, news: Option<RoomNews>, t: i64)
    ensures
        !(news is Some && scene.client) ==> scene.room_polled(news, t) == scene,
        news is Some && scene.client ==> scene.room_polled(news, t).frame.all_ready == all_ready(
            scene.room_polled(news, t).players,
        ),
{
}

/// The first phase with work has work, and lies no further from the end than where the search
/// began.
proof fn lemma_first_work(scene: SceneModel, phase: Phase)
    ensures
        scene.has_work(scene.first_work(phase)),
        phases_left(scene.first_work(phase), scene.players.len()) <= phases_left(
            phase,
            scene.players.len(),
        ),
    decreases phases_left(phase, scene.players.len()),
{
    if !scene.has_work(phase) {
        lemma_first_work(scene, phase_after(phase, scene.players.len()));
    }
}

/// Every answer brings the frame closer to its end, so every frame ends.
pub proof fn law_frame_ends(scene: SceneModel, event: UpdateEvent)
    requires
        scene.awaits(event),
        !(event is Begin),
    ensures
        ({
            let after = scene.updated(event);
            phases_left(after.frame.phase, after.players.len()) < phases_left(
                scene.frame.phase,
                after.players.len(),
            )
        }),
{
    let taken = scene.taken(event);
    match event {
        UpdateEvent::RoomRead { t, scene: poll, news } => {
            lemma_heard_phase(scene.scene_polled(poll), news, t);
        },
        _ => {},
    }
    assert(taken.frame.phase == scene.frame.phase);
    lemma_first_work(taken, taken.phase_from(event));
}

pub proof fn lemma_heard_phase(scene: SceneModel, news: Option<RoomNews>, t: i64)
    ensures
        scene.room_polled(news, t).frame.phase == scene.frame.phase,
        scene.room_polled(news, t).frame.entering == scene.frame.entering,
{
    if let Some(news) = news {
        lemma_messages_keep_phase(scene, news.messages@, t);
    }
}

proof fn lemma_messages_keep_phase(scene: SceneModel, messages: Seq<Message>, t: i64)
    ensures
        scene.after_messages(messages, t).frame.phase == scene.frame.phase,
        scene.after_messages(messages, t).frame.entering == scene.frame.entering,
    decreases messages.len(),
{
    if messages.len() > 0 {
        lemma_messages_keep_phase(scene, messages.drop_last(), t);
    }
}

/// When playback begins everybody is at the beginning of the chart and nobody waits; the first tick
/// of the clock moves on from the time at which playback began.
pub proof fn law_playback_begins_at_zero(scene: SceneModel, real_time: i64, now: i64, i: int)
    requires
        0 <= i < scene.players.len(),
    ensures
        ({
            let after = scene.playback_started(real_time, now);
            &&& after.last_global_time == now
            &&& after.players[i].local_time == 0
            &&& after.players[i].total_paused_duration == 0
            &&& !after.players[i].is_paused
            &&& !after.players[i].is_resuming
        }),
{
}

/// While a chart is being selected, and after a game outside a round of the room, no picture of a
/// player is shown.
pub proof fn law_no_stale_pictures(
    scene: SceneModel,
    room_state: RoomState,
    now: i64,
    rows: Seq<(Seq<char>, Score)>,
)
    ensures
        room_state is SelectChart ==> !(scene.screen(room_state, now, rows) is Board),
        scene.screen(room_state, now, rows) is Board ==> scene.client && (
        scene.monitor_game_state is Playing || room_state is Playing),
{
}

/// A board shows every player once, in order, each at a place of its own inside the grid.
pub proof fn law_board_shows_everybody(
    scene: SceneModel,
    room_state: RoomState,
    now: i64,
    rows: Seq<(Seq<char>, Score)>,
    i: int,
    j: int,
)
    requires
        scene.screen(room_state, now, rows) is Board,
        scene.players.len() <= usize::MAX,
        0 <= i < j < scene.players.len(),
    ensures
        ({
            let shown = scene.screen(room_state, now, rows);
            let (a, b) = (shown->pictures[i].cell, shown->pictures[j].cell);
            &&& shown->pictures.len() == scene.players.len()
            &&& a.player == i && b.player == j
            &&& a.row < shown->rows && a.column < shown->columns
            &&& b.row < shown->rows && b.column < shown->columns
            &&& a.row != b.row || a.column != b.column
        }),
{
    law_places_are_distinct(scene.players.len(), i, j);
}

/// After the end of a game, while the room still plays, the pictures stay, and each is shown as
/// finished.
pub proof fn law_finished_pictures_stay(
    scene: SceneModel,
    now: i64,
    rows: Seq<(Seq<char>, Score)>,
)
    requires
        scene.client,
        scene.monitor_game_state is Ended,
    ensures
        ({
            let shown = scene.screen(RoomState::Playing, now, rows);
            &&& shown is Board
            &&& shown->pictures.len() == scene.players.len()
            &&& forall|i: int|
                0 <= i < scene.players.len() ==> (#[trigger] shown->pictures[i]).overlay
                    == Overlay::Finished
        }),
{
}

/// Whether the message is a result of `user`.
pub open spec fn is_result_of(message: Message, user: Seq<char>) -> bool {
    match message {
        Message::Played { user: name, .. } => name@ == user,
        _ => false,
    }
}

/// Whether message `k` is the last result of `user` among the messages.
pub open spec fn is_last_result(messages: Seq<Message>, k: int, user: Seq<char>) -> bool {
    &&& 0 <= k < messages.len()
    &&& is_result_of(messages[k], user)
    &&& forall|m: int| k < m < messages.len() ==> !is_result_of(#[trigger] messages[m], user)
}

/// The last result of a player counts, and a player without a new one keeps the old.
pub proof fn law_last_result_counts(
    scores: Map<Seq<char>, Score>,
    messages: Seq<Message>,
    user: Seq<char>,
)
    ensures
        forall|k: int| #[trigger]
            is_last_result(messages, k, user) ==> {
                &&& with_scores(scores, messages).contains_key(user)
                &&& messages[k] matches Message::Played { score, accuracy, full_combo, .. }
                &&& with_scores(scores, messages)[user] == (Score {
                    score: unsigned_score(score),
                    accuracy,
                    full_combo,
                })
            },
        (forall|k: int| 0 <= k < messages.len() ==> !is_result_of(#[trigger] messages[k], user))
            ==> with_scores(scores, messages).contains_key(user) == scores.contains_key(user)
            && with_scores(scores, messages)[user] == scores[user],
    decreases messages.len(),
{
    if messages.len() > 0 {
        let before = messages.drop_last();
        let n = messages.len() - 1;
        law_last_result_counts(scores, before, user);
        assert forall|k: int| #[trigger] is_last_result(messages, k, user) implies {
            &&& with_scores(scores, messages).contains_key(user)
            &&& messages[k] matches Message::Played { score, accuracy, full_combo, .. }
            &&& with_scores(scores, messages)[user] == (Score {
                score: unsigned_score(score),
                accuracy,
                full_combo,
            })
        } by {
            if k < n {
                assert(!is_result_of(messages[n], user));
                assert forall|m: int| k < m < before.len() implies !is_result_of(
                    #[trigger] before[m],
                    user,
                ) by {
                    assert(before[m] == messages[m]);
                }
                assert(before[k] == messages[k]);
                assert(is_last_result(before, k, user));
            }
        }
        if forall|k: int| 0 <= k < messages.len() ==> !is_result_of(#[trigger] messages[k], user) {
            assert forall|k: int| 0 <= k < before.len() implies !is_result_of(
                #[trigger] before[k],
                user,
            ) by {
                assert(before[k] == messages[k]);
            }
            assert(!is_result_of(messages[n], user));
        }
    }
}

} // verus!
