//! Laws of rounds: what each message of the room changes and what it leaves alone, and what is shown
//! of it. They speak of single fields, players and lines.
use crate::layout::{cell, column_count, row_count};
use crate::player::PlayerModel;
use crate::room::{with_scores, Message, RoomState};
use crate::roster::all_ready;
use crate::scene::SceneModel;
use crate::scene_laws::{begins_round, is_last_result, is_result_of, law_last_result_counts};
use crate::scores::Score;
use crate::screen::ScreenModel;
use crate::state::MonitorGameState;
use crate::text::before;
use vstd::prelude::*;
use vstd::utf8::encode_utf8;

verus! {

/// Whether `after` are the players `players`, with every pause and every resume buffer switched off
/// and nothing else changed.
pub open spec fn let_go(players: Seq<PlayerModel>, after: Seq<PlayerModel>) -> bool {
    &&& after.len() == players.len()
    &&& forall|i: int|
        0 <= i < players.len() ==> #[trigger] after[i] == (PlayerModel {
            is_paused: false,
            is_resuming: false,
            ..players[i]
        })
}

/// Whether `after` are the players `players` at the start of a round: nobody has started, left,
/// paused or played; queues are empty; charts, counters and fingers are as they were.
pub open spec fn start_over(players: Seq<PlayerModel>, after: Seq<PlayerModel>) -> bool {
    &&& after.len() == players.len()
    &&& forall|i: int|
        0 <= i < players.len() ==> (#[trigger] after[i]).judges.len() == 0 && after[i].touches.len()
            == 0 && after[i] == (PlayerModel {
            has_started: false,
            is_aborted: false,
            local_time: 0,
            is_paused: false,
            is_resuming: false,
            total_paused_duration: 0,
            pause_start_time: None,
            resume_buffer_start: None,
            fc_ap_state: 0,
            judges: after[i].judges,
            touches: after[i].touches,
            ..players[i]
        })
}

/// Ending a game that has not ended switches playback off, lets everybody go, and changes nothing
/// else; an ended game is left alone.
pub proof fn law_what_ending_changes(scene: SceneModel)
    ensures
        ({
            let after = scene.force_ended();
            &&& scene.monitor_game_state is Ended ==> after == scene
            &&& !(scene.monitor_game_state is Ended) ==> {
                &&& let_go(scene.players, after.players)
                &&& after == (SceneModel {
                    monitor_game_state: MonitorGameState::Ended,
                    render_started: false,
                    all_players_ready: false,
                    playback_start_time: None,
                    players: after.players,
                    ..scene
                })
            }
        }),
{
}

/// What a selected chart changes: the selection, and the phase; in the middle of a game also what
/// ending the game changes, and there the music is to be paused if there is any.
pub proof fn law_what_selecting_changes(scene: SceneModel, id: i32, name: String, t: i64)
    ensures
        ({
            let after = scene.after_message(Message::SelectChart { id, name }, t);
            &&& after.selected_chart == Some((id, name))
            &&& after.monitor_game_state is Idle
            &&& !(scene.monitor_game_state is Playing) ==> after == (SceneModel {
                selected_chart: after.selected_chart,
                monitor_game_state: after.monitor_game_state,
                ..scene
            })
            &&& scene.monitor_game_state is Playing ==> {
                &&& let_go(scene.players, after.players)
                &&& after.frame.pause_music == (scene.frame.pause_music || scene.game_scene)
                &&& after == (SceneModel {
                    selected_chart: after.selected_chart,
                    monitor_game_state: after.monitor_game_state,
                    render_started: false,
                    all_players_ready: false,
                    playback_start_time: None,
                    players: after.players,
                    frame: crate::scene::Frame {
                        pause_music: after.frame.pause_music,
                        ..scene.frame
                    },
                    ..scene
                })
            }
        }),
{
}

/// What the end of a game changes: it is noted; and a running game ends.
pub proof fn law_what_the_end_changes(scene: SceneModel, t: i64)
    ensures
        ({
            let after = scene.after_message(Message::GameEnd, t);
            &&& after.game_end
            &&& !(scene.monitor_game_state is Playing) ==> after == (SceneModel {
                game_end: true,
                ..scene
            })
            &&& scene.monitor_game_state is Playing ==> {
                &&& let_go(scene.players, after.players)
                &&& after.frame.pause_music == (scene.frame.pause_music || scene.game_scene)
                &&& after == (SceneModel {
                    game_end: true,
                    monitor_game_state: MonitorGameState::Ended,
                    render_started: false,
                    all_players_ready: false,
                    playback_start_time: None,
                    players: after.players,
                    frame: crate::scene::Frame {
                        pause_music: after.frame.pause_music,
                        ..scene.frame
                    },
                    ..scene
                })
            }
        }),
{
}

/// What the beginning of a round changes: it is timed, the results and the end of the last round are
/// forgotten, playback is off, the monitor waits, and everybody starts over.
pub proof fn law_what_a_round_changes(scene: SceneModel, t: i64)
    ensures
        ({
            let after = scene.after_message(Message::StartPlaying, t);
            &&& start_over(scene.players, after.players)
            &&& after.scores.dom().is_empty()
            &&& after == (SceneModel {
                start_playing_time: Some(t),
                scores: after.scores,
                game_end: false,
                all_players_ready: false,
                render_started: false,
                playback_start_time: None,
                monitor_game_state: MonitorGameState::WaitingReady,
                players: after.players,
                ..scene
            })
        }),
{
    let after = scene.after_message(Message::StartPlaying, t);
    assert(after.scores.dom() =~= Set::empty());
}

/// Whether player `i` is the first with this id.
pub open spec fn is_first_with(players: Seq<PlayerModel>, i: int, id: i32) -> bool {
    &&& 0 <= i < players.len()
    &&& players[i].id == id
    &&& forall|k: int| 0 <= k < i ==> (#[trigger] players[k]).id != id
}

/// What a player's leaving changes: the first player with that id is marked as gone and stands still;
/// nobody else is touched, and nobody is taken from the list.
pub proof fn law_what_leaving_changes(scene: SceneModel, player: i32, t: i64)
    ensures
        ({
            let after = scene.after_message(Message::Abort { player }, t);
            &&& after == (SceneModel { players: after.players, ..scene })
            &&& after.players.len() == scene.players.len()
            &&& forall|i: int|
                0 <= i < scene.players.len() ==> #[trigger] after.players[i] == if is_first_with(
                    scene.players,
                    i,
                    player,
                ) {
                    PlayerModel {
                        is_aborted: true,
                        is_paused: true,
                        is_resuming: false,
                        resume_buffer_start: None,
                        ..scene.players[i]
                    }
                } else {
                    scene.players[i]
                }
        }),
{
    lemma_first_with(scene.players, player);
}

proof fn lemma_first_with(players: Seq<PlayerModel>, id: i32)
    ensures
        ({
            let first = crate::roster::index_of(players, id) as int;
            &&& first <= players.len()
            &&& first < players.len() ==> is_first_with(players, first, id)
            &&& forall|i: int| #[trigger] is_first_with(players, i, id) ==> i == first
        }),
    decreases players.len(),
{
    if players.len() > 0 && players[0].id != id {
        let rest = players.skip(1);
        assert(forall|i: int| 0 <= i < rest.len() ==> #[trigger] rest[i] == players[i + 1]);
        lemma_first_with(rest, id);
        let first = crate::roster::index_of(players, id) as int;
        if first < players.len() {
            assert(is_first_with(rest, first - 1, id));
            assert forall|k: int| 0 <= k < first implies (#[trigger] players[k]).id != id by {
                if k > 0 {
                    assert(rest[k - 1].id != id);
                }
            }
        }
        assert forall|i: int| #[trigger] is_first_with(players, i, id) implies i == first by {
            assert forall|k: int| 0 <= k < i - 1 implies (#[trigger] rest[k]).id != id by {
                assert(players[k + 1].id != id);
            }
            assert(is_first_with(rest, i - 1, id));
        }
    }
}

/// Chat, results and other messages change neither players nor phase by themselves.
pub proof fn law_other_messages_change_nothing(scene: SceneModel, message: Message, t: i64)
    requires
        message is Chat || message is Played || message is Other,
    ensures
        scene.after_message(message, t) == scene,
{
}

/// Messages take effect one after the other, in order.
pub proof fn law_messages_are_heard_in_order(
    scene: SceneModel,
    messages: Seq<Message>,
    next: Message,
    t: i64,
)
    ensures
        scene.after_messages(Seq::empty(), t) == scene,
        scene.after_messages(messages.push(next), t) == scene.after_messages(
            messages,
            t,
        ).after_message(next, t),
{
    assert(messages.push(next).drop_last() =~= messages);
}

proof fn lemma_talk_and_results(scene: SceneModel, messages: Seq<Message>, t: i64)
    ensures
        scene.after_messages(messages, t).messages == scene.messages,
        begins_round(messages) ==> scene.after_messages(messages, t).scores == Map::<
            Seq<char>,
            Score,
        >::empty(),
        !begins_round(messages) ==> scene.after_messages(messages, t).scores == scene.scores,
    decreases messages.len(),
{
    if messages.len() > 0 {
        lemma_talk_and_results(scene, messages.drop_last(), t);
        crate::scene_laws::lemma_last_message(messages);
    }
}

/// Hearing messages does what they do one after the other, and then enters chat and results; it
/// changes nothing else.
pub proof fn law_talk_and_results_come_last(scene: SceneModel, messages: Seq<Message>, t: i64)
    ensures
        scene.heard(messages, t) == (SceneModel {
            messages: scene.heard(messages, t).messages,
            scores: scene.heard(messages, t).scores,
            ..scene.after_messages(messages, t)
        }),
{
}

/// The chat grows by one line for each chat message, in order, and by nothing else. A line holds the
/// time of day in two digits each, the sender and the words.
pub proof fn law_chat_grows_by_lines(
    scene: SceneModel,
    messages: Seq<Message>,
    next: Message,
    t: i64,
)
    ensures
        scene.heard(Seq::empty(), t).messages == scene.messages,
        !(next is Chat) ==> scene.heard(messages.push(next), t).messages == scene.heard(
            messages,
            t,
        ).messages,
        next matches Message::Chat { user, content, at } ==> scene.heard(
            messages.push(next),
            t,
        ).messages == scene.heard(messages, t).messages.push(
            "["@ + seq![
                (48 + at.hour as int / 10) as char,
                (48 + at.hour as int % 10) as char,
                ':',
                (48 + at.minute as int / 10) as char,
                (48 + at.minute as int % 10) as char,
                ':',
                (48 + at.second as int / 10) as char,
                (48 + at.second as int % 10) as char,
            ] + "] ["@ + user@ + "] "@ + content@,
        ),
{
    let longer = messages.push(next);
    assert(longer.drop_last() =~= messages);
    lemma_talk_and_results(scene, messages, t);
    lemma_talk_and_results(scene, longer, t);
    lemma_talk_and_results(scene, Seq::empty(), t);
    assert(scene.messages + Seq::<Seq<char>>::empty() =~= scene.messages);
    if let Message::Chat { user, content, at } = next {
        assert(crate::labels::clock(at.hour as int, at.minute as int, at.second as int) =~= seq![
            (48 + at.hour as int / 10) as char,
            (48 + at.hour as int % 10) as char,
            ':',
            (48 + at.minute as int / 10) as char,
            (48 + at.minute as int % 10) as char,
            ':',
            (48 + at.second as int / 10) as char,
            (48 + at.second as int % 10) as char,
        ]);
        assert(scene.heard(longer, t).messages =~= scene.heard(messages, t).messages.push(
            crate::room::chat_lines(longer).last(),
        ));
    } else {
        assert(crate::room::chat_lines(longer) == crate::room::chat_lines(messages));
    }
}

/// The results after messages: whoever has one among them has the last of them, a negative score
/// read as an unsigned number; anybody else keeps the old one, unless a round has begun meanwhile.
pub proof fn law_results_after_messages(
    scene: SceneModel,
    messages: Seq<Message>,
    t: i64,
    user: Seq<char>,
)
    ensures
        ({
            let after = scene.heard(messages, t).scores;
            &&& forall|k: int|
                #[trigger] is_last_result(messages, k, user) ==> {
                    &&& after.contains_key(user)
                    &&& messages[k] matches Message::Played { score, accuracy, full_combo, .. }
                    &&& after[user].accuracy == accuracy
                    &&& after[user].full_combo == full_combo
                    &&& after[user].score == if score < 0 {
                        score + 0x1_0000_0000
                    } else {
                        score as int
                    }
                }
            &&& (forall|k: int| 0 <= k < messages.len() ==> !is_result_of(#[trigger] messages[k], user))
                ==> {
                &&& begins_round(messages) ==> !after.contains_key(user)
                &&& !begins_round(messages) ==> after.contains_key(user)
                    == scene.scores.contains_key(user)
                &&& !begins_round(messages) && scene.scores.contains_key(user) ==> after[user]
                    == scene.scores[user]
            }
        }),
{
    lemma_talk_and_results(scene, messages, t);
    let base = scene.after_messages(messages, t).scores;
    law_last_result_counts(base, messages, user);
    assert(scene.heard(messages, t).scores == with_scores(base, messages));
}

/// Everybody is ready exactly when somebody has not left, and whoever has not left has started.
pub proof fn law_who_makes_everybody_ready(players: Seq<PlayerModel>)
    ensures
        all_ready(players) ==> exists|i: int|
            0 <= i < players.len() && !(#[trigger] players[i]).is_aborted && players[i].has_started,
        forall|i: int|
            0 <= i < players.len() && !(#[trigger] players[i]).is_aborted && !players[i].has_started
                ==> !all_ready(players),
        !all_ready(players) ==> (forall|i: int|
            0 <= i < players.len() ==> (#[trigger] players[i]).is_aborted) || (exists|i: int|
            0 <= i < players.len() && !(#[trigger] players[i]).is_aborted
                && !players[i].has_started),
{
    if all_ready(players) {
        let i = choose|i: int| 0 <= i < players.len() && !(#[trigger] players[i]).is_aborted;
        assert(players[i].has_started);
    }
}

/// Names are ordered like words in a dictionary of bytes: by the first byte in which their UTF-8
/// forms differ, and a name comes before every longer one that begins with it.
pub proof fn law_names_are_ordered_by_bytes(a: Seq<char>, b: Seq<char>, k: int)
    requires
        0 <= k <= encode_utf8(a).len(),
        k <= encode_utf8(b).len(),
        encode_utf8(a).take(k) == encode_utf8(b).take(k),
    ensures
        k < encode_utf8(a).len() && k < encode_utf8(b).len() && encode_utf8(a)[k] < encode_utf8(
            b,
        )[k] ==> before(a, b) && !before(b, a),
        k == encode_utf8(a).len() ==> before(a, b) == (k < encode_utf8(b).len()) && !before(b, a),
{
    let (x, y) = (encode_utf8(a), encode_utf8(b));
    lemma_common_prefix(x, y, k);
    assert(y.take(k) == x.take(k));
    lemma_common_prefix(y, x, k);
}

proof fn lemma_common_prefix(x: Seq<u8>, y: Seq<u8>, k: int)
    requires
        0 <= k <= x.len(),
        k <= y.len(),
        x.take(k) == y.take(k),
    ensures
        crate::text::bytes_before(x, y) == crate::text::bytes_before(x.skip(k), y.skip(k)),
    decreases k,
{
    if k == 0 {
        assert(x.skip(0) =~= x && y.skip(0) =~= y);
    } else {
        assert(x[0] == x.take(k)[0] && y[0] == y.take(k)[0]);
        let (u, v) = (x.skip(1), y.skip(1));
        assert forall|i: int| 0 <= i < k - 1 implies #[trigger] u.take(k - 1)[i]
            == v.take(k - 1)[i] by {
            assert(u.take(k - 1)[i] == x.take(k)[i + 1]);
            assert(v.take(k - 1)[i] == y.take(k)[i + 1]);
        }
        assert(u.take(k - 1) =~= v.take(k - 1));
        lemma_common_prefix(u, v, k - 1);
        assert(u.skip(k - 1) =~= x.skip(k) && v.skip(k - 1) =~= y.skip(k));
    }
}

/// Starting to get ready switches playback off, lets go of the loaded chart, and starts the task.
pub proof fn law_what_getting_ready_changes(scene: SceneModel)
    ensures
        scene.getting_ready() == (SceneModel {
            get_ready_task: true,
            game_scene: false,
            render_started: false,
            all_players_ready: false,
            playback_start_time: None,
            ..scene
        }),
{
}

/// Which screen is shown: nothing of the room before the monitor is in it; the selection while the
/// room selects; and else what the phase of the round asks for. After a game the pictures stay only
/// as long as the room plays.
pub proof fn law_which_screen_is_shown(
    scene: SceneModel,
    room_state: RoomState,
    now: i64,
    rows: Seq<(Seq<char>, Score)>,
)
    ensures
        ({
            let shown = scene.screen(room_state, now, rows);
            let selecting = room_state is SelectChart;
            &&& shown is Loading <==> !scene.client
            &&& shown is Selecting <==> scene.client && selecting
            &&& shown is Idle <==> scene.client && !selecting && scene.monitor_game_state is Idle
            &&& shown is Lobby <==> scene.client && !selecting
                && scene.monitor_game_state is WaitingReady
            &&& shown is Board <==> scene.client && !selecting && (
            scene.monitor_game_state is Playing || (scene.monitor_game_state is Ended
                && room_state is Playing))
            &&& shown is Over <==> scene.client && room_state is WaitingForReady
                && scene.monitor_game_state is Ended
        }),
{
}

/// The selection shows the title and the number of the selected chart, if there is one, and all
/// results in order.
pub proof fn law_what_the_selection_shows(
    scene: SceneModel,
    room_state: RoomState,
    now: i64,
    rows: Seq<(Seq<char>, Score)>,
)
    requires
        scene.client,
        room_state is SelectChart,
    ensures
        scene.screen(room_state, now, rows) matches ScreenModel::Selecting { chart, results }
            && results == rows && match scene.selected_chart {
            Some(selected) => chart == Some(
                selected.1@ + " (#"@ + crate::text::signed_decimal(selected.0 as int) + ")"@,
            ),
            None => chart is None,
        },
{
}

/// The lobby has one line for each player, in order, which says whether the player's first judge has
/// arrived.
pub proof fn law_what_the_lobby_shows(
    scene: SceneModel,
    room_state: RoomState,
    now: i64,
    rows: Seq<(Seq<char>, Score)>,
    i: int,
)
    requires
        scene.screen(room_state, now, rows) is Lobby,
        0 <= i < scene.players.len(),
    ensures
        ({
            let lines = scene.screen(room_state, now, rows)->lines;
            &&& lines.len() == scene.players.len()
            &&& lines[i].1 == scene.players[i].has_started
            &&& scene.players[i].has_started ==> lines[i].0 == scene.players[i].name + ": "@ + "就绪"@
            &&& !scene.players[i].has_started ==> lines[i].0 == scene.players[i].name + ": "@
                + "等待中…"@
        }),
{
}

/// The board has one picture for each player, in order, with what the player's own state asks to be
/// drawn over it.
pub proof fn law_what_the_board_shows(
    scene: SceneModel,
    room_state: RoomState,
    now: i64,
    rows: Seq<(Seq<char>, Score)>,
    i: int,
)
    requires
        scene.screen(room_state, now, rows) is Board,
        0 <= i < scene.players.len() <= usize::MAX,
    ensures
        ({
            let shown = scene.screen(room_state, now, rows);
            &&& shown->pictures.len() == scene.players.len()
            &&& shown->pictures[i].cell.player == i
            &&& shown->pictures[i].overlay == scene.players[i].overlay(
                now,
                scene.monitor_game_state,
            )
            &&& shown->pictures[i].cell.row * shown->columns + shown->pictures[i].cell.column == i
            &&& shown->pictures[i].cell.column < shown->columns
            &&& shown->pictures[i].cell.row < shown->rows
        }),
{
    law_rows_are_filled_in_order(scene.players.len(), i);
}

/// Up to two players stand side by side; more fill two rows, the first of which is full and the
/// second at most one short. The rows are filled from left to right, one after the other.
pub proof fn law_rows_are_filled_in_order(players: nat, k: int)
    requires
        0 <= k < players <= usize::MAX,
    ensures
        players <= 2 ==> row_count(players) == 1 && column_count(players) == players,
        players > 2 ==> row_count(players) == 2 && 2 * column_count(players) - 1 <= players <= 2
            * column_count(players),
        cell(players, k).player == k,
        cell(players, k).row < row_count(players),
        cell(players, k).column < column_count(players),
        cell(players, k).row * column_count(players) + cell(players, k).column == k,
{
    let columns = column_count(players) as int;
    assert(0 * columns == 0) by (nonlinear_arith);
    assert(1 * columns == columns) by (nonlinear_arith);
}

} // verus!
