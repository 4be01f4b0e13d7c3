//! What the monitor shows.
use crate::labels::{status, status_label};
use crate::layout::{cell, cells, column_count, grid, row_count, Cell};
use crate::player::{Overlay, PlayerModel, PlayerView};
use crate::roster::models;
use crate::scores::{Score, ScoreBoard};
use crate::state::MonitorGameState;
use vstd::prelude::*;

verus! {

/// One line of the lobby: a player, and whether the player is ready.
#[derive(PartialEq, Eq, Debug)]
pub struct LobbyLine {
    pub text: String,
    pub ready: bool,
}

/// The picture of one player: its place, and what is drawn over it.
#[derive(Clone, Copy, PartialEq, Eq, Debug, Structural)]
pub struct Picture {
    pub cell: Cell,
    pub overlay: Overlay,
}

/// What the monitor shows.
#[derive(PartialEq, Eq, Debug)]
pub enum Screen {
    /// Not in the room yet.
    Loading,
    /// A chart is being selected: the selected chart and the last results.
    Selecting { chart: Option<String>, results: ScoreBoard },
    /// Waiting for a round to begin.
    Idle,
    /// Waiting for the players' first judges: who is ready, in the order of the players.
    Lobby { lines: Vec<LobbyLine> },
    /// The players' pictures, in the order of the players, on a grid.
    Board { rows: usize, columns: usize, pictures: Vec<Picture> },
    /// Waiting after the end of a round.
    Over,
}

/// The contents of a screen.
#[verifier::ext_equal]
pub enum ScreenModel {
    Loading,
    Selecting { chart: Option<Seq<char>>, results: Seq<(Seq<char>, Score)> },
    Idle,
    Lobby { lines: Seq<(Seq<char>, bool)> },
    Board { rows: nat, columns: nat, pictures: Seq<Picture> },
    Over,
}

/// The contents of the lines of a lobby.
pub open spec fn line_models(lines: Seq<LobbyLine>) -> Seq<(Seq<char>, bool)> {
    Seq::new(lines.len(), |i: int| (lines[i].text@, lines[i].ready))
}

/// A text that may be missing.
pub open spec fn text_of(text: Option<String>) -> Option<Seq<char>> {
    match text {
        Some(text) => Some(text@),
        None => None,
    }
}

impl View for Screen {
    type V = ScreenModel;

    open spec fn view(&self) -> ScreenModel {
        match *self {
            Screen::Loading => ScreenModel::Loading,
            Screen::Selecting { chart, results } => ScreenModel::Selecting {
                chart: text_of(chart),
                results: results.rows(),
            },
            Screen::Idle => ScreenModel::Idle,
            Screen::Lobby { lines } => ScreenModel::Lobby { lines: line_models(lines@) },
            Screen::Board { rows, columns, pictures } => ScreenModel::Board {
                rows: rows as nat,
                columns: columns as nat,
                pictures: pictures@,
            },
            Screen::Over => ScreenModel::Over,
        }
    }
}

/// Who of the players is ready.
pub open spec fn lobby(players: Seq<PlayerModel>) -> ScreenModel {
    ScreenModel::Lobby {
        lines: Seq::new(
            players.len(),
            |i: int| (status(players[i].name, players[i].has_started), players[i].has_started),
        ),
    }
}

/// The pictures of the players.
pub open spec fn board(players: Seq<PlayerModel>, now: i64, state: MonitorGameState) -> ScreenModel {
    ScreenModel::Board {
        rows: row_count(players.len()),
        columns: column_count(players.len()),
        pictures: Seq::new(
            players.len(),
            |i: int|
                Picture { cell: cell(players.len(), i), overlay: players[i].overlay(now, state) },
        ),
    }
}

/// Who of the players is ready.
pub fn show_lobby(players: &Vec<PlayerView>) -> (r: Screen)
    ensures
        r@ == lobby(models(players@)),
{
    let mut lines: Vec<LobbyLine> = Vec::new();
    for i in 0..players.len()
        invariant
            lines@.len() == i,
            forall|k: int|
                0 <= k < i ==> #[trigger] line_models(lines@)[k] == (
                    status(players@[k].name@, players@[k].has_started),
                    players@[k].has_started,
                ),
    {
        let ghost was = lines@;
        let ready = players[i].has_started;
        lines.push(LobbyLine { text: status_label(players[i].name.as_str(), ready), ready });
        assert forall|k: int| 0 <= k < i + 1 implies #[trigger] line_models(lines@)[k] == (
            status(players@[k].name@, players@[k].has_started),
            players@[k].has_started,
        ) by {
            if k < i {
                assert(line_models(lines@)[k] == line_models(was)[k]);
            }
        }
    }
    let r = Screen::Lobby { lines };
    assert(r@ =~= lobby(models(players@)));
    r
}

/// The pictures of the players.
pub fn show_board(players: &Vec<PlayerView>, now: i64, state: MonitorGameState) -> (r: Screen)
    ensures
        r@ == board(models(players@), now, state),
{
    let (rows, columns): (usize, usize) = grid(players.len());
    let places: Vec<Cell> = cells(players.len());
    let mut pictures: Vec<Picture> = Vec::new();
    for i in 0..players.len()
        invariant
            places@.len() == players@.len(),
            forall|k: int|
                0 <= k < players@.len() ==> #[trigger] places@[k] == cell(players@.len(), k),
            pictures@.len() == i,
            forall|k: int|
                0 <= k < i ==> #[trigger] pictures@[k] == (Picture {
                    cell: cell(players@.len(), k),
                    overlay: players@[k]@.overlay(now, state),
                }),
    {
        pictures.push(Picture { cell: places[i], overlay: players[i].render(now, state) });
    }
    let r = Screen::Board { rows, columns, pictures };
    assert(r@ =~= board(models(players@), now, state));
    r
}

} // verus!
