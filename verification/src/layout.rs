//! How the players' pictures share the screen.
use vstd::prelude::*;

verus! {

/// The place of one player's picture.
#[derive(Clone, Copy, PartialEq, Eq, Debug, Structural)]
pub struct Cell {
    /// The player, by position in the list of players.
    pub player: usize,
    pub row: usize,
    pub column: usize,
}

/// How many rows the players fill: one for up to two players, two for more.
pub open spec fn row_count(players: nat) -> nat {
    if players > 2 {
        2
    } else {
        1
    }
}

/// How many columns the players fill: as few as the rows allow.
pub open spec fn column_count(players: nat) -> nat {
    if players > 2 {
        (players + 1) / 2
    } else {
        players
    }
}

/// The place of player `k`: the rows are filled one after the other.
pub open spec fn cell(players: nat, k: int) -> Cell {
    let columns = column_count(players) as int;
    Cell {
        player: k as usize,
        row: if k < columns {
            0
        } else {
            1
        },
        column: if k < columns {
            k as usize
        } else {
            (k - columns) as usize
        },
    }
}

/// The numbers of rows and columns for so many players.
pub fn grid(players: usize) -> (r: (usize, usize))
    ensures
        r.0 == row_count(players as nat),
        r.1 == column_count(players as nat),
{
    if players > 2 {
        (2, players / 2 + players % 2)
    } else {
        (1, players)
    }
}

/// The places of all players, in the players' order.
pub fn cells(players: usize) -> (r: Vec<Cell>)
    ensures
        r@.len() == players,
        forall|k: int| 0 <= k < players ==> #[trigger] r@[k] == cell(players as nat, k),
{
    let (rows, columns): (usize, usize) = grid(players);
    let mut out: Vec<Cell> = Vec::new();
    let mut next: usize = 0;
    for row in 0..rows
        invariant
            rows == row_count(players as nat),
            columns == column_count(players as nat),
            next == out@.len(),
            next <= players,
            row == 0 ==> next == 0,
            row == 1 ==> next == columns,
            row == 2 ==> next == players,
            forall|k: int| 0 <= k < next ==> #[trigger] out@[k] == cell(players as nat, k),
    {
        let left: usize = players - next;
        let count: usize = if left < columns {
            left
        } else {
            columns
        };
        let ghost first = next;
        for column in 0..count
            invariant
                columns == column_count(players as nat),
                row < 2,
                row == 0 ==> first == 0,
                row == 1 ==> first == columns,
                first + count <= players,
                count <= columns,
                next == first + column,
                next == out@.len(),
                forall|k: int| 0 <= k < next ==> #[trigger] out@[k] == cell(players as nat, k),
        {
            out.push(Cell { player: next, row, column });
            next = next + 1;
        }
    }
    out
}

/// Every player has a place inside the grid, and no two players share one.
pub proof fn law_places_are_distinct(players: nat, k: int, m: int)
    requires
        players <= usize::MAX,
        0 <= k < m < players,
    ensures
        cell(players, k).player == k,
        cell(players, k).row < row_count(players),
        cell(players, m).row < row_count(players),
        cell(players, k).column < column_count(players),
        cell(players, m).column < column_count(players),
        cell(players, k).row != cell(players, m).row || cell(players, k).column != cell(
            players,
            m,
        ).column,
{
}

} // verus!
