//! The results of the last round, one for each player by name.
use crate::labels::{result, score_label};
use vstd::prelude::*;

verus! {

/// One result. The accuracy is carried as the bit pattern of a 32-bit floating-point number.
#[derive(Clone, Copy, PartialEq, Eq, Debug, Structural)]
pub struct Score {
    pub score: u32,
    pub accuracy: u32,
    pub full_combo: bool,
}

/// A result with its player's name.
#[derive(PartialEq, Eq, Debug)]
pub struct ScoreEntry {
    pub user: String,
    pub score: Score,
}

/// All results, in the order in which their players first appeared.
#[derive(PartialEq, Eq, Debug)]
pub struct ScoreBoard {
    pub entries: Vec<ScoreEntry>,
}

/// Whether entry `i` is the result of `user`.
pub open spec fn is_of(entries: Seq<ScoreEntry>, i: int, user: Seq<char>) -> bool {
    0 <= i < entries.len() && entries[i].user@ == user
}

impl View for ScoreBoard {
    type V = Map<Seq<char>, Score>;

    open spec fn view(&self) -> Map<Seq<char>, Score> {
        Map::new(
            |user: Seq<char>| exists|i: int| is_of(self.entries@, i, user),
            |user: Seq<char>| self.entries@[choose|i: int| is_of(self.entries@, i, user)].score,
        )
    }
}

impl ScoreEntry {
    /// The result as text; `percent` is its accuracy as text.
    pub fn line(&self, percent: &str) -> (r: String)
        ensures
            r@ == result(self.score.score, percent@, self.score.full_combo),
    {
        score_label(self.score.score, percent, self.score.full_combo)
    }
}

impl ScoreBoard {
    /// The results with their players' names, in order.
    pub open spec fn rows(&self) -> Seq<(Seq<char>, Score)> {
        Seq::new(
            self.entries@.len(),
            |i: int| (self.entries@[i].user@, self.entries@[i].score),
        )
    }

    /// Whether every player has one result only.
    pub open spec fn wf(&self) -> bool {
        forall|i: int, j: int|
            0 <= i < j < self.entries@.len() ==> (#[trigger] self.entries@[i]).user@ != (
            #[trigger] self.entries@[j]).user@
    }

    /// A board without results.
    pub fn new() -> (r: Self)
        ensures
            r.wf(),
            r@ == Map::<Seq<char>, Score>::empty(),
    {
        let r = ScoreBoard { entries: Vec::new() };
        assert(r@ =~= Map::<Seq<char>, Score>::empty());
        r
    }

    /// A copy of the board.
    pub fn duplicate(&self) -> (r: Self)
        ensures
            r.rows() == self.rows(),
            self.wf() ==> r.wf(),
    {
        let mut entries: Vec<ScoreEntry> = Vec::new();
        for i in 0..self.entries.len()
            invariant
                entries@.len() == i,
                forall|k: int|
                    0 <= k < i ==> (#[trigger] entries@[k]).user@ == self.entries@[k].user@
                        && entries@[k].score == self.entries@[k].score,
        {
            let entry: &ScoreEntry = &self.entries[i];
            entries.push(ScoreEntry { user: entry.user.clone(), score: entry.score });
        }
        let r = ScoreBoard { entries };
        assert(r.rows() =~= self.rows());
        r
    }

    /// Removes all results.
    pub fn clear(&mut self)
        ensures
            final(self).wf(),
            final(self)@ == Map::<Seq<char>, Score>::empty(),
    {
        self.entries.clear();
        assert(self@ =~= Map::<Seq<char>, Score>::empty());
    }

    /// Sets the result of `user`, in place of an earlier one.
    pub fn insert(&mut self, user: String, score: Score)
        requires
            old(self).wf(),
        ensures
            final(self).wf(),
            final(self)@ == old(self)@.insert(user@, score),
    {
        let ghost before = self.entries@;
        let ghost expected = self@.insert(user@, score);
        let count: usize = self.entries.len();
        for i in 0..count
            invariant
                count == before.len(),
                self.entries@ == before,
                *self == *old(self),
                self.wf(),
                expected == self@.insert(user@, score),
                forall|k: int| 0 <= k < i ==> (#[trigger] before[k]).user@ != user@,
        {
            if self.entries[i].user == user {
                self.entries[i].score = score;
                proof {
                    let after = self.entries@;
                    assert(forall|k: int, u: Seq<char>| is_of(after, k, u) == is_of(before, k, u));
                    assert forall|u: Seq<char>| #[trigger] self@.contains_key(u) implies self@[u]
                        == expected[u] by {
                        let k = choose|k: int| is_of(after, k, u);
                        let m = choose|k: int| is_of(before, k, u);
                        assert(is_of(after, k, u));
                        assert(is_of(before, m, u));
                        assert(k == m);
                        if u == user@ {
                            assert(is_of(after, i as int, u));
                            assert(k == i);
                        }
                    }
                    assert(is_of(after, i as int, user@));
                    assert(self@ =~= expected);
                }
                return;
            }
        }
        self.entries.push(ScoreEntry { user, score });
        proof {
            let after = self.entries@;
            let n = before.len() as int;
            assert(is_of(after, n, user@));
            assert forall|u: Seq<char>| #[trigger] self@.contains_key(u) == expected.contains_key(
                u,
            ) by {
                if exists|k: int| is_of(before, k, u) {
                    let k = choose|k: int| is_of(before, k, u);
                    assert(is_of(after, k, u));
                }
                if exists|k: int| is_of(after, k, u) && u != user@ {
                    let k = choose|k: int| is_of(after, k, u);
                    assert(is_of(before, k, u));
                }
            }
            assert forall|u: Seq<char>| #[trigger] self@.contains_key(u) implies self@[u]
                == expected[u] by {
                let k = choose|k: int| is_of(after, k, u);
                assert(is_of(after, k, u));
                if u == user@ {
                    assert(k == n);
                } else {
                    assert(is_of(before, k, u));
                    let m = choose|k: int| is_of(before, k, u);
                    assert(is_of(before, m, u));
                    assert(k == m);
                }
            }
            assert(self@ =~= expected);
        }
    }
}

/// The rows of a board list every result exactly once.
pub proof fn law_rows_list_every_result_once(board: ScoreBoard, user: Seq<char>)
    requires
        board.wf(),
    ensures
        forall|i: int|
            0 <= i < board.rows().len() ==> board@.contains_pair(
                (#[trigger] board.rows()[i]).0,
                board.rows()[i].1,
            ),
        board@.contains_key(user) ==> board.rows().contains((user, board@[user])),
        forall|i: int, j: int|
            0 <= i < j < board.rows().len() ==> (#[trigger] board.rows()[i]).0 != (
            #[trigger] board.rows()[j]).0,
{
    assert forall|i: int| 0 <= i < board.rows().len() implies board@.contains_pair(
        (#[trigger] board.rows()[i]).0,
        board.rows()[i].1,
    ) by {
        let name = board.entries@[i].user@;
        assert(is_of(board.entries@, i, name));
        let k = choose|k: int| is_of(board.entries@, k, name);
        assert(is_of(board.entries@, k, name));
        assert(k == i);
    }
    if board@.contains_key(user) {
        let k = choose|k: int| is_of(board.entries@, k, user);
        assert(is_of(board.entries@, k, user));
        assert(board.rows()[k] == (user, board@[user]));
    }
}

} // verus!
