//! The list of players: its order, and what happens to all players at once.
use crate::player::{PlayerModel, PlayerView};
use crate::text::{
    before, comes_before, lemma_bytes_before_asymmetric, lemma_not_after_transitive,
};
use vstd::prelude::*;
use vstd::utf8::encode_utf8;

verus! {

/// The states of a list of players.
pub open spec fn models(players: Seq<PlayerView>) -> Seq<PlayerModel> {
    Seq::new(players.len(), |i: int| players[i]@)
}

/// The list with one more player, in front of all players whose names do not come before the
/// player's.
pub open spec fn insert_by_name(sorted: Seq<PlayerModel>, player: PlayerModel) -> Seq<PlayerModel>
    decreases sorted.len(),
{
    if sorted.len() == 0 || !before(sorted[0].name, player.name) {
        seq![player] + sorted
    } else {
        seq![sorted[0]] + insert_by_name(sorted.skip(1), player)
    }
}

/// The players in the order of their names; players of the same name keep their order.
pub open spec fn sort_by_name(players: Seq<PlayerModel>) -> Seq<PlayerModel>
    decreases players.len(),
{
    if players.len() == 0 {
        Seq::empty()
    } else {
        insert_by_name(sort_by_name(players.skip(1)), players[0])
    }
}

/// How many players at the front have names that come before `name`.
spec fn place(sorted: Seq<PlayerModel>, name: Seq<char>) -> nat
    decreases sorted.len(),
{
    if sorted.len() == 0 || !before(sorted[0].name, name) {
        0
    } else {
        1 + place(sorted.skip(1), name)
    }
}

proof fn lemma_place(sorted: Seq<PlayerModel>, player: PlayerModel)
    ensures
        place(sorted, player.name) <= sorted.len(),
        insert_by_name(sorted, player) == sorted.insert(
            place(sorted, player.name) as int,
            player,
        ),
    decreases sorted.len(),
{
    let k = place(sorted, player.name) as int;
    if sorted.len() == 0 || !before(sorted[0].name, player.name) {
        assert(seq![player] + sorted =~= sorted.insert(0, player));
    } else {
        lemma_place(sorted.skip(1), player);
        assert(seq![sorted[0]] + sorted.skip(1).insert(k - 1, player) =~= sorted.insert(k, player));
    }
}

/// The first player with this id, and the length of the list where there is none.
pub open spec fn index_of(players: Seq<PlayerModel>, id: i32) -> nat
    decreases players.len(),
{
    if players.len() == 0 || players[0].id == id {
        0
    } else {
        1 + index_of(players.skip(1), id)
    }
}

/// The players after the first one with this id has left the game.
pub open spec fn with_abort(players: Seq<PlayerModel>, id: i32) -> Seq<PlayerModel> {
    let i = index_of(players, id) as int;
    if i < players.len() {
        players.update(i, players[i].aborted())
    } else {
        players
    }
}

/// Whether somebody plays, and everybody who plays has sent a judge.
pub open spec fn all_ready(players: Seq<PlayerModel>) -> bool {
    &&& exists|i: int| 0 <= i < players.len() && !(#[trigger] players[i]).is_aborted
    &&& forall|i: int|
        0 <= i < players.len() && !(#[trigger] players[i]).is_aborted ==> players[i].has_started
}

/// Puts the players into the order of their names.
pub fn sort_players(players: Vec<PlayerView>) -> (r: Vec<PlayerView>)
    ensures
        models(r@) == sort_by_name(models(players@)),
{
    let mut players = players;
    let mut sorted: Vec<PlayerView> = Vec::new();
    let ghost all = models(players@);
    assert(all.skip(all.len() as int) =~= Seq::empty());
    assert(models(sorted@) =~= Seq::empty());
    while players.len() > 0
        invariant
            players@.len() <= all.len(),
            models(players@) =~= all.take(players@.len() as int),
            models(sorted@) == sort_by_name(all.skip(players@.len() as int)),
        decreases players@.len(),
    {
        let ghost n = players@.len() as int;
        let ghost front = models(players@);
        if let Some(player) = players.pop() {
            let ghost model = player@;
            let ghost was = models(sorted@);
            let mut i: usize = 0;
            assert(was.skip(0) =~= was);
            while i < sorted.len() && comes_before(sorted[i].name.as_str(), player.name.as_str())
                invariant
                    was == models(sorted@),
                    model == player@,
                    i <= sorted@.len(),
                    place(was, model.name) == i + place(was.skip(i as int), model.name),
                decreases sorted@.len() - i,
            {
                assert(was.skip(i as int)[0] == was[i as int]);
                assert(was.skip(i as int).skip(1) =~= was.skip(i + 1));
                i = i + 1;
            }
            proof {
                if i < sorted@.len() {
                    assert(was.skip(i as int)[0] == was[i as int]);
                }
                lemma_place(was, model);
                assert(front[n - 1] == model);
                assert(all.take(n)[n - 1] == model);
                assert(all.skip(n - 1).skip(1) =~= all.skip(n));
                assert(all.skip(n - 1)[0] == model);
                assert(models(players@) =~= front.drop_last());
            }
            sorted.insert(i, player);
            assert(models(sorted@) =~= was.insert(i as int, model));
        }
    }
    assert(all.skip(0) =~= all);
    sorted
}

/// Where the first player with this id stands, if there is one.
pub fn find_player(players: &Vec<PlayerView>, id: i32) -> (r: Option<usize>)
    ensures
        match r {
            Some(i) => i == index_of(models(players@), id) && i < players@.len(),
            None => index_of(models(players@), id) == players@.len(),
        },
{
    let ghost all = models(players@);
    assert(all.skip(0) =~= all);
    for i in 0..players.len()
        invariant
            all == models(players@),
            index_of(all, id) == i + index_of(all.skip(i as int), id),
    {
        assert(all.skip(i as int)[0] == players@[i as int]@);
        assert(all.skip(i as int).skip(1) =~= all.skip(i + 1));
        if players[i].id == id {
            return Some(i);
        }
    }
    assert(all.skip(all.len() as int) =~= Seq::empty());
    None
}

/// Whether somebody plays, and everybody who plays has sent a judge.
pub fn players_ready(players: &Vec<PlayerView>) -> (r: bool)
    ensures
        r == all_ready(models(players@)),
{
    let mut somebody = false;
    for i in 0..players.len()
        invariant
            somebody == exists|k: int|
                0 <= k < i && !(#[trigger] models(players@)[k]).is_aborted,
            forall|k: int|
                0 <= k < i && !(#[trigger] models(players@)[k]).is_aborted ==> models(
                    players@,
                )[k].has_started,
    {
        assert(models(players@)[i as int] == players@[i as int]@);
        if !players[i].is_aborted {
            somebody = true;
            if !players[i].has_started {
                return false;
            }
        }
    }
    somebody
}

/// Whether every player of the list is well-formed.
pub open spec fn all_wf(players: Seq<PlayerModel>) -> bool {
    forall|i: int| 0 <= i < players.len() ==> (#[trigger] players[i]).wf()
}

/// A list stays well-formed if each of its players does.
proof fn lemma_all_wf_kept(before: Seq<PlayerModel>, players: Seq<PlayerView>)
    requires
        players.len() == before.len(),
        forall|k: int|
            0 <= k < before.len() ==> (before[k].wf() ==> (#[trigger] players[k])@.wf()),
    ensures
        all_wf(before) ==> all_wf(models(players)),
{
    if all_wf(before) {
        assert forall|k: int| 0 <= k < players.len() implies (#[trigger] models(players)[k]).wf() by {
            assert(models(players)[k] == players[k]@);
            assert(before[k].wf());
        }
    }
}

/// All players at the start of a new round.
pub open spec fn all_reset(players: Seq<PlayerModel>) -> Seq<PlayerModel> {
    Seq::new(players.len(), |i: int| players[i].reset())
}

/// All players back at the beginning of the chart.
pub open spec fn all_rewound(players: Seq<PlayerModel>) -> Seq<PlayerModel> {
    Seq::new(players.len(), |i: int| players[i].rewound())
}

/// All players with no pause and no resume buffer shown.
pub open spec fn all_released(players: Seq<PlayerModel>) -> Seq<PlayerModel> {
    Seq::new(players.len(), |i: int| players[i].released())
}

/// All players after the global clock has moved on by `delta` to `now`.
pub open spec fn all_ticked(players: Seq<PlayerModel>, delta: i64, now: i64) -> Seq<PlayerModel> {
    Seq::new(players.len(), |i: int| players[i].ticked(delta, now))
}

/// Gets all players ready for a new round.
pub fn reset_all(players: &mut Vec<PlayerView>)
    ensures
        models(final(players)@) == all_reset(models(old(players)@)),
        all_wf(models(old(players)@)) ==> all_wf(models(final(players)@)),
{
    let count: usize = players.len();
    let ghost all = models(players@);
    for i in 0..count
        invariant
            all == models(old(players)@),
            players@.len() == count == all.len(),
            forall|k: int|
                0 <= k < i ==> #[trigger] players@[k]@ == all_reset(all)[k] && (all[k].wf()
                    ==> players@[k]@.wf()),
            forall|k: int| i <= k < count ==> #[trigger] players@[k]@ == all[k],
    {
        players[i].reset();
    }
    assert(models(players@) =~= all_reset(all));
    proof {
        lemma_all_wf_kept(all, players@);
    }
}

/// Takes all players back to the beginning of the chart.
pub fn rewind_all(players: &mut Vec<PlayerView>)
    ensures
        models(final(players)@) == all_rewound(models(old(players)@)),
        all_wf(models(old(players)@)) ==> all_wf(models(final(players)@)),
{
    let count: usize = players.len();
    let ghost all = models(players@);
    for i in 0..count
        invariant
            all == models(old(players)@),
            players@.len() == count == all.len(),
            forall|k: int|
                0 <= k < i ==> #[trigger] players@[k]@ == all_rewound(all)[k] && (all[k].wf()
                    ==> players@[k]@.wf()),
            forall|k: int| i <= k < count ==> #[trigger] players@[k]@ == all[k],
    {
        players[i].rewind();
    }
    assert(models(players@) =~= all_rewound(all));
    proof {
        lemma_all_wf_kept(all, players@);
    }
}

/// Shows no pause and no resume buffer of any player any more.
pub fn release_all(players: &mut Vec<PlayerView>)
    ensures
        models(final(players)@) == all_released(models(old(players)@)),
        all_wf(models(old(players)@)) ==> all_wf(models(final(players)@)),
{
    let count: usize = players.len();
    let ghost all = models(players@);
    for i in 0..count
        invariant
            all == models(old(players)@),
            players@.len() == count == all.len(),
            forall|k: int|
                0 <= k < i ==> #[trigger] players@[k]@ == all_released(all)[k] && (all[k].wf()
                    ==> players@[k]@.wf()),
            forall|k: int| i <= k < count ==> #[trigger] players@[k]@ == all[k],
    {
        players[i].release();
    }
    assert(models(players@) =~= all_released(all));
    proof {
        lemma_all_wf_kept(all, players@);
    }
}

/// Moves all players' clocks on.
pub fn tick_all(players: &mut Vec<PlayerView>, delta: i64, now: i64)
    ensures
        models(final(players)@) == all_ticked(models(old(players)@), delta, now),
        all_wf(models(old(players)@)) ==> all_wf(models(final(players)@)),
{
    let count: usize = players.len();
    let ghost all = models(players@);
    for i in 0..count
        invariant
            all == models(old(players)@),
            players@.len() == count == all.len(),
            forall|k: int|
                0 <= k < i ==> #[trigger] players@[k]@ == all_ticked(all, delta, now)[k] && (all[k].wf()
                    ==> players@[k]@.wf()),
            forall|k: int| i <= k < count ==> #[trigger] players@[k]@ == all[k],
    {
        players[i].update_time(delta, now);
    }
    assert(models(players@) =~= all_ticked(all, delta, now));
    proof {
        lemma_all_wf_kept(all, players@);
    }
}

/// Whether no player stands behind one whose name comes later.
pub open spec fn is_sorted(players: Seq<PlayerModel>) -> bool {
    forall|i: int, j: int|
        0 <= i < j < players.len() ==> !before(
            (#[trigger] players[j]).name,
            (#[trigger] players[i]).name,
        )
}

/// The players of one name, in order.
pub open spec fn named(players: Seq<PlayerModel>, name: Seq<char>) -> Seq<PlayerModel> {
    players.filter(|player: PlayerModel| player.name == name)
}

/// All names in front of a player's place come before the player's, and the one at it does not.
proof fn lemma_place_names(sorted: Seq<PlayerModel>, name: Seq<char>)
    ensures
        place(sorted, name) <= sorted.len(),
        forall|i: int|
            0 <= i < place(sorted, name) ==> before((#[trigger] sorted[i]).name, name),
        place(sorted, name) < sorted.len() ==> !before(
            sorted[place(sorted, name) as int].name,
            name,
        ),
    decreases sorted.len(),
{
    if sorted.len() > 0 && before(sorted[0].name, name) {
        let rest = sorted.skip(1);
        lemma_place_names(rest, name);
        assert forall|i: int| 0 <= i < place(sorted, name) implies before(
            (#[trigger] sorted[i]).name,
            name,
        ) by {
            if i > 0 {
                assert(rest[i - 1] == sorted[i]);
            }
        }
    }
}

proof fn lemma_insert_sorted(sorted: Seq<PlayerModel>, player: PlayerModel)
    requires
        is_sorted(sorted),
    ensures
        is_sorted(insert_by_name(sorted, player)),
{
    lemma_place(sorted, player);
    lemma_place_names(sorted, player.name);
    let k = place(sorted, player.name) as int;
    let after = sorted.insert(k, player);
    assert forall|i: int, j: int| 0 <= i < j < after.len() implies !before(
        (#[trigger] after[j]).name,
        (#[trigger] after[i]).name,
    ) by {
        if j == k {
            assert(after[i] == sorted[i]);
            lemma_bytes_before_asymmetric(
                encode_utf8(sorted[i].name),
                encode_utf8(player.name),
            );
        } else if i == k {
            assert(after[j] == sorted[j - 1]);
            if j - 1 > k {
                lemma_not_after_transitive(
                    encode_utf8(player.name),
                    encode_utf8(sorted[k].name),
                    encode_utf8(sorted[j - 1].name),
                );
            }
        } else {
            let a = if i < k {
                i
            } else {
                i - 1
            };
            let b = if j < k {
                j
            } else {
                j - 1
            };
            assert(after[i] == sorted[a] && after[j] == sorted[b]);
        }
    }
}

/// A player goes in front of the players of the same name.
proof fn lemma_insert_named(sorted: Seq<PlayerModel>, player: PlayerModel, name: Seq<char>)
    ensures
        named(insert_by_name(sorted, player), name) == named(seq![player] + sorted, name),
{
    lemma_place(sorted, player);
    lemma_place_names(sorted, player.name);
    let is_named = |p: PlayerModel| p.name == name;
    let k = place(sorted, player.name) as int;
    let front = sorted.take(k);
    let back = sorted.skip(k);
    assert(sorted.insert(k, player) =~= front + (seq![player] + back));
    assert(sorted =~= front + back);
    assert(seq![player] + sorted =~= seq![player] + (front + back));
    Seq::filter_distributes_over_add(front, seq![player] + back, is_named);
    Seq::filter_distributes_over_add(seq![player], back, is_named);
    Seq::filter_distributes_over_add(seq![player], sorted, is_named);
    Seq::filter_distributes_over_add(front, back, is_named);
    if name == player.name {
        assert forall|i: int| 0 <= i < front.len() implies !is_named(#[trigger] front[i]) by {
            assert(front[i] == sorted[i]);
            lemma_bytes_before_asymmetric(encode_utf8(name), encode_utf8(name));
        }
        lemma_filter_none(front, is_named);
        assert(front.filter(is_named) =~= Seq::empty());
        assert(front.filter(is_named) + (seq![player].filter(is_named) + back.filter(is_named))
            =~= seq![player].filter(is_named) + (front.filter(is_named) + back.filter(is_named)));
    } else {
        assert(seq![player].filter(is_named) =~= Seq::empty()) by {
            reveal_with_fuel(Seq::filter, 2);
        }
        assert(front.filter(is_named) + (seq![player].filter(is_named) + back.filter(is_named))
            =~= seq![player].filter(is_named) + (front.filter(is_named) + back.filter(is_named)));
    }
}

proof fn lemma_filter_none(players: Seq<PlayerModel>, pred: spec_fn(PlayerModel) -> bool)
    requires
        forall|i: int| 0 <= i < players.len() ==> !pred(#[trigger] players[i]),
    ensures
        players.filter(pred).len() == 0,
    decreases players.len(),
{
    reveal(Seq::filter);
    if players.len() > 0 {
        assert forall|i: int| 0 <= i < players.drop_last().len() implies !pred(
            #[trigger] players.drop_last()[i],
        ) by {
            assert(players.drop_last()[i] == players[i]);
        }
        assert(!pred(players[players.len() - 1]));
        lemma_filter_none(players.drop_last(), pred);
    }
}

/// Sorting by name sorts, loses nobody, adds nobody, and keeps the order of players of the same
/// name.
pub proof fn law_sorting_is_stable(players: Seq<PlayerModel>)
    ensures
        is_sorted(sort_by_name(players)),
        sort_by_name(players).to_multiset() == players.to_multiset(),
        sort_by_name(players).len() == players.len(),
        forall|name: Seq<char>| #[trigger] named(sort_by_name(players), name) == named(
            players,
            name,
        ),
    decreases players.len(),
{
    if players.len() > 0 {
        let rest = players.skip(1);
        let sorted = sort_by_name(rest);
        law_sorting_is_stable(rest);
        lemma_insert_sorted(sorted, players[0]);
        lemma_place(sorted, players[0]);
        let k = place(sorted, players[0].name) as int;
        vstd::seq_lib::to_multiset_insert(sorted, k, players[0]);
        vstd::seq_lib::to_multiset_insert(rest, 0, players[0]);
        assert(rest.insert(0, players[0]) =~= players);
        assert forall|name: Seq<char>| #[trigger] named(sort_by_name(players), name) == named(
            players,
            name,
        ) by {
            lemma_insert_named(sorted, players[0], name);
            let is_named = |p: PlayerModel| p.name == name;
            assert(players =~= seq![players[0]] + rest);
            Seq::filter_distributes_over_add(seq![players[0]], sorted, is_named);
            Seq::filter_distributes_over_add(seq![players[0]], rest, is_named);
            assert(named(sorted, name) == named(rest, name));
        }
    } else {
        assert(players =~= Seq::empty());
    }
}

} // verus!
