//! The room that the monitor watches, as the server reports it.
use crate::labels::{chat, clock};
use crate::player::UserInfo;
use crate::scores::Score;
use vstd::prelude::*;

verus! {

/// What the room is doing.
#[derive(Clone, Copy, PartialEq, Eq, Debug, Structural)]
pub enum RoomState {
    /// A chart is being selected; the selected one so far.
    SelectChart(Option<i32>),
    WaitingForReady,
    Playing,
}

/// A time of day.
#[derive(Clone, Copy, PartialEq, Eq, Debug, Structural)]
pub struct TimeOfDay {
    pub hour: u32,
    pub minute: u32,
    pub second: u32,
}

impl TimeOfDay {
    /// Whether the time is one that a clock shows.
    pub open spec fn wf(self) -> bool {
        self.hour < 24 && self.minute < 60 && self.second < 60
    }
}

/// A message of the room.
#[derive(Debug)]
pub enum Message {
    /// `user` says something; it was heard at time `at`.
    Chat { user: String, content: String, at: TimeOfDay },
    /// A chart was selected.
    SelectChart { id: i32, name: String },
    /// A round begins.
    StartPlaying,
    /// `user` has finished; the accuracy is the bit pattern of a 32-bit floating-point number.
    Played { user: String, score: i32, accuracy: u32, full_combo: bool },
    /// The round is over.
    GameEnd,
    /// A player leaves the round.
    Abort { player: i32 },
    /// Anything else.
    Other,
}

/// What the server has to say in one frame.
#[derive(Debug)]
pub struct RoomNews {
    pub room_state: RoomState,
    /// Whether the monitor has told the server that it is ready, if that is known.
    pub is_ready: Option<bool>,
    /// How many pings in a row have failed.
    pub ping_fail_count: u32,
    pub messages: Vec<Message>,
}

impl Message {
    /// Whether a time of day in the message is one that a clock shows.
    pub open spec fn wf(self) -> bool {
        match self {
            Message::Chat { at, .. } => at.wf(),
            _ => true,
        }
    }
}

/// A signed score read as an unsigned one: negative scores wrap around.
pub open spec fn unsigned_score(score: i32) -> u32 {
    if score >= 0 {
        score as u32
    } else {
        (score + 0x1_0000_0000) as u32
    }
}

/// The chat lines among the messages, in order.
pub open spec fn chat_lines(messages: Seq<Message>) -> Seq<Seq<char>>
    decreases messages.len(),
{
    if messages.len() == 0 {
        Seq::empty()
    } else {
        let before = chat_lines(messages.drop_last());
        match messages.last() {
            Message::Chat { user, content, at } => before.push(
                chat(
                    clock(at.hour as int, at.minute as int, at.second as int),
                    user@,
                    content@,
                ),
            ),
            _ => before,
        }
    }
}

/// The results after those among the messages have been entered, in order.
pub open spec fn with_scores(
    scores: Map<Seq<char>, Score>,
    messages: Seq<Message>,
) -> Map<Seq<char>, Score>
    decreases messages.len(),
{
    if messages.len() == 0 {
        scores
    } else {
        let before = with_scores(scores, messages.drop_last());
        match messages.last() {
            Message::Played { user, score, accuracy, full_combo } => before.insert(
                user@,
                Score { score: unsigned_score(score), accuracy, full_combo },
            ),
            _ => before,
        }
    }
}

/// Reads a signed score as an unsigned one.
pub fn read_score(score: i32) -> (r: u32)
    ensures
        r == unsigned_score(score),
{
    if score >= 0 {
        score as u32
    } else {
        let wrapped: i64 = score as i64 + 0x1_0000_0000;
        wrapped as u32
    }
}

/// The players among the users: all but the monitors.
pub fn playing_users(users: Vec<UserInfo>) -> (r: Vec<UserInfo>)
    ensures
        r@ == users@.filter(|user: UserInfo| !user.monitor),
{
    let mut users = users;
    let mut backwards: Vec<UserInfo> = Vec::new();
    let mut out: Vec<UserInfo> = Vec::new();
    let ghost all = users@;
    while users.len() > 0
        invariant
            users@.len() + backwards@.len() == all.len(),
            users@ == all.take(users@.len() as int),
            backwards@ =~= all.skip(users@.len() as int).reverse(),
        decreases users@.len(),
    {
        let ghost n = users@.len() as int;
        if let Some(user) = users.pop() {
            backwards.push(user);
            assert(all.skip(n - 1).reverse() =~= all.skip(n).reverse().push(all[n - 1]));
        }
    }
    let ghost plays = |user: UserInfo| !user.monitor;
    proof {
        assert(backwards@ =~= all.reverse());
        assert(all.take(0).filter(plays) =~= Seq::empty()) by {
            reveal(Seq::filter);
        }
    }
    while backwards.len() > 0
        invariant
            plays == |user: UserInfo| !user.monitor,
            backwards@.len() <= all.len(),
            backwards@ =~= all.skip(all.len() - backwards@.len()).reverse(),
            out@ == all.take(all.len() - backwards@.len()).filter(plays),
        decreases backwards@.len(),
    {
        let ghost done = all.len() - backwards@.len();
        if let Some(user) = backwards.pop() {
            proof {
                assert(user == all.skip(done)[0]);
                assert(all.skip(done + 1).reverse() =~= all.skip(done).reverse().drop_last());
                assert(all.take(done + 1).drop_last() =~= all.take(done));
                reveal(Seq::filter);
            }
            if !user.monitor {
                out.push(user);
            }
        }
    }
    assert(all.take(all.len() as int) =~= all);
    out
}

} // verus!
