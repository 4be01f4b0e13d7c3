//! Fingers on a player's screen, reconstructed from the touch frames that the player sends.
use std::collections::HashMap;
use vstd::prelude::*;

verus! {

/// A point on the screen. The coordinates are carried as the bit patterns of two 32-bit
/// floating-point numbers; nothing here computes with them.
#[derive(Clone, Copy, PartialEq, Eq, Debug, Structural)]
pub struct Position {
    pub x: u32,
    pub y: u32,
}

/// One finger in a touch frame. An `id` of zero or more says where finger `id` is; a negative one
/// says that finger `-1 - id` was lifted.
#[derive(Clone, Copy, PartialEq, Eq, Debug, Structural)]
pub struct TouchInput {
    pub id: i8,
    pub pos: Position,
}

/// The fingers at one instant.
#[derive(Debug)]
pub struct TouchFrame {
    pub time: i64,
    pub points: Vec<TouchInput>,
}

/// The contents of a touch frame.
#[verifier::ext_equal]
pub struct TouchFrameModel {
    pub time: i64,
    pub points: Seq<TouchInput>,
}

impl View for TouchFrame {
    type V = TouchFrameModel;

    open spec fn view(&self) -> TouchFrameModel {
        TouchFrameModel { time: self.time, points: self.points@ }
    }
}

/// A finger to draw.
#[derive(Clone, Copy, PartialEq, Eq, Debug, Structural)]
pub enum TouchPoint {
    /// On its way between two frames: `elapsed` of the `span` between them is over.
    Moving { from: Position, to: Position, elapsed: i64, span: i64 },
    /// Not mentioned in the next frame.
    Held { at: Position },
}

/// How many fingers a frame can tell apart.
pub const FINGERS: u8 = 128;

/// The finger that an id speaks of.
pub open spec fn finger(id: i8) -> i8 {
    if id >= 0 {
        id
    } else {
        (-1 - id) as i8
    }
}

/// Where the fingers are once one more of them has been reported.
pub open spec fn with_point(current: Map<i8, Position>, point: TouchInput) -> Map<i8, Position> {
    if point.id >= 0 {
        current.insert(point.id, point.pos)
    } else {
        current.remove(finger(point.id))
    }
}

/// Where the fingers are once all of `points` have been reported, in order.
pub open spec fn with_points(current: Map<i8, Position>, points: Seq<TouchInput>) -> Map<
    i8,
    Position,
>
    decreases points.len(),
{
    if points.len() == 0 {
        current
    } else {
        with_point(with_points(current, points.drop_last()), points.last())
    }
}

/// The fingers that `points` do not speak of.
pub open spec fn unmentioned(current: Map<i8, Position>, points: Seq<TouchInput>) -> Map<
    i8,
    Position,
>
    decreases points.len(),
{
    if points.len() == 0 {
        current
    } else {
        unmentioned(current, points.drop_last()).remove(finger(points.last().id))
    }
}

/// The fingers that move towards their place in `points`: each finger that is down, at its first
/// mention.
pub open spec fn moving(
    current: Map<i8, Position>,
    points: Seq<TouchInput>,
    elapsed: i64,
    span: i64,
) -> Seq<TouchPoint>
    decreases points.len(),
{
    if points.len() == 0 {
        Seq::empty()
    } else {
        let before = moving(current, points.drop_last(), elapsed, span);
        let left = unmentioned(current, points.drop_last());
        let id = finger(points.last().id);
        if left.contains_key(id) {
            before.push(
                TouchPoint::Moving { from: left[id], to: points.last().pos, elapsed, span },
            )
        } else {
            before
        }
    }
}

/// The fingers below `count` that are down, by increasing number.
pub open spec fn held(current: Map<i8, Position>, count: int) -> Seq<TouchPoint>
    decreases count,
{
    if count <= 0 {
        Seq::empty()
    } else {
        let before = held(current, count - 1);
        if current.contains_key((count - 1) as i8) {
            before.push(TouchPoint::Held { at: current[(count - 1) as i8] })
        } else {
            before
        }
    }
}

/// The fingers to draw on the way to a frame with `points`: first those that move, then those that
/// the frame does not mention.
pub open spec fn drawn(
    current: Map<i8, Position>,
    points: Seq<TouchInput>,
    elapsed: i64,
    span: i64,
) -> Seq<TouchPoint> {
    moving(current, points, elapsed, span) + held(unmentioned(current, points), FINGERS as int)
}

/// Whether the map names fingers only.
pub open spec fn fingers_only(current: Map<i8, Position>) -> bool {
    forall|id: i8| #[trigger] current.contains_key(id) ==> id >= 0
}

/// Reporting fingers names fingers only.
pub proof fn lemma_with_points_fingers(current: Map<i8, Position>, points: Seq<TouchInput>)
    requires
        fingers_only(current),
    ensures
        fingers_only(with_points(current, points)),
    decreases points.len(),
{
    if points.len() > 0 {
        lemma_with_points_fingers(current, points.drop_last());
    }
}

fn finger_of(id: i8) -> (r: i8)
    ensures
        r == finger(id),
{
    if id >= 0 {
        id
    } else {
        -1 - id
    }
}

/// Takes over the fingers that a frame reports.
pub fn apply_points(current: &mut HashMap<i8, Position>, points: &Vec<TouchInput>)
    ensures
        final(current)@ == with_points(old(current)@, points@),
{
    broadcast use vstd::std_specs::hash::group_hash_axioms;

    for i in 0..points.len()
        invariant
            current@ == with_points(old(current)@, points@.take(i as int)),
    {
        let point: TouchInput = points[i];
        assert(points@.take(i + 1).drop_last() =~= points@.take(i as int));
        if point.id >= 0 {
            current.insert(point.id, point.pos);
        } else {
            let id: i8 = finger_of(point.id);
            current.remove(&id);
        }
    }
    assert(points@.take(points@.len() as int) =~= points@);
}

/// The fingers to draw on the way to a frame with `points`.
pub fn draw_points(
    current: &HashMap<i8, Position>,
    points: &Vec<TouchInput>,
    elapsed: i64,
    span: i64,
) -> (r: Vec<TouchPoint>)
    ensures
        r@ == drawn(current@, points@, elapsed, span),
{
    broadcast use vstd::std_specs::hash::group_hash_axioms;

    let mut left: HashMap<i8, Position> = current.clone();
    let mut out: Vec<TouchPoint> = Vec::new();
    for i in 0..points.len()
        invariant
            left@ == unmentioned(current@, points@.take(i as int)),
            out@ == moving(current@, points@.take(i as int), elapsed, span),
    {
        let point: TouchInput = points[i];
        assert(points@.take(i + 1).drop_last() =~= points@.take(i as int));
        let id: i8 = finger_of(point.id);
        match left.remove(&id) {
            Some(from) => {
                out.push(TouchPoint::Moving { from, to: point.pos, elapsed, span });
            },
            None => {
                assert(left@ =~= unmentioned(current@, points@.take(i + 1)));
            },
        }
    }
    assert(points@.take(points@.len() as int) =~= points@);
    let ghost moved = out@;
    for n in 0..FINGERS
        invariant
            out@ == moved + held(left@, n as int),
    {
        let id: i8 = n as i8;
        assert((n + 1 - 1) as i8 == id);
        match left.get(&id) {
            Some(at) => {
                out.push(TouchPoint::Held { at: *at });
            },
            None => {},
        }
    }
    out
}

} // verus!
