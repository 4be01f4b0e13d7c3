//! Laws of what a player's game sends: how it is queued, how fingers follow touch frames, and what
//! judge events make of notes. They speak of single events, points and notes.
use crate::chart::{has_note, holds, holds_in, note_count, JudgeStatus, Note};
use crate::judge::{commit_count, judged, lemma_due_count, JudgeAction, JudgeEvent, Verdict};
use crate::laws::{is_last_for, law_last_judge_decides};
use crate::player::{lemma_passed_count, passed_count, with_frames, PlayerModel};
use crate::time::saturate;
use crate::touch::{
    held, moving, unmentioned, with_points, Position, TouchFrameModel, TouchInput, TouchPoint, FINGERS,
};
use vstd::prelude::*;

verus! {

/// What arrives goes behind what waits, in order, and nothing that waits is lost. Nothing but the
/// two queues and what is known of them changes; and who has left takes nothing over.
pub proof fn law_new_data_goes_behind_the_old(
    player: PlayerModel,
    touch_frames: Seq<TouchFrameModel>,
    judge_events: Seq<JudgeEvent>,
)
    ensures
        player.is_aborted ==> player.received(touch_frames, judge_events) == player,
        !player.is_aborted ==> {
            let after = player.received(touch_frames, judge_events);
            &&& after.judges == player.judges + judge_events
            &&& after.touches == player.touches + touch_frames
            &&& touch_frames.len() > 0 ==> after.latest_time == Some(touch_frames.last().time)
            &&& touch_frames.len() == 0 && player.touches.len() > 0 ==> after.latest_time == Some(
                player.touches.last().time,
            )
            &&& touch_frames.len() == 0 && player.touches.len() == 0 ==> after.latest_time
                == player.latest_time
            &&& after.has_received_judges == (player.has_received_judges || player.judges.len() > 0
                || judge_events.len() > 0)
            &&& after.has_started == (player.has_started || (player.judges.len() == 0
                && judge_events.len() > 0))
            &&& after == (PlayerModel {
                judges: after.judges,
                touches: after.touches,
                latest_time: after.latest_time,
                has_received_judges: after.has_received_judges,
                has_started: after.has_started,
                ..player
            })
        },
{
}

/// Data that arrives in two parts is queued as if it had arrived at once.
pub proof fn law_data_may_arrive_in_parts(
    player: PlayerModel,
    touches: Seq<TouchFrameModel>,
    more_touches: Seq<TouchFrameModel>,
    judges: Seq<JudgeEvent>,
    more_judges: Seq<JudgeEvent>,
)
    ensures
        player.received(touches, judges).received(more_touches, more_judges) == player.received(
            touches + more_touches,
            judges + more_judges,
        ),
{
    if !player.is_aborted {
        assert(player.judges + judges + more_judges =~= player.judges + (judges + more_judges));
        assert(player.touches + touches + more_touches =~= player.touches + (touches
            + more_touches));
    }
}

/// Whether a point speaks of finger `f`: that it is down, or, in the complement, that it was lifted.
pub open spec fn speaks_of(point: TouchInput, f: int) -> bool {
    point.id == f || point.id == -1 - f
}

/// Whether no point speaks of finger `f`.
pub open spec fn silent(points: Seq<TouchInput>, f: int) -> bool {
    forall|k: int| 0 <= k < points.len() ==> !speaks_of(#[trigger] points[k], f)
}

/// How many touch frames playback leaves behind when it comes to `t`.
pub open spec fn frames_left_behind(player: PlayerModel, t: i64) -> int {
    player.touches.len() - player.touched(t).touches.len()
}

/// Playback leaves behind the frames at the front that lie before `t`, up to the first that does
/// not, and keeps all others in order. It remembers the time of the last one, and changes nothing
/// but the fingers.
pub proof fn law_frames_before_now_are_left_behind(player: PlayerModel, t: i64)
    ensures
        ({
            let after = player.touched(t);
            let n = frames_left_behind(player, t);
            &&& 0 <= n <= player.touches.len()
            &&& after.touches == player.touches.skip(n)
            &&& forall|i: int| 0 <= i < n ==> (#[trigger] player.touches[i]).time < t
            &&& after.touches.len() > 0 ==> after.touches[0].time >= t
            &&& after.current_time == if n > 0 {
                player.touches[n - 1].time
            } else {
                player.current_time
            }
            &&& n == 0 ==> after == player
            &&& n > 0 && after.touches.len() == 0 ==> after.touch_points.len() == 0
            &&& after == (PlayerModel {
                touches: after.touches,
                current_touches: after.current_touches,
                current_time: after.current_time,
                touch_points: after.touch_points,
                ..player
            })
        }),
{
    lemma_passed_count(player.touches, t);
    assert(player.touches.skip(0) =~= player.touches);
}

proof fn lemma_points_silent(current: Map<i8, Position>, points: Seq<TouchInput>, f: i8)
    requires
        f >= 0,
        silent(points, f as int),
    ensures
        with_points(current, points).contains_key(f) == current.contains_key(f),
        current.contains_key(f) ==> with_points(current, points)[f] == current[f],
    decreases points.len(),
{
    if points.len() > 0 {
        let front = points.drop_last();
        assert(forall|k: int| 0 <= k < front.len() ==> #[trigger] front[k] == points[k]);
        lemma_points_silent(current, front, f);
        assert(!speaks_of(points[points.len() - 1], f as int));
    }
}

proof fn lemma_points_last(current: Map<i8, Position>, points: Seq<TouchInput>, k: int, f: i8)
    requires
        f >= 0,
        0 <= k < points.len(),
        speaks_of(points[k], f as int),
        forall|m: int| k < m < points.len() ==> !speaks_of(#[trigger] points[m], f as int),
    ensures
        with_points(current, points).contains_key(f) == (points[k].id >= 0),
        points[k].id >= 0 ==> with_points(current, points)[f] == points[k].pos,
    decreases points.len(),
{
    if k < points.len() - 1 {
        let front = points.drop_last();
        assert(forall|m: int| 0 <= m < front.len() ==> #[trigger] front[m] == points[m]);
        assert(!speaks_of(points[points.len() - 1], f as int));
        lemma_points_last(current, front, k, f);
    }
}

proof fn lemma_frames_silent(current: Map<i8, Position>, passed: Seq<TouchFrameModel>, f: i8)
    requires
        f >= 0,
        forall|i: int| 0 <= i < passed.len() ==> silent((#[trigger] passed[i]).points, f as int),
    ensures
        with_frames(current, passed).contains_key(f) == current.contains_key(f),
        current.contains_key(f) ==> with_frames(current, passed)[f] == current[f],
    decreases passed.len(),
{
    if passed.len() > 0 {
        let front = passed.drop_last();
        assert(forall|i: int| 0 <= i < front.len() ==> #[trigger] front[i] == passed[i]);
        lemma_frames_silent(current, front, f);
        assert(silent(passed[passed.len() - 1].points, f as int));
        lemma_points_silent(with_frames(current, front), passed.last().points, f);
    }
}

proof fn lemma_frames_last(
    current: Map<i8, Position>,
    passed: Seq<TouchFrameModel>,
    i: int,
    k: int,
    f: i8,
)
    requires
        f >= 0,
        0 <= i < passed.len(),
        0 <= k < passed[i].points.len(),
        speaks_of(passed[i].points[k], f as int),
        forall|m: int|
            k < m < passed[i].points.len() ==> !speaks_of(#[trigger] passed[i].points[m], f as int),
        forall|j: int| i < j < passed.len() ==> silent((#[trigger] passed[j]).points, f as int),
    ensures
        with_frames(current, passed).contains_key(f) == (passed[i].points[k].id >= 0),
        passed[i].points[k].id >= 0 ==> with_frames(current, passed)[f] == passed[i].points[k].pos,
    decreases passed.len(),
{
    let front = passed.drop_last();
    if i == passed.len() - 1 {
        lemma_points_last(with_frames(current, front), passed.last().points, k, f);
    } else {
        assert(forall|j: int| 0 <= j < front.len() ==> #[trigger] front[j] == passed[j]);
        lemma_frames_last(current, front, i, k, f);
        assert(silent(passed[passed.len() - 1].points, f as int));
        lemma_points_silent(with_frames(current, front), passed.last().points, f);
    }
}

/// A finger that none of the frames left behind speaks of stays as it was: up, or down at its place.
pub proof fn law_a_silent_finger_stays(player: PlayerModel, t: i64, f: i8)
    requires
        f >= 0,
        forall|i: int|
            0 <= i < frames_left_behind(player, t) ==> silent(
                (#[trigger] player.touches[i]).points,
                f as int,
            ),
    ensures
        player.touched(t).current_touches.contains_key(f) == player.current_touches.contains_key(f),
        player.current_touches.contains_key(f) ==> player.touched(t).current_touches[f]
            == player.current_touches[f],
{
    law_frames_before_now_are_left_behind(player, t);
    lemma_passed_count(player.touches, t);
    let n = passed_count(player.touches, t) as int;
    let passed = player.touches.take(n);
    assert(forall|i: int| 0 <= i < n ==> #[trigger] passed[i] == player.touches[i]);
    lemma_frames_silent(player.current_touches, passed, f);
}

/// A finger is where the last point that speaks of it says: down at the point's place, or up. Point
/// `k` of frame `i` is that point: nothing behind it in the frames left behind speaks of the finger.
pub proof fn law_the_last_point_places_a_finger(player: PlayerModel, t: i64, i: int, k: int, f: i8)
    requires
        f >= 0,
        0 <= i < frames_left_behind(player, t),
        0 <= k < player.touches[i].points.len(),
        speaks_of(player.touches[i].points[k], f as int),
        forall|m: int|
            k < m < player.touches[i].points.len() ==> !speaks_of(
                #[trigger] player.touches[i].points[m],
                f as int,
            ),
        forall|j: int|
            i < j < frames_left_behind(player, t) ==> silent(
                (#[trigger] player.touches[j]).points,
                f as int,
            ),
    ensures
        player.touched(t).current_touches.contains_key(f) == (player.touches[i].points[k].id >= 0),
        player.touches[i].points[k].id >= 0 ==> player.touched(t).current_touches[f]
            == player.touches[i].points[k].pos,
{
    law_frames_before_now_are_left_behind(player, t);
    lemma_passed_count(player.touches, t);
    let n = passed_count(player.touches, t) as int;
    let passed = player.touches.take(n);
    assert(forall|j: int| 0 <= j < n ==> #[trigger] passed[j] == player.touches[j]);
    lemma_frames_last(player.current_touches, passed, i, k, f);
}

/// Whether point `k` is the first to speak of finger `f`.
pub open spec fn is_first_word(points: Seq<TouchInput>, k: int, f: int) -> bool {
    &&& 0 <= k < points.len()
    &&& speaks_of(points[k], f)
    &&& forall|m: int| 0 <= m < k ==> !speaks_of(#[trigger] points[m], f)
}

/// Whether point `k` moves a finger: it is the first to speak of one that is down.
pub open spec fn moves_a_finger(current: Map<i8, Position>, points: Seq<TouchInput>, k: int) -> bool {
    exists|f: i8| #[trigger] current.contains_key(f) && is_first_word(points, k, f as int)
}

/// Whether `drawn` shows the fingers that are down on their way to `points`: first those that
/// `points` speak of, in the order `m` of the first words on them, each between its place and the
/// point's; then the others, by increasing number `h`, each at its place.
pub open spec fn shows_fingers(
    drawn: Seq<TouchPoint>,
    current: Map<i8, Position>,
    points: Seq<TouchInput>,
    elapsed: i64,
    span: i64,
    m: Seq<int>,
    h: Seq<i8>,
) -> bool {
    &&& drawn.len() == m.len() + h.len()
    &&& forall|p: int, q: int| 0 <= p < q < m.len() ==> m[p] < m[q]
    &&& forall|p: int, q: int| 0 <= p < q < h.len() ==> h[p] < h[q]
    &&& forall|k: int| #[trigger] m.contains(k) <==> moves_a_finger(current, points, k)
    &&& forall|f: i8|
        #[trigger] h.contains(f) <==> current.contains_key(f) && silent(points, f as int)
    &&& forall|p: int, f: i8|
        #![trigger m[p], current.contains_key(f)]
        0 <= p < m.len() && current.contains_key(f) && speaks_of(points[m[p]], f as int)
            ==> drawn[p] == (TouchPoint::Moving {
            from: current[f],
            to: points[m[p]].pos,
            elapsed,
            span,
        })
    &&& forall|q: int|
        0 <= q < h.len() ==> drawn[m.len() + q] == (TouchPoint::Held { at: current[#[trigger] h[q]] })
}

proof fn lemma_unmentioned(current: Map<i8, Position>, points: Seq<TouchInput>, f: i8)
    requires
        f >= 0,
    ensures
        unmentioned(current, points).contains_key(f) == (current.contains_key(f) && silent(
            points,
            f as int,
        )),
        unmentioned(current, points).contains_key(f) ==> unmentioned(current, points)[f]
            == current[f],
    decreases points.len(),
{
    if points.len() > 0 {
        let front = points.drop_last();
        assert(forall|k: int| 0 <= k < front.len() ==> #[trigger] front[k] == points[k]);
        lemma_unmentioned(current, front, f);
        assert(points.last() == points[points.len() - 1]);
        if silent(front, f as int) && !speaks_of(points.last(), f as int) {
            assert forall|k: int| 0 <= k < points.len() implies !speaks_of(
                #[trigger] points[k],
                f as int,
            ) by {
                if k < front.len() {
                    assert(!speaks_of(front[k], f as int));
                }
            }
        }
        if silent(points, f as int) {
            assert forall|k: int| 0 <= k < front.len() implies !speaks_of(
                #[trigger] front[k],
                f as int,
            ) by {
                assert(!speaks_of(points[k], f as int));
            }
        }
    }
}

/// A point that moves a finger does so whatever follows it.
proof fn lemma_moves_prefix(current: Map<i8, Position>, points: Seq<TouchInput>, k: int)
    requires
        points.len() > 0,
        k < points.len() - 1,
    ensures
        moves_a_finger(current, points, k) == moves_a_finger(current, points.drop_last(), k),
{
    let front = points.drop_last();
    assert(forall|i: int| 0 <= i < front.len() ==> #[trigger] front[i] == points[i]);
    if moves_a_finger(current, points, k) {
        let f = choose|f: i8|
            #[trigger] current.contains_key(f) && is_first_word(points, k, f as int);
        assert(current.contains_key(f) && is_first_word(front, k, f as int));
    }
    if moves_a_finger(current, front, k) {
        let f = choose|f: i8| #[trigger] current.contains_key(f) && is_first_word(front, k, f as int);
        assert forall|m: int| 0 <= m < k implies !speaks_of(#[trigger] points[m], f as int) by {
            assert(!speaks_of(front[m], f as int));
        }
        assert(current.contains_key(f) && is_first_word(points, k, f as int));
    }
}

proof fn lemma_moving_order(
    current: Map<i8, Position>,
    points: Seq<TouchInput>,
    elapsed: i64,
    span: i64,
) -> (m: Seq<int>)
    requires
        forall|f: i8| #[trigger] current.contains_key(f) ==> f >= 0,
    ensures
        moving(current, points, elapsed, span).len() == m.len(),
        forall|p: int, q: int| 0 <= p < q < m.len() ==> m[p] < m[q],
        forall|p: int| 0 <= p < m.len() ==> 0 <= #[trigger] m[p] < points.len(),
        forall|k: int| #[trigger] m.contains(k) <==> moves_a_finger(current, points, k),
        forall|p: int, f: i8|
            #![trigger m[p], current.contains_key(f)]
            0 <= p < m.len() && current.contains_key(f) && speaks_of(points[m[p]], f as int)
                ==> moving(current, points, elapsed, span)[p] == (TouchPoint::Moving {
                from: current[f],
                to: points[m[p]].pos,
                elapsed,
                span,
            }),
    decreases points.len(),
{
    if points.len() == 0 {
        let m = Seq::<int>::empty();
        assert forall|k: int| #[trigger] m.contains(k) <==> moves_a_finger(
            current,
            points,
            k,
        ) by {}
        m
    } else {
        let front = points.drop_last();
        let n = points.len() - 1;
        let last = points.last();
        let before = lemma_moving_order(current, front, elapsed, span);
        let id = crate::touch::finger(last.id);
        assert(forall|i: int| 0 <= i < front.len() ==> #[trigger] front[i] == points[i]);
        assert(points[n] == last);
        lemma_unmentioned(current, front, id);
        let left = unmentioned(current, front);
        assert(left.contains_key(id) <==> moves_a_finger(current, points, n)) by {
            if left.contains_key(id) {
                assert forall|i: int| 0 <= i < n implies !speaks_of(
                    #[trigger] points[i],
                    id as int,
                ) by {
                    assert(!speaks_of(front[i], id as int));
                }
                assert(current.contains_key(id) && is_first_word(points, n, id as int));
            }
            if moves_a_finger(current, points, n) {
                let f = choose|f: i8|
                    #[trigger] current.contains_key(f) && is_first_word(points, n, f as int);
                assert(f == id);
                assert forall|i: int| 0 <= i < front.len() implies !speaks_of(
                    #[trigger] front[i],
                    id as int,
                ) by {
                    assert(!speaks_of(points[i], id as int));
                }
            }
        }
        let m = if left.contains_key(id) {
            before.push(n)
        } else {
            before
        };
        assert forall|k: int| #[trigger] m.contains(k) <==> moves_a_finger(current, points, k) by {
            if k < n {
                lemma_moves_prefix(current, points, k);
                assert(before.contains(k) <==> moves_a_finger(current, front, k));
                if m.contains(k) {
                    let p = choose|p: int| 0 <= p < m.len() && m[p] == k;
                    assert(p < before.len());
                    assert(before[p] == k);
                }
                if before.contains(k) {
                    let p = choose|p: int| 0 <= p < before.len() && before[p] == k;
                    assert(m[p] == k);
                }
            } else if k == n {
                if left.contains_key(id) {
                    assert(m[before.len() as int] == n);
                }
                if m.contains(k) {
                    let p = choose|p: int| 0 <= p < m.len() && m[p] == k;
                    if p < before.len() {
                        assert(before[p] < front.len());
                    }
                }
            } else {
                if m.contains(k) {
                    let p = choose|p: int| 0 <= p < m.len() && m[p] == k;
                    if p < before.len() {
                        assert(before[p] < front.len());
                    }
                }
            }
        }
        assert forall|p: int, f: i8|
            #![trigger m[p], current.contains_key(f)]
            0 <= p < m.len() && current.contains_key(f) && speaks_of(
                points[m[p]],
                f as int,
            ) implies moving(current, points, elapsed, span)[p] == (TouchPoint::Moving {
            from: current[f],
            to: points[m[p]].pos,
            elapsed,
            span,
        }) by {
            if p < before.len() {
                assert(before[p] == m[p]);
                assert(front[before[p]] == points[m[p]]);
                assert(moving(current, front, elapsed, span)[p] == (TouchPoint::Moving {
                    from: current[f],
                    to: front[before[p]].pos,
                    elapsed,
                    span,
                }));
            } else {
                assert(m[p] == n);
                assert(f == id);
            }
        }
        m
    }
}

proof fn lemma_held_order(left: Map<i8, Position>, count: int) -> (h: Seq<i8>)
    requires
        0 <= count <= FINGERS,
    ensures
        held(left, count).len() == h.len(),
        forall|p: int, q: int| 0 <= p < q < h.len() ==> h[p] < h[q],
        forall|f: i8| #[trigger] h.contains(f) <==> left.contains_key(f) && 0 <= f < count,
        forall|q: int|
            0 <= q < h.len() ==> held(left, count)[q] == (TouchPoint::Held { at: left[#[trigger] h[q]] }),
    decreases count,
{
    if count == 0 {
        Seq::<i8>::empty()
    } else {
        let before = lemma_held_order(left, count - 1);
        let last = (count - 1) as i8;
        let h = if left.contains_key(last) {
            before.push(last)
        } else {
            before
        };
        assert forall|p: int| 0 <= p < before.len() implies #[trigger] before[p] < last by {
            assert(before.contains(before[p]));
        }
        assert forall|f: i8| #[trigger] h.contains(f) <==> left.contains_key(f) && 0 <= f < count by {
            assert(before.contains(f) <==> left.contains_key(f) && 0 <= f < count - 1);
            if before.contains(f) {
                let p = choose|p: int| 0 <= p < before.len() && before[p] == f;
                assert(h[p] == f);
            }
            if f == last && left.contains_key(last) {
                assert(h[before.len() as int] == f);
            }
            if h.contains(f) && f != last {
                let p = choose|p: int| 0 <= p < h.len() && h[p] == f;
                assert(before[p] == f);
            }
        }
        h
    }
}

/// Between two frames every finger that is down is shown once: on its way to its place in the next
/// frame if that frame speaks of it, as far as the time between the two frames is over, and at its
/// place if not.
pub proof fn law_fingers_are_shown_between_frames(player: PlayerModel, t: i64)
    requires
        player.wf(),
        frames_left_behind(player, t) > 0,
        player.touched(t).touches.len() > 0,
    ensures
        ({
            let after = player.touched(t);
            let next = after.touches[0];
            exists|m: Seq<int>, h: Seq<i8>|
                #[trigger] shows_fingers(
                    after.touch_points,
                    after.current_touches,
                    next.points,
                    saturate(t - after.current_time),
                    saturate(next.time - after.current_time),
                    m,
                    h,
                )
        }),
{
    law_frames_before_now_are_left_behind(player, t);
    lemma_passed_count(player.touches, t);
    let n = passed_count(player.touches, t) as int;
    let after = player.touched(t);
    let current = after.current_touches;
    let next = after.touches[0];
    let elapsed = saturate(t - after.current_time);
    let span = saturate(next.time - after.current_time);
    crate::player::lemma_with_frames_fingers(player.current_touches, player.touches.take(n));
    let left = unmentioned(current, next.points);
    let m = lemma_moving_order(current, next.points, elapsed, span);
    let h = lemma_held_order(left, FINGERS as int);
    assert forall|f: i8|
        #[trigger] h.contains(f) <==> current.contains_key(f) && silent(
            next.points,
            f as int,
        ) by {
        assert(h.contains(f) <==> left.contains_key(f) && 0 <= f < 128);
        if f >= 0 {
            lemma_unmentioned(current, next.points, f);
        }
    }
    assert forall|q: int| 0 <= q < h.len() implies after.touch_points[m.len() + q] == (
    TouchPoint::Held { at: current[#[trigger] h[q]] }) by {
        assert(h.contains(h[q]));
        lemma_unmentioned(current, next.points, h[q]);
        assert(held(left, FINGERS as int)[q] == (TouchPoint::Held { at: left[h[q]] }));
    }
    assert forall|p: int, f: i8|
        #![trigger m[p], current.contains_key(f)]
        0 <= p < m.len() && current.contains_key(f) && speaks_of(
            next.points[m[p]],
            f as int,
        ) implies after.touch_points[p] == (TouchPoint::Moving {
        from: current[f],
        to: next.points[m[p]].pos,
        elapsed,
        span,
    }) by {
        assert(moving(current, next.points, elapsed, span)[p] == (TouchPoint::Moving {
            from: current[f],
            to: next.points[m[p]].pos,
            elapsed,
            span,
        }));
    }
    assert(shows_fingers(after.touch_points, current, next.points, elapsed, span, m, h));
}

/// How many judge events are taken over when playback comes to `t`.
pub open spec fn judges_taken(player: PlayerModel, t: i64) -> int {
    player.judges.len() - player.judged(t).judges.len()
}

/// The judge events at the front of the queue up to `t` are taken over, one action for each, and all
/// others wait in order. The time of the last one is remembered, and nothing but the chart, the
/// queue and the counters changes.
pub proof fn law_judges_up_to_now_are_taken(player: PlayerModel, t: i64)
    ensures
        ({
            let after = player.judged(t);
            let n = judges_taken(player, t);
            &&& 0 <= n <= player.judges.len()
            &&& after.judges == player.judges.skip(n)
            &&& player.due_actions(t).len() == n
            &&& forall|i: int| 0 <= i < n ==> (#[trigger] player.judges[i]).time <= t
            &&& after.judges.len() > 0 ==> after.judges[0].time > t
            &&& after.last_judge_time == if n > 0 {
                player.judges[n - 1].time
            } else {
                player.last_judge_time
            }
            &&& after.last_processed_judge_time == if n > 0 {
                player.judges[n - 1].time
            } else {
                player.last_processed_judge_time
            }
            &&& after == (PlayerModel {
                chart: after.chart,
                judges: after.judges,
                judged_notes_count: after.judged_notes_count,
                active_hold_notes: after.active_hold_notes,
                last_judge_time: after.last_judge_time,
                last_processed_judge_time: after.last_processed_judge_time,
                ..player
            })
        }),
{
    lemma_due_count(player.judges, t);
}

/// Each judge event that is taken over asks for its own note to be counted with the verdict of the
/// same name, or to be shown as held, perfectly or not.
pub proof fn law_each_judgement_has_its_action(player: PlayerModel, t: i64, i: int)
    requires
        0 <= i < judges_taken(player, t),
    ensures
        ({
            let event = player.judges[i];
            let (line_id, note_id) = (event.line_id, event.note_id);
            let action = player.due_actions(t)[i];
            &&& event.judgement is Perfect ==> action == (JudgeAction::Commit {
                verdict: Verdict::Perfect,
                line_id,
                note_id,
            })
            &&& event.judgement is Good ==> action == (JudgeAction::Commit {
                verdict: Verdict::Good,
                line_id,
                note_id,
            })
            &&& event.judgement is Bad ==> action == (JudgeAction::Commit {
                verdict: Verdict::Bad,
                line_id,
                note_id,
            })
            &&& event.judgement is Miss ==> action == (JudgeAction::Commit {
                verdict: Verdict::Miss,
                line_id,
                note_id,
            })
            &&& event.judgement is HoldPerfect ==> action == (JudgeAction::Hold {
                perfect: true,
                line_id,
                note_id,
            })
            &&& event.judgement is HoldGood ==> action == (JudgeAction::Hold {
                perfect: false,
                line_id,
                note_id,
            })
        }),
{
    lemma_due_count(player.judges, t);
}

/// Whether a judge event settles its note; any other leaves it held.
pub open spec fn settles(event: JudgeEvent) -> bool {
    !(event.judgement is HoldPerfect) && !(event.judgement is HoldGood)
}

/// Whether a judge event is for this note.
pub open spec fn is_for(event: JudgeEvent, line: int, note: int) -> bool {
    event.line_id == line && event.note_id == note
}

/// Whether judge events can be taken over at `t`: each of those that are taken names a note of the
/// chart, and 32 bits hold the numbers of settled notes and of all notes.
pub proof fn law_when_judges_can_be_taken(player: PlayerModel, t: i64)
    ensures
        player.judges_applicable(t) <==> {
            &&& forall|i: int|
                0 <= i < judges_taken(player, t) ==> {
                    &&& (#[trigger] player.judges[i]).line_id < player.chart.len()
                    &&& player.judges[i].note_id < player.chart[player.judges[i].line_id as int].len()
                }
            &&& player.judged_notes_count + player.judges.take(judges_taken(player, t)).filter(
                |event: JudgeEvent| settles(event),
            ).len() <= u32::MAX
            &&& player.chart.flatten().len() <= u32::MAX
        },
{
    lemma_due_count(player.judges, t);
    let n = judges_taken(player, t);
    assert(player.due(t) =~= player.judges.take(n));
    lemma_commits(player.due(t));
    lemma_note_count(player.chart);
    assert(forall|i: int| 0 <= i < n ==> #[trigger] player.due(t)[i] == player.judges[i]);
    if player.judges_applicable(t) {
        assert forall|i: int| 0 <= i < n implies (#[trigger] player.judges[i]).line_id
            < player.chart.len() && player.judges[i].note_id
            < player.chart[player.judges[i].line_id as int].len() by {
            assert(crate::judge::names_note(player.chart, player.due(t)[i]));
        }
    }
}

proof fn lemma_commits(events: Seq<JudgeEvent>)
    ensures
        commit_count(events) == events.filter(|event: JudgeEvent| settles(event)).len(),
    decreases events.len(),
{
    reveal(Seq::filter);
    if events.len() > 0 {
        lemma_commits(events.drop_last());
    }
}

proof fn lemma_note_count(chart: Seq<Seq<Note>>)
    ensures
        note_count(chart) == chart.flatten().len(),
    decreases chart.len(),
{
    if chart.len() > 0 {
        lemma_note_count(chart.drop_last());
        chart.drop_last().lemma_flatten_push(chart.last());
        assert(chart.drop_last().push(chart.last()) =~= chart);
    }
}

proof fn lemma_holds_in(notes: Seq<Note>)
    ensures
        holds_in(notes) == notes.filter(|note: Note| note.judge is Hold).len(),
    decreases notes.len(),
{
    reveal(Seq::filter);
    if notes.len() > 0 {
        lemma_holds_in(notes.drop_last());
    }
}

/// The notes that are being held are counted one by one.
pub proof fn law_held_notes_are_counted(chart: Seq<Seq<Note>>)
    ensures
        holds(chart) == chart.flatten().filter(|note: Note| note.judge is Hold).len(),
        holds(chart) <= chart.flatten().len(),
    decreases chart.len(),
{
    let is_held = |note: Note| note.judge is Hold;
    if chart.len() > 0 {
        law_held_notes_are_counted(chart.drop_last());
        lemma_holds_in(chart.last());
        chart.drop_last().lemma_flatten_push(chart.last());
        assert(chart.drop_last().push(chart.last()) =~= chart);
        Seq::filter_distributes_over_add(chart.drop_last().flatten(), chart.last(), is_held);
        chart.last().lemma_filter_len(is_held);
    } else {
        reveal(Seq::filter);
    }
}

/// Each judge event that settles a note is counted once, and afterwards the number of held notes is
/// that of the chart.
pub proof fn law_judges_are_counted(player: PlayerModel, t: i64)
    requires
        player.judges_applicable(t),
    ensures
        player.judged(t).judged_notes_count == player.judged_notes_count + player.judges.take(
            judges_taken(player, t),
        ).filter(|event: JudgeEvent| settles(event)).len(),
        player.judged(t).active_hold_notes == player.judged(t).chart.flatten().filter(
            |note: Note| note.judge is Hold,
        ).len(),
{
    lemma_due_count(player.judges, t);
    assert(player.due(t) =~= player.judges.take(judges_taken(player, t)));
    lemma_commits(player.due(t));
    crate::judge::lemma_judged_shape(player.chart, player.due(t), t);
    law_held_notes_are_counted(player.judged(t).chart);
    lemma_note_count(player.judged(t).chart);
}

/// The last judge event for a note, among those that are taken over, decides what becomes of it:
/// settled, or held from `t` on, perfectly or not. Time, kind and reality of a note never change,
/// nor does the shape of the chart.
pub proof fn law_the_last_judgement_counts(player: PlayerModel, t: i64, line: int, note: int)
    requires
        player.judges_applicable(t),
        0 <= line < player.chart.len(),
        0 <= note < player.chart[line].len(),
    ensures
        ({
            let after = player.judged(t);
            let n = judges_taken(player, t);
            &&& after.chart.len() == player.chart.len()
            &&& after.chart[line].len() == player.chart[line].len()
            &&& after.chart[line][note] == (Note {
                judge: after.chart[line][note].judge,
                ..player.chart[line][note]
            })
            &&& (forall|i: int| 0 <= i < n ==> !is_for(#[trigger] player.judges[i], line, note))
                ==> after.chart[line][note] == player.chart[line][note]
            &&& forall|i: int|
                0 <= i < n && is_for(#[trigger] player.judges[i], line, note) && (forall|j: int|
                    i < j < n ==> !is_for(#[trigger] player.judges[j], line, note)) ==> {
                    let event = player.judges[i];
                    after.chart[line][note].judge == if event.judgement is HoldPerfect {
                        JudgeStatus::Hold { perfect: true, at: t }
                    } else if event.judgement is HoldGood {
                        JudgeStatus::Hold { perfect: false, at: t }
                    } else {
                        JudgeStatus::Judged
                    }
                }
        }),
{
    lemma_due_count(player.judges, t);
    let n = judges_taken(player, t);
    let due = player.due(t);
    assert(forall|i: int| 0 <= i < n ==> #[trigger] due[i] == player.judges[i]);
    crate::judge::lemma_judged_shape(player.chart, due, t);
    law_last_judge_decides(player.chart, due, t, line, note);
    if forall|i: int| 0 <= i < n ==> !is_for(#[trigger] player.judges[i], line, note) {
        assert forall|k: int| !#[trigger] is_last_for(due, k, line, note) by {
            if 0 <= k < n {
                assert(!is_for(player.judges[k], line, note));
            }
        }
    }
    assert forall|i: int|
        0 <= i < n && is_for(#[trigger] player.judges[i], line, note) && (forall|j: int|
            i < j < n ==> !is_for(#[trigger] player.judges[j], line, note)) implies is_last_for(
        due,
        i,
        line,
        note,
    ) by {
        assert forall|m: int| i < m < due.len() implies !((#[trigger] due[m]).line_id == line
            && due[m].note_id == note) by {
            assert(!is_for(player.judges[m], line, note));
        }
    }
    if exists|k: int| is_last_for(due, k, line, note) {
        let k = choose|k: int| is_last_for(due, k, line, note);
        assert(is_last_for(due, k, line, note));
    }
    assert(has_note(judged(player.chart, due, t), line, note));
}

} // verus!
