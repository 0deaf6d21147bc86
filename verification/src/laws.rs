//! The general laws of the simulation, proved once and for all against the
//! specification functions the executable contracts are stated over.

use vstd::prelude::*;
use crate::collision::{spec_collides, spec_in_box};
use crate::obstacle::{
    obstacles_wf, spec_alive, spec_motion, spec_motion_iter, spec_step, Obstacle, DESPAWN_Y,
    OBSTACLE_SPEED,
};
use crate::player::{spec_lane_for_signal, spec_player_in_lane, LEFT_LANE_X, RIGHT_LANE_X};
use crate::sim::spec_actuated_player;

verus! {

/// `now` is `orig` after `n` ticks of plain descent: the position has sunk by
/// `n` times the speed and nothing else about the entity has changed.
pub open spec fn spec_descent_of(orig: Obstacle, now: Obstacle, n: nat) -> bool {
    &&& now.x == orig.x
    &&& now.variant == orig.variant
    &&& now.y == orig.y - n * OBSTACLE_SPEED
}

/// An obstacle one tick of descent later, as a value.
pub open spec fn spec_descended(o: Obstacle, n: nat) -> Obstacle {
    Obstacle { y: (o.y - n * OBSTACLE_SPEED) as i32, ..o }
}

/// Eviction is exact: after a motion pass, no obstacle at or below the
/// despawn threshold is in the live set.
pub proof fn lemma_eviction_exact(s: Seq<Obstacle>)
    ensures
        forall|j: int| 0 <= j < spec_motion(s).len() ==> spec_alive(#[trigger] spec_motion(s)[j]),
    decreases s.len(),
{
    if s.len() > 0 {
        lemma_eviction_exact(s.drop_last());
        let rest = spec_motion(s.drop_last());
        if spec_alive(spec_step(s.last())) {
            assert(forall|j: int| 0 <= j < rest.len() ==> spec_motion(s)[j] == rest[j]);
        }
    }
}

/// A surviving obstacle is kept by a motion pass: if it is in the live set
/// and its stepped position is still above the despawn line, the stepped
/// obstacle is in the moved set.
pub proof fn lemma_motion_keeps_survivor(s: Seq<Obstacle>, o: Obstacle)
    requires
        s.contains(o),
        spec_alive(spec_step(o)),
    ensures
        spec_motion(s).contains(spec_step(o)),
    decreases s.len(),
{
    let i = choose|i: int| 0 <= i < s.len() && s[i] == o;
    let rest = spec_motion(s.drop_last());
    if i == s.len() - 1 {
        assert(spec_motion(s)[rest.len() as int] == spec_step(o));
    } else {
        assert(s.drop_last()[i] == s[i]);
        assert(s.drop_last().contains(o));
        lemma_motion_keeps_survivor(s.drop_last(), o);
        let j = choose|j: int| 0 <= j < rest.len() && rest[j] == spec_step(o);
        if spec_alive(spec_step(s.last())) {
            assert(spec_motion(s)[j] == spec_step(o));
        }
    }
}

/// Every obstacle in a moved set is the step of an obstacle of the set
/// before the pass.
pub proof fn lemma_motion_source(s: Seq<Obstacle>, j: int)
    requires
        0 <= j < spec_motion(s).len(),
    ensures
        exists|i: int| 0 <= i < s.len() && spec_motion(s)[j] == spec_step(#[trigger] s[i]),
    decreases s.len(),
{
    let rest = spec_motion(s.drop_last());
    if spec_alive(spec_step(s.last())) && j == rest.len() {
        assert(spec_motion(s)[j] == spec_step(s[s.len() - 1]));
    } else {
        assert(spec_motion(s)[j] == rest[j]);
        lemma_motion_source(s.drop_last(), j);
        let i = choose|i: int|
            0 <= i < s.drop_last().len() && spec_motion(s.drop_last())[j] == spec_step(
                #[trigger] s.drop_last()[i],
            );
        assert(s.drop_last()[i] == s[i]);
        assert(spec_motion(s)[j] == spec_step(s[i]));
    }
}

/// Linear descent, the keeping half: an obstacle of the live set that stays
/// above the despawn line for `n` ticks is, after `n` motion passes, present
/// with its y sunk by exactly `n` times the speed — and nothing else changed.
pub proof fn lemma_linear_descent(s: Seq<Obstacle>, o: Obstacle, n: nat)
    requires
        s.contains(o),
        o.y - n * OBSTACLE_SPEED > DESPAWN_Y,
    ensures
        spec_motion_iter(s, n).contains(spec_descended(o, n)),
        spec_descent_of(o, spec_descended(o, n), n),
    decreases n,
{
    if n == 0 {
        assert(spec_descended(o, 0) == o);
    } else {
        lemma_linear_descent(s, o, (n - 1) as nat);
        let prev = spec_descended(o, (n - 1) as nat);
        assert(spec_step(prev) == spec_descended(o, n));
        lemma_motion_keeps_survivor(spec_motion_iter(s, (n - 1) as nat), prev);
    }
}

/// Linear descent, the tracking half: after `n` motion passes over a
/// well-formed live set, every obstacle present is an obstacle of the
/// original set with its y sunk by exactly `n` times the speed.
pub proof fn lemma_descent_source(s: Seq<Obstacle>, n: nat, j: int)
    requires
        obstacles_wf(s),
        0 <= j < spec_motion_iter(s, n).len(),
    ensures
        exists|i: int|
            0 <= i < s.len() && spec_descent_of(#[trigger] s[i], spec_motion_iter(s, n)[j], n),
    decreases n,
{
    if n == 0 {
        assert(spec_descent_of(s[j], spec_motion_iter(s, 0)[j], 0));
    } else {
        let prev = spec_motion_iter(s, (n - 1) as nat);
        lemma_motion_source(prev, j);
        let m = choose|m: int|
            0 <= m < prev.len() && spec_motion_iter(s, n)[j] == spec_step(#[trigger] prev[m]);
        lemma_descent_source(s, (n - 1) as nat, m);
        let i = choose|i: int| 0 <= i < s.len() && spec_descent_of(#[trigger] s[i], prev[m], (n - 1) as nat);
        if n - 1 == 0 {
            assert(prev[m].y > DESPAWN_Y);
        } else {
            lemma_eviction_exact(spec_motion_iter(s, (n - 2) as nat));
            assert(spec_alive(prev[m]));
        }
        assert(spec_descent_of(s[i], spec_motion_iter(s, n)[j], n));
    }
}

/// Actuation is idempotent: consuming the same signal twice leaves the
/// player exactly where consuming it once does.
pub proof fn lemma_actuation_idempotent(p: crate::player::Player, v: i32)
    ensures
        spec_actuated_player(spec_actuated_player(p, Some(v)), Some(v)) == spec_actuated_player(
            p,
            Some(v),
        ),
{
}

/// The lane is a pure function of the signal's sign: strictly positive means
/// the right lane with the sprite flipped, zero or negative the left lane
/// unflipped — for every representable signal.
pub proof fn lemma_lane_pure_sign(v: i32)
    ensures
        v > 0 ==> spec_player_in_lane(spec_lane_for_signal(v as int)).x == RIGHT_LANE_X
            && spec_player_in_lane(spec_lane_for_signal(v as int)).flip,
        v <= 0 ==> spec_player_in_lane(spec_lane_for_signal(v as int)).x == LEFT_LANE_X
            && !spec_player_in_lane(spec_lane_for_signal(v as int)).flip,
{
}

/// Collision is order-independent: two live sets holding the same obstacles,
/// in whatever order, raise the crash signal against the same box or neither
/// does.
pub proof fn lemma_collision_order_independent(
    s1: Seq<Obstacle>,
    s2: Seq<Obstacle>,
    px: int,
    py: int,
)
    requires
        s1.to_multiset() == s2.to_multiset(),
    ensures
        spec_collides(s1, px, py) == spec_collides(s2, px, py),
{
    broadcast use vstd::seq_lib::group_to_multiset_ensures;

    if spec_collides(s1, px, py) {
        let i = choose|i: int|
            0 <= i < s1.len() && spec_in_box((#[trigger] s1[i]).x as int, s1[i].y as int, px, py);
        assert(s1.contains(s1[i]));
        assert(s1.to_multiset().count(s1[i]) > 0);
        assert(s2.to_multiset().count(s1[i]) > 0);
        assert(s2.contains(s1[i]));
        let j = choose|j: int| 0 <= j < s2.len() && s2[j] == s1[i];
        assert(spec_in_box(s2[j].x as int, s2[j].y as int, px, py));
    }
    if spec_collides(s2, px, py) {
        let i = choose|i: int|
            0 <= i < s2.len() && spec_in_box((#[trigger] s2[i]).x as int, s2[i].y as int, px, py);
        assert(s2.contains(s2[i]));
        assert(s2.to_multiset().count(s2[i]) > 0);
        assert(s1.to_multiset().count(s2[i]) > 0);
        assert(s1.contains(s2[i]));
        let j = choose|j: int| 0 <= j < s1.len() && s1[j] == s2[i];
        assert(spec_in_box(s1[j].x as int, s1[j].y as int, px, py));
    }
}

/// Burst collapse: one intersecting obstacle already raises the tick's one
/// crash signal, and further simultaneous hits change nothing about it — the
/// signal is a single boolean, not a count.
pub proof fn lemma_crash_signal_collapses(s: Seq<Obstacle>, px: int, py: int, i: int)
    requires
        0 <= i < s.len(),
        spec_in_box(s[i].x as int, s[i].y as int, px, py),
    ensures
        spec_collides(s, px, py),
{
}

} // verus!
