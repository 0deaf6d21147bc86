//! Obstacles: the descending entities, their per-tick motion, the eviction of
//! those past the despawn threshold, and the one-shot promotion that attaches
//! an exit-animation descriptor for the renderer.

use vstd::prelude::*;
use crate::rng::draw_below;

verus! {

/// Vertical position a fresh obstacle spawns at (top of the playfield).
pub const OBSTACLE_SPAWN_Y: i32 = 300;

/// An obstacle whose y is at or below this line is evicted.
pub const DESPAWN_Y: i32 = -350;

/// Units an obstacle descends per fast tick.
pub const OBSTACLE_SPEED: i32 = 1;

/// How many obstacle sprite variants exist; a variant index is below this.
pub const OBSTACLE_VARIANTS: u32 = 2;

/// Horizontal centre of the left exit-animation target.
pub const EXIT_LEFT_X: i32 = -200;

/// Horizontal centre of the right exit-animation target.
pub const EXIT_RIGHT_X: i32 = 160;

/// Vertical position of both exit-animation targets.
pub const EXIT_Y: i32 = -350;

/// One of the two designated exit-animation targets an obstacle is promoted
/// toward. The target is purely a descriptor for the renderer; the verified
/// motion stays the fixed per-tick descent.
#[derive(Clone, Copy, PartialEq, Eq, Structural, Debug)]
pub enum ExitTarget {
    LeftExit,
    RightExit,
}

impl ExitTarget {
    /// The horizontal centre of this exit target, for the renderer's
    /// animation toward it.
    pub fn target_x(self) -> (x: i32)
        ensures
            self is LeftExit ==> x == EXIT_LEFT_X,
            self is RightExit ==> x == EXIT_RIGHT_X,
    {
        match self {
            ExitTarget::LeftExit => EXIT_LEFT_X,
            ExitTarget::RightExit => EXIT_RIGHT_X,
        }
    }

    /// The vertical centre of this exit target.
    pub fn target_y(self) -> (y: i32)
        ensures
            y == EXIT_Y,
    {
        EXIT_Y
    }
}

/// A live obstacle: a position, a sprite variant index, and, once the
/// obstacle has been promoted, its exit-animation target.
#[derive(Clone, Copy, PartialEq, Eq, Debug)]
pub struct Obstacle {
    pub x: i32,
    pub y: i32,
    pub variant: u32,
    pub exit: Option<ExitTarget>,
}

/// Every live obstacle sits above the despawn line and carries a valid sprite
/// variant index.
pub open spec fn obstacles_wf(s: Seq<Obstacle>) -> bool {
    forall|i: int|
        0 <= i < s.len() ==> (#[trigger] s[i]).y > DESPAWN_Y && s[i].variant < OBSTACLE_VARIANTS
}

/// An obstacle one tick of descent later.
pub open spec fn spec_step(o: Obstacle) -> Obstacle {
    Obstacle { y: (o.y - OBSTACLE_SPEED) as i32, ..o }
}

/// Whether an obstacle stays live: it is evicted once its y is at or below
/// the despawn line.
pub open spec fn spec_alive(o: Obstacle) -> bool {
    o.y > DESPAWN_Y
}

/// One motion pass over the live set: every obstacle descends by the fixed
/// speed and those at or below the despawn line are dropped, order kept.
pub open spec fn spec_motion(s: Seq<Obstacle>) -> Seq<Obstacle>
    decreases s.len(),
{
    if s.len() == 0 {
        Seq::empty()
    } else {
        let rest = spec_motion(s.drop_last());
        let o = spec_step(s.last());
        if spec_alive(o) {
            rest.push(o)
        } else {
            rest
        }
    }
}

/// The live set after `n` motion passes.
pub open spec fn spec_motion_iter(s: Seq<Obstacle>, n: nat) -> Seq<Obstacle>
    decreases n,
{
    if n == 0 {
        s
    } else {
        spec_motion(spec_motion_iter(s, (n - 1) as nat))
    }
}

/// Two obstacles that agree on everything a motion pass looks at: position
/// and sprite variant. Promotion touches only the exit descriptor.
pub open spec fn same_core(a: Obstacle, b: Obstacle) -> bool {
    a.x == b.x && a.y == b.y && a.variant == b.variant
}

/// Advances every live obstacle by one tick of descent and evicts those at or
/// below the despawn line, in the same pass.
pub fn motion_update(obstacles: &mut Vec<Obstacle>)
    requires
        obstacles_wf(old(obstacles)@),
    ensures
        final(obstacles)@ == spec_motion(old(obstacles)@),
        obstacles_wf(final(obstacles)@),
{
    let ghost orig = obstacles@;
    let mut out: Vec<Obstacle> = Vec::new();
    let mut k: usize = 0;
    while k < obstacles.len()
        invariant
            obstacles@ == orig,
            obstacles_wf(orig),
            k <= orig.len(),
            out@ == spec_motion(orig.take(k as int)),
            obstacles_wf(out@),
        decreases orig.len() - k,
    {
        let o = obstacles[k];
        let moved = Obstacle { x: o.x, y: o.y - OBSTACLE_SPEED, variant: o.variant, exit: o.exit };
        proof {
            assert(orig.take(k + 1).drop_last() =~= orig.take(k as int));
            assert(orig.take(k + 1).last() == orig[k as int]);
            assert(moved == spec_step(orig[k as int]));
        }
        if moved.y > DESPAWN_Y {
            out.push(moved);
        }
        k = k + 1;
    }
    proof {
        assert(orig.take(orig.len() as int) =~= orig);
    }
    *obstacles = out;
}

/// The exit target a promotion draw selects: the left target on the draw's
/// designated outcome, the right one on every other.
pub fn exit_target_from_draw(draw: u32) -> (t: ExitTarget)
    ensures
        t == (if draw == 0 {
            ExitTarget::LeftExit
        } else {
            ExitTarget::RightExit
        }),
{
    if draw == 0 {
        ExitTarget::LeftExit
    } else {
        ExitTarget::RightExit
    }
}

/// Promotes every obstacle that has not been promoted yet: attaches an exit
/// target chosen between the two designated ones. Positions and variants are
/// untouched, an already-promoted obstacle keeps its target, so the promotion
/// happens at most once per obstacle.
pub fn promote_all(obstacles: &mut Vec<Obstacle>)
    ensures
        final(obstacles)@.len() == old(obstacles)@.len(),
        forall|i: int|
            0 <= i < old(obstacles)@.len() ==> {
                &&& same_core(#[trigger] final(obstacles)@[i], old(obstacles)@[i])
                &&& final(obstacles)@[i].exit is Some
                &&& (old(obstacles)@[i].exit is Some
                    ==> final(obstacles)@[i].exit == old(obstacles)@[i].exit)
            },
        obstacles_wf(old(obstacles)@) ==> obstacles_wf(final(obstacles)@),
{
    let ghost orig = obstacles@;
    let mut out: Vec<Obstacle> = Vec::new();
    let mut k: usize = 0;
    while k < obstacles.len()
        invariant
            obstacles@ == orig,
            k <= orig.len(),
            out@.len() == k,
            forall|i: int|
                0 <= i < k ==> {
                    &&& same_core(#[trigger] out@[i], orig[i])
                    &&& out@[i].exit is Some
                    &&& (orig[i].exit is Some ==> out@[i].exit == orig[i].exit)
                },
        decreases orig.len() - k,
    {
        let o = obstacles[k];
        let promoted = match o.exit {
            Some(t) => Obstacle { x: o.x, y: o.y, variant: o.variant, exit: Some(t) },
            None => {
                let t = exit_target_from_draw(draw_below(2));
                Obstacle { x: o.x, y: o.y, variant: o.variant, exit: Some(t) }
            },
        };
        out.push(promoted);
        k = k + 1;
    }
    *obstacles = out;
}

/// The greatest y among the obstacles: the most recently spawned one, the one
/// closest to the top.
pub open spec fn spec_top_y(s: Seq<Obstacle>) -> int
    recommends
        s.len() > 0,
    decreases s.len(),
{
    if s.len() <= 1 {
        s[0].y as int
    } else {
        let rest = spec_top_y(s.drop_last());
        if s.last().y > rest {
            s.last().y as int
        } else {
            rest
        }
    }
}

/// The y of the topmost obstacle, `None` when no obstacle is live.
pub fn top_obstacle_y(obstacles: &Vec<Obstacle>) -> (r: Option<i32>)
    ensures
        r is Some <==> obstacles@.len() > 0,
        r matches Some(y) ==> y == spec_top_y(obstacles@),
{
    if obstacles.len() == 0 {
        return None;
    }
    let mut best: i32 = obstacles[0].y;
    let mut k: usize = 1;
    proof {
        assert(obstacles@.take(1).len() == 1);
        assert(obstacles@.take(1)[0] == obstacles@[0]);
    }
    while k < obstacles.len()
        invariant
            1 <= k <= obstacles@.len(),
            best == spec_top_y(obstacles@.take(k as int)),
        decreases obstacles@.len() - k,
    {
        proof {
            assert(obstacles@.take(k + 1).drop_last() =~= obstacles@.take(k as int));
            assert(obstacles@.take(k + 1).last() == obstacles@[k as int]);
        }
        if obstacles[k].y > best {
            best = obstacles[k].y;
        }
        k = k + 1;
    }
    proof {
        assert(obstacles@.take(obstacles@.len() as int) =~= obstacles@);
    }
    Some(best)
}

} // verus!
