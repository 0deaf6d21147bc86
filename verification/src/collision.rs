//! Collision detection: each obstacle's origin point is tested against the
//! player's axis-aligned box. The test is deliberately point-versus-box — the
//! obstacle's own extent plays no part.

use vstd::prelude::*;
use crate::obstacle::{same_core, Obstacle};

verus! {

/// Half-extent of the player's bounding box, on both axes.
pub const CAR_HALF_EXTENT: i32 = 100;

/// Whether the point `(ox, oy)` lies within the box of half-extent
/// [`CAR_HALF_EXTENT`] centred on `(px, py)`, bounds included.
pub open spec fn spec_in_box(ox: int, oy: int, px: int, py: int) -> bool {
    &&& px - CAR_HALF_EXTENT <= ox <= px + CAR_HALF_EXTENT
    &&& py - CAR_HALF_EXTENT <= oy <= py + CAR_HALF_EXTENT
}

/// Whether at least one obstacle's origin lies within the player's box.
pub open spec fn spec_collides(s: Seq<Obstacle>, px: int, py: int) -> bool {
    exists|i: int| 0 <= i < s.len() && spec_in_box((#[trigger] s[i]).x as int, s[i].y as int, px, py)
}

/// Tests one point against the player's box.
pub fn point_in_player_box(ox: i32, oy: i32, px: i32, py: i32) -> (r: bool)
    ensures
        r == spec_in_box(ox as int, oy as int, px as int, py as int),
{
    let oxw = ox as i64;
    let oyw = oy as i64;
    let pxw = px as i64;
    let pyw = py as i64;
    let h = CAR_HALF_EXTENT as i64;
    pxw - h <= oxw && oxw <= pxw + h && pyw - h <= oyw && oyw <= pyw + h
}

/// Collision looks at positions alone: two obstacle sequences that agree
/// pointwise on position collide with the same boxes.
pub proof fn lemma_collides_same_core(s1: Seq<Obstacle>, s2: Seq<Obstacle>, px: int, py: int)
    requires
        s1.len() == s2.len(),
        forall|i: int| 0 <= i < s1.len() ==> same_core(#[trigger] s1[i], s2[i]),
    ensures
        spec_collides(s1, px, py) == spec_collides(s2, px, py),
{
    if spec_collides(s1, px, py) {
        let i = choose|i: int|
            0 <= i < s1.len() && spec_in_box((#[trigger] s1[i]).x as int, s1[i].y as int, px, py);
        assert(spec_in_box(s2[i].x as int, s2[i].y as int, px, py));
    }
    if spec_collides(s2, px, py) {
        let i = choose|i: int|
            0 <= i < s2.len() && spec_in_box((#[trigger] s2[i]).x as int, s2[i].y as int, px, py);
        assert(spec_in_box(s1[i].x as int, s1[i].y as int, px, py));
    }
}

/// Raises the crash signal exactly when some live obstacle's origin lies
/// within the player's box; which obstacle, or how many, does not matter.
pub fn detect_collision(obstacles: &Vec<Obstacle>, px: i32, py: i32) -> (r: bool)
    ensures
        r == spec_collides(obstacles@, px as int, py as int),
{
    let mut k: usize = 0;
    while k < obstacles.len()
        invariant
            k <= obstacles@.len(),
            forall|i: int|
                0 <= i < k ==> !spec_in_box(
                    (#[trigger] obstacles@[i]).x as int,
                    obstacles@[i].y as int,
                    px as int,
                    py as int,
                ),
        decreases obstacles@.len() - k,
    {
        let o = obstacles[k];
        if point_in_player_box(o.x, o.y, px, py) {
            return true;
        }
        k = k + 1;
    }
    false
}

} // verus!
