//! The player car: its two lane positions and the mapping from the remote
//! steering signal to a lane.

use vstd::prelude::*;

verus! {

/// Horizontal centre of the left lane.
pub const LEFT_LANE_X: i32 = -160;

/// Horizontal centre of the right lane.
pub const RIGHT_LANE_X: i32 = 160;

/// Vertical position shared by both lanes.
pub const LANE_Y: i32 = -200;

/// One of the two valid horizontal positions of the player.
#[derive(Clone, Copy, PartialEq, Eq, Structural, Debug)]
pub enum Lane {
    Left,
    Right,
}

/// The single player entity: a position and the horizontal-flip flag that the
/// renderer mirrors the sprite by.
#[derive(Clone, Copy, PartialEq, Eq, Structural, Debug)]
pub struct Player {
    pub x: i32,
    pub y: i32,
    pub flip: bool,
}

/// Which lane a steering signal selects: strictly positive means the right
/// lane, zero or negative the left lane.
pub open spec fn spec_lane_for_signal(v: int) -> Lane {
    if v > 0 {
        Lane::Right
    } else {
        Lane::Left
    }
}

/// The horizontal centre of a lane.
pub open spec fn spec_lane_x(lane: Lane) -> int {
    match lane {
        Lane::Left => LEFT_LANE_X as int,
        Lane::Right => RIGHT_LANE_X as int,
    }
}

/// The flip flag that goes with a lane: the sprite is mirrored in the right
/// lane only.
pub open spec fn spec_lane_flip(lane: Lane) -> bool {
    lane is Right
}

/// The player as it stands in a given lane.
pub open spec fn spec_player_in_lane(lane: Lane) -> Player {
    Player { x: spec_lane_x(lane) as i32, y: LANE_Y, flip: spec_lane_flip(lane) }
}

/// A player value is well formed when it stands in one of the two lanes.
pub open spec fn player_wf(p: Player) -> bool {
    p == spec_player_in_lane(Lane::Left) || p == spec_player_in_lane(Lane::Right)
}

/// Maps a steering signal to the lane it selects: right for strictly positive
/// signals, left otherwise.
pub fn lane_for_signal(v: i32) -> (lane: Lane)
    ensures
        lane == spec_lane_for_signal(v as int),
{
    if v > 0 {
        Lane::Right
    } else {
        Lane::Left
    }
}

impl Player {
    /// The player standing in the given lane, flip flag matching.
    pub fn in_lane(lane: Lane) -> (p: Player)
        ensures
            p == spec_player_in_lane(lane),
            player_wf(p),
    {
        match lane {
            Lane::Left => Player { x: LEFT_LANE_X, y: LANE_Y, flip: false },
            Lane::Right => Player { x: RIGHT_LANE_X, y: LANE_Y, flip: true },
        }
    }

    /// Moves the player into the lane selected by the signal and sets the
    /// flip flag to match.
    pub fn apply_signal(&mut self, v: i32)
        ensures
            *final(self) == spec_player_in_lane(spec_lane_for_signal(v as int)),
            player_wf(*final(self)),
    {
        let lane = lane_for_signal(v);
        *self = Player::in_lane(lane);
    }
}

} // verus!
