//! The simulation context and its two cadences: the fast per-frame tick
//! (motion and eviction, then actuation, then collision, then the state
//! transition) and the periodic spawn tick. Both are gated off once the game
//! has crashed.

use vstd::prelude::*;
use crate::collision::{detect_collision, lemma_collides_same_core, spec_collides};
use crate::obstacle::{
    motion_update, obstacles_wf, promote_all, same_core, spec_motion, spec_top_y, top_obstacle_y,
    Obstacle, OBSTACLE_SPAWN_Y, OBSTACLE_VARIANTS,
};
use crate::player::{
    player_wf, spec_lane_for_signal, spec_player_in_lane, Lane, Player, LEFT_LANE_X, RIGHT_LANE_X,
};
use crate::rng::draw_below;
use crate::signal::{parse_signal, spec_signal_value, spec_valid_signal};

verus! {

/// At most this many obstacles may be live at once.
pub const LIVE_OBSTACLE_CAP: usize = 3;

/// A spawn is gated until the topmost obstacle has descended below this line.
pub const BACKLOG_Y: i32 = 100;

/// On an eligible spawn tick, a spawn happens on one outcome of a uniform
/// draw over this many.
pub const SPAWN_ODDS: u32 = 100;

/// The phase of the game. `Playing` is the initial phase; `Crashed` is
/// terminal: every system is gated off in it.
#[derive(Clone, Copy, PartialEq, Eq, Structural, Debug)]
pub enum GamePhase {
    Playing,
    Crashed,
}

/// The whole simulation state: the phase, the single player entity (absent
/// once crashed), the live obstacles, the last-write-wins mailbox holding the
/// latest undecoded steering signal, and whether the terminal crash marker
/// entity exists.
#[derive(Clone, Debug)]
pub struct Simulation {
    pub phase: GamePhase,
    pub player: Option<Player>,
    pub obstacles: Vec<Obstacle>,
    pub mailbox: Option<i32>,
    pub crash_marker: bool,
}

/// The player after one actuation pass: moved into the lane the pending
/// signal selects, or left alone when no signal is pending.
pub open spec fn spec_actuated_player(p: Player, m: Option<i32>) -> Player {
    match m {
        Some(v) => spec_player_in_lane(spec_lane_for_signal(v as int)),
        None => p,
    }
}

impl Simulation {
    /// Well-formedness: obstacles sit above the despawn line with valid
    /// variants; exactly one player exists while playing and stands in a
    /// lane; after a crash every entity is gone and the single crash marker
    /// exists, and only then.
    pub open spec fn wf(self) -> bool {
        &&& obstacles_wf(self.obstacles@)
        &&& (self.phase is Playing ==> self.player is Some)
        &&& (self.phase is Crashed ==> self.player is None && self.obstacles@.len() == 0)
        &&& (self.player matches Some(p) ==> player_wf(p))
        &&& (self.crash_marker <==> self.phase is Crashed)
    }

    /// Where the player stands after this tick's actuation pass.
    pub open spec fn spec_tick_player(self) -> Player
        recommends
            self.player is Some,
    {
        spec_actuated_player(self.player->0, self.mailbox)
    }

    /// Whether this tick ends in a crash: after the motion pass, some live
    /// obstacle lies within the actuated player's box.
    pub open spec fn spec_tick_crashes(self) -> bool
        recommends
            self.player is Some,
    {
        spec_collides(
            spec_motion(self.obstacles@),
            self.spec_tick_player().x as int,
            self.spec_tick_player().y as int,
        )
    }

    /// Whether a spawn tick may create an obstacle: the live count is below
    /// the cap, and either no obstacle exists or the most recently spawned
    /// one (the topmost) has descended below the backlog line.
    pub open spec fn spec_spawn_eligible(self) -> bool {
        &&& self.obstacles@.len() < LIVE_OBSTACLE_CAP
        &&& (self.obstacles@.len() == 0 || spec_top_y(self.obstacles@) < BACKLOG_Y)
    }

    /// A freshly spawned obstacle: at the spawn height, in one of the two
    /// lanes, with a valid variant, not yet promoted.
    pub open spec fn spec_fresh_spawn(o: Obstacle) -> bool {
        &&& o.y == OBSTACLE_SPAWN_Y
        &&& (o.x == LEFT_LANE_X || o.x == RIGHT_LANE_X)
        &&& o.variant < OBSTACLE_VARIANTS
        &&& o.exit is None
    }

    /// The obstacle a hitting spawn draw creates: at the spawn height, in
    /// the lane the lane draw selects (the left one on its designated
    /// outcome), with the drawn variant, not yet promoted.
    pub open spec fn spec_spawn_result(lane: u32, variant: u32) -> Obstacle {
        Obstacle {
            x: if lane == 0 {
                LEFT_LANE_X
            } else {
                RIGHT_LANE_X
            },
            y: OBSTACLE_SPAWN_Y,
            variant,
            exit: None,
        }
    }

    /// The initial state: playing, the player in the left lane, no obstacle,
    /// no pending signal, no crash marker.
    pub fn new() -> (sim: Simulation)
        ensures
            sim.wf(),
            sim.phase is Playing,
            sim.player == Some(spec_player_in_lane(Lane::Left)),
            sim.obstacles@.len() == 0,
            sim.mailbox is None,
            !sim.crash_marker,
    {
        Simulation {
            phase: GamePhase::Playing,
            player: Some(Player::in_lane(Lane::Left)),
            obstacles: Vec::new(),
            mailbox: None,
            crash_marker: false,
        }
    }

    /// Overwrites the mailbox with the latest decoded signal. The mailbox is
    /// last-write-wins: an unread earlier value is discarded. Nothing else
    /// changes; a value delivered after a crash merely sits unconsumed.
    pub fn deliver_signal(&mut self, v: i32)
        ensures
            final(self).mailbox == Some(v),
            final(self).phase == old(self).phase,
            final(self).player == old(self).player,
            final(self).obstacles@ == old(self).obstacles@,
            final(self).crash_marker == old(self).crash_marker,
            old(self).wf() ==> final(self).wf(),
    {
        self.mailbox = Some(v);
    }

    /// Decodes one response body and, on success, overwrites the mailbox
    /// with the decoded signal. A malformed body (or one whose integer does
    /// not fit the signal type) is discarded and the previous signal kept.
    pub fn deliver_response(&mut self, body: &[u8]) -> (ok: bool)
        ensures
            ok <==> spec_valid_signal(body@),
            ok ==> {
                &&& final(self).mailbox matches Some(v) && v == spec_signal_value(body@)
                &&& final(self).phase == old(self).phase
                &&& final(self).player == old(self).player
                &&& final(self).obstacles@ == old(self).obstacles@
                &&& final(self).crash_marker == old(self).crash_marker
            },
            !ok ==> *final(self) == *old(self),
            old(self).wf() ==> final(self).wf(),
    {
        match parse_signal(body) {
            Some(v) => {
                self.deliver_signal(v);
                true
            },
            None => false,
        }
    }

    /// One fast tick: while playing, the motion-and-eviction pass runs first,
    /// then every unpromoted obstacle is promoted, then the pending signal
    /// (if any) is consumed and actuates the player, then collision is
    /// checked against the moved obstacles and the actuated player. On a hit
    /// the tick performs the single transition: every entity is destroyed,
    /// the one crash marker is spawned and the phase becomes `Crashed` —
    /// however many obstacles intersected. Once crashed, the tick is a no-op.
    pub fn fast_tick(&mut self)
        requires
            old(self).wf(),
        ensures
            final(self).wf(),
            old(self).phase is Crashed ==> *final(self) == *old(self),
            old(self).phase is Playing ==> final(self).mailbox is None,
            old(self).phase is Playing && old(self).spec_tick_crashes() ==> {
                &&& final(self).phase is Crashed
                &&& final(self).player is None
                &&& final(self).obstacles@.len() == 0
                &&& final(self).crash_marker
            },
            old(self).phase is Playing && !old(self).spec_tick_crashes() ==> {
                let moved = spec_motion(old(self).obstacles@);
                &&& final(self).phase is Playing
                &&& final(self).player == Some(old(self).spec_tick_player())
                &&& !final(self).crash_marker
                &&& final(self).obstacles@.len() == moved.len()
                &&& forall|i: int|
                    0 <= i < moved.len() ==> {
                        &&& same_core(#[trigger] final(self).obstacles@[i], moved[i])
                        &&& final(self).obstacles@[i].exit is Some
                        &&& (moved[i].exit is Some ==> final(self).obstacles@[i].exit
                            == moved[i].exit)
                    }
            },
    {
        match self.phase {
            GamePhase::Crashed => {},
            GamePhase::Playing => {
                let ghost moved = spec_motion(old(self).obstacles@);
                motion_update(&mut self.obstacles);
                promote_all(&mut self.obstacles);
                let mut p = self.player.unwrap();
                match self.mailbox {
                    Some(v) => p.apply_signal(v),
                    None => {},
                }
                self.mailbox = None;
                proof {
                    assert(p == old(self).spec_tick_player());
                    lemma_collides_same_core(self.obstacles@, moved, p.x as int, p.y as int);
                }
                let hit = detect_collision(&self.obstacles, p.x, p.y);
                if hit {
                    self.obstacles = Vec::new();
                    self.player = None;
                    self.crash_marker = true;
                    self.phase = GamePhase::Crashed;
                } else {
                    self.player = Some(p);
                }
            },
        }
    }

    /// One fresh obstacle joins the live set when the probability draw
    /// landed on its designated value: at the spawn height, in the lane the
    /// lane draw selects, with the given variant. For every other
    /// probability-draw value the live set stays as it was, and nothing
    /// else ever changes.
    pub fn spawn_from_draws(&mut self, gate: u32, lane: u32, variant: u32)
        requires
            old(self).wf(),
            old(self).phase is Playing,
            variant < OBSTACLE_VARIANTS,
        ensures
            final(self).wf(),
            final(self).phase == old(self).phase,
            final(self).player == old(self).player,
            final(self).mailbox == old(self).mailbox,
            final(self).crash_marker == old(self).crash_marker,
            gate != 0 ==> final(self).obstacles@ == old(self).obstacles@,
            gate == 0 ==> final(self).obstacles@ == old(self).obstacles@.push(
                Self::spec_spawn_result(lane, variant),
            ),
    {
        if gate != 0 {
            return;
        }
        let x = if lane == 0 {
            LEFT_LANE_X
        } else {
            RIGHT_LANE_X
        };
        let fresh = Obstacle { x, y: OBSTACLE_SPAWN_Y, variant, exit: None };
        self.obstacles.push(fresh);
    }

    /// One periodic spawn tick: while playing, if the live count is below the
    /// cap and the topmost obstacle (if any) has descended below the backlog
    /// line, a uniform draw decides whether exactly one fresh obstacle is
    /// created, its lane and its variant drawn uniformly too. An ineligible
    /// tick creates nothing whatever the draw; nothing else ever changes.
    /// The three draws are applied by [`Self::spawn_from_draws`], whose
    /// contract fixes the result of every draw outcome.
    pub fn spawn_tick(&mut self)
        requires
            old(self).wf(),
        ensures
            final(self).wf(),
            final(self).phase == old(self).phase,
            final(self).player == old(self).player,
            final(self).mailbox == old(self).mailbox,
            final(self).crash_marker == old(self).crash_marker,
            old(self).phase is Crashed ==> final(self).obstacles@ == old(self).obstacles@,
            old(self).phase is Playing && !old(self).spec_spawn_eligible()
                ==> final(self).obstacles@ == old(self).obstacles@,
            old(self).phase is Playing && old(self).spec_spawn_eligible()
                ==> final(self).obstacles@ == old(self).obstacles@ || (exists|o: Obstacle|
                #[trigger] Self::spec_fresh_spawn(o)
                    && final(self).obstacles@ == old(self).obstacles@.push(o)),
    {
        match self.phase {
            GamePhase::Crashed => {},
            GamePhase::Playing => {
                if self.obstacles.len() >= LIVE_OBSTACLE_CAP {
                    return;
                }
                match top_obstacle_y(&self.obstacles) {
                    Some(y) => {
                        if y >= BACKLOG_Y {
                            return;
                        }
                    },
                    None => {},
                }
                let gate = draw_below(SPAWN_ODDS);
                let lane = draw_below(2);
                let variant = draw_below(OBSTACLE_VARIANTS);
                proof {
                    assert(Self::spec_fresh_spawn(Self::spec_spawn_result(lane, variant)));
                }
                self.spawn_from_draws(gate, lane, variant);
            },
        }
    }
}

} // verus!
