use game::obstacle::{Obstacle, OBSTACLE_SPAWN_Y, OBSTACLE_VARIANTS};
use game::player::{Lane, Player, LEFT_LANE_X, RIGHT_LANE_X};
use game::sim::{GamePhase, Simulation, BACKLOG_Y, LIVE_OBSTACLE_CAP};

fn playing_with_obstacles(obstacles: Vec<Obstacle>) -> Simulation {
    Simulation {
        phase: GamePhase::Playing,
        player: Some(Player::in_lane(Lane::Left)),
        obstacles,
        mailbox: None,
        crash_marker: false,
    }
}

fn low_obstacle(x: i32) -> Obstacle {
    Obstacle { x, y: 0, variant: 0, exit: None }
}

#[test]
fn cap_blocks_spawn_regardless_of_draw() {
    // three live obstacles, all well below the backlog line: the cap alone
    // must block every spawn, whatever the random draw
    let mut sim = playing_with_obstacles(vec![
        low_obstacle(-160),
        low_obstacle(160),
        low_obstacle(-160),
    ]);
    for _ in 0..10_000 {
        sim.spawn_tick();
        assert_eq!(sim.obstacles.len(), LIVE_OBSTACLE_CAP);
    }
}

#[test]
fn backlog_blocks_spawn_regardless_of_draw() {
    // one live obstacle still above the backlog line: no spawn may happen
    let mut sim = playing_with_obstacles(vec![Obstacle {
        x: 160,
        y: BACKLOG_Y,
        variant: 1,
        exit: None,
    }]);
    for _ in 0..10_000 {
        sim.spawn_tick();
        assert_eq!(sim.obstacles.len(), 1);
    }
}

#[test]
fn eligible_ticks_spawn_eventually_and_correctly() {
    // an empty playfield is eligible; the probability gate passes about one
    // tick in a hundred, so 100_000 ticks without a spawn would mean the
    // random source is stuck
    let mut sim = playing_with_obstacles(Vec::new());
    let mut spawned = false;
    for _ in 0..100_000 {
        sim.spawn_tick();
        if !sim.obstacles.is_empty() {
            spawned = true;
            break;
        }
    }
    assert!(spawned, "an eligible spawn tick never spawned");
    let o = sim.obstacles[0];
    assert_eq!(o.y, OBSTACLE_SPAWN_Y);
    assert!(o.x == LEFT_LANE_X || o.x == RIGHT_LANE_X);
    assert!(o.variant < OBSTACLE_VARIANTS);
    assert!(o.exit.is_none());
}

#[test]
fn both_lanes_and_variants_are_drawn() {
    // over many spawns, both lanes and both variants must come up
    let mut seen_left = false;
    let mut seen_right = false;
    let mut seen_variants = [false; 2];
    for _ in 0..64 {
        let mut sim = playing_with_obstacles(Vec::new());
        for _ in 0..100_000 {
            sim.spawn_tick();
            if !sim.obstacles.is_empty() {
                break;
            }
        }
        if let Some(o) = sim.obstacles.first() {
            if o.x == LEFT_LANE_X {
                seen_left = true;
            }
            if o.x == RIGHT_LANE_X {
                seen_right = true;
            }
            seen_variants[o.variant as usize] = true;
        }
    }
    assert!(seen_left && seen_right, "one lane was never drawn");
    assert!(seen_variants[0] && seen_variants[1], "one variant was never drawn");
}

#[test]
fn missed_gate_draw_spawns_nothing() {
    let mut sim = playing_with_obstacles(Vec::new());
    for gate in 1..100 {
        sim.spawn_from_draws(gate, 0, 0);
        assert!(sim.obstacles.is_empty());
    }
}

#[test]
fn hitting_gate_draw_spawns_exactly_one() {
    let mut sim = playing_with_obstacles(Vec::new());
    sim.spawn_from_draws(0, 0, 1);
    assert_eq!(sim.obstacles.len(), 1);
    let o = sim.obstacles[0];
    assert_eq!(o.x, LEFT_LANE_X);
    assert_eq!(o.y, OBSTACLE_SPAWN_Y);
    assert_eq!(o.variant, 1);
    assert!(o.exit.is_none());
}

#[test]
fn lane_draw_selects_the_lane() {
    let mut left = playing_with_obstacles(Vec::new());
    left.spawn_from_draws(0, 0, 0);
    assert_eq!(left.obstacles[0].x, LEFT_LANE_X);

    let mut right = playing_with_obstacles(Vec::new());
    right.spawn_from_draws(0, 1, 0);
    assert_eq!(right.obstacles[0].x, RIGHT_LANE_X);
}

#[test]
fn crashed_spawner_is_gated_off() {
    let mut sim = Simulation {
        phase: GamePhase::Crashed,
        player: None,
        obstacles: Vec::new(),
        mailbox: None,
        crash_marker: true,
    };
    for _ in 0..10_000 {
        sim.spawn_tick();
        assert!(sim.obstacles.is_empty());
    }
}
