use game::player::{LANE_Y, LEFT_LANE_X, RIGHT_LANE_X};
use game::sim::{GamePhase, Simulation};

fn player_of(sim: &Simulation) -> game::player::Player {
    sim.player.expect("player must exist while playing")
}

#[test]
fn positive_signal_selects_right_lane_flipped() {
    let mut sim = Simulation::new();
    sim.deliver_signal(5);
    sim.fast_tick();
    let p = player_of(&sim);
    assert_eq!((p.x, p.y, p.flip), (RIGHT_LANE_X, LANE_Y, true));
}

#[test]
fn zero_signal_selects_left_lane_unflipped() {
    let mut sim = Simulation::new();
    sim.deliver_signal(5);
    sim.fast_tick();
    sim.deliver_signal(0);
    sim.fast_tick();
    let p = player_of(&sim);
    assert_eq!((p.x, p.y, p.flip), (LEFT_LANE_X, LANE_Y, false));
}

#[test]
fn negative_signal_selects_left_lane_unflipped() {
    let mut sim = Simulation::new();
    sim.deliver_signal(5);
    sim.fast_tick();
    sim.deliver_signal(-7);
    sim.fast_tick();
    let p = player_of(&sim);
    assert_eq!((p.x, p.y, p.flip), (LEFT_LANE_X, LANE_Y, false));
}

#[test]
fn repeated_identical_signal_is_idempotent() {
    let mut once = Simulation::new();
    once.deliver_signal(5);
    once.fast_tick();

    let mut twice = Simulation::new();
    twice.deliver_signal(5);
    twice.fast_tick();
    twice.deliver_signal(5);
    twice.fast_tick();

    assert_eq!(player_of(&once), player_of(&twice));
}

#[test]
fn no_signal_leaves_player_in_place() {
    let mut sim = Simulation::new();
    for _ in 0..10 {
        sim.fast_tick();
    }
    let p = player_of(&sim);
    assert_eq!((p.x, p.y, p.flip), (LEFT_LANE_X, LANE_Y, false));
}

#[test]
fn mailbox_is_last_write_wins() {
    let mut sim = Simulation::new();
    sim.deliver_signal(9);
    sim.deliver_signal(-1);
    sim.fast_tick();
    let p = player_of(&sim);
    assert_eq!(p.x, LEFT_LANE_X);
}

#[test]
fn signal_is_consumed_once() {
    let mut sim = Simulation::new();
    sim.deliver_signal(5);
    sim.fast_tick();
    assert!(sim.mailbox.is_none());
    // without a fresh delivery the next tick actuates nothing
    sim.fast_tick();
    assert_eq!(player_of(&sim).x, RIGHT_LANE_X);
    assert!(matches!(sim.phase, GamePhase::Playing));
}
