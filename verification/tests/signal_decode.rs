use game::signal::parse_signal;
use game::sim::Simulation;

#[test]
fn plain_digits_decode() {
    assert_eq!(parse_signal(b"5"), Some(5));
    assert_eq!(parse_signal(b"42"), Some(42));
    assert_eq!(parse_signal(b"007"), Some(7));
}

#[test]
fn signed_forms_decode() {
    assert_eq!(parse_signal(b"+12"), Some(12));
    assert_eq!(parse_signal(b"-12"), Some(-12));
    assert_eq!(parse_signal(b"-0"), Some(0));
}

#[test]
fn extreme_values_decode() {
    assert_eq!(parse_signal(b"2147483647"), Some(i32::MAX));
    assert_eq!(parse_signal(b"-2147483648"), Some(i32::MIN));
}

#[test]
fn out_of_range_is_rejected() {
    assert_eq!(parse_signal(b"2147483648"), None);
    assert_eq!(parse_signal(b"-2147483649"), None);
    assert_eq!(parse_signal(b"999999999999999999999999"), None);
}

#[test]
fn malformed_bodies_are_rejected() {
    assert_eq!(parse_signal(b""), None);
    assert_eq!(parse_signal(b"+"), None);
    assert_eq!(parse_signal(b"-"), None);
    assert_eq!(parse_signal(b"12a"), None);
    assert_eq!(parse_signal(b" 5"), None);
    assert_eq!(parse_signal(b"5 "), None);
    assert_eq!(parse_signal(b"--5"), None);
    assert_eq!(parse_signal(b"1.5"), None);
}

#[test]
fn good_response_overwrites_mailbox() {
    let mut sim = Simulation::new();
    assert!(sim.deliver_response(b"17"));
    assert_eq!(sim.mailbox, Some(17));
}

#[test]
fn bad_response_keeps_previous_signal() {
    let mut sim = Simulation::new();
    assert!(sim.deliver_response(b"-3"));
    assert!(!sim.deliver_response(b"not a number"));
    assert_eq!(sim.mailbox, Some(-3));
}
