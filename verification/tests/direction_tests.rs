use buffett_bots::direction::{should_switch_directions, transfer_endpoints, TokenFlow};

#[test]
fn test_switch_directions() {
    assert_eq!(should_switch_directions(20, 0), false);
    assert_eq!(should_switch_directions(20, 1), false);
    assert_eq!(should_switch_directions(20, 14), false);
    assert_eq!(should_switch_directions(20, 15), true);
    assert_eq!(should_switch_directions(20, 16), false);
    assert_eq!(should_switch_directions(20, 19), false);
    assert_eq!(should_switch_directions(20, 20), true);
    assert_eq!(should_switch_directions(20, 21), false);
    assert_eq!(should_switch_directions(20, 99), false);
    assert_eq!(should_switch_directions(20, 100), true);
    assert_eq!(should_switch_directions(20, 101), false);
}

#[test]
fn switch_with_negative_counts_follows_truncated_remainder() {
    // -5 % 5 == 0 but -5 is below the threshold of 15.
    assert_eq!(should_switch_directions(20, -5), false);
    // quarter of -20 is -5; threshold is -15.
    assert_eq!(should_switch_directions(-20, -10), true);
    assert_eq!(should_switch_directions(-20, -16), false);
    assert_eq!(should_switch_directions(-20, -11), false);
}

#[test]
fn switch_points_repeat_every_quarter() {
    for i in 15..200i64 {
        assert_eq!(should_switch_directions(20, i), should_switch_directions(20, i + 5));
    }
    let switches: Vec<i64> = (0..100).filter(|i| should_switch_directions(20, *i)).collect();
    for w in switches.windows(2) {
        assert!(w[1] - w[0] >= 5);
    }
}

#[test]
fn token_flow_turns_at_switch_points() {
    let mut flow = TokenFlow::new(13);
    flow.next_batch();
    assert_eq!((flow.batch, flow.reclaim), (14, false));
    flow.next_batch();
    assert_eq!((flow.batch, flow.reclaim), (15, true));
    for _ in 0..4 {
        flow.next_batch();
    }
    assert_eq!((flow.batch, flow.reclaim), (19, true));
    flow.next_batch();
    assert_eq!((flow.batch, flow.reclaim), (20, false));
}

#[test]
fn endpoints_follow_the_flow() {
    assert_eq!(transfer_endpoints("source", "account", false), ("source", "account"));
    assert_eq!(transfer_endpoints("source", "account", true), ("account", "source"));
}
