//! Edge tracker behavior: one event per physical transition.

use targeting::{Channel, Edge, EdgeTracker};

#[test]
fn level_sequence_yields_three_events() {
    // Levels [false, true, true, false, true] on one channel produce
    // exactly the transitions [rising, falling, rising].
    let mut t = EdgeTracker::new();
    let levels = [false, true, true, false, true];
    let mut events: Vec<Edge> = Vec::new();
    for &l in levels.iter() {
        if let Some(e) = t.observe(Channel::Sit, l) {
            events.push(e);
        }
    }
    assert_eq!(events, vec![Edge::Rising, Edge::Falling, Edge::Rising]);
}

#[test]
fn holding_a_key_fires_no_repeat() {
    let mut t = EdgeTracker::new();
    assert_eq!(t.observe(Channel::Glide, true), Some(Edge::Rising));
    assert_eq!(t.observe(Channel::Glide, true), None);
    assert_eq!(t.observe(Channel::Glide, true), None);
    assert_eq!(t.observe(Channel::Glide, false), Some(Edge::Falling));
    assert_eq!(t.observe(Channel::Glide, false), None);
}

#[test]
fn channels_do_not_share_state() {
    let mut t = EdgeTracker::new();
    assert_eq!(t.observe(Channel::Sit, true), Some(Edge::Rising));
    // A different channel still sees its own released state.
    assert_eq!(t.observe(Channel::Sneak, true), Some(Edge::Rising));
    assert_eq!(t.observe(Channel::Sit, true), None);
    assert!(t.get_level(Channel::Sit));
    assert!(t.get_level(Channel::Sneak));
    assert!(!t.get_level(Channel::Dance));
}

#[test]
fn fresh_tracker_is_all_released() {
    let t = EdgeTracker::new();
    assert!(!t.get_level(Channel::Primary));
    assert!(!t.get_level(Channel::MoveRight));
    assert!(!t.get_level(Channel::AutoWalk));
}
