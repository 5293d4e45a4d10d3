use odnodvorets::epoch::{CausalityGuard, EpochTracker};
use odnodvorets::flow_timer::{FlowTimerMap, TICKS_PER_UNIT};
use odnodvorets::geometry::Point;

const E: u64 = 1;
const OTHER: u64 = 2;
const POSITION: u64 = 0;
const LOOK: u64 = 1;

#[test]
fn epochs_count_writes() {
    let mut t = EpochTracker::new();
    assert_eq!(t.current_epoch(), 0);
    t.record_write(E, POSITION);
    t.record_write(E, POSITION);
    t.record_write(OTHER, LOOK);
    assert_eq!(t.current_epoch(), 3);
}

#[test]
fn no_write_after_token_is_not_a_modification() {
    let mut t = EpochTracker::new();
    t.record_write(E, POSITION);
    let token = t.current_epoch();
    assert!(!t.was_modified_since(E, POSITION, token));
    t.record_write(E, LOOK);
    t.record_write(OTHER, POSITION);
    assert!(!t.was_modified_since(E, POSITION, token));
    assert!(t.was_modified_since(E, POSITION, 0));
}

#[test]
fn any_number_of_writes_after_token_is_a_modification() {
    for writes in 1..5 {
        let mut t = EpochTracker::new();
        let token = t.current_epoch();
        for _ in 0..writes {
            t.record_write(E, POSITION);
        }
        assert!(t.was_modified_since(E, POSITION, token));
        assert!(!t.was_modified_since(E, LOOK, token));
        assert!(!t.was_modified_since(E, POSITION, t.current_epoch()));
    }
}

fn deferred_plant(modify: bool) -> Option<Point> {
    let mut world = EpochTracker::new();
    let mut timers = FlowTimerMap::new();
    let mut position = Point::new(5, 5);
    world.record_write(E, POSITION);
    let guard = CausalityGuard::capture(&world, E, POSITION, position);
    assert!(!timers.wait_pause(1, 1000 * TICKS_PER_UNIT));
    let mut resumed = false;
    for step in 0..20 {
        if modify && step == 3 {
            position = Point::new(6, 5);
            world.record_write(E, POSITION);
        }
        if timers.wake_flows(100 * TICKS_PER_UNIT) == vec![1] {
            resumed = true;
            break;
        }
    }
    assert!(resumed);
    let _ = position;
    guard.commit(&world, true)
}

#[test]
fn deferred_action_skipped_after_write() {
    assert_eq!(deferred_plant(true), None);
}

#[test]
fn deferred_action_uses_snapshot_when_untouched() {
    assert_eq!(deferred_plant(false), Some(Point::new(5, 5)));
}

#[test]
fn deferred_action_skipped_when_entity_is_gone() {
    let mut world = EpochTracker::new();
    world.record_write(E, POSITION);
    let guard = CausalityGuard::capture(&world, E, POSITION, Point::new(5, 5));
    assert_eq!(guard.token, 1);
    assert_eq!(guard.commit(&world, false), None);
}
