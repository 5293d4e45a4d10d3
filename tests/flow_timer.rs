use odnodvorets::flow_timer::{FlowTimerMap, PendingWake, TICKS_PER_UNIT};

fn units(u: u64) -> u64 {
    u * TICKS_PER_UNIT
}

#[test]
fn new_map_is_empty_at_time_zero() {
    let map = FlowTimerMap::new();
    assert_eq!(map.current_time, 0);
    assert!(map.wakers.is_empty());
}

#[test]
fn sleep_until_integer_boundary_waits_one_more_step() {
    let mut map = FlowTimerMap::new();
    assert!(map.wake_flows(units(999)).is_empty());
    assert!(!map.wait_until(7, units(1000)));
    // The clock reaches exactly 1000.0: the flow must not resume yet.
    assert!(map.wake_flows(units(1)).is_empty());
    assert_eq!(map.current_time, units(1000));
    // Still within bucket 1000.
    assert!(map.wake_flows(TICKS_PER_UNIT / 2).is_empty());
    // Past bucket 1000: the flow resumes, once.
    assert_eq!(map.wake_flows(TICKS_PER_UNIT / 2), vec![7]);
    assert!(map.wake_flows(units(5)).is_empty());
}

#[test]
fn time_already_reached_needs_no_wait() {
    let mut map = FlowTimerMap::new();
    map.wake_flows(units(10));
    assert!(map.wait_until(1, units(10)));
    assert!(map.wait_until(2, units(3)));
    assert!(map.wakers.is_empty());
    assert!(map.wait_pause(3, 0));
    assert!(map.wakers.is_empty());
}

#[test]
fn shorter_sleep_resumes_no_later() {
    let mut map = FlowTimerMap::new();
    map.wake_flows(units(5));
    assert!(!map.wait_pause(1, units(3)));
    assert!(!map.wait_pause(2, units(1)));
    let mut woke_at = [0usize; 3];
    for step in 1..10 {
        for h in map.wake_flows(units(1)) {
            woke_at[h as usize] = step;
        }
    }
    assert_eq!(woke_at[2], 2);
    assert_eq!(woke_at[1], 4);
    assert!(woke_at[2] <= woke_at[1]);
}

#[test]
fn same_bucket_delays_wake_together_in_arrival_order() {
    let mut map = FlowTimerMap::new();
    assert!(!map.wait_until(10, units(2) + 300));
    assert!(!map.wait_until(11, units(2) + 100));
    assert!(!map.wait_until(12, units(1)));
    assert_eq!(
        map.wakers,
        vec![
            PendingWake { bucket: 1, handle: 12 },
            PendingWake { bucket: 2, handle: 10 },
            PendingWake { bucket: 2, handle: 11 },
        ]
    );
    assert_eq!(map.wake_flows(units(5)), vec![12, 10, 11]);
    assert!(map.wakers.is_empty());
}

#[test]
fn drain_keeps_later_buckets() {
    let mut map = FlowTimerMap::new();
    map.add_flow(1, 0);
    map.add_flow(2, 3);
    map.add_flow(3, 1);
    assert_eq!(map.wake_flows(units(2)), vec![1, 3]);
    assert_eq!(map.wakers, vec![PendingWake { bucket: 3, handle: 2 }]);
    assert!(map.wake_flows(units(1)).is_empty());
    assert_eq!(map.wake_flows(units(1)), vec![2]);
}

#[test]
fn cancelled_flow_is_never_woken() {
    let mut map = FlowTimerMap::new();
    map.add_flow(1, 0);
    map.add_flow(2, 0);
    map.add_flow(1, 4);
    map.cancel(1);
    assert_eq!(map.wakers, vec![PendingWake { bucket: 0, handle: 2 }]);
    assert_eq!(map.wake_flows(units(10)), vec![2]);
}

#[test]
fn clock_accumulates_deltas() {
    let mut map = FlowTimerMap::new();
    map.wake_flows(1234);
    map.wake_flows(0);
    map.wake_flows(766);
    assert_eq!(map.current_time, 2000);
}

#[test]
fn drain_leaves_current_bucket_and_does_not_move_clock() {
    let mut map = FlowTimerMap::new();
    map.add_flow(1, 2);
    map.add_flow(2, 3);
    assert_eq!(map.drain(units(3)), vec![1]);
    assert_eq!(map.current_time, 0);
    assert_eq!(map.drain(units(3) + 999), Vec::<u64>::new());
    assert_eq!(map.drain(units(4)), vec![2]);
    assert_eq!(map.drain(units(100)), Vec::<u64>::new());
}

#[test]
fn sleep_until_mid_bucket_waits_for_next_bucket() {
    let mut map = FlowTimerMap::new();
    assert!(!map.wait_until(4, units(2) + 500));
    assert!(map.wake_flows(units(2)).is_empty());
    // Past the release time but still in its bucket.
    assert!(map.wake_flows(700).is_empty());
    assert_eq!(map.wake_flows(300), vec![4]);
}
