use eyenexus::congestion_controller::{
    get_eyenexus_feature_toggles, next_action, BandwidthUsage, DetectEvent, OveruseTimer, TrendZone,
    TrendlineState, ACTION_DECREASE, ACTION_HOLD, ACTION_INCREASE, WINDOW_SIZE,
};

#[test]
fn feature_toggles() {
    assert_eq!(get_eyenexus_feature_toggles(), (false, true, false));
}

#[test]
fn action_under_normal_network_increases() {
    assert_eq!(next_action(ACTION_DECREASE, BandwidthUsage::kBwNormal), ACTION_INCREASE);
    assert_eq!(next_action(ACTION_HOLD, BandwidthUsage::kBwNormal), ACTION_INCREASE);
    assert_eq!(next_action(ACTION_INCREASE, BandwidthUsage::kBwNormal), ACTION_INCREASE);
}

#[test]
fn action_under_overuse_and_unknown_state() {
    for a in [ACTION_DECREASE, ACTION_HOLD, ACTION_INCREASE] {
        assert_eq!(next_action(a, BandwidthUsage::kBwOverusing), ACTION_DECREASE);
        assert_eq!(next_action(a, BandwidthUsage::kLast), ACTION_HOLD);
    }
}

#[test]
fn underused_network_increases() {
    assert_eq!(next_action(ACTION_DECREASE, BandwidthUsage::kBwUnderusing), ACTION_INCREASE);
    assert_eq!(next_action(ACTION_HOLD, BandwidthUsage::kBwUnderusing), ACTION_INCREASE);
    assert_eq!(next_action(ACTION_INCREASE, BandwidthUsage::kBwUnderusing), ACTION_INCREASE);
}

#[test]
fn increase_right_after_decrease() {
    let mut a = next_action(ACTION_HOLD, BandwidthUsage::kBwOverusing);
    assert_eq!(a, ACTION_DECREASE);
    a = next_action(a, BandwidthUsage::kBwNormal);
    assert_eq!(a, ACTION_INCREASE);
}

#[test]
fn trendline_initial_state() {
    let t: TrendlineState<u8> = TrendlineState::new();
    assert_eq!(t.num_of_deltas, 0);
    assert_eq!(t.first_arrival_time_ms, -1);
    assert_eq!(t.last_update_ms, -1);
    assert_eq!(t.overuse_counter, 0);
    assert!(t.hypothesis == BandwidthUsage::kBwNormal);
    assert!(!t.delay_window_full());
}

#[test]
fn record_arrival_is_relative_to_first_packet_and_caps_count() {
    let mut t: TrendlineState<u8> = TrendlineState::new();
    assert_eq!(t.record_arrival(500), 0);
    assert_eq!(t.first_arrival_time_ms, 500);
    assert_eq!(t.record_arrival(533), 33);
    assert_eq!(t.num_of_deltas, 2);
    for _ in 0..2000 {
        t.record_arrival(600);
    }
    assert_eq!(t.num_of_deltas, 1000);
}

#[test]
fn delay_window_fills_at_window_size() {
    let mut t: TrendlineState<u32> = TrendlineState::new();
    for i in 0..WINDOW_SIZE as u32 {
        assert!(!t.delay_window_full());
        t.push_delay(i);
    }
    assert!(t.delay_window_full());
    t.push_delay(99);
    assert!(t.delay_window_full());
    assert_eq!(t.delay_samples().iter().copied().collect::<Vec<_>>(), vec![1, 2, 3, 4, 99]);
}

#[test]
fn threshold_clock_caps_and_skips_spikes() {
    let mut t: TrendlineState<u8> = TrendlineState::new();
    assert_eq!(t.threshold_clock(1000, false), Some(0));
    assert_eq!(t.threshold_clock(1040, false), Some(40));
    assert_eq!(t.threshold_clock(1500, false), Some(100));
    assert_eq!(t.threshold_clock(1600, true), None);
    assert_eq!(t.last_update_ms, 1600);
}

#[test]
fn detect_gate_needs_two_deltas() {
    let mut t: TrendlineState<u8> = TrendlineState::new();
    t.hypothesis = BandwidthUsage::kBwOverusing;
    assert_eq!(t.detect_gate(), None);
    assert!(t.hypothesis == BandwidthUsage::kBwNormal);
    t.record_arrival(0);
    t.record_arrival(10);
    assert_eq!(t.detect_gate(), Some(2));
    for _ in 0..100 {
        t.record_arrival(20);
    }
    assert_eq!(t.detect_gate(), Some(60));
}

fn above(exceeded: bool, rising: bool) -> DetectEvent {
    DetectEvent { zone: TrendZone::Above, timer_exceeded: exceeded, trend_rising: rising }
}

#[test]
fn overuse_needs_two_consecutive_above_steps() {
    let mut t: TrendlineState<u8> = TrendlineState::new();
    // First above-threshold step never declares overuse, even with the timer exceeded.
    assert_eq!(t.detect_transition(above(true, true)), OveruseTimer::Keep);
    assert!(t.hypothesis == BandwidthUsage::kBwNormal);
    assert_eq!(t.overuse_counter, 1);
    // Second consecutive one does.
    assert_eq!(t.detect_transition(above(true, true)), OveruseTimer::Restart);
    assert!(t.hypothesis == BandwidthUsage::kBwOverusing);
    assert_eq!(t.overuse_counter, 0);
}

#[test]
fn overuse_requires_timer_and_rising_trend() {
    let mut t: TrendlineState<u8> = TrendlineState::new();
    t.detect_transition(above(false, true));
    assert_eq!(t.detect_transition(above(false, true)), OveruseTimer::Keep);
    assert_eq!(t.detect_transition(above(true, false)), OveruseTimer::Keep);
    assert!(t.hypothesis == BandwidthUsage::kBwNormal);
    assert_eq!(t.overuse_counter, 3);
}

#[test]
fn below_and_within_reset_counter() {
    let mut t: TrendlineState<u8> = TrendlineState::new();
    t.detect_transition(above(false, false));
    let below = DetectEvent { zone: TrendZone::Below, timer_exceeded: true, trend_rising: true };
    assert_eq!(t.detect_transition(below), OveruseTimer::Stop);
    assert!(t.hypothesis == BandwidthUsage::kBwUnderusing);
    assert_eq!(t.overuse_counter, 0);
    let within = DetectEvent { zone: TrendZone::Within, timer_exceeded: false, trend_rising: false };
    assert_eq!(t.detect_transition(within), OveruseTimer::Stop);
    assert!(t.hypothesis == BandwidthUsage::kBwNormal);
    // An interruption means the next above step is again a first one.
    assert_eq!(t.detect_transition(above(true, true)), OveruseTimer::Keep);
    assert!(t.hypothesis == BandwidthUsage::kBwNormal);
}
