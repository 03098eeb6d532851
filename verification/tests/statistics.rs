use eyenexus::statistics::{ClientStatistics, StatisticsManager, DEFAULT_FRAME_C_BITS};

const MS: u128 = 1_000_000;

fn stats(ts: u128, total: u128) -> ClientStatistics {
    ClientStatistics {
        target_timestamp: ts,
        total_pipeline_latency: total,
        video_decode: 3 * MS,
        video_decoder_queue: MS,
        rendering: 2 * MS,
        vsync_queue: 4 * MS,
        frame_interval: 11 * MS,
        frame_arrival_timestamp: 1234,
        arrival_ts_delta: 77,
        arrival_delta_vec: vec![(1, 70), (2, 71)],
    }
}

/// A manager holding frame `ts` tracked at 0 ms, presented at 10 ms, composed
/// at 12 ms and encoded at 17 ms.
fn pipeline(ts: u128) -> StatisticsManager {
    let mut m = StatisticsManager::new(8, 11 * MS, 30 * MS);
    m.report_tracking_received_at(ts, 0, 42);
    m.report_frame_present_at(ts, 0, 2, (10 * MS) as i128);
    m.report_frame_composed_at(ts, 0, (12 * MS) as i128);
    assert_eq!(m.report_frame_encoded_at(ts, 5000, 7, (17 * MS) as i128), 5 * MS);
    m
}

#[test]
fn new_manager_is_empty() {
    let m = StatisticsManager::new(4, 11 * MS, 30 * MS);
    assert_eq!(m.history_len(), 0);
    assert_eq!(m.video_pipeline_latency_average(), 0);
    assert_eq!(m.tracker_pose_time_offset(), 30 * MS);
    assert_eq!(m.counters().video_packets_total, 0);
}

#[test]
fn tracking_adds_frames_newest_first_up_to_max() {
    let mut m = StatisticsManager::new(2, 11 * MS, 0);
    m.report_tracking_received_at(1, 0, 0);
    m.report_tracking_received_at(2, 5, 0);
    m.report_tracking_received_at(3, 9, 0);
    assert_eq!(m.history_len(), 2);
    assert!(m.frame_info(1).is_none());
    assert!(m.frame_info(2).is_some());
    assert!(m.frame_info(3).is_some());
    // A frame already there only counts one more reception.
    m.report_tracking_received_at(3, 20, 0);
    assert_eq!(m.history_len(), 2);
    let f = m.frame_info(3).unwrap();
    assert_eq!(f.tracking_rece_times, 1);
    assert_eq!(f.tracking_received, 9);
}

#[test]
fn zero_size_history_keeps_nothing() {
    let mut m = StatisticsManager::new(0, 11 * MS, 0);
    m.report_tracking_received_at(1, 0, 0);
    assert_eq!(m.history_len(), 0);
    assert!(m.report_statistics_at(&stats(1, 50 * MS), 0).is_none());
}

#[test]
fn fresh_frame_defaults() {
    let mut m = StatisticsManager::new(4, 11 * MS, 0);
    m.report_tracking_received_at(7, 3, 99);
    let f = m.frame_info(7).unwrap();
    assert_eq!(f.frame_send_timestamp, 99);
    assert_eq!(f.frame_c_bits, DEFAULT_FRAME_C_BITS);
    assert_eq!(f32::from_bits(f.frame_c_bits), 188.0);
    assert_eq!(f.encode_times, 0);
    assert!(!f.reported);
}

#[test]
fn encoded_counts_bytes_even_without_frame() {
    let mut m = StatisticsManager::new(4, 11 * MS, 0);
    assert_eq!(m.report_frame_encoded_at(9, 1000, 0, 5), 0);
    let c = m.counters();
    assert_eq!(c.video_packets_total, 1);
    assert_eq!(c.video_bytes_total, 1000);
    assert_eq!(c.video_bytes_partial_sum, 1000);
}

#[test]
fn statistics_report_breaks_down_latency() {
    let mut m = pipeline(1);
    let r = m.report_statistics_at(&stats(1, 40 * MS), (20 * MS) as i128).unwrap();
    assert_eq!(r.latencies.game_time_latency, 10 * MS);
    assert_eq!(r.latencies.server_compositor_latency, 2 * MS);
    assert_eq!(r.latencies.encoder_latency, 5 * MS);
    // 40 - (10 + 2 + 5 + 3 + 1 + 2 + 4) = 13
    assert_eq!(r.latencies.network_latency, 13 * MS);
    assert_eq!(r.latencies.total_pipeline_latency, 40 * MS);
    assert!(r.summary.is_none());
    assert_eq!(r.frame.feedback_index, 1);
    assert_eq!(r.frame.video_packet_bytes, 5000);
    // First feedback answers the first transmission: arrival delta from the list.
    assert_eq!(r.arrival_delta, 70);
    assert_eq!(r.send_delta, 0);
}

#[test]
fn network_latency_saturates_at_zero() {
    let mut m = pipeline(1);
    let r = m.report_statistics_at(&stats(1, 20 * MS), 0).unwrap();
    assert_eq!(r.latencies.network_latency, 0);
}

#[test]
fn repeated_report_counts_game_latency_once() {
    let mut m = pipeline(1);
    let r1 = m.report_statistics_at(&stats(1, 40 * MS), 0).unwrap();
    assert_eq!(r1.latencies.game_time_latency, 10 * MS);
    let r2 = m.report_statistics_at(&stats(1, 45 * MS), 0).unwrap();
    assert_eq!(r2.latencies.game_time_latency, 0);
    assert_eq!(r2.latencies.total_pipeline_latency, 35 * MS);
    assert_eq!(r2.frame.feedback_index, 2);
    assert_eq!(r2.arrival_delta, 71);
}

#[test]
fn send_delta_follows_transmission_index() {
    let mut m = pipeline(1);
    m.report_send_timestamp(1, 555);
    m.report_send_timestamp_delta(1, 300);
    m.report_send_timestamp_delta(1, 310);
    let f = m.frame_info(1).unwrap();
    assert_eq!(f.send_times, 2);
    assert_eq!(f.frame_send_ts_delta, 310);
    assert_eq!(f.frame_send_timestamp, 555);
    let r1 = m.report_statistics_at(&stats(1, 40 * MS), 0).unwrap();
    assert_eq!(r1.send_delta, 300);
    let r2 = m.report_statistics_at(&stats(1, 40 * MS), 0).unwrap();
    assert_eq!(r2.send_delta, 310);
    let r3 = m.report_statistics_at(&stats(1, 40 * MS), 0).unwrap();
    // No third transmission: the latest delta is used.
    assert_eq!(r3.send_delta, 310);
    assert_eq!(r3.arrival_delta, 77);
}

#[test]
fn summary_every_report_interval() {
    let mut m = pipeline(1);
    m.report_packet_loss();
    let r = m.report_statistics_at(&stats(1, 40 * MS), 1_000_000_001).unwrap();
    let s = r.summary.unwrap();
    assert_eq!(s.video_packets_partial_sum, 1);
    assert_eq!(s.video_bytes_partial_sum, 5000);
    assert_eq!(s.packets_lost_partial_sum, 1);
    let c = m.counters();
    assert_eq!(c.video_packets_partial_sum, 0);
    assert_eq!(c.video_bytes_partial_sum, 0);
    assert_eq!(c.packets_lost_partial_sum, 0);
    assert_eq!(c.video_bytes_total, 5000);
    assert_eq!(c.packets_lost_total, 1);
    // The summary instant moved by one interval only: not due again until 2 s.
    let r = m.report_statistics_at(&stats(1, 40 * MS), 2_000_000_000).unwrap();
    assert!(r.summary.is_none());
    let r = m.report_statistics_at(&stats(1, 40 * MS), 2_000_000_001).unwrap();
    assert!(r.summary.is_some());
}

#[test]
fn mtp_report_once_per_frame() {
    let mut m = pipeline(1);
    // Later passes do not change the motion-to-photon instants.
    m.report_frame_present_at(1, 0, 2, (30 * MS) as i128);
    let r = m.report_statistics_MTP(&stats(1, 40 * MS)).unwrap();
    assert_eq!(r.latencies.game_time_latency, 10 * MS);
    assert_eq!(r.latencies.server_compositor_latency, 2 * MS);
    assert_eq!(r.latencies.encoder_latency, 5 * MS);
    assert_eq!(r.latencies.network_latency, 13 * MS);
    assert_eq!(r.frame.video_packet_bytes_mtp, 5000);
    assert_eq!(r.frame.frame_c_mtp_bits, 7);
    assert!(r.frame.mtp_reported);
    assert!(m.report_statistics_MTP(&stats(1, 40 * MS)).is_none());
    assert!(m.report_statistics_MTP(&stats(2, 40 * MS)).is_none());
}

#[test]
fn present_interval_and_offset() {
    let mut m = StatisticsManager::new(4, 11 * MS, 0);
    m.report_tracking_received_at(1, 0, 0);
    m.report_tracking_received_at(2, 0, 0);
    m.report_frame_present_at(1, 2 * MS, 1, (12 * MS) as i128);
    assert_eq!(m.last_frame_present_interval(), 10 * MS);
    m.report_frame_present_at(2, 0, 1, (25 * MS) as i128);
    assert_eq!(m.last_frame_present_interval(), 15 * MS);
    // Unknown frame: nothing changes.
    m.report_frame_present_at(3, 0, 1, (90 * MS) as i128);
    assert_eq!(m.last_frame_present_interval(), 15 * MS);
    assert_eq!(m.frame_info(1).unwrap().frame_present_times, 1);
    assert_eq!(m.frame_info(1).unwrap().layers_count, 1);
}

#[test]
fn vsync_advances_by_whole_intervals() {
    let mut m = StatisticsManager::new(4, 10, 0);
    assert_eq!(m.duration_until_next_vsync_at(0), 10);
    assert_eq!(m.duration_until_next_vsync_at(35), 5);
    assert_eq!(m.duration_until_next_vsync_at(35), 5);
    assert_eq!(m.duration_until_next_vsync_at(40), 0);
    assert_eq!(m.duration_until_next_vsync_at(41), 9);
}

#[test]
fn battery_reports_replace_each_other() {
    let mut m = StatisticsManager::new(4, 10, 0);
    let b = m.battery(0);
    assert_eq!(b.gauge_value_bits, 0);
    assert!(!b.is_plugged);
    m.report_battery(0, 0.5f32.to_bits(), true);
    m.report_battery(0, 0.25f32.to_bits(), false);
    let b = m.battery(0);
    assert_eq!(f32::from_bits(b.gauge_value_bits), 0.25);
    assert!(!b.is_plugged);
}

#[test]
fn clock_reading_reports_run() {
    let mut m = StatisticsManager::new(4, 11 * MS, 0);
    m.report_tracking_received(1);
    m.report_frame_present(1, 0, 1);
    m.report_frame_composed(1, 0);
    let _ = m.report_frame_encoded(1, 10, 0);
    assert!(m.report_statistics(&stats(1, 40 * MS)).is_some());
    assert!(m.duration_until_next_vsync() <= 11 * MS);
}
