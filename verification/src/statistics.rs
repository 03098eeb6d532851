//! Per-frame latency bookkeeping of the streaming server.
//!
//! Durations are nanoseconds (`u128`, at most `Duration::MAX`). Instants are
//! signed nanoseconds relative to the instant the manager was created, within
//! one `Duration::MAX` of it. The manager keeps a history of the most recent
//! frames, newest first, keyed by target timestamp; the reporting functions
//! record when each frame passed each pipeline stage and derive the latency of
//! every stage from those instants.

use crate::clock::{elapsed_nanos, instant_now, utc_now_micros, MAX_DURATION_NANOS};
use std::collections::{HashMap, VecDeque};
use std::time::Instant;
use vstd::prelude::*;

verus! {

/// Interval between two full statistics summaries (1 s), in nanoseconds.
pub const FULL_REPORT_INTERVAL_NANOS: u128 = 1_000_000_000;

/// Bit pattern of the `f32` value 188.0, the foveation controller value a
/// frame carries until it is encoded.
pub const DEFAULT_FRAME_C_BITS: u32 = 0x433C_0000;

/// Whether a relative instant lies within one `Duration::MAX` of the origin.
pub open spec fn instant_ok(t: i128) -> bool {
    -(MAX_DURATION_NANOS as int) <= t <= MAX_DURATION_NANOS
}

/// `later.saturating_duration_since(earlier)`.
pub open spec fn since(later: i128, earlier: i128) -> u128 {
    if later > earlier {
        (later - earlier) as u128
    } else {
        0
    }
}

/// `a.saturating_sub(b)` on durations.
pub open spec fn sat_sub(a: u128, b: u128) -> u128 {
    if a > b {
        (a - b) as u128
    } else {
        0
    }
}

fn since_exec(later: i128, earlier: i128) -> (d: u128)
    requires
        instant_ok(later),
        instant_ok(earlier),
    ensures
        d == since(later, earlier),
{
    if later > earlier {
        (later - earlier) as u128
    } else {
        0
    }
}

fn durations_ok_exec(stats: &ClientStatistics) -> (b: bool)
    ensures
        b == stats.durations_ok(),
{
    stats.total_pipeline_latency <= MAX_DURATION_NANOS && stats.video_decode <= MAX_DURATION_NANOS
        && stats.video_decoder_queue <= MAX_DURATION_NANOS && stats.rendering <= MAX_DURATION_NANOS
        && stats.vsync_queue <= MAX_DURATION_NANOS && stats.frame_interval <= MAX_DURATION_NANOS
}

fn sat_sub_exec(a: u128, b: u128) -> (d: u128)
    ensures
        d == sat_sub(a, b),
{
    if a > b {
        a - b
    } else {
        0
    }
}

/// Statistics the client reports for one frame.
pub struct ClientStatistics {
    /// Target timestamp of the frame (ns).
    pub target_timestamp: u128,
    /// Latency from tracking to display, measured by the client (ns).
    pub total_pipeline_latency: u128,
    /// Decode latency (ns).
    pub video_decode: u128,
    /// Time spent in the decoder queue (ns).
    pub video_decoder_queue: u128,
    /// Client compositor latency (ns).
    pub rendering: u128,
    /// Time spent waiting for vsync (ns).
    pub vsync_queue: u128,
    /// Interval between two client frames (ns).
    pub frame_interval: u128,
    /// Arrival timestamp of the frame at the client (µs).
    pub frame_arrival_timestamp: i64,
    /// Arrival delta of the last packet of the frame (µs).
    pub arrival_ts_delta: i64,
    /// Arrival deltas of each transmission of the frame, by transmission index.
    pub arrival_delta_vec: Vec<(i32, i64)>,
}

impl ClientStatistics {
    /// All durations are durations: at most `Duration::MAX`.
    pub open spec fn durations_ok(&self) -> bool {
        &&& self.total_pipeline_latency <= MAX_DURATION_NANOS
        &&& self.video_decode <= MAX_DURATION_NANOS
        &&& self.video_decoder_queue <= MAX_DURATION_NANOS
        &&& self.rendering <= MAX_DURATION_NANOS
        &&& self.vsync_queue <= MAX_DURATION_NANOS
        &&& self.frame_interval <= MAX_DURATION_NANOS
    }

    /// Sum of the client-side latencies.
    pub open spec fn client_latency(&self) -> int {
        self.video_decode + self.video_decoder_queue + self.rendering + self.vsync_queue
    }
}

/// Everything the manager records for one frame.
pub struct FrameView {
    pub target_timestamp: u128,
    pub tracking_received: i128,
    pub frame_present: i128,
    pub frame_present_mtp: i128,
    pub frame_composed: i128,
    pub frame_composed_mtp: i128,
    pub frame_encoded: i128,
    pub frame_encoded_mtp: i128,
    pub video_packet_bytes: usize,
    pub video_packet_bytes_mtp: usize,
    pub total_pipeline_latency: u128,
    pub total_pipeline_latency_mtp: u128,
    pub reported: bool,
    pub last_repeat_game_latency: u128,
    pub frame_send_timestamp: i64,
    pub frame_send_ts_delta: i64,
    pub send_times: i32,
    pub encode_times: i32,
    pub composition_times: i32,
    pub tracking_rece_times: i32,
    pub frame_present_times: i32,
    pub send_delta_vec: Seq<(i32, i64)>,
    pub feedback_index: i32,
    pub layers_count: i32,
    pub mtp_reported: bool,
    pub frame_c_mtp_bits: u32,
    pub frame_c_bits: u32,
}

impl FrameView {
    /// All instants of the frame lie within one `Duration::MAX` of the origin
    /// and all its durations are durations.
    pub open spec fn times_ok(&self) -> bool {
        &&& instant_ok(self.tracking_received)
        &&& instant_ok(self.frame_present)
        &&& instant_ok(self.frame_present_mtp)
        &&& instant_ok(self.frame_composed)
        &&& instant_ok(self.frame_composed_mtp)
        &&& instant_ok(self.frame_encoded)
        &&& instant_ok(self.frame_encoded_mtp)
        &&& self.total_pipeline_latency <= MAX_DURATION_NANOS
        &&& self.total_pipeline_latency_mtp <= MAX_DURATION_NANOS
        &&& self.last_repeat_game_latency <= MAX_DURATION_NANOS
    }
}

/// The record of a frame first seen at `now` (when its tracking was received).
pub open spec fn fresh_frame(target_timestamp: u128, now: i128, send_timestamp_micros: i64) -> FrameView {
    FrameView {
        target_timestamp,
        tracking_received: now,
        frame_present: now,
        frame_present_mtp: now,
        frame_composed: now,
        frame_composed_mtp: now,
        frame_encoded: now,
        frame_encoded_mtp: now,
        video_packet_bytes: 0,
        video_packet_bytes_mtp: 0,
        total_pipeline_latency: 0,
        total_pipeline_latency_mtp: 0,
        reported: false,
        last_repeat_game_latency: 0,
        frame_send_timestamp: send_timestamp_micros,
        frame_send_ts_delta: 0,
        send_times: 0,
        encode_times: 0,
        composition_times: 0,
        tracking_rece_times: 0,
        frame_present_times: 0,
        send_delta_vec: Seq::empty(),
        feedback_index: 0,
        layers_count: 0,
        mtp_reported: false,
        frame_c_mtp_bits: DEFAULT_FRAME_C_BITS,
        frame_c_bits: DEFAULT_FRAME_C_BITS,
    }
}

/// One frame in the history.
pub struct HistoryFrame {
    target_timestamp: u128,
    tracking_received: i128,
    frame_present: i128,
    frame_present_mtp: i128,
    frame_composed: i128,
    frame_composed_mtp: i128,
    frame_encoded: i128,
    frame_encoded_mtp: i128,
    video_packet_bytes: usize,
    video_packet_bytes_mtp: usize,
    total_pipeline_latency: u128,
    total_pipeline_latency_mtp: u128,
    reported: bool,
    last_repeat_game_latency: u128,
    frame_send_timestamp: i64,
    frame_send_ts_delta: i64,
    send_times: i32,
    encode_times: i32,
    composition_times: i32,
    tracking_rece_times: i32,
    frame_present_times: i32,
    send_delta_vec: Vec<(i32, i64)>,
    feedback_index: i32,
    layers_count: i32,
    mtp_reported: bool,
    frame_c_mtp_bits: u32,
    frame_c_bits: u32,
}

impl View for HistoryFrame {
    type V = FrameView;

    closed spec fn view(&self) -> FrameView {
        FrameView {
            target_timestamp: self.target_timestamp,
            tracking_received: self.tracking_received,
            frame_present: self.frame_present,
            frame_present_mtp: self.frame_present_mtp,
            frame_composed: self.frame_composed,
            frame_composed_mtp: self.frame_composed_mtp,
            frame_encoded: self.frame_encoded,
            frame_encoded_mtp: self.frame_encoded_mtp,
            video_packet_bytes: self.video_packet_bytes,
            video_packet_bytes_mtp: self.video_packet_bytes_mtp,
            total_pipeline_latency: self.total_pipeline_latency,
            total_pipeline_latency_mtp: self.total_pipeline_latency_mtp,
            reported: self.reported,
            last_repeat_game_latency: self.last_repeat_game_latency,
            frame_send_timestamp: self.frame_send_timestamp,
            frame_send_ts_delta: self.frame_send_ts_delta,
            send_times: self.send_times,
            encode_times: self.encode_times,
            composition_times: self.composition_times,
            tracking_rece_times: self.tracking_rece_times,
            frame_present_times: self.frame_present_times,
            send_delta_vec: self.send_delta_vec@,
            feedback_index: self.feedback_index,
            layers_count: self.layers_count,
            mtp_reported: self.mtp_reported,
            frame_c_mtp_bits: self.frame_c_mtp_bits,
            frame_c_bits: self.frame_c_bits,
        }
    }
}

impl HistoryFrame {
    /// Scalar data of the frame.
    pub fn info(&self) -> (i: FrameInfo)
        ensures
            i == info_of(self@),
    {
        FrameInfo {
            target_timestamp: self.target_timestamp,
            tracking_received: self.tracking_received,
            video_packet_bytes: self.video_packet_bytes,
            video_packet_bytes_mtp: self.video_packet_bytes_mtp,
            total_pipeline_latency: self.total_pipeline_latency,
            frame_send_timestamp: self.frame_send_timestamp,
            frame_send_ts_delta: self.frame_send_ts_delta,
            frame_c_bits: self.frame_c_bits,
            frame_c_mtp_bits: self.frame_c_mtp_bits,
            tracking_rece_times: self.tracking_rece_times,
            frame_present_times: self.frame_present_times,
            composition_times: self.composition_times,
            encode_times: self.encode_times,
            send_times: self.send_times,
            feedback_index: self.feedback_index,
            layers_count: self.layers_count,
            reported: self.reported,
            mtp_reported: self.mtp_reported,
        }
    }

    /// A frame whose tracking was received at `now`; every stage instant
    /// starts at `now`, every count at zero, and the foveation controller
    /// value at 188.
    pub fn fresh(target_timestamp: u128, now: i128, send_timestamp_micros: i64) -> (f: Self)
        ensures
            f@ == fresh_frame(target_timestamp, now, send_timestamp_micros),
    {
        HistoryFrame {
            target_timestamp,
            tracking_received: now,
            frame_present: now,
            frame_present_mtp: now,
            frame_composed: now,
            frame_composed_mtp: now,
            frame_encoded: now,
            frame_encoded_mtp: now,
            video_packet_bytes: 0,
            video_packet_bytes_mtp: 0,
            total_pipeline_latency: 0,
            total_pipeline_latency_mtp: 0,
            reported: false,
            last_repeat_game_latency: 0,
            frame_send_timestamp: send_timestamp_micros,
            frame_send_ts_delta: 0,
            send_times: 0,
            encode_times: 0,
            composition_times: 0,
            tracking_rece_times: 0,
            frame_present_times: 0,
            send_delta_vec: Vec::new(),
            feedback_index: 0,
            layers_count: 0,
            mtp_reported: false,
            frame_c_mtp_bits: DEFAULT_FRAME_C_BITS,
            frame_c_bits: DEFAULT_FRAME_C_BITS,
        }
    }
}

/// Battery state of a device: the gauge value (as `f32` bits) and whether it
/// is plugged in.
#[derive(Clone, Copy, Debug, PartialEq, Eq, Structural)]
pub struct BatteryData {
    pub gauge_value_bits: u32,
    pub is_plugged: bool,
}

/// Latency of each stage of the pipeline for one frame (ns).
#[derive(Clone, Copy, Debug, PartialEq, Eq, Structural)]
pub struct LatencyBreakdown {
    /// From tracking reception to presentation.
    pub game_time_latency: u128,
    /// From presentation to composition.
    pub server_compositor_latency: u128,
    /// From composition to encoding.
    pub encoder_latency: u128,
    /// What is left of the total latency after every other stage.
    pub network_latency: u128,
    /// Total latency from tracking to display.
    pub total_pipeline_latency: u128,
}

/// Packet, byte and loss counters: totals and sums since the last summary.
#[derive(Clone, Copy, Debug, PartialEq, Eq, Structural)]
pub struct CounterSnapshot {
    pub video_packets_total: usize,
    pub video_packets_partial_sum: usize,
    pub video_bytes_total: usize,
    pub video_bytes_partial_sum: usize,
    pub packets_lost_total: usize,
    pub packets_lost_partial_sum: usize,
}

/// Scalar data of one frame.
#[derive(Clone, Copy, Debug, PartialEq, Eq, Structural)]
pub struct FrameInfo {
    pub target_timestamp: u128,
    pub tracking_received: i128,
    pub video_packet_bytes: usize,
    pub video_packet_bytes_mtp: usize,
    pub total_pipeline_latency: u128,
    pub frame_send_timestamp: i64,
    pub frame_send_ts_delta: i64,
    pub frame_c_bits: u32,
    pub frame_c_mtp_bits: u32,
    pub tracking_rece_times: i32,
    pub frame_present_times: i32,
    pub composition_times: i32,
    pub encode_times: i32,
    pub send_times: i32,
    pub feedback_index: i32,
    pub layers_count: i32,
    pub reported: bool,
    pub mtp_reported: bool,
}

/// Outcome of the motion-to-photon report of a frame.
#[derive(Clone, Copy, Debug, PartialEq, Eq, Structural)]
pub struct MtpReport {
    pub latencies: LatencyBreakdown,
    pub frame: FrameInfo,
}

/// Outcome of the per-frame statistics report.
#[derive(Clone, Copy, Debug, PartialEq, Eq, Structural)]
pub struct StatisticsReport {
    /// Stage latencies; on a repeated report of a frame the game latency and
    /// the total latency exclude what earlier reports already counted.
    pub latencies: LatencyBreakdown,
    /// The counters before they were reset, when a full summary is due.
    pub summary: Option<CounterSnapshot>,
    /// Send delta (µs) of the transmission this feedback answers.
    pub send_delta: i64,
    /// Arrival delta (µs) of the transmission this feedback answers.
    pub arrival_delta: i64,
    /// The frame after the report.
    pub frame: FrameInfo,
}

/// Scalar data of a frame record.
pub open spec fn info_of(f: FrameView) -> FrameInfo {
    FrameInfo {
        target_timestamp: f.target_timestamp,
        tracking_received: f.tracking_received,
        video_packet_bytes: f.video_packet_bytes,
        video_packet_bytes_mtp: f.video_packet_bytes_mtp,
        total_pipeline_latency: f.total_pipeline_latency,
        frame_send_timestamp: f.frame_send_timestamp,
        frame_send_ts_delta: f.frame_send_ts_delta,
        frame_c_bits: f.frame_c_bits,
        frame_c_mtp_bits: f.frame_c_mtp_bits,
        tracking_rece_times: f.tracking_rece_times,
        frame_present_times: f.frame_present_times,
        composition_times: f.composition_times,
        encode_times: f.encode_times,
        send_times: f.send_times,
        feedback_index: f.feedback_index,
        layers_count: f.layers_count,
        reported: f.reported,
        mtp_reported: f.mtp_reported,
    }
}

/// Network latency: the total latency minus every other stage, saturating at
/// zero.
pub open spec fn network_latency(total: u128, game: u128, comp: u128, enc: u128, stats: ClientStatistics) -> u128 {
    sat_sub(total, (game + comp + enc + stats.client_latency()) as u128)
}

/// Stage latencies of the first presentation, composition and encoding of a
/// frame (motion-to-photon statistics).
pub open spec fn mtp_latencies(f: FrameView, stats: ClientStatistics) -> LatencyBreakdown {
    let game: u128 = since(f.frame_present_mtp, f.tracking_received);
    let comp: u128 = since(f.frame_composed_mtp, f.frame_present_mtp);
    let enc: u128 = since(f.frame_encoded_mtp, f.frame_composed_mtp);
    LatencyBreakdown {
        game_time_latency: game,
        server_compositor_latency: comp,
        encoder_latency: enc,
        network_latency: network_latency(stats.total_pipeline_latency, game, comp, enc, stats),
        total_pipeline_latency: stats.total_pipeline_latency,
    }
}

/// Whether the stage latencies of the first pass of `f` and the client
/// latencies add up to a duration.
pub open spec fn mtp_sum_fits(f: FrameView, stats: ClientStatistics) -> bool {
    let l = mtp_latencies(f, stats);
    l.game_time_latency + l.server_compositor_latency + l.encoder_latency + stats.client_latency()
        <= MAX_DURATION_NANOS
}

/// Stage latencies of the latest presentation, composition and encoding of a
/// frame, before the adjustment of repeated reports.
pub open spec fn raw_latencies(f: FrameView, stats: ClientStatistics) -> LatencyBreakdown {
    let game: u128 = since(f.frame_present, f.tracking_received);
    let comp: u128 = since(f.frame_composed, f.frame_present);
    let enc: u128 = since(f.frame_encoded, f.frame_composed);
    LatencyBreakdown {
        game_time_latency: game,
        server_compositor_latency: comp,
        encoder_latency: enc,
        network_latency: network_latency(stats.total_pipeline_latency, game, comp, enc, stats),
        total_pipeline_latency: stats.total_pipeline_latency,
    }
}

/// Stage latencies reported for a frame: on a repeated report the game and
/// total latencies exclude the game latency already reported.
pub open spec fn reported_latencies(f: FrameView, stats: ClientStatistics) -> LatencyBreakdown {
    let raw = raw_latencies(f, stats);
    if f.reported {
        LatencyBreakdown {
            game_time_latency: sat_sub(raw.game_time_latency, f.last_repeat_game_latency),
            total_pipeline_latency: sat_sub(stats.total_pipeline_latency, f.last_repeat_game_latency),
            ..raw
        }
    } else {
        raw
    }
}

/// Whether the durations that a statistics report of `f` adds up fit in a
/// duration.
pub open spec fn report_sum_fits(f: FrameView, stats: ClientStatistics) -> bool {
    let raw = raw_latencies(f, stats);
    &&& raw.game_time_latency + raw.server_compositor_latency + raw.encoder_latency + stats.client_latency()
        <= MAX_DURATION_NANOS
    &&& f.last_repeat_game_latency + reported_latencies(f, stats).game_time_latency <= MAX_DURATION_NANOS
}

/// The delta of the first entry numbered `index`, `default` when none is.
pub open spec fn delta_at(v: Seq<(i32, i64)>, index: i32, default: i64) -> i64
    decreases v.len(),
{
    if v.len() == 0 {
        default
    } else if v[0].0 == index {
        v[0].1
    } else {
        delta_at(v.drop_first(), index, default)
    }
}

fn find_delta(v: &Vec<(i32, i64)>, index: i32, default: i64) -> (d: i64)
    ensures
        d == delta_at(v@, index, default),
{
    let mut k: usize = 0;
    assert(v@.skip(0) =~= v@);
    while k < v.len()
        invariant
            k <= v@.len(),
            delta_at(v@, index, default) == delta_at(v@.skip(k as int), index, default),
        decreases v@.len() - k,
    {
        let ghost rest = v@.skip(k as int);
        assert(rest.drop_first() =~= v@.skip(k + 1));
        if v[k].0 == index {
            return v[k].1;
        }
        k = k + 1;
    }
    assert(v@.skip(k as int).len() == 0);
    default
}

/// Whether a full summary is due at `now`: more than one report interval has
/// passed since the last one.
pub open spec fn summary_due(v: StatsView, now: i128) -> bool {
    v.last_full_report_instant + FULL_REPORT_INTERVAL_NANOS < now
}

/// The counters of the manager.
pub open spec fn counters_of(v: StatsView) -> CounterSnapshot {
    CounterSnapshot {
        video_packets_total: v.video_packets_total,
        video_packets_partial_sum: v.video_packets_partial_sum,
        video_bytes_total: v.video_bytes_total,
        video_bytes_partial_sum: v.video_bytes_partial_sum,
        packets_lost_total: v.packets_lost_total,
        packets_lost_partial_sum: v.packets_lost_partial_sum,
    }
}

/// The frame after a statistics report.
pub open spec fn reported_frame(f: FrameView, stats: ClientStatistics) -> FrameView {
    let l = reported_latencies(f, stats);
    FrameView {
        total_pipeline_latency: l.total_pipeline_latency,
        reported: true,
        last_repeat_game_latency: (f.last_repeat_game_latency + l.game_time_latency) as u128,
        feedback_index: (f.feedback_index + 1) as i32,
        ..f
    }
}

/// State after a statistics report of frame `stats.target_timestamp` at `now`.
pub open spec fn spec_report(v: StatsView, stats: ClientStatistics, now: i128) -> StatsView {
    if has_frame(v.history, stats.target_timestamp) {
        let f = frame_of(v.history, stats.target_timestamp);
        let v1 = if summary_due(v, now) {
            StatsView {
                last_full_report_instant: (v.last_full_report_instant + FULL_REPORT_INTERVAL_NANOS) as i128,
                video_packets_partial_sum: 0,
                video_bytes_partial_sum: 0,
                packets_lost_partial_sum: 0,
                ..v
            }
        } else {
            v
        };
        StatsView {
            history: with_frame(v.history, stats.target_timestamp, reported_frame(f, stats)),
            ..v1
        }
    } else {
        v
    }
}

/// Result of a statistics report of frame `stats.target_timestamp` at `now`.
pub open spec fn spec_report_result(v: StatsView, stats: ClientStatistics, now: i128) -> Option<StatisticsReport> {
    if has_frame(v.history, stats.target_timestamp) {
        let f = frame_of(v.history, stats.target_timestamp);
        let g = reported_frame(f, stats);
        Some(StatisticsReport {
            latencies: reported_latencies(f, stats),
            summary: if summary_due(v, now) {
                Some(counters_of(v))
            } else {
                None
            },
            send_delta: delta_at(f.send_delta_vec, g.feedback_index, f.frame_send_ts_delta),
            arrival_delta: delta_at(stats.arrival_delta_vec@, g.feedback_index, stats.arrival_ts_delta),
            frame: info_of(g),
        })
    } else {
        None
    }
}

/// Whether `h` has a frame with target timestamp `ts`.
pub open spec fn has_frame(h: Seq<FrameView>, ts: u128) -> bool {
    exists|i: int| 0 <= i < h.len() && #[trigger] h[i].target_timestamp == ts
}

/// Position of the frame with target timestamp `ts` in `h`.
pub open spec fn frame_index(h: Seq<FrameView>, ts: u128) -> int {
    choose|i: int| 0 <= i < h.len() && #[trigger] h[i].target_timestamp == ts
}

/// No two frames of `h` share a target timestamp.
pub open spec fn unique_timestamps(h: Seq<FrameView>) -> bool {
    forall|i: int, j: int|
        0 <= i < h.len() && 0 <= j < h.len() && i != j ==> #[trigger] h[i].target_timestamp
            != #[trigger] h[j].target_timestamp
}

/// Everything the manager keeps.
pub struct StatsView {
    /// Recent frames, newest first.
    pub history: Seq<FrameView>,
    pub max_history_size: usize,
    pub last_full_report_instant: i128,
    pub last_frame_present_instant: i128,
    pub last_frame_present_interval: u128,
    pub video_packets_total: usize,
    pub video_packets_partial_sum: usize,
    pub video_bytes_total: usize,
    pub video_bytes_partial_sum: usize,
    pub packets_lost_total: usize,
    pub packets_lost_partial_sum: usize,
    pub battery_gauges: Map<u64, BatteryData>,
    pub steamvr_pipeline_latency: u128,
    pub total_pipeline_latency_average: u128,
    pub last_vsync_time: i128,
    pub frame_interval: u128,
}

/// Statistics manager of the streaming server.
pub struct StatisticsManager {
    history_buffer: VecDeque<HistoryFrame>,
    max_history_size: usize,
    start_time: Instant,
    last_full_report_instant: i128,
    last_frame_present_instant: i128,
    last_frame_present_interval: u128,
    video_packets_total: usize,
    video_packets_partial_sum: usize,
    video_bytes_total: usize,
    video_bytes_partial_sum: usize,
    packets_lost_total: usize,
    packets_lost_partial_sum: usize,
    battery_gauges: HashMap<u64, BatteryData>,
    steamvr_pipeline_latency: u128,
    total_pipeline_latency_average: u128,
    last_vsync_time: i128,
    frame_interval: u128,
}

impl View for StatisticsManager {
    type V = StatsView;

    closed spec fn view(&self) -> StatsView {
        StatsView {
            history: self.history_buffer@.map_values(|f: HistoryFrame| f@),
            max_history_size: self.max_history_size,
            last_full_report_instant: self.last_full_report_instant,
            last_frame_present_instant: self.last_frame_present_instant,
            last_frame_present_interval: self.last_frame_present_interval,
            video_packets_total: self.video_packets_total,
            video_packets_partial_sum: self.video_packets_partial_sum,
            video_bytes_total: self.video_bytes_total,
            video_bytes_partial_sum: self.video_bytes_partial_sum,
            packets_lost_total: self.packets_lost_total,
            packets_lost_partial_sum: self.packets_lost_partial_sum,
            battery_gauges: self.battery_gauges@,
            steamvr_pipeline_latency: self.steamvr_pipeline_latency,
            total_pipeline_latency_average: self.total_pipeline_latency_average,
            last_vsync_time: self.last_vsync_time,
            frame_interval: self.frame_interval,
        }
    }
}

impl StatsView {
    /// Invariant of the manager: the history is bounded and keyed by target
    /// timestamp, and every instant and duration it holds is in range.
    pub open spec fn wf(&self) -> bool {
        &&& self.history.len() <= self.max_history_size
        &&& unique_timestamps(self.history)
        &&& forall|i: int| 0 <= i < self.history.len() ==> (#[trigger] self.history[i]).times_ok()
        &&& instant_ok(self.last_full_report_instant)
        &&& instant_ok(self.last_frame_present_instant)
        &&& instant_ok(self.last_vsync_time)
        &&& self.frame_interval <= MAX_DURATION_NANOS
        &&& self.steamvr_pipeline_latency <= MAX_DURATION_NANOS
        &&& self.total_pipeline_latency_average <= MAX_DURATION_NANOS
    }
}

impl StatisticsManager {
    /// Well-formedness of the manager.
    pub open spec fn wf(&self) -> bool {
        self@.wf()
    }

    /// A manager keeping at most `max_history_size` frames, for a server whose
    /// nominal frame interval is `nominal_server_frame_interval` and whose
    /// compositor pipeline latency is `steamvr_pipeline_latency`. Its origin
    /// instant is the current time, so every recorded instant starts at 0.
    pub fn new(
        max_history_size: usize,
        nominal_server_frame_interval: u128,
        steamvr_pipeline_latency: u128,
    ) -> (m: Self)
        requires
            nominal_server_frame_interval <= MAX_DURATION_NANOS,
            steamvr_pipeline_latency <= MAX_DURATION_NANOS,
        ensures
            m.wf(),
            m@.history == Seq::<FrameView>::empty(),
            m@.max_history_size == max_history_size,
            m@.last_full_report_instant == 0,
            m@.last_frame_present_instant == 0,
            m@.last_frame_present_interval == 0,
            m@.video_packets_total == 0,
            m@.video_packets_partial_sum == 0,
            m@.video_bytes_total == 0,
            m@.video_bytes_partial_sum == 0,
            m@.packets_lost_total == 0,
            m@.packets_lost_partial_sum == 0,
            m@.battery_gauges == Map::<u64, BatteryData>::empty(),
            m@.steamvr_pipeline_latency == steamvr_pipeline_latency,
            m@.total_pipeline_latency_average == 0,
            m@.last_vsync_time == 0,
            m@.frame_interval == nominal_server_frame_interval,
    {
        let m = StatisticsManager {
            history_buffer: VecDeque::new(),
            max_history_size,
            start_time: instant_now(),
            last_full_report_instant: 0,
            last_frame_present_instant: 0,
            last_frame_present_interval: 0,
            video_packets_total: 0,
            video_packets_partial_sum: 0,
            video_bytes_total: 0,
            video_bytes_partial_sum: 0,
            packets_lost_total: 0,
            packets_lost_partial_sum: 0,
            battery_gauges: HashMap::new(),
            steamvr_pipeline_latency,
            total_pipeline_latency_average: 0,
            last_vsync_time: 0,
            frame_interval: nominal_server_frame_interval,
        };
        assert(m@.history =~= Seq::<FrameView>::empty());
        m
    }

    /// Takes frame `i` out of the history.
    fn take_frame(&mut self, i: usize) -> (f: HistoryFrame)
        requires
            i < old(self).history_buffer@.len(),
        ensures
            f == old(self).history_buffer@[i as int],
            final(self).history_buffer@ == old(self).history_buffer@.remove(i as int),
            final(self)@ == (StatsView { history: final(self)@.history, ..old(self)@ }),
    {
        match self.history_buffer.remove(i) {
            Some(f) => f,
            None => {
                assert(false);
                HistoryFrame::fresh(0, 0, 0)
            },
        }
    }

    /// Puts frame `f` back at position `i` of the history it was taken from.
    fn restore_frame(&mut self, i: usize, f: HistoryFrame, Ghost(before): Ghost<Seq<HistoryFrame>>)
        requires
            i < before.len(),
            old(self).history_buffer@ == before.remove(i as int),
        ensures
            final(self).history_buffer@ == before.update(i as int, f),
            final(self)@ == (StatsView { history: final(self)@.history, ..old(self)@ }),
    {
        self.history_buffer.insert(i, f);
        assert(self.history_buffer@ =~= before.update(i as int, f));
    }

    /// Position of the frame with target timestamp `ts`, if any.
    fn find(&self, ts: u128) -> (r: Option<usize>)
        requires
            self.wf(),
        ensures
            r is None <==> !has_frame(self@.history, ts),
            r matches Some(i) ==> i == frame_index(self@.history, ts) && i < self@.history.len()
                && self@.history[i as int].target_timestamp == ts,
    {
        let n: usize = self.history_buffer.len();
        let mut i: usize = 0;
        while i < n
            invariant
                n == self.history_buffer@.len(),
                self@.history.len() == n,
                self.wf(),
                i <= n,
                forall|j: int| 0 <= j < i ==> (#[trigger] self@.history[j]).target_timestamp != ts,
            decreases n - i,
        {
            if self.history_buffer[i].target_timestamp == ts {
                assert(self@.history[i as int] == self.history_buffer@[i as int]@);
                proof {
                    lemma_frame_index(self@.history, i as int, ts);
                }
                return Some(i);
            }
            assert(self@.history[i as int] == self.history_buffer@[i as int]@);
            i = i + 1;
        }
        None
    }

    /// Records that the tracking for frame `target_timestamp` was received at
    /// `now`: a frame seen for the first time enters the history at the front
    /// (the oldest frame leaves when the history is over its size), a frame
    /// already there counts one more reception.
    pub fn report_tracking_received_at(
        &mut self,
        target_timestamp: u128,
        now: i128,
        send_timestamp_micros: i64,
    )
        requires
            old(self).wf(),
            instant_ok(now),
            has_frame(old(self)@.history, target_timestamp) ==> old(self)@.history[frame_index(
                old(self)@.history,
                target_timestamp,
            )].tracking_rece_times < i32::MAX,
        ensures
            final(self).wf(),
            final(self)@ == (StatsView {
                history: spec_track(old(self)@, target_timestamp, now, send_timestamp_micros),
                ..old(self)@
            }),
            final(self)@.max_history_size >= 1 ==> has_frame(final(self)@.history, target_timestamp),
    {
        let ghost old_h = self@.history;
        match self.find(target_timestamp) {
            Some(i) => {
                let ghost before = self.history_buffer@;
                let mut f = self.take_frame(i);
                f.tracking_rece_times = f.tracking_rece_times + 1;
                self.restore_frame(i, f, Ghost(before));
                proof {
                    assert(self@.history =~= spec_track(old(self)@, target_timestamp, now, send_timestamp_micros));
                    assert(self@.history[i as int].target_timestamp == target_timestamp);
                }
            },
            None => {
                self.history_buffer.push_front(HistoryFrame::fresh(target_timestamp, now, send_timestamp_micros));
                proof {
                    assert(self@.history =~= seq![fresh_frame(target_timestamp, now, send_timestamp_micros)] + old_h);
                }
                if self.history_buffer.len() > self.max_history_size {
                    let ghost h1 = self@.history;
                    self.history_buffer.pop_back();
                    proof {
                        assert(self@.history =~= h1.drop_last());
                    }
                }
                proof {
                    assert(self@.history =~= spec_track(old(self)@, target_timestamp, now, send_timestamp_micros));
                    if self@.history.len() >= 1 {
                        lemma_track_new_unique(old_h, self@.history, target_timestamp);
                        assert(self@.history[0].target_timestamp == target_timestamp);
                    }
                }
            },
        }
    }

    /// Records that the tracking for frame `target_timestamp` was received now,
    /// reading the monotonic and the wall clock.
    pub fn report_tracking_received(&mut self, target_timestamp: u128)
        requires
            old(self).wf(),
            has_frame(old(self)@.history, target_timestamp) ==> old(self)@.history[frame_index(
                old(self)@.history,
                target_timestamp,
            )].tracking_rece_times < i32::MAX,
        ensures
            final(self).wf(),
            exists|now: i128, send: i64|
                0 <= now <= MAX_DURATION_NANOS && final(self)@ == (StatsView {
                    history: #[trigger] spec_track(old(self)@, target_timestamp, now, send),
                    ..old(self)@
                }),
            final(self)@.max_history_size >= 1 ==> has_frame(final(self)@.history, target_timestamp),
    {
        let now: i128 = elapsed_nanos(&self.start_time) as i128;
        let send: i64 = utc_now_micros();
        self.report_tracking_received_at(target_timestamp, now, send);
    }

    /// Records that frame `target_timestamp` was presented `offset` before
    /// `now` with `layers` layers. The first presentation is also kept as the
    /// motion-to-photon presentation instant; the server presentation interval
    /// is measured from the previous presentation of any frame. Nothing
    /// changes for a frame not in the history.
    pub fn report_frame_present_at(&mut self, target_timestamp: u128, offset: u128, layers: i32, now: i128)
        requires
            old(self).wf(),
            instant_ok(now),
            offset <= MAX_DURATION_NANOS,
            instant_ok((now - offset) as i128),
            has_frame(old(self)@.history, target_timestamp) ==> frame_of(
                old(self)@.history,
                target_timestamp,
            ).frame_present_times < i32::MAX,
        ensures
            final(self).wf(),
            final(self)@ == spec_present(old(self)@, target_timestamp, offset, layers, now),
    {
        match self.find(target_timestamp) {
            Some(i) => {
                let t: i128 = now - offset as i128;
                let ghost v = self@;
                let interval: u128 = since_exec(t, self.last_frame_present_instant);
                self.last_frame_present_interval = interval;
                self.last_frame_present_instant = t;
                let ghost before = self.history_buffer@;
                let mut f = self.take_frame(i);
                if f.frame_present_times == 0 {
                    f.frame_present_mtp = t;
                }
                f.frame_present = t;
                f.frame_present_times = f.frame_present_times + 1;
                f.layers_count = layers;
                self.restore_frame(i, f, Ghost(before));
                proof {
                    assert(self@.history =~= spec_present(v, target_timestamp, offset, layers, now).history);
                    lemma_update_keeps_unique(v.history, frame_index(v.history, target_timestamp), self@.history);
                }
            },
            None => {},
        }
    }

    /// Records that frame `target_timestamp` was presented `offset` before
    /// now, reading the monotonic clock.
    pub fn report_frame_present(&mut self, target_timestamp: u128, offset: u128, layers: i32)
        requires
            old(self).wf(),
            offset <= MAX_DURATION_NANOS,
            has_frame(old(self)@.history, target_timestamp) ==> frame_of(
                old(self)@.history,
                target_timestamp,
            ).frame_present_times < i32::MAX,
        ensures
            final(self).wf(),
            exists|now: i128|
                0 <= now <= MAX_DURATION_NANOS && final(self)@ == #[trigger] spec_present(
                    old(self)@,
                    target_timestamp,
                    offset,
                    layers,
                    now,
                ),
    {
        let now: i128 = elapsed_nanos(&self.start_time) as i128;
        self.report_frame_present_at(target_timestamp, offset, layers, now);
    }

    /// Records that frame `target_timestamp` was composed `offset` before
    /// `now`; the first composition is also kept as the motion-to-photon
    /// composition instant. Nothing changes for a frame not in the history.
    pub fn report_frame_composed_at(&mut self, target_timestamp: u128, offset: u128, now: i128)
        requires
            old(self).wf(),
            instant_ok(now),
            offset <= MAX_DURATION_NANOS,
            instant_ok((now - offset) as i128),
            has_frame(old(self)@.history, target_timestamp) ==> frame_of(
                old(self)@.history,
                target_timestamp,
            ).composition_times < i32::MAX,
        ensures
            final(self).wf(),
            final(self)@ == spec_composed(old(self)@, target_timestamp, offset, now),
    {
        match self.find(target_timestamp) {
            Some(i) => {
                let t: i128 = now - offset as i128;
                let ghost v = self@;
                let ghost before = self.history_buffer@;
                let mut f = self.take_frame(i);
                if f.composition_times == 0 {
                    f.frame_composed_mtp = t;
                }
                f.frame_composed = t;
                f.composition_times = f.composition_times + 1;
                self.restore_frame(i, f, Ghost(before));
                proof {
                    assert(self@.history =~= spec_composed(v, target_timestamp, offset, now).history);
                    lemma_update_keeps_unique(v.history, frame_index(v.history, target_timestamp), self@.history);
                }
            },
            None => {},
        }
    }

    /// Records that frame `target_timestamp` was composed `offset` before now,
    /// reading the monotonic clock.
    pub fn report_frame_composed(&mut self, target_timestamp: u128, offset: u128)
        requires
            old(self).wf(),
            offset <= MAX_DURATION_NANOS,
            has_frame(old(self)@.history, target_timestamp) ==> frame_of(
                old(self)@.history,
                target_timestamp,
            ).composition_times < i32::MAX,
        ensures
            final(self).wf(),
            exists|now: i128|
                0 <= now <= MAX_DURATION_NANOS && final(self)@ == #[trigger] spec_composed(
                    old(self)@,
                    target_timestamp,
                    offset,
                    now,
                ),
    {
        let now: i128 = elapsed_nanos(&self.start_time) as i128;
        self.report_frame_composed_at(target_timestamp, offset, now);
    }

    /// Records that frame `target_timestamp` was encoded at `now` into
    /// `bytes_count` bytes with foveation controller value `c_bits` (bits of an
    /// `f32`). Packet and byte counters grow for every encoded frame; the first
    /// encoding of a frame in the history is also kept for motion-to-photon
    /// statistics. Returns the encoder latency of the frame (from its last
    /// composition), zero for a frame not in the history.
    pub fn report_frame_encoded_at(&mut self, target_timestamp: u128, bytes_count: usize, c_bits: u32, now: i128) -> (
        encode_latency: u128)
        requires
            old(self).wf(),
            instant_ok(now),
            old(self)@.video_packets_total < usize::MAX,
            old(self)@.video_packets_partial_sum < usize::MAX,
            old(self)@.video_bytes_total + bytes_count <= usize::MAX,
            old(self)@.video_bytes_partial_sum + bytes_count <= usize::MAX,
            has_frame(old(self)@.history, target_timestamp) ==> frame_of(
                old(self)@.history,
                target_timestamp,
            ).encode_times < i32::MAX,
        ensures
            final(self).wf(),
            final(self)@ == spec_encoded(old(self)@, target_timestamp, bytes_count, c_bits, now),
            encode_latency == (if has_frame(old(self)@.history, target_timestamp) {
                since(now, frame_of(old(self)@.history, target_timestamp).frame_composed)
            } else {
                0
            }),
    {
        self.video_packets_total = self.video_packets_total + 1;
        self.video_packets_partial_sum = self.video_packets_partial_sum + 1;
        self.video_bytes_total = self.video_bytes_total + bytes_count;
        self.video_bytes_partial_sum = self.video_bytes_partial_sum + bytes_count;
        match self.find(target_timestamp) {
            Some(i) => {
                let ghost v = self@;
                let ghost before = self.history_buffer@;
                let mut f = self.take_frame(i);
                if f.encode_times == 0 {
                    f.frame_encoded_mtp = now;
                    f.video_packet_bytes_mtp = bytes_count;
                    f.frame_c_mtp_bits = c_bits;
                }
                f.frame_encoded = now;
                f.video_packet_bytes = bytes_count;
                f.encode_times = f.encode_times + 1;
                f.frame_c_bits = c_bits;
                let latency: u128 = since_exec(f.frame_encoded, f.frame_composed);
                self.restore_frame(i, f, Ghost(before));
                proof {
                    assert(self@.history =~= spec_encoded(old(self)@, target_timestamp, bytes_count, c_bits, now).history);
                    lemma_update_keeps_unique(v.history, frame_index(v.history, target_timestamp), self@.history);
                }
                latency
            },
            None => 0,
        }
    }

    /// Records that frame `target_timestamp` was encoded now, reading the
    /// monotonic clock; returns the encoder latency of the frame.
    pub fn report_frame_encoded(&mut self, target_timestamp: u128, bytes_count: usize, c_bits: u32) -> (
        encode_latency: u128)
        requires
            old(self).wf(),
            old(self)@.video_packets_total < usize::MAX,
            old(self)@.video_packets_partial_sum < usize::MAX,
            old(self)@.video_bytes_total + bytes_count <= usize::MAX,
            old(self)@.video_bytes_partial_sum + bytes_count <= usize::MAX,
            has_frame(old(self)@.history, target_timestamp) ==> frame_of(
                old(self)@.history,
                target_timestamp,
            ).encode_times < i32::MAX,
        ensures
            final(self).wf(),
            exists|now: i128|
                0 <= now <= MAX_DURATION_NANOS && final(self)@ == #[trigger] spec_encoded(
                    old(self)@,
                    target_timestamp,
                    bytes_count,
                    c_bits,
                    now,
                ) && encode_latency == (if has_frame(old(self)@.history, target_timestamp) {
                    since(now, frame_of(old(self)@.history, target_timestamp).frame_composed)
                } else {
                    0
                }),
    {
        let now: i128 = elapsed_nanos(&self.start_time) as i128;
        self.report_frame_encoded_at(target_timestamp, bytes_count, c_bits, now)
    }

    /// Records the send timestamp (µs) of frame `target_timestamp`. Nothing
    /// changes for a frame not in the history.
    pub fn report_send_timestamp(&mut self, target_timestamp: u128, send_ts: i64)
        requires
            old(self).wf(),
        ensures
            final(self).wf(),
            final(self)@ == spec_send_timestamp(old(self)@, target_timestamp, send_ts),
    {
        match self.find(target_timestamp) {
            Some(i) => {
                let ghost v = self@;
                let ghost before = self.history_buffer@;
                let mut f = self.take_frame(i);
                f.frame_send_timestamp = send_ts;
                self.restore_frame(i, f, Ghost(before));
                proof {
                    assert(self@.history =~= with_frame(
                        v.history,
                        target_timestamp,
                        FrameView { frame_send_timestamp: send_ts, ..frame_of(v.history, target_timestamp) },
                    ));
                    lemma_update_keeps_unique(v.history, frame_index(v.history, target_timestamp), self@.history);
                }
            },
            None => {},
        }
    }

    /// Records one more transmission of frame `target_timestamp` with send
    /// delta `send_ts_delta` (µs): the delta becomes the frame's latest and is
    /// appended, numbered by the new transmission count, to its list of
    /// deltas. Nothing changes for a frame not in the history.
    pub fn report_send_timestamp_delta(&mut self, target_timestamp: u128, send_ts_delta: i64)
        requires
            old(self).wf(),
            has_frame(old(self)@.history, target_timestamp) ==> frame_of(
                old(self)@.history,
                target_timestamp,
            ).send_times < i32::MAX,
        ensures
            final(self).wf(),
            final(self)@ == spec_send_delta(old(self)@, target_timestamp, send_ts_delta),
    {
        match self.find(target_timestamp) {
            Some(i) => {
                let ghost v = self@;
                let ghost before = self.history_buffer@;
                let mut f = self.take_frame(i);
                f.frame_send_ts_delta = send_ts_delta;
                f.send_times = f.send_times + 1;
                let n: i32 = f.send_times;
                f.send_delta_vec.push((n, send_ts_delta));
                self.restore_frame(i, f, Ghost(before));
                proof {
                    let g = frame_of(v.history, target_timestamp);
                    assert(self@.history =~= with_frame(
                        v.history,
                        target_timestamp,
                        FrameView {
                            frame_send_ts_delta: send_ts_delta,
                            send_times: n,
                            send_delta_vec: g.send_delta_vec.push((n, send_ts_delta)),
                            ..g
                        },
                    ));
                    lemma_update_keeps_unique(v.history, frame_index(v.history, target_timestamp), self@.history);
                }
            },
            None => {},
        }
    }

    /// Counts one lost packet.
    pub fn report_packet_loss(&mut self)
        requires
            old(self).wf(),
            old(self)@.packets_lost_total < usize::MAX,
            old(self)@.packets_lost_partial_sum < usize::MAX,
        ensures
            final(self).wf(),
            final(self)@ == (StatsView {
                packets_lost_total: (old(self)@.packets_lost_total + 1) as usize,
                packets_lost_partial_sum: (old(self)@.packets_lost_partial_sum + 1) as usize,
                ..old(self)@
            }),
    {
        self.packets_lost_total = self.packets_lost_total + 1;
        self.packets_lost_partial_sum = self.packets_lost_partial_sum + 1;
    }

    /// Records the battery state of device `device_id`, replacing any earlier
    /// one.
    pub fn report_battery(&mut self, device_id: u64, gauge_value_bits: u32, is_plugged: bool)
        requires
            old(self).wf(),
        ensures
            final(self).wf(),
            final(self)@ == (StatsView {
                battery_gauges: old(self)@.battery_gauges.insert(
                    device_id,
                    BatteryData { gauge_value_bits, is_plugged },
                ),
                ..old(self)@
            }),
    {
        self.battery_gauges.insert(device_id, BatteryData { gauge_value_bits, is_plugged });
    }

    /// Battery state of device `device_id`, the default state (zero gauge,
    /// unplugged) when none was reported.
    pub fn battery(&self, device_id: u64) -> (b: BatteryData)
        ensures
            b == (if self@.battery_gauges.contains_key(device_id) {
                self@.battery_gauges[device_id]
            } else {
                BatteryData { gauge_value_bits: 0, is_plugged: false }
            }),
    {
        match self.battery_gauges.get(&device_id) {
            Some(b) => *b,
            None => BatteryData { gauge_value_bits: 0, is_plugged: false },
        }
    }

    /// Motion-to-photon report of frame `stats.target_timestamp`: the first
    /// report of a frame in the history records the client's total latency,
    /// marks the frame reported and returns the latency of each stage from the
    /// first pass of the frame through it. A frame already reported, or not in
    /// the history, is left alone (`None`).
    #[allow(non_snake_case)]
    pub fn report_statistics_MTP(&mut self, stats: &ClientStatistics) -> (r: Option<MtpReport>)
        requires
            old(self).wf(),
            stats.durations_ok(),
            has_frame(old(self)@.history, stats.target_timestamp) && !frame_of(
                old(self)@.history,
                stats.target_timestamp,
            ).mtp_reported ==> mtp_sum_fits(frame_of(old(self)@.history, stats.target_timestamp), *stats),
        ensures
            final(self).wf(),
            final(self)@ == spec_mtp(old(self)@, *stats),
            r == spec_mtp_result(old(self)@, *stats),
    {
        match self.find(stats.target_timestamp) {
            Some(i) => {
                if self.history_buffer[i].mtp_reported {
                    return None;
                }
                let ghost v = self@;
                let ghost before = self.history_buffer@;
                let mut f = self.take_frame(i);
                f.total_pipeline_latency_mtp = stats.total_pipeline_latency;
                let game: u128 = since_exec(f.frame_present_mtp, f.tracking_received);
                let comp: u128 = since_exec(f.frame_composed_mtp, f.frame_present_mtp);
                let enc: u128 = since_exec(f.frame_encoded_mtp, f.frame_composed_mtp);
                let network: u128 = sat_sub_exec(
                    f.total_pipeline_latency_mtp,
                    game + comp + enc + stats.video_decode + stats.video_decoder_queue + stats.rendering
                        + stats.vsync_queue,
                );
                f.mtp_reported = true;
                let info = f.info();
                self.restore_frame(i, f, Ghost(before));
                proof {
                    let g = FrameView {
                        total_pipeline_latency_mtp: stats.total_pipeline_latency,
                        mtp_reported: true,
                        ..frame_of(v.history, stats.target_timestamp)
                    };
                    assert(self@.history =~= with_frame(v.history, stats.target_timestamp, g));
                    lemma_update_keeps_unique(v.history, frame_index(v.history, stats.target_timestamp), self@.history);
                }
                Some(
                    MtpReport {
                        latencies: LatencyBreakdown {
                            game_time_latency: game,
                            server_compositor_latency: comp,
                            encoder_latency: enc,
                            network_latency: network,
                            total_pipeline_latency: stats.total_pipeline_latency,
                        },
                        frame: info,
                    },
                )
            },
            None => None,
        }
    }

    /// Statistics report of frame `stats.target_timestamp` at `now`. Records
    /// the client's total latency, derives the latency of each stage, counts
    /// one more feedback for the frame and picks the send and arrival deltas
    /// of the transmission it answers. When more than one report interval has
    /// passed since the last summary, the summary instant advances by one
    /// interval and the partial counters are returned and reset. Nothing
    /// changes for a frame not in the history (`None`).
    pub fn report_statistics_at(&mut self, stats: &ClientStatistics, now: i128) -> (r: Option<StatisticsReport>)
        requires
            old(self).wf(),
            instant_ok(now),
            stats.durations_ok(),
            has_frame(old(self)@.history, stats.target_timestamp) ==> report_sum_fits(
                frame_of(old(self)@.history, stats.target_timestamp),
                *stats,
            ) && frame_of(old(self)@.history, stats.target_timestamp).feedback_index < i32::MAX,
        ensures
            final(self).wf(),
            final(self)@ == spec_report(old(self)@, *stats, now),
            r == spec_report_result(old(self)@, *stats, now),
    {
        let i: usize = match self.find(stats.target_timestamp) {
            Some(i) => i,
            None => return None,
        };
        let ghost v = self@;
        let ghost f0 = frame_of(v.history, stats.target_timestamp);
        let summary = if self.last_full_report_instant + (FULL_REPORT_INTERVAL_NANOS as i128) < now {
            self.last_full_report_instant = self.last_full_report_instant + (FULL_REPORT_INTERVAL_NANOS as i128);
            let snapshot = CounterSnapshot {
                video_packets_total: self.video_packets_total,
                video_packets_partial_sum: self.video_packets_partial_sum,
                video_bytes_total: self.video_bytes_total,
                video_bytes_partial_sum: self.video_bytes_partial_sum,
                packets_lost_total: self.packets_lost_total,
                packets_lost_partial_sum: self.packets_lost_partial_sum,
            };
            self.video_packets_partial_sum = 0;
            self.video_bytes_partial_sum = 0;
            self.packets_lost_partial_sum = 0;
            Some(snapshot)
        } else {
            None
        };
        let ghost before = self.history_buffer@;
        let mut f = self.take_frame(i);
        f.total_pipeline_latency = stats.total_pipeline_latency;
        let mut game: u128 = since_exec(f.frame_present, f.tracking_received);
        let comp: u128 = since_exec(f.frame_composed, f.frame_present);
        let enc: u128 = since_exec(f.frame_encoded, f.frame_composed);
        let network: u128 = sat_sub_exec(
            f.total_pipeline_latency,
            game + comp + enc + stats.video_decode + stats.video_decoder_queue + stats.rendering
                + stats.vsync_queue,
        );
        if f.reported {
            game = sat_sub_exec(game, f.last_repeat_game_latency);
            f.total_pipeline_latency = sat_sub_exec(f.total_pipeline_latency, f.last_repeat_game_latency);
        }
        f.reported = true;
        f.last_repeat_game_latency = f.last_repeat_game_latency + game;
        f.feedback_index = f.feedback_index + 1;
        let send_delta: i64 = find_delta(&f.send_delta_vec, f.feedback_index, f.frame_send_ts_delta);
        let arrival_delta: i64 = find_delta(&stats.arrival_delta_vec, f.feedback_index, stats.arrival_ts_delta);
        let info = f.info();
        let latencies = LatencyBreakdown {
            game_time_latency: game,
            server_compositor_latency: comp,
            encoder_latency: enc,
            network_latency: network,
            total_pipeline_latency: f.total_pipeline_latency,
        };
        self.restore_frame(i, f, Ghost(before));
        proof {
            assert(self@.history =~= with_frame(v.history, stats.target_timestamp, reported_frame(f0, *stats)));
            lemma_update_keeps_unique(v.history, frame_index(v.history, stats.target_timestamp), self@.history);
        }
        Some(StatisticsReport { latencies, summary, send_delta, arrival_delta, frame: info })
    }

    /// Statistics report of frame `stats.target_timestamp`, reading the
    /// monotonic clock.
    pub fn report_statistics(&mut self, stats: &ClientStatistics) -> (r: Option<StatisticsReport>)
        requires
            old(self).wf(),
            stats.durations_ok(),
            has_frame(old(self)@.history, stats.target_timestamp) ==> report_sum_fits(
                frame_of(old(self)@.history, stats.target_timestamp),
                *stats,
            ) && frame_of(old(self)@.history, stats.target_timestamp).feedback_index < i32::MAX,
        ensures
            final(self).wf(),
            exists|now: i128|
                0 <= now <= MAX_DURATION_NANOS && final(self)@ == #[trigger] spec_report(old(self)@, *stats, now)
                    && r == spec_report_result(old(self)@, *stats, now),
    {
        let now: i128 = elapsed_nanos(&self.start_time) as i128;
        self.report_statistics_at(stats, now)
    }

    /// Average total pipeline latency over the history window. No total
    /// latency sample is ever submitted to the window, which holds only its
    /// initial zero sample.
    pub fn video_pipeline_latency_average(&self) -> (d: u128)
        ensures
            d == self@.total_pipeline_latency_average,
    {
        self.total_pipeline_latency_average
    }

    /// Offset of the tracker pose time: the compositor pipeline latency minus
    /// the average total pipeline latency, saturating at zero.
    pub fn tracker_pose_time_offset(&self) -> (d: u128)
        ensures
            d == sat_sub(self@.steamvr_pipeline_latency, self@.total_pipeline_latency_average),
    {
        sat_sub_exec(self.steamvr_pipeline_latency, self.total_pipeline_latency_average)
    }

    /// Time from `now` to the next vsync. The last vsync instant first moves
    /// forward by whole frame intervals while the vsync after it is already
    /// past, so that the next vsync is the first one at or after `now`.
    pub fn duration_until_next_vsync_at(&mut self, now: i128) -> (d: u128)
        requires
            old(self).wf(),
            instant_ok(now),
            old(self)@.frame_interval > 0 || old(self)@.last_vsync_time + old(self)@.frame_interval >= now,
        ensures
            final(self).wf(),
            final(self)@ == (StatsView { last_vsync_time: final(self)@.last_vsync_time, ..old(self)@ }),
            spec_vsync_step(old(self)@.last_vsync_time, old(self)@.frame_interval, now, final(self)@.last_vsync_time),
            d == final(self)@.last_vsync_time + old(self)@.frame_interval - now,
            old(self)@.last_vsync_time <= now ==> d <= old(self)@.frame_interval,
    {
        let interval: i128 = self.frame_interval as i128;
        let ghost l0 = self.last_vsync_time as int;
        let mut last: i128 = self.last_vsync_time;
        let ghost mut k: int = 0;
        while last + interval < now
            invariant
                interval == self.frame_interval,
                interval <= MAX_DURATION_NANOS,
                instant_ok(now),
                l0 == self.last_vsync_time,
                instant_ok(self.last_vsync_time),
                self.frame_interval > 0 || self.last_vsync_time + self.frame_interval >= now,
                k >= 0,
                last == l0 + k * interval,
                last == l0 || last < now,
                l0 <= last,
                instant_ok(last),
            decreases now - last,
        {
            assert(interval > 0) by {
                if interval == 0 {
                    assert(k * interval == 0) by (nonlinear_arith)
                        requires
                            interval == 0,
                    ;
                }
            }
            proof {
                assert((k + 1) * interval == k * interval + interval) by (nonlinear_arith);
                k = k + 1;
            }
            last = last + interval;
        }
        self.last_vsync_time = last;
        proof {
            assert(spec_vsync_step(l0 as i128, interval as u128, now, last)) by {
                assert(last == l0 + k * interval);
            }
        }
        (last + interval - now) as u128
    }

    /// Time to the next vsync, reading the monotonic clock.
    pub fn duration_until_next_vsync(&mut self) -> (d: u128)
        requires
            old(self).wf(),
            old(self)@.frame_interval > 0,
        ensures
            final(self).wf(),
            final(self)@ == (StatsView { last_vsync_time: final(self)@.last_vsync_time, ..old(self)@ }),
            exists|now: i128|
                0 <= now <= MAX_DURATION_NANOS && #[trigger] spec_vsync_step(
                    old(self)@.last_vsync_time,
                    old(self)@.frame_interval,
                    now,
                    final(self)@.last_vsync_time,
                ) && d == final(self)@.last_vsync_time + old(self)@.frame_interval - now && (old(
                    self,
                )@.last_vsync_time <= now ==> d <= old(self)@.frame_interval),
    {
        let now: i128 = elapsed_nanos(&self.start_time) as i128;
        self.duration_until_next_vsync_at(now)
    }

    /// Interval between the last two frame presentations.
    pub fn last_frame_present_interval(&self) -> (d: u128)
        ensures
            d == self@.last_frame_present_interval,
    {
        self.last_frame_present_interval
    }

    /// Nominal interval between two server frames.
    pub fn frame_interval(&self) -> (d: u128)
        ensures
            d == self@.frame_interval,
    {
        self.frame_interval
    }

    /// The packet, byte and loss counters.
    pub fn counters(&self) -> (c: CounterSnapshot)
        ensures
            c == counters_of(self@),
    {
        CounterSnapshot {
            video_packets_total: self.video_packets_total,
            video_packets_partial_sum: self.video_packets_partial_sum,
            video_bytes_total: self.video_bytes_total,
            video_bytes_partial_sum: self.video_bytes_partial_sum,
            packets_lost_total: self.packets_lost_total,
            packets_lost_partial_sum: self.packets_lost_partial_sum,
        }
    }

    /// Number of frames in the history.
    pub fn history_len(&self) -> (n: usize)
        ensures
            n == self@.history.len(),
    {
        self.history_buffer.len()
    }

    /// Scalar data of the frame with target timestamp `ts`, if it is in the
    /// history.
    pub fn frame_info(&self, ts: u128) -> (r: Option<FrameInfo>)
        requires
            self.wf(),
        ensures
            r == (if has_frame(self@.history, ts) {
                Some(info_of(frame_of(self@.history, ts)))
            } else {
                None
            }),
    {
        match self.find(ts) {
            Some(i) => Some(self.history_buffer[i].info()),
            None => None,
        }
    }

    /// Whether `report_statistics_MTP` may be called with `stats`: the client
    /// durations are durations, and a frame still owed its motion-to-photon
    /// report has stage latencies that add up to a duration.
    pub fn mtp_report_fits(&self, stats: &ClientStatistics) -> (b: bool)
        requires
            self.wf(),
        ensures
            b == (stats.durations_ok() && (mtp_pending(self@, stats.target_timestamp) ==> mtp_sum_fits(
                frame_of(self@.history, stats.target_timestamp),
                *stats,
            ))),
    {
        if !durations_ok_exec(stats) {
            return false;
        }
        match self.find(stats.target_timestamp) {
            Some(i) => {
                let f = &self.history_buffer[i];
                if f.mtp_reported {
                    return true;
                }
                let game: u128 = since_exec(f.frame_present_mtp, f.tracking_received);
                let comp: u128 = since_exec(f.frame_composed_mtp, f.frame_present_mtp);
                let enc: u128 = since_exec(f.frame_encoded_mtp, f.frame_composed_mtp);
                game + comp + enc + stats.video_decode + stats.video_decoder_queue + stats.rendering
                    + stats.vsync_queue <= MAX_DURATION_NANOS
            },
            None => true,
        }
    }

    /// Whether `report_statistics` may be called with `stats`: the client
    /// durations are durations, and for a frame in the history the latencies
    /// the report adds up fit in a duration and its feedback count can grow.
    pub fn statistics_report_fits(&self, stats: &ClientStatistics) -> (b: bool)
        requires
            self.wf(),
        ensures
            b == (stats.durations_ok() && (has_frame(self@.history, stats.target_timestamp) ==> report_sum_fits(
                frame_of(self@.history, stats.target_timestamp),
                *stats,
            ) && frame_of(self@.history, stats.target_timestamp).feedback_index < i32::MAX)),
    {
        if !durations_ok_exec(stats) {
            return false;
        }
        match self.find(stats.target_timestamp) {
            Some(i) => {
                let f = &self.history_buffer[i];
                let game: u128 = since_exec(f.frame_present, f.tracking_received);
                let comp: u128 = since_exec(f.frame_composed, f.frame_present);
                let enc: u128 = since_exec(f.frame_encoded, f.frame_composed);
                let sum: u128 = game + comp + enc + stats.video_decode + stats.video_decoder_queue + stats.rendering
                    + stats.vsync_queue;
                let reported_game: u128 = if f.reported {
                    sat_sub_exec(game, f.last_repeat_game_latency)
                } else {
                    game
                };
                sum <= MAX_DURATION_NANOS && f.last_repeat_game_latency + reported_game <= MAX_DURATION_NANOS
                    && f.feedback_index < i32::MAX
            },
            None => true,
        }
    }
}

/// History after the tracking of frame `ts` was received at `now`.
pub open spec fn spec_track(v: StatsView, ts: u128, now: i128, send: i64) -> Seq<FrameView> {
    if has_frame(v.history, ts) {
        let i: int = frame_index(v.history, ts);
        v.history.update(
            i,
            FrameView { tracking_rece_times: (v.history[i].tracking_rece_times + 1) as i32, ..v.history[i] },
        )
    } else {
        let h = seq![fresh_frame(ts, now, send)] + v.history;
        if h.len() > v.max_history_size {
            h.drop_last()
        } else {
            h
        }
    }
}

/// Adding a frame with a new timestamp in front of a keyed history, and
/// possibly dropping the oldest, keeps it keyed.
proof fn lemma_track_new_unique(old_h: Seq<FrameView>, new_h: Seq<FrameView>, ts: u128)
    requires
        unique_timestamps(old_h),
        !has_frame(old_h, ts),
        new_h.len() >= 1,
        new_h[0].target_timestamp == ts,
        new_h.len() <= old_h.len() + 1,
        forall|i: int| 1 <= i < new_h.len() ==> new_h[i] == old_h[i - 1],
    ensures
        unique_timestamps(new_h),
{
    assert forall|i: int, j: int|
        0 <= i < new_h.len() && 0 <= j < new_h.len() && i != j implies #[trigger] new_h[i].target_timestamp
        != #[trigger] new_h[j].target_timestamp by {
        if i == 0 {
            assert(new_h[j] == old_h[j - 1]);
            assert(old_h[j - 1].target_timestamp != ts);
        } else if j == 0 {
            assert(new_h[i] == old_h[i - 1]);
            assert(old_h[i - 1].target_timestamp != ts);
        } else {
            assert(new_h[i] == old_h[i - 1]);
            assert(new_h[j] == old_h[j - 1]);
        }
    }
}

/// The frame with target timestamp `ts`.
pub open spec fn frame_of(h: Seq<FrameView>, ts: u128) -> FrameView {
    h[frame_index(h, ts)]
}

/// The history with the frame of target timestamp `ts` replaced by `f`.
pub open spec fn with_frame(h: Seq<FrameView>, ts: u128, f: FrameView) -> Seq<FrameView> {
    h.update(frame_index(h, ts), f)
}

/// State after frame `ts` was presented `offset` before `now` with `layers`.
pub open spec fn spec_present(v: StatsView, ts: u128, offset: u128, layers: i32, now: i128) -> StatsView {
    if has_frame(v.history, ts) {
        let f = frame_of(v.history, ts);
        let t: i128 = (now - offset) as i128;
        StatsView {
            history: with_frame(
                v.history,
                ts,
                FrameView {
                    frame_present_mtp: if f.frame_present_times == 0 {
                        t
                    } else {
                        f.frame_present_mtp
                    },
                    frame_present: t,
                    frame_present_times: (f.frame_present_times + 1) as i32,
                    layers_count: layers,
                    ..f
                },
            ),
            last_frame_present_interval: since(t, v.last_frame_present_instant),
            last_frame_present_instant: t,
            ..v
        }
    } else {
        v
    }
}

/// State after frame `ts` was composed `offset` before `now`.
pub open spec fn spec_composed(v: StatsView, ts: u128, offset: u128, now: i128) -> StatsView {
    if has_frame(v.history, ts) {
        let f = frame_of(v.history, ts);
        let t: i128 = (now - offset) as i128;
        StatsView {
            history: with_frame(
                v.history,
                ts,
                FrameView {
                    frame_composed_mtp: if f.composition_times == 0 {
                        t
                    } else {
                        f.frame_composed_mtp
                    },
                    frame_composed: t,
                    composition_times: (f.composition_times + 1) as i32,
                    ..f
                },
            ),
            ..v
        }
    } else {
        v
    }
}

/// State after frame `ts` was encoded at `now` into `bytes` bytes with
/// controller value `c_bits`.
pub open spec fn spec_encoded(v: StatsView, ts: u128, bytes: usize, c_bits: u32, now: i128) -> StatsView {
    let counted = StatsView {
        video_packets_total: (v.video_packets_total + 1) as usize,
        video_packets_partial_sum: (v.video_packets_partial_sum + 1) as usize,
        video_bytes_total: (v.video_bytes_total + bytes) as usize,
        video_bytes_partial_sum: (v.video_bytes_partial_sum + bytes) as usize,
        ..v
    };
    if has_frame(v.history, ts) {
        let f = frame_of(v.history, ts);
        let first = f.encode_times == 0;
        StatsView {
            history: with_frame(
                v.history,
                ts,
                FrameView {
                    frame_encoded_mtp: if first {
                        now
                    } else {
                        f.frame_encoded_mtp
                    },
                    video_packet_bytes_mtp: if first {
                        bytes
                    } else {
                        f.video_packet_bytes_mtp
                    },
                    frame_c_mtp_bits: if first {
                        c_bits
                    } else {
                        f.frame_c_mtp_bits
                    },
                    frame_encoded: now,
                    video_packet_bytes: bytes,
                    encode_times: (f.encode_times + 1) as i32,
                    frame_c_bits: c_bits,
                    ..f
                },
            ),
            ..counted
        }
    } else {
        counted
    }
}

/// Replacing a frame by one with the same target timestamp keeps the history
/// keyed.
proof fn lemma_update_keeps_unique(h: Seq<FrameView>, i: int, h2: Seq<FrameView>)
    requires
        unique_timestamps(h),
        0 <= i < h.len(),
        h2.len() == h.len(),
        h2[i].target_timestamp == h[i].target_timestamp,
        forall|j: int| 0 <= j < h.len() && j != i ==> h2[j] == h[j],
    ensures
        unique_timestamps(h2),
{
    assert forall|a: int, b: int|
        0 <= a < h2.len() && 0 <= b < h2.len() && a != b implies #[trigger] h2[a].target_timestamp
        != #[trigger] h2[b].target_timestamp by {
        assert(h2[a].target_timestamp == h[a].target_timestamp);
        assert(h2[b].target_timestamp == h[b].target_timestamp);
    }
}

/// `new_last` is where the last vsync instant `last` moves at `now` with frame
/// interval `interval`: a whole number of intervals later, with the following
/// vsync at or after `now`, and moved only as far as needed (it stays put, or
/// it is still before `now`).
pub open spec fn spec_vsync_step(last: i128, interval: u128, now: i128, new_last: i128) -> bool {
    &&& exists|k: int| k >= 0 && #[trigger] (k * interval) == new_last - last
    &&& new_last + interval >= now
    &&& (new_last == last || new_last < now)
}

/// Whether a motion-to-photon report of frame `ts` is still owed.
pub open spec fn mtp_pending(v: StatsView, ts: u128) -> bool {
    has_frame(v.history, ts) && !frame_of(v.history, ts).mtp_reported
}

/// The frame after its motion-to-photon report.
pub open spec fn mtp_frame(f: FrameView, stats: ClientStatistics) -> FrameView {
    FrameView { total_pipeline_latency_mtp: stats.total_pipeline_latency, mtp_reported: true, ..f }
}

/// State after the motion-to-photon report of frame `stats.target_timestamp`.
pub open spec fn spec_mtp(v: StatsView, stats: ClientStatistics) -> StatsView {
    let ts: u128 = stats.target_timestamp;
    if mtp_pending(v, ts) {
        StatsView { history: with_frame(v.history, ts, mtp_frame(frame_of(v.history, ts), stats)), ..v }
    } else {
        v
    }
}

/// Result of the motion-to-photon report of frame `stats.target_timestamp`.
pub open spec fn spec_mtp_result(v: StatsView, stats: ClientStatistics) -> Option<MtpReport> {
    let ts: u128 = stats.target_timestamp;
    if mtp_pending(v, ts) {
        let f = frame_of(v.history, ts);
        Some(MtpReport { latencies: mtp_latencies(f, stats), frame: info_of(mtp_frame(f, stats)) })
    } else {
        None
    }
}

/// A frame has its motion-to-photon statistics reported at most once: after
/// one report, any further report for the same frame returns nothing and
/// changes nothing.
pub proof fn lemma_mtp_reported_once(v: StatsView, s1: ClientStatistics, s2: ClientStatistics)
    requires
        v.wf(),
        s1.target_timestamp == s2.target_timestamp,
        spec_mtp_result(v, s1) is Some,
    ensures
        spec_mtp_result(spec_mtp(v, s1), s2) is None,
        spec_mtp(spec_mtp(v, s1), s2) == spec_mtp(v, s1),
{
    let ts: u128 = s1.target_timestamp;
    let i: int = frame_index(v.history, ts);
    let h2 = spec_mtp(v, s1).history;
    lemma_update_keeps_unique(v.history, i, h2);
    lemma_frame_index(h2, i, ts);
}

/// The network latency is what is left of the total latency after all other
/// stages: never more than the total, and exactly the difference when the
/// other stages do not exceed it.
pub proof fn lemma_network_latency_is_remainder(total: u128, game: u128, comp: u128, enc: u128, stats: ClientStatistics)
    requires
        game + comp + enc + stats.client_latency() <= u128::MAX,
    ensures
        network_latency(total, game, comp, enc, stats) <= total,
        game + comp + enc + stats.client_latency() <= total ==> network_latency(total, game, comp, enc, stats)
            + game + comp + enc + stats.client_latency() == total,
        game + comp + enc + stats.client_latency() >= total ==> network_latency(total, game, comp, enc, stats) == 0,
{
}

/// Reporting a frame twice, with nothing presented in between, counts its
/// game latency once: the second report sees no further game latency, and the
/// accumulated game latency is that of the first.
pub proof fn lemma_repeat_counts_game_once(f: FrameView, s1: ClientStatistics, s2: ClientStatistics)
    requires
        !f.reported,
        f.last_repeat_game_latency == 0,
        f.times_ok(),
    ensures
        reported_frame(f, s1).last_repeat_game_latency == raw_latencies(f, s1).game_time_latency,
        reported_latencies(reported_frame(f, s1), s2).game_time_latency == 0,
        reported_latencies(reported_frame(f, s1), s2).total_pipeline_latency == sat_sub(
            s2.total_pipeline_latency,
            raw_latencies(f, s1).game_time_latency,
        ),
{
}

/// Moving the last vsync instant is idempotent: once moved for `now`, moving
/// it again for the same `now` leaves it where it is.
pub proof fn lemma_vsync_step_idempotent(last: i128, interval: u128, now: i128, l2: i128, l3: i128)
    requires
        spec_vsync_step(last, interval, now, l2),
        spec_vsync_step(l2, interval, now, l3),
    ensures
        l3 == l2,
{
    let k = choose|k: int| k >= 0 && #[trigger] (k * interval) == l3 - l2;
    assert(k * interval == l3 - l2);
    if k == 0 {
        assert(k * interval == 0) by (nonlinear_arith)
            requires
                k == 0,
        ;
    } else if interval == 0 {
        assert(k * interval == 0) by (nonlinear_arith)
            requires
                interval == 0,
        ;
    } else {
        assert(k * interval >= interval) by (nonlinear_arith)
            requires
                k >= 1,
                interval > 0,
        ;
        assert(l3 >= l2 + interval);
        assert(l2 + interval >= now);
    }
}

/// In a keyed history, the frame found at position `i` is the frame of its
/// target timestamp.
pub proof fn lemma_frame_index(h: Seq<FrameView>, i: int, ts: u128)
    requires
        unique_timestamps(h),
        0 <= i < h.len(),
        h[i].target_timestamp == ts,
    ensures
        has_frame(h, ts),
        frame_index(h, ts) == i,
{
    assert(has_frame(h, ts));
    let k = frame_index(h, ts);
    if k != i {
        assert(h[k].target_timestamp != h[i].target_timestamp);
    }
}

/// Replacing the frame of timestamp `ts` by a frame with that timestamp keeps
/// the history keyed, and the frame of `ts` is then the new one.
pub proof fn lemma_with_frame(h: Seq<FrameView>, ts: u128, g: FrameView)
    requires
        unique_timestamps(h),
        has_frame(h, ts),
        g.target_timestamp == ts,
    ensures
        unique_timestamps(with_frame(h, ts, g)),
        has_frame(with_frame(h, ts, g), ts),
        frame_of(with_frame(h, ts, g), ts) == g,
        with_frame(h, ts, g).len() == h.len(),
        forall|k: int| 0 <= k < h.len() ==> (#[trigger] with_frame(h, ts, g)[k]).target_timestamp == h[k].target_timestamp,
{
    let i = frame_index(h, ts);
    let h2 = with_frame(h, ts, g);
    lemma_update_keeps_unique(h, i, h2);
    lemma_frame_index(h2, i, ts);
}

/// A frame keeps its timestamp, and stays in the history, through a
/// presentation, a composition or an encoding of any frame.
proof fn lemma_frames_kept(v: StatsView, ts: u128, other: u128)
    requires
        v.wf(),
        has_frame(v.history, other),
    ensures
        has_frame(v.history, ts) ==> forall|offset: u128, layers: i32, now: i128|
            has_frame(#[trigger] spec_present(v, other, offset, layers, now).history, ts),
        has_frame(v.history, ts) ==> forall|offset: u128, now: i128|
            has_frame(#[trigger] spec_composed(v, other, offset, now).history, ts),
        has_frame(v.history, ts) ==> forall|bytes: usize, c: u32, now: i128|
            has_frame(#[trigger] spec_encoded(v, other, bytes, c, now).history, ts),
{
    if has_frame(v.history, ts) {
        let k = frame_index(v.history, ts);
        assert forall|offset: u128, layers: i32, now: i128|
            has_frame(#[trigger] spec_present(v, other, offset, layers, now).history, ts) by {
            let h2 = spec_present(v, other, offset, layers, now).history;
            let f = frame_of(v.history, other);
            let t = (now - offset) as i128;
            lemma_with_frame(v.history, other, FrameView {
                frame_present_mtp: if f.frame_present_times == 0 { t } else { f.frame_present_mtp },
                frame_present: t,
                frame_present_times: (f.frame_present_times + 1) as i32,
                layers_count: layers,
                ..f
            });
            assert(h2[k].target_timestamp == ts);
        }
        assert forall|offset: u128, now: i128| has_frame(#[trigger] spec_composed(v, other, offset, now).history, ts) by {
            let h2 = spec_composed(v, other, offset, now).history;
            let f = frame_of(v.history, other);
            let t = (now - offset) as i128;
            lemma_with_frame(v.history, other, FrameView {
                frame_composed_mtp: if f.composition_times == 0 { t } else { f.frame_composed_mtp },
                frame_composed: t,
                composition_times: (f.composition_times + 1) as i32,
                ..f
            });
            assert(h2[k].target_timestamp == ts);
        }
        assert forall|bytes: usize, c: u32, now: i128| has_frame(#[trigger] spec_encoded(v, other, bytes, c, now).history, ts) by {
            let h2 = spec_encoded(v, other, bytes, c, now).history;
            let f = frame_of(v.history, other);
            let first = f.encode_times == 0;
            lemma_with_frame(v.history, other, FrameView {
                frame_encoded_mtp: if first { now } else { f.frame_encoded_mtp },
                video_packet_bytes_mtp: if first { bytes } else { f.video_packet_bytes_mtp },
                frame_c_mtp_bits: if first { c } else { f.frame_c_mtp_bits },
                frame_encoded: now,
                video_packet_bytes: bytes,
                encode_times: (f.encode_times + 1) as i32,
                frame_c_bits: c,
                ..f
            });
            assert(h2[k].target_timestamp == ts);
        }
    }
}

/// What encoding a frame of the history records, stated on the call's inputs:
/// the frame's latest encoding instant, size and controller value become
/// `now`, `bytes` and `c_bits`; the first encoding also becomes the frame's
/// motion-to-photon encoding, later ones leave that untouched; the packet and
/// byte counters grow by one packet and `bytes` bytes.
pub proof fn lemma_encoded_records(v: StatsView, ts: u128, bytes: usize, c_bits: u32, now: i128)
    requires
        v.wf(),
        has_frame(v.history, ts),
    ensures
        ({
            let v2 = spec_encoded(v, ts, bytes, c_bits, now);
            let f = frame_of(v.history, ts);
            let g = frame_of(v2.history, ts);
            &&& has_frame(v2.history, ts)
            &&& g.frame_c_bits == c_bits
            &&& g.video_packet_bytes == bytes
            &&& g.frame_encoded == now
            &&& f.encode_times < i32::MAX ==> g.encode_times == f.encode_times + 1
            &&& f.encode_times == 0 ==> g.frame_encoded_mtp == now && g.video_packet_bytes_mtp == bytes
                && g.frame_c_mtp_bits == c_bits
            &&& f.encode_times != 0 ==> g.frame_encoded_mtp == f.frame_encoded_mtp && g.video_packet_bytes_mtp
                == f.video_packet_bytes_mtp && g.frame_c_mtp_bits == f.frame_c_mtp_bits
            &&& g.frame_composed == f.frame_composed && g.frame_composed_mtp == f.frame_composed_mtp
            &&& g.frame_present == f.frame_present && g.frame_present_mtp == f.frame_present_mtp
            &&& g.tracking_received == f.tracking_received
            &&& v.video_packets_total < usize::MAX ==> v2.video_packets_total == v.video_packets_total + 1
            &&& v.video_bytes_total + bytes <= usize::MAX ==> v2.video_bytes_total == v.video_bytes_total + bytes
        }),
{
    let f = frame_of(v.history, ts);
    let first = f.encode_times == 0;
    lemma_with_frame(v.history, ts, FrameView {
        frame_encoded_mtp: if first { now } else { f.frame_encoded_mtp },
        video_packet_bytes_mtp: if first { bytes } else { f.video_packet_bytes_mtp },
        frame_c_mtp_bits: if first { c_bits } else { f.frame_c_mtp_bits },
        frame_encoded: now,
        video_packet_bytes: bytes,
        encode_times: (f.encode_times + 1) as i32,
        frame_c_bits: c_bits,
        ..f
    });
}

/// Every presentation of a frame of the history, first or repeated, moves the
/// last presentation instant to `now - offset` and measures the presentation
/// interval from the previous presentation of any frame; two presentations in
/// a row are therefore one interval apart.
pub proof fn lemma_present_interval(
    v: StatsView,
    a: u128,
    off1: u128,
    l1: i32,
    now1: i128,
    b: u128,
    off2: u128,
    l2: i32,
    now2: i128,
)
    requires
        v.wf(),
        has_frame(v.history, a),
        has_frame(v.history, b),
    ensures
        spec_present(v, a, off1, l1, now1).last_frame_present_instant == (now1 - off1) as i128,
        spec_present(v, a, off1, l1, now1).last_frame_present_interval == since(
            (now1 - off1) as i128,
            v.last_frame_present_instant,
        ),
        spec_present(spec_present(v, a, off1, l1, now1), b, off2, l2, now2).last_frame_present_instant == (now2
            - off2) as i128,
        spec_present(spec_present(v, a, off1, l1, now1), b, off2, l2, now2).last_frame_present_interval == since(
            (now2 - off2) as i128,
            (now1 - off1) as i128,
        ),
{
    lemma_frames_kept(v, b, a);
}

/// What presenting a frame again does to its motion-to-photon record: nothing;
/// only the first presentation is kept for motion-to-photon statistics.
pub proof fn lemma_repeated_pass_keeps_mtp(v: StatsView, ts: u128, offset: u128, layers: i32, bytes: usize, c_bits: u32, now: i128, stats: ClientStatistics)
    requires
        v.wf(),
        has_frame(v.history, ts),
    ensures
        frame_of(v.history, ts).frame_present_times != 0 ==> mtp_latencies(
            frame_of(spec_present(v, ts, offset, layers, now).history, ts),
            stats,
        ) == mtp_latencies(frame_of(v.history, ts), stats),
        frame_of(v.history, ts).composition_times != 0 ==> mtp_latencies(
            frame_of(spec_composed(v, ts, offset, now).history, ts),
            stats,
        ) == mtp_latencies(frame_of(v.history, ts), stats),
        frame_of(v.history, ts).encode_times != 0 ==> mtp_latencies(
            frame_of(spec_encoded(v, ts, bytes, c_bits, now).history, ts),
            stats,
        ) == mtp_latencies(frame_of(v.history, ts), stats),
{
    let f = frame_of(v.history, ts);
    let t = (now - offset) as i128;
    lemma_with_frame(v.history, ts, FrameView {
        frame_present_mtp: if f.frame_present_times == 0 { t } else { f.frame_present_mtp },
        frame_present: t,
        frame_present_times: (f.frame_present_times + 1) as i32,
        layers_count: layers,
        ..f
    });
    lemma_with_frame(v.history, ts, FrameView {
        frame_composed_mtp: if f.composition_times == 0 { t } else { f.frame_composed_mtp },
        frame_composed: t,
        composition_times: (f.composition_times + 1) as i32,
        ..f
    });
    lemma_encoded_records(v, ts, bytes, c_bits, now);
}

/// The motion-to-photon report measures the first pass of the frame: game
/// latency from tracking to first presentation, compositor latency from first
/// presentation to first composition, encoder latency from first composition
/// to first encoding; the network latency is the client's total minus these
/// and the client latencies.
pub proof fn lemma_mtp_first_pass(v: StatsView, t_tracking: i128, t_present: i128, t_composed: i128, t_encoded: i128, ts: u128, stats: ClientStatistics)
    requires
        v.wf(),
        has_frame(v.history, ts),
        ({
            let f = frame_of(v.history, ts);
            &&& f.tracking_received == t_tracking
            &&& f.frame_present_mtp == t_present
            &&& f.frame_composed_mtp == t_composed
            &&& f.frame_encoded_mtp == t_encoded
        }),
        t_tracking <= t_present <= t_composed <= t_encoded,
        (t_encoded - t_tracking) + stats.client_latency() <= stats.total_pipeline_latency,
        stats.target_timestamp == ts,
        !frame_of(v.history, ts).mtp_reported,
    ensures
        spec_mtp_result(v, stats) matches Some(r) && r.latencies.game_time_latency == t_present - t_tracking
            && r.latencies.server_compositor_latency == t_composed - t_present
            && r.latencies.encoder_latency == t_encoded - t_composed
            && r.latencies.network_latency == stats.total_pipeline_latency - (t_encoded - t_tracking)
            - stats.client_latency(),
{
}

/// The game latency accumulated on a frame grows by exactly the game latency
/// each statistics report gives, and the instants of the frame are not touched
/// by a report.
pub proof fn lemma_report_accumulates_game(f: FrameView, stats: ClientStatistics)
    requires
        f.times_ok(),
    ensures
        reported_frame(f, stats).last_repeat_game_latency == f.last_repeat_game_latency + reported_latencies(
            f,
            stats,
        ).game_time_latency,
        reported_frame(f, stats).reported,
        reported_frame(f, stats).tracking_received == f.tracking_received,
        reported_frame(f, stats).frame_present == f.frame_present,
        reported_frame(f, stats).frame_composed == f.frame_composed,
        reported_frame(f, stats).frame_encoded == f.frame_encoded,
{
}

/// `n` statistics reports of a frame in a row, with nothing in between.
pub open spec fn reported_n(f: FrameView, stats: ClientStatistics, n: nat) -> FrameView
    decreases n,
{
    if n == 0 {
        f
    } else {
        reported_frame(reported_n(f, stats, (n - 1) as nat), stats)
    }
}

/// Over any number of reports of a frame with nothing presented in between,
/// its game latency is counted once: the first report gives the game latency
/// from tracking to presentation, every later report gives none, and the
/// accumulated game latency stays that of the first report.
pub proof fn lemma_game_counted_once(f: FrameView, stats: ClientStatistics, n: nat)
    requires
        f.times_ok(),
        !f.reported,
        f.last_repeat_game_latency == 0,
        n >= 1,
    ensures
        reported_n(f, stats, n).last_repeat_game_latency == since(f.frame_present, f.tracking_received),
        reported_latencies(reported_n(f, stats, n), stats).game_time_latency == 0,
        reported_latencies(reported_n(f, stats, n), stats).total_pipeline_latency == sat_sub(
            stats.total_pipeline_latency,
            since(f.frame_present, f.tracking_received),
        ),
    decreases n,
{
    let g = since(f.frame_present, f.tracking_received);
    if n == 1 {
        assert(reported_n(f, stats, 0) == f);
    } else {
        lemma_game_counted_once(f, stats, (n - 1) as nat);
        let p = reported_n(f, stats, (n - 1) as nat);
        assert(p.frame_present == f.frame_present && p.tracking_received == f.tracking_received) by {
            lemma_report_keeps_instants(f, stats, (n - 1) as nat);
        }
    }
}

proof fn lemma_report_keeps_instants(f: FrameView, stats: ClientStatistics, n: nat)
    ensures
        reported_n(f, stats, n).frame_present == f.frame_present,
        reported_n(f, stats, n).tracking_received == f.tracking_received,
        reported_n(f, stats, n).frame_composed == f.frame_composed,
        reported_n(f, stats, n).frame_encoded == f.frame_encoded,
        n >= 1 ==> reported_n(f, stats, n).reported,
    decreases n,
{
    if n > 0 {
        lemma_report_keeps_instants(f, stats, (n - 1) as nat);
    }
}

/// State after the send timestamp of frame `ts` was recorded.
pub open spec fn spec_send_timestamp(v: StatsView, ts: u128, send_ts: i64) -> StatsView {
    if has_frame(v.history, ts) {
        StatsView {
            history: with_frame(v.history, ts, FrameView { frame_send_timestamp: send_ts, ..frame_of(v.history, ts) }),
            ..v
        }
    } else {
        v
    }
}

/// State after one more transmission of frame `ts` with send delta `delta`.
pub open spec fn spec_send_delta(v: StatsView, ts: u128, delta: i64) -> StatsView {
    if has_frame(v.history, ts) {
        let f = frame_of(v.history, ts);
        let n = (f.send_times + 1) as i32;
        StatsView {
            history: with_frame(
                v.history,
                ts,
                FrameView { frame_send_ts_delta: delta, send_times: n, send_delta_vec: f.send_delta_vec.push((n, delta)), ..f },
            ),
            ..v
        }
    } else {
        v
    }
}

/// What recording a send timestamp or a send delta does, stated on the inputs:
/// the send timestamp becomes `send_ts`; a send delta becomes the frame's
/// latest, the transmission count grows by one, and the delta is appended to
/// the frame's list numbered by the new count, so that the feedback answering
/// that transmission finds it. Nothing else of the frame, and no other frame
/// or counter, changes; a frame not in the history is left alone.
pub proof fn lemma_send_records(v: StatsView, ts: u128, send_ts: i64, delta: i64)
    requires
        v.wf(),
    ensures
        !has_frame(v.history, ts) ==> spec_send_timestamp(v, ts, send_ts) == v && spec_send_delta(v, ts, delta) == v,
        has_frame(v.history, ts) ==> ({
            let f = frame_of(v.history, ts);
            let g1 = frame_of(spec_send_timestamp(v, ts, send_ts).history, ts);
            let g2 = frame_of(spec_send_delta(v, ts, delta).history, ts);
            &&& g1.frame_send_timestamp == send_ts
            &&& g1.frame_send_ts_delta == f.frame_send_ts_delta
            &&& g1.send_delta_vec == f.send_delta_vec
            &&& g2.frame_send_ts_delta == delta
            &&& f.send_times < i32::MAX ==> g2.send_times == f.send_times + 1
            &&& g2.send_delta_vec.len() == f.send_delta_vec.len() + 1
            &&& g2.send_delta_vec.last() == (g2.send_times, delta)
            &&& g2.send_delta_vec.drop_last() == f.send_delta_vec
            &&& g2.frame_send_timestamp == f.frame_send_timestamp
            &&& spec_send_delta(v, ts, delta).video_bytes_total == v.video_bytes_total
            &&& spec_send_delta(v, ts, delta).history.len() == v.history.len()
        }),
{
    if has_frame(v.history, ts) {
        let f = frame_of(v.history, ts);
        lemma_with_frame(v.history, ts, FrameView { frame_send_timestamp: send_ts, ..f });
        let n = (f.send_times + 1) as i32;
        lemma_with_frame(
            v.history,
            ts,
            FrameView { frame_send_ts_delta: delta, send_times: n, send_delta_vec: f.send_delta_vec.push((n, delta)), ..f },
        );
        assert(f.send_delta_vec.push((n, delta)).drop_last() =~= f.send_delta_vec);
    }
}

/// What receiving the tracking of a frame does, stated on the inputs: a frame
/// not seen before enters at the front of the history, tracked at `now`, with
/// every stage instant at `now`, no pass counted, nothing reported, the send
/// timestamp `send` and controller value 188; the rest of the history follows
/// in order, and the oldest frame leaves only when the history was full. A
/// frame already there only counts one more reception.
pub proof fn lemma_track_records(v: StatsView, ts: u128, now: i128, send: i64)
    requires
        v.wf(),
    ensures
        !has_frame(v.history, ts) ==> ({
            let h = spec_track(v, ts, now, send);
            &&& v.max_history_size >= 1 ==> h[0] == fresh_frame(ts, now, send)
            &&& h[0].tracking_received == now || v.max_history_size == 0
            &&& h[0].frame_present_times == 0 || v.max_history_size == 0
            &&& h[0].frame_c_bits == DEFAULT_FRAME_C_BITS || v.max_history_size == 0
            &&& h.len() == (if v.history.len() < v.max_history_size {
                (v.history.len() + 1) as int
            } else {
                v.max_history_size as int
            })
            &&& forall|k: int| 1 <= k < h.len() ==> h[k] == v.history[k - 1]
        }),
        has_frame(v.history, ts) ==> ({
            let h = spec_track(v, ts, now, send);
            let f = frame_of(v.history, ts);
            let g = frame_of(h, ts);
            &&& h.len() == v.history.len()
            &&& has_frame(h, ts)
            &&& f.tracking_rece_times < i32::MAX ==> g.tracking_rece_times == f.tracking_rece_times + 1
            &&& g.tracking_received == f.tracking_received
            &&& g.frame_send_timestamp == f.frame_send_timestamp
            &&& g.frame_present == f.frame_present
        }),
{
    if has_frame(v.history, ts) {
        let f = frame_of(v.history, ts);
        lemma_with_frame(v.history, ts, FrameView { tracking_rece_times: (f.tracking_rece_times + 1) as i32, ..f });
    }
}

/// What presenting or composing a frame records, stated on the inputs: the
/// frame's latest presentation (composition) instant becomes `now - offset`
/// and its pass count grows by one; only the first pass also becomes the
/// motion-to-photon instant; presenting records the number of layers. The
/// other stage instants of the frame do not change.
pub proof fn lemma_pass_records(v: StatsView, ts: u128, offset: u128, layers: i32, now: i128)
    requires
        v.wf(),
        has_frame(v.history, ts),
    ensures
        ({
            let f = frame_of(v.history, ts);
            let t = (now - offset) as i128;
            let p = frame_of(spec_present(v, ts, offset, layers, now).history, ts);
            let c = frame_of(spec_composed(v, ts, offset, now).history, ts);
            &&& p.frame_present == t
            &&& p.layers_count == layers
            &&& f.frame_present_times < i32::MAX ==> p.frame_present_times == f.frame_present_times + 1
            &&& p.frame_present_mtp == (if f.frame_present_times == 0 { t } else { f.frame_present_mtp })
            &&& p.tracking_received == f.tracking_received && p.frame_composed == f.frame_composed
                && p.frame_encoded == f.frame_encoded && p.frame_composed_mtp == f.frame_composed_mtp
            &&& c.frame_composed == t
            &&& f.composition_times < i32::MAX ==> c.composition_times == f.composition_times + 1
            &&& c.frame_composed_mtp == (if f.composition_times == 0 { t } else { f.frame_composed_mtp })
            &&& c.tracking_received == f.tracking_received && c.frame_present == f.frame_present
                && c.frame_encoded == f.frame_encoded && c.frame_present_mtp == f.frame_present_mtp
            &&& spec_composed(v, ts, offset, now).last_frame_present_instant == v.last_frame_present_instant
        }),
{
    let f = frame_of(v.history, ts);
    let t = (now - offset) as i128;
    lemma_with_frame(v.history, ts, FrameView {
        frame_present_mtp: if f.frame_present_times == 0 { t } else { f.frame_present_mtp },
        frame_present: t,
        frame_present_times: (f.frame_present_times + 1) as i32,
        layers_count: layers,
        ..f
    });
    lemma_with_frame(v.history, ts, FrameView {
        frame_composed_mtp: if f.composition_times == 0 { t } else { f.frame_composed_mtp },
        frame_composed: t,
        composition_times: (f.composition_times + 1) as i32,
        ..f
    });
}

/// The first statistics report of a frame measures its latest pass: game
/// latency from tracking to presentation, compositor latency from presentation
/// to composition, encoder latency from composition to encoding, and the
/// network latency is the client's total minus these and the client
/// latencies; the total is the client's.
pub proof fn lemma_report_breakdown(f: FrameView, stats: ClientStatistics)
    requires
        !f.reported,
        f.tracking_received <= f.frame_present <= f.frame_composed <= f.frame_encoded,
        (f.frame_encoded - f.tracking_received) + stats.client_latency() <= stats.total_pipeline_latency,
    ensures
        reported_latencies(f, stats).game_time_latency == f.frame_present - f.tracking_received,
        reported_latencies(f, stats).server_compositor_latency == f.frame_composed - f.frame_present,
        reported_latencies(f, stats).encoder_latency == f.frame_encoded - f.frame_composed,
        reported_latencies(f, stats).network_latency == stats.total_pipeline_latency - (f.frame_encoded
            - f.tracking_received) - stats.client_latency(),
        reported_latencies(f, stats).total_pipeline_latency == stats.total_pipeline_latency,
        reported_frame(f, stats).total_pipeline_latency == stats.total_pipeline_latency,
{
}

/// The delta picked for a feedback is that of the first entry numbered like
/// the feedback, and the default when no entry is.
pub proof fn lemma_delta_at(v: Seq<(i32, i64)>, index: i32, default: i64)
    ensures
        forall|k: int|
            0 <= k < v.len() && v[k].0 == index && (forall|j: int| 0 <= j < k ==> v[j].0 != index)
                ==> delta_at(v, index, default) == #[trigger] v[k].1,
        (forall|k: int| 0 <= k < v.len() ==> v[k].0 != index) ==> delta_at(v, index, default) == default,
    decreases v.len(),
{
    if v.len() > 0 {
        let r = v.drop_first();
        lemma_delta_at(r, index, default);
        assert forall|k: int|
            0 <= k < v.len() && v[k].0 == index && (forall|j: int| 0 <= j < k ==> v[j].0 != index)
                implies delta_at(v, index, default) == #[trigger] v[k].1 by {
            if k > 0 {
                assert(v[0].0 != index);
                assert(r[k - 1] == v[k]);
                assert forall|j: int| 0 <= j < k - 1 implies r[j].0 != index by {
                    assert(r[j] == v[j + 1]);
                }
            }
        }
        if forall|k: int| 0 <= k < v.len() ==> v[k].0 != index {
            assert(v[0].0 != index);
            assert forall|k: int| 0 <= k < r.len() implies r[k].0 != index by {
                assert(r[k] == v[k + 1]);
            }
        }
    }
}

/// The periodic summary, stated on the inputs: when more than one interval has
/// passed since the last summary instant, the report returns the counters as
/// they were, resets the partial sums, keeps the totals and moves the summary
/// instant by exactly one interval; otherwise no summary is returned and no
/// counter or summary instant changes. A report counts one more feedback.
pub proof fn lemma_report_summary(v: StatsView, stats: ClientStatistics, now: i128)
    requires
        v.wf(),
        has_frame(v.history, stats.target_timestamp),
        frame_of(v.history, stats.target_timestamp).feedback_index < i32::MAX,
    ensures
        ({
            let v2 = spec_report(v, stats, now);
            let r = spec_report_result(v, stats, now).unwrap();
            &&& spec_report_result(v, stats, now) is Some
            &&& r.frame.feedback_index == frame_of(v.history, stats.target_timestamp).feedback_index + 1
            &&& v2.video_packets_total == v.video_packets_total
            &&& v2.video_bytes_total == v.video_bytes_total
            &&& v2.packets_lost_total == v.packets_lost_total
            &&& if v.last_full_report_instant + FULL_REPORT_INTERVAL_NANOS < now {
                &&& r.summary == Some(counters_of(v))
                &&& v2.video_packets_partial_sum == 0
                &&& v2.video_bytes_partial_sum == 0
                &&& v2.packets_lost_partial_sum == 0
                &&& v2.last_full_report_instant == v.last_full_report_instant + FULL_REPORT_INTERVAL_NANOS
            } else {
                &&& r.summary is None
                &&& v2.video_packets_partial_sum == v.video_packets_partial_sum
                &&& v2.video_bytes_partial_sum == v.video_bytes_partial_sum
                &&& v2.packets_lost_partial_sum == v.packets_lost_partial_sum
                &&& v2.last_full_report_instant == v.last_full_report_instant
            }
        }),
{
}

/// The motion-to-photon report marks the frame reported, records the client's
/// total latency, and changes nothing else.
pub proof fn lemma_mtp_marks(v: StatsView, stats: ClientStatistics)
    requires
        v.wf(),
        mtp_pending(v, stats.target_timestamp),
    ensures
        ({
            let ts = stats.target_timestamp;
            let f = frame_of(v.history, ts);
            let g = frame_of(spec_mtp(v, stats).history, ts);
            &&& g.mtp_reported
            &&& g.total_pipeline_latency_mtp == stats.total_pipeline_latency
            &&& g.frame_present_mtp == f.frame_present_mtp && g.frame_composed_mtp == f.frame_composed_mtp
                && g.frame_encoded_mtp == f.frame_encoded_mtp && g.tracking_received == f.tracking_received
            &&& g.total_pipeline_latency == f.total_pipeline_latency && g.reported == f.reported
            &&& spec_mtp(v, stats).history.len() == v.history.len()
            &&& spec_mtp(v, stats).video_bytes_total == v.video_bytes_total
        }),
{
    lemma_with_frame(v.history, stats.target_timestamp, mtp_frame(frame_of(v.history, stats.target_timestamp), stats));
}

/// The `k`-th statistics report of a frame answers its `k`-th transmission:
/// the send delta and arrival delta it picks are those numbered by the new
/// feedback count, falling back to the latest delta when there is none.
pub proof fn lemma_report_answers_transmission(v: StatsView, stats: ClientStatistics, now: i128, k: int)
    requires
        v.wf(),
        has_frame(v.history, stats.target_timestamp),
        frame_of(v.history, stats.target_timestamp).feedback_index < i32::MAX,
    ensures
        ({
            let f = frame_of(v.history, stats.target_timestamp);
            let n = f.feedback_index + 1;
            let r = spec_report_result(v, stats, now).unwrap();
            &&& 0 <= k < f.send_delta_vec.len() && f.send_delta_vec[k].0 == n && (forall|j: int|
                0 <= j < k ==> f.send_delta_vec[j].0 != n) ==> r.send_delta == f.send_delta_vec[k].1
            &&& (forall|j: int| 0 <= j < f.send_delta_vec.len() ==> f.send_delta_vec[j].0 != n) ==> r.send_delta
                == f.frame_send_ts_delta
            &&& 0 <= k < stats.arrival_delta_vec@.len() && stats.arrival_delta_vec@[k].0 == n && (forall|j: int|
                0 <= j < k ==> stats.arrival_delta_vec@[j].0 != n) ==> r.arrival_delta
                == stats.arrival_delta_vec@[k].1
            &&& (forall|j: int| 0 <= j < stats.arrival_delta_vec@.len() ==> stats.arrival_delta_vec@[j].0 != n)
                ==> r.arrival_delta == stats.arrival_ts_delta
        }),
{
    let f = frame_of(v.history, stats.target_timestamp);
    let n = (f.feedback_index + 1) as i32;
    lemma_delta_at(f.send_delta_vec, n, f.frame_send_ts_delta);
    lemma_delta_at(stats.arrival_delta_vec@, n, stats.arrival_ts_delta);
}

} // verus!
