//! Verified core of the EyeNexus gaze-contingent rate control used by the
//! ALVR streaming server: the sliding windows that hold recent gaze samples and
//! packet delays, the discrete decisions of the delay-trend congestion detector
//! and of the AIMD foveation controller, and the per-frame latency bookkeeping
//! of the statistics manager.

pub mod window;
pub mod gaze;
pub mod congestion_controller;
pub mod clock;
pub mod statistics;
