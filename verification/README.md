# eyenexus

Verified core of the EyeNexus gaze-contingent rate control in the ALVR
streaming server, written in Verus.

- `src/window.rs`: bounded FIFO window of recent samples, with the law that it
  always holds the most recent samples in arrival order.
- `src/gaze.rs`: the gaze history (a window of gaze points).
- `src/congestion_controller.rs`: bandwidth-usage states, the integer state of
  the delay-trend detector (delta counting, threshold clock, regression
  window, over-use counter and hypothesis) and the AIMD action of the
  foveation controller, with laws on both state machines.
- `src/statistics.rs`: per-frame latency bookkeeping of the statistics
  manager (frame history, stage latencies, repeated and motion-to-photon
  reports, summary counters, vsync timing).
- `src/clock.rs`: the clocks the statistics manager reads.

Floating-point computations (gaze variance, delay filtering and regression,
the adaptive threshold, the link capacity estimate, the update of the
foveation controller `C` and the effective spread) and the I/O (dashboard
events, CSV logs) are in `app/`, which calls the library for every discrete
decision.
