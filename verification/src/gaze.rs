//! Gaze history for gaze-contingent rate control: a sliding window of recent
//! gaze points in screen space. The statistics over the window (variance,
//! standard deviation) are computed by the caller on the samples it returns.

use crate::window::{SlidingWindow, spec_push};
use std::collections::VecDeque;
use vstd::prelude::*;

verus! {

/// Default number of gaze samples to keep (about 1 to 2 s at 72 to 90 Hz).
pub const DEFAULT_GAZE_HISTORY_SIZE: usize = 90;

/// Sliding window of gaze points `(x, y)`, oldest first.
pub struct GazeHistory<T> {
    samples: SlidingWindow<(T, T)>,
}

impl<T> View for GazeHistory<T> {
    type V = Seq<(T, T)>;

    closed spec fn view(&self) -> Seq<(T, T)> {
        self.samples@
    }
}

impl<T> GazeHistory<T> {
    /// Number of gaze points kept at most.
    pub closed spec fn max_len(&self) -> nat {
        self.samples.capacity()
    }

    /// A new, empty gaze history that keeps at most `max_len` points.
    pub fn new(max_len: usize) -> (h: Self)
        ensures
            h@ == Seq::<(T, T)>::empty(),
            h.max_len() == max_len,
    {
        GazeHistory { samples: SlidingWindow::new(max_len) }
    }

    /// Pushes a gaze point; the oldest point is dropped when the history is
    /// full. A history that keeps no point ignores the push.
    pub fn push(&mut self, x: T, y: T)
        ensures
            final(self)@ == spec_push(old(self)@, old(self).max_len(), (x, y)),
            final(self).max_len() == old(self).max_len(),
            final(self)@.len() <= final(self).max_len(),
    {
        self.samples.push((x, y));
    }

    /// Number of points currently in the window.
    pub fn len(&self) -> (n: usize)
        ensures
            n == self@.len(),
            n <= self.max_len(),
    {
        self.samples.len()
    }

    /// Whether the window holds no point.
    pub fn is_empty(&self) -> (b: bool)
        ensures
            b == (self@.len() == 0),
    {
        self.samples.is_empty()
    }

    /// The points in the window, oldest first.
    pub fn samples(&self) -> (s: &VecDeque<(T, T)>)
        ensures
            s@ == self@,
    {
        self.samples.samples()
    }
}

} // verus!
