//! A bounded first-in first-out window of the most recent samples.

use std::collections::VecDeque;
use vstd::prelude::*;

verus! {

broadcast use vstd::std_specs::vecdeque::group_vec_dequeue_axioms;

/// What pushing `x` does to a window holding `s` with room for `cap` samples:
/// nothing when there is no room at all, otherwise the oldest sample leaves
/// when the window is full and `x` enters at the back.
pub open spec fn spec_push<T>(s: Seq<T>, cap: nat, x: T) -> Seq<T> {
    if cap == 0 {
        s
    } else if s.len() >= cap {
        s.drop_first().push(x)
    } else {
        s.push(x)
    }
}

/// The most recent `cap` samples of `s` (all of them when there are fewer).
pub open spec fn newest<T>(s: Seq<T>, cap: nat) -> Seq<T> {
    if s.len() <= cap {
        s
    } else {
        s.subrange(s.len() - cap, s.len() as int)
    }
}

/// The window obtained by pushing every sample of `xs`, in order.
pub open spec fn push_all<T>(s: Seq<T>, cap: nat, xs: Seq<T>) -> Seq<T>
    decreases xs.len(),
{
    if xs.len() == 0 {
        s
    } else {
        push_all(spec_push(s, cap, xs[0]), cap, xs.drop_first())
    }
}

/// Sliding window over the last `max_len` samples, oldest first.
pub struct SlidingWindow<T> {
    samples: VecDeque<T>,
    max_len: usize,
}

impl<T> View for SlidingWindow<T> {
    type V = Seq<T>;

    closed spec fn view(&self) -> Seq<T> {
        self.samples@
    }
}

impl<T> SlidingWindow<T> {
    #[verifier::type_invariant]
    closed spec fn inv(self) -> bool {
        self.samples@.len() <= self.max_len
    }

    /// Number of samples the window keeps at most.
    pub closed spec fn capacity(&self) -> nat {
        self.max_len as nat
    }

    /// An empty window with room for `max_len` samples.
    pub fn new(max_len: usize) -> (w: Self)
        ensures
            w@ == Seq::<T>::empty(),
            w.capacity() == max_len,
    {
        SlidingWindow { samples: VecDeque::with_capacity(max_len), max_len }
    }

    /// Appends `x`; the oldest sample leaves first when the window is full.
    /// A window without room keeps nothing.
    pub fn push(&mut self, x: T)
        ensures
            final(self)@ == spec_push(old(self)@, old(self).capacity(), x),
            final(self).capacity() == old(self).capacity(),
            final(self)@.len() <= final(self).capacity(),
    {
        proof {
            use_type_invariant(&*self);
        }
        if self.max_len == 0 {
            return;
        }
        let mut samples = VecDeque::new();
        std::mem::swap(&mut samples, &mut self.samples);
        if samples.len() >= self.max_len {
            samples.pop_front();
        }
        samples.push_back(x);
        self.samples = samples;
    }

    /// Number of samples held.
    pub fn len(&self) -> (n: usize)
        ensures
            n == self@.len(),
            n <= self.capacity(),
    {
        proof {
            use_type_invariant(self);
        }
        self.samples.len()
    }

    /// Whether the window holds no sample.
    pub fn is_empty(&self) -> (b: bool)
        ensures
            b == (self@.len() == 0),
    {
        self.samples.len() == 0
    }

    /// Maximum number of samples held.
    pub fn max_len(&self) -> (m: usize)
        ensures
            m == self.capacity(),
    {
        self.max_len
    }

    /// The samples, oldest first.
    pub fn samples(&self) -> (s: &VecDeque<T>)
        ensures
            s@ == self@,
    {
        &self.samples
    }
}

/// One push keeps the newest `cap` samples of the window followed by `x`.
pub proof fn lemma_push_keeps_newest<T>(s: Seq<T>, cap: nat, x: T)
    requires
        s.len() <= cap,
        cap > 0,
    ensures
        spec_push(s, cap, x) == newest(s.push(x), cap),
{
    if s.len() >= cap {
        assert(s.drop_first().push(x) =~= s.push(x).subrange(s.push(x).len() - cap, s.push(x).len() as int));
    }
}

/// Whatever was pushed, a window with room for `cap > 0` samples holds exactly
/// the `cap` most recent samples of everything it has seen, in arrival order.
pub proof fn lemma_window_holds_newest<T>(s: Seq<T>, cap: nat, xs: Seq<T>)
    requires
        s.len() <= cap,
        cap > 0,
    ensures
        push_all(s, cap, xs) == newest(s + xs, cap),
    decreases xs.len(),
{
    if xs.len() == 0 {
        assert(s + xs =~= s);
    } else {
        let s1 = spec_push(s, cap, xs[0]);
        lemma_push_keeps_newest(s, cap, xs[0]);
        lemma_window_holds_newest(s1, cap, xs.drop_first());
        // newest(newest(s.push(x), cap) + rest, cap) == newest(s + xs, cap)
        let t = s.push(xs[0]);
        assert(s + xs =~= t + xs.drop_first());
        let u = newest(t, cap);
        let r = xs.drop_first();
        let full = t + r;
        if full.len() <= cap {
            assert(u =~= t);
        } else if t.len() <= cap {
            assert(u =~= t);
        } else {
            assert(u + r =~= full.subrange(t.len() - cap, full.len() as int));
            let v = u + r;
            if v.len() > cap {
                assert(v.subrange(v.len() - cap, v.len() as int) =~= full.subrange(full.len() - cap, full.len() as int));
            } else {
                assert(v.len() == cap + r.len());
                assert(r.len() == 0);
                assert(v =~= full.subrange(full.len() - cap, full.len() as int));
            }
        }
    }
}

/// A window without room never holds anything.
pub proof fn lemma_zero_capacity_stays_empty<T>(xs: Seq<T>)
    ensures
        push_all(Seq::<T>::empty(), 0, xs) == Seq::<T>::empty(),
    decreases xs.len(),
{
    if xs.len() > 0 {
        lemma_zero_capacity_stays_empty(xs.drop_first());
    }
}

} // verus!
