//! Named moments in time, and how long each stretch between them took.
use std::time::{Duration, Instant};
use vstd::prelude::*;

verus! {

#[verifier::external_type_specification]
#[verifier::external_body]
pub struct ExInstant(std::time::Instant);

/// Relies on std::time::Instant::now: the current reading of a monotonic clock; nothing is
/// promised of its value.
pub assume_specification[ std::time::Instant::now ]() -> std::time::Instant;

/// Relies on std::time::Instant::duration_since: the time from `earlier` to `self`, zero when
/// `earlier` is the later one (it saturates rather than panics).
pub assume_specification[ std::time::Instant::duration_since ](
    self_: &std::time::Instant,
    earlier: std::time::Instant,
) -> std::time::Duration;

/// Records labelled moments.
pub struct Timer {
    moments: Vec<(Instant, &'static str)>,
}

impl Timer {
    /// The labels of the recorded moments, oldest first.
    pub closed spec fn labels(&self) -> Seq<&'static str> {
        self.moments@.map_values(|m: (Instant, &'static str)| m.1)
    }

    /// A timer with no moments yet.
    pub fn new() -> (t: Timer)
        ensures
            t.labels() == Seq::<&'static str>::empty(),
    {
        let t = Timer { moments: Vec::new() };
        proof {
            assert(t.labels() =~= Seq::<&'static str>::empty());
        }
        t
    }

    /// Records the present moment under `s`.
    pub fn add(&mut self, s: &'static str)
        ensures
            final(self).labels() == old(self).labels().push(s),
    {
        self.moments.push((Instant::now(), s));
        proof {
            assert(self.labels() =~= old(self).labels().push(s));
        }
    }

    /// For each moment after the first, the time since the one before it, with its label.
    pub fn laps(&self) -> (r: Vec<(Duration, &'static str)>)
        ensures
            r@.len() == if self.labels().len() == 0 {
                0
            } else {
                self.labels().len() - 1
            },
            forall|i: int| 0 <= i < r@.len() ==> #[trigger] r@[i].1 == self.labels()[i + 1],
    {
        let mut r: Vec<(Duration, &'static str)> = Vec::new();
        let mut i: usize = 1;
        assert(self.labels().len() == self.moments@.len());
        while i < self.moments.len()
            invariant
                self.labels().len() == self.moments@.len(),
                1 <= i,
                i <= self.moments@.len() || (self.moments@.len() == 0 && i == 1),
                r@.len() == i - 1,
                forall|k: int| 0 <= k < r@.len() ==> #[trigger] r@[k].1 == self.labels()[k + 1],
            decreases self.moments@.len() - i,
        {
            let (m, s) = self.moments[i];
            let dur = m.duration_since(self.moments[i - 1].0);
            r.push((dur, s));
            i = i + 1;
        }
        r
    }
}

} // verus!
