//! Frames per second, counted over the last second.
use std::collections::VecDeque;
use std::time::Instant;
use vstd::prelude::*;

verus! {

/// Relies on std::time::Duration::as_nanos: the whole number of nanoseconds in the duration.
pub assume_specification[ std::time::Duration::as_nanos ](self_: &std::time::Duration) -> u128;

/// How long a sample is kept, in nanoseconds.
pub const WINDOW_NANOS: u128 = 1_000_000_000;

/// Counts the calls of the last second.
pub struct FpsCounter {
    samples: VecDeque<Instant>,
}

impl FpsCounter {
    /// The moments of the calls still counted, oldest first.
    pub closed spec fn samples(&self) -> Seq<Instant> {
        self.samples@
    }

    /// A counter that has seen no call yet.
    pub fn new() -> (r: Self)
        ensures
            r.samples() == Seq::<Instant>::empty(),
    {
        FpsCounter { samples: VecDeque::with_capacity(256) }
    }

    /// Records a call now, forgets the calls more than a second old, and says how many calls
    /// are left, this one included.
    pub fn get(&mut self) -> (r: usize)
        ensures
            r == final(self).samples().len(),
            r >= 1,
            exists|k: int|
                0 <= k <= old(self).samples().len() && final(self).samples().drop_last()
                    == #[trigger] old(self).samples().subrange(k, old(self).samples().len() as int),
    {
        let now = Instant::now();
        let ghost n = self.samples@.len() as int;
        let ghost mut k: int = 0;
        while self.samples.len() > 0 && now.duration_since(self.samples[0]).as_nanos()
            > WINDOW_NANOS
            invariant
                0 <= k <= n,
                n == old(self).samples@.len(),
                self.samples@ == old(self).samples@.subrange(k, n),
            decreases self.samples@.len(),
        {
            self.samples.pop_front();
            proof {
                k = k + 1;
            }
        }
        self.samples.push_back(now);
        proof {
            assert(self.samples@.drop_last() =~= old(self).samples@.subrange(k, n));
            assert(self.samples().drop_last() == old(self).samples().subrange(k, n));
        }
        self.samples.len()
    }
}

} // verus!
