//! Sliding-window load estimator.
//!
//! A bounded queue of single-bit activity samples plus a running count of
//! the active ones, so that the percent-busy figure costs O(1) per sample.

use std::collections::VecDeque;
use vstd::prelude::*;

verus! {

/// Number of `true` samples in a window.
pub open spec fn count_true(s: Seq<bool>) -> nat
    decreases s.len(),
{
    if s.len() == 0 {
        0
    } else {
        count_true(s.drop_last()) + if s.last() {
            1nat
        } else {
            0nat
        }
    }
}

/// Busy share of a window, in hundredths of a percent; 0 for an empty window.
pub open spec fn spec_load_percent(s: Seq<bool>) -> int {
    if s.len() == 0 {
        0
    } else {
        count_true(s) as int * 10000 / s.len() as int
    }
}

/// Dropping the oldest sample lowers the count by exactly that sample.
pub proof fn lemma_count_true_drop_first(s: Seq<bool>)
    requires
        s.len() > 0,
    ensures
        count_true(s) == count_true(s.drop_first()) + if s[0] {
            1nat
        } else {
            0nat
        },
    decreases s.len(),
{
    if s.len() == 1 {
        assert(s.drop_first() =~= Seq::<bool>::empty());
        assert(s.drop_last() =~= Seq::<bool>::empty());
        assert(s.last() == s[0]);
    } else {
        lemma_count_true_drop_first(s.drop_last());
        assert(s.drop_last()[0] == s[0]);
        assert(s.drop_last().drop_first() =~= s.drop_first().drop_last());
        assert(s.drop_first().last() == s.last());
    }
}

/// Appending a sample raises the count by exactly that sample.
pub proof fn lemma_count_true_push(s: Seq<bool>, b: bool)
    ensures
        count_true(s.push(b)) == count_true(s) + if b {
            1nat
        } else {
            0nat
        },
{
    assert(s.push(b).drop_last() =~= s);
    assert(s.push(b).last() == b);
}

/// The count never exceeds the window length.
pub proof fn lemma_count_true_le_len(s: Seq<bool>)
    ensures
        count_true(s) <= s.len(),
    decreases s.len(),
{
    if s.len() > 0 {
        lemma_count_true_le_len(s.drop_last());
    }
}

/// Sliding window of activity bits with an O(1) busy counter.
pub struct GpuLoadMonitor {
    samples: VecDeque<bool>,
    capacity: usize,
    active_count: usize,
}

impl GpuLoadMonitor {
    /// The recorded samples, oldest first.
    pub closed spec fn samples(&self) -> Seq<bool> {
        self.samples@
    }

    /// The fixed capacity the window was created with.
    pub closed spec fn capacity(&self) -> usize {
        self.capacity
    }

    /// The window never outgrows its capacity and the counter always
    /// equals the number of active samples held.
    pub closed spec fn wf(&self) -> bool {
        &&& self.samples@.len() <= self.capacity
        &&& self.capacity >= 1
        &&& self.active_count == count_true(self.samples@)
    }

    /// An empty window of the given capacity.
    pub fn new(capacity: usize) -> (r: Self)
        requires
            capacity >= 1,
        ensures
            r.wf(),
            r.samples() == Seq::<bool>::empty(),
            r.capacity() == capacity,
    {
        Self { samples: VecDeque::with_capacity(capacity), capacity, active_count: 0 }
    }

    /// Append one activity bit, evicting the oldest sample when full. The
    /// window never outgrows its capacity, and the busy counter keeps
    /// counting exactly the active samples held.
    pub fn add_sample(&mut self, is_active: bool)
        requires
            old(self).wf(),
        ensures
            final(self).wf(),
            final(self).capacity() == old(self).capacity(),
            final(self).samples().len() <= final(self).capacity(),
            final(self).samples() == if old(self).samples().len() < old(self).capacity() {
                old(self).samples().push(is_active)
            } else {
                old(self).samples().drop_first().push(is_active)
            },
    {
        if self.samples.len() >= self.capacity {
            let evicted = self.samples.pop_front();
            proof {
                lemma_count_true_drop_first(old(self).samples@);
                assert(self.samples@ =~= old(self).samples@.drop_first());
            }
            if let Some(old_sample) = evicted {
                if old_sample {
                    self.active_count = self.active_count - 1;
                }
            }
        }
        let ghost mid = self.samples@;
        proof {
            lemma_count_true_le_len(mid);
            lemma_count_true_push(mid, is_active);
        }
        self.samples.push_back(is_active);
        if is_active {
            self.active_count = self.active_count + 1;
        }
    }

    /// Busy share of the current window, in hundredths of a percent.
    pub fn load_percent(&self) -> (r: u32)
        requires
            self.wf(),
        ensures
            r == spec_load_percent(self.samples()),
            r <= 10000,
    {
        if self.samples.len() == 0 {
            return 0;
        }
        proof {
            lemma_count_true_le_len(self.samples@);
        }
        let len = self.samples.len();
        let num = (self.active_count as u128) * 10000;
        let quot = num / (len as u128);
        proof {
            assert(quot <= 10000) by (nonlinear_arith)
                requires
                    num <= (len as u128) * 10000,
                    len >= 1,
                    quot == num / (len as u128),
            ;
        }
        quot as u32
    }

    /// Whether the window has reached its capacity.
    pub fn is_full(&self) -> (r: bool)
        requires
            self.wf(),
        ensures
            r == (self.samples().len() == self.capacity()),
    {
        self.samples.len() >= self.capacity
    }

    /// Number of samples currently held.
    pub fn len(&self) -> (r: usize)
        ensures
            r == self.samples().len(),
    {
        self.samples.len()
    }

    /// Law: a well-formed window never holds more samples than its
    /// capacity, and the capacity is never zero.
    pub proof fn lemma_window_bounded(&self)
        requires
            self.wf(),
        ensures
            self.samples().len() <= self.capacity(),
            self.capacity() >= 1,
    {
    }
}

} // verus!
