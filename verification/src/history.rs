//! Per-channel bounded sample history.
//!
//! One fixed-capacity FIFO buffer per channel holds the most recent samples,
//! all channels always of equal length, plus a monotonic counter of every
//! frame ever accepted, so that the absolute index of the oldest retained
//! sample — `total - capacity` once the buffers are full — stays stable
//! across eviction and the X axis does not jump.
//!
//! Samples are opaque 64-bit encodings of the device's numeric values; this
//! store never interprets them.

use vstd::prelude::*;

use crate::ring::lemma_fill_keeps_latest;
use crate::ring::push_bounded;
use crate::ring::spec_fill_from;
use crate::ring::spec_push_evict;

verus! {

/// Fixed capacity of each channel buffer, in samples.
pub const HISTORY_CAP: usize = 512;

/// The set of per-channel bounded FIFO buffers and the total-frame counter.
pub struct HistoryStore {
    channels: Vec<Vec<u64>>,
    total: u64,
}

impl HistoryStore {
    /// Number of channels (the dimension of the mode the store was built for).
    pub closed spec fn dim(self) -> nat {
        self.channels@.len()
    }

    /// Contents of channel `i`, oldest first.
    pub closed spec fn channel(self, i: int) -> Seq<u64> {
        self.channels@[i]@
    }

    /// Count of frames ever accepted since this store was created.
    pub closed spec fn spec_total(self) -> u64 {
        self.total
    }

    /// How many samples every channel currently retains.
    pub open spec fn spec_retained(self) -> int {
        if self.spec_total() <= HISTORY_CAP {
            self.spec_total() as int
        } else {
            HISTORY_CAP as int
        }
    }

    /// Absolute index of the oldest retained sample of every channel.
    pub open spec fn spec_oldest_index(self) -> int {
        if self.spec_total() <= HISTORY_CAP {
            0
        } else {
            self.spec_total() - HISTORY_CAP
        }
    }

    /// Length parity: every channel buffer holds exactly `spec_retained()`
    /// samples.
    pub open spec fn wf(self) -> bool {
        forall|i: int| 0 <= i < self.dim() ==> (#[trigger] self.channel(i)).len()
            == self.spec_retained()
    }

    /// A fresh store of `dim` empty channels.
    pub fn new(dim: usize) -> (r: HistoryStore)
        ensures
            r.wf(),
            r.dim() == dim,
            r.spec_total() == 0,
            forall|i: int| 0 <= i < dim ==> #[trigger] r.channel(i) == Seq::<u64>::empty(),
    {
        let mut channels: Vec<Vec<u64>> = Vec::new();
        let mut i: usize = 0;
        while i < dim
            invariant
                i <= dim,
                channels@.len() == i,
                forall|j: int| 0 <= j < i ==> (#[trigger] channels@[j])@ == Seq::<u64>::empty(),
            decreases dim - i,
        {
            channels.push(Vec::new());
            i = i + 1;
        }
        HistoryStore { channels, total: 0 }
    }

    /// Accepts one frame: pushes `samples[i]` into channel `i` for every
    /// channel, evicting the oldest sample of a full buffer, and counts the
    /// frame.
    pub fn append(&mut self, samples: &Vec<u64>)
        requires
            old(self).wf(),
            samples@.len() == old(self).dim(),
            old(self).spec_total() < u64::MAX,
        ensures
            final(self).wf(),
            final(self).dim() == old(self).dim(),
            final(self).spec_total() == old(self).spec_total() + 1,
            forall|i: int| 0 <= i < old(self).dim() ==> #[trigger] final(self).channel(i)
                == spec_push_evict(old(self).channel(i), samples@[i], HISTORY_CAP as int),
    {
        let n = self.channels.len();
        let mut i: usize = 0;
        while i < n
            invariant
                i <= n,
                n == old(self).dim(),
                self.channels@.len() == n,
                self.total == old(self).spec_total(),
                samples@.len() == n,
                old(self).wf(),
                forall|j: int| i <= j < n ==> #[trigger] self.channels@[j]
                    == old(self).channels@[j],
                forall|j: int| 0 <= j < i ==> #[trigger] self.channel(j)
                    == spec_push_evict(old(self).channel(j), samples@[j], HISTORY_CAP as int),
                forall|j: int| 0 <= j < i ==> (#[trigger] self.channel(j)).len()
                    == if old(self).spec_retained() < HISTORY_CAP {
                        old(self).spec_retained() + 1
                    } else {
                        HISTORY_CAP as int
                    },
            decreases n - i,
        {
            let ghost pre = *self;
            proof {
                assert(self.channels@[i as int] == old(self).channels@[i as int]);
                assert(old(self).channel(i as int).len() == old(self).spec_retained());
                assert(self.channels@[i as int]@ == old(self).channel(i as int));
            }
            push_bounded(&mut self.channels[i], samples[i], HISTORY_CAP);
            proof {
                assert(self.channel(i as int) == spec_push_evict(
                    old(self).channel(i as int),
                    samples@[i as int],
                    HISTORY_CAP as int,
                ));
                assert(forall|j: int| 0 <= j < i ==> #[trigger] self.channels@[j]
                    == pre.channels@.update(i as int, self.channels@[i as int])[j]);
                assert(forall|j: int| 0 <= j < i ==> #[trigger] self.channel(j)
                    == pre.channel(j));
            }
            i = i + 1;
        }
        let ghost done = *self;
        self.total = self.total + 1;
        proof {
            assert(forall|j: int| 0 <= j < old(self).dim() ==> #[trigger] self.channel(j)
                == done.channel(j));
            assert(self.wf());
        }
    }

    /// Retention law for one channel.  [`Self::append`] evolves each
    /// channel by one `spec_push_evict` step, so a channel of a fresh store
    /// whose frames carried the samples `all`, in order, holds
    /// `spec_fill_from(Seq::empty(), all, HISTORY_CAP)`: exactly the most
    /// recent `HISTORY_CAP` of `all`, oldest evicted first, and once more
    /// than `HISTORY_CAP` samples have been appended the absolute index of
    /// the oldest retained sample equals `all.len() - HISTORY_CAP`.
    pub proof fn lemma_channel_retains_latest(all: Seq<u64>)
        ensures
            spec_fill_from(Seq::<u64>::empty(), all, HISTORY_CAP as int) == if all.len()
                <= HISTORY_CAP {
                all
            } else {
                all.skip(all.len() - HISTORY_CAP)
            },
    {
        lemma_fill_keeps_latest(Seq::<u64>::empty(), all, HISTORY_CAP as int);
        assert(Seq::<u64>::empty() + all =~= all);
    }

    /// The number of channels.
    pub fn num_channels(&self) -> (n: usize)
        ensures
            n == self.dim(),
    {
        self.channels.len()
    }

    /// The total-frame counter.
    pub fn total(&self) -> (t: u64)
        ensures
            t == self.spec_total(),
    {
        self.total
    }

    /// How many samples each channel currently retains.
    pub fn retained(&self) -> (n: usize)
        requires
            self.wf(),
        ensures
            n == self.spec_retained(),
    {
        if self.total <= HISTORY_CAP as u64 {
            self.total as usize
        } else {
            HISTORY_CAP
        }
    }

    /// The X range of the retained window: absolute index of the oldest
    /// retained sample, and the total-frame counter.
    pub fn x_bounds(&self) -> (r: (u64, u64))
        ensures
            r.0 == self.spec_oldest_index(),
            r.1 == self.spec_total(),
    {
        if self.total <= HISTORY_CAP as u64 {
            (0, self.total)
        } else {
            (self.total - HISTORY_CAP as u64, self.total)
        }
    }

    /// Borrows the retained samples of channel `ch`, oldest first.
    pub fn channel_samples(&self, ch: usize) -> (r: &Vec<u64>)
        requires
            ch < self.dim(),
        ensures
            r@ == self.channel(ch as int),
    {
        &self.channels[ch]
    }

    /// The retained samples of channel `ch` paired with their absolute
    /// indices, oldest to newest, accounting for already-evicted samples.
    pub fn channel_points(&self, ch: usize) -> (r: Vec<(u64, u64)>)
        requires
            self.wf(),
            ch < self.dim(),
        ensures
            r@.len() == self.spec_retained(),
            forall|j: int| 0 <= j < r@.len() ==> (#[trigger] r@[j]).0
                == self.spec_oldest_index() + j,
            forall|j: int| 0 <= j < r@.len() ==> (#[trigger] r@[j]).1
                == self.channel(ch as int)[j],
    {
        let start: u64 = if self.total <= HISTORY_CAP as u64 {
            0
        } else {
            self.total - HISTORY_CAP as u64
        };
        proof {
            assert(self.channel(ch as int).len() == self.spec_retained());
        }
        let buf = &self.channels[ch];
        let len = buf.len();
        let mut r: Vec<(u64, u64)> = Vec::new();
        let mut j: usize = 0;
        while j < len
            invariant
                j <= len,
                len == self.spec_retained(),
                buf@.len() == len,
                start == self.spec_oldest_index(),
                start + len <= u64::MAX,
                buf@ == self.channel(ch as int),
                r@.len() == j,
                forall|k: int| 0 <= k < j ==> (#[trigger] r@[k]).0 == start + k,
                forall|k: int| 0 <= k < j ==> (#[trigger] r@[k]).1 == buf@[k],
            decreases len - j,
        {
            r.push((start + j as u64, buf[j]));
            j = j + 1;
        }
        r
    }
}

} // verus!
