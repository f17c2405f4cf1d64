use vstd::prelude::*;

use crate::config::StorageConfig;
use crate::ring::{last_n, samples_view, RingBuffer};
use crate::types::{MetricId, MetricSample, SampleView, METRIC_COUNT};

verus! {

/// Per-metric bounded history: one ring buffer per metric, created on the
/// first insert, all of the same capacity.
///
/// The store is single-writer: callers that share it across tasks wrap it
/// in a reader/writer lock and copy samples out while holding it.
pub struct Storage {
    buffers: Vec<Option<RingBuffer>>,
    capacity: usize,
}

impl Storage {
    pub closed spec fn cap(&self) -> nat {
        self.capacity as nat
    }

    pub closed spec fn wf(&self) -> bool {
        &&& self.capacity > 0
        &&& self.buffers@.len() == METRIC_COUNT
        &&& forall|i: int|
            0 <= i < METRIC_COUNT ==> match #[trigger] self.buffers@[i] {
                Some(b) => b.wf() && b.cap() == self.capacity,
                None => true,
            }
    }

    /// Every sample of `m` ever inserted, in arrival order.
    pub closed spec fn history(&self, m: MetricId) -> Seq<SampleView> {
        match self.buffers@[m.spec_index() as int] {
            Some(b) => b.history(),
            None => Seq::empty(),
        }
    }

    /// The samples of `m` the store still holds, oldest first.
    pub open spec fn held(&self, m: MetricId) -> Seq<SampleView> {
        crate::ring::retained(self.cap(), self.history(m))
    }

    pub fn new(config: &StorageConfig) -> (r: Storage)
        requires
            config.ring_buffer_size > 0,
        ensures
            r.wf(),
            r.cap() == config.ring_buffer_size,
            forall|m: MetricId| r.history(m) == Seq::<SampleView>::empty(),
    {
        let mut buffers: Vec<Option<RingBuffer>> = Vec::new();
        let mut i: usize = 0;
        while i < METRIC_COUNT
            invariant
                i <= METRIC_COUNT,
                buffers@.len() == i,
                forall|j: int| 0 <= j < i ==> buffers@[j].is_none(),
            decreases METRIC_COUNT - i,
        {
            buffers.push(None);
            i += 1;
        }
        Storage { buffers, capacity: config.ring_buffer_size as usize }
    }

    /// Appends `sample` to the history of its metric.
    pub fn insert(&mut self, sample: MetricSample)
        requires
            old(self).wf(),
        ensures
            final(self).wf(),
            final(self).cap() == old(self).cap(),
            final(self).history(sample.metric) == old(self).history(sample.metric).push(sample@),
            forall|m: MetricId|
                m != sample.metric ==> final(self).history(m) == old(self).history(m),
    {
        let idx = sample.metric.index();
        let mut slot: Option<RingBuffer> = None;
        std::mem::swap(&mut slot, &mut self.buffers[idx]);
        let mut buffer = match slot {
            Some(b) => b,
            None => RingBuffer::new(self.capacity),
        };
        buffer.push(sample);
        self.buffers.set(idx, Some(buffer));
        proof {
            assert forall|m: MetricId| m != sample.metric implies self.history(m) == old(
                self,
            ).history(m) by {
                lemma_index_injective(m, sample.metric);
            }
        }
    }

    /// The most recently inserted sample of `metric`, if any.
    pub fn latest(&self, metric: MetricId) -> (r: Option<MetricSample>)
        requires
            self.wf(),
        ensures
            match r {
                Some(s) => self.held(metric).len() > 0 && s@ == self.held(metric).last(),
                None => self.held(metric).len() == 0,
            },
    {
        match &self.buffers[metric.index()] {
            Some(b) => b.latest(),
            None => None,
        }
    }

    /// Up to `n` most recent samples of `metric`, oldest first.
    pub fn recent(&self, metric: MetricId, n: usize) -> (r: Vec<MetricSample>)
        requires
            self.wf(),
        ensures
            samples_view(r@) == last_n(self.held(metric), n as nat),
    {
        match &self.buffers[metric.index()] {
            Some(b) => b.recent(n),
            None => {
                assert(samples_view(Seq::<MetricSample>::empty()) =~= last_n(
                    self.held(metric),
                    n as nat,
                ));
                Vec::new()
            },
        }
    }
}

proof fn lemma_index_injective(a: MetricId, b: MetricId)
    ensures
        a.spec_index() == b.spec_index() ==> a == b,
{
}

} // verus!
