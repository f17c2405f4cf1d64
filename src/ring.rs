use vstd::prelude::*;

use crate::types::{MetricSample, SampleView};

verus! {

/// Views of a sequence of samples, in the same order.
pub open spec fn samples_view(v: Seq<MetricSample>) -> Seq<SampleView> {
    v.map_values(|s: MetricSample| s@)
}

/// What a buffer of capacity `cap` holds after the samples `inserted` went
/// in, one by one: the last `min(len, cap)` of them, oldest first.
pub open spec fn retained(cap: nat, inserted: Seq<SampleView>) -> Seq<SampleView> {
    if inserted.len() <= cap {
        inserted
    } else {
        inserted.subrange(inserted.len() - cap, inserted.len() as int)
    }
}

/// The last `min(n, s.len())` elements of `s`, oldest first.
pub open spec fn last_n(s: Seq<SampleView>, n: nat) -> Seq<SampleView> {
    let count = if n < s.len() { n } else { s.len() };
    s.subrange(s.len() - count, s.len() as int)
}

/// Physical position of the `i`-th oldest element when the oldest one is at
/// `head` in storage of length `len`.
pub open spec fn slot(head: int, i: int, len: int) -> int {
    if head + i < len {
        head + i
    } else {
        head + i - len
    }
}

/// Bounded history of one metric: once full, each write overwrites the
/// oldest sample.
pub struct RingBuffer {
    data: Vec<MetricSample>,
    head: usize,
    capacity: usize,
    inserted: Ghost<Seq<SampleView>>,
}

impl View for RingBuffer {
    type V = Seq<SampleView>;

    /// The retained samples, oldest first.
    open spec fn view(&self) -> Seq<SampleView> {
        retained(self.cap(), self.history())
    }
}

impl RingBuffer {
    pub closed spec fn cap(&self) -> nat {
        self.capacity as nat
    }

    /// Every sample ever written, in order of arrival.
    pub closed spec fn history(&self) -> Seq<SampleView> {
        self.inserted@
    }

    /// The stored samples by physical position.
    pub closed spec fn slots(&self) -> Seq<SampleView> {
        samples_view(self.data@)
    }

    /// Physical position of the oldest sample once full; the next one
    /// written goes there.
    pub closed spec fn head_pos(&self) -> nat {
        self.head as nat
    }

    pub closed spec fn wf(&self) -> bool {
        &&& self.capacity > 0
        &&& self.data@.len() == retained(self.capacity as nat, self.inserted@).len()
        &&& self.head < self.capacity
        &&& self.data@.len() < self.capacity ==> self.head == 0
        &&& forall|i: int|
            0 <= i < self.data@.len() ==> #[trigger] self.data@[slot(
                self.head as int,
                i,
                self.data@.len() as int,
            )]@ == retained(self.capacity as nat, self.inserted@)[i]
    }

    pub fn new(capacity: usize) -> (r: RingBuffer)
        requires
            capacity > 0,
        ensures
            r.wf(),
            r.cap() == capacity,
            r.history() == Seq::<SampleView>::empty(),
            r@.len() == 0,
    {
        RingBuffer { data: Vec::new(), head: 0, capacity, inserted: Ghost(Seq::empty()) }
    }

    pub fn capacity(&self) -> (r: usize)
        ensures
            r == self.cap(),
    {
        self.capacity
    }

    pub fn len(&self) -> (r: usize)
        requires
            self.wf(),
        ensures
            r == self@.len(),
    {
        self.data.len()
    }

    /// Appends a sample, overwriting the oldest one when the buffer is full.
    pub fn push(&mut self, sample: MetricSample)
        requires
            old(self).wf(),
        ensures
            final(self).wf(),
            final(self).cap() == old(self).cap(),
            final(self).history() == old(self).history().push(sample@),
            old(self).slots().len() < old(self).cap() ==> final(self).slots() == old(
                self,
            ).slots().push(sample@) && final(self).head_pos() == 0,
            old(self).slots().len() >= old(self).cap() ==> final(self).slots() == old(
                self,
            ).slots().update(old(self).head_pos() as int, sample@) && final(self).head_pos() == (
            old(self).head_pos() + 1) % old(self).cap(),
            final(self).slots().len() <= final(self).cap(),
    {
        let ghost old_view = self@;
        let ghost sv = sample@;
        let ghost new_hist = self.inserted@.push(sv);
        if self.data.len() < self.capacity {
            self.data.push(sample);
            assert(samples_view(self.data@) =~= samples_view(old(self).data@).push(sv));
            self.inserted = Ghost(new_hist);
            assert(self.inserted@.len() <= self.capacity);
            assert forall|i: int| 0 <= i < self.data@.len() implies #[trigger] self.data@[slot(
                self.head as int,
                i,
                self.data@.len() as int,
            )]@ == retained(self.capacity as nat, self.inserted@)[i] by {
                if i < old_view.len() {
                    assert(self.data@[i] == old(self).data@[slot(0, i, old_view.len() as int)]);
                }
            }
        } else {
            let cap = self.capacity;
            let h = self.head;
            proof {
                assert(self.inserted@.len() >= cap);
            }
            self.data.set(h, sample);
            assert(samples_view(self.data@) =~= samples_view(old(self).data@).update(h as int, sv));
            self.head = if h + 1 == cap { 0 } else { h + 1 };
            assert(self.head == (h + 1) % (cap as int)) by {
                if h + 1 == cap {
                    vstd::arithmetic::div_mod::lemma_mod_self_0(cap as int);
                } else {
                    vstd::arithmetic::div_mod::lemma_small_mod((h + 1) as nat, cap as nat);
                }
            }
            self.inserted = Ghost(new_hist);
            let ghost new_view = retained(cap as nat, new_hist);
            assert forall|i: int| 0 <= i < cap implies new_view[i] == (if i + 1 < cap {
                old_view[i + 1]
            } else {
                sv
            }) by {
                let n = old(self).inserted@.len();
                assert(new_view[i] == new_hist[n + 1 - cap + i]);
                if i + 1 < cap {
                    assert(old_view[i + 1] == old(self).inserted@[n - cap + i + 1]);
                }
            }
            assert forall|i: int| 0 <= i < self.data@.len() implies #[trigger] self.data@[slot(
                self.head as int,
                i,
                self.data@.len() as int,
            )]@ == retained(self.capacity as nat, self.inserted@)[i] by {
                if i + 1 < cap {
                    let p = slot(h as int, i + 1, cap as int);
                    assert(old(self).data@[p]@ == old_view[i + 1]);
                    assert(p == slot(self.head as int, i, cap as int));
                }
            }
        }
    }

    /// Physical position of the `k`-th oldest retained sample.
    fn position(&self, k: usize) -> (r: usize)
        requires
            self.wf(),
            k < self.data@.len(),
        ensures
            r == slot(self.head as int, k as int, self.data@.len() as int),
            r < self.data@.len(),
    {
        let len = self.data.len();
        if k < len - self.head {
            self.head + k
        } else {
            k - (len - self.head)
        }
    }

    /// The most recently written sample, if any.
    pub fn latest(&self) -> (r: Option<MetricSample>)
        requires
            self.wf(),
        ensures
            match r {
                Some(s) => self@.len() > 0 && s@ == self@.last(),
                None => self@.len() == 0,
            },
    {
        let len = self.data.len();
        if len == 0 {
            return None;
        }
        let idx = self.position(len - 1);
        Some(self.data[idx].duplicate())
    }

    /// Up to `n` most recent samples, oldest first.
    pub fn recent(&self, n: usize) -> (r: Vec<MetricSample>)
        requires
            self.wf(),
        ensures
            samples_view(r@) == last_n(self@, n as nat),
    {
        let len = self.data.len();
        let count = if n < len { n } else { len };
        let start = len - count;
        let mut out: Vec<MetricSample> = Vec::new();
        let mut i: usize = 0;
        while i < count
            invariant
                self.wf(),
                len == self.data@.len(),
                count <= len,
                start == len - count,
                i <= count,
                out@.len() == i,
                forall|j: int| 0 <= j < i ==> out@[j]@ == self@[start + j],
            decreases count - i,
        {
            let k = start + i;
            let idx = self.position(k);
            out.push(self.data[idx].duplicate());
            i += 1;
        }
        assert(samples_view(out@) =~= last_n(self@, n as nat));
        out
    }
}

/// After `N` writes into a buffer of capacity `C`, it holds `min(N, C)`
/// samples and the newest of them is the `N`-th one written.
pub proof fn lemma_length_and_latest(b: RingBuffer)
    requires
        b.wf(),
    ensures
        b@.len() == (if b.history().len() < b.cap() { b.history().len() } else { b.cap() }),
        b.history().len() > 0 ==> b@.last() == b.history().last(),
{
}

/// For `n > 0`, the last element of the `n` most recent samples is the
/// newest sample, and there are `min(n, len)` of them.
pub proof fn lemma_recent_ends_with_latest(b: RingBuffer, n: nat)
    requires
        b.wf(),
        n > 0,
    ensures
        last_n(b@, n).len() == (if n < b@.len() { n } else { b@.len() }),
        b@.len() > 0 ==> last_n(b@, n).last() == b@.last(),
{
}

/// Writing sample `C + 1` into a buffer of capacity `C` drops the first
/// sample written; the `C` most recent samples are still `C` in number.
pub proof fn lemma_wrap_drops_first(b: RingBuffer)
    requires
        b.wf(),
        b.history().len() == b.cap() + 1,
    ensures
        b@ == b.history().subrange(1, b.cap() + 1int),
        last_n(b@, b.cap()).len() == b.cap(),
        last_n(b@, b.cap()) == b.history().drop_first(),
{
    assert(b.history().subrange(1, b.cap() + 1int) =~= b.history().drop_first());
}

} // verus!
