//! Fixed-capacity sliding window over the incoming samples.
//!
//! The window is a circular buffer: a push is O(1), never allocates after
//! construction, and once the window is full it evicts exactly the oldest
//! sample. The view of a window is the sequence of its live samples,
//! oldest first.

use vstd::prelude::*;

use crate::config::MAX_WINDOW_SIZE;

verus! {

/// One push onto a window of capacity `cap`: the sample is appended and,
/// if the window was full, the oldest sample is evicted.
pub open spec fn push_model(w: Seq<i16>, s: i16, cap: nat) -> Seq<i16> {
    if w.len() < cap {
        w.push(s)
    } else {
        w.subrange(1, w.len() as int).push(s)
    }
}

/// The window contents after pushing every sample of `pushes`, in order,
/// onto an empty window of capacity `cap`.
pub open spec fn window_after(pushes: Seq<i16>, cap: nat) -> Seq<i16>
    decreases pushes.len(),
{
    if pushes.len() == 0 {
        Seq::empty()
    } else {
        push_model(window_after(pushes.drop_last(), cap), pushes.last(), cap)
    }
}

/// The window never grows past its capacity, and once at least `cap`
/// samples have been pushed it holds exactly `cap` samples.
pub proof fn lemma_window_bound(pushes: Seq<i16>, cap: nat)
    requires
        1 <= cap,
    ensures
        window_after(pushes, cap).len() <= cap,
        pushes.len() >= cap ==> window_after(pushes, cap).len() == cap,
        pushes.len() < cap ==> window_after(pushes, cap).len() == pushes.len(),
    decreases pushes.len(),
{
    if pushes.len() > 0 {
        lemma_window_bound(pushes.drop_last(), cap);
    }
}

/// Eviction is strictly first-in-first-out: the live samples are always
/// the most recent pushes, in push order, so the oldest sample still
/// present is the one evicted next.
pub proof fn lemma_window_fifo(pushes: Seq<i16>, cap: nat)
    requires
        1 <= cap,
    ensures
        window_after(pushes, cap) == pushes.subrange(
            if pushes.len() <= cap { 0 } else { pushes.len() - cap },
            pushes.len() as int,
        ),
    decreases pushes.len(),
{
    lemma_window_bound(pushes, cap);
    if pushes.len() == 0 {
        assert(window_after(pushes, cap) =~= pushes.subrange(0, 0));
    } else {
        let prefix = pushes.drop_last();
        lemma_window_fifo(prefix, cap);
        lemma_window_bound(prefix, cap);
        let lo: int = if pushes.len() <= cap { 0 } else { pushes.len() - cap };
        assert(window_after(pushes, cap) =~= pushes.subrange(lo, pushes.len() as int));
    }
}

/// Sliding buffer of the most recent samples, oldest first in its view.
pub struct SampleWindow {
    buf: Vec<i16>,
    start: usize,
    len: usize,
}

impl View for SampleWindow {
    type V = Seq<i16>;

    /// The live samples, oldest to newest.
    closed spec fn view(&self) -> Seq<i16> {
        Seq::new(
            self.len as nat,
            |i: int|
                if self.start + i < self.buf@.len() {
                    self.buf@[self.start + i]
                } else {
                    self.buf@[self.start + i - self.buf@.len()]
                },
        )
    }
}

impl SampleWindow {
    /// Fixed capacity of the window.
    pub closed spec fn capacity_spec(&self) -> nat {
        self.buf@.len()
    }

    /// The buffer is fully allocated, the head index is in range, and the
    /// live length never exceeds the capacity.
    pub closed spec fn wf(&self) -> bool {
        &&& 1 <= self.buf@.len() <= MAX_WINDOW_SIZE
        &&& self.start < self.buf@.len()
        &&& self.len <= self.buf@.len()
    }

    /// An empty window of the given capacity, allocated up front so that
    /// later pushes never allocate.
    pub fn new(capacity: usize) -> (w: SampleWindow)
        requires
            1 <= capacity <= MAX_WINDOW_SIZE,
        ensures
            w.wf(),
            w.capacity_spec() == capacity,
            w@ == Seq::<i16>::empty(),
    {
        let mut buf: Vec<i16> = Vec::new();
        let mut i: usize = 0;
        while i < capacity
            invariant
                i <= capacity,
                buf@.len() == i,
            decreases capacity - i,
        {
            buf.push(0);
            i = i + 1;
        }
        let w = SampleWindow { buf, start: 0, len: 0 };
        proof {
            assert(w@ =~= Seq::<i16>::empty());
        }
        w
    }

    /// Number of live samples.
    pub fn len(&self) -> (n: usize)
        ensures
            n == self@.len(),
    {
        self.len
    }

    /// Fixed capacity of the window.
    pub fn capacity(&self) -> (n: usize)
        ensures
            n == self.capacity_spec(),
    {
        self.buf.len()
    }

    /// Append one sample; once the window is full this evicts exactly the
    /// oldest sample, in O(1) and without allocating.
    pub fn push(&mut self, s: i16)
        requires
            old(self).wf(),
        ensures
            final(self).wf(),
            final(self).capacity_spec() == old(self).capacity_spec(),
            final(self)@ == push_model(old(self)@, s, old(self).capacity_spec()),
    {
        let cap = self.buf.len();
        if self.len < cap {
            let idx = if self.start + self.len >= cap {
                self.start + self.len - cap
            } else {
                self.start + self.len
            };
            self.buf.set(idx, s);
            self.len = self.len + 1;
            proof {
                assert(self@ =~= push_model(old(self)@, s, old(self).capacity_spec()));
            }
        } else {
            self.buf.set(self.start, s);
            self.start = if self.start + 1 == cap {
                0
            } else {
                self.start + 1
            };
            proof {
                assert(self@ =~= push_model(old(self)@, s, old(self).capacity_spec()));
            }
        }
    }

    /// A well-formed window never holds more samples than its capacity.
    pub proof fn lemma_within_capacity(&self)
        requires
            self.wf(),
        ensures
            self@.len() <= self.capacity_spec(),
    {
    }

    /// A contiguous copy of the live samples, oldest first, for the
    /// estimator to analyse while the window keeps mutating.
    pub fn snapshot(&self) -> (v: Vec<i16>)
        requires
            self.wf(),
        ensures
            v@ == self@,
    {
        let cap = self.buf.len();
        let mut v: Vec<i16> = Vec::new();
        let mut i: usize = 0;
        while i < self.len
            invariant
                self.wf(),
                i <= self.len,
                cap == self.buf@.len(),
                v@.len() == i,
                forall|j: int| 0 <= j < i ==> v@[j] == self@[j],
            decreases self.len - i,
        {
            let idx = if self.start + i >= cap {
                self.start + i - cap
            } else {
                self.start + i
            };
            v.push(self.buf[idx]);
            i = i + 1;
        }
        proof {
            assert(v@ =~= self@);
        }
        v
    }
}

} // verus!
