//! Single producer single consumer sample queue.
//!
//! Used to hand samples from the capture side to the processing side.
//! Capacity is rounded up to a power of two. On overflow the writer drops the
//! incoming block and increments a counter; for a receiver this is the correct
//! behaviour, the interface reports the overrun instead of stalling the audio
//! callback.
//!
//! This is the queue's logic for one owner. Sharing it between two threads is
//! the program's business.

use vstd::prelude::*;
use vstd::arithmetic::power2::pow2;
use vstd::slice::SliceAdditionalExecFns;

verus! {

/// A power of two.
pub open spec fn is_pow2(c: nat) -> bool {
    exists|k: nat| pow2(k) == c
}

/// Capacity a requested size is rounded to: the smallest power of two that
/// is at least the request and at least two.
pub open spec fn rounded_capacity(requested: nat, c: nat) -> bool {
    let need = if requested < 2 {
        2
    } else {
        requested
    };
    is_pow2(c) && c >= need && c / 2 < need
}

/// Slot of the element `i` places after `head`, in a buffer of `cap` slots.
pub open spec fn slot(head: int, i: int, cap: int) -> int {
    if head + i >= cap {
        head + i - cap
    } else {
        head + i
    }
}

/// The slot `off` places after `head`, without overflowing.
fn advance(head: usize, off: usize, cap: usize) -> (r: usize)
    requires
        head < cap,
        off <= cap,
    ensures
        r == slot(head as int, off as int, cap as int),
{
    if head >= cap - off {
        head - (cap - off)
    } else {
        head + off
    }
}

pub struct RingBuffer<T: Copy> {
    data: Vec<T>,
    mask: usize,
    head: usize,
    count: usize,
    overruns: usize,
}

impl<T: Copy> View for RingBuffer<T> {
    type V = Seq<T>;

    /// Samples ready to be read, oldest first.
    closed spec fn view(&self) -> Seq<T> {
        Seq::new(
            self.count as nat,
            |i: int| self.data@[slot(self.head as int, i, self.mask + 1)],
        )
    }
}

impl<T: Copy> RingBuffer<T> {
    /// The queue's invariant: a power of two slots, the read position inside
    /// them, and no more samples than slots.
    pub closed spec fn wf(&self) -> bool {
        &&& self.data@.len() == self.mask + 1
        &&& self.mask < usize::MAX
        &&& self.mask + 1 >= 2
        &&& is_pow2((self.mask + 1) as nat)
        &&& self.head <= self.mask
        &&& self.count <= self.mask + 1
    }

    pub closed spec fn spec_capacity(&self) -> nat {
        (self.mask + 1) as nat
    }

    pub closed spec fn spec_overruns(&self) -> usize {
        self.overruns
    }

    /// An empty queue holding at least `capacity` samples, rounded up to a
    /// power of two.
    pub fn new(capacity: usize) -> (r: RingBuffer<T>)
        where T: Default,
        requires
            capacity <= usize::MAX / 2 + 1,
        ensures
            r.wf(),
            r@ == Seq::<T>::empty(),
            rounded_capacity(capacity as nat, r.spec_capacity()),
            r.spec_overruns() == 0,
    {
        let need = if capacity < 2 {
            2
        } else {
            capacity
        };
        let mut cap: usize = 1;
        let ghost mut k: nat = 0;
        proof {
            vstd::arithmetic::power2::lemma2_to64();
        }
        while cap < need
            invariant
                need >= 2,
                need <= usize::MAX / 2 + 1,
                cap == pow2(k),
                cap >= 1,
                cap == 1 || cap / 2 < need,
            decreases usize::MAX - cap,
        {
            proof {
                vstd::arithmetic::power2::lemma_pow2_unfold(k + 1);
            }
            cap = cap * 2;
            proof {
                k = k + 1;
            }
        }
        let fill = T::default();
        let mut data: Vec<T> = Vec::new();
        let mut i: usize = 0;
        while i < cap
            invariant
                i <= cap,
                data@.len() == i,
            decreases cap - i,
        {
            data.push(fill);
            i += 1;
        }
        let r = RingBuffer { data, mask: cap - 1, head: 0, count: 0, overruns: 0 };
        assert(r@ =~= Seq::<T>::empty());
        r
    }

    pub fn capacity(&self) -> (r: usize)
        requires
            self.wf(),
        ensures
            r == self.spec_capacity(),
    {
        self.mask + 1
    }

    /// Number of samples ready to be read.
    pub fn len(&self) -> (r: usize)
        ensures
            r == self@.len(),
    {
        self.count
    }

    pub fn is_empty(&self) -> (r: bool)
        ensures
            r == (self@.len() == 0),
    {
        self.count == 0
    }

    /// Writes refused for want of space since the queue was made.
    pub fn overruns(&self) -> (r: usize)
        ensures
            r == self.spec_overruns(),
    {
        self.overruns
    }

    /// Writes the whole slice or nothing. Returns false when there is not
    /// room for all of it; the overrun counter is bumped in that case.
    pub fn write(&mut self, src: &[T]) -> (r: bool)
        requires
            old(self).wf(),
        ensures
            final(self).wf(),
            r == (src@.len() <= old(self).spec_capacity() - old(self)@.len()),
            r ==> final(self)@ == old(self)@ + src@,
            r ==> final(self).spec_overruns() == old(self).spec_overruns(),
            !r ==> final(self)@ == old(self)@,
            !r ==> final(self).spec_overruns() == old(self).spec_overruns().wrapping_add(1),
            final(self).spec_capacity() == old(self).spec_capacity(),
    {
        let cap = self.mask + 1;
        let free = cap - self.count;
        if src.len() > free {
            self.overruns = self.overruns.wrapping_add(1);
            return false;
        }
        let ghost before = self@;
        let ghost old_data = self.data@;
        let head = self.head;
        let count = self.count;
        let mut j: usize = 0;
        while j < src.len()
            invariant
                cap == self.mask + 1,
                self.data@.len() == cap,
                head == self.head,
                count == self.count,
                head < cap,
                count + src@.len() <= cap,
                j <= src@.len(),
                forall|i: int| 0 <= i < count ==> #[trigger] self.data@[slot(head as int, i, cap as int)]
                    == old_data[slot(head as int, i, cap as int)],
                forall|k: int| 0 <= k < j ==> #[trigger] self.data@[slot(head as int, count + k, cap as int)]
                    == src@[k],
                before == Seq::new(count as nat, |i: int| old_data[slot(head as int, i, cap as int)]),
                self.overruns == old(self).overruns,
                self.mask == old(self).mask,
                self.wf(),
            decreases src@.len() - j,
        {
            let pos = advance(head, count + j, cap);
            assert(pos == slot(head as int, count + j, cap as int));
            self.data.set(pos, src[j]);
            j += 1;
        }
        self.count = count + src.len();
        assert(self@ =~= before + src@) by {
            assert forall|i: int| 0 <= i < self@.len() implies #[trigger] self@[i] == (before + src@)[i] by {
                if i >= count {
                    assert(self.data@[slot(head as int, count + (i - count), cap as int)] == src@[i - count]);
                }
            }
        }
        true
    }

    /// Copies up to `dst.len()` samples, oldest first, and removes them.
    pub fn read(&mut self, dst: &mut [T]) -> (n: usize)
        requires
            old(self).wf(),
        ensures
            final(self).wf(),
            n == if old(self)@.len() < old(dst)@.len() {
                old(self)@.len()
            } else {
                old(dst)@.len()
            },
            final(dst)@.len() == old(dst)@.len(),
            final(dst)@.take(n as int) == old(self)@.take(n as int),
            final(dst)@.skip(n as int) == old(dst)@.skip(n as int),
            final(self)@ == old(self)@.skip(n as int),
            final(self).spec_overruns() == old(self).spec_overruns(),
            final(self).spec_capacity() == old(self).spec_capacity(),
    {
        let avail = if self.count < dst.len() {
            self.count
        } else {
            dst.len()
        };
        let cap = self.mask + 1;
        let head = self.head;
        let ghost before = self@;
        let ghost old_dst = dst@;
        let mut j: usize = 0;
        while j < avail
            invariant
                cap == self.mask + 1,
                self.data@.len() == cap,
                head == self.head,
                head < cap,
                avail <= self.count,
                self.count <= cap,
                avail <= old_dst.len(),
                dst@.len() == old_dst.len(),
                j <= avail,
                before == self@,
                self.wf(),
                self.overruns == old(self).overruns,
                self.mask == old(self).mask,
                forall|k: int| 0 <= k < j ==> #[trigger] dst@[k] == before[k],
                forall|k: int| j <= k < dst@.len() ==> #[trigger] dst@[k] == old_dst[k],
            decreases avail - j,
        {
            let pos = advance(head, j, cap);
            assert(self.data@[pos as int] == before[j as int]);
            dst.set(j, self.data[pos]);
            j += 1;
        }
        self.head = advance(head, avail, cap);
        self.count = self.count - avail;
        assert(dst@.take(avail as int) =~= before.take(avail as int));
        assert(dst@.skip(avail as int) =~= old_dst.skip(avail as int));
        assert(self@ =~= before.skip(avail as int));
        avail
    }

    /// Drops samples without copying. Used to resync after a long stall.
    pub fn skip(&mut self, count: usize) -> (n: usize)
        requires
            old(self).wf(),
        ensures
            final(self).wf(),
            n == if old(self)@.len() < count {
                old(self)@.len()
            } else {
                count as nat
            },
            final(self)@ == old(self)@.skip(n as int),
            final(self).spec_overruns() == old(self).spec_overruns(),
            final(self).spec_capacity() == old(self).spec_capacity(),
    {
        let n = if self.count < count {
            self.count
        } else {
            count
        };
        let ghost before = self@;
        let cap = self.mask + 1;
        self.head = advance(self.head, n, cap);
        self.count = self.count - n;
        assert(self@ =~= before.skip(n as int));
        n
    }
}


/// First in, first out: samples written behind what is queued come out after
/// it, in the order written, and a read takes the oldest.
pub proof fn lemma_first_in_first_out<T>(queued: Seq<T>, written: Seq<T>, n: nat)
    requires
        n <= queued.len() + written.len(),
    ensures
        (queued + written).take(n as int) == if n <= queued.len() {
            queued.take(n as int)
        } else {
            queued + written.take(n - queued.len())
        },
        (queued + written).skip(n as int) == if n <= queued.len() {
            queued.skip(n as int) + written
        } else {
            written.skip(n - queued.len())
        },
{
    if n <= queued.len() {
        assert((queued + written).take(n as int) =~= queued.take(n as int));
        assert((queued + written).skip(n as int) =~= queued.skip(n as int) + written);
    } else {
        assert((queued + written).take(n as int) =~= queued + written.take(n - queued.len()));
        assert((queued + written).skip(n as int) =~= written.skip(n - queued.len()));
    }
}
} // verus!
