use vstd::prelude::*;

verus! {

/// Position in a ring of `size` slots that lies `k` steps after `start`.
pub open spec fn ring_slot(start: int, k: int, size: int) -> int {
    if start + k < size {
        start + k
    } else {
        start + k - size
    }
}

/// A bounded window of the last log index carried by each unacknowledged
/// replication message to one follower, oldest first.
#[derive(Debug)]
pub struct Inflights {
    /// the slot of the oldest recorded index
    pub start: usize,
    /// number of recorded indices
    pub count: usize,
    /// the capacity of the window
    pub size: usize,
    /// ring of recorded indices, `size` slots long
    pub buffer: Vec<u64>,
}

impl Default for Inflights {
    /// A window of no capacity.
    fn default() -> (r: Inflights)
        ensures
            r.wf(),
            r@ == Seq::<u64>::empty(),
            r.size == 0,
    {
        Inflights::new(0)
    }
}

impl Inflights {
    /// The ring is as long as the capacity, and the cursor stays inside it.
    pub open spec fn wf(&self) -> bool {
        &&& self.buffer@.len() == self.size
        &&& self.count <= self.size
        &&& (self.size > 0 ==> self.start < self.size)
        &&& (self.size == 0 ==> self.start == 0)
    }

    /// The recorded indices, oldest first.
    pub open spec fn view(&self) -> Seq<u64> {
        Seq::new(
            self.count as nat,
            |k: int| self.buffer@[ring_slot(self.start as int, k, self.size as int)],
        )
    }

    /// An empty window that holds at most `size` indices.
    pub fn new(size: usize) -> (r: Inflights)
        ensures
            r.wf(),
            r@ == Seq::<u64>::empty(),
            r.size == size,
    {
        let mut buffer: Vec<u64> = Vec::new();
        let mut i: usize = 0;
        while i < size
            invariant
                i <= size,
                buffer@.len() == i,
            decreases size - i,
        {
            buffer.push(0);
            i = i + 1;
        }
        Inflights { start: 0, count: 0, size, buffer }
    }

    /// Whether the window is at capacity.
    pub fn full(&self) -> (r: bool)
        ensures
            r == (self.count == self.size),
    {
        self.count == self.size
    }

    /// Clears the window; the capacity stays.
    pub fn reset(&mut self)
        requires
            old(self).wf(),
        ensures
            final(self).wf(),
            final(self)@ == Seq::<u64>::empty(),
            final(self).size == old(self).size,
            final(self).start == 0,
            final(self).count == 0,
            final(self).buffer == old(self).buffer,
    {
        self.start = 0;
        self.count = 0;
    }

    /// Records `index` as the newest entry; refused, with nothing changed,
    /// when the window is full.
    pub fn add(&mut self, index: u64) -> (r: bool)
        requires
            old(self).wf(),
        ensures
            final(self).wf(),
            final(self).size == old(self).size,
            r == (old(self).count < old(self).size),
            r ==> final(self)@ == old(self)@.push(index),
            !r ==> *final(self) == *old(self),
    {
        if self.count == self.size {
            return false;
        }
        let slot: usize = if self.count < self.size - self.start {
            self.start + self.count
        } else {
            self.count - (self.size - self.start)
        };
        let ghost before = self@;
        self.buffer.set(slot, index);
        self.count = self.count + 1;
        assert(self@ =~= before.push(index));
        true
    }

    /// Removes the oldest recorded indices up to the first one above `to`:
    /// the longest prefix of the window whose indices are all at most `to`.
    pub fn free_to(&mut self, to: u64)
        requires
            old(self).wf(),
        ensures
            final(self).wf(),
            final(self).size == old(self).size,
            exists|i: int|
                0 <= i <= old(self)@.len() && (forall|k: int| 0 <= k < i ==> old(self)@[k] <= to)
                    && (i < old(self)@.len() ==> old(self)@[i] > to) && final(self)@
                    == old(self)@.subrange(i, old(self)@.len() as int),
    {
        let ghost before = self@;
        let mut i: usize = 0;
        let mut slot: usize = self.start;
        while i < self.count && self.buffer[slot] <= to
            invariant
                self.wf(),
                self@ == before,
                i <= self.count,
                i < self.count ==> slot == ring_slot(self.start as int, i as int, self.size as int),
                forall|k: int| 0 <= k < i ==> before[k] <= to,
            decreases self.count - i,
        {
            assert(before[i as int] == self.buffer@[slot as int]);
            i = i + 1;
            if i < self.count {
                if slot + 1 == self.size {
                    slot = 0;
                } else {
                    slot = slot + 1;
                }
            }
        }
        if i < self.count {
            assert(before[i as int] == self.buffer@[slot as int]);
            let ghost old_start = self.start;
            self.start = slot;
            self.count = self.count - i;
            assert forall|k: int| 0 <= k < self@.len() implies self@[k] == before[k + i] by {
                assert(ring_slot(slot as int, k, self.size as int) == ring_slot(
                    old_start as int,
                    k + i,
                    self.size as int,
                ));
            }
            assert(self@ =~= before.subrange(i as int, before.len() as int));
        } else {
            self.start = 0;
            self.count = 0;
            assert(self@ =~= before.subrange(i as int, before.len() as int));
        }
    }

    /// Removes the oldest recorded index, if there is one.
    pub fn free_first_one(&mut self)
        requires
            old(self).wf(),
        ensures
            final(self).wf(),
            final(self).size == old(self).size,
            old(self)@.len() > 0 ==> final(self)@ == old(self)@.drop_first(),
            old(self)@.len() == 0 ==> final(self)@ == old(self)@,
    {
        if self.count == 0 {
            return;
        }
        let ghost before = self@;
        if self.count == 1 {
            self.start = 0;
        } else if self.start + 1 == self.size {
            self.start = 0;
        } else {
            self.start = self.start + 1;
        }
        self.count = self.count - 1;
        assert(self@ =~= before.drop_first());
    }
}

} // verus!
