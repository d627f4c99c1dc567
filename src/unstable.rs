use vstd::prelude::*;

verus! {

/// One log entry: its position, the term it was proposed in, and an opaque
/// payload.
#[derive(Debug)]
pub struct Entry {
    pub index: u64,
    pub term: u64,
    pub data: Vec<u8>,
}

/// Index and term of the last entry that a snapshot covers.
#[derive(Debug, Clone, Copy, PartialEq, Eq, Structural)]
pub struct SnapshotMetadata {
    pub index: u64,
    pub term: u64,
}

impl Entry {
    pub open spec fn view(&self) -> (u64, u64, Seq<u8>) {
        (self.index, self.term, self.data@)
    }

    pub fn new(index: u64, term: u64, data: Vec<u8>) -> (r: Entry)
        ensures
            r@ == (index, term, data@),
    {
        Entry { index, term, data }
    }

    pub fn get_index(&self) -> (r: u64)
        ensures
            r == self.index,
    {
        self.index
    }

    pub fn get_term(&self) -> (r: u64)
        ensures
            r == self.term,
    {
        self.term
    }

    /// A copy with the same position, term and payload.
    pub fn copy(&self) -> (r: Entry)
        ensures
            r@ == self@,
    {
        let mut data: Vec<u8> = Vec::new();
        let mut i: usize = 0;
        while i < self.data.len()
            invariant
                i <= self.data@.len(),
                data@ == self.data@.subrange(0, i as int),
            decreases self.data@.len() - i,
        {
            data.push(self.data[i]);
            i = i + 1;
            assert(data@ =~= self.data@.subrange(0, i as int));
        }
        assert(data@ =~= self.data@);
        Entry { index: self.index, term: self.term, data }
    }
}

/// The entries are numbered consecutively, from a positive index, and the
/// last index leaves room for one more.
pub open spec fn contiguous(ents: Seq<Entry>) -> bool {
    ents.len() > 0 ==> {
        &&& ents[0].index >= 1
        &&& ents[0].index + ents.len() < u64::MAX
        &&& forall|k: int| 0 <= k < ents.len() ==> #[trigger] ents[k].index == ents[0].index + k
    }
}

/// The views of a sequence of entries.
pub open spec fn views(ents: Seq<Entry>) -> Seq<(u64, u64, Seq<u8>)> {
    ents.map_values(|e: Entry| e@)
}

/// Appends copies of `ents` to `dst`.
fn push_copies(dst: &mut Vec<Entry>, ents: &[Entry])
    ensures
        views(final(dst)@) == views(old(dst)@) + views(ents@),
{
    let ghost start = views(dst@);
    let mut i: usize = 0;
    while i < ents.len()
        invariant
            i <= ents@.len(),
            views(dst@) == start + views(ents@.subrange(0, i as int)),
        decreases ents@.len() - i,
    {
        let e = ents[i].copy();
        let ghost before = dst@;
        dst.push(e);
        i = i + 1;
        assert(views(dst@) =~= views(before) + seq![e@]);
        assert(views(ents@.subrange(0, i as int)) =~= views(ents@.subrange(0, i - 1)) + seq![
            e@,
        ]);
        assert(views(dst@) =~= start + views(ents@.subrange(0, i as int)));
    }
    assert(ents@.subrange(0, ents@.len() as int) =~= ents@);
}

/// The tail of the log that is not yet in durable storage, with an optional
/// snapshot that it may follow.
#[derive(Debug)]
pub struct Unstable {
    /// a snapshot not yet persisted
    pub snapshot: Option<SnapshotMetadata>,
    /// entries not yet persisted, the first one at `offset`
    pub entries: Vec<Entry>,
    /// index of the first entry in `entries`
    pub offset: u64,
}

impl Unstable {
    /// Entries run consecutively from `offset`; a snapshot with no entries
    /// after it is followed by `offset`.
    pub open spec fn wf(&self) -> bool {
        &&& self.offset >= 1
        &&& self.offset + self.entries@.len() < u64::MAX
        &&& forall|k: int|
            0 <= k < self.entries@.len() ==> #[trigger] self.entries@[k].index == self.offset + k
        &&& match self.snapshot {
            Some(s) => s.index < u64::MAX - 1 && (self.entries@.len() == 0 ==> self.offset
                == s.index + 1),
            None => true,
        }
    }

    /// Index of the last entry; else of the snapshot; else nothing.
    pub open spec fn spec_last_index(&self) -> Option<u64> {
        if self.entries@.len() > 0 {
            Some((self.offset + self.entries@.len() - 1) as u64)
        } else {
            match self.snapshot {
                Some(s) => Some(s.index),
                None => None,
            }
        }
    }

    /// `offset` when entries are held; else the index after the snapshot;
    /// else nothing.
    pub open spec fn spec_first_index(&self) -> Option<u64> {
        if self.entries@.len() > 0 {
            Some(self.offset)
        } else {
            match self.snapshot {
                Some(s) => Some((s.index + 1) as u64),
                None => None,
            }
        }
    }

    /// The term of entry `i` if it is held here, or the snapshot's term at
    /// its index.
    pub open spec fn spec_term(&self, i: u64) -> Option<u64> {
        if self.offset <= i < self.offset + self.entries@.len() {
            Some(self.entries@[i - self.offset].term)
        } else {
            match self.snapshot {
                Some(s) => if s.index == i {
                    Some(s.term)
                } else {
                    None
                },
                None => None,
            }
        }
    }

    /// An empty tail whose first entry will be `offset`.
    pub fn new(offset: u64) -> (r: Unstable)
        requires
            1 <= offset < u64::MAX,
        ensures
            r.wf(),
            r.offset == offset,
            r.entries@.len() == 0,
            r.snapshot == None::<SnapshotMetadata>,
    {
        Unstable { snapshot: None, entries: Vec::new(), offset }
    }

    pub fn maybe_last_index(&self) -> (r: Option<u64>)
        requires
            self.wf(),
        ensures
            r == self.spec_last_index(),
    {
        let n = self.entries.len();
        if n > 0 {
            return Some(self.offset + n as u64 - 1);
        }
        match self.snapshot {
            Some(s) => Some(s.index),
            None => None,
        }
    }

    pub fn maybe_first_index(&self) -> (r: Option<u64>)
        requires
            self.wf(),
        ensures
            r == self.spec_first_index(),
    {
        if self.entries.len() > 0 {
            return Some(self.offset);
        }
        match self.snapshot {
            Some(s) => Some(s.index + 1),
            None => None,
        }
    }

    pub fn maybe_term(&self, i: u64) -> (r: Option<u64>)
        requires
            self.wf(),
        ensures
            r == self.spec_term(i),
    {
        if self.offset <= i && i - self.offset < self.entries.len() as u64 {
            return Some(self.entries[(i - self.offset) as usize].term);
        }
        match self.snapshot {
            Some(s) => if s.index == i {
                Some(s.term)
            } else {
                None
            },
            None => None,
        }
    }

    /// Writes `ents` into the tail: what was held from their first index on
    /// is replaced, and when they start before `offset` they replace the
    /// whole buffer.
    pub fn truncate_and_append(&mut self, ents: &[Entry])
        requires
            old(self).wf(),
            contiguous(ents@),
            ents@.len() > 0,
            ents@[0].index <= old(self).offset + old(self).entries@.len(),
        ensures
            final(self).wf(),
            final(self).snapshot == old(self).snapshot,
            final(self).offset == if ents@[0].index <= old(self).offset {
                ents@[0].index
            } else {
                old(self).offset
            },
            views(final(self).entries@) == if ents@[0].index <= old(self).offset {
                views(ents@)
            } else {
                views(old(self).entries@.subrange(0, ents@[0].index - old(self).offset))
                    + views(ents@)
            },
    {
        let first = ents[0].index;
        let ghost olde = self.entries@;
        if first <= self.offset {
            self.offset = first;
            self.entries = Vec::new();
            push_copies(&mut self.entries, ents);
            assert(views(Seq::<Entry>::empty()) =~= Seq::empty());
            assert(views(self.entries@) =~= views(ents@));
        } else {
            let keep = (first - self.offset) as usize;
            self.entries.truncate(keep);
            push_copies(&mut self.entries, ents);
            assert(views(self.entries@) =~= views(olde.subrange(0, keep as int)) + views(ents@));
        }
        let ghost ne = self.entries@;
        assert forall|k: int| 0 <= k < ne.len() implies #[trigger] ne[k].index == self.offset
            + k by {
            assert(views(ne)[k] == ne[k]@);
            if first <= old(self).offset {
                assert(views(ents@)[k] == ents@[k]@);
            } else {
                let keep = first - old(self).offset;
                if k < keep {
                    assert(views(olde.subrange(0, keep))[k] == olde[k]@);
                } else {
                    assert(views(ents@)[k - keep] == ents@[k - keep]@);
                }
            }
        }
        assert(ne.len() == views(ne).len());
    }
}

} // verus!
