use vstd::prelude::*;
use crate::errors::{Error, StorageError};
use crate::storage::Storage;
use crate::unstable::{contiguous, views, Entry, Unstable};

verus! {

/// The log as one sequence: durable storage followed by the unstable tail,
/// with the committed and applied positions.
pub struct RaftLog<T: Storage> {
    /// all stable entries since the last snapshot
    pub storage: T,
    /// entries and snapshot not yet saved to storage
    pub unstable: Unstable,
    /// highest index known to be stored on a quorum
    pub committed: u64,
    /// highest index the state machine has been told to apply
    pub applied: u64,
    /// label of this log in diagnostics
    pub tag: String,
}

impl<T: Storage> RaftLog<T> {
    pub open spec fn wf(&self) -> bool {
        &&& self.storage.valid()
        &&& self.unstable.wf()
        &&& self.applied <= self.committed
        &&& (self.unstable.entries@.len() == 0 && self.unstable.snapshot is None)
            ==> self.storage.spec_last_index() == Ok::<u64, Error>((self.unstable.offset - 1) as u64)
    }

    /// The unstable tail's answer, else storage's.
    pub open spec fn spec_first_index(&self) -> Result<u64, Error> {
        match self.unstable.spec_first_index() {
            Some(i) => Ok(i),
            None => self.storage.spec_first_index(),
        }
    }

    /// The unstable tail's answer, else storage's.
    pub open spec fn spec_last_index(&self) -> Result<u64, Error> {
        match self.unstable.spec_last_index() {
            Some(i) => Ok(i),
            None => self.storage.spec_last_index(),
        }
    }

    /// The term of the index `d` just before `first_index()`: that of a
    /// snapshot ending at `d`, held in the unstable tail or underlying
    /// storage, and 0 when no snapshot ends there.
    pub open spec fn spec_dummy_term(&self, d: u64) -> Result<u64, Error> {
        match self.unstable.snapshot {
            Some(s) if s.index == d => Ok(s.term),
            _ => match self.storage.spec_first_index() {
                Err(e) => Err(e),
                Ok(sf) => if sf - 1 == d {
                    self.storage.spec_term(d)
                } else {
                    Ok(0)
                },
            },
        }
    }

    /// Term 0 outside `[first_index() - 1, last_index()]`; at
    /// `first_index() - 1` the sentinel term; inside, the unstable tail's
    /// term, else storage's answer.
    pub open spec fn spec_term(&self, i: u64) -> Result<u64, Error> {
        match self.spec_first_index() {
            Err(e) => Err(e),
            Ok(f) => if i < f - 1 {
                Ok(0)
            } else if i == f - 1 {
                self.spec_dummy_term(i)
            } else {
                match self.spec_last_index() {
                    Err(e) => Err(e),
                    Ok(l) => if i > l {
                        Ok(0)
                    } else {
                        match self.unstable.spec_term(i) {
                            Some(t) => Ok(t),
                            None => self.storage.spec_term(i),
                        }
                    },
                }
            },
        }
    }

    /// A log over `storage` in which everything up to the storage's snapshot
    /// is committed and applied, with an empty unstable tail after the last
    /// stored entry. Fails with the storage's error if it cannot report its
    /// bounds.
    pub fn new(storage: T, tag: String) -> (r: Result<RaftLog<T>, Error>)
        requires
            storage.valid(),
        ensures
            storage.spec_first_index() is Err ==> r == Err::<RaftLog<T>, Error>(
                storage.spec_first_index()->Err_0,
            ),
            storage.spec_first_index() is Ok && storage.spec_last_index() is Err ==> r == Err::<
                RaftLog<T>,
                Error,
            >(storage.spec_last_index()->Err_0),
            r is Ok <==> (storage.spec_first_index() is Ok && storage.spec_last_index() is Ok),
            r matches Ok(log) ==> {
                &&& log.wf()
                &&& log.storage == storage
                &&& log.tag@ == tag@
                &&& log.committed == storage.spec_first_index()->Ok_0 - 1
                &&& log.applied == log.committed
                &&& log.unstable.offset == storage.spec_last_index()->Ok_0 + 1
                &&& log.unstable.entries@.len() == 0
                &&& log.unstable.snapshot is None
            },
    {
        let first_index = match storage.first_index() {
            Ok(i) => i,
            Err(e) => return Err(e),
        };
        let last_index = match storage.last_index() {
            Ok(i) => i,
            Err(e) => return Err(e),
        };
        Ok(
            RaftLog {
                storage,
                committed: first_index - 1,
                applied: first_index - 1,
                unstable: Unstable::new(last_index + 1),
                tag,
            },
        )
    }

    pub fn last_index(&self) -> (r: Result<u64, Error>)
        requires
            self.wf(),
        ensures
            r == self.spec_last_index(),
            r is Ok ==> r->Ok_0 < u64::MAX - 1,
    {
        match self.unstable.maybe_last_index() {
            Some(i) => Ok(i),
            None => self.storage.last_index(),
        }
    }

    pub fn first_index(&self) -> (r: Result<u64, Error>)
        requires
            self.wf(),
        ensures
            r == self.spec_first_index(),
            r is Ok ==> r->Ok_0 >= 1,
    {
        match self.unstable.maybe_first_index() {
            Some(i) => Ok(i),
            None => self.storage.first_index(),
        }
    }

    /// Moves `applied` to `i`; nothing happens for `i == 0`, and an `i`
    /// outside `[applied, committed]` is refused with nothing changed.
    pub fn applied_to(&mut self, i: u64) -> (r: Result<(), Error>)
        requires
            old(self).wf(),
        ensures
            final(self).wf(),
            final(self).storage == old(self).storage,
            final(self).unstable == old(self).unstable,
            final(self).committed == old(self).committed,
            final(self).tag == old(self).tag,
            i == 0 ==> r is Ok && final(self).applied == old(self).applied,
            i != 0 && (i < old(self).applied || i > old(self).committed) ==> r == Err::<(), Error>(
                Error::AppliedOutOfRange,
            ) && final(self).applied == old(self).applied,
            i != 0 && old(self).applied <= i <= old(self).committed ==> r is Ok
                && final(self).applied == i,
    {
        if i == 0 {
            return Ok(());
        }
        if i > self.committed || i < self.applied {
            return Err(Error::AppliedOutOfRange);
        }
        self.applied = i;
        Ok(())
    }

    /// The term of the last entry.
    pub fn last_term(&self) -> (r: Result<u64, Error>)
        requires
            self.wf(),
        ensures
            self.spec_last_index() is Err ==> r == Err::<u64, Error>(
                self.spec_last_index()->Err_0,
            ),
            self.spec_last_index() matches Ok(l) ==> r == self.spec_term(l),
    {
        match self.last_index() {
            Ok(l) => self.term(l),
            Err(e) => Err(e),
        }
    }

    /// The term of entry `i`: 0 outside `[first_index() - 1, last_index()]`;
    /// at `first_index() - 1` the term of a snapshot ending there, else 0;
    /// above it from the unstable tail or from storage, whose errors are
    /// passed on.
    pub fn term(&self, i: u64) -> (r: Result<u64, Error>)
        requires
            self.wf(),
        ensures
            r == self.spec_term(i),
    {
        let dummy_index = match self.first_index() {
            Ok(f) => f - 1,
            Err(e) => return Err(e),
        };
        if i < dummy_index {
            return Ok(0);
        }
        if i == dummy_index {
            return self.dummy_term(i);
        }
        let last = match self.last_index() {
            Ok(l) => l,
            Err(e) => return Err(e),
        };
        if i > last {
            return Ok(0);
        }
        if let Some(t) = self.unstable.maybe_term(i) {
            return Ok(t);
        }
        self.storage.term(i)
    }

    /// The sentinel term of the index just before `first_index()`.
    fn dummy_term(&self, d: u64) -> (r: Result<u64, Error>)
        requires
            self.wf(),
        ensures
            r == self.spec_dummy_term(d),
    {
        if let Some(s) = self.unstable.snapshot {
            if s.index == d {
                return Ok(s.term);
            }
        }
        match self.storage.first_index() {
            Err(e) => Err(e),
            Ok(sf) => if sf - 1 == d {
                self.storage.term(d)
            } else {
                Ok(0)
            },
        }
    }

    pub fn get_applied(&self) -> (r: u64)
        ensures
            r == self.applied,
    {
        self.applied
    }

    pub fn get_storage(&self) -> (r: &T)
        ensures
            *r == self.storage,
    {
        &self.storage
    }

    /// Appends `ents` to the unstable tail and returns the new last index.
    /// Empty `ents` change nothing. Refused, with nothing changed, when the
    /// entry before them is below `committed`, or when they would leave a
    /// hole after the tail.
    pub fn append(&mut self, ents: &[Entry]) -> (r: Result<u64, Error>)
        requires
            old(self).wf(),
            contiguous(ents@),
        ensures
            final(self).wf(),
            final(self).storage == old(self).storage,
            final(self).committed == old(self).committed,
            final(self).applied == old(self).applied,
            final(self).tag == old(self).tag,
            old(self).spec_last_index() is Ok,
            ents@.len() == 0 ==> r == old(self).spec_last_index() && final(self).unstable
                == old(self).unstable,
            ents@.len() > 0 && ents@[0].index - 1 < old(self).committed ==> r == Err::<
                u64,
                Error,
            >(Error::AppendBeforeCommitted) && final(self).unstable == old(self).unstable,
            ents@.len() > 0 && ents@[0].index - 1 >= old(self).committed && ents@[0].index
                > old(self).spec_last_index()->Ok_0 + 1 ==> r == Err::<
                u64,
                Error,
            >(Error::AppendGap) && final(self).unstable == old(self).unstable,
            ents@.len() > 0 && ents@[0].index - 1 >= old(self).committed && ents@[0].index
                <= old(self).spec_last_index()->Ok_0 + 1 ==> {
                &&& r == Ok::<u64, Error>((ents@[0].index + ents@.len() - 1) as u64)
                &&& forall|k: int|
                    0 <= k < ents@.len() ==> final(self).spec_term(#[trigger] ents@[k].index)
                        == Ok::<u64, Error>(ents@[k].term)
                &&& final(self).spec_last_index() == r
                &&& final(self).unstable.snapshot == old(self).unstable.snapshot
                &&& final(self).unstable.offset == if ents@[0].index <= old(self).unstable.offset {
                    ents@[0].index
                } else {
                    old(self).unstable.offset
                }
                &&& views(final(self).unstable.entries@) == if ents@[0].index
                    <= old(self).unstable.offset {
                    views(ents@)
                } else {
                    views(
                        old(self).unstable.entries@.subrange(
                            0,
                            ents@[0].index - old(self).unstable.offset,
                        ),
                    ) + views(ents@)
                }
            },
    {
        if ents.len() == 0 {
            return self.last_index();
        }
        let after = ents[0].index - 1;
        if after < self.committed {
            return Err(Error::AppendBeforeCommitted);
        }
        if ents[0].index > self.unstable.offset + self.unstable.entries.len() as u64 {
            return Err(Error::AppendGap);
        }
        self.unstable.truncate_and_append(ents);
        let ghost ne = self.unstable.entries@;
        assert(views(ne).len() == ne.len());
        let ghost o = self.unstable.offset;
        let ghost keep: int = if ents@[0].index <= old(self).unstable.offset {
            0
        } else {
            ents@[0].index - old(self).unstable.offset
        };
        assert forall|k: int| 0 <= k < ents@.len() implies self.spec_term(
            #[trigger] ents@[k].index,
        ) == Ok::<u64, Error>(ents@[k].term) by {
            assert(views(ents@)[k] == ents@[k]@);
            assert(views(ne)[keep + k] == ne[keep + k]@);
            assert(ne[keep + k].index == o + keep + k);
        }
        self.last_index()
    }

    /// Checks that the slice `[low, high)` can be read from the log: a low
    /// end above the high end is malformed, one before `first_index()` was
    /// compacted away, and a high end past `last_index() + 1` is out of
    /// bounds.
    pub fn must_check_out_of_bounds(&self, low: u64, high: u64) -> (r: Result<(), Error>)
        requires
            self.wf(),
        ensures
            low > high ==> r == Err::<(), Error>(Error::InvalidSlice),
            low <= high ==> match self.spec_first_index() {
                Err(e) => r == Err::<(), Error>(e),
                Ok(f) => if low < f {
                    r == Err::<(), Error>(Error::Storage(StorageError::Compacted))
                } else {
                    match self.spec_last_index() {
                        Err(e) => r == Err::<(), Error>(e),
                        Ok(l) => if high > l + 1 {
                            r == Err::<(), Error>(Error::SliceOutOfBound)
                        } else {
                            r is Ok
                        },
                    }
                },
            },
    {
        if low > high {
            return Err(Error::InvalidSlice);
        }
        let fi = match self.first_index() {
            Ok(f) => f,
            Err(e) => return Err(e),
        };
        if low < fi {
            return Err(Error::Storage(StorageError::Compacted));
        }
        let hi = match self.last_index() {
            Ok(l) => l + 1,
            Err(e) => return Err(e),
        };
        if high > hi {
            return Err(Error::SliceOutOfBound);
        }
        Ok(())
    }
}

/// Term lookups outside `[first_index() - 1, last_index()]` give term 0.
pub proof fn lemma_term_outside_range<T: Storage>(log: RaftLog<T>, i: u64)
    requires
        log.spec_first_index() is Ok,
        log.spec_last_index() is Ok,
        log.spec_first_index()->Ok_0 - 1 <= log.spec_last_index()->Ok_0,
        i < log.spec_first_index()->Ok_0 - 1 || i > log.spec_last_index()->Ok_0,
    ensures
        log.spec_term(i) == Ok::<u64, Error>(0),
{
}

/// At the index just before `first_index()` the term is 0, unless a
/// snapshot ending there (in the unstable tail, or the one storage starts
/// after) gives its own term.
pub proof fn lemma_term_at_dummy<T: Storage>(log: RaftLog<T>)
    requires
        log.spec_first_index() is Ok,
        log.spec_last_index() is Ok,
        log.spec_first_index()->Ok_0 >= 1,
        log.spec_first_index()->Ok_0 - 1 <= log.spec_last_index()->Ok_0,
    ensures
        ({
            let d = (log.spec_first_index()->Ok_0 - 1) as u64;
            &&& log.spec_term(d) == log.spec_dummy_term(d)
            &&& (!(log.unstable.snapshot matches Some(s) && s.index == d)
                && log.storage.spec_first_index() is Ok && log.storage.spec_first_index()->Ok_0
                - 1 != d) ==> log.spec_term(d) == Ok::<u64, Error>(0)
        }),
{
}

} // verus!
