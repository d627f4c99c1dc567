use vstd::prelude::*;
use crate::errors::{Error, StorageError};
use crate::unstable::{Entry, SnapshotMetadata};

verus! {

/// Durable, ordered storage of the log up to its last persisted entry.
/// Lookups may fail; each reports what it returns through a spec function,
/// so that a log built on it can state its own results exactly.
pub trait Storage {
    /// The state in which the lookups below are meaningful.
    spec fn valid(&self) -> bool;

    spec fn spec_first_index(&self) -> Result<u64, Error>;

    spec fn spec_last_index(&self) -> Result<u64, Error>;

    spec fn spec_term(&self, i: u64) -> Result<u64, Error>;

    /// Index of the first entry that is still stored (one past the snapshot,
    /// whose term `term` reports at the index before this one).
    fn first_index(&self) -> (r: Result<u64, Error>)
        requires
            self.valid(),
        ensures
            r == self.spec_first_index(),
            r is Ok ==> r->Ok_0 >= 1,
    ;

    /// Index of the last persisted entry.
    fn last_index(&self) -> (r: Result<u64, Error>)
        requires
            self.valid(),
        ensures
            r == self.spec_last_index(),
            r is Ok ==> r->Ok_0 < u64::MAX - 1,
    ;

    /// Term of entry `i`.
    fn term(&self, i: u64) -> (r: Result<u64, Error>)
        requires
            self.valid(),
        ensures
            r == self.spec_term(i),
    ;
}

/// Storage held in memory: the snapshot it starts from and the entries after
/// it.
#[derive(Debug)]
pub struct MemStorage {
    pub snapshot: SnapshotMetadata,
    pub entries: Vec<Entry>,
}

impl MemStorage {
    /// An empty storage: snapshot at index 0 with term 0.
    pub fn new() -> (r: MemStorage)
        ensures
            r.valid(),
            r.snapshot == (SnapshotMetadata { index: 0, term: 0 }),
            r.entries@.len() == 0,
    {
        MemStorage { snapshot: SnapshotMetadata { index: 0, term: 0 }, entries: Vec::new() }
    }

    /// A storage holding `entries` after `snapshot`; `None` unless they are
    /// numbered consecutively from the index after the snapshot's and leave
    /// room for two more indices.
    pub fn from_parts(snapshot: SnapshotMetadata, entries: Vec<Entry>) -> (r: Option<MemStorage>)
        ensures
            r is Some <==> (snapshot.index + entries@.len() < u64::MAX - 1 && forall|k: int|
                0 <= k < entries@.len() ==> #[trigger] entries@[k].index == snapshot.index + 1
                    + k),
            r matches Some(s) ==> s.valid() && s.snapshot == snapshot && s.entries@
                == entries@,
    {
        if snapshot.index >= u64::MAX - 1 || entries.len() as u64 >= u64::MAX - 1
            - snapshot.index {
            return None;
        }
        let mut k: usize = 0;
        while k < entries.len()
            invariant
                k <= entries@.len(),
                snapshot.index + entries@.len() < u64::MAX - 1,
                forall|j: int| 0 <= j < k ==> #[trigger] entries@[j].index == snapshot.index + 1 + j,
            decreases entries@.len() - k,
        {
            if entries[k].index != snapshot.index + 1 + k as u64 {
                return None;
            }
            k = k + 1;
        }
        Some(MemStorage { snapshot, entries })
    }
}

impl Storage for MemStorage {
    open spec fn valid(&self) -> bool {
        &&& self.snapshot.index + self.entries@.len() < u64::MAX - 1
        &&& forall|k: int|
            0 <= k < self.entries@.len() ==> #[trigger] self.entries@[k].index
                == self.snapshot.index + 1 + k
    }

    open spec fn spec_first_index(&self) -> Result<u64, Error> {
        Ok((self.snapshot.index + 1) as u64)
    }

    open spec fn spec_last_index(&self) -> Result<u64, Error> {
        Ok((self.snapshot.index + self.entries@.len()) as u64)
    }

    open spec fn spec_term(&self, i: u64) -> Result<u64, Error> {
        if i < self.snapshot.index {
            Err(Error::Storage(StorageError::Compacted))
        } else if i == self.snapshot.index {
            Ok(self.snapshot.term)
        } else if i > self.snapshot.index + self.entries@.len() {
            Err(Error::Storage(StorageError::Unavailable))
        } else {
            Ok(self.entries@[i - self.snapshot.index - 1].term)
        }
    }

    fn first_index(&self) -> (r: Result<u64, Error>) {
        Ok(self.snapshot.index + 1)
    }

    fn last_index(&self) -> (r: Result<u64, Error>) {
        Ok(self.snapshot.index + self.entries.len() as u64)
    }

    fn term(&self, i: u64) -> (r: Result<u64, Error>) {
        let si = self.snapshot.index;
        if i < si {
            Err(Error::Storage(StorageError::Compacted))
        } else if i == si {
            Ok(self.snapshot.term)
        } else if i - si > self.entries.len() as u64 {
            Err(Error::Storage(StorageError::Unavailable))
        } else {
            Ok(self.entries[(i - si - 1) as usize].term)
        }
    }
}

} // verus!
