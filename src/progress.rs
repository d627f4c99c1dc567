use vstd::prelude::*;
use crate::inflights::Inflights;

verus! {

/// The leader's replication mode for one follower.
#[derive(Debug, Clone, Copy, PartialEq, Eq, Structural)]
pub enum ProgressState {
    /// at most one replication message per heartbeat, waiting for each reply
    Probe,
    /// entries are streamed without waiting, bounded by the inflight window
    Replicate,
    /// a snapshot is being sent; no replication messages go out
    Snapshot,
}

impl Default for ProgressState {
    fn default() -> (r: ProgressState)
        ensures
            r == ProgressState::Probe,
    {
        ProgressState::Probe
    }
}

/// The abstract state of a follower's progress: the inflight window is seen
/// as the sequence of indices it records.
pub struct ProgressModel {
    pub matched: u64,
    pub next: u64,
    pub state: ProgressState,
    pub paused: bool,
    pub pending_snapshot: u64,
    pub recent_active: bool,
    pub is_learner: bool,
    pub inflights: Seq<u64>,
    pub inflight_cap: nat,
}

impl ProgressModel {
    /// Enters `state` with no pause, no pending snapshot and an empty window.
    pub open spec fn reset_state(self, state: ProgressState) -> ProgressModel {
        ProgressModel {
            paused: false,
            pending_snapshot: 0,
            state,
            inflights: Seq::empty(),
            ..self
        }
    }

    /// Back to probing: from `next = matched + 1`, or after the pending
    /// snapshot when leaving the snapshot state.
    pub open spec fn become_probe(self) -> ProgressModel {
        let next = if self.state == ProgressState::Snapshot && self.pending_snapshot
            > self.matched {
            self.pending_snapshot + 1
        } else {
            self.matched + 1
        };
        ProgressModel { next: next as u64, ..self.reset_state(ProgressState::Probe) }
    }

    /// Streaming from the entry after the matched one.
    pub open spec fn become_replicate(self) -> ProgressModel {
        ProgressModel {
            next: (self.matched + 1) as u64,
            ..self.reset_state(ProgressState::Replicate)
        }
    }

    /// Sending a snapshot that ends at `index`.
    pub open spec fn become_snapshot(self, index: u64) -> ProgressModel {
        ProgressModel { pending_snapshot: index, ..self.reset_state(ProgressState::Snapshot) }
    }

    /// An acknowledgment up to `n`: `matched` rises to `n` (and unpauses) if
    /// below it, and `next` to at least `n + 1`.
    pub open spec fn maybe_update(self, n: u64) -> ProgressModel {
        let raised = if self.matched < n {
            ProgressModel { matched: n, paused: false, ..self }
        } else {
            self
        };
        if self.next < n + 1 {
            ProgressModel { next: (n + 1) as u64, ..raised }
        } else {
            raised
        }
    }

    /// Whether sending to this follower is throttled.
    pub open spec fn is_paused(self) -> bool {
        match self.state {
            ProgressState::Probe => self.paused,
            ProgressState::Replicate => self.inflights.len() == self.inflight_cap,
            ProgressState::Snapshot => true,
        }
    }
}

/// The progress after acknowledgments up to each of `ns` in turn.
pub open spec fn after_updates(p: ProgressModel, ns: Seq<u64>) -> ProgressModel
    decreases ns.len(),
{
    if ns.len() == 0 {
        p
    } else {
        after_updates(p.maybe_update(ns[0]), ns.drop_first())
    }
}

/// Through any sequence of acknowledgments, `matched` never decreases, and
/// `next` stays above `matched`: each prefix of the sequence is itself a
/// sequence, so this holds after every call.
pub proof fn lemma_updates_keep_order(p: ProgressModel, ns: Seq<u64>)
    requires
        p.matched < p.next,
        forall|k: int| 0 <= k < ns.len() ==> ns[k] < u64::MAX,
    ensures
        after_updates(p, ns).matched >= p.matched,
        after_updates(p, ns).matched < after_updates(p, ns).next,
    decreases ns.len(),
{
    if ns.len() > 0 {
        let rest = ns.drop_first();
        assert forall|k: int| 0 <= k < rest.len() implies rest[k] < u64::MAX by {
            assert(rest[k] == ns[k + 1]);
        }
        lemma_updates_keep_order(p.maybe_update(ns[0]), rest);
    }
}

/// The state diagram: a probing follower that acknowledges an index above
/// its matched one replicates from the entry after it; a rejection while
/// replicating probes from `matched + 1`; entering the snapshot state records
/// the snapshot; a snapshot that succeeded, at or above `matched`, is
/// followed by probing from the entry after it.
pub proof fn lemma_state_transitions(p: ProgressModel, n: u64, snap: u64)
    requires
        n < u64::MAX,
        p.matched < u64::MAX,
        snap < u64::MAX,
    ensures
        p.state == ProgressState::Probe && n > p.matched ==> {
            let q = p.maybe_update(n).become_replicate();
            q.state == ProgressState::Replicate && q.matched == n && q.next == q.matched + 1
        },
        p.state == ProgressState::Replicate ==> {
            let q = p.become_probe();
            q.state == ProgressState::Probe && q.next == p.matched + 1 && q.matched == p.matched
        },
        p.become_snapshot(snap).state == ProgressState::Snapshot,
        p.become_snapshot(snap).pending_snapshot == snap,
        snap >= p.matched ==> {
            let q = p.become_snapshot(snap).become_probe();
            q.state == ProgressState::Probe && q.next == snap + 1
        },
{
}

/// A follower's replication progress as the leader sees it.
#[derive(Debug)]
pub struct Progress {
    /// highest index known to be replicated on the follower; 0 when unknown
    pub matched: u64,
    /// first index to send next
    pub next: u64,
    pub state: ProgressState,
    /// backoff flag of the probe state
    pub paused: bool,
    /// index of a snapshot sent and not yet confirmed; 0 when none
    pub pending_snapshot: u64,
    pub recent_active: bool,
    pub ins: Inflights,
    pub is_learner: bool,
}

impl Default for Progress {
    /// A probing progress at index 0 with a window of no capacity.
    fn default() -> (r: Progress)
        ensures
            r.wf(),
            r@ == (ProgressModel {
                matched: 0,
                next: 0,
                state: ProgressState::Probe,
                paused: false,
                pending_snapshot: 0,
                recent_active: false,
                is_learner: false,
                inflights: Seq::empty(),
                inflight_cap: 0,
            }),
    {
        Progress::new(0, 0)
    }
}

impl Progress {
    pub open spec fn wf(&self) -> bool {
        self.ins.wf()
    }

    pub open spec fn view(&self) -> ProgressModel {
        ProgressModel {
            matched: self.matched,
            next: self.next,
            state: self.state,
            paused: self.paused,
            pending_snapshot: self.pending_snapshot,
            recent_active: self.recent_active,
            is_learner: self.is_learner,
            inflights: self.ins@,
            inflight_cap: self.ins.size as nat,
        }
    }

    /// A probing progress that will send from `next`, with a window of
    /// `max_inflight` messages.
    pub fn new(next: u64, max_inflight: usize) -> (r: Progress)
        ensures
            r.wf(),
            r@ == (ProgressModel {
                matched: 0,
                next,
                state: ProgressState::Probe,
                paused: false,
                pending_snapshot: 0,
                recent_active: false,
                is_learner: false,
                inflights: Seq::empty(),
                inflight_cap: max_inflight as nat,
            }),
    {
        Progress {
            matched: 0,
            next,
            state: ProgressState::Probe,
            paused: false,
            pending_snapshot: 0,
            recent_active: false,
            ins: Inflights::new(max_inflight),
            is_learner: false,
        }
    }

    pub fn reset_state(&mut self, state: ProgressState)
        requires
            old(self).wf(),
        ensures
            final(self).wf(),
            final(self)@ == old(self)@.reset_state(state),
            final(self).ins.start == 0,
            final(self).ins.count == 0,
            final(self).ins.size == old(self).ins.size,
            final(self).ins.buffer == old(self).ins.buffer,
    {
        self.paused = false;
        self.pending_snapshot = 0;
        self.state = state;
        self.ins.reset();
    }

    pub fn become_probe(&mut self)
        requires
            old(self).wf(),
            old(self).matched < u64::MAX,
            old(self).state == ProgressState::Snapshot ==> old(self).pending_snapshot < u64::MAX,
        ensures
            final(self).wf(),
            final(self)@ == old(self)@.become_probe(),
            final(self).ins.start == 0,
            final(self).ins.count == 0,
            final(self).ins.size == old(self).ins.size,
            final(self).ins.buffer == old(self).ins.buffer,
    {
        if self.state == ProgressState::Snapshot {
            let pending_snapshot = self.pending_snapshot;
            self.reset_state(ProgressState::Probe);
            self.next = if self.matched < pending_snapshot {
                pending_snapshot + 1
            } else {
                self.matched + 1
            };
        } else {
            self.reset_state(ProgressState::Probe);
            self.next = self.matched + 1;
        }
    }

    pub fn become_replicate(&mut self)
        requires
            old(self).wf(),
            old(self).matched < u64::MAX,
        ensures
            final(self).wf(),
            final(self)@ == old(self)@.become_replicate(),
            final(self).ins.start == 0,
            final(self).ins.count == 0,
            final(self).ins.size == old(self).ins.size,
            final(self).ins.buffer == old(self).ins.buffer,
    {
        self.reset_state(ProgressState::Replicate);
        self.next = self.matched + 1;
    }

    pub fn become_snapshot(&mut self, index: u64)
        requires
            old(self).wf(),
        ensures
            final(self).wf(),
            final(self)@ == old(self)@.become_snapshot(index),
            final(self).ins.start == 0,
            final(self).ins.count == 0,
            final(self).ins.size == old(self).ins.size,
            final(self).ins.buffer == old(self).ins.buffer,
    {
        self.reset_state(ProgressState::Snapshot);
        self.pending_snapshot = index;
    }

    /// Lifts the probe backoff.
    pub fn resume(&mut self)
        ensures
            final(self)@ == (ProgressModel { paused: false, ..old(self)@ }),
            final(self).ins == old(self).ins,
    {
        self.paused = false;
    }

    /// Sets the probe backoff.
    pub fn pause(&mut self)
        ensures
            final(self)@ == (ProgressModel { paused: true, ..old(self)@ }),
            final(self).ins == old(self).ins,
    {
        self.paused = true;
    }

    /// Records an acknowledgment up to `n`; returns whether `matched` rose.
    pub fn maybe_update(&mut self, n: u64) -> (r: bool)
        requires
            old(self).wf(),
            n < u64::MAX,
        ensures
            final(self).wf(),
            final(self)@ == old(self)@.maybe_update(n),
            final(self).ins == old(self).ins,
            r == (old(self).matched < n),
            final(self).matched >= old(self).matched,
            old(self).matched < old(self).next ==> final(self).matched < final(self).next,
    {
        let mut updated = false;
        if self.matched < n {
            self.matched = n;
            updated = true;
            self.resume();
        }
        if self.next < n + 1 {
            self.next = n + 1;
        }
        updated
    }

    /// After sending entries up to `n`, expects the follower's next need to
    /// be `n + 1`.
    pub fn optimistic_update(&mut self, n: u64)
        requires
            n < u64::MAX,
        ensures
            final(self)@ == (ProgressModel { next: (n + 1) as u64, ..old(self)@ }),
            final(self).ins == old(self).ins,
    {
        self.next = n + 1;
    }

    pub fn is_paused(&self) -> (r: bool)
        ensures
            r == self@.is_paused(),
    {
        match self.state {
            ProgressState::Probe => self.paused,
            ProgressState::Replicate => self.ins.full(),
            ProgressState::Snapshot => true,
        }
    }

    /// Forgets the pending snapshot.
    pub fn snapshot_failure(&mut self)
        ensures
            final(self)@ == (ProgressModel { pending_snapshot: 0, ..old(self)@ }),
            final(self).ins == old(self).ins,
    {
        self.pending_snapshot = 0;
    }

    /// Whether a snapshot is being sent that the follower's matched index has
    /// already reached, so the send is moot.
    pub fn need_snapshot_failure(&self) -> (r: bool)
        ensures
            r == (self.state == ProgressState::Snapshot && self.matched >= self.pending_snapshot),
    {
        self.state == ProgressState::Snapshot && self.matched >= self.pending_snapshot
    }
}

} // verus!
