use raft::inflights::Inflights;
use raft::progress::{Progress, ProgressState};

#[test]
fn become_replicate_then_optimistic_and_maybe_update() {
    let mut p = Progress::new(11, 4);
    assert_eq!(p.matched, 0);
    assert_eq!(p.state, ProgressState::Probe);
    p.become_replicate();
    assert_eq!((p.matched, p.next, p.state), (0, 1, ProgressState::Replicate));
    p.optimistic_update(5);
    assert_eq!(p.next, 6);
    p.optimistic_update(10);
    assert_eq!(p.next, 11);
    assert!(p.maybe_update(8));
    assert_eq!(p.matched, 8);
    assert_eq!(p.next, 11);
}

#[test]
fn rejection_falls_back_to_probe() {
    let mut p = Progress::new(11, 4);
    p.become_replicate();
    p.optimistic_update(5);
    p.optimistic_update(10);
    assert!(p.maybe_update(8));
    p.become_probe();
    assert_eq!((p.matched, p.next, p.state), (8, 9, ProgressState::Probe));
}

#[test]
fn maybe_update_sequence_keeps_order() {
    let mut p = Progress::new(1, 2);
    let mut last_matched = p.matched;
    for n in [3u64, 1, 7, 7, 2, 10, 0] {
        p.maybe_update(n);
        assert!(p.matched >= last_matched);
        assert!(p.next >= p.matched + 1);
        last_matched = p.matched;
    }
    assert_eq!(p.matched, 10);
    assert_eq!(p.next, 11);
}

#[test]
fn maybe_update_not_above_matched() {
    let mut p = Progress::new(6, 2);
    assert!(p.maybe_update(5));
    p.pause();
    assert!(!p.maybe_update(3));
    assert_eq!(p.matched, 5);
    assert_eq!(p.next, 6);
    assert!(p.paused);
    assert!(p.maybe_update(6));
    assert!(!p.paused);
}

#[test]
fn probe_ack_moves_to_replicate() {
    let mut p = Progress::new(5, 3);
    assert!(p.maybe_update(4));
    p.become_replicate();
    assert_eq!((p.matched, p.next, p.state), (4, 5, ProgressState::Replicate));
}

#[test]
fn snapshot_success_and_failure() {
    let mut p = Progress::new(5, 3);
    p.maybe_update(3);
    p.become_snapshot(20);
    assert_eq!(p.state, ProgressState::Snapshot);
    assert_eq!(p.pending_snapshot, 20);
    assert!(p.is_paused());
    assert!(!p.need_snapshot_failure());
    p.become_probe();
    assert_eq!((p.matched, p.next, p.state), (3, 21, ProgressState::Probe));
    assert_eq!(p.pending_snapshot, 0);

    let mut q = Progress::new(5, 3);
    q.maybe_update(3);
    q.become_snapshot(20);
    q.snapshot_failure();
    assert_eq!(q.pending_snapshot, 0);
    assert!(q.need_snapshot_failure());
    q.become_probe();
    assert_eq!((q.matched, q.next, q.state), (3, 4, ProgressState::Probe));
}

#[test]
fn need_snapshot_failure_once_matched_reaches_snapshot() {
    let mut p = Progress::new(5, 3);
    p.become_snapshot(10);
    assert!(!p.need_snapshot_failure());
    p.maybe_update(10);
    assert!(p.need_snapshot_failure());
}

#[test]
fn paused_by_state() {
    let mut p = Progress::new(1, 2);
    assert!(!p.is_paused());
    p.pause();
    assert!(p.is_paused());
    p.resume();
    assert!(!p.is_paused());
    p.become_replicate();
    assert!(p.ins.add(1));
    assert!(!p.is_paused());
    assert!(p.ins.add(2));
    assert!(p.is_paused());
    p.reset_state(ProgressState::Replicate);
    assert!(!p.is_paused());
    assert_eq!(p.ins.count, 0);
    assert_eq!(p.ins.size, 2);
}

#[test]
fn default_state_is_probe() {
    assert_eq!(ProgressState::default(), ProgressState::Probe);
}

#[test]
fn inflights_add_until_full() {
    let mut ins = Inflights::new(3);
    assert!(!ins.full());
    assert!(ins.add(1));
    assert!(ins.add(2));
    assert!(ins.add(3));
    assert!(ins.full());
    let (start, count, buffer) = (ins.start, ins.count, ins.buffer.clone());
    assert!(!ins.add(4));
    assert_eq!((ins.start, ins.count, ins.buffer.clone()), (start, count, buffer));
    assert!(ins.count <= ins.size);
}

#[test]
fn inflights_free_to_removes_prefix() {
    let mut ins = Inflights::new(4);
    for i in [2u64, 4, 6, 8] {
        assert!(ins.add(i));
    }
    ins.free_to(5);
    assert_eq!(ins.count, 2);
    ins.free_to(1);
    assert_eq!(ins.count, 2);
    assert!(ins.add(9));
    assert!(ins.add(12));
    assert!(ins.full());
    ins.free_to(9);
    assert_eq!(ins.count, 1);
    assert_eq!(ins.buffer[ins.start], 12);
    ins.free_to(100);
    assert_eq!(ins.count, 0);
}

#[test]
fn inflights_free_to_stops_at_first_larger() {
    let mut ins = Inflights::new(4);
    for i in [5u64, 3, 1] {
        assert!(ins.add(i));
    }
    ins.free_to(4);
    assert_eq!(ins.count, 3);
    assert_eq!(ins.buffer[ins.start], 5);
    ins.free_to(5);
    assert_eq!(ins.count, 0);
}

#[test]
fn inflights_free_first_one_and_wrap() {
    let mut ins = Inflights::new(2);
    ins.free_first_one();
    assert_eq!(ins.count, 0);
    assert!(ins.add(1));
    assert!(ins.add(2));
    ins.free_first_one();
    assert_eq!(ins.count, 1);
    assert!(ins.add(3));
    assert_eq!(ins.buffer[ins.start], 2);
    ins.free_first_one();
    assert_eq!(ins.buffer[ins.start], 3);
    ins.reset();
    assert_eq!(ins.count, 0);
    assert!(ins.add(7));
}

#[test]
fn inflights_of_size_zero_are_full() {
    let mut ins = Inflights::new(0);
    assert!(ins.full());
    assert!(!ins.add(1));
    ins.free_to(10);
    assert_eq!(ins.count, 0);
}

#[test]
fn defaults_are_empty() {
    let p = Progress::default();
    assert_eq!((p.matched, p.next, p.state, p.paused), (0, 0, ProgressState::Probe, false));
    assert_eq!(p.ins.size, 0);
    let ins = Inflights::default();
    assert_eq!((ins.start, ins.count, ins.size), (0, 0, 0));
}

#[test]
fn reset_keeps_buffer() {
    let mut p = Progress::new(1, 3);
    p.become_replicate();
    assert!(p.ins.add(4));
    assert!(p.ins.add(5));
    p.ins.free_first_one();
    let buffer = p.ins.buffer.clone();
    p.become_probe();
    assert_eq!((p.ins.start, p.ins.count, p.ins.size), (0, 0, 3));
    assert_eq!(p.ins.buffer, buffer);
}
