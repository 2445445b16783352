use pinball::snapshots::{SnapshotBuffer, TimeOrder, MAX_SNAPSHOT_BUFFER};

fn contents(b: &SnapshotBuffer<u32>) -> Vec<u32> {
    b.snapshots.iter().copied().collect()
}

#[test]
fn snapshots_in_order_are_appended() {
    let mut b = SnapshotBuffer::new();
    assert!(!b.push(1u32, TimeOrder::Later));
    assert!(!b.push(2, TimeOrder::Later));
    assert!(!b.push(3, TimeOrder::Later));
    assert_eq!(contents(&b), vec![1, 2, 3]);
}

#[test]
fn snapshot_buffer_drops_oldest_beyond_bound() {
    let mut b = SnapshotBuffer::new();
    for i in 0..(MAX_SNAPSHOT_BUFFER as u32 + 3) {
        b.push(i, TimeOrder::Later);
    }
    assert_eq!(b.snapshots.len(), MAX_SNAPSHOT_BUFFER);
    assert_eq!(contents(&b), (3..(MAX_SNAPSHOT_BUFFER as u32 + 3)).collect::<Vec<_>>());
}

#[test]
fn same_time_snapshot_replaces_latest() {
    let mut b = SnapshotBuffer::new();
    b.push(10u32, TimeOrder::Later);
    b.push(20, TimeOrder::Later);
    assert!(!b.push(21, TimeOrder::Same));
    assert_eq!(contents(&b), vec![10, 21]);
}

#[test]
fn earlier_snapshot_restarts_timeline() {
    let mut b = SnapshotBuffer::new();
    b.push(10u32, TimeOrder::Later);
    b.push(20, TimeOrder::Later);
    assert!(b.push(5, TimeOrder::Earlier));
    assert_eq!(contents(&b), vec![5]);
}

#[test]
fn first_snapshot_never_resets() {
    let mut b = SnapshotBuffer::new();
    assert!(!b.push(7u32, TimeOrder::Earlier));
    assert_eq!(contents(&b), vec![7]);
    b.clear();
    assert!(b.snapshots.is_empty());
}

/// A snapshot as the client keeps it, reduced to its server time and the
/// position of its one ball.
type Timed = (f64, (f64, f64, f64));

const SNAPSHOT_EPSILON_SECS: f64 = 1e-6;

fn push_timed(b: &mut SnapshotBuffer<Timed>, server_time: f64, pos: (f64, f64, f64)) -> bool {
    let order = match b.snapshots.back() {
        Some(last) if server_time < last.0 - SNAPSHOT_EPSILON_SECS => TimeOrder::Earlier,
        Some(last) if (server_time - last.0).abs() <= SNAPSHOT_EPSILON_SECS => TimeOrder::Same,
        _ => TimeOrder::Later,
    };
    b.push((server_time, pos), order)
}

#[test]
fn duplicate_server_time_replaces_latest_snapshot() {
    let mut b = SnapshotBuffer::new();
    push_timed(&mut b, 1.0, (1.0, 0.0, 0.0));
    push_timed(&mut b, 1.0, (0.0, 1.0, 0.0));

    assert_eq!(b.snapshots.len(), 1);
    let last = b.snapshots.back().expect("snapshot");
    assert!((last.0 - 1.0).abs() < 1e-9);
    let p = last.1;
    assert!((p.0 - 0.0).abs() < 1e-9 && (p.1 - 1.0).abs() < 1e-9);
}

#[test]
fn out_of_order_server_time_resets_snapshot_timeline() {
    let mut b = SnapshotBuffer::new();
    push_timed(&mut b, 1.0, (1.0, 0.0, 0.0));
    push_timed(&mut b, 1.1, (0.0, 1.0, 0.0));
    assert!(push_timed(&mut b, 0.9, (0.0, 0.0, 1.0)));

    assert_eq!(b.snapshots.len(), 1);
    let last = b.snapshots.back().expect("snapshot");
    assert!((last.0 - 0.9).abs() < 1e-9);
}

#[test]
fn snapshot_buffer_is_capped() {
    let mut b = SnapshotBuffer::new();
    for i in 0..12_u64 {
        let t = 1.0 + i as f64 * 0.1;
        push_timed(&mut b, t, (1.0, 0.0, 0.0));
    }

    assert_eq!(b.snapshots.len(), MAX_SNAPSHOT_BUFFER);
    let first = b.snapshots.front().expect("first");
    let last = b.snapshots.back().expect("last");
    assert!((first.0 - 1.4).abs() < 1e-9);
    assert!((last.0 - 2.1).abs() < 1e-9);
}
