use pinball::rng::seeded_rng;
use pinball::sphere::PortalPlacement;
use rand_chacha::ChaCha8Rng;
use std::collections::HashSet;

fn test_rng() -> ChaCha8Rng {
    seeded_rng(42)
}

#[test]
fn allocates_unique_cell_indices() {
    let mut rng = test_rng();
    let mut placement = PortalPlacement::new(100, &mut rng);
    let mut allocated = HashSet::new();

    for _ in 0..50 {
        let idx = placement.allocate(None).unwrap();
        assert!(!allocated.contains(&idx));
        allocated.insert(idx);
    }
}

#[test]
fn returns_none_when_all_allocated() {
    let mut rng = test_rng();
    let mut placement = PortalPlacement::new(10, &mut rng);

    for _ in 0..10 {
        assert!(placement.allocate(None).is_some());
    }
    assert!(placement.allocate(None).is_none());
}

#[test]
fn available_count_decreases() {
    let mut rng = test_rng();
    let mut placement = PortalPlacement::new(100, &mut rng);
    assert_eq!(placement.available_count(), 100);
    placement.allocate(None);
    assert_eq!(placement.available_count(), 99);
    placement.allocate(None);
    assert_eq!(placement.available_count(), 98);
}

#[test]
fn total_count_returns_cell_count() {
    let mut rng = test_rng();
    let placement = PortalPlacement::new(200, &mut rng);
    assert_eq!(placement.total_count(), 200);
}

#[test]
fn resume_token_reclaims_released_cell() {
    let mut rng = test_rng();
    let mut placement = PortalPlacement::new(100, &mut rng);
    let idx1 = placement.allocate(Some("player-123")).unwrap();
    placement.release(idx1);
    let idx2 = placement.allocate(Some("player-123")).unwrap();
    assert_eq!(idx1, idx2);
}

#[test]
fn different_tokens_get_different_indices() {
    let mut rng = test_rng();
    let mut placement = PortalPlacement::new(100, &mut rng);
    let idx1 = placement.allocate(Some("player-1")).unwrap();
    let idx2 = placement.allocate(Some("player-2")).unwrap();
    assert_ne!(idx1, idx2);
}

#[test]
fn all_cells_are_handed_out_exactly_once() {
    let mut rng = test_rng();
    let mut placement = PortalPlacement::new(64, &mut rng);
    let mut seen = HashSet::new();
    while let Some(c) = placement.allocate(None) {
        assert!(c < 64);
        assert!(seen.insert(c));
    }
    assert_eq!(seen.len(), 64);
    assert_eq!(placement.available_count(), 0);
}

#[test]
fn releasing_a_free_cell_changes_nothing() {
    let mut rng = test_rng();
    let mut placement = PortalPlacement::new(5, &mut rng);
    let c = placement.allocate(None).unwrap();
    placement.release(c);
    assert_eq!(placement.available_count(), 5);
    placement.release(c);
    assert_eq!(placement.available_count(), 5);
    // the released cell is handed out next
    assert_eq!(placement.allocate(None), Some(c));
}

#[test]
fn token_does_not_reclaim_a_taken_cell() {
    let mut rng = test_rng();
    let mut placement = PortalPlacement::new(3, &mut rng);
    let a = placement.allocate(Some("a")).unwrap();
    // cell `a` is still taken, so the token gets a different one
    let b = placement.allocate(Some("a")).unwrap();
    assert_ne!(a, b);
    placement.release(a);
    // the token now remembers `b`, which is still taken
    let c = placement.allocate(Some("a")).unwrap();
    assert_ne!(c, b);
}

#[test]
fn allocate_then_release_restores_placement() {
    let mut rng1 = test_rng();
    let mut rng2 = test_rng();
    let mut p1 = PortalPlacement::new(12, &mut rng1);
    let mut p2 = PortalPlacement::new(12, &mut rng2);
    let c = p1.allocate(None).unwrap();
    p1.release(c);
    let mut seq1 = Vec::new();
    while let Some(x) = p1.allocate(None) {
        seq1.push(x);
    }
    let mut seq2 = Vec::new();
    while let Some(x) = p2.allocate(None) {
        seq2.push(x);
    }
    assert_eq!(seq1, seq2);
    assert_eq!(seq1.len(), 12);
}
