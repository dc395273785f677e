use renderer::pool::RangePool;

#[test]
fn pool_allocates_from_the_front() {
    let mut pool = RangePool::new(0, 100);
    let a = pool.allocate(30).unwrap();
    let b = pool.allocate(20).unwrap();
    assert_eq!(a, 0..30);
    assert_eq!(b, 30..50);
}

#[test]
fn pool_refuses_what_does_not_fit() {
    let mut pool = RangePool::new(0, 10);
    assert_eq!(pool.allocate(11), None);
    assert_eq!(pool.allocate(10), Some(0..10));
    assert_eq!(pool.allocate(1), None);
}

#[test]
fn pool_allocations_never_overlap() {
    let mut pool = RangePool::new(0, 64);
    let a = pool.allocate(16).unwrap();
    let b = pool.allocate(16).unwrap();
    let c = pool.allocate(16).unwrap();
    assert!(pool.release(b.start, b.end));
    let d = pool.allocate(8).unwrap();
    let e = pool.allocate(8).unwrap();
    let live = [a, c, d, e];
    for (i, x) in live.iter().enumerate() {
        assert!(x.end <= 64);
        for (j, y) in live.iter().enumerate() {
            if i != j {
                assert!(x.end <= y.start || y.end <= x.start, "{x:?} overlaps {y:?}");
            }
        }
    }
}

#[test]
fn pool_release_of_unknown_range_fails() {
    let mut pool = RangePool::new(0, 64);
    let a = pool.allocate(16).unwrap();
    assert!(!pool.release(a.start, a.end - 1));
    assert!(pool.release(a.start, a.end));
    assert!(!pool.release(a.start, a.end));
}

#[test]
fn pool_growth_keeps_offsets() {
    let mut pool = RangePool::new(0, 10);
    let a = pool.allocate(10).unwrap();
    pool.grow_to(20);
    assert_eq!(pool.span_range(), (0, 20));
    let b = pool.allocate(5).unwrap();
    assert_eq!(b, 10..15);
    assert!(pool.release(a.start, a.end));
    assert_eq!(pool.allocate(10), Some(0..10));
}

#[test]
fn pool_growth_extends_trailing_free_range() {
    let mut pool = RangePool::new(0, 10);
    let _a = pool.allocate(4).unwrap();
    pool.grow_to(20);
    assert_eq!(pool.allocate(16), Some(4..20));
}
