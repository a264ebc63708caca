use keyword_trends::batching::{batch_bounds, BATCH_LIMIT};

#[test]
fn batches_of_127_ids() {
    assert_eq!(batch_bounds(127), vec![(0, 50), (50, 100), (100, 127)]);
    let sizes: Vec<usize> = batch_bounds(127).iter().map(|(a, b)| b - a).collect();
    assert_eq!(sizes, vec![50, 50, 27]);
}

#[test]
fn no_batch_for_no_item() {
    assert!(batch_bounds(0).is_empty());
}

#[test]
fn exact_multiple_has_no_partial_batch() {
    assert_eq!(batch_bounds(100), vec![(0, 50), (50, 100)]);
    assert_eq!(batch_bounds(50), vec![(0, 50)]);
    assert_eq!(batch_bounds(1), vec![(0, 1)]);
}

#[test]
fn batches_never_exceed_limit() {
    for n in 0..400usize {
        let b = batch_bounds(n);
        let mut next = 0;
        for (s, e) in &b {
            assert_eq!(*s, next);
            assert!(e > s && e - s <= BATCH_LIMIT);
            next = *e;
        }
        assert_eq!(next, n);
    }
}
