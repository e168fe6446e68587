use nucleo_picker::incremental::partial::{IncrementalIterator, Partial};
use nucleo_picker::incremental::{ExtendIncremental, Incremental};

#[test]
fn test_incremental() {
    let vec = Vec::new();
    let mut incr = Incremental::new(vec, vec![1, 6, 2, 3, 5, 3, 5]);

    assert_eq!(incr.extend_bounded(5, 2), 5);
    assert_eq!(incr.view(), &[1, 4]);

    assert_eq!(incr.extend_bounded(2, 1), 2);
    assert_eq!(incr.view(), &[1, 6]);

    assert_eq!(incr.extend_bounded(1, 1), 1);
    assert_eq!(incr.view(), &[1, 6, 1]);

    assert_eq!(incr.extend_bounded(0, 1), 0);
    assert_eq!(incr.view(), &[1, 6, 1]);

    assert_eq!(incr.extend_bounded(10, 1), 4);
    assert_eq!(incr.view(), &[1, 6, 2, 3]);

    assert_eq!(incr.extend_bounded(2, 3), 2);
    assert_eq!(incr.view(), &[1, 6, 2, 3, 2]);

    assert_eq!(incr.extend_bounded(1, 2), 1);
    assert_eq!(incr.view(), &[1, 6, 2, 3, 3]);

    assert_eq!(incr.extend_bounded(1, 4), 1);
    assert_eq!(incr.view(), &[1, 6, 2, 3, 4]);

    assert_eq!(incr.extend_bounded(0, 0), 0);
    assert_eq!(incr.view(), &[1, 6, 2, 3, 4]);

    assert_eq!(incr.extend_bounded(100, 4), 9);
    assert_eq!(incr.view(), &[1, 6, 2, 3, 5, 3, 5]);
}

#[test]
fn test_partial_iterator() {
    let mut partial = IncrementalIterator::new(vec![1, 7, 3, 2, 5]);
    let check = |p: &mut IncrementalIterator, limit: u16, size: u16, new: bool| {
        assert_eq!(p.next_partial(limit), Some(Partial { size, new }));
    };

    check(&mut partial, 2, 1, true);
    check(&mut partial, 5, 5, true);
    assert!(partial.is_incomplete());
    check(&mut partial, 1, 1, false);
    assert!(partial.is_incomplete());
    check(&mut partial, 1, 1, false);
    check(&mut partial, 3, 3, true);
    check(&mut partial, 1, 1, true);
    assert!(partial.is_incomplete());
    check(&mut partial, 8, 1, false);
    check(&mut partial, 4, 4, true);
    check(&mut partial, 0, 0, false);
    check(&mut partial, 1, 1, false);
    assert!(partial.next_partial(0).is_none());
}

#[test]
fn an_unbounded_extension_within_budget_appends_every_size() {
    let mut incr = Incremental::new(vec![9], vec![1, 2, 3]);
    assert_eq!(incr.view(), &[9]);
    assert_eq!(incr.extend_unbounded(u16::MAX), 6);
    assert_eq!(incr.view(), &[9, 1, 2, 3]);
}
