use tiflash_proxy::pending_ranges::PendingDeleteRanges;

fn insert_range(pending_delete_ranges: &mut PendingDeleteRanges, id: u64, s: &str, e: &str, timeout: u64) {
    pending_delete_ranges.insert(id, s.as_bytes(), e.as_bytes(), timeout);
}

#[test]
fn test_pending_delete_ranges() {
    let mut pending_delete_ranges = PendingDeleteRanges::default();
    let delay: u64 = 100;
    let id = 0;

    let mut now: u64 = 0;
    let timeout = now + delay;
    insert_range(&mut pending_delete_ranges, id, "a", "c", timeout);
    insert_range(&mut pending_delete_ranges, id, "m", "n", timeout);
    insert_range(&mut pending_delete_ranges, id, "x", "z", timeout);
    insert_range(&mut pending_delete_ranges, id + 1, "f", "i", timeout);
    insert_range(&mut pending_delete_ranges, id + 1, "p", "t", timeout);
    assert_eq!(pending_delete_ranges.len(), 5);

    now += delay / 2;

    //  a____c    f____i    m____n    p____t    x____z
    //              g___________________q
    // when we want to insert [g, q), we first extract overlap ranges,
    // which are [f, i), [m, n), [p, t)
    let timeout = now + delay;
    let overlap_ranges = pending_delete_ranges.drain_overlap_ranges(&b"g".to_vec(), &b"q".to_vec());
    assert_eq!(
        overlap_ranges,
        [
            (id + 1, b"f".to_vec(), b"i".to_vec()),
            (id, b"m".to_vec(), b"n".to_vec()),
            (id + 1, b"p".to_vec(), b"t".to_vec()),
        ]
    );
    assert_eq!(pending_delete_ranges.len(), 2);
    insert_range(&mut pending_delete_ranges, id + 2, "g", "q", timeout);
    assert_eq!(pending_delete_ranges.len(), 3);

    now += delay / 2;

    // at t1, [a, c) and [x, z) will timeout
    let ranges: Vec<_> = pending_delete_ranges.timeout_ranges(now);
    assert_eq!(
        ranges,
        [(id, b"a".to_vec(), b"c".to_vec()), (id, b"x".to_vec(), b"z".to_vec()),]
    );
    for (_, start_key, _) in ranges {
        pending_delete_ranges.remove(&start_key);
    }
    assert_eq!(pending_delete_ranges.len(), 1);

    now += delay / 2;

    // at t2, [g, q) will timeout
    let ranges: Vec<_> = pending_delete_ranges.timeout_ranges(now);
    assert_eq!(ranges, [(id + 2, b"g".to_vec(), b"q".to_vec())]);
    for (_, start_key, _) in ranges {
        pending_delete_ranges.remove(&start_key);
    }
    assert_eq!(pending_delete_ranges.len(), 0);
}

#[test]
fn find_overlap_reports_range_reaching_into_start() {
    let mut r = PendingDeleteRanges::new();
    r.insert(3, b"a", b"d", 10);
    r.insert(4, b"e", b"f", 10);
    assert_eq!(r.find_overlap_ranges(b"b", b"c"), [(3, b"a".to_vec(), b"d".to_vec())]);
    // the range is only reported, not taken out
    assert_eq!(r.len(), 2);
}

#[test]
fn find_overlap_skips_range_ending_at_start() {
    let mut r = PendingDeleteRanges::new();
    r.insert(3, b"a", b"b", 10);
    r.insert(4, b"c", b"d", 10);
    assert!(r.find_overlap_ranges(b"b", b"c").is_empty());
    // the end key is excluded
    assert!(r.find_overlap_ranges(b"bb", b"c").is_empty());
    assert_eq!(r.find_overlap_ranges(b"b", b"ca"), [(4, b"c".to_vec(), b"d".to_vec())]);
}

#[test]
fn find_overlap_orders_prefix_keys_first() {
    let mut r = PendingDeleteRanges::new();
    r.insert(1, b"ab", b"abc", 1);
    r.insert(2, b"a", b"ab", 1);
    r.insert(3, b"abc", b"b", 1);
    assert_eq!(
        r.find_overlap_ranges(b"", b"zz"),
        [
            (2, b"a".to_vec(), b"ab".to_vec()),
            (1, b"ab".to_vec(), b"abc".to_vec()),
            (3, b"abc".to_vec(), b"b".to_vec()),
        ]
    );
}

#[test]
fn drain_then_find_reports_nothing() {
    let mut r = PendingDeleteRanges::new();
    r.insert(1, b"a", b"c", 1);
    r.insert(2, b"d", b"f", 1);
    r.insert(3, b"h", b"k", 1);
    let drained = r.drain_overlap_ranges(b"b", b"e");
    assert_eq!(drained, [(1, b"a".to_vec(), b"c".to_vec()), (2, b"d".to_vec(), b"f".to_vec())]);
    assert!(r.find_overlap_ranges(b"b", b"e").is_empty());
    assert_eq!(r.timeout_ranges(1), [(3, b"h".to_vec(), b"k".to_vec())]);
    r.insert(4, b"b", b"e", 2);
    assert_eq!(r.len(), 2);
}

#[test]
fn empty_range_takes_place_of_same_key() {
    let mut r = PendingDeleteRanges::new();
    r.insert(1, b"b", b"b", 5);
    r.insert(2, b"b", b"b", 7);
    assert_eq!(r.len(), 1);
    assert!(r.timeout_ranges(6).is_empty());
    assert_eq!(r.timeout_ranges(7), [(2, b"b".to_vec(), b"b".to_vec())]);
}

#[test]
fn remove_missing_key_changes_nothing() {
    let mut r = PendingDeleteRanges::new();
    r.insert(1, b"b", b"c", 5);
    assert_eq!(r.remove(b"a"), None);
    assert_eq!(r.remove(b"bc"), None);
    assert_eq!(r.len(), 1);
}

#[test]
fn insert_then_remove_gives_range_back() {
    let mut r = PendingDeleteRanges::new();
    r.insert(1, b"a", b"b", 5);
    r.insert(9, b"m", b"p", 8);
    assert_eq!(r.remove(b"m"), Some((9, b"m".to_vec(), b"p".to_vec())));
    assert_eq!(r.len(), 1);
    assert_eq!(r.timeout_ranges(100), [(1, b"a".to_vec(), b"b".to_vec())]);
}

#[test]
fn timeout_includes_exact_instant() {
    let mut r = PendingDeleteRanges::new();
    r.insert(1, b"a", b"b", 5);
    r.insert(2, b"c", b"d", 6);
    assert!(r.timeout_ranges(4).is_empty());
    assert_eq!(r.timeout_ranges(5), [(1, b"a".to_vec(), b"b".to_vec())]);
    assert_eq!(r.timeout_ranges(u64::MAX).len(), 2);
}

#[test]
fn empty_query_overlaps_nothing() {
    let mut r = PendingDeleteRanges::default();
    r.insert(0, b"a", b"c", 1);
    assert!(r.find_overlap_ranges(b"b", b"b").is_empty());
    assert!(r.find_overlap_ranges(b"a", b"a").is_empty());
    assert!(r.drain_overlap_ranges(b"b", b"b").is_empty());
    assert_eq!(r.len(), 1);
}

#[test]
fn empty_range_inside_pending_range_is_kept() {
    let mut r = PendingDeleteRanges::new();
    r.insert(0, b"a", b"c", 1);
    r.insert(1, b"b", b"b", 2);
    assert_eq!(r.len(), 2);
    // the range holding the query's start is still found past the empty one
    assert_eq!(r.find_overlap_ranges(b"bb", b"d"), [(0, b"a".to_vec(), b"c".to_vec())]);
    assert_eq!(
        r.find_overlap_ranges(b"b", b"bb"),
        [(0, b"a".to_vec(), b"c".to_vec()), (1, b"b".to_vec(), b"b".to_vec())]
    );
    let drained = r.drain_overlap_ranges(b"bb", b"d");
    assert_eq!(drained, [(0, b"a".to_vec(), b"c".to_vec())]);
    assert_eq!(r.timeout_ranges(10), [(1, b"b".to_vec(), b"b".to_vec())]);
}

#[test]
fn timed_out_ranges_stay_timed_out() {
    let mut r = PendingDeleteRanges::new();
    r.insert(1, b"a", b"b", 5);
    r.insert(2, b"c", b"d", 9);
    r.insert(3, b"e", b"f", 3);
    let early = r.timeout_ranges(5);
    let late = r.timeout_ranges(9);
    assert_eq!(early, [(1, b"a".to_vec(), b"b".to_vec()), (3, b"e".to_vec(), b"f".to_vec())]);
    assert_eq!(late.len(), 3);
    assert!(early.iter().all(|t| late.contains(t)));
}
