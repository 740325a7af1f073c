use chainbot::database::U64Wrapper;
use chainbot::leaderboard::page_range;
use chainbot::ledger::LongestChains;

#[test]
fn new_record_is_three_zeros() {
    assert_eq!(LongestChains::new().entries(), &vec![0, 0, 0]);
}

#[test]
fn update_keeps_top_three_descending() {
    let mut r = LongestChains::new();
    assert!(r.update(4));
    assert_eq!(r.entries(), &vec![4, 0, 0]);
    assert!(r.update(7));
    assert_eq!(r.entries(), &vec![7, 4, 0]);
    assert!(r.update(5));
    assert_eq!(r.entries(), &vec![7, 5, 4]);
    assert!(!r.update(3));
    assert_eq!(r.entries(), &vec![7, 5, 4]);
    assert!(!r.update(4));
    assert_eq!(r.entries(), &vec![7, 5, 4]);
    assert!(r.update(9));
    assert_eq!(r.entries(), &vec![9, 7, 5]);
}

#[test]
fn record_stays_sorted_and_sum_never_drops() {
    let mut r = LongestChains::new();
    let mut last_sum: i64 = 0;
    for x in [3, 8, 2, 8, 1, 10, 0, 6, 6, 12, 2] {
        r.update(x);
        let e = r.entries();
        assert_eq!(e.len(), 3);
        assert!(e[0] >= e[1] && e[1] >= e[2] && e[2] >= 0);
        let sum: i64 = e.iter().map(|v| *v as i64).sum();
        assert!(sum >= last_sum);
        last_sum = sum;
    }
    assert_eq!(r.entries(), &vec![12, 10, 8]);
}

#[test]
fn from_entries_accepts_only_records() {
    assert!(LongestChains::from_entries(vec![5, 3, 3]).is_some());
    assert!(LongestChains::from_entries(vec![3, 5, 1]).is_none());
    assert!(LongestChains::from_entries(vec![5, 3]).is_none());
    assert!(LongestChains::from_entries(vec![5, 3, -1]).is_none());
    let r = LongestChains::from_entries(vec![6, 2, 1]).unwrap();
    assert_eq!(r.entries(), &vec![6, 2, 1]);
}

#[test]
fn ids_round_trip_through_signed_column() {
    assert_eq!(U64Wrapper(5).to_sql(), 5);
    assert_eq!(U64Wrapper(u64::MAX).to_sql(), -1);
    assert_eq!(U64Wrapper(1 << 63).to_sql(), i64::MIN);
    assert_eq!(U64Wrapper::from_sql(-1).0, u64::MAX);
    assert_eq!(U64Wrapper::from_sql(i64::MIN).0, 1 << 63);
    for x in [0u64, 1, 12345678901234567890, u64::MAX, (1 << 63) - 1] {
        assert_eq!(U64Wrapper::from_sql(U64Wrapper(x).to_sql()).0, x);
    }
    assert_eq!(U64Wrapper::from(7u64), U64Wrapper(7));
}

#[test]
fn id_wrapper_converts_back_to_u64() {
    let w = U64Wrapper::from(99u64);
    let back: u64 = w.into();
    assert_eq!(back, 99);
}

#[test]
fn leaderboard_pages() {
    assert_eq!(page_range(25, 0), (0, 10));
    assert_eq!(page_range(25, 1), (10, 20));
    assert_eq!(page_range(25, 2), (20, 25));
    assert_eq!(page_range(25, 3), (0, 0));
    assert_eq!(page_range(25, -1), (0, 0));
    assert_eq!(page_range(0, 0), (0, 0));
    assert_eq!(page_range(10, 0), (0, 10));
    assert_eq!(page_range(10, 1), (0, 0));
    assert_eq!(page_range(usize::MAX, i32::MAX), (i32::MAX as usize * 10, i32::MAX as usize * 10 + 10));
}
