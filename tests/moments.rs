use blawktrust::{past_window, BitmapPool, Bitmap, MomentsMask};

#[test]
fn mask_from_names_selects_known_moments() {
    let m = MomentsMask::from_names(&["mean", "kurt", "other"]);
    assert_eq!(m, MomentsMask::new(1 | 8));
    assert!(m.has(1));
    assert!(!m.has(2));
    assert!(m.has(8));
    assert_eq!(m.max_moment_needed(), 4);
    assert_eq!(MomentsMask::from_names(&["mean", "mean"]), MomentsMask::new(1));
    assert_eq!(MomentsMask::from_names(&[]), MomentsMask::empty());
}

#[test]
fn highest_power_sum_follows_the_highest_moment() {
    assert_eq!(MomentsMask::empty().max_moment_needed(), 1);
    assert_eq!(MomentsMask::from_names(&["mean"]).max_moment_needed(), 1);
    assert_eq!(MomentsMask::from_names(&["count", "std"]).max_moment_needed(), 2);
    assert_eq!(MomentsMask::from_names(&["skew"]).max_moment_needed(), 3);
    assert_eq!(MomentsMask::all().max_moment_needed(), 4);
    assert_eq!(MomentsMask::all(), MomentsMask::new(31));
    assert_eq!(
        MomentsMask::from_names(&["mean", "std", "skew", "kurt", "count"]),
        MomentsMask::all()
    );
}

#[test]
fn past_window_excludes_the_current_position() {
    assert_eq!(past_window(2, 3), None);
    assert_eq!(past_window(3, 3), Some((0, 3)));
    assert_eq!(past_window(4, 3), Some((1, 4)));
    assert_eq!(past_window(0, 0), Some((0, 0)));
}

#[test]
fn test_scratch_bitmap() {
    let mut pool = BitmapPool::new();
    let bm1 = pool.get_bitmap(100);
    assert_eq!(bm1.len(), 100);
    assert_eq!(pool.fresh_allocations(), 1);
    pool.return_bitmap(bm1);
    assert_eq!(pool.len(), 1);
    let bm2 = pool.get_bitmap(100);
    assert_eq!(bm2.len(), 100);
    assert_eq!(pool.len(), 0);
    assert_eq!(pool.fresh_allocations(), 1);
}

#[test]
fn pool_steady_state_makes_no_bitmap() {
    let mut pool = BitmapPool::new();
    let warm = pool.get_bitmap(64);
    pool.return_bitmap(warm);
    let after_warm_up = pool.fresh_allocations();
    for _ in 0..50 {
        let bm = pool.get_bitmap(64);
        pool.return_bitmap(bm);
    }
    assert_eq!(pool.fresh_allocations(), after_warm_up);
    assert_eq!(pool.len(), 1);
}

#[test]
fn pool_drops_a_bitmap_of_another_length() {
    let mut pool = BitmapPool::new();
    pool.return_bitmap(Bitmap::new_all_valid(10));
    let bm = pool.get_bitmap(20);
    assert_eq!(bm.len(), 20);
    assert!(!bm.get(0));
    assert!(pool.is_empty());
    assert_eq!(pool.fresh_allocations(), 1);
    pool.return_bitmap(Bitmap::new_all_null(5));
    pool.clear();
    assert!(pool.is_empty());
}
