use blawktrust::{
    lag_validity_masked, lag_validity_wordwise, lag_word_plan, validity_from_nulls,
    window_validity, Bitmap, LengthMismatch, WordPlan,
};

#[test]
fn test_all_valid() {
    let bm = Bitmap::new_all_valid(100);
    assert_eq!(bm.len(), 100);
    for i in 0..100 {
        assert!(bm.get(i), "bit {} should be valid", i);
    }
}

#[test]
fn test_all_null() {
    let bm = Bitmap::new_all_null(100);
    assert_eq!(bm.len(), 100);
    for i in 0..100 {
        assert!(!bm.get(i), "bit {} should be null", i);
    }
}

#[test]
fn test_set_get() {
    let mut bm = Bitmap::new_all_valid(100);
    bm.set(50, false);
    assert!(!bm.get(50));
    assert!(bm.get(49));
    assert!(bm.get(51));
}

#[test]
fn test_and() {
    let mut a = Bitmap::new_all_valid(128);
    let mut b = Bitmap::new_all_valid(128);
    a.set(10, false);
    b.set(20, false);

    let mut out = Bitmap::new_all_valid(128);
    Bitmap::and_into(&a, &b, &mut out).unwrap();

    assert!(!out.get(10), "a was null");
    assert!(!out.get(20), "b was null");
    assert!(out.get(30), "both valid");
}

#[test]
fn set_clears_and_restores_bits() {
    let mut bm = Bitmap::new_all_valid(5);
    bm.set(1, false);
    bm.set(3, false);
    let got: Vec<bool> = (0..5).map(|i| bm.get(i)).collect();
    assert_eq!(got, vec![true, false, true, false, true]);
    bm.set(3, true);
    assert!(bm.get(3));
}

#[test]
fn words_are_packed_with_clear_high_bits() {
    let bm = Bitmap::new_all_valid(70);
    assert_eq!(bm.words_len(), 2);
    assert_eq!(bm.word(0), u64::MAX);
    assert_eq!(bm.word(1), 0b11_1111);
    assert_eq!(bm.clone_bits(), vec![u64::MAX, 0b11_1111]);
    let empty = Bitmap::new_all_null(0);
    assert!(empty.is_empty());
    assert_eq!(empty.words_len(), 0);
    let exact = Bitmap::new_all_valid(128);
    assert_eq!(exact.clone_bits(), vec![u64::MAX, u64::MAX]);
}

#[test]
fn or_combines_elementwise() {
    let mut a = Bitmap::new_all_null(70);
    let mut b = Bitmap::new_all_null(70);
    a.set(3, true);
    b.set(69, true);
    let mut out = Bitmap::new_all_null(70);
    assert_eq!(Bitmap::or_into(&a, &b, &mut out), Ok(()));
    for i in 0..70 {
        assert_eq!(out.get(i), i == 3 || i == 69);
    }
}

#[test]
fn binary_validity_is_a_conjunction() {
    let mut a = Bitmap::new_all_valid(10);
    let mut b = Bitmap::new_all_valid(10);
    a.set(2, false);
    a.set(5, false);
    b.set(5, false);
    b.set(7, false);
    let mut out = Bitmap::new_all_null(10);
    Bitmap::and_into(&a, &b, &mut out).unwrap();
    for i in 0..10 {
        assert_eq!(out.get(i), a.get(i) && b.get(i));
    }
}

#[test]
fn combining_different_lengths_fails() {
    let a = Bitmap::new_all_valid(10);
    let b = Bitmap::new_all_valid(11);
    let mut out = Bitmap::new_all_null(10);
    assert_eq!(
        Bitmap::and_into(&a, &b, &mut out),
        Err(LengthMismatch { expected: 10, found: 11 })
    );
    assert!(!out.get(0));
    let c = Bitmap::new_all_valid(10);
    let mut short = Bitmap::new_all_null(9);
    assert_eq!(
        Bitmap::or_into(&a, &c, &mut short),
        Err(LengthMismatch { expected: 10, found: 9 })
    );
}

#[test]
fn set_word_replaces_a_whole_word() {
    let mut bm = Bitmap::new_all_null(130);
    bm.set_word(1, u64::MAX);
    assert!(!bm.get(63));
    assert!(bm.get(64));
    assert!(bm.get(127));
    assert!(!bm.get(128));
    bm.set_word(2, 0b10);
    assert!(bm.get(129));
}

#[test]
fn bits_mut_writes_words() {
    let mut bm = Bitmap::new_all_null(64);
    bm.bits_mut()[0] = 0b101;
    assert!(bm.get(0));
    assert!(!bm.get(1));
    assert!(bm.get(2));
}

fn masked_reference(v: &Bitmap, lag: usize) -> Vec<bool> {
    (0..v.len())
        .map(|i| lag > 0 && i >= lag && v.get(i) && v.get(i - lag))
        .collect()
}

fn bits(bm: &Bitmap) -> Vec<bool> {
    (0..bm.len()).map(|i| bm.get(i)).collect()
}

#[test]
fn lag_validity_marks_prefix_and_operands() {
    let mut v = Bitmap::new_all_valid(6);
    v.set(2, false);
    let mut out = Bitmap::new_all_valid(6);
    lag_validity_masked(&v, 1, &mut out).unwrap();
    assert_eq!(bits(&out), vec![false, true, false, false, true, true]);
    let mut zero = Bitmap::new_all_valid(6);
    lag_validity_masked(&v, 0, &mut zero).unwrap();
    assert_eq!(bits(&zero), vec![false; 6]);
    let mut long = Bitmap::new_all_valid(6);
    lag_validity_wordwise(&v, 6, &mut long).unwrap();
    assert_eq!(bits(&long), vec![false; 6]);
}

#[test]
fn wordwise_matches_masked_on_all_word_shapes() {
    let n = 300;
    let mut mixed = Bitmap::new_all_valid(n);
    // word 1 all null, word 2 mixed, word 3 all valid, tail mixed
    for i in 64..128 {
        mixed.set(i, false);
    }
    for i in (128..192).step_by(3) {
        mixed.set(i, false);
    }
    mixed.set(290, false);
    let all_valid = Bitmap::new_all_valid(n);
    let all_null = Bitmap::new_all_null(n);
    for v in [&mixed, &all_valid, &all_null] {
        for lag in [0usize, 1, 5, 63, 64, 65, 128, 299, 300, 400] {
            let mut a = Bitmap::new_all_null(n);
            let mut b = Bitmap::new_all_valid(n);
            lag_validity_masked(v, lag, &mut a).unwrap();
            lag_validity_wordwise(v, lag, &mut b).unwrap();
            assert_eq!(bits(&a), bits(&b), "lag {}", lag);
            assert_eq!(bits(&a), masked_reference(v, lag), "lag {}", lag);
        }
    }
}

#[test]
fn word_plans_follow_the_words() {
    let mut v = Bitmap::new_all_valid(256);
    for i in 128..192 {
        v.set(i, false);
    }
    assert_eq!(lag_word_plan(&v, 64, 0), WordPlan::Mixed);
    assert_eq!(lag_word_plan(&v, 64, 1), WordPlan::Dense);
    assert_eq!(lag_word_plan(&v, 64, 2), WordPlan::Empty);
    assert_eq!(lag_word_plan(&v, 64, 3), WordPlan::Mixed);
    assert_eq!(lag_word_plan(&v, 3, 1), WordPlan::Mixed);
    assert_eq!(lag_word_plan(&v, 0, 1), WordPlan::Empty);
}

#[test]
fn lag_validity_rejects_length_mismatch() {
    let v = Bitmap::new_all_valid(10);
    let mut out = Bitmap::new_all_valid(12);
    assert_eq!(
        lag_validity_wordwise(&v, 1, &mut out),
        Err(LengthMismatch { expected: 10, found: 12 })
    );
    assert_eq!(
        lag_validity_masked(&v, 1, &mut out),
        Err(LengthMismatch { expected: 10, found: 12 })
    );
    assert_eq!(
        window_validity(&v, 1, &mut out),
        Err(LengthMismatch { expected: 10, found: 12 })
    );
}

#[test]
fn window_validity_needs_one_valid_element() {
    let mut v = Bitmap::new_all_valid(8);
    v.set(2, false);
    v.set(3, false);
    v.set(4, false);
    let mut out = Bitmap::new_all_null(8);
    window_validity(&v, 3, &mut out).unwrap();
    assert_eq!(
        bits(&out),
        vec![false, false, true, true, false, true, true, true]
    );
    let mut none = Bitmap::new_all_valid(8);
    window_validity(&v, 0, &mut none).unwrap();
    assert_eq!(bits(&none), vec![false; 8]);
}

#[test]
fn nulls_become_a_bitmap_only_when_present() {
    assert!(validity_from_nulls(&[false, false]).is_none());
    let bm = validity_from_nulls(&[false, true, false]).unwrap();
    assert_eq!(bits(&bm), vec![true, false, true]);
}
