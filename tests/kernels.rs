use blawktrust::{
    binary_masked, binary_no_nulls, lag_masked, lag_no_nulls, lag_wordwise, past_window_map,
    unary_masked, unary_no_nulls, Bitmap, LengthMismatch,
};

fn dlog(c: f64, p: f64) -> f64 {
    c.ln() - p.ln()
}

#[test]
fn test_dlog_no_nulls() {
    let x = vec![100.0, 101.0, 102.0, 103.0];
    let mut out = vec![0.0; 4];

    lag_no_nulls(&mut out, &x, 1, f64::NAN, dlog).unwrap();

    assert!(out[0].is_nan());
    assert!((out[1] - (101.0_f64.ln() - 100.0_f64.ln())).abs() < 1e-10);
    assert!((out[2] - (102.0_f64.ln() - 101.0_f64.ln())).abs() < 1e-10);
}

#[test]
fn test_dlog_masked() {
    let x = vec![100.0, 101.0, 102.0, 103.0];
    let mut x_valid = Bitmap::new_all_valid(4);
    x_valid.set(2, false);

    let mut out = vec![0.0; 4];
    let mut out_valid = Bitmap::new_all_null(4);

    lag_masked(&mut out, &mut out_valid, &x, &x_valid, 1, dlog).unwrap();

    assert!(!out_valid.get(0));
    assert!(out_valid.get(1));
    assert!(!out_valid.get(2));
    assert!(!out_valid.get(3));
}

#[test]
fn test_unary_masked() {
    let x = vec![1.0, 2.0, 3.0, 4.0];
    let mut x_valid = Bitmap::new_all_valid(4);
    x_valid.set(1, false);

    let mut out = vec![0.0; 4];
    let mut out_valid = Bitmap::new_all_null(4);

    unary_masked(&mut out, &mut out_valid, &x, &x_valid, |x| x * 2.0).unwrap();

    assert!(out_valid.get(0));
    assert!(!out_valid.get(1));
    assert!(out_valid.get(2));
    assert_eq!(out[0], 2.0);
    assert_eq!(out[2], 6.0);
}

#[test]
fn test_binary_masked() {
    let a = vec![1.0, 2.0, 3.0, 4.0];
    let b = vec![10.0, 20.0, 30.0, 40.0];

    let mut a_valid = Bitmap::new_all_valid(4);
    let mut b_valid = Bitmap::new_all_valid(4);
    a_valid.set(1, false);
    b_valid.set(2, false);

    let mut out = vec![0.0; 4];
    let mut out_valid = Bitmap::new_all_null(4);

    binary_masked(&mut out, &mut out_valid, &a, &a_valid, &b, &b_valid, |x, y| x + y).unwrap();

    assert!(out_valid.get(0));
    assert!(!out_valid.get(1));
    assert!(!out_valid.get(2));
    assert!(out_valid.get(3));

    assert_eq!(out[0], 11.0);
    assert_eq!(out[3], 44.0);
}

#[test]
fn test_dlog_wordwise_all_valid() {
    let x = vec![100.0; 128];
    let x_valid = Bitmap::new_all_valid(128);

    let mut out = vec![0.0; 128];
    let mut out_valid = Bitmap::new_all_null(128);

    lag_wordwise(&mut out, &mut out_valid, &x, &x_valid, 1, dlog).unwrap();

    assert!(!out_valid.get(0));
    assert!(out_valid.get(1));
    assert!(out_valid.get(64));
    assert!(out_valid.get(127));
}

#[test]
fn test_dlog_wordwise_all_null() {
    let x = vec![100.0; 128];
    let x_valid = Bitmap::new_all_null(128);

    let mut out = vec![0.0; 128];
    let mut out_valid = Bitmap::new_all_null(128);

    lag_wordwise(&mut out, &mut out_valid, &x, &x_valid, 1, dlog).unwrap();

    for i in 0..128 {
        assert!(!out_valid.get(i));
    }
}

#[test]
fn test_dlog_scale_add_wordwise() {
    let x = vec![100.0; 128];
    let x_valid = Bitmap::new_all_valid(128);

    let mut out = vec![0.0; 128];
    let mut out_valid = Bitmap::new_all_null(128);

    let (a, b) = (2.0, 1.0);
    lag_wordwise(&mut out, &mut out_valid, &x, &x_valid, 1, |c: f64, p: f64| {
        a * (c.ln() - p.ln()) + b
    })
    .unwrap();

    assert!(!out_valid.get(0));
    assert!(out_valid.get(1));
    assert!((out[1] - 1.0).abs() < 1e-10);
}

#[test]
fn test_dlog_scale_add_no_nulls() {
    let x = vec![100.0, 101.0, 102.0, 103.0];
    let mut out = vec![0.0; 4];

    let (a, b) = (2.0, 1.0);
    lag_no_nulls(&mut out, &x, 1, f64::NAN, |c: f64, p: f64| a * (c.ln() - p.ln()) + b).unwrap();

    assert!(out[0].is_nan());

    let expected = 2.0 * (101.0_f64.ln() - 100.0_f64.ln()) + 1.0;
    assert!((out[1] - expected).abs() < 1e-10);
}

#[test]
fn test_dlog_scale_add_masked() {
    let x = vec![100.0, 101.0, 102.0, 103.0];
    let mut x_valid = Bitmap::new_all_valid(4);
    x_valid.set(2, false);

    let mut out = vec![0.0; 4];
    let mut out_valid = Bitmap::new_all_null(4);

    let (a, b) = (2.0, 1.0);
    lag_masked(&mut out, &mut out_valid, &x, &x_valid, 1, |c: f64, p: f64| {
        a * (c.ln() - p.ln()) + b
    })
    .unwrap();

    assert!(!out_valid.get(0));
    assert!(out_valid.get(1));
    assert!(!out_valid.get(2));
    assert!(!out_valid.get(3));
}

#[test]
fn test_ln_scale_add_no_nulls() {
    let x = vec![1.0, std::f64::consts::E, 10.0];
    let mut out = vec![0.0; 3];

    let (a, b) = (2.0, 1.0);
    unary_no_nulls(&mut out, &x, |v: f64| a * v.ln() + b).unwrap();

    assert!((out[0] - 1.0).abs() < 1e-10);
    assert!((out[1] - 3.0).abs() < 1e-10);
    let expected = 2.0 * 10.0_f64.ln() + 1.0;
    assert!((out[2] - expected).abs() < 1e-10);
}

#[test]
fn test_sub_mul_add_no_nulls() {
    let x = vec![10.0, 20.0, 30.0];
    let y = vec![1.0, 2.0, 3.0];
    let mut out = vec![0.0; 3];

    let (a, b) = (2.0, 1.0);
    binary_no_nulls(&mut out, &x, &y, |p: f64, q: f64| (p - q) * a + b).unwrap();

    assert_eq!(out[0], (10.0 - 1.0) * 2.0 + 1.0);
    assert_eq!(out[1], (20.0 - 2.0) * 2.0 + 1.0);
    assert_eq!(out[2], (30.0 - 3.0) * 2.0 + 1.0);
}

#[test]
fn test_sub_mul_add_masked() {
    let x = vec![10.0, 20.0, 30.0];
    let y = vec![1.0, 2.0, 3.0];

    let x_valid = Bitmap::new_all_valid(3);
    let mut y_valid = Bitmap::new_all_valid(3);
    y_valid.set(1, false);

    let mut out = vec![0.0; 3];
    let mut out_valid = Bitmap::new_all_null(3);

    let (a, b) = (2.0, 1.0);
    binary_masked(&mut out, &mut out_valid, &x, &x_valid, &y, &y_valid, |p: f64, q: f64| {
        (p - q) * a + b
    })
    .unwrap();

    assert!(out_valid.get(0));
    assert!(!out_valid.get(1));
    assert!(out_valid.get(2));
}

#[test]
fn dlog_of_constant_growth_scenario() {
    let x = vec![100.0, 110.0, 121.0];
    let mut out = vec![0.0; 3];
    lag_no_nulls(&mut out, &x, 1, f64::NAN, dlog).unwrap();
    assert!(out[0].is_nan());
    assert!((out[1] - 1.1_f64.ln()).abs() < 1e-10);
    assert!((out[2] - 1.1_f64.ln()).abs() < 1e-10);
}

#[test]
fn masked_kernels_never_write_invalid_positions() {
    let x = vec![100.0, 101.0, 102.0, 103.0, 104.0];
    let mut x_valid = Bitmap::new_all_valid(5);
    x_valid.set(3, false);
    let sentinel = -7.0;
    let mut out = vec![sentinel; 5];
    let mut out_valid = Bitmap::new_all_valid(5);
    lag_masked(&mut out, &mut out_valid, &x, &x_valid, 1, dlog).unwrap();
    for i in 0..5 {
        if !out_valid.get(i) {
            assert_eq!(out[i], sentinel);
        }
    }
    assert_eq!(out[0], sentinel);
    assert_eq!(out[3], sentinel);
    assert_eq!(out[4], sentinel);
    let mut unary_out = vec![sentinel; 5];
    let mut unary_valid = Bitmap::new_all_null(5);
    unary_masked(&mut unary_out, &mut unary_valid, &x, &x_valid, f64::ln).unwrap();
    assert_eq!(unary_out[3], sentinel);
    assert!((unary_out[0] - 100.0_f64.ln()).abs() < 1e-12);
}

fn lcg_bits(n: usize, seed: u64, keep_per_256: u64) -> Bitmap {
    let mut bm = Bitmap::new_all_valid(n);
    let mut s = seed;
    for i in 0..n {
        s = s.wrapping_mul(6364136223846793005).wrapping_add(1442695040888963407);
        if (s >> 56) >= keep_per_256 {
            bm.set(i, false);
        }
    }
    bm
}

#[test]
fn wordwise_matches_masked_for_data_and_validity() {
    let n = 333;
    let x: Vec<f64> = (0..n).map(|i| 50.0 + (i as f64) * 0.37).collect();
    let mut clustered = Bitmap::new_all_valid(n);
    for i in 64..128 {
        clustered.set(i, false);
    }
    clustered.set(200, false);
    let shapes = [
        Bitmap::new_all_valid(n),
        Bitmap::new_all_null(n),
        clustered,
        lcg_bits(n, 7, 200),
        lcg_bits(n, 11, 40),
    ];
    for v in shapes.iter() {
        for lag in [0usize, 1, 3, 63, 64, 65, 127, 128, 200, 333] {
            let mut a = vec![0.0; n];
            let mut av = Bitmap::new_all_null(n);
            let mut b = vec![0.0; n];
            let mut bv = Bitmap::new_all_valid(n);
            lag_masked(&mut a, &mut av, &x, v, lag, dlog).unwrap();
            lag_wordwise(&mut b, &mut bv, &x, v, lag, dlog).unwrap();
            for i in 0..n {
                assert_eq!(av.get(i), bv.get(i), "validity at {} lag {}", i, lag);
                if av.get(i) {
                    assert_eq!(a[i].to_bits(), b[i].to_bits(), "value at {} lag {}", i, lag);
                }
            }
        }
    }
}

#[test]
fn fused_dlog_scale_add_equals_two_passes() {
    let x = vec![100.0, 102.0, 101.0, 103.0, 105.0, 104.0, 108.0];
    let mut v = Bitmap::new_all_valid(7);
    v.set(4, false);
    let (a, b) = (3.5, -0.25);
    let mut fused = vec![0.0; 7];
    let mut fused_valid = Bitmap::new_all_null(7);
    lag_masked(&mut fused, &mut fused_valid, &x, &v, 2, |c: f64, p: f64| a * dlog(c, p) + b).unwrap();
    let mut mid = vec![0.0; 7];
    let mut mid_valid = Bitmap::new_all_null(7);
    lag_masked(&mut mid, &mut mid_valid, &x, &v, 2, dlog).unwrap();
    let mut seq = vec![0.0; 7];
    let mut seq_valid = Bitmap::new_all_null(7);
    unary_masked(&mut seq, &mut seq_valid, &mid, &mid_valid, |m: f64| a * m + b).unwrap();
    for i in 0..7 {
        assert_eq!(fused_valid.get(i), seq_valid.get(i));
        if fused_valid.get(i) {
            assert!((fused[i] - seq[i]).abs() < 1e-10);
        }
    }
}

#[test]
fn kernels_reject_mismatched_lengths() {
    let x = vec![1.0, 2.0, 3.0];
    let mut out = vec![0.0; 2];
    assert_eq!(
        unary_no_nulls(&mut out, &x, |v: f64| v),
        Err(LengthMismatch { expected: 3, found: 2 })
    );
    let v = Bitmap::new_all_valid(3);
    let mut ov = Bitmap::new_all_valid(3);
    assert_eq!(
        lag_wordwise(&mut out, &mut ov, &x, &v, 1, dlog),
        Err(LengthMismatch { expected: 3, found: 2 })
    );
    assert_eq!(out, vec![0.0; 2]);
}

fn mean_of(w: &[f64]) -> f64 {
    w.iter().sum::<f64>() / (w.len() as f64)
}

#[test]
fn past_window_mean_scenario() {
    let x = vec![1.0, 2.0, 3.0, 4.0, 5.0];
    let out = past_window_map(&x, 3, f64::NAN, mean_of);
    assert!(out[0].is_nan());
    assert!(out[1].is_nan());
    assert!(out[2].is_nan());
    assert!((out[3] - 2.0).abs() < 1e-12);
    assert!((out[4] - 3.0).abs() < 1e-12);
}

#[test]
fn past_window_ignores_the_current_value() {
    let x = vec![1.0, 2.0, 3.0, 4.0, 5.0];
    let mut y = x.clone();
    y[4] = 1000.0;
    let ox = past_window_map(&x, 2, f64::NAN, mean_of);
    let oy = past_window_map(&y, 2, f64::NAN, mean_of);
    assert_eq!(ox[4], oy[4]);
    assert_eq!(ox[4], 3.5);
}

#[test]
fn trailing_window_mean_of_five() {
    let x = vec![1.0, 2.0, 3.0, 4.0, 5.0, 6.0];
    let out = blawktrust::trailing_window_map(&x, 5, f64::NAN, mean_of);
    for v in &out[..4] {
        assert!(v.is_nan());
    }
    assert!((out[4] - 3.0).abs() < 1e-10);
    assert!((out[5] - 4.0).abs() < 1e-10);
    let none = blawktrust::trailing_window_map(&x, 0, -1.0, mean_of);
    assert_eq!(none, vec![-1.0; 6]);
}

#[test]
fn transpose_gives_rows() {
    let cols = vec![vec![1, 2, 3], vec![4, 5, 6]];
    let rows = blawktrust::transpose(&cols, 3);
    assert_eq!(rows, vec![vec![1, 4], vec![2, 5], vec![3, 6]]);
    assert_eq!(blawktrust::transpose(&rows, 2), cols);
    let none: Vec<Vec<i32>> = Vec::new();
    assert_eq!(blawktrust::transpose(&none, 2), vec![Vec::<i32>::new(), Vec::new()]);
}

#[test]
fn nullable_without_bitmap_takes_the_fast_path() {
    let x = blawktrust::Nullable::new(vec![100.0, 110.0, 121.0]);
    let mut out = blawktrust::Nullable::new(vec![0.0; 3]);
    blawktrust::lag_into(&x, 1, f64::NAN, &mut out, dlog).unwrap();
    assert!(out.valid.is_none());
    assert!(out.data[0].is_nan());
    assert!((out.data[2] - 1.1_f64.ln()).abs() < 1e-10);
}

#[test]
fn nullable_with_bitmap_takes_the_masked_path() {
    let mut v = Bitmap::new_all_valid(4);
    v.set(2, false);
    let x = blawktrust::Nullable::with_validity(vec![1.0, 2.0, 3.0, 4.0], v).unwrap();
    assert!(!x.is_valid(2));
    let mut out = blawktrust::Nullable::new(vec![-1.0; 4]);
    blawktrust::unary_into(&x, &mut out, |a: f64| a * 10.0).unwrap();
    let bits = out.valid.as_ref().unwrap();
    assert!(bits.get(0) && bits.get(1) && !bits.get(2) && bits.get(3));
    assert_eq!(out.data, vec![10.0, 20.0, -1.0, 40.0]);

    let y = blawktrust::Nullable::new(vec![1.0; 4]);
    let mut diff = blawktrust::Nullable::new(vec![0.0; 4]);
    blawktrust::binary_into(&x, &y, &mut diff, |p: f64, q: f64| p - q).unwrap();
    let dv = diff.valid.as_ref().unwrap();
    assert!(!dv.get(2));
    assert_eq!(diff.data[3], 3.0);
}

#[test]
fn nullable_rejects_a_bitmap_of_another_length() {
    let r = blawktrust::Nullable::with_validity(vec![1.0, 2.0], Bitmap::new_all_valid(3));
    assert!(matches!(r, Err(LengthMismatch { expected: 2, found: 3 })));
    let x = blawktrust::Nullable::new(vec![1.0, 2.0]);
    let mut out = blawktrust::Nullable::new(vec![0.0; 5]);
    assert_eq!(
        blawktrust::unary_into(&x, &mut out, |a: f64| a),
        Err(LengthMismatch { expected: 2, found: 5 })
    );
}
