use vumeter::interp::{interp_f, interp_i, LEVEL_SCALE};

#[test]
fn interp_f_endpoints_are_exact() {
    assert_eq!(interp_f(204, 0, 0), 204);
    assert_eq!(interp_f(204, 0, LEVEL_SCALE), 0);
    assert_eq!(interp_f(0, 167, 0), 0);
    assert_eq!(interp_f(0, 167, LEVEL_SCALE), 167);
}

#[test]
fn interp_f_rounds_to_nearest() {
    // 200 * 0.05 = 10 exactly at level 0.95 of the downward ramp.
    assert_eq!(interp_f(200, 0, 9500), 10);
    assert_eq!(interp_f(200, 0, 9000), 20);
    assert_eq!(interp_f(200, 0, 7000), 60);
    // 203 * 0.5 = 101.5 rounds up.
    assert_eq!(interp_f(203, 0, 5000), 102);
}

#[test]
fn interp_f_is_monotonic_along_the_ramp() {
    let mut prev = interp_f(200, 0, 0);
    let mut t = 0;
    while t <= LEVEL_SCALE {
        let y = interp_f(200, 0, t);
        assert!(y <= prev);
        assert!(y <= 200);
        prev = y;
        t += 250;
    }
    assert_eq!(prev, 0);

    let mut prev_up = interp_f(0, 200, 0);
    let mut t_up = 0;
    while t_up <= LEVEL_SCALE {
        let y = interp_f(0, 200, t_up);
        assert!(y >= prev_up);
        prev_up = y;
        t_up += 250;
    }
    assert_eq!(prev_up, 200);
}

#[test]
fn interp_f_matches_the_float_formula_to_the_pixel() {
    // The fixed-point interpolation stands for a*(1-t) + b*t with t in
    // [0, 1]; rounded, the two never differ by more than one pixel.
    let cases: [(u32, u32, u32); 6] =
        [(204, 0, 0), (200, 0, 9500), (200, 0, 7000), (0, 640, 3333), (203, 0, 8300), (100, 50, 5000)];
    for &(a, b, t) in &cases {
        let exact = a as f64 * (1.0 - t as f64 / 10000.0) + b as f64 * (t as f64 / 10000.0);
        let fixed = interp_f(a, b, t) as f64;
        assert!((fixed - exact.round()).abs() <= 1.0);
    }
}

#[test]
fn interp_i_partitions_four_channels_without_gaps() {
    // Scenario: 108 pixels wide, x range [0, 107], four channels.
    let cuts: Vec<u32> = (0..=4).map(|pos| interp_i(0, 107, pos, 4)).collect();
    assert_eq!(cuts, vec![0, 26, 53, 80, 107]);
    // Contiguous, gap-free cover of the full width: each slot starts where
    // the previous one ends, the first at 0, the last ending at 107.
    assert_eq!(cuts[0], 0);
    assert_eq!(cuts[4], 107);
    for i in 0..4 {
        assert!(cuts[i] <= cuts[i + 1]);
    }
}

#[test]
fn interp_i_two_channels() {
    assert_eq!(interp_i(0, 107, 0, 2), 0);
    assert_eq!(interp_i(0, 107, 1, 2), 53);
    assert_eq!(interp_i(0, 107, 2, 2), 107);
}
