use sonicsplit::{Density, EngineError, Separator, GAIN, SCALE};

/// Fixed-point product as the library defines it: truncate toward zero,
/// saturate at the i64 bounds.
fn fxm(a: i64, b: i64) -> i64 {
    let p = (a as i128) * (b as i128);
    let q = if p >= 0 { p / (SCALE as i128) } else { -((-p) / (SCALE as i128)) };
    if q > i64::MAX as i128 {
        i64::MAX
    } else if q < i64::MIN as i128 {
        i64::MIN
    } else {
        q as i64
    }
}

fn sat(a: i128) -> i64 {
    if a > i64::MAX as i128 {
        i64::MAX
    } else if a < i64::MIN as i128 {
        i64::MIN
    } else {
        a as i64
    }
}

#[test]
fn construction_rejects_unsupported_channel_counts() {
    assert!(matches!(
        Separator::new(0, Density::Supergaussian, 10_000, 1, 4),
        Err(EngineError::UnsupportedChannelCount)
    ));
    assert!(matches!(
        Separator::new(7, Density::Supergaussian, 10_000, 1, 4),
        Err(EngineError::UnsupportedChannelCount)
    ));
    for c in 1..=6 {
        let s = Separator::new(c, Density::Supergaussian, 10_000, 1, 4).unwrap();
        assert_eq!(s.get_num_channels(), c as i32);
    }
}

#[test]
fn new_engine_starts_at_identity() {
    let s = Separator::new(3, Density::Subgaussian, 10_000, 5, 16).unwrap();
    let w = s.demixing_matrix();
    for i in 0..3 {
        for j in 0..3 {
            assert_eq!(w[i][j], if i == j { SCALE } else { 0 });
        }
    }
    assert!(s.is_enabled());
    assert_eq!(s.get_density(), Density::Subgaussian);
    assert_eq!(s.get_training_iters(), 5);
}

#[test]
fn control_accessors_roundtrip() {
    let mut s = Separator::new(2, Density::Supergaussian, 10_000, 5, 16).unwrap();
    s.set_density(Density::SubgaussianHyperbolicTangent);
    assert_eq!(s.get_density(), Density::SubgaussianHyperbolicTangent);
    s.set_training_iters(9);
    assert_eq!(s.get_training_iters(), 9);
    s.set_enabled(false);
    assert!(!s.is_enabled());
    s.set_enabled(true);
    assert!(s.is_enabled());
}

#[test]
fn disabled_passes_through_and_keeps_state() {
    let mut s = Separator::new(2, Density::Subgaussian, 10_000, 1, 4).unwrap();
    s.set_enabled(false);
    let w_before = s.demixing_matrix();
    let input = vec![vec![123_456, -789], vec![-500_000, 42]];
    let output = s.process_block(&input);
    assert_eq!(output, input);
    assert_eq!(s.demixing_matrix(), w_before);
    assert!(!s.is_enabled());
}

#[test]
fn zero_vector_block_leaves_matrix_unchanged() {
    let mut s = Separator::new(2, Density::Subgaussian, 500_000, 3, 4).unwrap();
    let w_before = s.demixing_matrix();
    let input = vec![vec![0, 0], vec![0, 0]];
    let output = s.process_block(&input);
    assert_eq!(s.demixing_matrix(), w_before);
    assert_eq!(output, vec![vec![0, 0], vec![0, 0]]);
}

#[test]
fn matrix_stays_identity_at_mu_zero() {
    let mut s = Separator::new(2, Density::Subgaussian, 0, 3, 4).unwrap();
    for block in 0..3 {
        let input = vec![
            vec![100_000 + block, -250_000],
            vec![777, 300_000 - block],
        ];
        let output = s.process_block(&input);
        // With W equal to the identity, the output is the input times the gain.
        for c in 0..2 {
            for t in 0..2 {
                assert_eq!(output[c][t], fxm(GAIN, input[c][t]));
            }
        }
    }
    let w = s.demixing_matrix();
    for i in 0..2 {
        for j in 0..2 {
            assert_eq!(w[i][j], if i == j { SCALE } else { 0 });
        }
    }
}

#[test]
fn full_replacement_at_mu_one() {
    // One channel, one sample of 0.5, unit learning rate, one pass:
    // y = 0.5, phi(y) = -y^3 = -0.125, U = 1 - 0.0625 = 0.9375,
    // and the new W is exactly U * W_old = 0.9375.
    let mut s = Separator::new(1, Density::Subgaussian, SCALE, 1, 4).unwrap();
    let output = s.process_block(&vec![vec![500_000]]);
    let w = s.demixing_matrix();
    assert_eq!(w[0][0], 937_500);
    assert_eq!(output[0][0], fxm(GAIN, fxm(937_500, 500_000)));
    assert_eq!(output[0][0], 1_406_250);
}

#[test]
fn canonical_single_channel_trajectory() {
    // C = 1, mu = 0.01, one training pass, capacity 4, Subgaussian density.
    // Four blocks of the single sample 1.0.  After block 1 the window holds
    // [1.0], y = 1.0, phi(y) = -1.0, U = 0, and W = 0.99 * 1.0 = 0.99; the
    // output is W * 1.0 * gain = 2.97.
    let mu: i64 = 10_000;
    let mut s = Separator::new(1, Density::Subgaussian, mu, 1, 4).unwrap();

    // Reference trajectory, computed by the documented update rule in the
    // same fixed-point arithmetic.
    let mut w_ref: i64 = SCALE;
    let mut window: Vec<i64> = Vec::new();
    let mut expected = Vec::new();
    for _ in 0..4 {
        if window.len() == 4 {
            window.remove(0);
        }
        window.push(SCALE);
        for &x in window.iter() {
            let y = fxm(w_ref, x);
            if y == 0 {
                continue;
            }
            let g = -fxm(fxm(y, y), y);
            let u = sat(SCALE as i128 + fxm(g, y) as i128);
            let uw = fxm(u, w_ref);
            w_ref = sat(fxm(SCALE - mu, w_ref) as i128 + fxm(mu, uw) as i128);
        }
        expected.push((w_ref, fxm(GAIN, fxm(w_ref, SCALE))));
    }
    assert_eq!(expected[0].0, 990_000);
    assert_eq!(expected[0].1, 2_970_000);

    for b in 0..4 {
        let output = s.process_block(&vec![vec![SCALE]]);
        assert_eq!(s.demixing_matrix()[0][0], expected[b].0);
        assert_eq!(output[0][0], expected[b].1);
    }
}

#[test]
fn adaptation_trains_over_whole_window() {
    // With capacity 2 and two one-sample blocks, the second block's pass
    // adapts over both held vectors, in insertion order.
    let mu: i64 = 100_000;
    let mut s = Separator::new(1, Density::Subgaussian, mu, 1, 2).unwrap();
    let step = |w: i64, x: i64| -> i64 {
        let y = fxm(w, x);
        if y == 0 {
            return w;
        }
        let g = -fxm(fxm(y, y), y);
        let u = sat(SCALE as i128 + fxm(g, y) as i128);
        let uw = fxm(u, w);
        sat(fxm(SCALE - mu, w) as i128 + fxm(mu, uw) as i128)
    };
    let mut w_ref: i64 = SCALE;
    w_ref = step(w_ref, 500_000);
    s.process_block(&vec![vec![500_000]]);
    assert_eq!(s.demixing_matrix()[0][0], w_ref);
    w_ref = step(w_ref, 500_000);
    w_ref = step(w_ref, 250_000);
    s.process_block(&vec![vec![250_000]]);
    assert_eq!(s.demixing_matrix()[0][0], w_ref);
}

#[test]
fn multiple_training_iterations_repeat_the_pass() {
    let mu: i64 = 100_000;
    let step = |w: i64, x: i64| -> i64 {
        let y = fxm(w, x);
        if y == 0 {
            return w;
        }
        let g = -fxm(fxm(y, y), y);
        let u = sat(SCALE as i128 + fxm(g, y) as i128);
        let uw = fxm(u, w);
        sat(fxm(SCALE - mu, w) as i128 + fxm(mu, uw) as i128)
    };
    let mut s = Separator::new(1, Density::Subgaussian, mu, 3, 4).unwrap();
    let mut w_ref: i64 = SCALE;
    for _ in 0..3 {
        w_ref = step(w_ref, 600_000);
    }
    s.process_block(&vec![vec![600_000]]);
    assert_eq!(s.demixing_matrix()[0][0], w_ref);
}

#[test]
fn empty_block_runs_adaptation_only() {
    // A zero-length block ingests nothing but still adapts over the window.
    let mu: i64 = 100_000;
    let mut s = Separator::new(1, Density::Subgaussian, mu, 1, 4).unwrap();
    s.process_block(&vec![vec![500_000]]);
    let w_after_first = s.demixing_matrix()[0][0];
    let output = s.process_block(&vec![vec![]]);
    assert!(output[0].is_empty());
    // The window still holds 0.5, so the matrix moved again.
    assert_ne!(s.demixing_matrix()[0][0], w_after_first);
}
