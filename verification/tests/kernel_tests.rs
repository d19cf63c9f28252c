use av_metrics::ssim::build_gaussian_kernel;

/// The real-valued half of kernel construction: tail coefficients of a
/// Gaussian with the given sigma, truncated once the first dropped
/// coefficient would round to less than half a fixed-point unit.
fn gaussian_tail(sigma: f64, max_len: usize, kernel_weight: usize) -> Vec<i64> {
    let scale = 1.0 / ((2.0 * std::f64::consts::PI).sqrt() * sigma);
    let nhisigma2 = -0.5 / sigma.powi(2);
    let s = (0.5 * std::f64::consts::PI).sqrt() * sigma * (1.0 / kernel_weight as f64);
    let len = if s >= 1.0 {
        0
    } else {
        (sigma * (-2.0 * s.log(std::f64::consts::E)).sqrt()).floor() as usize
    };
    let kernel_len = if len >= max_len { max_len - 1 } else { len };
    let mut tail = Vec::new();
    for ci in 1..=kernel_len {
        let val = kernel_weight as f64 * scale * std::f64::consts::E.powf(nhisigma2 * ci.pow(2) as f64)
            + 0.5;
        tail.push(val as i64);
    }
    tail
}

fn check_kernel(tail: &[i64], kernel_weight: i64) {
    let kernel = build_gaussian_kernel(&tail.to_vec(), kernel_weight);
    assert_eq!(kernel.len(), 2 * tail.len() + 1);
    // weights sum exactly to the fixed-point unit
    let sum: i64 = kernel.iter().sum();
    assert_eq!(sum, kernel_weight);
    // symmetric layout around the centre
    for ci in 1..=tail.len() {
        assert_eq!(kernel[tail.len() - ci], tail[ci - 1]);
        assert_eq!(kernel[tail.len() + ci], tail[ci - 1]);
    }
}

#[test]
fn msssim_kernel_sums_to_unit() {
    let tail = gaussian_tail(1.5, 5, 1024);
    assert_eq!(tail, vec![218, 112, 37, 8]);
    check_kernel(&tail, 1024);
    let kernel = build_gaussian_kernel(&tail, 1024);
    assert_eq!(kernel, vec![8, 37, 112, 218, 274, 218, 112, 37, 8]);
}

#[test]
fn ssim_kernel_for_tall_plane_sums_to_unit() {
    // sigma derived from a 64-row plane: height * 1.5 / 256
    let tail = gaussian_tail(64.0 * 1.5 / 256.0, 64, 256);
    assert_eq!(tail, vec![8]);
    let kernel = build_gaussian_kernel(&tail, 256);
    assert_eq!(kernel, vec![8, 240, 8]);
    assert_eq!(kernel.iter().sum::<i64>(), 256);
}

#[test]
fn kernel_sum_exact_across_sigmas() {
    // the exact-sum property holds whatever sigma and cap produced the tail
    for (sigma, max_len, kw) in [
        (0.375, 64, 256usize),
        (1.5, 5, 1024),
        (2.5, 9, 1024),
        (0.09375, 16, 256),
        (5.0, 3, 512),
        (1.0, 100, 256),
    ] {
        let tail = gaussian_tail(sigma, max_len, kw);
        check_kernel(&tail, kw as i64);
    }
}

#[test]
fn empty_tail_gives_point_kernel() {
    let kernel = build_gaussian_kernel(&Vec::new(), 256);
    assert_eq!(kernel, vec![256]);
}

#[test]
fn centre_absorbs_the_whole_unit_when_tail_uses_half() {
    // a tail whose doubled sum exhausts the unit leaves a zero centre
    let kernel = build_gaussian_kernel(&vec![100, 28], 256);
    assert_eq!(kernel, vec![28, 100, 0, 100, 28]);
    assert_eq!(kernel.iter().sum::<i64>(), 256);
}
