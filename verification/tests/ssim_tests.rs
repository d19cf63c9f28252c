use av_metrics::ssim::{build_gaussian_kernel, ssim_plane_moments, SsimMoments};

const SSIM_K1: f64 = 0.01 * 0.01;
const SSIM_K2: f64 = 0.03 * 0.03;

/// The real-valued per-window scoring and weighted mean over a moment grid,
/// as the callers of the moment engine compute it.
fn score_from_moments(moments: &[SsimMoments], sample_max: u64) -> (f64, f64) {
    let mut ssim = 0.0;
    let mut ssimw = 0.0;
    let mut cs = 0.0;
    for m in moments {
        let w = m.w as f64;
        let c1 = sample_max.pow(2) as f64 * SSIM_K1 * w.powi(2);
        let c2 = sample_max.pow(2) as f64 * SSIM_K2 * w.powi(2);
        let mx2 = (m.mux as f64).powi(2);
        let mxy = m.mux as f64 * m.muy as f64;
        let my2 = (m.muy as f64).powi(2);
        let cs_tmp = w * (c2 + 2.0 * (m.xy as f64 * w - mxy))
            / (m.x2 as f64 * w - mx2 + m.y2 as f64 * w - my2 + c2);
        cs += cs_tmp;
        ssim += cs_tmp * (2.0 * mxy + c1) / (mx2 + my2 + c1);
        ssimw += w;
    }
    (ssim / ssimw, cs / ssimw)
}

#[test]
fn moments_of_tiny_plane_match_reference() {
    let p1: Vec<u32> = vec![10, 20, 30, 40, 50, 60, 70, 80, 90];
    let p2: Vec<u32> = vec![90, 80, 70, 60, 50, 40, 30, 20, 10];
    let kernel = build_gaussian_kernel(&vec![8], 256);
    assert_eq!(kernel, vec![8, 240, 8]);
    let grid = ssim_plane_moments(&p1, &p2, 3, 3, &kernel, &kernel);
    assert_eq!(grid.len(), 9);
    let m = &grid[0];
    assert_eq!(
        (m.mux, m.muy, m.x2, m.xy, m.y2, m.w),
        (694400, 5456000, 9760000, 59680000, 485920000, 61504)
    );
    let m = &grid[4];
    assert_eq!(
        (m.mux, m.muy, m.x2, m.xy, m.y2, m.w),
        (3276800, 3276800, 167936000, 159744000, 167936000, 65536)
    );
    let m = &grid[8];
    assert_eq!(
        (m.mux, m.muy, m.x2, m.xy, m.y2, m.w),
        (5456000, 694400, 485920000, 59680000, 9760000, 61504)
    );
}

#[test]
fn boundary_windows_use_only_existing_samples() {
    // a corner window of a 3x3 plane under kernel [8, 240, 8] keeps only the
    // weights whose source sample exists: total weight (8+240)^2
    let p: Vec<u32> = vec![1; 9];
    let kernel = build_gaussian_kernel(&vec![8], 256);
    let grid = ssim_plane_moments(&p, &p, 3, 3, &kernel, &kernel);
    assert_eq!(grid[0].w, 248 * 248);
    assert_eq!(grid[4].w, 256 * 256);
    assert_eq!(grid[2].w, 248 * 248);
}

#[test]
fn self_comparison_scores_exactly_one_per_window() {
    // any plane against itself: per-window luminance and structure ratios
    // are exactly 1, so the weighted mean is exactly 1
    let w = 16usize;
    let h = 16usize;
    let p: Vec<u32> = (0..w * h).map(|i| ((i * 7 + 3) % 251) as u32).collect();
    let kernel = build_gaussian_kernel(&vec![8], 256);
    let grid = ssim_plane_moments(&p, &p, w, h, &kernel, &kernel);
    assert_eq!(grid.len(), w * h);
    for m in &grid {
        assert_eq!(m.mux, m.muy);
        assert_eq!(m.x2, m.xy);
        assert_eq!(m.xy, m.y2);
    }
    let (ssim, cs) = score_from_moments(&grid, 255);
    assert!((ssim - 1.0).abs() < 1e-12, "ssim of identical planes was {}", ssim);
    assert!((cs - 1.0).abs() < 1e-12, "cs of identical planes was {}", cs);
}
