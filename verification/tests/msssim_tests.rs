use av_metrics::frame::Plane;
use av_metrics::msssim::{calculate_plane_msssim, msssim_downscale};

#[test]
fn downscale_sums_two_by_two_cells() {
    let input: Vec<u32> = (1..=16).collect();
    let out = msssim_downscale(&input, 4, 4);
    assert_eq!(out, vec![14, 22, 46, 54]);
}

#[test]
fn downscale_matches_plain_block_sum_on_even_dims() {
    // sum-based downsampling agrees with a reference-equivalent 2x2 block
    // sum whenever both dimensions are even
    let w = 6usize;
    let h = 4usize;
    let input: Vec<u32> = (0..w * h).map(|i| (i * i % 97) as u32).collect();
    let out = msssim_downscale(&input, w, h);
    assert_eq!(out.len(), (w / 2) * (h / 2));
    for j in 0..h / 2 {
        for i in 0..w / 2 {
            let plain = input[2 * j * w + 2 * i]
                + input[2 * j * w + 2 * i + 1]
                + input[(2 * j + 1) * w + 2 * i]
                + input[(2 * j + 1) * w + 2 * i + 1];
            assert_eq!(out[j * (w / 2) + i], plain);
        }
    }
}

#[test]
fn downscale_clamps_on_odd_dims_without_crashing() {
    let input: Vec<u32> = (1..=9).collect();
    let out = msssim_downscale(&input, 3, 3);
    assert_eq!(out, vec![1 + 2 + 4 + 5]);
    // odd width, even height
    let input2: Vec<u32> = (1..=10).collect();
    let out2 = msssim_downscale(&input2, 5, 2);
    assert_eq!(out2, vec![1 + 2 + 6 + 7, 3 + 4 + 8 + 9]);
}

#[test]
fn pyramid_has_five_scales_with_halved_dims() {
    let w = 33usize;
    let h = 35usize;
    let data: Vec<u16> = (0..w * h).map(|i| (i % 200) as u16).collect();
    let p = Plane { width: w, height: h, stride: w, sample_bytes: 1, data };
    let tail = vec![218, 112, 37, 8];
    let scales = calculate_plane_msssim(&p, &p, &tail);
    assert_eq!(scales.len(), 5);
    let mut sw = w;
    let mut sh = h;
    for s in &scales {
        assert_eq!(s.len(), sw * sh);
        sw /= 2;
        sh /= 2;
    }
}

#[test]
fn pyramid_scales_stay_symmetric_for_identical_planes() {
    let w = 32usize;
    let h = 32usize;
    let data: Vec<u16> = (0..w * h).map(|i| (i % 256) as u16).collect();
    let p = Plane { width: w, height: h, stride: w, sample_bytes: 1, data };
    let tail = vec![218, 112, 37, 8];
    let scales = calculate_plane_msssim(&p, &p, &tail);
    for grid in &scales {
        for m in grid.iter() {
            assert_eq!(m.mux, m.muy);
            assert_eq!(m.x2, m.xy);
            assert_eq!(m.xy, m.y2);
        }
    }
}
