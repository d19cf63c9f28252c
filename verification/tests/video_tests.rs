use av_metrics::frame::{Frame, Plane};
use av_metrics::psnr_hvs::{calculate_video_psnr_hvs, PsnrHvsBlock};
use av_metrics::ssim::{calculate_video_ssim, FrameSsim, KernelTails, SsimMoments};

const SSIM_K1: f64 = 0.01 * 0.01;
const SSIM_K2: f64 = 0.03 * 0.03;

fn log10_convert_psnr(score: f64, weight: f64) -> f64 {
    10.0 * (-1.0 * (weight * score).log10())
}

fn log10_convert_ssim(score: f64, weight: f64) -> f64 {
    10.0 * (weight.log10() - (weight - score).log10())
}

fn ssim_plane_score(moments: &[SsimMoments], sample_max: u64) -> f64 {
    let mut ssim = 0.0;
    let mut ssimw = 0.0;
    for m in moments {
        let w = m.w as f64;
        let c1 = sample_max.pow(2) as f64 * SSIM_K1 * w.powi(2);
        let c2 = sample_max.pow(2) as f64 * SSIM_K2 * w.powi(2);
        let mx2 = (m.mux as f64).powi(2);
        let mxy = m.mux as f64 * m.muy as f64;
        let my2 = (m.muy as f64).powi(2);
        let cs_tmp = w * (c2 + 2.0 * (m.xy as f64 * w - mxy))
            / (m.x2 as f64 * w - mx2 + m.y2 as f64 * w - my2 + c2);
        ssim += cs_tmp * (2.0 * mxy + c1) / (mx2 + my2 + c1);
        ssimw += w;
    }
    ssim / ssimw
}

const CSF_Y: [[f64; 8]; 8] = [
    [1.6193873005, 2.2901594831, 2.08509755623, 1.48366094411, 1.00227514334, 0.678296995242, 0.466224900598, 0.3265091542],
    [2.2901594831, 1.94321815382, 2.04793073064, 1.68731108984, 1.2305666963, 0.868920337363, 0.61280991668, 0.436405793551],
    [2.08509755623, 2.04793073064, 1.34329019223, 1.09205635862, 0.875748795257, 0.670882927016, 0.501731932449, 0.372504254596],
    [1.48366094411, 1.68731108984, 1.09205635862, 0.772819797575, 0.605636379554, 0.48309405692, 0.380429446972, 0.295774038565],
    [1.00227514334, 1.2305666963, 0.875748795257, 0.605636379554, 0.448996256676, 0.352889268808, 0.283006984131, 0.226951348204],
    [0.678296995242, 0.868920337363, 0.670882927016, 0.48309405692, 0.352889268808, 0.27032073436, 0.215017739696, 0.17408067321],
    [0.466224900598, 0.61280991668, 0.501731932449, 0.380429446972, 0.283006984131, 0.215017739696, 0.168869545842, 0.136153931001],
    [0.3265091542, 0.436405793551, 0.372504254596, 0.295774038565, 0.226951348204, 0.17408067321, 0.136153931001, 0.109083846276]
];

fn psnr_hvs_plane_score(blocks: &[PsnrHvsBlock], csf: &[[f64; 8]; 8], bit_depth: usize) -> f64 {
    const CSF_MULTIPLIER: f64 = 0.3885746225901003;
    let mut mask = [[0.0; 8]; 8];
    for x in 0..8 {
        for y in 0..8 {
            mask[x][y] = (csf[x][y] * CSF_MULTIPLIER).powi(2);
        }
    }
    let mut result = 0.0;
    let mut pixels = 0usize;
    for b in blocks {
        let mut p1_gvar = b.gvar1_num as f64 / 4096.0 * (64.0 / 63.0);
        let mut p2_gvar = b.gvar2_num as f64 / 4096.0 * (64.0 / 63.0);
        let p1_vars: Vec<f64> =
            b.vars1_num.iter().map(|&v| v as f64 / 256.0 * (16.0 / 15.0)).collect();
        let p2_vars: Vec<f64> =
            b.vars2_num.iter().map(|&v| v as f64 / 256.0 * (16.0 / 15.0)).collect();
        if p1_gvar > 0.0 {
            p1_gvar = p1_vars.iter().sum::<f64>() / p1_gvar;
        }
        if p2_gvar > 0.0 {
            p2_gvar = p2_vars.iter().sum::<f64>() / p2_gvar;
        }
        let mut p1_mask = 0.0;
        let mut p2_mask = 0.0;
        for i in 0..8 {
            for j in (i == 0) as usize..8 {
                p1_mask += b.dct1[i * 8 + j].pow(2) as f64 * mask[i][j];
                p2_mask += b.dct2[i * 8 + j].pow(2) as f64 * mask[i][j];
            }
        }
        p1_mask = (p1_mask * p1_gvar).sqrt() / 32.0;
        p2_mask = (p2_mask * p2_gvar).sqrt() / 32.0;
        if p2_mask > p1_mask {
            p1_mask = p2_mask;
        }
        for i in 0..8 {
            for j in 0..8 {
                let mut err = (b.dct1[i * 8 + j] - b.dct2[i * 8 + j]).abs() as f64;
                if i != 0 || j != 0 {
                    let err_mask = p1_mask / mask[i][j];
                    err = if err < err_mask { 0.0 } else { err - err_mask };
                }
                result += (err * csf[i][j]).powi(2);
                pixels += 1;
            }
        }
    }
    result /= pixels as f64;
    let sample_max: usize = (1 << bit_depth) - 1;
    result /= sample_max.pow(2) as f64;
    result
}

fn make_frame(w: usize, h: usize, f: impl Fn(usize) -> u16) -> Frame {
    let data: Vec<u16> = (0..w * h).map(&f).collect();
    let plane = Plane { width: w, height: h, stride: w, sample_bytes: 1, data };
    Frame { planes: vec![plane.clone(), plane.clone(), plane] }
}

#[test]
fn identical_frames_ssim_is_one_and_channels_agree() {
    let f = make_frame(64, 64, |i| ((i * 11 + 5) % 256) as u16);
    let video1 = vec![f.clone()];
    let video2 = vec![f];
    let tails = vec![KernelTails { y: vec![8], u: vec![8], v: vec![8] }];
    let frames: Vec<FrameSsim> =
        calculate_video_ssim(&video1, &video2, 8, None, &tails).unwrap();
    assert_eq!(frames.len(), 1);
    let y = ssim_plane_score(&frames[0].y, 255);
    let u = ssim_plane_score(&frames[0].u, 255);
    let v = ssim_plane_score(&frames[0].v, 255);
    assert!((y - 1.0).abs() < 1e-12);
    assert_eq!(y, u);
    assert_eq!(y, v);
    // single-frame channel scores and the chroma-weight-1 average
    let cweight = 1.0;
    let py = log10_convert_ssim(y, 1.0);
    let pu = log10_convert_ssim(u, 1.0);
    let pv = log10_convert_ssim(v, 1.0);
    let avg = log10_convert_ssim(y + cweight * (u + v), 1.0 + 2.0 * cweight);
    assert_eq!(py, pu);
    assert_eq!(py, pv);
    assert_eq!(avg, py);
}

#[test]
fn identical_frames_psnr_hvs_error_is_zero_without_crashing() {
    let f = make_frame(64, 64, |i| ((i * 7 + 3) % 256) as u16);
    let video1 = vec![f.clone()];
    let video2 = vec![f];
    let frames = calculate_video_psnr_hvs(&video1, &video2, 8, None).unwrap();
    assert_eq!(frames.len(), 1);
    let y = psnr_hvs_plane_score(&frames[0].y, &CSF_Y, 8);
    let u = psnr_hvs_plane_score(&frames[0].u, &CSF_Y, 8);
    let v = psnr_hvs_plane_score(&frames[0].v, &CSF_Y, 8);
    assert_eq!(y, 0.0);
    assert_eq!(u, 0.0);
    assert_eq!(v, 0.0);
    // log conversion of a zero error must not divide by zero or panic; the
    // channel scores and the weighted average all land on the same value
    let cweight = 1.0;
    let py = log10_convert_psnr(y, 1.0);
    let avg = log10_convert_psnr(y + cweight * (u + v), 1.0 + 2.0 * cweight);
    assert!(py.is_infinite() && py > 0.0);
    assert_eq!(avg, py);
}

fn video_ssim_aggregate(video1: &Vec<Frame>, video2: &Vec<Frame>, tails: &Vec<KernelTails>) -> f64 {
    let frames = calculate_video_ssim(video1, video2, 8, None, tails).unwrap();
    let sum: f64 = frames.iter().map(|fr| ssim_plane_score(&fr.y, 255)).sum();
    log10_convert_ssim(sum, frames.len() as f64)
}

#[test]
fn degraded_second_frame_lowers_aggregate_and_order_does_not_matter() {
    let a = make_frame(16, 16, |i| ((i * 5 + 40) % 200) as u16);
    let b = make_frame(16, 16, |i| ((i * 5 + 40) % 200 + 30) as u16);
    let tails = vec![
        KernelTails { y: Vec::new(), u: Vec::new(), v: Vec::new() },
        KernelTails { y: Vec::new(), u: Vec::new(), v: Vec::new() },
    ];
    // one-frame video of the identical pair
    let one = video_ssim_aggregate(&vec![a.clone()], &vec![a.clone()], &tails);
    // two frames: the first identical, the second with a uniform offset
    let two =
        video_ssim_aggregate(&vec![a.clone(), a.clone()], &vec![a.clone(), b.clone()], &tails);
    assert!(two < one, "two-frame aggregate {} not below one-frame {}", two, one);
    // swapping the frame order leaves the aggregate unchanged
    let swapped =
        video_ssim_aggregate(&vec![a.clone(), a.clone()], &vec![b.clone(), a.clone()], &tails);
    assert_eq!(two, swapped);
}

#[test]
fn psnr_hvs_and_ssim_log_forms_are_distinct() {
    // summing linear scores then log-converting with the 1/frame-count
    // weight reproduces the per-frame dB value for identical frames
    let s = 0.0125f64;
    let per_frame = log10_convert_psnr(s, 1.0);
    let aggregate = log10_convert_psnr(s + s, 1.0 / 2.0);
    assert_eq!(aggregate, per_frame);
    // and it is summing-then-converting, not averaging dB values
    let s1 = 0.0125f64;
    let s2 = 0.2f64;
    let summed = log10_convert_psnr(s1 + s2, 1.0 / 2.0);
    let averaged_db = (log10_convert_psnr(s1, 1.0) + log10_convert_psnr(s2, 1.0)) / 2.0;
    assert!((summed - averaged_db).abs() > 1.0);
    // the SSIM form is a different function of the same arguments
    let x = 0.5f64;
    assert!((log10_convert_psnr(x, 2.0) - log10_convert_ssim(x, 2.0)).abs() > 1e-6);
}

#[test]
fn frame_limit_and_shorter_stream_bound_the_comparison() {
    let a = make_frame(8, 8, |i| (i % 100) as u16);
    let video1 = vec![a.clone(), a.clone(), a.clone()];
    let video2 = vec![a.clone(), a.clone()];
    let frames = calculate_video_psnr_hvs(&video1, &video2, 8, None).unwrap();
    assert_eq!(frames.len(), 2);
    let frames = calculate_video_psnr_hvs(&video1, &video2, 8, Some(1)).unwrap();
    assert_eq!(frames.len(), 1);
}

#[test]
fn mid_stream_mismatch_aborts_the_video() {
    let a = make_frame(8, 8, |i| (i % 100) as u16);
    let small = make_frame(4, 4, |i| (i % 100) as u16);
    let video1 = vec![a.clone(), a.clone()];
    let video2 = vec![a.clone(), small];
    assert!(calculate_video_psnr_hvs(&video1, &video2, 8, None).is_err());
}
