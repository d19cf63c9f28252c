use av_metrics::frame::Plane;
use av_metrics::psnr_hvs::{psnr_hvs_plane_blocks, PsnrHvsBlock};

fn plane_8x8() -> Plane {
    let data: Vec<u16> = (0..64).map(|c| ((3 * (c / 8) + 5 * (c % 8)) % 17) as u16).collect();
    Plane { width: 8, height: 8, stride: 8, sample_bytes: 1, data }
}

#[test]
fn single_block_statistics_match_reference() {
    let p = plane_8x8();
    let blocks = psnr_hvs_plane_blocks(&p, &p);
    assert_eq!(blocks.len(), 1);
    let b = &blocks[0];
    assert_eq!(b.gvar1_num, 6388736);
    assert_eq!(b.vars1_num, vec![100096, 104176, 91120, 103360]);
    let expected_dct: [i64; 64] = [
        61, -1, -5, -4, -5, 3, 1, 1, -2, -1, -2, 1, -7, 0, -4, 2, -5, -1, -10, -2, -17, 6, 3, -3,
        4, -7, 2, -2, 8, 16, -4, -3, -4, 3, -2, 0, 8, -6, -5, 1, -2, 3, -6, -4, 0, 2, -8, -7, 1,
        4, 3, -2, 2, -3, 9, -4, 2, -1, -8, 0, 1, 1, 4, 1,
    ];
    assert_eq!(b.dct1, expected_dct.to_vec());
}

#[test]
fn identical_planes_give_identical_block_halves() {
    // the integer content of a zero PSNR-HVS error: both DCT blocks and both
    // variance numerators agree, so every DCT-domain difference is zero
    let p = plane_8x8();
    let blocks = psnr_hvs_plane_blocks(&p, &p);
    for b in &blocks {
        assert_eq!(b.dct1, b.dct2);
        assert_eq!(b.gvar1_num, b.gvar2_num);
        assert_eq!(b.vars1_num, b.vars2_num);
    }
}

#[test]
fn blocks_step_by_seven_and_skip_partial_tail() {
    // a 22x15 plane: columns at x0 = 0 and 7 fit (14 + 8 <= 22), rows at
    // y0 = 0 and 7 fit; x0 = 21 and y0 = 14 would run past the edge
    let w = 22usize;
    let h = 15usize;
    let data: Vec<u16> = (0..w * h).map(|i| (i % 13) as u16).collect();
    let p = Plane { width: w, height: h, stride: w, sample_bytes: 1, data };
    let blocks = psnr_hvs_plane_blocks(&p, &p);
    assert_eq!(blocks.len(), 3 * 2);
}

#[test]
fn plane_smaller_than_a_block_yields_no_blocks() {
    let p = Plane { width: 7, height: 7, stride: 7, sample_bytes: 1, data: vec![5; 49] };
    let blocks: Vec<PsnrHvsBlock> = psnr_hvs_plane_blocks(&p, &p);
    assert_eq!(blocks.len(), 0);
}

#[test]
fn sixteen_bit_storage_samples_wrap_to_signed() {
    // the block engine reads samples as signed 16-bit values, so a stored
    // 65535 counts as -1 in the block statistics
    let mut data: Vec<u16> = vec![0; 64];
    data[0] = 65535;
    let p = Plane { width: 8, height: 8, stride: 8, sample_bytes: 2, data };
    let blocks = psnr_hvs_plane_blocks(&p, &p);
    assert_eq!(blocks.len(), 1);
    // sum S = -1: the flipped cell contributes (-64 + 1)^2, the other 63
    // cells contribute (0 + 1)^2 each
    assert_eq!(blocks[0].gvar1_num, 63 * 63 + 63);
}
