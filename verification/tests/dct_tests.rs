use av_metrics::dct::{od_bin_fdct8, od_bin_fdct8x8, od_dct_rshift};

#[test]
fn rshift_truncates_toward_zero() {
    assert_eq!(od_dct_rshift(5, 1), 2);
    assert_eq!(od_dct_rshift(-5, 1), -2);
    assert_eq!(od_dct_rshift(-4, 1), -2);
    assert_eq!(od_dct_rshift(4, 1), 2);
    assert_eq!(od_dct_rshift(7, 2), 1);
    assert_eq!(od_dct_rshift(-7, 2), -1);
    assert_eq!(od_dct_rshift(0, 5), 0);
    assert_eq!(od_dct_rshift(-1, 1), 0);
}

#[test]
fn fdct8x8_of_flat_block_concentrates_in_dc() {
    let mut blk: Vec<i64> = vec![100; 64];
    od_bin_fdct8x8(&mut blk);
    assert_eq!(blk[0], 800);
    for k in 1..64 {
        assert_eq!(blk[k], 0, "coefficient {} of a flat block", k);
    }
}

#[test]
fn fdct8x8_matches_reference_vector() {
    let input: Vec<i64> = (0..64).map(|c| ((3 * (c / 8) + 5 * (c % 8)) % 17) as i64).collect();
    let expected: [i64; 64] = [
        61, -1, -5, -4, -5, 3, 1, 1, -2, -1, -2, 1, -7, 0, -4, 2, -5, -1, -10, -2, -17, 6, 3, -3,
        4, -7, 2, -2, 8, 16, -4, -3, -4, 3, -2, 0, 8, -6, -5, 1, -2, 3, -6, -4, 0, 2, -8, -7, 1,
        4, 3, -2, 2, -3, 9, -4, 2, -1, -8, 0, 1, 1, 4, 1,
    ];
    let mut blk = input.clone();
    od_bin_fdct8x8(&mut blk);
    assert_eq!(blk, expected.to_vec());
}

#[test]
fn fdct8_reads_one_column() {
    // an 8x8 grid whose first column is constant: one 8-point pass gives a
    // pure DC output with the pass's fixed-point gain
    let mut grid: Vec<i64> = vec![0; 64];
    for k in 0..8 {
        grid[8 * k] = 7;
    }
    let y = od_bin_fdct8(&grid, 0);
    assert_eq!(y, vec![20, 0, 0, 0, 0, 0, 0, 0]);
}
