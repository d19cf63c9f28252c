//! The integer core of the PSNR-HVS engine: 8x8 block partitioning, block
//! and quadrant statistics, and the fixed-point DCT of every block.
//!
//! PSNR-HVS weighs DCT-domain differences by a contrast sensitivity function
//! and a per-block masking energy. The masking weights are real-valued, so
//! the final weighing lives with the caller; everything it consumes — the
//! two DCT coefficient blocks and the exact integer numerators of the global
//! and quadrant variances — is computed and proved here.

use crate::dct::fdct8x8_spec;
use crate::dct::ints;
use crate::dct::od_bin_fdct8x8;
use crate::frame::valid_frame_pair;
use crate::frame::validate_frame_pair;
use crate::frame::Frame;
use crate::frame::Plane;
use crate::parallel::join_psnr_hvs_planes;
use crate::sums::sum_range;
use crate::MetricsError;
use vstd::arithmetic::mul::lemma_mul_inequality;
use vstd::arithmetic::mul::lemma_mul_is_commutative;
use vstd::prelude::*;

verus! {

/// A stored sample reinterpreted as a signed 16-bit value, the way the
/// block engine reads samples of either storage width.
pub open spec fn signed16(v: u16) -> int {
    if v < 32768 {
        v as int
    } else {
        v as int - 65536
    }
}

/// Index of the 4x4 quadrant that cell `c` (row-major in an 8x8 block)
/// belongs to: quadrants 0 and 1 are the left half, top and bottom.
pub open spec fn quad_of(c: int) -> int {
    (c / 8) / 4 + 2 * ((c % 8) / 4)
}

/// Signed value of cell `c` of the 8x8 block whose top-left sample sits at
/// `(x0, y0)` of a plane stored with the given stride.
pub open spec fn block_sample(data: Seq<u16>, stride: int, x0: int, y0: int, c: int) -> int {
    signed16(data[(y0 + c / 8) * stride + x0 + c % 8])
}

/// The block's 64 signed samples in row-major order.
pub open spec fn block_seq(data: Seq<u16>, stride: int, x0: int, y0: int) -> Seq<int> {
    Seq::new(64, |c: int| block_sample(data, stride, x0, y0, c))
}

/// Term function of the block's plain sample sum.
pub open spec fn block_sum_fn(data: Seq<u16>, stride: int, x0: int, y0: int) -> spec_fn(int) -> int {
    |c: int| block_sample(data, stride, x0, y0, c)
}

/// Sum of the block's 64 signed samples.
pub open spec fn block_sum(data: Seq<u16>, stride: int, x0: int, y0: int) -> int {
    sum_range(block_sum_fn(data, stride, x0, y0), 0, 64)
}

/// Term function of one quadrant's sample sum: cells outside quadrant `q`
/// contribute zero.
pub open spec fn quad_sum_fn(data: Seq<u16>, stride: int, x0: int, y0: int, q: int) -> spec_fn(
    int,
) -> int {
    |c: int|
        if quad_of(c) == q {
            block_sample(data, stride, x0, y0, c)
        } else {
            0
        }
}

/// Sum of the 16 signed samples of quadrant `q`.
pub open spec fn quad_sum(data: Seq<u16>, stride: int, x0: int, y0: int, q: int) -> int {
    sum_range(quad_sum_fn(data, stride, x0, y0, q), 0, 64)
}

/// Term function of the global variance numerator: the squared deviation of
/// each sample, scaled by 64 so everything stays integral. The real-valued
/// block variance (before its 64/63 correction) is this sum divided by 4096.
pub open spec fn gvar_term_fn(data: Seq<u16>, stride: int, x0: int, y0: int) -> spec_fn(int) -> int {
    |c: int|
        {
            let d = 64 * block_sample(data, stride, x0, y0, c) - block_sum(data, stride, x0, y0);
            d * d
        }
}

/// Numerator of the block's global variance: `sum((64*s - S)^2)`.
pub open spec fn block_gvar_num(data: Seq<u16>, stride: int, x0: int, y0: int) -> int {
    sum_range(gvar_term_fn(data, stride, x0, y0), 0, 64)
}

/// Term function of one quadrant's variance numerator, scaled by 16; the
/// real-valued quadrant variance (before its 16/15 correction) is this sum
/// divided by 256.
pub open spec fn qvar_term_fn(data: Seq<u16>, stride: int, x0: int, y0: int, q: int) -> spec_fn(
    int,
) -> int {
    |c: int|
        if quad_of(c) == q {
            let d = 16 * block_sample(data, stride, x0, y0, c) - quad_sum(
                data,
                stride,
                x0,
                y0,
                q,
            );
            d * d
        } else {
            0
        }
}

/// Numerator of quadrant `q`'s variance: `sum over the quadrant of (16*s - Sq)^2`.
pub open spec fn quad_var_num(data: Seq<u16>, stride: int, x0: int, y0: int, q: int) -> int {
    sum_range(qvar_term_fn(data, stride, x0, y0, q), 0, 64)
}

/// Everything the masking and error weighing steps need of one 8x8 block
/// position: the DCT of both planes' blocks and the exact integer
/// numerators of their global and quadrant variances.
pub struct PsnrHvsBlock {
    /// DCT coefficients of the first plane's block, row-major.
    pub dct1: Vec<i64>,
    /// DCT coefficients of the second plane's block, row-major.
    pub dct2: Vec<i64>,
    /// Global variance numerator of the first plane's block.
    pub gvar1_num: i64,
    /// Global variance numerator of the second plane's block.
    pub gvar2_num: i64,
    /// The four quadrant variance numerators of the first plane's block.
    pub vars1_num: Vec<i64>,
    /// The four quadrant variance numerators of the second plane's block.
    pub vars2_num: Vec<i64>,
}

/// The block record holds exactly the statistics of the block at `(x0, y0)`
/// of the two planes.
pub open spec fn block_matches(
    b: &PsnrHvsBlock,
    d1: Seq<u16>,
    s1: int,
    d2: Seq<u16>,
    s2: int,
    x0: int,
    y0: int,
) -> bool {
    &&& b.dct1@.len() == 64
    &&& b.dct2@.len() == 64
    &&& b.vars1_num@.len() == 4
    &&& b.vars2_num@.len() == 4
    &&& forall|k: int| 0 <= k < 64 ==> b.dct1@[k] == fdct8x8_spec(block_seq(d1, s1, x0, y0))[k]
    &&& forall|k: int| 0 <= k < 64 ==> b.dct2@[k] == fdct8x8_spec(block_seq(d2, s2, x0, y0))[k]
    &&& b.gvar1_num == block_gvar_num(d1, s1, x0, y0)
    &&& b.gvar2_num == block_gvar_num(d2, s2, x0, y0)
    &&& forall|q: int| 0 <= q < 4 ==> b.vars1_num@[q] == quad_var_num(d1, s1, x0, y0, q)
    &&& forall|q: int| 0 <= q < 4 ==> b.vars2_num@[q] == quad_var_num(d2, s2, x0, y0, q)
}

/// A sample index inside the plane's buffer.
proof fn lemma_plane_index(y: int, x: int, stride: int, height: int, width: int)
    requires
        0 <= y < height,
        0 <= x < width,
        width <= stride,
    ensures
        0 <= y * stride + x < stride * height,
        y * stride >= 0,
{
    lemma_mul_inequality(y, height - 1, stride);
    assert((height - 1) * stride == height * stride - stride) by (nonlinear_arith);
    lemma_mul_is_commutative(height, stride);
    vstd::arithmetic::mul::lemma_mul_nonnegative(y, stride);
}

/// Reads one stored sample as its signed 16-bit value.
fn sample_signed(v: u16) -> (r: i64)
    ensures
        r == signed16(v),
        -0x8000 <= r <= 0x8000,
{
    if v < 32768 {
        v as i64
    } else {
        v as i64 - 65536
    }
}

/// Squares a bounded value.
fn sq_i64(v: i64) -> (r: i64)
    requires
        -0x80_0000 <= v <= 0x80_0000,
    ensures
        r == v * v,
        0 <= r <= 0x4000_0000_0000,
{
    proof {
        assert(v * v <= 0x4000_0000_0000 && v * v >= 0) by (nonlinear_arith)
            requires
                -0x80_0000 <= v <= 0x80_0000,
        ;
    }
    v * v
}

/// Sums the signed samples of the 8x8 block at `(x0, y0)`: the whole block
/// and each 4x4 quadrant.
fn block_stats(p: &Plane, x0: usize, y0: usize) -> (r: (i64, Vec<i64>))
    requires
        p.is_valid(),
        x0 + 8 <= p.width,
        y0 + 8 <= p.height,
    ensures
        r.0 == block_sum(p.data@, p.stride as int, x0 as int, y0 as int),
        -0x20_0000 <= r.0 <= 0x20_0000,
        r.1@.len() == 4,
        forall|q: int|
            0 <= q < 4 ==> r.1@[q] == quad_sum(p.data@, p.stride as int, x0 as int, y0 as int, q)
                && -0x20_0000 <= #[trigger] r.1@[q] <= 0x20_0000,
{
    let ghost d = p.data@;
    let ghost st = p.stride as int;
    let stride = p.stride;
    let mut total: i64 = 0;
    let mut q0: i64 = 0;
    let mut q1: i64 = 0;
    let mut q2: i64 = 0;
    let mut q3: i64 = 0;
    let mut c: usize = 0;
    while c < 64
        invariant
            0 <= c <= 64,
            p.is_valid(),
            x0 + 8 <= p.width,
            y0 + 8 <= p.height,
            d == p.data@,
            st == p.stride as int,
            stride == p.stride,
            total == sum_range(block_sum_fn(d, st, x0 as int, y0 as int), 0, c as int),
            q0 == sum_range(quad_sum_fn(d, st, x0 as int, y0 as int, 0), 0, c as int),
            q1 == sum_range(quad_sum_fn(d, st, x0 as int, y0 as int, 1), 0, c as int),
            q2 == sum_range(quad_sum_fn(d, st, x0 as int, y0 as int, 2), 0, c as int),
            q3 == sum_range(quad_sum_fn(d, st, x0 as int, y0 as int, 3), 0, c as int),
            -0x8000 * c <= total <= 0x8000 * c,
            -0x8000 * c <= q0 <= 0x8000 * c,
            -0x8000 * c <= q1 <= 0x8000 * c,
            -0x8000 * c <= q2 <= 0x8000 * c,
            -0x8000 * c <= q3 <= 0x8000 * c,
        decreases 64 - c,
    {
        let i = c / 8;
        let j = c % 8;
        proof {
            lemma_plane_index(
                y0 + i,
                x0 + j,
                st,
                p.height as int,
                p.width as int,
            );
        }
        let idx = (y0 + i) * stride + x0 + j;
        let s = sample_signed(p.data[idx]);
        let qi = i / 4 + 2 * (j / 4);
        assert(qi == quad_of(c as int));
        assert(s == block_sample(d, st, x0 as int, y0 as int, c as int));
        total = total + s;
        if qi == 0 {
            q0 = q0 + s;
        } else if qi == 1 {
            q1 = q1 + s;
        } else if qi == 2 {
            q2 = q2 + s;
        } else {
            q3 = q3 + s;
        }
        c = c + 1;
    }
    let mut quads: Vec<i64> = Vec::new();
    quads.push(q0);
    quads.push(q1);
    quads.push(q2);
    quads.push(q3);
    (total, quads)
}

/// Accumulates the global and quadrant variance numerators of the block at
/// `(x0, y0)` from its precomputed sums.
fn block_var_nums(p: &Plane, x0: usize, y0: usize, total: i64, quads: &Vec<i64>) -> (r: (
    i64,
    Vec<i64>,
))
    requires
        p.is_valid(),
        x0 + 8 <= p.width,
        y0 + 8 <= p.height,
        total == block_sum(p.data@, p.stride as int, x0 as int, y0 as int),
        -0x20_0000 <= total <= 0x20_0000,
        quads@.len() == 4,
        forall|q: int|
            0 <= q < 4 ==> quads@[q] == quad_sum(p.data@, p.stride as int, x0 as int, y0 as int, q)
                && -0x20_0000 <= #[trigger] quads@[q] <= 0x20_0000,
    ensures
        r.0 == block_gvar_num(p.data@, p.stride as int, x0 as int, y0 as int),
        0 <= r.0,
        r.1@.len() == 4,
        forall|q: int|
            0 <= q < 4 ==> r.1@[q] == quad_var_num(
                p.data@,
                p.stride as int,
                x0 as int,
                y0 as int,
                q,
            ) && 0 <= #[trigger] r.1@[q],
{
    let ghost d = p.data@;
    let ghost st = p.stride as int;
    let stride = p.stride;
    let mut gvar: i64 = 0;
    let mut v0: i64 = 0;
    let mut v1: i64 = 0;
    let mut v2: i64 = 0;
    let mut v3: i64 = 0;
    let mut c: usize = 0;
    while c < 64
        invariant
            0 <= c <= 64,
            p.is_valid(),
            x0 + 8 <= p.width,
            y0 + 8 <= p.height,
            d == p.data@,
            st == p.stride as int,
            stride == p.stride,
            total == block_sum(d, st, x0 as int, y0 as int),
            -0x20_0000 <= total <= 0x20_0000,
            quads@.len() == 4,
            forall|q: int|
                0 <= q < 4 ==> quads@[q] == quad_sum(d, st, x0 as int, y0 as int, q)
                    && -0x20_0000 <= #[trigger] quads@[q] <= 0x20_0000,
            gvar == sum_range(gvar_term_fn(d, st, x0 as int, y0 as int), 0, c as int),
            v0 == sum_range(qvar_term_fn(d, st, x0 as int, y0 as int, 0), 0, c as int),
            v1 == sum_range(qvar_term_fn(d, st, x0 as int, y0 as int, 1), 0, c as int),
            v2 == sum_range(qvar_term_fn(d, st, x0 as int, y0 as int, 2), 0, c as int),
            v3 == sum_range(qvar_term_fn(d, st, x0 as int, y0 as int, 3), 0, c as int),
            0 <= gvar <= 0x4000_0000_0000 * c,
            0 <= v0 <= 0x4000_0000_0000 * c,
            0 <= v1 <= 0x4000_0000_0000 * c,
            0 <= v2 <= 0x4000_0000_0000 * c,
            0 <= v3 <= 0x4000_0000_0000 * c,
        decreases 64 - c,
    {
        let i = c / 8;
        let j = c % 8;
        proof {
            lemma_plane_index(
                y0 + i,
                x0 + j,
                st,
                p.height as int,
                p.width as int,
            );
        }
        let idx = (y0 + i) * stride + x0 + j;
        let s = sample_signed(p.data[idx]);
        assert(s == block_sample(d, st, x0 as int, y0 as int, c as int));
        let qi = i / 4 + 2 * (j / 4);
        assert(qi == quad_of(c as int));
        let gd = 64 * s - total;
        gvar = gvar + sq_i64(gd);
        let qs = quads[qi];
        let qd = 16 * s - qs;
        let sqd = sq_i64(qd);
        if qi == 0 {
            v0 = v0 + sqd;
        } else if qi == 1 {
            v1 = v1 + sqd;
        } else if qi == 2 {
            v2 = v2 + sqd;
        } else {
            v3 = v3 + sqd;
        }
        c = c + 1;
    }
    let mut vars: Vec<i64> = Vec::new();
    vars.push(v0);
    vars.push(v1);
    vars.push(v2);
    vars.push(v3);
    (gvar, vars)
}

/// Gathers the block's signed samples and applies the fixed-point 8x8 DCT.
fn block_dct(p: &Plane, x0: usize, y0: usize) -> (r: Vec<i64>)
    requires
        p.is_valid(),
        x0 + 8 <= p.width,
        y0 + 8 <= p.height,
    ensures
        r@.len() == 64,
        forall|k: int|
            0 <= k < 64 ==> r@[k] == fdct8x8_spec(
                block_seq(p.data@, p.stride as int, x0 as int, y0 as int),
            )[k],
{
    let ghost d = p.data@;
    let ghost st = p.stride as int;
    let stride = p.stride;
    let mut blk: Vec<i64> = Vec::new();
    let mut c: usize = 0;
    while c < 64
        invariant
            0 <= c <= 64,
            p.is_valid(),
            x0 + 8 <= p.width,
            y0 + 8 <= p.height,
            d == p.data@,
            st == p.stride as int,
            stride == p.stride,
            blk@.len() == c,
            forall|k: int|
                0 <= k < c ==> #[trigger] blk@[k] == block_sample(d, st, x0 as int, y0 as int, k)
                    && -0x8000 <= blk@[k] <= 0x8000,
        decreases 64 - c,
    {
        let i = c / 8;
        let j = c % 8;
        proof {
            lemma_plane_index(
                y0 + i,
                x0 + j,
                st,
                p.height as int,
                p.width as int,
            );
        }
        let idx = (y0 + i) * stride + x0 + j;
        blk.push(sample_signed(p.data[idx]));
        c = c + 1;
    }
    let ghost before = blk@;
    od_bin_fdct8x8(&mut blk);
    proof {
        assert(ints(before) =~= block_seq(d, st, x0 as int, y0 as int));
    }
    blk
}

/// Computes the complete record of one block position over both planes.
fn compute_block(p1: &Plane, p2: &Plane, x0: usize, y0: usize) -> (b: PsnrHvsBlock)
    requires
        p1.is_valid(),
        p2.is_valid(),
        p1.same_dims(p2),
        x0 + 8 <= p1.width,
        y0 + 8 <= p1.height,
    ensures
        block_matches(
            &b,
            p1.data@,
            p1.stride as int,
            p2.data@,
            p2.stride as int,
            x0 as int,
            y0 as int,
        ),
{
    let (sum1, quads1) = block_stats(p1, x0, y0);
    let (sum2, quads2) = block_stats(p2, x0, y0);
    let (gvar1, vars1) = block_var_nums(p1, x0, y0, sum1, &quads1);
    let (gvar2, vars2) = block_var_nums(p2, x0, y0, sum2, &quads2);
    let dct1 = block_dct(p1, x0, y0);
    let dct2 = block_dct(p2, x0, y0);
    PsnrHvsBlock {
        dct1,
        dct2,
        gvar1_num: gvar1,
        gvar2_num: gvar2,
        vars1_num: vars1,
        vars2_num: vars2,
    }
}

/// Number of 8x8 block positions along one dimension of length `len`, when
/// blocks start every 7 samples and a partial block is skipped.
pub open spec fn num_blocks(len: int) -> int {
    if len >= 8 {
        (len - 8) / 7 + 1
    } else {
        0
    }
}

/// The block list covers, in row-major order of block positions, every 8x8
/// block the plane pair owns.
pub open spec fn plane_blocks_match(blocks: Seq<PsnrHvsBlock>, p1: &Plane, p2: &Plane) -> bool {
    let nbx = num_blocks(p1.width as int);
    let nby = num_blocks(p1.height as int);
    &&& blocks.len() == nbx * nby
    &&& forall|b: int|
        0 <= b < blocks.len() ==> block_matches(
            &blocks[b],
            p1.data@,
            p1.stride as int,
            p2.data@,
            p2.stride as int,
            7 * (b % nbx),
            7 * (b / nbx),
        )
}

/// Walks the plane pair block by block — blocks start every 7 samples, so
/// neighbouring blocks overlap by one row or column, and a final partial
/// block is skipped — and returns the per-block integer statistics that the
/// masking step consumes.
pub fn psnr_hvs_plane_blocks(p1: &Plane, p2: &Plane) -> (r: Vec<PsnrHvsBlock>)
    requires
        p1.is_valid(),
        p2.is_valid(),
        p1.same_dims(p2),
    ensures
        plane_blocks_match(r@, p1, p2),
{
    let ghost nbx = num_blocks(p1.width as int);
    let ghost nby = num_blocks(p1.height as int);
    let width = p1.width;
    let height = p1.height;
    let mut blocks: Vec<PsnrHvsBlock> = Vec::new();
    if width >= 8 && height >= 8 {
        let mut row: usize = 0;
        let mut y0: usize = 0;
        while y0 <= height - 8
            invariant
                p1.is_valid(),
                p2.is_valid(),
                p1.same_dims(p2),
                width == p1.width,
                height == p1.height,
                8 <= width && 8 <= height,
                nbx == num_blocks(width as int),
                nby == num_blocks(height as int),
                y0 == 7 * row,
                0 <= row <= nby,
                y0 <= height as int - 8 ==> row < nby,
                y0 > height as int - 8 ==> row == nby,
                blocks@.len() == row * nbx,
                forall|b: int|
                    0 <= b < blocks@.len() ==> block_matches(
                        &blocks@[b],
                        p1.data@,
                        p1.stride as int,
                        p2.data@,
                        p2.stride as int,
                        7 * (b % nbx),
                        7 * (b / nbx),
                    ),
            decreases height - y0,
        {
            let mut col: usize = 0;
            let mut x0: usize = 0;
            while x0 <= width - 8
                invariant
                    p1.is_valid(),
                    p2.is_valid(),
                    p1.same_dims(p2),
                    width == p1.width,
                    height == p1.height,
                    8 <= width && 8 <= height,
                    nbx == num_blocks(width as int),
                    nby == num_blocks(height as int),
                    y0 == 7 * row,
                    y0 <= height as int - 8,
                    row < nby,
                    x0 == 7 * col,
                    0 <= col <= nbx,
                    x0 <= width as int - 8 ==> col < nbx,
                    x0 > width as int - 8 ==> col == nbx,
                    blocks@.len() == row * nbx + col,
                    forall|b: int|
                        0 <= b < blocks@.len() ==> block_matches(
                            &blocks@[b],
                            p1.data@,
                            p1.stride as int,
                            p2.data@,
                            p2.stride as int,
                            7 * (b % nbx),
                            7 * (b / nbx),
                        ),
                decreases width - x0,
            {
                let b = compute_block(p1, p2, x0, y0);
                blocks.push(b);
                proof {
                    let bi = (row * nbx + col) as int;
                    vstd::arithmetic::div_mod::lemma_fundamental_div_mod_converse(
                        bi,
                        nbx,
                        row as int,
                        col as int,
                    );
                    assert(bi % nbx == col && bi / nbx == row);
                }
                col = col + 1;
                x0 = x0 + 7;
                proof {
                    if x0 > width as int - 8 {
                        assert(col == (width - 8) / 7 + 1) by {
                            vstd::arithmetic::div_mod::lemma_fundamental_div_mod_converse(
                                (width - 8) as int,
                                7,
                                col as int - 1,
                                (width - 8) - 7 * (col - 1),
                            );
                        }
                    } else {
                        assert(7 * col <= width - 8);
                        assert(col <= (width - 8) / 7) by {
                            vstd::arithmetic::div_mod::lemma_div_multiples_vanish_quotient(
                                col as int,
                                (width - 8) as int,
                                7,
                            );
                        }
                    }
                }
            }
            row = row + 1;
            y0 = y0 + 7;
            proof {
                if y0 > height as int - 8 {
                    assert(row == (height - 8) / 7 + 1) by {
                        vstd::arithmetic::div_mod::lemma_fundamental_div_mod_converse(
                            (height - 8) as int,
                            7,
                            row as int - 1,
                            (height - 8) - 7 * (row - 1),
                        );
                    }
                } else {
                    assert(7 * row <= height - 8);
                    assert(row <= (height - 8) / 7) by {
                        vstd::arithmetic::div_mod::lemma_div_multiples_vanish_quotient(
                            row as int,
                            (height - 8) as int,
                            7,
                        );
                    }
                }
                assert(blocks@.len() == row * nbx) by (nonlinear_arith)
                    requires
                        blocks@.len() == (row - 1) * nbx + nbx,
                ;
            }
        }
        proof {
            assert(blocks@.len() == nbx * nby) by (nonlinear_arith)
                requires
                    blocks@.len() == row * nbx,
                    row == nby,
            ;
        }
    } else {
        proof {
            assert(nbx * nby == 0) by (nonlinear_arith)
                requires
                    nbx == 0 || nby == 0,
            ;
        }
    }
    blocks
}

/// The per-frame PSNR-HVS artifact: one block list per plane.
pub struct FramePsnrHvs {
    /// Blocks of the luma plane pair.
    pub y: Vec<PsnrHvsBlock>,
    /// Blocks of the first chroma plane pair.
    pub u: Vec<PsnrHvsBlock>,
    /// Blocks of the second chroma plane pair.
    pub v: Vec<PsnrHvsBlock>,
}

/// The frame artifact holds the block statistics of all three plane pairs.
pub open spec fn frame_psnr_hvs_matches(r: &FramePsnrHvs, f1: &Frame, f2: &Frame) -> bool {
    &&& plane_blocks_match(r.y@, &f1.planes[0], &f2.planes[0])
    &&& plane_blocks_match(r.u@, &f1.planes[1], &f2.planes[1])
    &&& plane_blocks_match(r.v@, &f1.planes[2], &f2.planes[2])
}

/// Validates one frame pair and computes the PSNR-HVS block statistics of
/// its three plane pairs, in parallel.
pub fn psnr_hvs_process_frame(f1: &Frame, f2: &Frame, bit_depth: usize) -> (r: Result<
    FramePsnrHvs,
    MetricsError,
>)
    requires
        f1.is_valid(),
        f2.is_valid(),
    ensures
        r is Ok <==> valid_frame_pair(f1, f2, bit_depth),
        r matches Ok(fr) ==> frame_psnr_hvs_matches(&fr, f1, f2),
{
    match validate_frame_pair(f1, f2, bit_depth) {
        Err(e) => Err(e),
        Ok(()) => {
            let (y, u, v) = join_psnr_hvs_planes(f1, f2);
            Ok(FramePsnrHvs { y, u, v })
        },
    }
}

/// Number of frame pairs a video comparison walks: the shorter stream ends
/// the comparison, as does the optional frame limit.
pub open spec fn frames_to_process(len1: int, len2: int, limit: Option<usize>) -> int {
    let n = if len1 <= len2 {
        len1
    } else {
        len2
    };
    match limit {
        Option::Some(l) => if l as int <= n {
            l as int
        } else {
            n
        },
        Option::None => n,
    }
}

/// Per-frame PSNR-HVS statistics of a whole video comparison: frame pairs
/// are taken in lock-step until either stream or the frame limit ends, each
/// pair is validated before any arithmetic, and the first invalid pair
/// aborts the comparison. The caller turns each frame's block statistics
/// into its real-valued error score and log-converts the per-frame sums.
pub fn calculate_video_psnr_hvs(
    video1: &Vec<Frame>,
    video2: &Vec<Frame>,
    bit_depth: usize,
    frame_limit: Option<usize>,
) -> (r: Result<Vec<FramePsnrHvs>, MetricsError>)
    requires
        forall|i: int| 0 <= i < video1@.len() ==> (#[trigger] video1@[i]).is_valid(),
        forall|i: int| 0 <= i < video2@.len() ==> (#[trigger] video2@[i]).is_valid(),
    ensures
        ({
            let n = frames_to_process(video1@.len() as int, video2@.len() as int, frame_limit);
            &&& (r is Ok <==> forall|i: int|
                0 <= i < n ==> valid_frame_pair(&video1@[i], &video2@[i], bit_depth))
            &&& (r matches Ok(frames) ==> frames@.len() == n && forall|i: int|
                0 <= i < n ==> frame_psnr_hvs_matches(&frames@[i], &video1@[i], &video2@[i]))
        }),
{
    let len1 = video1.len();
    let len2 = video2.len();
    let mut n = if len1 <= len2 {
        len1
    } else {
        len2
    };
    match frame_limit {
        Some(l) => {
            if l < n {
                n = l;
            }
        },
        None => {},
    }
    assert(n == frames_to_process(video1@.len() as int, video2@.len() as int, frame_limit));
    let mut out: Vec<FramePsnrHvs> = Vec::new();
    let mut i: usize = 0;
    while i < n
        invariant
            0 <= i <= n,
            n == frames_to_process(video1@.len() as int, video2@.len() as int, frame_limit),
            n <= video1@.len(),
            n <= video2@.len(),
            forall|k: int| 0 <= k < video1@.len() ==> (#[trigger] video1@[k]).is_valid(),
            forall|k: int| 0 <= k < video2@.len() ==> (#[trigger] video2@[k]).is_valid(),
            out@.len() == i,
            forall|k: int| 0 <= k < i ==> valid_frame_pair(&video1@[k], &video2@[k], bit_depth),
            forall|k: int|
                0 <= k < i ==> frame_psnr_hvs_matches(&out@[k], &video1@[k], &video2@[k]),
        decreases n - i,
    {
        match psnr_hvs_process_frame(&video1[i], &video2[i], bit_depth) {
            Ok(fr) => {
                out.push(fr);
            },
            Err(e) => {
                return Err(e);
            },
        }
        i = i + 1;
    }
    Ok(out)
}

/// A plane compared against itself: every block record carries the same
/// DCT coefficients and the same variance numerators for both planes, so
/// every DCT-domain difference — and with it the accumulated squared error
/// — is exactly zero.
pub proof fn lemma_block_self(b: &PsnrHvsBlock, d: Seq<u16>, s: int, x0: int, y0: int)
    requires
        block_matches(b, d, s, d, s, x0, y0),
    ensures
        forall|k: int| 0 <= k < 64 ==> b.dct1@[k] == b.dct2@[k],
        b.gvar1_num == b.gvar2_num,
        forall|q: int| 0 <= q < 4 ==> b.vars1_num@[q] == b.vars2_num@[q],
{
}

} // verus!
