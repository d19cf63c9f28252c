//! The integer core of the SSIM engine: the symmetric fixed-point Gaussian
//! kernel and the two-pass separable convolution that accumulates per-window
//! moments.
//!
//! A window's SSIM score is a real-valued function of six integer moments
//! — the weighted sums of both planes' samples, of their squares and cross
//! product, and the total kernel weight that actually fell inside the plane.
//! Those moments are computed and proved exact here, window by window, with
//! kernel windows clipped at the plane boundary rather than padded. The
//! real-valued per-window scores and their weighted mean are left to the
//! caller.

use crate::frame::valid_frame_pair;
use crate::frame::validate_frame_pair;
use crate::frame::Frame;
use crate::frame::Plane;
use crate::parallel::join_ssim_planes;
use crate::sums::lemma_sum_range_nonneg;
use crate::sums::lemma_sum_range_split;
use crate::sums::sum_range;
use crate::MetricsError;
use vstd::arithmetic::mul::lemma_mul_inequality;
use vstd::arithmetic::mul::lemma_mul_is_commutative;
use vstd::arithmetic::mul::lemma_mul_is_distributive_add;
use vstd::prelude::*;

verus! {

/// Largest sample magnitude the moment accumulators accept; keeps every
/// accumulated moment within a signed 64-bit value.
pub const SSIM_SAMPLE_MAX: u32 = 0x1F_FFFF;

/// One window's moment accumulators: weighted sums over the kernel window
/// of both planes' samples, their squares and cross product, and the kernel
/// weight that fell in-bounds.
#[derive(Clone, Copy)]
pub struct SsimMoments {
    /// Weighted sum of the first plane's samples.
    pub mux: i64,
    /// Weighted sum of the second plane's samples.
    pub muy: i64,
    /// Weighted sum of squares of the first plane's samples.
    pub x2: i64,
    /// Weighted sum of products of both planes' samples.
    pub xy: i64,
    /// Weighted sum of squares of the second plane's samples.
    pub y2: i64,
    /// Total kernel weight of the window.
    pub w: i64,
}

/// The same six moments over unbounded integers.
pub ghost struct MomentsView {
    /// Weighted sum of the first plane's samples.
    pub mux: int,
    /// Weighted sum of the second plane's samples.
    pub muy: int,
    /// Weighted sum of squares of the first plane's samples.
    pub x2: int,
    /// Weighted sum of products of both planes' samples.
    pub xy: int,
    /// Weighted sum of squares of the second plane's samples.
    pub y2: int,
    /// Total kernel weight of the window.
    pub w: int,
}

/// The all-zero accumulator every window starts from.
pub open spec fn zero_moments() -> MomentsView {
    MomentsView { mux: 0, muy: 0, x2: 0, xy: 0, y2: 0, w: 0 }
}

/// The machine accumulator holds exactly the mathematical moments.
pub open spec fn moments_match(m: SsimMoments, v: MomentsView) -> bool {
    &&& m.mux == v.mux
    &&& m.muy == v.muy
    &&& m.x2 == v.x2
    &&& m.xy == v.xy
    &&& m.y2 == v.y2
    &&& m.w == v.w
}

/// First kernel index of a horizontal window centred at `x`: indices that
/// would reach left of the plane are clipped.
pub open spec fn win_lo_h(off: int, x: int) -> int {
    if off > x {
        off - x
    } else {
        0
    }
}

/// One-past-the-last kernel index of a window centred at `pos` in a
/// dimension of length `n`: indices that would reach past the end are
/// clipped.
pub open spec fn win_hi(klen: int, off: int, pos: int, n: int) -> int {
    klen - (if pos + off + 1 > n {
        pos + off + 1 - n
    } else {
        0
    })
}

/// First kernel index of a vertical window emitting output row `o`: rows
/// above the plane are clipped.
pub open spec fn win_lo_v(klen: int, off: int, o: int) -> int {
    if klen > o + off + 1 {
        klen - o - off - 1
    } else {
        0
    }
}

/// Term function of a kernel's weight sum.
pub open spec fn kernel_term_fn(kernel: Seq<i64>) -> spec_fn(int) -> int {
    |k: int| kernel[k] as int
}

/// Total weight of a kernel.
pub open spec fn kernel_sum(kernel: Seq<i64>) -> int {
    sum_range(kernel_term_fn(kernel), 0, kernel.len() as int)
}

/// What the convolution accepts of a kernel: nonnegative weights with a
/// total of at most 1024, the largest fixed-point unit the engines use.
pub open spec fn kernel_ok(kernel: Seq<i64>) -> bool {
    &&& 1 <= kernel.len() <= 0x1000_0000
    &&& forall|k: int| 0 <= k < kernel.len() ==> 0 <= #[trigger] kernel[k]
    &&& kernel_sum(kernel) <= 1024
}

/// Partial kernel weight sums stay within the total.
proof fn lemma_kernel_partial(kernel: Seq<i64>, lo: int, hi: int)
    requires
        kernel_ok(kernel),
        0 <= lo <= hi <= kernel.len(),
    ensures
        0 <= sum_range(kernel_term_fn(kernel), lo, hi) <= 1024,
        forall|k: int| lo <= k < hi ==> #[trigger] kernel[k] <= 1024,
{
    let f = kernel_term_fn(kernel);
    lemma_sum_range_nonneg(f, lo, hi);
    lemma_sum_range_split(f, 0, lo, kernel.len() as int);
    lemma_sum_range_split(f, lo, hi, kernel.len() as int);
    lemma_sum_range_nonneg(f, 0, lo);
    lemma_sum_range_nonneg(f, hi, kernel.len() as int);
    assert forall|k: int| lo <= k < hi implies #[trigger] kernel[k] <= 1024 by {
        lemma_sum_range_split(f, lo, k, hi);
        lemma_sum_range_split(f, k, k + 1, hi);
        lemma_sum_range_nonneg(f, lo, k);
        lemma_sum_range_nonneg(f, k + 1, hi);
        assert(sum_range(f, k, k) == 0);
        assert(sum_range(f, k, k + 1) == f(k));
    }
}

/// Horizontal moment accumulation up to kernel index `k` for the window
/// centred at `x` of the row starting at `row_off` of two flattened planes.
pub open spec fn h_mom_rec(
    p1: Seq<u32>,
    p2: Seq<u32>,
    kernel: Seq<i64>,
    row_off: int,
    x: int,
    k: int,
) -> MomentsView
    decreases k,
{
    let off = kernel.len() as int / 2;
    if k <= win_lo_h(off, x) || k < 0 {
        zero_moments()
    } else {
        let m = h_mom_rec(p1, p2, kernel, row_off, x, k - 1);
        let wv = kernel[k - 1] as int;
        let tx = x + (k - 1) - off;
        let pix1 = p1[row_off + tx] as int;
        let pix2 = p2[row_off + tx] as int;
        MomentsView {
            mux: m.mux + wv * pix1,
            muy: m.muy + wv * pix2,
            x2: m.x2 + wv * pix1 * pix1,
            xy: m.xy + wv * pix1 * pix2,
            y2: m.y2 + wv * pix2 * pix2,
            w: m.w + wv,
        }
    }
}

/// The complete horizontal moments of the window centred at `x` in a row of
/// the given width: the kernel window is clipped to the samples that exist.
pub open spec fn h_moments(
    p1: Seq<u32>,
    p2: Seq<u32>,
    kernel: Seq<i64>,
    row_off: int,
    x: int,
    width: int,
) -> MomentsView {
    h_mom_rec(
        p1,
        p2,
        kernel,
        row_off,
        x,
        win_hi(kernel.len() as int, kernel.len() as int / 2, x, width),
    )
}

/// Vertical combination of buffered horizontal moments up to kernel index
/// `k`, for output row `o`, column `x`.
pub open spec fn v_mom_rec(
    p1: Seq<u32>,
    p2: Seq<u32>,
    vkernel: Seq<i64>,
    hkernel: Seq<i64>,
    width: int,
    o: int,
    x: int,
    k: int,
) -> MomentsView
    decreases k,
{
    let klen = vkernel.len() as int;
    let off = klen / 2;
    if k <= win_lo_v(klen, off, o) || k < 0 {
        zero_moments()
    } else {
        let m = v_mom_rec(p1, p2, vkernel, hkernel, width, o, x, k - 1);
        let wv = vkernel[k - 1] as int;
        let r = o + off + (k - 1) + 1 - klen;
        let h = h_moments(p1, p2, hkernel, r * width, x, width);
        MomentsView {
            mux: m.mux + wv * h.mux,
            muy: m.muy + wv * h.muy,
            x2: m.x2 + wv * h.x2,
            xy: m.xy + wv * h.xy,
            y2: m.y2 + wv * h.y2,
            w: m.w + wv * h.w,
        }
    }
}

/// The complete moments of the window of output row `o`, column `x`: the
/// vertical kernel window is clipped to the rows that exist.
pub open spec fn window_moments(
    p1: Seq<u32>,
    p2: Seq<u32>,
    vkernel: Seq<i64>,
    hkernel: Seq<i64>,
    width: int,
    height: int,
    o: int,
    x: int,
) -> MomentsView {
    v_mom_rec(
        p1,
        p2,
        vkernel,
        hkernel,
        width,
        o,
        x,
        win_hi(vkernel.len() as int, vkernel.len() as int / 2, o, height),
    )
}

/// Every sample of a flattened plane region is bounded.
pub open spec fn samples_le(p: Seq<u32>, max: int) -> bool {
    forall|i: int| 0 <= i < p.len() ==> #[trigger] p[i] <= max
}

/// Bounds of the horizontal accumulators: the weight is exactly the partial
/// kernel sum, and every moment is within that weight times the sample
/// bound (squared for the second-order moments).
proof fn lemma_h_mom_rec_bounds(
    p1: Seq<u32>,
    p2: Seq<u32>,
    kernel: Seq<i64>,
    row_off: int,
    x: int,
    width: int,
    k: int,
)
    requires
        kernel_ok(kernel),
        samples_le(p1, SSIM_SAMPLE_MAX as int),
        samples_le(p2, SSIM_SAMPLE_MAX as int),
        0 <= x < width,
        0 <= row_off,
        row_off + width <= p1.len(),
        row_off + width <= p2.len(),
        k <= win_hi(kernel.len() as int, kernel.len() as int / 2, x, width),
    ensures
        ({
            let m = h_mom_rec(p1, p2, kernel, row_off, x, k);
            let ks = sum_range(
                kernel_term_fn(kernel),
                win_lo_h(kernel.len() as int / 2, x),
                if k >= win_lo_h(kernel.len() as int / 2, x) {
                    k
                } else {
                    win_lo_h(kernel.len() as int / 2, x)
                },
            );
            &&& m.w == ks
            &&& 0 <= ks <= 1024
            &&& 0 <= m.mux <= ks * 0x20_0000
            &&& 0 <= m.muy <= ks * 0x20_0000
            &&& 0 <= m.x2 <= ks * 0x400_0000_0000
            &&& 0 <= m.xy <= ks * 0x400_0000_0000
            &&& 0 <= m.y2 <= ks * 0x400_0000_0000
        }),
    decreases k,
{
    let off = kernel.len() as int / 2;
    let lo = win_lo_h(off, x);
    let f = kernel_term_fn(kernel);
    if k <= lo || k < 0 {
        lemma_kernel_partial(kernel, lo, lo);
    } else {
        lemma_h_mom_rec_bounds(p1, p2, kernel, row_off, x, width, k - 1);
        lemma_kernel_partial(kernel, lo, k);
        let m = h_mom_rec(p1, p2, kernel, row_off, x, k - 1);
        let wv = kernel[k - 1] as int;
        let tx = x + (k - 1) - off;
        let pix1 = p1[row_off + tx] as int;
        let pix2 = p2[row_off + tx] as int;
        assert(0 <= tx < width);
        assert(0 <= pix1 <= 0x1F_FFFF && 0 <= pix2 <= 0x1F_FFFF);
        assert(0 <= wv * pix1 <= wv * 0x20_0000) by (nonlinear_arith)
            requires
                0 <= wv,
                0 <= pix1 <= 0x1F_FFFF,
        ;
        assert(0 <= wv * pix2 <= wv * 0x20_0000) by (nonlinear_arith)
            requires
                0 <= wv,
                0 <= pix2 <= 0x1F_FFFF,
        ;
        assert(0 <= wv * pix1 * pix1 <= wv * 0x400_0000_0000) by (nonlinear_arith)
            requires
                0 <= wv,
                0 <= pix1 <= 0x1F_FFFF,
        ;
        assert(0 <= wv * pix1 * pix2 <= wv * 0x400_0000_0000) by (nonlinear_arith)
            requires
                0 <= wv,
                0 <= pix1 <= 0x1F_FFFF,
                0 <= pix2 <= 0x1F_FFFF,
        ;
        assert(0 <= wv * pix2 * pix2 <= wv * 0x400_0000_0000) by (nonlinear_arith)
            requires
                0 <= wv,
                0 <= pix2 <= 0x1F_FFFF,
        ;
        assert(sum_range(f, lo, k) == sum_range(f, lo, k - 1) + wv);
        assert((sum_range(f, lo, k - 1) + wv) * 0x20_0000 == sum_range(f, lo, k - 1) * 0x20_0000
            + wv * 0x20_0000) by (nonlinear_arith);
        assert((sum_range(f, lo, k - 1) + wv) * 0x400_0000_0000 == sum_range(f, lo, k - 1)
            * 0x400_0000_0000 + wv * 0x400_0000_0000) by (nonlinear_arith);
    }
}

/// Bounds of the vertical accumulators, derived from the horizontal bounds
/// of every buffered row.
proof fn lemma_v_mom_rec_bounds(
    p1: Seq<u32>,
    p2: Seq<u32>,
    vkernel: Seq<i64>,
    hkernel: Seq<i64>,
    width: int,
    height: int,
    o: int,
    x: int,
    k: int,
)
    requires
        kernel_ok(vkernel),
        kernel_ok(hkernel),
        samples_le(p1, SSIM_SAMPLE_MAX as int),
        samples_le(p2, SSIM_SAMPLE_MAX as int),
        0 <= x < width,
        0 <= o < height,
        width * height <= p1.len(),
        width * height <= p2.len(),
        k <= win_hi(vkernel.len() as int, vkernel.len() as int / 2, o, height),
    ensures
        ({
            let m = v_mom_rec(p1, p2, vkernel, hkernel, width, o, x, k);
            let lo = win_lo_v(vkernel.len() as int, vkernel.len() as int / 2, o);
            let ks = sum_range(
                kernel_term_fn(vkernel),
                lo,
                if k >= lo {
                    k
                } else {
                    lo
                },
            );
            &&& 0 <= ks <= 1024
            &&& 0 <= m.w <= ks * 1024
            &&& 0 <= m.mux <= ks * 0x8_0000_0000
            &&& 0 <= m.muy <= ks * 0x8_0000_0000
            &&& 0 <= m.x2 <= ks * 0x10_0000_0000_0000
            &&& 0 <= m.xy <= ks * 0x10_0000_0000_0000
            &&& 0 <= m.y2 <= ks * 0x10_0000_0000_0000
        }),
    decreases k,
{
    let klen = vkernel.len() as int;
    let off = klen / 2;
    let lo = win_lo_v(klen, off, o);
    let f = kernel_term_fn(vkernel);
    if k <= lo || k < 0 {
        lemma_kernel_partial(vkernel, lo, lo);
    } else {
        lemma_v_mom_rec_bounds(p1, p2, vkernel, hkernel, width, height, o, x, k - 1);
        lemma_kernel_partial(vkernel, lo, k);
        let m = v_mom_rec(p1, p2, vkernel, hkernel, width, o, x, k - 1);
        let wv = vkernel[k - 1] as int;
        let r = o + off + (k - 1) + 1 - klen;
        assert(0 <= r < height);
        assert((r + 1) * width <= height * width) by {
            lemma_mul_inequality(r + 1, height, width);
        }
        lemma_mul_is_commutative(height, width);
        assert(r * width + width == (r + 1) * width) by {
            lemma_mul_is_distributive_add(width, r, 1);
            lemma_mul_is_commutative(width, r + 1);
            lemma_mul_is_commutative(width, r);
        }
        vstd::arithmetic::mul::lemma_mul_nonnegative(r, width);
        let hwin = win_hi(hkernel.len() as int, hkernel.len() as int / 2, x, width);
        lemma_h_mom_rec_bounds(p1, p2, hkernel, r * width, x, width, hwin);
        let h = h_moments(p1, p2, hkernel, r * width, x, width);
        assert(0 <= h.w <= 1024);
        assert(0 <= h.mux <= 0x8_0000_0000 && 0 <= h.muy <= 0x8_0000_0000) by (nonlinear_arith)
            requires
                0 <= h.w <= 1024,
                0 <= h.mux <= h.w * 0x20_0000,
                0 <= h.muy <= h.w * 0x20_0000,
        ;
        assert(0 <= h.x2 <= 0x10_0000_0000_0000 && 0 <= h.xy <= 0x10_0000_0000_0000 && 0 <= h.y2
            <= 0x10_0000_0000_0000) by (nonlinear_arith)
            requires
                0 <= h.w <= 1024,
                0 <= h.x2 <= h.w * 0x400_0000_0000,
                0 <= h.xy <= h.w * 0x400_0000_0000,
                0 <= h.y2 <= h.w * 0x400_0000_0000,
        ;
        assert(0 <= wv * h.w <= wv * 1024 && 0 <= wv * h.mux <= wv * 0x8_0000_0000 && 0 <= wv
            * h.muy <= wv * 0x8_0000_0000 && 0 <= wv * h.x2 <= wv * 0x10_0000_0000_0000 && 0 <= wv
            * h.xy <= wv * 0x10_0000_0000_0000 && 0 <= wv * h.y2 <= wv * 0x10_0000_0000_0000)
            by (nonlinear_arith)
            requires
                0 <= wv,
                0 <= h.w <= 1024,
                0 <= h.mux <= 0x8_0000_0000,
                0 <= h.muy <= 0x8_0000_0000,
                0 <= h.x2 <= 0x10_0000_0000_0000,
                0 <= h.xy <= 0x10_0000_0000_0000,
                0 <= h.y2 <= 0x10_0000_0000_0000,
        ;
        assert(sum_range(f, lo, k) == sum_range(f, lo, k - 1) + wv);
        assert((sum_range(f, lo, k - 1) + wv) * 1024 == sum_range(f, lo, k - 1) * 1024 + wv
            * 1024) by (nonlinear_arith);
        assert((sum_range(f, lo, k - 1) + wv) * 0x8_0000_0000 == sum_range(f, lo, k - 1)
            * 0x8_0000_0000 + wv * 0x8_0000_0000) by (nonlinear_arith);
        assert((sum_range(f, lo, k - 1) + wv) * 0x10_0000_0000_0000 == sum_range(f, lo, k - 1)
            * 0x10_0000_0000_0000 + wv * 0x10_0000_0000_0000) by (nonlinear_arith);
    }
}


/// The flat moment grid matches the window spec at every filled index.
pub open spec fn grid_matches(
    out: Seq<SsimMoments>,
    p1: Seq<u32>,
    p2: Seq<u32>,
    vk: Seq<i64>,
    hk: Seq<i64>,
    width: int,
    height: int,
    count: int,
) -> bool {
    forall|idx: int|
        0 <= idx < count ==> moments_match(
            #[trigger] out[idx],
            window_moments(p1, p2, vk, hk, width, height, idx / width, idx % width),
        )
}

/// Computes one output row of horizontal moments: for every column, the
/// kernel-weighted sums over the in-bounds part of the window centred there.
fn h_pass_row(p1: &Vec<u32>, p2: &Vec<u32>, kernel: &Vec<i64>, y: usize, width: usize) -> (row:
    Vec<SsimMoments>)
    requires
        kernel_ok(kernel@),
        samples_le(p1@, SSIM_SAMPLE_MAX as int),
        samples_le(p2@, SSIM_SAMPLE_MAX as int),
        width <= 0x1000_0000,
        (y + 1) * width <= p1@.len(),
        (y + 1) * width <= p2@.len(),
    ensures
        row@.len() == width,
        forall|x: int|
            0 <= x < width ==> moments_match(
                #[trigger] row@[x],
                h_moments(p1@, p2@, kernel@, y as int * width as int, x, width as int),
            ),
{
    let klen = kernel.len();
    let off = klen / 2;
    let n1 = p1.len();
    let n2 = p2.len();
    proof {
        assert((y + 1) * width == y * width + width) by (nonlinear_arith);
        vstd::arithmetic::mul::lemma_mul_nonnegative(y as int, width as int);
    }
    let row_off = y * width;
    assert(row_off + width <= n1 && row_off + width <= n2);
    let mut row: Vec<SsimMoments> = Vec::new();
    let mut x: usize = 0;
    while x < width
        invariant
            0 <= x <= width,
            kernel_ok(kernel@),
            samples_le(p1@, SSIM_SAMPLE_MAX as int),
            samples_le(p2@, SSIM_SAMPLE_MAX as int),
            width <= 0x1000_0000,
            klen == kernel@.len(),
            off == klen / 2,
            row_off == y * width,
            row_off + width <= p1@.len(),
            row_off + width <= p2@.len(),
            n1 == p1@.len(),
            n2 == p2@.len(),
            row@.len() == x,
            forall|c: int|
                0 <= c < x ==> moments_match(
                    #[trigger] row@[c],
                    h_moments(p1@, p2@, kernel@, row_off as int, c, width as int),
                ),
        decreases width - x,
    {
        let k_min = if off > x {
            off - x
        } else {
            0
        };
        let wm1x = width - 1 - x;
        let tmp = if off > wm1x {
            off - wm1x
        } else {
            0
        };
        assert(tmp <= off);
        let k_max = klen - tmp;
        assert(k_min == win_lo_h(off as int, x as int));
        assert(k_max == win_hi(klen as int, off as int, x as int, width as int));
        assert(k_min <= k_max);
        let mut mux: i64 = 0;
        let mut muy: i64 = 0;
        let mut x2: i64 = 0;
        let mut xy: i64 = 0;
        let mut y2: i64 = 0;
        let mut w: i64 = 0;
        let mut k = k_min;
        while k < k_max
            invariant
                k_min <= k <= k_max,
                k_min == win_lo_h(off as int, x as int),
                k_max == win_hi(klen as int, off as int, x as int, width as int),
                k_max <= klen,
                0 <= x < width,
                width <= 0x1000_0000,
                kernel_ok(kernel@),
                samples_le(p1@, SSIM_SAMPLE_MAX as int),
                samples_le(p2@, SSIM_SAMPLE_MAX as int),
                klen == kernel@.len(),
                off == klen / 2,
                row_off + width <= p1@.len(),
                row_off + width <= p2@.len(),
                n1 == p1@.len(),
                n2 == p2@.len(),
                ({
                    let m = h_mom_rec(p1@, p2@, kernel@, row_off as int, x as int, k as int);
                    mux == m.mux && muy == m.muy && x2 == m.x2 && xy == m.xy && y2 == m.y2 && w
                        == m.w
                }),
            decreases k_max - k,
        {
            let wv = kernel[k];
            let tx = x + k - off;
            assert(tx < width);
            let pix1 = p1[row_off + tx] as i64;
            let pix2 = p2[row_off + tx] as i64;
            proof {
                lemma_kernel_partial(kernel@, 0, klen as int);
                assert(0 <= wv <= 1024);
                assert(0 <= pix1 <= 0x1F_FFFF && 0 <= pix2 <= 0x1F_FFFF);
                lemma_h_mom_rec_bounds(
                    p1@,
                    p2@,
                    kernel@,
                    row_off as int,
                    x as int,
                    width as int,
                    k as int + 1,
                );
                lemma_h_mom_rec_bounds(
                    p1@,
                    p2@,
                    kernel@,
                    row_off as int,
                    x as int,
                    width as int,
                    k as int,
                );
                assert(0 <= wv * pix1 <= 0x8000_0000 && 0 <= wv * pix2 <= 0x8000_0000)
                    by (nonlinear_arith)
                    requires
                        0 <= wv <= 1024,
                        0 <= pix1 <= 0x1F_FFFF,
                        0 <= pix2 <= 0x1F_FFFF,
                ;
                assert(0 <= wv * pix1 * pix1 <= 0x10_0000_0000_0000 && 0 <= wv * pix1 * pix2
                    <= 0x10_0000_0000_0000 && 0 <= wv * pix2 * pix2 <= 0x10_0000_0000_0000)
                    by (nonlinear_arith)
                    requires
                        0 <= wv <= 1024,
                        0 <= pix1 <= 0x1F_FFFF,
                        0 <= pix2 <= 0x1F_FFFF,
                ;
            }
            mux = mux + wv * pix1;
            muy = muy + wv * pix2;
            x2 = x2 + wv * pix1 * pix1;
            xy = xy + wv * pix1 * pix2;
            y2 = y2 + wv * pix2 * pix2;
            w = w + wv;
            k = k + 1;
        }
        row.push(SsimMoments { mux, muy, x2, xy, y2, w });
        x = x + 1;
    }
    row
}

/// Accumulates the moment grid of one plane pair: a horizontal pass over
/// every row, then a vertical pass that combines the buffered rows into one
/// output window per sample position.
pub fn ssim_plane_moments(
    plane1: &Vec<u32>,
    plane2: &Vec<u32>,
    width: usize,
    height: usize,
    vert_kernel: &Vec<i64>,
    horiz_kernel: &Vec<i64>,
) -> (out: Vec<SsimMoments>)
    requires
        kernel_ok(vert_kernel@),
        kernel_ok(horiz_kernel@),
        samples_le(plane1@, SSIM_SAMPLE_MAX as int),
        samples_le(plane2@, SSIM_SAMPLE_MAX as int),
        width <= 0x1000_0000,
        height <= 0x1000_0000,
        width * height <= plane1@.len(),
        width * height <= plane2@.len(),
    ensures
        out@.len() == width * height,
        grid_matches(
            out@,
            plane1@,
            plane2@,
            vert_kernel@,
            horiz_kernel@,
            width as int,
            height as int,
            width as int * height as int,
        ),
{
    let mut hrows: Vec<Vec<SsimMoments>> = Vec::new();
    let mut y: usize = 0;
    while y < height
        invariant
            0 <= y <= height,
            kernel_ok(vert_kernel@),
            kernel_ok(horiz_kernel@),
            samples_le(plane1@, SSIM_SAMPLE_MAX as int),
            samples_le(plane2@, SSIM_SAMPLE_MAX as int),
            width <= 0x1000_0000,
            height <= 0x1000_0000,
            width * height <= plane1@.len(),
            width * height <= plane2@.len(),
            hrows@.len() == y,
            forall|r: int| 0 <= r < y ==> (#[trigger] hrows@[r])@.len() == width,
            forall|r: int, x: int|
                0 <= r < y && 0 <= x < width ==> moments_match(
                    #[trigger] hrows@[r]@[x],
                    h_moments(plane1@, plane2@, horiz_kernel@, r * width, x, width as int),
                ),
        decreases height - y,
    {
        proof {
            lemma_mul_inequality(y as int + 1, height as int, width as int);
            lemma_mul_is_commutative(height as int, width as int);
        }
        let row = h_pass_row(plane1, plane2, horiz_kernel, y, width);
        hrows.push(row);
        y = y + 1;
    }
    let vklen = vert_kernel.len();
    let voff = vklen / 2;
    let mut out: Vec<SsimMoments> = Vec::new();
    let mut o: usize = 0;
    while o < height
        invariant
            0 <= o <= height,
            kernel_ok(vert_kernel@),
            kernel_ok(horiz_kernel@),
            samples_le(plane1@, SSIM_SAMPLE_MAX as int),
            samples_le(plane2@, SSIM_SAMPLE_MAX as int),
            width <= 0x1000_0000,
            height <= 0x1000_0000,
            width * height <= plane1@.len(),
            width * height <= plane2@.len(),
            vklen == vert_kernel@.len(),
            voff == vklen / 2,
            hrows@.len() == height,
            forall|r: int| 0 <= r < height ==> (#[trigger] hrows@[r])@.len() == width,
            forall|r: int, x: int|
                0 <= r < height && 0 <= x < width ==> moments_match(
                    #[trigger] hrows@[r]@[x],
                    h_moments(plane1@, plane2@, horiz_kernel@, r * width, x, width as int),
                ),
            out@.len() == o * width,
            grid_matches(
                out@,
                plane1@,
                plane2@,
                vert_kernel@,
                horiz_kernel@,
                width as int,
                height as int,
                o as int * width as int,
            ),
        decreases height - o,
    {
        let k_min = if vklen > o + voff {
            vklen - o - voff - 1
        } else {
            0
        };
        let hm1o = height - 1 - o;
        let vtmp = if voff > hm1o {
            voff - hm1o
        } else {
            0
        };
        assert(vtmp <= voff);
        let k_max = vklen - vtmp;
        assert(k_min == win_lo_v(vklen as int, voff as int, o as int));
        assert(k_max == win_hi(vklen as int, voff as int, o as int, height as int));
        assert(k_min <= k_max);
        let mut x: usize = 0;
        while x < width
            invariant
                0 <= x <= width,
                0 <= o < height,
                kernel_ok(vert_kernel@),
                kernel_ok(horiz_kernel@),
                samples_le(plane1@, SSIM_SAMPLE_MAX as int),
                samples_le(plane2@, SSIM_SAMPLE_MAX as int),
                width <= 0x1000_0000,
                height <= 0x1000_0000,
                width * height <= plane1@.len(),
                width * height <= plane2@.len(),
                vklen == vert_kernel@.len(),
                voff == vklen / 2,
                k_min == win_lo_v(vklen as int, voff as int, o as int),
                k_max == win_hi(vklen as int, voff as int, o as int, height as int),
                k_min <= k_max <= vklen,
                hrows@.len() == height,
                forall|r: int| 0 <= r < height ==> (#[trigger] hrows@[r])@.len() == width,
                forall|r: int, xx: int|
                    0 <= r < height && 0 <= xx < width ==> moments_match(
                        #[trigger] hrows@[r]@[xx],
                        h_moments(plane1@, plane2@, horiz_kernel@, r * width, xx, width as int),
                    ),
                out@.len() == o * width + x,
                grid_matches(
                    out@,
                    plane1@,
                    plane2@,
                    vert_kernel@,
                    horiz_kernel@,
                    width as int,
                    height as int,
                    o as int * width as int + x as int,
                ),
            decreases width - x,
        {
            let mut mux: i64 = 0;
            let mut muy: i64 = 0;
            let mut x2: i64 = 0;
            let mut xy: i64 = 0;
            let mut y2: i64 = 0;
            let mut w: i64 = 0;
            let mut k = k_min;
            while k < k_max
                invariant
                    k_min <= k <= k_max,
                    k_min == win_lo_v(vklen as int, voff as int, o as int),
                    k_max == win_hi(vklen as int, voff as int, o as int, height as int),
                    k_max <= vklen,
                    0 <= x < width,
                    0 <= o < height,
                    kernel_ok(vert_kernel@),
                    kernel_ok(horiz_kernel@),
                    samples_le(plane1@, SSIM_SAMPLE_MAX as int),
                    samples_le(plane2@, SSIM_SAMPLE_MAX as int),
                    width <= 0x1000_0000,
                    height <= 0x1000_0000,
                    width * height <= plane1@.len(),
                    width * height <= plane2@.len(),
                    vklen == vert_kernel@.len(),
                    voff == vklen / 2,
                    hrows@.len() == height,
                    forall|r: int| 0 <= r < height ==> (#[trigger] hrows@[r])@.len() == width,
                    forall|r: int, xx: int|
                        0 <= r < height && 0 <= xx < width ==> moments_match(
                            #[trigger] hrows@[r]@[xx],
                            h_moments(plane1@, plane2@, horiz_kernel@, r * width, xx, width as int),
                        ),
                    ({
                        let m = v_mom_rec(
                            plane1@,
                            plane2@,
                            vert_kernel@,
                            horiz_kernel@,
                            width as int,
                            o as int,
                            x as int,
                            k as int,
                        );
                        mux == m.mux && muy == m.muy && x2 == m.x2 && xy == m.xy && y2 == m.y2 && w
                            == m.w
                    }),
                decreases k_max - k,
            {
                let wv = vert_kernel[k];
                let r = o + voff + 1 + k - vklen;
                assert(0 <= r < height);
                let hm = hrows[r][x];
                proof {
                    lemma_kernel_partial(vert_kernel@, 0, vklen as int);
                    assert(0 <= wv <= 1024);
                    let hwin = win_hi(
                        horiz_kernel@.len() as int,
                        horiz_kernel@.len() as int / 2,
                        x as int,
                        width as int,
                    );
                    assert((r + 1) * width <= height * width) by {
                        lemma_mul_inequality(r as int + 1, height as int, width as int);
                    }
                    lemma_mul_is_commutative(height as int, width as int);
                    assert(r * width + width == (r + 1) * width) by (nonlinear_arith);
                    vstd::arithmetic::mul::lemma_mul_nonnegative(r as int, width as int);
                    lemma_h_mom_rec_bounds(
                        plane1@,
                        plane2@,
                        horiz_kernel@,
                        r * width,
                        x as int,
                        width as int,
                        hwin,
                    );
                    assert(0 <= hm.w <= 1024 && 0 <= hm.mux <= 0x8_0000_0000 && 0 <= hm.muy
                        <= 0x8_0000_0000 && 0 <= hm.x2 <= 0x10_0000_0000_0000 && 0 <= hm.xy
                        <= 0x10_0000_0000_0000 && 0 <= hm.y2 <= 0x10_0000_0000_0000)
                        by (nonlinear_arith)
                        requires
                            0 <= hm.w <= 1024,
                            0 <= hm.mux <= hm.w * 0x20_0000,
                            0 <= hm.muy <= hm.w * 0x20_0000,
                            0 <= hm.x2 <= hm.w * 0x400_0000_0000,
                            0 <= hm.xy <= hm.w * 0x400_0000_0000,
                            0 <= hm.y2 <= hm.w * 0x400_0000_0000,
                    ;
                    lemma_v_mom_rec_bounds(
                        plane1@,
                        plane2@,
                        vert_kernel@,
                        horiz_kernel@,
                        width as int,
                        height as int,
                        o as int,
                        x as int,
                        k as int + 1,
                    );
                    lemma_v_mom_rec_bounds(
                        plane1@,
                        plane2@,
                        vert_kernel@,
                        horiz_kernel@,
                        width as int,
                        height as int,
                        o as int,
                        x as int,
                        k as int,
                    );
                    assert(0 <= wv * hm.w <= 0x10_0000 && 0 <= wv * hm.mux <= 0x2000_0000_0000
                        && 0 <= wv * hm.muy <= 0x2000_0000_0000 && 0 <= wv * hm.x2
                        <= 0x4000_0000_0000_0000 && 0 <= wv * hm.xy <= 0x4000_0000_0000_0000 && 0
                        <= wv * hm.y2 <= 0x4000_0000_0000_0000) by (nonlinear_arith)
                        requires
                            0 <= wv <= 1024,
                            0 <= hm.w <= 1024,
                            0 <= hm.mux <= 0x8_0000_0000,
                            0 <= hm.muy <= 0x8_0000_0000,
                            0 <= hm.x2 <= 0x10_0000_0000_0000,
                            0 <= hm.xy <= 0x10_0000_0000_0000,
                            0 <= hm.y2 <= 0x10_0000_0000_0000,
                    ;
                }
                mux = mux + wv * hm.mux;
                muy = muy + wv * hm.muy;
                x2 = x2 + wv * hm.x2;
                xy = xy + wv * hm.xy;
                y2 = y2 + wv * hm.y2;
                w = w + wv * hm.w;
                k = k + 1;
            }
            out.push(SsimMoments { mux, muy, x2, xy, y2, w });
            proof {
                let idx = o as int * width as int + x as int;
                vstd::arithmetic::div_mod::lemma_fundamental_div_mod_converse(
                    idx,
                    width as int,
                    o as int,
                    x as int,
                );
                assert(idx / width as int == o as int && idx % width as int == x as int);
            }
            x = x + 1;
        }
        o = o + 1;
        proof {
            assert(out@.len() == o * width) by (nonlinear_arith)
                requires
                    out@.len() == (o - 1) * width + width,
            ;
        }
    }
    proof {
        lemma_mul_is_commutative(height as int, width as int);
    }
    out
}

/// Total weight of a one-sided kernel tail.
pub open spec fn tail_sum(tail: Seq<i64>) -> int {
    sum_range(kernel_term_fn(tail), 0, tail.len() as int)
}

/// What the kernel builder accepts of a tail: nonnegative coefficients
/// whose doubled total leaves a nonnegative centre, under a fixed-point
/// unit of at most 1024.
pub open spec fn tail_ok(tail: Seq<i64>, kernel_weight: int) -> bool {
    &&& tail.len() <= 0x7FF_FFFF
    &&& forall|i: int| 0 <= i < tail.len() ==> 0 <= #[trigger] tail[i]
    &&& 1 <= kernel_weight <= 1024
    &&& 2 * tail_sum(tail) <= kernel_weight
}

/// The symmetric fixed-point kernel built from a one-sided tail: the tail
/// mirrored on both sides of a centre coefficient that absorbs the rounding
/// residue, so the whole kernel sums exactly to the fixed-point unit.
pub open spec fn sym_kernel(tail: Seq<i64>, kernel_weight: int) -> Seq<i64> {
    let l = tail.len() as int;
    Seq::new(
        (2 * l + 1) as nat,
        |i: int|
            if i < l {
                tail[l - 1 - i]
            } else if i == l {
                (kernel_weight - 2 * tail_sum(tail)) as i64
            } else {
                tail[i - l - 1]
            },
    )
}

/// Sum of the symmetric kernel over `[l - j, l + j + 1)`.
proof fn lemma_sym_kernel_sum_rec(tail: Seq<i64>, kernel_weight: int, j: int)
    requires
        tail_ok(tail, kernel_weight),
        0 <= j <= tail.len(),
    ensures
        sum_range(
            kernel_term_fn(sym_kernel(tail, kernel_weight)),
            tail.len() - j,
            tail.len() + j + 1,
        ) == kernel_weight - 2 * tail_sum(tail) + 2 * sum_range(kernel_term_fn(tail), 0, j),
    decreases j,
{
    let l = tail.len() as int;
    let k = sym_kernel(tail, kernel_weight);
    let f = kernel_term_fn(k);
    if j == 0 {
        assert(sum_range(f, l, l) == 0);
        assert(sum_range(f, l, l + 1) == f(l));
        lemma_sum_range_nonneg(kernel_term_fn(tail), 0, l);
        assert(0 <= kernel_weight - 2 * tail_sum(tail) <= 1024);
    } else {
        lemma_sym_kernel_sum_rec(tail, kernel_weight, j - 1);
        lemma_sum_range_split(f, l - j, l - j + 1, l + j + 1);
        lemma_sum_range_split(f, l - j + 1, l + j, l + j + 1);
        assert(sum_range(f, l - j, l - j) == 0);
        assert(sum_range(f, l - j, l - j + 1) == f(l - j));
        assert(sum_range(f, l + j, l + j) == 0);
        assert(sum_range(f, l + j, l + j + 1) == f(l + j));
        assert(f(l - j) == tail[j - 1] as int);
        assert(f(l + j) == tail[j - 1] as int);
        assert(sum_range(kernel_term_fn(tail), 0, j) == sum_range(kernel_term_fn(tail), 0, j - 1)
            + tail[j - 1]);
    }
}

/// The symmetric kernel sums exactly to the fixed-point unit it was built
/// for: the centre coefficient absorbs all rounding error of the tail.
pub proof fn lemma_sym_kernel_sum(tail: Seq<i64>, kernel_weight: int)
    requires
        tail_ok(tail, kernel_weight),
    ensures
        kernel_sum(sym_kernel(tail, kernel_weight)) == kernel_weight,
        kernel_ok(sym_kernel(tail, kernel_weight)),
{
    let l = tail.len() as int;
    lemma_sym_kernel_sum_rec(tail, kernel_weight, l);
    assert(kernel_sum(sym_kernel(tail, kernel_weight)) == sum_range(
        kernel_term_fn(sym_kernel(tail, kernel_weight)),
        0,
        2 * l + 1,
    ));
    lemma_sum_range_nonneg(kernel_term_fn(tail), 0, l);
    assert(0 <= kernel_weight - 2 * tail_sum(tail) <= 1024);
    assert forall|i: int| 0 <= i < 2 * l + 1 implies 0 <= #[trigger] sym_kernel(
        tail,
        kernel_weight,
    )[i] by {
        if i < l {
        } else if i == l {
        } else {
        }
    }
}

/// Builds the symmetric integer convolution kernel from its one-sided tail:
/// the tail mirrored around a centre coefficient chosen so that the kernel's
/// weights sum exactly to `kernel_weight`, the fixed-point unit.
pub fn build_gaussian_kernel(tail: &Vec<i64>, kernel_weight: i64) -> (kernel: Vec<i64>)
    requires
        tail_ok(tail@, kernel_weight as int),
    ensures
        kernel@ == sym_kernel(tail@, kernel_weight as int),
        kernel@.len() == 2 * tail@.len() + 1,
        kernel_sum(kernel@) == kernel_weight,
        kernel_ok(kernel@),
{
    let l = tail.len();
    let mut total: i64 = 0;
    let mut i: usize = 0;
    while i < l
        invariant
            0 <= i <= l,
            l == tail@.len(),
            tail_ok(tail@, kernel_weight as int),
            total == sum_range(kernel_term_fn(tail@), 0, i as int),
            0 <= total <= 512,
        decreases l - i,
    {
        proof {
            lemma_sum_range_nonneg(kernel_term_fn(tail@), 0, i as int + 1);
            lemma_sum_range_split(kernel_term_fn(tail@), 0, i as int + 1, l as int);
            lemma_sum_range_nonneg(kernel_term_fn(tail@), i as int + 1, l as int);
        }
        total = total + tail[i];
        i = i + 1;
    }
    let mut kernel: Vec<i64> = Vec::new();
    let mut i: usize = 0;
    while i < l
        invariant
            0 <= i <= l,
            l == tail@.len(),
            tail_ok(tail@, kernel_weight as int),
            kernel@.len() == i,
            forall|c: int| 0 <= c < i ==> #[trigger] kernel@[c] == tail@[l - 1 - c],
        decreases l - i,
    {
        kernel.push(tail[l - 1 - i]);
        i = i + 1;
    }
    kernel.push(kernel_weight - 2 * total);
    let mut ci: usize = 0;
    while ci < l
        invariant
            0 <= ci <= l,
            l == tail@.len(),
            tail_ok(tail@, kernel_weight as int),
            total == tail_sum(tail@),
            kernel@.len() == l + 1 + ci,
            forall|c: int| 0 <= c < l ==> #[trigger] kernel@[c] == tail@[l - 1 - c],
            kernel@[l as int] == kernel_weight - 2 * total,
            forall|c: int| l + 1 <= c < l + 1 + ci ==> #[trigger] kernel@[c] == tail@[c - l - 1],
        decreases l - ci,
    {
        kernel.push(tail[ci]);
        ci = ci + 1;
    }
    proof {
        lemma_sum_range_nonneg(kernel_term_fn(tail@), 0, l as int);
        let sk = sym_kernel(tail@, kernel_weight as int);
        assert forall|i: int| 0 <= i < kernel@.len() implies kernel@[i] == sk[i] by {
            if i < l {
            } else if i == l {
            } else {
            }
        }
        assert(kernel@ =~= sk);
        lemma_sym_kernel_sum(tail@, kernel_weight as int);
    }
    kernel
}

/// A plane's samples as the 32-bit values the convolution reads.
pub open spec fn plane_u32(p: &Plane) -> Seq<u32> {
    p.data@.map(|i: int, v: u16| v as u32)
}

/// Machine limit on plane dimensions accepted by the SSIM engines: keeps
/// all index arithmetic within a 32-bit usize.
pub open spec fn plane_dims_ok(p: &Plane) -> bool {
    p.width <= 0x1000_0000 && p.height <= 0x1000_0000
}

/// Every plane of the frame is within the dimension limit.
pub open spec fn frame_dims_ok(f: &Frame) -> bool {
    forall|i: int| 0 <= i < 3 ==> plane_dims_ok(&f.planes[i])
}

/// The moment grid of one plane pair, convolved in both directions with the
/// symmetric kernel built from `tail` under the SSIM fixed-point unit 256.
pub open spec fn plane_ssim_matches(out: Seq<SsimMoments>, p1: &Plane, p2: &Plane, tail: Seq<i64>) -> bool {
    let kernel = sym_kernel(tail, 256);
    &&& out.len() == p1.width * p1.height
    &&& grid_matches(
        out,
        plane_u32(p1),
        plane_u32(p2),
        kernel,
        kernel,
        p1.width as int,
        p1.height as int,
        p1.width * p1.height,
    )
}

/// Flattens one plane pair and accumulates its SSIM moment grid, using the
/// same symmetric kernel vertically and horizontally, built from the given
/// tail under the SSIM fixed-point unit 256.
pub fn calculate_plane_ssim(p1: &Plane, p2: &Plane, tail: &Vec<i64>) -> (out: Vec<SsimMoments>)
    requires
        p1.is_valid(),
        p2.is_valid(),
        p1.same_dims(p2),
        plane_dims_ok(p1),
        tail_ok(tail@, 256),
    ensures
        plane_ssim_matches(out@, p1, p2, tail@),
{
    let kernel = build_gaussian_kernel(tail, 256);
    let v1 = crate::frame::plane_to_vec(p1);
    let v2 = crate::frame::plane_to_vec(p2);
    proof {
        assert(v1@ =~= plane_u32(p1));
        assert(v2@ =~= plane_u32(p2));
        lemma_mul_inequality(p1.width as int, p1.stride as int, p1.height as int);
        vstd::arithmetic::mul::lemma_mul_is_commutative(p1.stride as int, p1.height as int);
        lemma_mul_inequality(p2.width as int, p2.stride as int, p2.height as int);
        vstd::arithmetic::mul::lemma_mul_is_commutative(p2.stride as int, p2.height as int);
        assert(samples_le(v1@, SSIM_SAMPLE_MAX as int));
        assert(samples_le(v2@, SSIM_SAMPLE_MAX as int));
    }
    ssim_plane_moments(&v1, &v2, p1.width, p1.height, &kernel, &kernel)
}

/// The one-sided kernel tails for the three planes of a frame, as computed
/// by the caller from each plane's height.
pub struct KernelTails {
    /// Tail for the luma plane's kernel.
    pub y: Vec<i64>,
    /// Tail for the first chroma plane's kernel.
    pub u: Vec<i64>,
    /// Tail for the second chroma plane's kernel.
    pub v: Vec<i64>,
}

/// All three tails are acceptable under the SSIM fixed-point unit.
pub open spec fn tails_ok(tails: &KernelTails) -> bool {
    &&& tail_ok(tails.y@, 256)
    &&& tail_ok(tails.u@, 256)
    &&& tail_ok(tails.v@, 256)
}

/// The per-frame SSIM artifact: one moment grid per plane.
pub struct FrameSsim {
    /// Moment grid of the luma plane pair.
    pub y: Vec<SsimMoments>,
    /// Moment grid of the first chroma plane pair.
    pub u: Vec<SsimMoments>,
    /// Moment grid of the second chroma plane pair.
    pub v: Vec<SsimMoments>,
}

/// The frame artifact holds the moment grids of all three plane pairs.
pub open spec fn frame_ssim_matches(
    r: &FrameSsim,
    f1: &Frame,
    f2: &Frame,
    tails: &KernelTails,
) -> bool {
    &&& plane_ssim_matches(r.y@, &f1.planes[0], &f2.planes[0], tails.y@)
    &&& plane_ssim_matches(r.u@, &f1.planes[1], &f2.planes[1], tails.u@)
    &&& plane_ssim_matches(r.v@, &f1.planes[2], &f2.planes[2], tails.v@)
}

/// Validates one frame pair and accumulates the SSIM moment grids of its
/// three plane pairs, in parallel.
pub fn ssim_process_frame(f1: &Frame, f2: &Frame, bit_depth: usize, tails: &KernelTails) -> (r:
    Result<FrameSsim, MetricsError>)
    requires
        f1.is_valid(),
        f2.is_valid(),
        frame_dims_ok(f1),
        tails_ok(tails),
    ensures
        r is Ok <==> valid_frame_pair(f1, f2, bit_depth),
        r matches Ok(fr) ==> frame_ssim_matches(&fr, f1, f2, tails),
{
    match validate_frame_pair(f1, f2, bit_depth) {
        Err(e) => Err(e),
        Ok(()) => {
            let (y, u, v) = join_ssim_planes(f1, f2, tails);
            Ok(FrameSsim { y, u, v })
        },
    }
}

/// Per-frame SSIM moment grids of a whole video comparison: frame pairs are
/// taken in lock-step until either stream or the frame limit ends, each pair
/// is validated before any arithmetic, and the first invalid pair aborts the
/// comparison. `tails[i]` supplies the kernel tails of frame `i`, computed
/// by the caller from the planes' heights. The caller turns each window's
/// moments into its real-valued score and log-converts the per-frame sums.
pub fn calculate_video_ssim(
    video1: &Vec<Frame>,
    video2: &Vec<Frame>,
    bit_depth: usize,
    frame_limit: Option<usize>,
    tails: &Vec<KernelTails>,
) -> (r: Result<Vec<FrameSsim>, MetricsError>)
    requires
        forall|i: int| 0 <= i < video1@.len() ==> (#[trigger] video1@[i]).is_valid(),
        forall|i: int| 0 <= i < video2@.len() ==> (#[trigger] video2@[i]).is_valid(),
        forall|i: int| 0 <= i < video1@.len() ==> frame_dims_ok(&(#[trigger] video1@[i])),
        tails@.len() >= crate::psnr_hvs::frames_to_process(
            video1@.len() as int,
            video2@.len() as int,
            frame_limit,
        ),
        forall|i: int| 0 <= i < tails@.len() ==> tails_ok(&(#[trigger] tails@[i])),
    ensures
        ({
            let n = crate::psnr_hvs::frames_to_process(
                video1@.len() as int,
                video2@.len() as int,
                frame_limit,
            );
            &&& (r is Ok <==> forall|i: int|
                0 <= i < n ==> valid_frame_pair(&video1@[i], &video2@[i], bit_depth))
            &&& (r matches Ok(frames) ==> frames@.len() == n && forall|i: int|
                0 <= i < n ==> frame_ssim_matches(
                    &frames@[i],
                    &video1@[i],
                    &video2@[i],
                    &tails@[i],
                ))
        }),
{
    let len1 = video1.len();
    let len2 = video2.len();
    let mut n = if len1 <= len2 {
        len1
    } else {
        len2
    };
    match frame_limit {
        Some(l) => {
            if l < n {
                n = l;
            }
        },
        None => {},
    }
    assert(n == crate::psnr_hvs::frames_to_process(
        video1@.len() as int,
        video2@.len() as int,
        frame_limit,
    ));
    let mut out: Vec<FrameSsim> = Vec::new();
    let mut i: usize = 0;
    while i < n
        invariant
            0 <= i <= n,
            n == crate::psnr_hvs::frames_to_process(
                video1@.len() as int,
                video2@.len() as int,
                frame_limit,
            ),
            n <= video1@.len(),
            n <= video2@.len(),
            n <= tails@.len(),
            forall|k: int| 0 <= k < video1@.len() ==> (#[trigger] video1@[k]).is_valid(),
            forall|k: int| 0 <= k < video2@.len() ==> (#[trigger] video2@[k]).is_valid(),
            forall|k: int| 0 <= k < video1@.len() ==> frame_dims_ok(&(#[trigger] video1@[k])),
            forall|k: int| 0 <= k < tails@.len() ==> tails_ok(&(#[trigger] tails@[k])),
            out@.len() == i,
            forall|k: int| 0 <= k < i ==> valid_frame_pair(&video1@[k], &video2@[k], bit_depth),
            forall|k: int|
                0 <= k < i ==> frame_ssim_matches(&out@[k], &video1@[k], &video2@[k], &tails@[k]),
        decreases n - i,
    {
        match ssim_process_frame(&video1[i], &video2[i], bit_depth, &tails[i]) {
            Ok(fr) => {
                out.push(fr);
            },
            Err(e) => {
                return Err(e);
            },
        }
        i = i + 1;
    }
    Ok(out)
}

/// Self-comparison at the horizontal level: both planes being the same
/// sequence, the two first-order moments agree and the three second-order
/// moments agree.
proof fn lemma_h_mom_rec_self(p: Seq<u32>, kernel: Seq<i64>, row_off: int, x: int, k: int)
    ensures
        ({
            let m = h_mom_rec(p, p, kernel, row_off, x, k);
            m.mux == m.muy && m.x2 == m.xy && m.xy == m.y2
        }),
    decreases k,
{
    let off = kernel.len() as int / 2;
    if k <= win_lo_h(off, x) || k < 0 {
    } else {
        lemma_h_mom_rec_self(p, kernel, row_off, x, k - 1);
    }
}

/// Self-comparison at the vertical level.
proof fn lemma_v_mom_rec_self(
    p: Seq<u32>,
    vkernel: Seq<i64>,
    hkernel: Seq<i64>,
    width: int,
    o: int,
    x: int,
    k: int,
)
    ensures
        ({
            let m = v_mom_rec(p, p, vkernel, hkernel, width, o, x, k);
            m.mux == m.muy && m.x2 == m.xy && m.xy == m.y2
        }),
    decreases k,
{
    let klen = vkernel.len() as int;
    let off = klen / 2;
    if k <= win_lo_v(klen, off, o) || k < 0 {
    } else {
        lemma_v_mom_rec_self(p, vkernel, hkernel, width, o, x, k - 1);
        let r = o + off + (k - 1) + 1 - klen;
        lemma_h_mom_rec_self(
            p,
            hkernel,
            r * width,
            x,
            win_hi(hkernel.len() as int, hkernel.len() as int / 2, x, width),
        );
    }
}

/// A plane compared against itself: in every window the two weighted sample
/// sums agree and the three weighted second-order sums agree. The window's
/// contrast-structure term is then `w` and its full SSIM term `w * 1`, so
/// the plane's weighted-mean score is exactly one.
pub proof fn lemma_window_moments_self(
    p: Seq<u32>,
    vkernel: Seq<i64>,
    hkernel: Seq<i64>,
    width: int,
    height: int,
    o: int,
    x: int,
)
    ensures
        ({
            let m = window_moments(p, p, vkernel, hkernel, width, height, o, x);
            m.mux == m.muy && m.x2 == m.xy && m.xy == m.y2
        }),
{
    lemma_v_mom_rec_self(
        p,
        vkernel,
        hkernel,
        width,
        o,
        x,
        win_hi(vkernel.len() as int, vkernel.len() as int / 2, o, height),
    );
}

} // verus!
