//! The integer core of the MS-SSIM engine: the sum-based 2x2 pyramid
//! downsampling and the five-scale accumulation of SSIM moment grids.
//!
//! Between scales the plane is shrunk by summing each 2x2 cell — not
//! averaging, which preserves precision for the next scale's fixed-point
//! kernel arithmetic — clamping the second row and column index on odd
//! dimensions. The per-scale real-valued scores and the weighted product
//! that combines them are left to the caller.

use crate::frame::valid_frame_pair;
use crate::frame::validate_frame_pair;
use crate::frame::Frame;
use crate::frame::Plane;
use crate::parallel::join_msssim_planes;
use crate::psnr_hvs::frames_to_process;
use crate::ssim::build_gaussian_kernel;
use crate::ssim::frame_dims_ok;
use crate::ssim::grid_matches;
use crate::ssim::plane_u32;
use crate::ssim::samples_le;
use crate::ssim::ssim_plane_moments;
use crate::ssim::sym_kernel;
use crate::ssim::tail_ok;
use crate::ssim::SsimMoments;
use crate::MetricsError;
use vstd::arithmetic::mul::lemma_mul_inequality;
use vstd::arithmetic::mul::lemma_mul_is_commutative;
use vstd::prelude::*;

verus! {

/// Largest sample value MS-SSIM accepts at the original scale: four
/// rounds of 2x2 summing multiply samples by up to 256, and the result
/// must stay within what the moment accumulators accept.
pub const MSSSIM_SAMPLE_MAX: u32 = 0x1FFF;

/// The clamped 2x2 sum at output cell `(j, i)` of a plane of the given
/// dimensions: on odd dimensions the second row or column index is clamped
/// to the last valid index.
pub open spec fn down_at(p: Seq<u32>, w: int, h: int, j: int, i: int) -> int {
    let j0 = 2 * j;
    let j1 = if 2 * j + 1 <= h - 1 {
        2 * j + 1
    } else {
        h - 1
    };
    let i0 = 2 * i;
    let i1 = if 2 * i + 1 <= w - 1 {
        2 * i + 1
    } else {
        w - 1
    };
    p[j0 * w + i0] + p[j0 * w + i1] + p[j1 * w + i0] + p[j1 * w + i1]
}

/// The plain 2x2 block sum with no clamping: what a reference-equivalent
/// downsampler computes when both dimensions are even.
pub open spec fn down_at_unclamped(p: Seq<u32>, w: int, j: int, i: int) -> int {
    p[2 * j * w + 2 * i] + p[2 * j * w + 2 * i + 1] + p[(2 * j + 1) * w + 2 * i] + p[(2 * j + 1) * w
        + 2 * i + 1]
}

/// On even dimensions the clamp never engages: sum-based downsampling reads
/// exactly the plain 2x2 block, so it agrees with a reference-equivalent
/// downsampler everywhere. Odd dimensions only clamp; they never read out
/// of bounds.
pub proof fn lemma_downscale_even_matches_reference(p: Seq<u32>, w: int, h: int, j: int, i: int)
    requires
        w % 2 == 0,
        h % 2 == 0,
        0 <= j < h / 2,
        0 <= i < w / 2,
    ensures
        down_at(p, w, h, j, i) == down_at_unclamped(p, w, j, i),
{
}

/// The downscaled plane: half the width and height, each output sample the
/// clamped 2x2 sum of its source cell.
pub open spec fn downscale_spec(p: Seq<u32>, w: int, h: int) -> Seq<u32> {
    let ow = w / 2;
    let oh = h / 2;
    Seq::new((ow * oh) as nat, |idx: int| (down_at(p, w, h, idx / ow, idx % ow) as u32))
}

/// A source index read by the clamped 2x2 sum is inside the plane.
proof fn lemma_down_index(w: int, h: int, r: int, c: int)
    requires
        0 <= r < h,
        0 <= c < w,
    ensures
        0 <= r * w + c < w * h,
{
    lemma_mul_inequality(r, h - 1, w);
    assert((h - 1) * w == h * w - w) by (nonlinear_arith);
    lemma_mul_is_commutative(h, w);
    vstd::arithmetic::mul::lemma_mul_nonnegative(r, w);
}

/// Halves a plane pairwise: each output sample is the sum, not the average,
/// of a 2x2 cell, clamping the second row and column index on odd
/// dimensions.
pub fn msssim_downscale(input: &Vec<u32>, input_width: usize, input_height: usize) -> (out: Vec<
    u32,
>)
    requires
        input_width <= 0x1000_0000,
        input_height <= 0x1000_0000,
        input_width * input_height <= input@.len(),
        samples_le(input@, 0x3FFF_FFFF),
    ensures
        out@.len() == (input_width / 2) * (input_height / 2),
        forall|idx: int|
            0 <= idx < out@.len() ==> out@[idx] == down_at(
                input@,
                input_width as int,
                input_height as int,
                idx / (input_width / 2) as int,
                idx % (input_width / 2) as int,
            ),
{
    let w = input_width;
    let h = input_height;
    let n = input.len();
    let ow = w / 2;
    let oh = h / 2;
    let mut out: Vec<u32> = Vec::new();
    let mut j: usize = 0;
    while j < oh
        invariant
            0 <= j <= oh,
            ow == w / 2,
            oh == h / 2,
            w == input_width,
            h == input_height,
            w <= 0x1000_0000,
            h <= 0x1000_0000,
            w * h <= input@.len(),
            n == input@.len(),
            samples_le(input@, 0x3FFF_FFFF),
            out@.len() == j * ow,
            forall|idx: int|
                0 <= idx < out@.len() ==> out@[idx] == down_at(
                    input@,
                    w as int,
                    h as int,
                    idx / ow as int,
                    idx % ow as int,
                ),
        decreases oh - j,
    {
        let j0 = 2 * j;
        let j1 = if j0 + 1 <= h - 1 {
            j0 + 1
        } else {
            h - 1
        };
        let mut i: usize = 0;
        while i < ow
            invariant
                0 <= i <= ow,
                0 <= j < oh,
                ow == w / 2,
                oh == h / 2,
                w == input_width,
                h == input_height,
                w <= 0x1000_0000,
                h <= 0x1000_0000,
                w * h <= input@.len(),
                n == input@.len(),
                samples_le(input@, 0x3FFF_FFFF),
                j0 == 2 * j,
                j1 == (if 2 * j + 1 <= h - 1 {
                    2 * j + 1
                } else {
                    h - 1
                }),
                0 <= j1 < h,
                out@.len() == j * ow + i,
                forall|idx: int|
                    0 <= idx < out@.len() ==> out@[idx] == down_at(
                        input@,
                        w as int,
                        h as int,
                        idx / ow as int,
                        idx % ow as int,
                    ),
            decreases ow - i,
        {
            let i0 = 2 * i;
            let i1 = if i0 + 1 <= w - 1 {
                i0 + 1
            } else {
                w - 1
            };
            proof {
                lemma_down_index(w as int, h as int, j0 as int, i0 as int);
                lemma_down_index(w as int, h as int, j0 as int, i1 as int);
                lemma_down_index(w as int, h as int, j1 as int, i0 as int);
                lemma_down_index(w as int, h as int, j1 as int, i1 as int);
            }
            let v = input[j0 * w + i0] + input[j0 * w + i1] + input[j1 * w + i0] + input[j1 * w
                + i1];
            out.push(v);
            proof {
                let idx = j as int * ow as int + i as int;
                vstd::arithmetic::div_mod::lemma_fundamental_div_mod_converse(
                    idx,
                    ow as int,
                    j as int,
                    i as int,
                );
            }
            i = i + 1;
        }
        j = j + 1;
        proof {
            assert(out@.len() == j * ow) by (nonlinear_arith)
                requires
                    out@.len() == (j - 1) * ow + ow,
            ;
        }
    }
    proof {
        lemma_mul_is_commutative(oh as int, ow as int);
    }
    out
}

/// The five per-scale sample bounds, written out.
proof fn lemma_scale_max_values()
    ensures
        scale_max(0) == 0x1FFF,
        scale_max(1) == 0x7FFC,
        scale_max(2) == 0x1_FFF0,
        scale_max(3) == 0x7_FFC0,
        scale_max(4) == 0x1F_FF00,
{
    assert(scale_max(0) == 0x1FFF);
    assert(scale_max(1) == 4 * scale_max(0));
    assert(scale_max(2) == 4 * scale_max(1));
    assert(scale_max(3) == 4 * scale_max(2));
    assert(scale_max(4) == 4 * scale_max(3));
}

/// Width of the plane at pyramid scale `s`.
pub open spec fn scale_w(w: int, s: nat) -> int
    decreases s,
{
    if s == 0 {
        w
    } else {
        scale_w(w, (s - 1) as nat) / 2
    }
}

/// Height of the plane at pyramid scale `s`.
pub open spec fn scale_h(h: int, s: nat) -> int
    decreases s,
{
    if s == 0 {
        h
    } else {
        scale_h(h, (s - 1) as nat) / 2
    }
}

/// The flattened plane at pyramid scale `s`: scale 0 is the plane itself,
/// each further scale the clamped 2x2 sum of the one before.
pub open spec fn scale_seq(p: Seq<u32>, w: int, h: int, s: nat) -> Seq<u32>
    decreases s,
{
    if s == 0 {
        p
    } else {
        downscale_spec(
            scale_seq(p, w, h, (s - 1) as nat),
            scale_w(w, (s - 1) as nat),
            scale_h(h, (s - 1) as nat),
        )
    }
}

/// Largest sample value at pyramid scale `s`, starting from the accepted
/// original-scale maximum.
pub open spec fn scale_max(s: nat) -> int
    decreases s,
{
    if s == 0 {
        MSSSIM_SAMPLE_MAX as int
    } else {
        4 * scale_max((s - 1) as nat)
    }
}

/// The five per-scale moment grids of one plane pair under the MS-SSIM
/// kernel built from `tail` with the fixed-point unit 1024.
pub open spec fn plane_msssim_matches(
    scales: Seq<Vec<SsimMoments>>,
    p1: &Plane,
    p2: &Plane,
    tail: Seq<i64>,
) -> bool {
    let kernel = sym_kernel(tail, 1024);
    let w = p1.width as int;
    let h = p1.height as int;
    &&& scales.len() == 5
    &&& forall|s: int|
        0 <= s < 5 ==> (#[trigger] scales[s])@.len() == scale_w(w, s as nat) * scale_h(h, s as nat)
    &&& forall|s: int|
        0 <= s < 5 ==> grid_matches(
            (#[trigger] scales[s])@,
            scale_seq(plane_u32(p1), w, h, s as nat),
            scale_seq(plane_u32(p2), w, h, s as nat),
            kernel,
            kernel,
            scale_w(w, s as nat),
            scale_h(h, s as nat),
            scale_w(w, s as nat) * scale_h(h, s as nat),
        )
}

/// Accumulates the SSIM moment grid of one plane pair at five progressively
/// halved scales, downsampling by clamped 2x2 sums between scales.
pub fn calculate_plane_msssim(p1: &Plane, p2: &Plane, tail: &Vec<i64>) -> (scales: Vec<
    Vec<SsimMoments>,
>)
    requires
        p1.is_valid(),
        p2.is_valid(),
        p1.same_dims(p2),
        crate::ssim::plane_dims_ok(p1),
        p1.samples_le(MSSSIM_SAMPLE_MAX as int),
        p2.samples_le(MSSSIM_SAMPLE_MAX as int),
        tail_ok(tail@, 1024),
    ensures
        plane_msssim_matches(scales@, p1, p2, tail@),
{
    let ghost w0 = p1.width as int;
    let ghost h0 = p1.height as int;
    let ghost g1 = plane_u32(p1);
    let ghost g2 = plane_u32(p2);
    let kernel = build_gaussian_kernel(tail, 1024);
    let mut cur1 = crate::frame::plane_to_vec(p1);
    let mut cur2 = crate::frame::plane_to_vec(p2);
    let mut w = p1.width;
    let mut h = p1.height;
    proof {
        assert(cur1@ =~= g1);
        assert(cur2@ =~= g2);
        lemma_mul_inequality(p1.width as int, p1.stride as int, p1.height as int);
        lemma_mul_is_commutative(p1.stride as int, p1.height as int);
        lemma_mul_inequality(p2.width as int, p2.stride as int, p2.height as int);
        lemma_mul_is_commutative(p2.stride as int, p2.height as int);
        assert(samples_le(cur1@, scale_max(0)));
        assert(samples_le(cur2@, scale_max(0)));
        assert(scale_max(0) <= 0x1F_FFFF && scale_max(1) == 4 * scale_max(0) && scale_max(2) == 4
            * scale_max(1) && scale_max(3) == 4 * scale_max(2) && scale_max(4) == 4 * scale_max(3));
    }
    let mut scales: Vec<Vec<SsimMoments>> = Vec::new();
    let m0 = ssim_plane_moments(&cur1, &cur2, w, h, &kernel, &kernel);
    scales.push(m0);
    let mut s: usize = 1;
    while s < 5
        invariant
            1 <= s <= 5,
            w0 == p1.width as int,
            h0 == p1.height as int,
            g1 == plane_u32(p1),
            g2 == plane_u32(p2),
            kernel@ == sym_kernel(tail@, 1024),
            crate::ssim::kernel_ok(kernel@),
            w == scale_w(w0, (s - 1) as nat),
            h == scale_h(h0, (s - 1) as nat),
            w <= 0x1000_0000,
            h <= 0x1000_0000,
            cur1@ == scale_seq(g1, w0, h0, (s - 1) as nat),
            cur2@ == scale_seq(g2, w0, h0, (s - 1) as nat),
            w * h <= cur1@.len(),
            w * h <= cur2@.len(),
            samples_le(cur1@, scale_max((s - 1) as nat)),
            samples_le(cur2@, scale_max((s - 1) as nat)),
            0 <= scale_max((s - 1) as nat) <= 0x1F_FF00,
            scales@.len() == s,
            forall|t: int|
                0 <= t < s ==> (#[trigger] scales@[t])@.len() == scale_w(w0, t as nat) * scale_h(
                    h0,
                    t as nat,
                ),
            forall|t: int|
                0 <= t < s ==> grid_matches(
                    (#[trigger] scales@[t])@,
                    scale_seq(g1, w0, h0, t as nat),
                    scale_seq(g2, w0, h0, t as nat),
                    kernel@,
                    kernel@,
                    scale_w(w0, t as nat),
                    scale_h(h0, t as nat),
                    scale_w(w0, t as nat) * scale_h(h0, t as nat),
                ),
        decreases 5 - s,
    {
        proof {
            lemma_scale_max_values();
            if s == 1 {
                assert(scale_max((s - 1) as nat) == 0x1FFF);
            } else if s == 2 {
                assert(scale_max((s - 1) as nat) == 0x7FFC);
            } else if s == 3 {
                assert(scale_max((s - 1) as nat) == 0x1_FFF0);
            } else {
                assert(s == 4);
                assert(scale_max((s - 1) as nat) == 0x7_FFC0);
            }
            assert(scale_max(s as nat) == 4 * scale_max((s - 1) as nat));
        }
        let next1 = msssim_downscale(&cur1, w, h);
        let next2 = msssim_downscale(&cur2, w, h);
        proof {
            let ow = w as int / 2;
            let oh = h as int / 2;
            assert(next1@ =~= downscale_spec(cur1@, w as int, h as int)) by {
                assert forall|idx: int| 0 <= idx < next1@.len() implies next1@[idx]
                    == downscale_spec(cur1@, w as int, h as int)[idx] by {
                    lemma_down_samples(cur1@, w as int, h as int, idx);
                }
            }
            assert(next2@ =~= downscale_spec(cur2@, w as int, h as int)) by {
                assert forall|idx: int| 0 <= idx < next2@.len() implies next2@[idx]
                    == downscale_spec(cur2@, w as int, h as int)[idx] by {
                    lemma_down_samples(cur2@, w as int, h as int, idx);
                }
            }
            assert forall|idx: int| 0 <= idx < next1@.len() implies #[trigger] next1@[idx] <= 4
                * scale_max((s - 1) as nat) by {
                lemma_down_value_bound(
                    cur1@,
                    w as int,
                    h as int,
                    idx,
                    scale_max((s - 1) as nat),
                );
            }
            assert forall|idx: int| 0 <= idx < next2@.len() implies #[trigger] next2@[idx] <= 4
                * scale_max((s - 1) as nat) by {
                lemma_down_value_bound(
                    cur2@,
                    w as int,
                    h as int,
                    idx,
                    scale_max((s - 1) as nat),
                );
            }
            lemma_mul_is_commutative(oh, ow);
        }
        cur1 = next1;
        cur2 = next2;
        w = w / 2;
        h = h / 2;
        let m = ssim_plane_moments(&cur1, &cur2, w, h, &kernel, &kernel);
        scales.push(m);
        s = s + 1;
    }
    scales
}

/// Relates one downscaled sample to the clamped 2x2 sum it came from.
proof fn lemma_down_samples(p: Seq<u32>, w: int, h: int, idx: int)
    requires
        0 <= idx < (w / 2) * (h / 2),
    ensures
        downscale_spec(p, w, h)[idx] == (down_at(p, w, h, idx / (w / 2), idx % (w / 2)) as u32),
{
}

/// A downscaled sample of a bounded plane is at most four times the bound.
proof fn lemma_down_value_bound(p: Seq<u32>, w: int, h: int, idx: int, bound: int)
    requires
        samples_le(p, bound),
        0 <= bound <= 0x1F_FFFF,
        w * h <= p.len(),
        0 <= w <= 0x1000_0000,
        0 <= h <= 0x1000_0000,
        0 <= idx < (w / 2) * (h / 2),
    ensures
        downscale_spec(p, w, h)[idx] <= 4 * bound,
{
    let ow = w / 2;
    let oh = h / 2;
    assert(ow >= 1 && oh >= 1) by (nonlinear_arith)
        requires
            0 <= idx < ow * oh,
            0 <= ow,
            0 <= oh,
    ;
    let j = idx / ow;
    let i = idx % ow;
    vstd::arithmetic::div_mod::lemma_fundamental_div_mod(idx, ow);
    assert(0 <= j < oh) by {
        vstd::arithmetic::div_mod::lemma_div_pos_is_pos(idx, ow);
        if j >= oh {
            lemma_mul_inequality(oh, j, ow);
            lemma_mul_is_commutative(oh, ow);
            lemma_mul_is_commutative(j, ow);
            assert(ow * j + i >= ow * oh);
        }
    }
    assert(0 <= i < ow);
    let j0 = 2 * j;
    let j1 = if 2 * j + 1 <= h - 1 {
        2 * j + 1
    } else {
        h - 1
    };
    let i0 = 2 * i;
    let i1 = if 2 * i + 1 <= w - 1 {
        2 * i + 1
    } else {
        w - 1
    };
    assert(0 <= j0 < h && 0 <= j1 < h && 0 <= i0 < w && 0 <= i1 < w);
    lemma_down_index(w, h, j0, i0);
    lemma_down_index(w, h, j0, i1);
    lemma_down_index(w, h, j1, i0);
    lemma_down_index(w, h, j1, i1);
}

/// The per-frame MS-SSIM artifact: five per-scale moment grids per plane.
pub struct FrameMsSsim {
    /// Per-scale moment grids of the luma plane pair.
    pub y: Vec<Vec<SsimMoments>>,
    /// Per-scale moment grids of the first chroma plane pair.
    pub u: Vec<Vec<SsimMoments>>,
    /// Per-scale moment grids of the second chroma plane pair.
    pub v: Vec<Vec<SsimMoments>>,
}

/// The frame artifact holds the pyramid moment grids of all three plane
/// pairs.
pub open spec fn frame_msssim_matches(
    r: &FrameMsSsim,
    f1: &Frame,
    f2: &Frame,
    tail: Seq<i64>,
) -> bool {
    &&& plane_msssim_matches(r.y@, &f1.planes[0], &f2.planes[0], tail)
    &&& plane_msssim_matches(r.u@, &f1.planes[1], &f2.planes[1], tail)
    &&& plane_msssim_matches(r.v@, &f1.planes[2], &f2.planes[2], tail)
}

/// Validates one frame pair and accumulates the five-scale MS-SSIM moment
/// grids of its three plane pairs, in parallel.
pub fn msssim_process_frame(f1: &Frame, f2: &Frame, bit_depth: usize, tail: &Vec<i64>) -> (r:
    Result<FrameMsSsim, MetricsError>)
    requires
        f1.is_valid(),
        f2.is_valid(),
        frame_dims_ok(f1),
        f1.samples_le(MSSSIM_SAMPLE_MAX as int),
        f2.samples_le(MSSSIM_SAMPLE_MAX as int),
        tail_ok(tail@, 1024),
    ensures
        r is Ok <==> valid_frame_pair(f1, f2, bit_depth),
        r matches Ok(fr) ==> frame_msssim_matches(&fr, f1, f2, tail@),
{
    match validate_frame_pair(f1, f2, bit_depth) {
        Err(e) => Err(e),
        Ok(()) => {
            let (y, u, v) = join_msssim_planes(f1, f2, tail);
            Ok(FrameMsSsim { y, u, v })
        },
    }
}

/// Per-frame MS-SSIM moment pyramids of a whole video comparison: frame
/// pairs are taken in lock-step until either stream or the frame limit
/// ends, each pair is validated before any arithmetic, and the first
/// invalid pair aborts the comparison. One kernel tail serves all scales,
/// as the fixed sigma of the MS-SSIM kernel does. The caller scores each
/// scale's windows and combines the five scales with the fixed exponents.
pub fn calculate_video_msssim(
    video1: &Vec<Frame>,
    video2: &Vec<Frame>,
    bit_depth: usize,
    frame_limit: Option<usize>,
    tail: &Vec<i64>,
) -> (r: Result<Vec<FrameMsSsim>, MetricsError>)
    requires
        forall|i: int| 0 <= i < video1@.len() ==> (#[trigger] video1@[i]).is_valid(),
        forall|i: int| 0 <= i < video2@.len() ==> (#[trigger] video2@[i]).is_valid(),
        forall|i: int| 0 <= i < video1@.len() ==> frame_dims_ok(&(#[trigger] video1@[i])),
        forall|i: int|
            0 <= i < video1@.len() ==> (#[trigger] video1@[i]).samples_le(MSSSIM_SAMPLE_MAX as int),
        forall|i: int|
            0 <= i < video2@.len() ==> (#[trigger] video2@[i]).samples_le(MSSSIM_SAMPLE_MAX as int),
        tail_ok(tail@, 1024),
    ensures
        ({
            let n = frames_to_process(video1@.len() as int, video2@.len() as int, frame_limit);
            &&& (r is Ok <==> forall|i: int|
                0 <= i < n ==> valid_frame_pair(&video1@[i], &video2@[i], bit_depth))
            &&& (r matches Ok(frames) ==> frames@.len() == n && forall|i: int|
                0 <= i < n ==> frame_msssim_matches(&frames@[i], &video1@[i], &video2@[i], tail@))
        }),
{
    let len1 = video1.len();
    let len2 = video2.len();
    let mut n = if len1 <= len2 {
        len1
    } else {
        len2
    };
    match frame_limit {
        Some(l) => {
            if l < n {
                n = l;
            }
        },
        None => {},
    }
    assert(n == frames_to_process(video1@.len() as int, video2@.len() as int, frame_limit));
    let mut out: Vec<FrameMsSsim> = Vec::new();
    let mut i: usize = 0;
    while i < n
        invariant
            0 <= i <= n,
            n == frames_to_process(video1@.len() as int, video2@.len() as int, frame_limit),
            n <= video1@.len(),
            n <= video2@.len(),
            forall|k: int| 0 <= k < video1@.len() ==> (#[trigger] video1@[k]).is_valid(),
            forall|k: int| 0 <= k < video2@.len() ==> (#[trigger] video2@[k]).is_valid(),
            forall|k: int| 0 <= k < video1@.len() ==> frame_dims_ok(&(#[trigger] video1@[k])),
            forall|k: int|
                0 <= k < video1@.len() ==> (#[trigger] video1@[k]).samples_le(
                    MSSSIM_SAMPLE_MAX as int,
                ),
            forall|k: int|
                0 <= k < video2@.len() ==> (#[trigger] video2@[k]).samples_le(
                    MSSSIM_SAMPLE_MAX as int,
                ),
            tail_ok(tail@, 1024),
            out@.len() == i,
            forall|k: int| 0 <= k < i ==> valid_frame_pair(&video1@[k], &video2@[k], bit_depth),
            forall|k: int|
                0 <= k < i ==> frame_msssim_matches(&out@[k], &video1@[k], &video2@[k], tail@),
        decreases n - i,
    {
        match msssim_process_frame(&video1[i], &video2[i], bit_depth, tail) {
            Ok(fr) => {
                out.push(fr);
            },
            Err(e) => {
                return Err(e);
            },
        }
        i = i + 1;
    }
    Ok(out)
}

} // verus!
