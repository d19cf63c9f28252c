//! Fork-join fan-out of the three per-plane computations of one frame.
//!
//! Each metric computes its three channels as independent tasks with no
//! shared mutable state; a frame's result is assembled only after all three
//! have completed. The tasks run verified per-plane functions, so each
//! wrapper's contract just restates those functions' conclusions.

use crate::frame::Frame;
use crate::psnr_hvs::plane_blocks_match;
use crate::ssim::calculate_plane_ssim;
use crate::ssim::plane_ssim_matches;
use crate::msssim::calculate_plane_msssim;
use crate::msssim::plane_msssim_matches;
use crate::ssim::KernelTails;
use crate::ssim::SsimMoments;
use crate::psnr_hvs::psnr_hvs_plane_blocks;
use crate::psnr_hvs::PsnrHvsBlock;
use vstd::prelude::*;

verus! {

/// Relies on rayon::join: runs both closures to completion, on worker
/// threads when available, and returns both results. The closures only call
/// the verified `psnr_hvs_plane_blocks` on the three plane pairs.
#[verifier::external_body]
pub(crate) fn join_psnr_hvs_planes(f1: &Frame, f2: &Frame) -> (r: (
    Vec<PsnrHvsBlock>,
    Vec<PsnrHvsBlock>,
    Vec<PsnrHvsBlock>,
))
    requires
        f1.is_valid(),
        f2.is_valid(),
        crate::frame::frames_comparable(f1, f2),
    ensures
        plane_blocks_match(r.0@, &f1.planes[0], &f2.planes[0]),
        plane_blocks_match(r.1@, &f1.planes[1], &f2.planes[1]),
        plane_blocks_match(r.2@, &f1.planes[2], &f2.planes[2]),
{
    let (y, (u, v)) = rayon::join(
        || psnr_hvs_plane_blocks(&f1.planes[0], &f2.planes[0]),
        || {
            rayon::join(
                || psnr_hvs_plane_blocks(&f1.planes[1], &f2.planes[1]),
                || psnr_hvs_plane_blocks(&f1.planes[2], &f2.planes[2]),
            )
        },
    );
    (y, u, v)
}

/// Relies on rayon::join: runs both closures to completion, on worker
/// threads when available, and returns both results. The closures only call
/// the verified `calculate_plane_ssim` on the three plane pairs.
#[verifier::external_body]
pub(crate) fn join_ssim_planes(f1: &Frame, f2: &Frame, tails: &KernelTails) -> (r: (
    Vec<SsimMoments>,
    Vec<SsimMoments>,
    Vec<SsimMoments>,
))
    requires
        f1.is_valid(),
        f2.is_valid(),
        crate::frame::frames_comparable(f1, f2),
        crate::ssim::frame_dims_ok(f1),
        crate::ssim::tails_ok(tails),
    ensures
        plane_ssim_matches(r.0@, &f1.planes[0], &f2.planes[0], tails.y@),
        plane_ssim_matches(r.1@, &f1.planes[1], &f2.planes[1], tails.u@),
        plane_ssim_matches(r.2@, &f1.planes[2], &f2.planes[2], tails.v@),
{
    let (y, (u, v)) = rayon::join(
        || calculate_plane_ssim(&f1.planes[0], &f2.planes[0], &tails.y),
        || {
            rayon::join(
                || calculate_plane_ssim(&f1.planes[1], &f2.planes[1], &tails.u),
                || calculate_plane_ssim(&f1.planes[2], &f2.planes[2], &tails.v),
            )
        },
    );
    (y, u, v)
}

/// Relies on rayon::join: runs both closures to completion, on worker
/// threads when available, and returns both results. The closures only call
/// the verified `calculate_plane_msssim` on the three plane pairs.
#[verifier::external_body]
pub(crate) fn join_msssim_planes(f1: &Frame, f2: &Frame, tail: &Vec<i64>) -> (r: (
    Vec<Vec<SsimMoments>>,
    Vec<Vec<SsimMoments>>,
    Vec<Vec<SsimMoments>>,
))
    requires
        f1.is_valid(),
        f2.is_valid(),
        crate::frame::frames_comparable(f1, f2),
        crate::ssim::frame_dims_ok(f1),
        f1.samples_le(crate::msssim::MSSSIM_SAMPLE_MAX as int),
        f2.samples_le(crate::msssim::MSSSIM_SAMPLE_MAX as int),
        crate::ssim::tail_ok(tail@, 1024),
    ensures
        plane_msssim_matches(r.0@, &f1.planes[0], &f2.planes[0], tail@),
        plane_msssim_matches(r.1@, &f1.planes[1], &f2.planes[1], tail@),
        plane_msssim_matches(r.2@, &f1.planes[2], &f2.planes[2], tail@),
{
    let (y, (u, v)) = rayon::join(
        || calculate_plane_msssim(&f1.planes[0], &f2.planes[0], tail),
        || {
            rayon::join(
                || calculate_plane_msssim(&f1.planes[1], &f2.planes[1], tail),
                || calculate_plane_msssim(&f1.planes[2], &f2.planes[2], tail),
            )
        },
    );
    (y, u, v)
}

} // verus!
