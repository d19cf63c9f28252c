//! Perceptual video-quality metrics (PSNR-HVS, SSIM, MS-SSIM).
//!
//! The integer heart of each metric is verified here: the fixed-point 8x8
//! forward DCT and block statistics behind PSNR-HVS, the separable-kernel
//! moment convolution behind SSIM, and the sum-based pyramid downsampling
//! behind MS-SSIM. The floating-point rescaling of those integer artifacts
//! into final scores is left to unverified callers.

use vstd::prelude::*;

pub mod dct;
pub mod frame;
pub mod msssim;
pub mod parallel;
pub mod psnr_hvs;
pub mod ssim;
pub mod sums;

verus! {

/// Error returned when two frames cannot be compared with each other.
#[derive(Debug, Clone, Copy)]
pub enum MetricsError {
    /// The two inputs do not fit together: their dimensions differ, or the
    /// declared bit depth does not agree with the width of the stored samples.
    InputMismatch { reason: &'static str },
}

} // verus!
