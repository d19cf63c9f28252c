//! Planes, frames, and the frame-pair validator.

use crate::MetricsError;
use vstd::prelude::*;

verus! {

/// One colour channel: a rectangular grid of unsigned integer samples stored
/// row by row. Rows may be padded, so a row starts every `stride` samples and
/// only the first `width` of them are visible.
#[derive(Clone)]
pub struct Plane {
    /// Visible samples per row.
    pub width: usize,
    /// Number of rows.
    pub height: usize,
    /// Distance between the starts of two rows; at least `width`.
    pub stride: usize,
    /// Width in bytes of the cell each sample was decoded into: 1 or 2.
    pub sample_bytes: usize,
    /// Row-major sample grid, `stride * height` entries.
    pub data: Vec<u16>,
}

impl Plane {
    /// Well-formedness: geometry is consistent and every sample fits the
    /// declared storage width.
    pub open spec fn is_valid(&self) -> bool {
        &&& self.width <= self.stride
        &&& self.data.len() == self.stride * self.height
        &&& (self.sample_bytes == 1 || self.sample_bytes == 2)
        &&& (self.sample_bytes == 1 ==> forall|i: int|
            0 <= i < self.data.len() ==> self.data[i] < 256)
    }

    /// Two planes cover the same rectangle of samples.
    pub open spec fn same_dims(&self, other: &Plane) -> bool {
        self.width == other.width && self.height == other.height
    }

    /// Every sample of the plane is at most `max`.
    pub open spec fn samples_le(&self, max: int) -> bool {
        forall|i: int| 0 <= i < self.data.len() ==> self.data[i] <= max
    }
}

/// One decoded video frame: a luma plane and two chroma planes. Monochrome
/// content still carries (all-zero or placeholder) chroma planes.
#[derive(Clone)]
pub struct Frame {
    /// Exactly three planes: index 0 is luma, 1 and 2 are the chroma planes.
    pub planes: Vec<Plane>,
}

impl Frame {
    /// Well-formedness: three valid planes sharing one storage width.
    pub open spec fn is_valid(&self) -> bool {
        &&& self.planes.len() == 3
        &&& forall|i: int| 0 <= i < 3 ==> self.planes[i].is_valid()
        &&& self.planes[1].sample_bytes == self.planes[0].sample_bytes
        &&& self.planes[2].sample_bytes == self.planes[0].sample_bytes
    }

    /// Every sample of every plane is at most `max`.
    pub open spec fn samples_le(&self, max: int) -> bool {
        forall|i: int| 0 <= i < 3 ==> self.planes[i].samples_le(max)
    }
}

/// The declared bit depth agrees with the width of the stored sample cells:
/// samples stored in one byte carry a depth of at most 8, samples stored in
/// two bytes carry a depth above 8.
pub open spec fn depth_matches_storage(f: &Frame, bit_depth: usize) -> bool {
    &&& !(f.planes[0].sample_bytes == 1 && bit_depth > 8)
    &&& !(f.planes[0].sample_bytes == 2 && bit_depth <= 8)
}

/// Plane-by-plane equality of dimensions between two frames.
pub open spec fn frames_comparable(f1: &Frame, f2: &Frame) -> bool {
    forall|i: int| 0 <= i < 3 ==> f1.planes[i].same_dims(&f2.planes[i])
}

/// Everything the validator demands of a frame pair before a metric may run.
pub open spec fn valid_frame_pair(f1: &Frame, f2: &Frame, bit_depth: usize) -> bool {
    &&& depth_matches_storage(f1, bit_depth)
    &&& depth_matches_storage(f2, bit_depth)
    &&& frames_comparable(f1, f2)
}

/// Checks that two frames are comparable: every plane has the same dimensions
/// in both, and the declared bit depth is consistent with the sample storage
/// width of both. Succeeds exactly on the pairs every metric accepts.
pub fn validate_frame_pair(f1: &Frame, f2: &Frame, bit_depth: usize) -> (r: Result<
    (),
    MetricsError,
>)
    requires
        f1.is_valid(),
        f2.is_valid(),
    ensures
        r is Ok <==> valid_frame_pair(f1, f2, bit_depth),
{
    if (f1.planes[0].sample_bytes == 1 && bit_depth > 8) || (f1.planes[0].sample_bytes == 2
        && bit_depth <= 8) {
        return Err(MetricsError::InputMismatch { reason: "Bit depths does not match pixel width" });
    }
    if (f2.planes[0].sample_bytes == 1 && bit_depth > 8) || (f2.planes[0].sample_bytes == 2
        && bit_depth <= 8) {
        return Err(MetricsError::InputMismatch { reason: "Bit depths does not match pixel width" });
    }
    let mut i: usize = 0;
    while i < 3
        invariant
            0 <= i <= 3,
            f1.is_valid(),
            f2.is_valid(),
            forall|k: int| 0 <= k < i ==> f1.planes[k].same_dims(&f2.planes[k]),
        decreases 3 - i,
    {
        if f1.planes[i].width != f2.planes[i].width || f1.planes[i].height
            != f2.planes[i].height {
            return Err(MetricsError::InputMismatch { reason: "Frame dimensions do not match" });
        }
        i += 1;
    }
    Ok(())
}

/// Copies a plane's sample buffer, padding included, into 32-bit values; the
/// SSIM and MS-SSIM engines work on this flattened form.
pub fn plane_to_vec(input: &Plane) -> (r: Vec<u32>)
    ensures
        r@.len() == input.data.len(),
        forall|i: int| 0 <= i < r@.len() ==> r@[i] == input.data[i] as u32,
{
    let mut out: Vec<u32> = Vec::new();
    let n = input.data.len();
    let mut i: usize = 0;
    while i < n
        invariant
            0 <= i <= n,
            n == input.data.len(),
            out@.len() == i,
            forall|k: int| 0 <= k < i ==> out@[k] == input.data[k] as u32,
        decreases n - i,
    {
        out.push(input.data[i] as u32);
        i += 1;
    }
    out
}

} // verus!
