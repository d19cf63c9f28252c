use av_metrics::frame::{validate_frame_pair, Frame, Plane};

fn plane(width: usize, height: usize, sample_bytes: usize, fill: u16) -> Plane {
    Plane { width, height, stride: width, sample_bytes, data: vec![fill; width * height] }
}

fn frame(width: usize, height: usize, sample_bytes: usize, fill: u16) -> Frame {
    Frame {
        planes: vec![
            plane(width, height, sample_bytes, fill),
            plane(width, height, sample_bytes, fill),
            plane(width, height, sample_bytes, fill),
        ],
    }
}

#[test]
fn rejects_8_bit_storage_claiming_depth_10() {
    let f1 = frame(16, 16, 1, 100);
    let f2 = frame(16, 16, 1, 100);
    assert!(validate_frame_pair(&f1, &f2, 10).is_err());
}

#[test]
fn rejects_16_bit_storage_claiming_depth_8() {
    let f1 = frame(16, 16, 2, 100);
    let f2 = frame(16, 16, 2, 100);
    assert!(validate_frame_pair(&f1, &f2, 8).is_err());
}

#[test]
fn accepts_8_bit_storage_with_depth_up_to_8() {
    let f1 = frame(16, 16, 1, 100);
    let f2 = frame(16, 16, 1, 100);
    assert!(validate_frame_pair(&f1, &f2, 8).is_ok());
    assert!(validate_frame_pair(&f1, &f2, 7).is_ok());
}

#[test]
fn accepts_16_bit_storage_with_depth_above_8() {
    let f1 = frame(16, 16, 2, 1000);
    let f2 = frame(16, 16, 2, 1000);
    assert!(validate_frame_pair(&f1, &f2, 10).is_ok());
    assert!(validate_frame_pair(&f1, &f2, 16).is_ok());
}

#[test]
fn rejects_dimension_mismatch() {
    let f1 = frame(16, 16, 1, 100);
    let f2 = frame(16, 8, 1, 100);
    assert!(validate_frame_pair(&f1, &f2, 8).is_err());
}

#[test]
fn rejects_chroma_dimension_mismatch() {
    let mut f1 = frame(16, 16, 1, 100);
    let f2 = frame(16, 16, 1, 100);
    f1.planes[1] = plane(8, 8, 1, 100);
    assert!(validate_frame_pair(&f1, &f2, 8).is_err());
}

#[test]
fn accepts_subsampled_chroma_planes() {
    // 4:2:0-shaped frames: chroma planes at half size in both dimensions
    let mut f1 = frame(16, 16, 1, 100);
    let mut f2 = frame(16, 16, 1, 100);
    f1.planes[1] = plane(8, 8, 1, 50);
    f1.planes[2] = plane(8, 8, 1, 60);
    f2.planes[1] = plane(8, 8, 1, 50);
    f2.planes[2] = plane(8, 8, 1, 60);
    assert!(validate_frame_pair(&f1, &f2, 8).is_ok());
}
