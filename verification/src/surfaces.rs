//! Video surfaces: which ones the surface shader can sample, and how it reads their colors.

use vstd::prelude::*;

verus! {

/// `kCVPixelFormatType_420YpCbCr8BiPlanarVideoRange`, the four characters `420v`.
pub const BI_PLANAR_VIDEO_RANGE: u32 = 0x3432_3076;

/// `kCVPixelFormatType_420YpCbCr8BiPlanarFullRange`, the four characters `420f`.
pub const BI_PLANAR_FULL_RANGE: u32 = 0x3432_3066;

/// The Y′CbCr → R′G′B′ matrices a surface may be tagged with.
#[derive(Debug, Clone, Copy, PartialEq, Eq, Structural)]
pub enum YCbCrMatrix {
    Bt601,
    Bt709,
    Bt2020,
}

/// The matrix a tag stands for.
pub open spec fn tagged_matrix(tagged: bool, is_601: bool, is_2020: bool) -> YCbCrMatrix {
    if tagged && is_601 {
        YCbCrMatrix::Bt601
    } else if tagged && is_2020 {
        YCbCrMatrix::Bt2020
    } else {
        YCbCrMatrix::Bt709
    }
}

/// The matrix a surface's buffer is tagged with: `is_601` and `is_2020` tell which constant the
/// tag equals. Untagged is BT.709, the HD default, and so is any other tag.
pub fn surface_matrix(tagged: bool, is_601: bool, is_2020: bool) -> (matrix: YCbCrMatrix)
    ensures
        matrix is Bt601 <==> tagged && is_601,
        matrix is Bt2020 <==> tagged && !is_601 && is_2020,
        matrix == tagged_matrix(tagged, is_601, is_2020),
{
    if !tagged {
        YCbCrMatrix::Bt709
    } else if is_601 {
        YCbCrMatrix::Bt601
    } else if is_2020 {
        YCbCrMatrix::Bt2020
    } else {
        YCbCrMatrix::Bt709
    }
}

/// Why a surface is left out of a frame.
#[derive(Debug, Clone, Copy, PartialEq, Eq, Structural)]
pub enum SurfaceSkip {
    /// The pixel format is not 4:2:0 bi-planar.
    ForeignFormat(u32),
    /// CoreVideo made no texture of a plane; its status.
    TextureFailed(i32),
}

/// Whether the luma of a pixel format spans the whole code range, `None` for a format the shader
/// cannot sample.
pub open spec fn luma_range(format: u32) -> Option<bool> {
    if format == BI_PLANAR_FULL_RANGE {
        Some(true)
    } else if format == BI_PLANAR_VIDEO_RANGE {
        Some(false)
    } else {
        None
    }
}

/// Whether a pixel format is full range, `None` for a format the shader cannot sample. Planes
/// are worth making only of the others.
pub fn full_range(format: u32) -> (full: Option<bool>)
    ensures
        full == luma_range(format),
{
    if format == BI_PLANAR_FULL_RANGE {
        Some(true)
    } else if format == BI_PLANAR_VIDEO_RANGE {
        Some(false)
    } else {
        None
    }
}

/// The texture of one plane: made, or the status CoreVideo refused it with.
#[derive(Debug, Clone, Copy, PartialEq, Eq, Structural)]
pub enum Plane {
    Made,
    Failed(i32),
}

/// Whether a surface can be drawn, and at which range, or why not. The planes of a foreign
/// format say nothing; a failed luma plane is named before a failed chroma plane.
pub open spec fn surface_range(format: u32, luma: Plane, chroma: Plane) -> Result<
    bool,
    SurfaceSkip,
> {
    match luma_range(format) {
        None => Err(SurfaceSkip::ForeignFormat(format)),
        Some(full) => match (luma, chroma) {
            (Plane::Failed(status), _) => Err(SurfaceSkip::TextureFailed(status)),
            (Plane::Made, Plane::Failed(status)) => Err(SurfaceSkip::TextureFailed(status)),
            (Plane::Made, Plane::Made) => Ok(full),
        },
    }
}

/// Whether a surface can be drawn, and at which range, or why not.
pub fn sample_surface(format: u32, luma: Plane, chroma: Plane) -> (range: Result<
    bool,
    SurfaceSkip,
>)
    ensures
        range == surface_range(format, luma, chroma),
{
    match full_range(format) {
        None => Err(SurfaceSkip::ForeignFormat(format)),
        Some(full) => match (luma, chroma) {
            (Plane::Failed(status), _) => Err(SurfaceSkip::TextureFailed(status)),
            (Plane::Made, Plane::Failed(status)) => Err(SurfaceSkip::TextureFailed(status)),
            (Plane::Made, Plane::Made) => Ok(full),
        },
    }
}

} // verus!
