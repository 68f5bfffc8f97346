//! The decisions of the detect -> (optional) liveness check -> align ->
//! embed -> register/recognize flow: which detection step an operation
//! needs, whether liveness is checked, which alignment path a face takes,
//! and how a photo's EXIF orientation is undone.

use vstd::prelude::*;

use crate::error::FaceError;

verus! {

/// Execution options for pipeline operations (enroll, identify, verify).
#[derive(Debug, Clone, Copy, PartialEq, Eq, Structural)]
pub struct PipelineOptions {
    /// Whether to perform face detection (default: true).
    /// If false, face detection is skipped and the input image is assumed to be a pre-cropped face.
    pub detect_face: bool,
    /// Whether to perform anti-spoof / liveness check (default: true).
    pub check_liveness: bool,
    /// Whether to apply the MediaPipe face oval contour background masking (default: true).
    pub apply_mask: bool,
}

impl Default for PipelineOptions {
    fn default() -> (r: PipelineOptions)
        ensures
            r == (PipelineOptions { detect_face: true, check_liveness: true, apply_mask: true }),
    {
        PipelineOptions { detect_face: true, check_liveness: true, apply_mask: true }
    }
}

impl PipelineOptions {
    /// The default options with liveness checking set as given (what the
    /// `*_opts` entry points use).
    pub fn with_liveness(check_liveness: bool) -> (r: PipelineOptions)
        ensures
            r == (PipelineOptions { detect_face: true, check_liveness, apply_mask: true }),
    {
        PipelineOptions { check_liveness, ..PipelineOptions::default() }
    }
}

/// How the face in a photo is located.
#[derive(Debug, Clone, Copy, PartialEq, Eq, Structural)]
pub enum FaceLocating {
    /// Detect, and require exactly one face (enrollment, verification).
    ExactlyOne,
    /// Detect, and take the highest-scoring face if any (identification).
    Best,
    /// No detection: the whole image is the face.
    WholeImage,
}

/// How a located face is brought into the embedder's canonical pose.
#[derive(Debug, Clone, Copy, PartialEq, Eq, Structural)]
pub enum AlignmentPath {
    /// Two-pass MediaPipe mesh crop with the face-oval mask, then resize.
    MeshMask,
    /// Five-point similarity warp onto the reference template.
    LandmarkWarp,
    /// Plain resize of the whole image.
    Resize,
}

/// The locating step for an operation: detection unless disabled, strict
/// (exactly one face) for single-face operations.
pub fn locating_step(opts: PipelineOptions, single_face: bool) -> (r: FaceLocating)
    ensures
        !opts.detect_face ==> r == FaceLocating::WholeImage,
        opts.detect_face && single_face ==> r == FaceLocating::ExactlyOne,
        opts.detect_face && !single_face ==> r == FaceLocating::Best,
{
    if opts.detect_face {
        if single_face {
            FaceLocating::ExactlyOne
        } else {
            FaceLocating::Best
        }
    } else {
        FaceLocating::WholeImage
    }
}

/// Liveness is checked only when the options ask for it and a liveness
/// detector is installed.
pub fn liveness_check_runs(opts: PipelineOptions, antispoof_enabled: bool) -> (r: bool)
    ensures
        r == (opts.check_liveness && antispoof_enabled),
{
    opts.check_liveness && antispoof_enabled
}

/// The alignment path: the mesh mask when asked for and a landmarker is
/// installed; otherwise the landmark warp when detection gave landmarks;
/// otherwise a plain resize.
pub fn alignment_path(opts: PipelineOptions, has_landmarker: bool, has_landmarks: bool) -> (r: AlignmentPath)
    ensures
        opts.apply_mask && has_landmarker ==> r == AlignmentPath::MeshMask,
        !(opts.apply_mask && has_landmarker) && has_landmarks ==> r == AlignmentPath::LandmarkWarp,
        !(opts.apply_mask && has_landmarker) && !has_landmarks ==> r == AlignmentPath::Resize,
{
    if opts.apply_mask && has_landmarker {
        AlignmentPath::MeshMask
    } else if has_landmarks {
        AlignmentPath::LandmarkWarp
    } else {
        AlignmentPath::Resize
    }
}

/// The outcome of requiring exactly one face among the detections.
pub open spec fn exactly_one_outcome<T>(faces: Seq<T>) -> Result<T, FaceError> {
    if faces.len() == 1 {
        Ok(faces[0])
    } else if faces.len() == 0 {
        Err(FaceError::NoFaceDetected)
    } else {
        Err(FaceError::AmbiguousFaceCount { count: faces.len() as usize })
    }
}

/// Succeeds only if exactly one face was detected, so an enrollment can't
/// silently register the wrong person out of a group photo.
pub fn exactly_one<T>(faces: Vec<T>) -> (r: Result<T, FaceError>)
    ensures
        r == exactly_one_outcome(faces@),
{
    let n = faces.len();
    if n == 1 {
        let mut faces = faces;
        let f = faces.pop().unwrap();
        Ok(f)
    } else if n == 0 {
        Err(FaceError::NoFaceDetected)
    } else {
        Err(FaceError::AmbiguousFaceCount { count: n })
    }
}

/// The transform that undoes an EXIF orientation tag.
#[derive(Debug, Clone, Copy, PartialEq, Eq, Structural)]
pub enum OrientationFix {
    Keep,
    FlipHorizontal,
    Rotate180,
    FlipVertical,
    Rotate90ThenFlipHorizontal,
    Rotate90,
    Rotate270ThenFlipHorizontal,
    Rotate270,
}

impl OrientationFix {
    /// Whether the fix turns the image on its side (width and height swap).
    pub open spec fn swaps_dimensions(self) -> bool {
        match self {
            OrientationFix::Rotate90ThenFlipHorizontal | OrientationFix::Rotate90
            | OrientationFix::Rotate270ThenFlipHorizontal | OrientationFix::Rotate270 => true,
            _ => false,
        }
    }
}

/// The fix for an EXIF orientation tag: 2 to 8 name the seven flips and
/// rotations, anything else leaves the image as it is.
pub open spec fn fix_for_tag(orientation: u32) -> OrientationFix {
    match orientation {
        2 => OrientationFix::FlipHorizontal,
        3 => OrientationFix::Rotate180,
        4 => OrientationFix::FlipVertical,
        5 => OrientationFix::Rotate90ThenFlipHorizontal,
        6 => OrientationFix::Rotate90,
        7 => OrientationFix::Rotate270ThenFlipHorizontal,
        8 => OrientationFix::Rotate270,
        _ => OrientationFix::Keep,
    }
}

/// The fix for EXIF orientation tag `orientation` (1 and unknown values
/// mean the image is already upright).
pub fn orientation_fix(orientation: u32) -> (r: OrientationFix)
    ensures
        r == fix_for_tag(orientation),
        r.swaps_dimensions() <==> 5 <= orientation <= 8,
{
    match orientation {
        2 => OrientationFix::FlipHorizontal,
        3 => OrientationFix::Rotate180,
        4 => OrientationFix::FlipVertical,
        5 => OrientationFix::Rotate90ThenFlipHorizontal,
        6 => OrientationFix::Rotate90,
        7 => OrientationFix::Rotate270ThenFlipHorizontal,
        8 => OrientationFix::Rotate270,
        _ => OrientationFix::Keep,
    }
}


/// Enrollment's one-face rule: it succeeds exactly when one face was
/// detected, with that face; no face is `NoFaceDetected`, and two or more
/// are `AmbiguousFaceCount` with their number, so a group photo never
/// enrolls anyone.
pub proof fn law_exactly_one_face<T>(faces: Seq<T>)
    ensures
        exactly_one_outcome(faces) is Ok <==> faces.len() == 1,
        faces.len() == 1 ==> exactly_one_outcome(faces) == Ok::<T, FaceError>(faces[0]),
        faces.len() == 0 ==> exactly_one_outcome(faces) == Err::<T, FaceError>(FaceError::NoFaceDetected),
        faces.len() >= 2 ==> exactly_one_outcome(faces) == Err::<T, FaceError>(
            FaceError::AmbiguousFaceCount { count: faces.len() as usize },
        ),
{
}

/// The eight EXIF orientations get eight different fixes: tag 1 and any
/// value outside 1 to 8 leave the image as it is, every tag from 2 to 8
/// changes it, no two tags from 1 to 8 share a fix, and exactly the tags 5
/// to 8 turn the image on its side.
pub proof fn law_orientation_tags_are_distinct(t1: u32, t2: u32)
    ensures
        (t1 < 2 || t1 > 8) <==> fix_for_tag(t1) == OrientationFix::Keep,
        1 <= t1 <= 8 && 1 <= t2 <= 8 && t1 != t2 ==> fix_for_tag(t1) != fix_for_tag(t2),
        fix_for_tag(t1).swaps_dimensions() <==> 5 <= t1 <= 8,
{
}

} // verus!
