use faceid::config::MemoryProfile;
use faceid::error::FaceError;
use faceid::pipeline::{
    alignment_path, exactly_one, liveness_check_runs, locating_step, orientation_fix, AlignmentPath,
    FaceLocating, OrientationFix, PipelineOptions,
};

#[test]
fn test_pipeline_options_defaults() {
    let opts = PipelineOptions::default();
    assert!(opts.detect_face);
    assert!(opts.check_liveness);
    assert!(opts.apply_mask);
}

#[test]
fn options_with_liveness_keep_other_defaults() {
    let opts = PipelineOptions::with_liveness(false);
    assert!(opts.detect_face);
    assert!(!opts.check_liveness);
    assert!(opts.apply_mask);
}

#[test]
fn locating_step_follows_options() {
    let on = PipelineOptions::default();
    let off = PipelineOptions { detect_face: false, ..on };
    assert_eq!(locating_step(on, true), FaceLocating::ExactlyOne);
    assert_eq!(locating_step(on, false), FaceLocating::Best);
    assert_eq!(locating_step(off, true), FaceLocating::WholeImage);
    assert_eq!(locating_step(off, false), FaceLocating::WholeImage);
}

#[test]
fn liveness_runs_only_when_asked_and_installed() {
    let on = PipelineOptions::default();
    let off = PipelineOptions::with_liveness(false);
    assert!(liveness_check_runs(on, true));
    assert!(!liveness_check_runs(on, false));
    assert!(!liveness_check_runs(off, true));
}

#[test]
fn alignment_path_prefers_mask_then_landmarks() {
    let on = PipelineOptions::default();
    let no_mask = PipelineOptions { apply_mask: false, ..on };
    assert_eq!(alignment_path(on, true, true), AlignmentPath::MeshMask);
    assert_eq!(alignment_path(on, true, false), AlignmentPath::MeshMask);
    assert_eq!(alignment_path(on, false, true), AlignmentPath::LandmarkWarp);
    assert_eq!(alignment_path(no_mask, true, true), AlignmentPath::LandmarkWarp);
    assert_eq!(alignment_path(no_mask, true, false), AlignmentPath::Resize);
}

#[test]
fn exactly_one_requires_a_single_face() {
    assert_eq!(exactly_one(vec![7u8]).unwrap(), 7);
    assert!(matches!(exactly_one(Vec::<u8>::new()), Err(FaceError::NoFaceDetected)));
    assert!(matches!(exactly_one(vec![1u8, 2, 3]), Err(FaceError::AmbiguousFaceCount { count: 3 })));
}

#[test]
fn orientation_tags_map_to_fixes() {
    assert_eq!(orientation_fix(1), OrientationFix::Keep);
    assert_eq!(orientation_fix(2), OrientationFix::FlipHorizontal);
    assert_eq!(orientation_fix(3), OrientationFix::Rotate180);
    assert_eq!(orientation_fix(4), OrientationFix::FlipVertical);
    assert_eq!(orientation_fix(5), OrientationFix::Rotate90ThenFlipHorizontal);
    assert_eq!(orientation_fix(6), OrientationFix::Rotate90);
    assert_eq!(orientation_fix(7), OrientationFix::Rotate270ThenFlipHorizontal);
    assert_eq!(orientation_fix(8), OrientationFix::Rotate270);
    assert_eq!(orientation_fix(0), OrientationFix::Keep);
    assert_eq!(orientation_fix(9), OrientationFix::Keep);
}

#[test]
fn memory_profile_settings() {
    assert_eq!(MemoryProfile::default(), MemoryProfile::Balanced);
    assert!(MemoryProfile::Balanced.use_arena());
    assert!(MemoryProfile::Balanced.use_memory_pattern());
    assert!(!MemoryProfile::LowMemory.use_arena());
    assert!(!MemoryProfile::LowMemory.use_memory_pattern());
    assert_eq!(MemoryProfile::Balanced.intra_threads(Some(12)), 12);
    assert_eq!(MemoryProfile::Balanced.intra_threads(None), 4);
    assert_eq!(MemoryProfile::LowMemory.intra_threads(Some(12)), 1);
}

#[test]
fn http_status_by_error_kind() {
    assert_eq!(FaceError::NoFaceDetected.http_status(), 400);
    assert_eq!(FaceError::AmbiguousFaceCount { count: 2 }.http_status(), 400);
    assert_eq!(FaceError::SpoofDetected { live_score: 0, threshold: 0 }.http_status(), 422);
    assert_eq!(FaceError::RecordNotFound(3).http_status(), 404);
    assert_eq!(
        FaceError::NotRegistered { person_id: "a".to_string(), scope: "global".to_string() }.http_status(),
        404
    );
    assert_eq!(
        FaceError::ScopeMismatch { record_id: 1, requested: "a".to_string(), actual: "b".to_string() }
            .http_status(),
        400
    );
    assert_eq!(FaceError::StoreExhausted.http_status(), 500);
    assert_eq!(FaceError::Io("disk".to_string()).http_status(), 500);
}
