use faceid::error::FaceError;
use faceid::liveness::{liveness_verdict, most_probable, require_live};
use faceid::models::{
    anchor_layout_for, blazeface_outputs, blazeface_variant, check_embedding_output, check_stride_outputs,
    embedder_input_size, expect_count, expect_inputs, first_non_float, floor_sqrt, input_layout, landmark_output, ort_input_size,
    positive_elements, sanitize_dims, validate_signature, AnchorLayout, BlazeFaceVariant, SignatureNames,
    TensorLayout,
};
use faceid::score::{score_at_least, score_greater_than, score_is_nan, score_less_than};
use faceid::types::{Embedding, EMBED_DIM};

fn b(x: f32) -> u32 {
    x.to_bits()
}

#[test]
fn score_comparisons_match_float_comparisons() {
    let values = [
        -f32::INFINITY, -2.5, -1.0, -0.0, 0.0, 1e-30, 0.45, 0.5, 1.0, 3.0, f32::INFINITY, f32::NAN,
    ];
    for &x in &values {
        for &y in &values {
            assert_eq!(score_less_than(b(x), b(y)), x < y, "{x} < {y}");
            assert_eq!(score_greater_than(b(x), b(y)), x > y, "{x} > {y}");
            assert_eq!(score_at_least(b(x), b(y)), x >= y, "{x} >= {y}");
        }
    }
    assert!(score_is_nan(b(f32::NAN)));
    assert!(!score_is_nan(b(f32::INFINITY)));
}

#[test]
fn embedding_dimension_is_checked() {
    let ok = Embedding::from_bits(&vec![7u32; EMBED_DIM]).unwrap();
    assert!(ok.as_array().iter().all(|&v| v == 7));
    match Embedding::from_bits(&[1u32, 2, 3]) {
        Err(FaceError::InvalidEmbeddingDim { expected, got }) => {
            assert_eq!(expected, EMBED_DIM);
            assert_eq!(got, 3);
        }
        _ => panic!("expected a dimension error"),
    }
}

fn names() -> SignatureNames {
    SignatureNames { inputs: "in", input_elements: "elems", outputs: "out" }
}

#[test]
fn signature_checks_in_order() {
    assert!(validate_signature(names(), 640, 12, 1, 3 * 640 * 640, 12).is_ok());
    assert!(matches!(
        validate_signature(names(), 640, 12, 2, 3 * 640 * 640, 12),
        Err(FaceError::ShapeMismatch { name: "in", expected: 1, got: 2 })
    ));
    assert!(matches!(
        validate_signature(names(), 80, 1, 1, 100, 1),
        Err(FaceError::ShapeMismatch { name: "elems", expected: 19200, got: 100 })
    ));
    assert!(matches!(
        validate_signature(names(), 640, 12, 1, 3 * 640 * 640, 11),
        Err(FaceError::ShapeMismatch { name: "out", expected: 12, got: 11 })
    ));
    assert!(expect_count("x", 3, 3).is_ok());
    assert!(matches!(expect_count("x", 3, 2), Err(FaceError::ShapeMismatch { name: "x", expected: 3, got: 2 })));
}

#[test]
fn stride_outputs_checked() {
    // 640 / 8 = 80 cells per side
    let n = 80 * 80;
    assert_eq!(check_stride_outputs(640, 8, n, n, 4 * n, 10 * n).unwrap(), n);
    assert!(matches!(
        check_stride_outputs(640, 8, n, n, 4 * n, 9 * n),
        Err(FaceError::ShapeMismatch { name: "yunet_stride_output", expected, got }) if expected == n && got == n
    ));
}

#[test]
fn dims_helpers() {
    assert_eq!(sanitize_dims(&vec![-1, 3, 0, 112]), vec![1, 3, 1, 112]);
    assert_eq!(input_layout(&vec![1, 112, 112, 3]), TensorLayout::Nhwc);
    assert_eq!(input_layout(&vec![1, 3, 112, 112]), TensorLayout::Nchw);
    assert_eq!(positive_elements(&vec![-1, 3, 112, 112]), 3 * 112 * 112);
    assert_eq!(floor_sqrt(0), 0);
    assert_eq!(floor_sqrt(15), 3);
    assert_eq!(floor_sqrt(16), 4);
    assert_eq!(floor_sqrt(u64::MAX), 4294967295);
}

#[test]
fn embedder_input_size_is_derived_or_checked() {
    assert_eq!(embedder_input_size(None, &vec![1, 3, 112, 112]).unwrap(), 112);
    assert_eq!(embedder_input_size(None, &vec![-1, 160, 160, 3]).unwrap(), 160);
    assert_eq!(embedder_input_size(Some(112), &vec![1, 3, 112, 112]).unwrap(), 112);
    assert!(matches!(
        embedder_input_size(Some(96), &vec![1, 3, 112, 112]),
        Err(FaceError::ShapeMismatch { name: "litert_embedder_input_elements", expected: 27648, got: 37632 })
    ));
    assert!(matches!(
        embedder_input_size(None, &vec![1, 2, 112, 112]),
        Err(FaceError::ShapeMismatch { name: "litert_embedder_input_elements", expected: 3, got: 25088 })
    ));
    assert!(matches!(
        embedder_input_size(None, &vec![1, 3, 10, 12]),
        Err(FaceError::ShapeMismatch { name: "litert_embedder_input_elements_square", expected: 300, got: 360 })
    ));
    assert!(check_embedding_output(1, &vec![1, EMBED_DIM as i32]).is_ok());
    assert!(matches!(
        check_embedding_output(1, &vec![1, 512]),
        Err(FaceError::InvalidEmbeddingDim { expected: EMBED_DIM, got: 512 })
    ));
    assert!(matches!(
        check_embedding_output(2, &vec![1, 512]),
        Err(FaceError::ShapeMismatch { name: "embedder_signature_outputs", expected: 1, got: 2 })
    ));
}

#[test]
fn ort_input_size_inference() {
    assert_eq!(ort_input_size(Some(96), Some(&vec![1, 3, 112, 112])), 96);
    assert_eq!(ort_input_size(None, Some(&vec![1, 3, 112, 112])), 112);
    assert_eq!(ort_input_size(None, Some(&vec![1, 160, 160, 3])), 160);
    assert_eq!(ort_input_size(None, Some(&vec![1, 3, -1, -1])), 112);
    assert_eq!(ort_input_size(None, Some(&vec![1, 3, 128])), 112);
    assert_eq!(ort_input_size(None, None), 112);
}

#[test]
fn blazeface_output_selection() {
    assert_eq!(blazeface_outputs(&vec![896 * 16, 896]).unwrap(), (0, 1));
    // the first non-empty multiple of 16 is taken as the regressors
    assert!(matches!(
        blazeface_outputs(&vec![896, 896 * 16]),
        Err(FaceError::ShapeMismatch { name: "blazeface_classificators", expected: 56, got: 896 })
    ));
    assert_eq!(blazeface_outputs(&vec![2304 * 16, 2304]).unwrap(), (0, 1));
    assert!(matches!(
        blazeface_outputs(&vec![5, 7]),
        Err(FaceError::ShapeMismatch { name: "blazeface_regressors", expected: 16, got: 7 })
    ));
    assert!(matches!(
        blazeface_outputs(&vec![32, 5]),
        Err(FaceError::ShapeMismatch { name: "blazeface_classificators", expected: 2, got: 5 })
    ));
    assert_eq!(blazeface_variant(Some(2304 * 16)), BlazeFaceVariant::FullRange);
    assert_eq!(blazeface_variant(Some(2304)), BlazeFaceVariant::FullRange);
    assert_eq!(blazeface_variant(Some(896 * 16)), BlazeFaceVariant::ShortRange);
    assert_eq!(blazeface_variant(None), BlazeFaceVariant::ShortRange);
    assert_eq!(BlazeFaceVariant::FullRange.input_side(), 192);
    assert_eq!(BlazeFaceVariant::ShortRange.input_side(), 128);
    assert_eq!(anchor_layout_for(896), AnchorLayout::ShortRange);
    assert_eq!(anchor_layout_for(2304), AnchorLayout::FullRange);
    assert_eq!(anchor_layout_for(100), AnchorLayout::Grid);
}

#[test]
fn landmark_output_selection() {
    assert_eq!(landmark_output(&vec![1, 1404, 1404]).unwrap(), 1);
    assert!(matches!(
        landmark_output(&vec![1, 266]),
        Err(FaceError::ShapeMismatch { name: "mediapipe_landmarks_output", expected: 1404, got: 266 })
    ));
    assert!(matches!(
        landmark_output(&vec![]),
        Err(FaceError::ShapeMismatch { name: "mediapipe_landmarks_output", expected: 1404, got: 0 })
    ));
}

#[test]
fn liveness_needs_the_live_class_and_the_threshold() {
    let probs = |v: [f32; 3]| -> Vec<u32> { v.iter().map(|x| x.to_bits()).collect() };
    let threshold = 0.6f32.to_bits();
    assert_eq!(liveness_verdict(&probs([0.1, 0.8, 0.1]), threshold).unwrap(), (0.8f32.to_bits(), true));
    // The most probable class, but below the threshold.
    assert_eq!(liveness_verdict(&probs([0.3, 0.4, 0.3]), threshold).unwrap(), (0.4f32.to_bits(), false));
    // At the threshold, but a later class ties it: the later class counts as
    // the most probable.
    assert_eq!(liveness_verdict(&probs([0.0, 0.5, 0.5]), 0.5f32.to_bits()).unwrap(), (0.5f32.to_bits(), false));
    // A tie with an earlier class goes to the live class.
    assert_eq!(liveness_verdict(&probs([0.5, 0.5, 0.0]), 0.5f32.to_bits()).unwrap(), (0.5f32.to_bits(), true));
}

#[test]
fn liveness_rejects_output_of_the_wrong_length() {
    let probs: Vec<u32> = vec![0.5f32.to_bits(), 0.5f32.to_bits()];
    assert!(matches!(
        liveness_verdict(&probs, 0.6f32.to_bits()),
        Err(FaceError::ShapeMismatch { name: "minifasnet_softmax", expected: 3, got: 2 })
    ));
}

#[test]
fn spoof_is_reported_with_score_and_threshold() {
    assert!(require_live(0.9f32.to_bits(), true, 0.6f32.to_bits()).is_ok());
    match require_live(0.2f32.to_bits(), false, 0.6f32.to_bits()) {
        Err(FaceError::SpoofDetected { live_score, threshold }) => {
            assert_eq!(f32::from_bits(live_score), 0.2);
            assert_eq!(f32::from_bits(threshold), 0.6);
        }
        other => panic!("unexpected {other:?}"),
    }
}

#[test]
fn most_probable_picks_the_last_of_equal_maxima() {
    let v: Vec<u32> = [0.2f32, 0.7, 0.7, 0.1].iter().map(|x| x.to_bits()).collect();
    assert_eq!(most_probable(&v), 2);
    assert_eq!(most_probable(&Vec::new()), 0);
}

#[test]
fn model_input_count_and_element_types() {
    assert!(expect_inputs("m.tflite".to_string(), 1, 1).is_ok());
    assert!(matches!(
        expect_inputs("m.tflite".to_string(), 1, 2),
        Err(FaceError::InputCountMismatch { declared: 1, given: 2, .. })
    ));
    assert_eq!(first_non_float(&vec![true, true, false, false]), Some(2));
    assert_eq!(first_non_float(&vec![true, true]), None);
}
