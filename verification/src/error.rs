//! Centralized error type. Every fallible operation in this crate returns
//! [`FaceError`] so callers only need to match on one type regardless of
//! which backend or stage (detect / align / spoof-check / embed / recognize)
//! produced the failure.
//!
//! Failures that originate in an I/O, image, JSON or inference backend carry
//! that backend's message text; liveness scores carry the binary32 encoding
//! of the score (see [`crate::score`]).

use vstd::prelude::*;

verus! {

#[derive(Debug)]
pub enum FaceError {
    /// An I/O failure, with its message.
    Io(String),
    /// An image decode/encode failure, with its message.
    Image(String),
    /// A registry (de)serialization failure, with its message.
    Json(String),
    /// A LiteRT runtime failure, with its message.
    LiteRt(String),
    /// An ONNX Runtime failure, with its message.
    Ort(String),
    /// The model's tensors are not float32.
    UnsupportedElementType { path: String, actual: String },
    /// The model declares a different number of inputs than were fed.
    InputCountMismatch { path: String, declared: usize, given: usize },
    /// A tensor buffer has the wrong number of elements.
    ShapeMismatch { name: &'static str, expected: usize, got: usize },
    /// An embedding has the wrong dimensionality.
    InvalidEmbeddingDim { expected: usize, got: usize },
    /// No face was found in the input image.
    NoFaceDetected,
    /// More than one face was found where exactly one is required.
    AmbiguousFaceCount { count: usize },
    /// The liveness score (binary32 encoding) fell below the threshold.
    SpoofDetected { live_score: u32, threshold: u32 },
    /// The person is not registered in the given scope.
    NotRegistered { person_id: String, scope: String },
    /// No registration record has this id.
    RecordNotFound(u32),
    /// The record belongs to another scope than the requested one.
    ScopeMismatch { record_id: u32, requested: String, actual: String },
    /// The u32 record-id space is exhausted.
    StoreExhausted,
    /// The k-d tree refused a point.
    Construction(String),
    /// Invalid configuration or request.
    Config(String),
}

/// The HTTP status that the REST API answers a failure with.
pub open spec fn status_for(e: FaceError) -> u16 {
    match e {
        FaceError::NoFaceDetected => 400,
        FaceError::AmbiguousFaceCount { .. } => 400,
        FaceError::ScopeMismatch { .. } => 400,
        FaceError::SpoofDetected { .. } => 422,
        FaceError::NotRegistered { .. } => 404,
        FaceError::RecordNotFound(_) => 404,
        _ => 500,
    }
}

impl FaceError {
    /// The HTTP status that the REST API answers this failure with: bad
    /// input photos are 400, a detected spoof is 422, an unknown person or
    /// record is 404, and everything else is an internal error.
    pub fn http_status(&self) -> (r: u16)
        ensures
            r == status_for(*self),
    {
        match self {
            FaceError::NoFaceDetected => 400,
            FaceError::AmbiguousFaceCount { .. } => 400,
            FaceError::SpoofDetected { .. } => 422,
            FaceError::NotRegistered { .. } => 404,
            FaceError::RecordNotFound(_) => 404,
            FaceError::ScopeMismatch { .. } => 400,
            FaceError::Io(_) | FaceError::Image(_) | FaceError::Json(_) => 500,
            _ => 500,
        }
    }
}

/// A failure is answered 400 exactly when the photo or the request was at
/// fault (no face, several faces, a record of another scope), 422 exactly
/// for a detected spoof, 404 exactly for an unknown person or record, and
/// 500 for everything else; no other status is ever given.
pub proof fn law_status_classes(e: FaceError)
    ensures
        status_for(e) == 400 <==> (e is NoFaceDetected || e is AmbiguousFaceCount || e is ScopeMismatch),
        status_for(e) == 422 <==> e is SpoofDetected,
        status_for(e) == 404 <==> (e is NotRegistered || e is RecordNotFound),
        status_for(e) == 400 || status_for(e) == 404 || status_for(e) == 422 || status_for(e) == 500,
        (e is Io || e is Image || e is Json || e is LiteRt || e is Ort || e is UnsupportedElementType
            || e is InputCountMismatch || e is ShapeMismatch || e is InvalidEmbeddingDim || e is StoreExhausted
            || e is Construction || e is Config) ==> status_for(e) == 500,
{
}

} // verus!
