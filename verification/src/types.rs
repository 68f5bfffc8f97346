//! Core value types shared by every stage of the pipeline.

use vstd::prelude::*;

use crate::error::FaceError;

verus! {

/// Dimensionality of the face embedding vector.
///
/// **Change this to match your embedding model's output size and recompile.**
/// Common values: 128 (FaceNet), 256/512 (ArcFace, MobileFaceNet, FaceLiVT).
pub const EMBED_DIM: usize = 192;

/// A face embedding: `EMBED_DIM` components stored inline, each as its
/// binary32 encoding. The registry never computes with the components; it
/// stores them so that the search index can be rebuilt and so that a
/// removed registration's point can be taken out of that index.
#[derive(Debug, Clone, Copy)]
pub struct Embedding(pub [u32; EMBED_DIM]);

impl Embedding {
    /// The components' encodings, in order.
    pub open spec fn components(&self) -> Seq<u32> {
        self.0@
    }

    /// Builds an embedding from a model's raw output (as encodings),
    /// rejecting output of the wrong dimensionality.
    pub fn from_bits(values: &[u32]) -> (r: Result<Embedding, FaceError>)
        ensures
            values@.len() == EMBED_DIM ==> (r matches Ok(e) && e.components() == values@),
            values@.len() != EMBED_DIM ==> r == Err::<Embedding, FaceError>(
                FaceError::InvalidEmbeddingDim { expected: EMBED_DIM, got: values@.len() as usize },
            ),
    {
        if values.len() != EMBED_DIM {
            return Err(FaceError::InvalidEmbeddingDim { expected: EMBED_DIM, got: values.len() });
        }
        let mut arr: [u32; EMBED_DIM] = [0u32; EMBED_DIM];
        let mut i: usize = 0;
        while i < EMBED_DIM
            invariant
                values@.len() == EMBED_DIM,
                i <= EMBED_DIM,
                forall|j: int| 0 <= j < i ==> arr@[j] == values@[j],
            decreases EMBED_DIM - i,
        {
            arr[i] = values[i];
            i = i + 1;
        }
        assert(arr@ =~= values@);
        Ok(Embedding(arr))
    }

    /// The components' encodings.
    pub fn as_array(&self) -> (r: &[u32; EMBED_DIM])
        ensures
            r@ == self.components(),
    {
        &self.0
    }
}

/// The channel order a model expects its image input in.
#[derive(Debug, Clone, Copy, PartialEq, Eq, Structural)]
pub enum ChannelOrder {
    Rgb,
    Bgr,
}

impl ChannelOrder {
    /// The positions, in an RGB pixel, of the values that go into the
    /// model's channels 0, 1 and 2.
    pub fn source_channels(&self) -> (r: [usize; 3])
        ensures
            r@ == match self {
                ChannelOrder::Rgb => seq![0usize, 1, 2],
                ChannelOrder::Bgr => seq![2usize, 1, 0],
            },
    {
        let r = match self {
            ChannelOrder::Rgb => [0usize, 1, 2],
            ChannelOrder::Bgr => [2usize, 1, 0],
        };
        proof {
            assert(r@ =~= match self {
                ChannelOrder::Rgb => seq![0usize, 1, 2],
                ChannelOrder::Bgr => seq![2usize, 1, 0],
            });
        }
        r
    }
}

/// A face crop that has been similarity-warped into the canonical pose the
/// embedding model expects (square, landmarks aligned to a fixed template).
#[derive(Debug, Clone)]
pub struct AlignedFace {
    /// Interleaved RGB8, row-major, length == width * height * 3.
    pub rgb: Vec<u8>,
    pub width: u32,
    pub height: u32,
}

} // verus!
