//! The checks that the model wrappers make on a model's declared signature
//! and on the outputs it produces: how many tensors, how many elements,
//! which output is which, and what input resolution an embedder expects.
//!
//! The wrappers load and run the models; every decision about whether what
//! came back is usable lives here, on tensor counts and dimensions.

use vstd::prelude::*;

use crate::error::FaceError;
use crate::types::EMBED_DIM;

verus! {

/// The outcome of expecting `expected` of something named `name`.
pub open spec fn count_outcome(name: &'static str, expected: usize, got: usize) -> Result<(), FaceError> {
    if got == expected {
        Ok(())
    } else {
        Err(FaceError::ShapeMismatch { name, expected, got })
    }
}

/// Requires `got` to equal `expected`, reporting a `ShapeMismatch` named
/// `name` otherwise.
pub fn expect_count(name: &'static str, expected: usize, got: usize) -> (r: Result<(), FaceError>)
    ensures
        r == count_outcome(name, expected, got),
{
    if got == expected {
        Ok(())
    } else {
        Err(FaceError::ShapeMismatch { name, expected, got })
    }
}

/// Requires a model to be fed as many inputs as it declares, reporting an
/// `InputCountMismatch` for the model at `path` otherwise.
pub fn expect_inputs(path: String, declared: usize, given: usize) -> (r: Result<(), FaceError>)
    ensures
        declared == given ==> r is Ok,
        declared != given ==> r == Err::<(), FaceError>(FaceError::InputCountMismatch { path, declared, given }),
{
    if declared == given {
        Ok(())
    } else {
        Err(FaceError::InputCountMismatch { path, declared, given })
    }
}

/// Only float32 tensors are driven: the position of the first tensor (inputs
/// then outputs) whose element type is not float32, if any.
pub fn first_non_float(is_float32: &Vec<bool>) -> (r: Option<usize>)
    ensures
        r matches Some(i) ==> i < is_float32@.len() && !is_float32@[i as int] && forall|j: int|
            0 <= j < i ==> #[trigger] is_float32@[j],
        r is None ==> forall|j: int| 0 <= j < is_float32@.len() ==> #[trigger] is_float32@[j],
{
    let mut i: usize = 0;
    while i < is_float32.len()
        invariant
            i <= is_float32@.len(),
            forall|j: int| 0 <= j < i ==> #[trigger] is_float32@[j],
        decreases is_float32@.len() - i,
    {
        if !is_float32[i] {
            return Some(i);
        }
        i = i + 1;
    }
    None
}

/// The number of elements of a `[1, 3, size, size]` input.
pub open spec fn square_input_elements(size: u32) -> int {
    3 * size * size
}

/// The names under which a model's signature checks report a mismatch.
pub struct SignatureNames {
    pub inputs: &'static str,
    pub input_elements: &'static str,
    pub outputs: &'static str,
}

/// The outcome of checking a single-input model's declared signature: one
/// input, of `3 * input_size * input_size` elements, and `expected_outputs`
/// outputs, checked in that order.
pub open spec fn signature_outcome(
    names: SignatureNames,
    input_size: u32,
    expected_outputs: usize,
    input_count: usize,
    first_input_elements: usize,
    output_count: usize,
) -> Result<(), FaceError> {
    if input_count != 1 {
        Err(FaceError::ShapeMismatch { name: names.inputs, expected: 1, got: input_count })
    } else if first_input_elements != square_input_elements(input_size) {
        Err(
            FaceError::ShapeMismatch {
                name: names.input_elements,
                expected: square_input_elements(input_size) as usize,
                got: first_input_elements,
            },
        )
    } else if output_count != expected_outputs {
        Err(FaceError::ShapeMismatch { name: names.outputs, expected: expected_outputs, got: output_count })
    } else {
        Ok(())
    }
}

/// Checks a single-input model's declared signature at load time, so that a
/// differently exported model fails loudly instead of being mis-decoded on
/// every frame (the detector expects 12 outputs, the anti-spoof model 1).
pub fn validate_signature(
    names: SignatureNames,
    input_size: u32,
    expected_outputs: usize,
    input_count: usize,
    first_input_elements: usize,
    output_count: usize,
) -> (r: Result<(), FaceError>)
    requires
        square_input_elements(input_size) <= usize::MAX,
    ensures
        r == signature_outcome(names, input_size, expected_outputs, input_count, first_input_elements, output_count),
{
    if input_count != 1 {
        return Err(FaceError::ShapeMismatch { name: names.inputs, expected: 1, got: input_count });
    }
    let side = input_size as usize;
    proof {
        assert(3 * side * side <= usize::MAX);
        assert(3 * side <= usize::MAX) by (nonlinear_arith)
            requires
                3 * side * side <= usize::MAX,
        ;
    }
    let expected = 3 * side * side;
    if first_input_elements != expected {
        return Err(FaceError::ShapeMismatch { name: names.input_elements, expected, got: first_input_elements });
    }
    if output_count != expected_outputs {
        return Err(FaceError::ShapeMismatch { name: names.outputs, expected: expected_outputs, got: output_count });
    }
    Ok(())
}

/// The outcome of checking one detector stride's outputs: with
/// `fw = input_size / stride` cells per side and `n = fw * fw` cells, the
/// class and objectness maps hold `n` values, the box map `4n`, the
/// landmark map `10n`.
pub open spec fn stride_outcome(
    input_size: u32,
    stride: u32,
    cls_len: usize,
    obj_len: usize,
    bbox_len: usize,
    kps_len: usize,
) -> Result<usize, FaceError> {
    let fw = input_size / stride;
    let n = fw * fw;
    if cls_len == n && obj_len == n && bbox_len == 4 * n && kps_len == 10 * n {
        Ok(n as usize)
    } else {
        Err(FaceError::ShapeMismatch { name: "yunet_stride_output", expected: n as usize, got: cls_len })
    }
}

/// Checks one detector stride's output sizes, returning its cell count.
pub fn check_stride_outputs(
    input_size: u32,
    stride: u32,
    cls_len: usize,
    obj_len: usize,
    bbox_len: usize,
    kps_len: usize,
) -> (r: Result<usize, FaceError>)
    requires
        stride > 0,
    ensures
        r == stride_outcome(input_size, stride, cls_len, obj_len, bbox_len, kps_len),
{
    let fw = (input_size / stride) as u64;
    assert(fw * fw <= u64::MAX) by (nonlinear_arith)
        requires
            fw <= u32::MAX,
    ;
    let n: u64 = fw * fw;
    let n_wide = n as u128;
    if (cls_len as u128) == n_wide && (obj_len as u128) == n_wide && (bbox_len as u128) == 4 * n_wide
        && (kps_len as u128) == 10 * n_wide {
        Ok(cls_len)
    } else {
        Err(FaceError::ShapeMismatch { name: "yunet_stride_output", expected: n as usize, got: cls_len })
    }
}

/// Sanitizes declared dimensions for buffer allocation: dynamic or unknown
/// (non-positive) dimensions become 1.
pub fn sanitize_dims(dims: &Vec<i32>) -> (r: Vec<i32>)
    ensures
        r@.len() == dims@.len(),
        forall|i: int| 0 <= i < dims@.len() ==> #[trigger] r@[i] == if dims@[i] <= 0 { 1i32 } else { dims@[i] },
{
    let mut out: Vec<i32> = Vec::new();
    let mut i: usize = 0;
    while i < dims.len()
        invariant
            i <= dims@.len(),
            out@.len() == i,
            forall|j: int| 0 <= j < i ==> #[trigger] out@[j] == if dims@[j] <= 0 { 1i32 } else { dims@[j] },
        decreases dims@.len() - i,
    {
        let d = dims[i];
        out.push(if d <= 0 { 1 } else { d });
        i = i + 1;
    }
    out
}

/// The memory layout of a model's image input.
#[derive(Debug, Clone, Copy, PartialEq, Eq, Structural)]
pub enum TensorLayout {
    Nchw,
    Nhwc,
}

/// An input declared with four dimensions and 3 channels last is NHWC;
/// anything else is treated as NCHW.
pub fn input_layout(dims: &Vec<i32>) -> (r: TensorLayout)
    ensures
        r == if dims@.len() == 4 && dims@[3] == 3 { TensorLayout::Nhwc } else { TensorLayout::Nchw },
{
    if dims.len() == 4 && dims[3] == 3 {
        TensorLayout::Nhwc
    } else {
        TensorLayout::Nchw
    }
}

/// The product of the positive (known) dimensions.
pub open spec fn positive_product(dims: Seq<i32>) -> int
    decreases dims.len(),
{
    if dims.len() == 0 {
        1
    } else {
        let d = dims.last();
        positive_product(dims.drop_last()) * if d > 0 { d as int } else { 1 }
    }
}

proof fn lemma_positive_product_grows(dims: Seq<i32>, i: int)
    requires
        0 <= i <= dims.len(),
    ensures
        1 <= positive_product(dims.take(i)) <= positive_product(dims),
    decreases dims.len() - i,
{
    if i < dims.len() {
        lemma_positive_product_grows(dims, i + 1);
        let a = positive_product(dims.take(i));
        let d = dims[i];
        let f: int = if d > 0 { d as int } else { 1 };
        assert(dims.take(i + 1).drop_last() =~= dims.take(i));
        assert(positive_product(dims.take(i + 1)) == a * f);
        lemma_positive_product_grows_base(dims.take(i));
        assert(a <= a * f) by (nonlinear_arith)
            requires
                a >= 1,
                f >= 1,
        ;
    } else {
        assert(dims.take(i) =~= dims);
        lemma_positive_product_grows_base(dims);
    }
}

proof fn lemma_positive_product_grows_base(dims: Seq<i32>)
    ensures
        positive_product(dims) >= 1,
    decreases dims.len(),
{
    if dims.len() > 0 {
        lemma_positive_product_grows_base(dims.drop_last());
        let a = positive_product(dims.drop_last());
        let d = dims.last();
        let f: int = if d > 0 { d as int } else { 1 };
        assert(a * f >= 1) by (nonlinear_arith)
            requires
                a >= 1,
                f >= 1,
        ;
    }
}

/// The number of elements described by the known dimensions.
pub fn positive_elements(dims: &Vec<i32>) -> (r: usize)
    requires
        positive_product(dims@) <= usize::MAX,
    ensures
        r == positive_product(dims@),
{
    let mut acc: usize = 1;
    let mut i: usize = 0;
    while i < dims.len()
        invariant
            i <= dims@.len(),
            positive_product(dims@) <= usize::MAX,
            acc == positive_product(dims@.take(i as int)),
        decreases dims@.len() - i,
    {
        proof {
            lemma_positive_product_grows(dims@, i + 1);
            assert(dims@.take(i + 1).drop_last() =~= dims@.take(i as int));
        }
        let d = dims[i];
        let f: usize = if d > 0 { d as usize } else { 1 };
        acc = acc * f;
        i = i + 1;
    }
    proof {
        assert(dims@.take(dims@.len() as int) =~= dims@);
    }
    acc
}

/// `r` is the square root of `n`.
pub open spec fn is_square_root(r: int, n: int) -> bool {
    0 <= r && r * r == n
}

/// The largest `r` with `r * r <= n`.
pub open spec fn is_floor_sqrt(r: int, n: int) -> bool {
    0 <= r && r * r <= n < (r + 1) * (r + 1)
}

/// The integer square root (floor) of `n`.
pub fn floor_sqrt(n: u64) -> (r: u64)
    ensures
        is_floor_sqrt(r as int, n as int),
{
    let mut lo: u64 = 0;
    let mut hi: u64 = 0x1_0000_0000;
    assert(hi as int * hi as int > n) by (nonlinear_arith)
        requires
            hi == 0x1_0000_0000,
            n <= u64::MAX,
    ;
    while hi - lo > 1
        invariant
            lo < hi <= 0x1_0000_0000,
            lo as int * lo as int <= n,
            n < hi as int * hi as int,
        decreases hi - lo,
    {
        let mid = lo + (hi - lo) / 2;
        assert(mid < 0x1_0000_0000);
        assert(mid as int * mid as int <= u64::MAX) by (nonlinear_arith)
            requires
                mid < 0x1_0000_0000,
        ;
        if mid * mid <= n {
            lo = mid;
        } else {
            hi = mid;
        }
    }
    assert(hi == lo + 1);
    lo
}

/// The outcome of settling an embedder's square input resolution from the
/// configured size (if any) and the model's declared input dimensions,
/// whose known dimensions multiply to `elements`.
pub open spec fn embedder_input_size_outcome(configured: Option<u32>, elements: int) -> Result<u32, FaceError> {
    match configured {
        Some(s) => if elements != square_input_elements(s) {
            Err(
                FaceError::ShapeMismatch {
                    name: "litert_embedder_input_elements",
                    expected: square_input_elements(s) as usize,
                    got: elements as usize,
                },
            )
        } else {
            Ok(s)
        },
        None => if elements % 3 != 0 {
            Err(FaceError::ShapeMismatch { name: "litert_embedder_input_elements", expected: 3, got: elements as usize })
        } else {
            let spatial = elements / 3;
            if exists|r: int| #[trigger] is_square_root(r, spatial) {
                Ok((choose|r: int| #[trigger] is_square_root(r, spatial)) as u32)
            } else {
                let r = choose|r: int| #[trigger] is_floor_sqrt(r, spatial);
                Err(
                    FaceError::ShapeMismatch {
                        name: "litert_embedder_input_elements_square",
                        expected: (r * r * 3) as usize,
                        got: elements as usize,
                    },
                )
            }
        },
    }
}

proof fn lemma_floor_sqrt_unique(r: int, s: int, n: int)
    requires
        is_floor_sqrt(r, n),
        is_floor_sqrt(s, n),
    ensures
        r == s,
{
    if r < s {
        assert((r + 1) * (r + 1) <= s * s) by (nonlinear_arith)
            requires
                0 <= r < s,
        ;
    } else if s < r {
        assert((s + 1) * (s + 1) <= r * r) by (nonlinear_arith)
            requires
                0 <= s < r,
        ;
    }
}

proof fn lemma_square_root_nonneg_unique(r: int, s: int)
    requires
        0 <= r,
        0 <= s,
        r * r == s * s,
    ensures
        r == s,
{
    if r < s {
        assert(r * r < s * s) by (nonlinear_arith)
            requires
                0 <= r < s,
        ;
    } else if s < r {
        assert(s * s < r * r) by (nonlinear_arith)
            requires
                0 <= s < r,
        ;
    }
}

/// Settles an embedder's square input resolution. A configured size must
/// match the model's declared element count; otherwise the size is derived
/// from the declared shape, which must hold 3 channels of a square image.
pub fn embedder_input_size(configured: Option<u32>, input_dims: &Vec<i32>) -> (r: Result<u32, FaceError>)
    requires
        positive_product(input_dims@) <= usize::MAX,
        configured matches Some(s) ==> square_input_elements(s) <= usize::MAX,
    ensures
        r == embedder_input_size_outcome(configured, positive_product(input_dims@)),
{
    let elements = positive_elements(input_dims);
    match configured {
        Some(size) => {
            let side = size as usize;
            assert(3 * side <= usize::MAX) by (nonlinear_arith)
                requires
                    3 * side * side <= usize::MAX,
            ;
            let expected = 3 * side * side;
            if elements != expected {
                return Err(
                    FaceError::ShapeMismatch { name: "litert_embedder_input_elements", expected, got: elements },
                );
            }
            Ok(size)
        },
        None => {
            if elements % 3 != 0 {
                return Err(FaceError::ShapeMismatch { name: "litert_embedder_input_elements", expected: 3, got: elements });
            }
            let spatial = elements / 3;
            let root = floor_sqrt(spatial as u64);
            assert(elements as int <= 0xFFFF_FFFF_FFFF_FFFFint);
            assert(spatial < 0x6000_0000_0000_0000);
            assert(root < 0x1_0000_0000) by (nonlinear_arith)
                requires
                    root as int * root as int <= spatial,
                    spatial < 0x6000_0000_0000_0000,
            ;
            let side = root as usize;
            let sq = side * side;
            if sq != spatial {
                proof {
                    assert(!exists|q: int| #[trigger] is_square_root(q, spatial as int)) by {
                        if exists|q: int| #[trigger] is_square_root(q, spatial as int) {
                            let q = choose|q: int| #[trigger] is_square_root(q, spatial as int);
                            assert(is_floor_sqrt(q, spatial as int)) by (nonlinear_arith)
                                requires
                                    q * q == spatial,
                                    0 <= q,
                            ;
                            lemma_floor_sqrt_unique(q, root as int, spatial as int);
                        }
                    }
                    assert(is_floor_sqrt(root as int, spatial as int));
                    let c = choose|c: int| #[trigger] is_floor_sqrt(c, spatial as int);
                    lemma_floor_sqrt_unique(c, root as int, spatial as int);
                }
                return Err(
                    FaceError::ShapeMismatch {
                        name: "litert_embedder_input_elements_square",
                        expected: sq * 3,
                        got: elements,
                    },
                );
            }
            proof {
                assert(is_square_root(root as int, spatial as int));
                let q = choose|q: int| #[trigger] is_square_root(q, spatial as int);
                lemma_square_root_nonneg_unique(q, root as int);
            }
            Ok(root as u32)
        },
    }
}

/// The outcome of checking an embedder's declared output: exactly one
/// output, whose known dimensions hold `EMBED_DIM` elements.
pub open spec fn embedding_output_outcome(output_count: usize, elements: int) -> Result<(), FaceError> {
    if output_count != 1 {
        Err(FaceError::ShapeMismatch { name: "embedder_signature_outputs", expected: 1, got: output_count })
    } else if elements != EMBED_DIM {
        Err(FaceError::InvalidEmbeddingDim { expected: EMBED_DIM, got: elements as usize })
    } else {
        Ok(())
    }
}

/// Checks an embedder's declared output against `EMBED_DIM`, which must
/// match the model's output size.
pub fn check_embedding_output(output_count: usize, output_dims: &Vec<i32>) -> (r: Result<(), FaceError>)
    requires
        positive_product(output_dims@) <= i32::MAX,
    ensures
        r == embedding_output_outcome(output_count, positive_product(output_dims@)),
{
    if output_count != 1 {
        return Err(FaceError::ShapeMismatch { name: "embedder_signature_outputs", expected: 1, got: output_count });
    }
    let elements = positive_elements(output_dims);
    if elements != EMBED_DIM {
        return Err(FaceError::InvalidEmbeddingDim { expected: EMBED_DIM, got: elements });
    }
    Ok(())
}

/// The square input resolution of an ONNX embedder: the configured size,
/// or one read from a 4-dimensional first input (NCHW when dimension 1 is
/// 3 channels, NHWC when dimension 3 is), or 112 when neither applies.
pub open spec fn ort_input_size_outcome(configured: Option<u32>, dims: Option<Seq<i64>>) -> u32 {
    match configured {
        Some(s) => s,
        None => match dims {
            Some(d) => if d.len() == 4 {
                if d[1] == 3 && d[2] > 0 {
                    d[2] as u32
                } else if d[3] == 3 && d[1] > 0 {
                    d[1] as u32
                } else {
                    112
                }
            } else {
                112
            },
            None => 112,
        },
    }
}

/// Settles an ONNX embedder's square input resolution.
pub fn ort_input_size(configured: Option<u32>, first_input_dims: Option<&Vec<i64>>) -> (r: u32)
    ensures
        r == ort_input_size_outcome(configured, match first_input_dims {
            Some(d) => Some(d@),
            None => None,
        }),
{
    match configured {
        Some(s) => s,
        None => match first_input_dims {
            Some(d) => {
                if d.len() == 4 {
                    if d[1] == 3 && d[2] > 0 {
                        d[2] as u32
                    } else if d[3] == 3 && d[1] > 0 {
                        d[1] as u32
                    } else {
                        112
                    }
                } else {
                    112
                }
            },
            None => 112,
        },
    }
}

/// The largest length in `lens`, or 0 when there are none.
pub open spec fn max_len(lens: Seq<usize>) -> usize
    decreases lens.len(),
{
    if lens.len() == 0 {
        0
    } else {
        let m = max_len(lens.drop_last());
        if lens.last() > m { lens.last() } else { m }
    }
}

/// The smallest length in `lens`, or 0 when there are none.
pub open spec fn min_len(lens: Seq<usize>) -> usize
    decreases lens.len(),
{
    if lens.len() == 0 {
        0
    } else if lens.len() == 1 {
        lens[0]
    } else {
        let m = min_len(lens.drop_last());
        if lens.last() < m { lens.last() } else { m }
    }
}

/// The largest length in `lens` (0 when empty).
pub fn largest(lens: &Vec<usize>) -> (r: usize)
    ensures
        r == max_len(lens@),
{
    let mut m: usize = 0;
    let mut i: usize = 0;
    while i < lens.len()
        invariant
            i <= lens@.len(),
            m == max_len(lens@.take(i as int)),
        decreases lens@.len() - i,
    {
        proof {
            assert(lens@.take(i + 1).drop_last() =~= lens@.take(i as int));
        }
        if lens[i] > m {
            m = lens[i];
        }
        i = i + 1;
    }
    proof {
        assert(lens@.take(lens@.len() as int) =~= lens@);
    }
    m
}

/// The smallest length in `lens` (0 when empty).
pub fn smallest(lens: &Vec<usize>) -> (r: usize)
    ensures
        r == min_len(lens@),
{
    if lens.len() == 0 {
        return 0;
    }
    let mut m: usize = lens[0];
    let mut i: usize = 1;
    proof {
        assert(lens@.take(1) =~= seq![lens@[0]]);
    }
    while i < lens.len()
        invariant
            1 <= i <= lens@.len(),
            m == min_len(lens@.take(i as int)),
        decreases lens@.len() - i,
    {
        proof {
            assert(lens@.take(i + 1).drop_last() =~= lens@.take(i as int));
        }
        if lens[i] < m {
            m = lens[i];
        }
        i = i + 1;
    }
    proof {
        assert(lens@.take(lens@.len() as int) =~= lens@);
    }
    m
}

/// `i` is the first position in `lens` holding exactly `target`.
pub open spec fn is_first_of_len(lens: Seq<usize>, i: int, target: usize) -> bool {
    0 <= i < lens.len() && lens[i] == target && forall|j: int| 0 <= j < i ==> lens[j] != target
}

/// The position of the first output with exactly `target` elements.
pub fn first_of_len(lens: &Vec<usize>, target: usize) -> (r: Option<usize>)
    ensures
        r matches Some(i) ==> is_first_of_len(lens@, i as int, target),
        r is None ==> forall|j: int| 0 <= j < lens@.len() ==> lens@[j] != target,
{
    let mut i: usize = 0;
    while i < lens.len()
        invariant
            i <= lens@.len(),
            forall|j: int| 0 <= j < i ==> lens@[j] != target,
        decreases lens@.len() - i,
    {
        if lens[i] == target {
            return Some(i);
        }
        i = i + 1;
    }
    None
}

/// A BlazeFace regressor output: a non-empty multiple of 16 values (16 per
/// anchor).
pub open spec fn is_regressor_len(n: usize) -> bool {
    n % 16 == 0 && n > 0
}

/// The positions of BlazeFace's regressor output (the first non-empty
/// output whose length is a multiple of 16) and classificator output (the
/// first with one value per anchor), in that order.
pub open spec fn blazeface_outputs_outcome(lens: Seq<usize>) -> Result<(usize, usize), FaceError> {
    if exists|i: int| 0 <= i < lens.len() && is_regressor_len(#[trigger] lens[i]) {
        let ri = choose|i: int|
            0 <= i < lens.len() && is_regressor_len(lens[i]) && forall|j: int|
                0 <= j < i ==> !is_regressor_len(#[trigger] lens[j]);
        let anchors = (lens[ri] / 16) as usize;
        if exists|i: int| 0 <= i < lens.len() && #[trigger] lens[i] == anchors {
            let ci = choose|i: int| is_first_of_len(lens, i, anchors);
            Ok((ri as usize, ci as usize))
        } else {
            Err(FaceError::ShapeMismatch { name: "blazeface_classificators", expected: anchors, got: min_len(lens) })
        }
    } else {
        Err(FaceError::ShapeMismatch { name: "blazeface_regressors", expected: 16, got: max_len(lens) })
    }
}

/// Picks BlazeFace's regressor and classificator outputs by their lengths.
pub fn blazeface_outputs(lens: &Vec<usize>) -> (r: Result<(usize, usize), FaceError>)
    ensures
        r == blazeface_outputs_outcome(lens@),
{
    let mut ri: usize = 0;
    while ri < lens.len() && !(lens[ri] % 16 == 0 && lens[ri] > 0)
        invariant
            ri <= lens@.len(),
            forall|j: int| 0 <= j < ri ==> !is_regressor_len(#[trigger] lens@[j]),
        decreases lens@.len() - ri,
    {
        ri = ri + 1;
    }
    if ri == lens.len() {
        let m = largest(lens);
        return Err(FaceError::ShapeMismatch { name: "blazeface_regressors", expected: 16, got: m });
    }
    proof {
        let c = choose|i: int|
            0 <= i < lens@.len() && is_regressor_len(lens@[i]) && forall|j: int|
                0 <= j < i ==> !is_regressor_len(#[trigger] lens@[j]);
        if c < ri {
        } else if c > ri {
            assert(!is_regressor_len(lens@[ri as int]));
        }
        assert(c == ri);
    }
    let anchors = lens[ri] / 16;
    match first_of_len(lens, anchors) {
        Some(ci) => {
            proof {
                let c = choose|i: int| is_first_of_len(lens@, i, anchors);
                if c < ci {
                    assert(lens@[c] != anchors);
                } else if c > ci {
                    assert(lens@[ci as int] != anchors);
                }
            }
            Ok((ri, ci))
        },
        None => {
            let m = smallest(lens);
            Err(FaceError::ShapeMismatch { name: "blazeface_classificators", expected: anchors, got: m })
        },
    }
}

/// The position of the face landmarker's output: the first holding 468
/// points of 3 coordinates.
pub open spec fn landmark_output_outcome(lens: Seq<usize>) -> Result<usize, FaceError> {
    if exists|i: int| 0 <= i < lens.len() && #[trigger] lens[i] == 1404 {
        Ok((choose|i: int| is_first_of_len(lens, i, 1404)) as usize)
    } else {
        Err(FaceError::ShapeMismatch { name: "mediapipe_landmarks_output", expected: 1404, got: max_len(lens) })
    }
}

/// Picks the face landmarker's output by its length.
pub fn landmark_output(lens: &Vec<usize>) -> (r: Result<usize, FaceError>)
    ensures
        r == landmark_output_outcome(lens@),
{
    match first_of_len(lens, 1404) {
        Some(i) => {
            proof {
                let c = choose|k: int| is_first_of_len(lens@, k, 1404);
                if c < i {
                    assert(lens@[c] != 1404);
                } else if c > i {
                    assert(lens@[i as int] != 1404);
                }
            }
            Ok(i)
        },
        None => {
            let m = largest(lens);
            Err(FaceError::ShapeMismatch { name: "mediapipe_landmarks_output", expected: 1404, got: m })
        },
    }
}

/// Which BlazeFace export a model is: short range (128 px input, 896
/// anchors) or full range (192 px input, 2304 anchors).
#[derive(Debug, Clone, Copy, PartialEq, Eq, Structural)]
pub enum BlazeFaceVariant {
    ShortRange,
    FullRange,
}

impl BlazeFaceVariant {
    /// The square input side of this export.
    pub fn input_side(&self) -> (r: u32)
        ensures
            r == match self {
                BlazeFaceVariant::ShortRange => 128u32,
                BlazeFaceVariant::FullRange => 192u32,
            },
    {
        match self {
            BlazeFaceVariant::ShortRange => 128,
            BlazeFaceVariant::FullRange => 192,
        }
    }
}

/// Tells the exports apart by a probe run's largest output (`None` when the
/// probe run failed): 2304 anchors (or their 16-value regressors) mean full
/// range; anything else is taken as short range.
pub fn blazeface_variant(largest_probe_output: Option<usize>) -> (r: BlazeFaceVariant)
    ensures
        r == match largest_probe_output {
            Some(m) => if m == 2304 * 16 || m == 2304 {
                BlazeFaceVariant::FullRange
            } else {
                BlazeFaceVariant::ShortRange
            },
            None => BlazeFaceVariant::ShortRange,
        },
{
    match largest_probe_output {
        Some(m) => if m == 2304 * 16 || m == 2304 {
            BlazeFaceVariant::FullRange
        } else {
            BlazeFaceVariant::ShortRange
        },
        None => BlazeFaceVariant::ShortRange,
    }
}

/// The anchor layout matching an output's anchor count.
#[derive(Debug, Clone, Copy, PartialEq, Eq, Structural)]
pub enum AnchorLayout {
    /// The short-range layout (896 anchors).
    ShortRange,
    /// The full-range layout (2304 anchors).
    FullRange,
    /// A uniform square grid, for other counts.
    Grid,
}

/// The anchor layout for `count` anchors.
pub fn anchor_layout_for(count: usize) -> (r: AnchorLayout)
    ensures
        r == if count == 896 {
            AnchorLayout::ShortRange
        } else if count == 2304 {
            AnchorLayout::FullRange
        } else {
            AnchorLayout::Grid
        },
{
    if count == 896 {
        AnchorLayout::ShortRange
    } else if count == 2304 {
        AnchorLayout::FullRange
    } else {
        AnchorLayout::Grid
    }
}


/// An ONNX embedder's input size: the configured size when there is one;
/// otherwise, for a four-dimensional first input, the height of an NCHW
/// input (`dims[2]`, when `dims[1]` is 3 channels and `dims[2]` is known),
/// else the height of an NHWC input (`dims[1]`, when `dims[3]` is 3
/// channels and `dims[1]` is known), else 112. The batch dimension never
/// matters: it is usually dynamic (`-1`).
pub proof fn law_onnx_input_size(configured: Option<u32>, d: Seq<i64>, batch: i64)
    ensures
        configured matches Some(size) ==> ort_input_size_outcome(configured, Some(d)) == size
            && ort_input_size_outcome(configured, None) == size,
        ort_input_size_outcome(None, None) == 112,
        d.len() != 4 ==> ort_input_size_outcome(None, Some(d)) == 112,
        d.len() == 4 && d[1] == 3 && d[2] > 0 ==> ort_input_size_outcome(None, Some(d)) == d[2] as u32,
        d.len() == 4 && !(d[1] == 3 && d[2] > 0) && d[3] == 3 && d[1] > 0 ==> ort_input_size_outcome(
            None,
            Some(d),
        ) == d[1] as u32,
        d.len() == 4 && !(d[1] == 3 && d[2] > 0) && !(d[3] == 3 && d[1] > 0) ==> ort_input_size_outcome(
            None,
            Some(d),
        ) == 112,
        d.len() == 4 ==> ort_input_size_outcome(configured, Some(d.update(0, batch))) == ort_input_size_outcome(
            configured,
            Some(d),
        ),
{
    if d.len() == 4 {
        let e = d.update(0, batch);
        assert(e.len() == 4 && e[1] == d[1] && e[2] == d[2] && e[3] == d[3]);
    }
}


/// A model signature passes exactly when it has one input of
/// `3 * size * size` elements and the expected number of outputs; a
/// detector stride's outputs pass exactly when the class and objectness maps
/// hold one value per cell of the `(size / stride)`-square grid, the box map
/// four and the landmark map ten, and the cell count is what comes back.
pub proof fn law_shape_checks_accept_exactly_the_declared_shapes(
    names: SignatureNames,
    input_size: u32,
    expected_outputs: usize,
    input_count: usize,
    first_input_elements: usize,
    output_count: usize,
    stride: u32,
    cls_len: usize,
    obj_len: usize,
    bbox_len: usize,
    kps_len: usize,
)
    requires
        stride > 0,
    ensures
        signature_outcome(names, input_size, expected_outputs, input_count, first_input_elements, output_count) is Ok
            <==> (input_count == 1 && first_input_elements == 3 * input_size * input_size && output_count
            == expected_outputs),
        stride_outcome(input_size, stride, cls_len, obj_len, bbox_len, kps_len) is Ok <==> ({
            let cells = (input_size / stride) * (input_size / stride);
            &&& cls_len == cells
            &&& obj_len == cells
            &&& bbox_len == 4 * cells
            &&& kps_len == 10 * cells
        }),
        stride_outcome(input_size, stride, cls_len, obj_len, bbox_len, kps_len) matches Ok(n) ==> n == cls_len
            && n == obj_len && 4 * n == bbox_len && 10 * n == kps_len,
{
}

/// An embedder's input size, when settled, is one whose `3 * size * size`
/// elements are exactly what the model declares; a configured size is
/// kept whenever it fits, and with none configured every declared shape of
/// `3 * k * k` elements gives `k`.
pub proof fn law_embedder_size_fits_the_declared_elements(configured: Option<u32>, elements: int, k: u32)
    requires
        0 <= elements <= usize::MAX,
    ensures
        embedder_input_size_outcome(configured, elements) matches Ok(s) ==> elements == 3 * s * s,
        configured matches Some(s) ==> (embedder_input_size_outcome(configured, elements) is Ok <==> elements
            == 3 * s * s),
        configured is Some && elements == 3 * configured->Some_0 * configured->Some_0 ==> embedder_input_size_outcome(
            configured,
            elements,
        ) == Ok::<u32, FaceError>(configured->Some_0),
        configured is None && elements == 3 * k * k ==> embedder_input_size_outcome(configured, elements) == Ok::<
            u32,
            FaceError,
        >(k),
{
    if configured is None {
        if elements % 3 == 0 {
            let spatial = elements / 3;
            if exists|r: int| #[trigger] is_square_root(r, spatial) {
                let r = choose|r: int| #[trigger] is_square_root(r, spatial);
                assert(elements == 3 * r * r && r < 0x1_0000_0000) by (nonlinear_arith)
                    requires
                        elements == 3 * spatial,
                        r * r == spatial,
                        0 <= r,
                        elements <= 0xFFFF_FFFF_FFFF_FFFF,
                ;
                if elements == 3 * k * k {
                    lemma_three_squares(k as int, elements);
                    assert(is_square_root(k as int, spatial));
                    lemma_square_root_nonneg_unique(r, k as int);
                }
            }
        }
        if elements == 3 * k * k {
            lemma_three_squares(k as int, elements);
            assert(elements % 3 == 0);
            assert(is_square_root(k as int, elements / 3));
        }
    }
}

proof fn lemma_three_squares(k: int, elements: int)
    requires
        elements == 3 * k * k,
    ensures
        elements % 3 == 0,
        elements / 3 == k * k,
{
    let kk = k * k;
    assert(elements == 3 * kk) by (nonlinear_arith)
        requires
            elements == 3 * k * k,
            kk == k * k,
    ;
}

/// The landmarker's output is the first one holding 468 three-coordinate
/// points, and there is one whenever any output holds that many; BlazeFace's
/// regressors are the first non-empty output of 16 values per anchor, and
/// its classificators the first output with one value per such anchor.
pub proof fn law_outputs_are_picked_by_length(lens: Seq<usize>)
    requires
        lens.len() <= usize::MAX,
    ensures
        landmark_output_outcome(lens) is Ok <==> exists|i: int| 0 <= i < lens.len() && lens[i] == 468 * 3,
        landmark_output_outcome(lens) matches Ok(i) ==> i < lens.len() && lens[i as int] == 468 * 3 && forall|
            j: int,
        | 0 <= j < i ==> lens[j] != 468 * 3,
        blazeface_outputs_outcome(lens) matches Ok((r, c)) ==> {
            &&& r < lens.len() && c < lens.len()
            &&& lens[r as int] > 0 && lens[r as int] % 16 == 0
            &&& forall|j: int| 0 <= j < r ==> !(lens[j] > 0 && #[trigger] lens[j] % 16 == 0)
            &&& lens[c as int] * 16 == lens[r as int]
            &&& forall|j: int| 0 <= j < c ==> #[trigger] lens[j] * 16 != lens[r as int]
        },
        (forall|j: int| 0 <= j < lens.len() ==> !(lens[j] > 0 && #[trigger] lens[j] % 16 == 0)) ==> blazeface_outputs_outcome(
            lens,
        ) is Err,
{
    if exists|i: int| 0 <= i < lens.len() && #[trigger] lens[i] == 1404 {
        let w = choose|i: int| 0 <= i < lens.len() && #[trigger] lens[i] == 1404;
        lemma_first_of_len_exists(lens, w, 1404);
    }
    if exists|i: int| 0 <= i < lens.len() && is_regressor_len(#[trigger] lens[i]) {
        let w = choose|i: int| 0 <= i < lens.len() && is_regressor_len(#[trigger] lens[i]);
        lemma_first_regressor_exists(lens, w);
        let ri = choose|i: int|
            0 <= i < lens.len() && is_regressor_len(lens[i]) && forall|j: int|
                0 <= j < i ==> !is_regressor_len(#[trigger] lens[j]);
        let anchors = (lens[ri] / 16) as usize;
        if exists|i: int| 0 <= i < lens.len() && #[trigger] lens[i] == anchors {
            let v = choose|i: int| 0 <= i < lens.len() && #[trigger] lens[i] == anchors;
            lemma_first_of_len_exists(lens, v, anchors);
            let ci = choose|i: int| is_first_of_len(lens, i, anchors);
            assert forall|j: int| 0 <= j < ci implies #[trigger] lens[j] * 16 != lens[ri] by {
                assert(lens[j] != anchors);
            }
        }
    }
}

/// Where some position holds `target`, there is a first one.
proof fn lemma_first_of_len_exists(lens: Seq<usize>, w: int, target: usize)
    requires
        0 <= w < lens.len(),
        lens[w] == target,
    ensures
        exists|i: int| is_first_of_len(lens, i, target),
    decreases w,
{
    if forall|j: int| 0 <= j < w ==> lens[j] != target {
        assert(is_first_of_len(lens, w, target));
    } else {
        let v = choose|j: int| 0 <= j < w && lens[j] == target;
        lemma_first_of_len_exists(lens, v, target);
    }
}

/// Where some output is a regressor output, there is a first one.
proof fn lemma_first_regressor_exists(lens: Seq<usize>, w: int)
    requires
        0 <= w < lens.len(),
        is_regressor_len(lens[w]),
    ensures
        exists|i: int|
            0 <= i < lens.len() && is_regressor_len(lens[i]) && forall|j: int|
                0 <= j < i ==> !is_regressor_len(#[trigger] lens[j]),
    decreases w,
{
    if forall|j: int| 0 <= j < w ==> !is_regressor_len(#[trigger] lens[j]) {
    } else {
        let v = choose|j: int| 0 <= j < w && is_regressor_len(#[trigger] lens[j]);
        lemma_first_regressor_exists(lens, v);
    }
}

} // verus!
