//! The kernels that the engine runs: their cache keys, their graphs and their source.

use vstd::prelude::*;
use vstd::string::*;

use crate::codegen::error::{CodegenError, ErrorV};
use crate::codegen::lower::kernels::{head_ok, sched_fits};
use crate::codegen::pipeline::{
    constants_of, lookup_of, lower_to_metal, matrix_ranked, metal_of, plan_lookup,
    region_constants, region_ok,
};
use crate::codegen::render::expr::{lits_view, LitV, Literal};
use crate::codegen::render::kernel::{MetalKernelSource, SourceV};
use crate::codegen::schedule::{result_view, scheduled};
use crate::ir::dtype::{
    matrix_shape, product_fits, vector_shape, DType, IrError, Scalar, TensorId,
};
use crate::ir::graph::{lemma_vector_fits, Graph, GraphV, OpV, Step};
use crate::ir::kernel::{FuseHint, OptSchedule};
use crate::ir::laws::{built, grows, lemma_build_grows, Build};
use crate::text::{dec, dec_text, dec_usize};

verus! {

/// A kernel, told apart by its algorithm and its dimensions. Constants are bit patterns.
#[derive(Clone, Copy, Debug, PartialEq, Eq, Structural)]
pub enum Kernel {
    /// A matrix times a vector.
    Matvec { rows: usize, cols: usize, weight: DType },
    /// Three matrices times one vector.
    MatvecQkv { q_rows: usize, kv_rows: usize, cols: usize, wq: DType, wk: DType, wv: DType },
    /// A matrix times a normalised vector.
    RmsNormMatvec { rows: usize, cols: usize, eps: u32, weight: DType },
    /// Three matrices times one normalised vector.
    RmsNormMatvecQkv {
        q_rows: usize,
        kv_rows: usize,
        cols: usize,
        eps: u32,
        wq: DType,
        wk: DType,
        wv: DType,
    },
    /// A normalised vector.
    RmsNorm { n: usize, eps: u32 },
    /// A normalised vector plus a residual.
    RmsNormAdd { n: usize, eps: u32 },
    /// A normalised vector plus a residual, scaled.
    RmsNormAddScale { n: usize, eps: u32, scale: u32 },
    /// A normalised vector plus a residual, and that normalised again.
    RmsNormAddThenRmsNorm { n: usize, eps: u32 },
    /// Every head normalised on its own.
    RmsNormPerHead { n_heads: usize, hd: usize, eps: u32 },
    /// Every head normalised on its own and rotated by its position.
    RmsNormPerHeadRope { n_heads: usize, hd: usize, eps: u32 },
    /// Every head normalised on its own, without weights.
    RmsNormNoWeight { n_heads: usize, hd: usize, eps: u32 },
    /// The sum of two vectors.
    Add { n: usize },
    /// GELU of a gate times a slice of another vector.
    GeluMul { n: usize, up_off: usize },
    /// GELU of a matrix times a vector, times a context.
    MatvecGeluMul { rows: usize, cols: usize, weight: DType },
    /// A gate, its projection, and the normalised sum with a residual.
    MatvecGeluMulProj {
        gate_rows: usize,
        cols: usize,
        proj_rows: usize,
        weight: DType,
        eps: u32,
        scale: u32,
    },
    /// The scaled sum of two vectors.
    AddScale { n: usize, scale: u32 },
    /// GELU of one product times another.
    GateUpGelu { rows: usize, cols: usize, weight: DType },
    /// GELU of one product times another, of a normalised vector.
    RmsNormGateUpGelu { rows: usize, cols: usize, eps: u32, weight: DType },
    /// A scaled vector.
    ScaleConst { n: usize, scale: u32 },
    /// Every head rotated by its position.
    Rope { n_heads: usize, hd: usize },
    /// Attention over the positions kept so far.
    Sdpa { n_q: usize, hd: usize, max_t: usize, kv: DType },
    /// Attention over parts of the positions.
    SdpaMwgPart { n_q: usize, hd: usize, max_t: usize, nwg: usize, kv: DType },
    /// Attention over parts put together.
    SdpaMwgReduce { n_q: usize, hd: usize, nwg: usize },
    /// A vector packed as Q4_0.
    QuantizeQ40 { n: usize },
    /// Every head normalised, rotated and packed.
    RmsNormPerHeadRopeQ40 { n_heads: usize, hd: usize, eps: u32 },
    /// Every head normalised without weights and packed.
    RmsNormPerHeadQ40 { n_heads: usize, hd: usize, eps: u32 },
    /// A copy of a slice.
    CopySlice { n: usize, src_off: usize, dst_off: usize },
    /// A scaled copy, expanded where the source is packed.
    CopyScale { n: usize, scale: u32, dtype: DType },
    /// The place of the greatest soft-capped element.
    SoftcapArgmax { n: usize, cap: u32 },
}

/// The short name of an element type in a cache key.
pub open spec fn tag_of(d: DType) -> Seq<char> {
    match d {
        DType::Q4K => "q4k"@,
        DType::Q6K => "q6k"@,
        DType::F16 => "f16"@,
        DType::F32 => "f32"@,
        _ => "other"@,
    }
}

/// The short name of an element type in a cache key.
pub fn weight_cache_tag(d: DType) -> (r: &'static str)
    ensures
        r@ == tag_of(d),
{
    match d {
        DType::Q4K => "q4k",
        DType::Q6K => "q6k",
        DType::F16 => "f16",
        DType::F32 => "f32",
        _ => "other",
    }
}

/// A graph with one more input.
pub open spec fn given(g: GraphV, shape: Seq<usize>, dtype: DType) -> GraphV {
    g.with(OpV::Input { shape, dtype }, shape, dtype)
}

/// A graph without nodes.
pub open spec fn no_nodes() -> GraphV {
    GraphV { nodes: Seq::empty(), hints: Map::empty() }
}

impl Kernel {
    /// The key under which the compiled kernel is kept.
    pub open spec fn key_of(self) -> Seq<char> {
        match self {
            Kernel::Matvec { rows, cols, weight } => {
                "mv_"@ + tag_of(weight) + "_"@ + dec(rows as nat) + "x"@ + dec(cols as nat)
            },
            Kernel::MatvecQkv { q_rows, kv_rows, cols, wq, wk, wv } => {
                "mv_qkv_"@ + tag_of(wq) + "_"@ + tag_of(wk) + "_"@ + tag_of(wv) + "_"@
                    + dec(q_rows as nat) + "x"@ + dec(kv_rows as nat) + "x"@ + dec(cols as nat)
            },
            Kernel::RmsNormMatvec { rows, cols, eps, weight } => {
                "rms_mv_"@ + tag_of(weight) + "_"@ + dec(rows as nat) + "x"@ + dec(cols as nat)
                    + "_"@ + dec(eps as nat)
            },
            Kernel::RmsNormMatvecQkv { q_rows, kv_rows, cols, eps, wq, wk, wv } => {
                "rms_mv_qkv_"@ + tag_of(wq) + "_"@ + tag_of(wk) + "_"@ + tag_of(wv) + "_"@
                    + dec(q_rows as nat) + "x"@ + dec(kv_rows as nat) + "x"@ + dec(cols as nat)
                    + "_"@ + dec(eps as nat)
            },
            Kernel::RmsNorm { n, eps } => "rms_f16_"@ + dec(n as nat) + "_"@ + dec(eps as nat),
            Kernel::RmsNormAdd { n, eps } => {
                "rms_f16_add_"@ + dec(n as nat) + "_"@ + dec(eps as nat)
            },
            Kernel::RmsNormAddScale { n, eps, scale } => {
                "rms_f16_add_sc_"@ + dec(n as nat) + "_"@ + dec(eps as nat) + "_"@
                    + dec(scale as nat)
            },
            Kernel::RmsNormAddThenRmsNorm { n, eps } => {
                "rms_f16_add_then_rms_"@ + dec(n as nat) + "_"@ + dec(eps as nat)
            },
            Kernel::RmsNormPerHead { n_heads, hd, eps } => {
                "rms_f16_ph_"@ + dec(n_heads as nat) + "_"@ + dec(hd as nat) + "_"@
                    + dec(eps as nat)
            },
            Kernel::RmsNormPerHeadRope { n_heads, hd, eps } => {
                "rms_f16_ph_rope_"@ + dec(n_heads as nat) + "_"@ + dec(hd as nat) + "_"@
                    + dec(eps as nat)
            },
            Kernel::RmsNormNoWeight { n_heads, hd, eps } => {
                "rms_f16_nw_"@ + dec(n_heads as nat) + "_"@ + dec(hd as nat) + "_"@
                    + dec(eps as nat)
            },
            Kernel::Add { n } => "add_f16_"@ + dec(n as nat),
            Kernel::GeluMul { n, up_off } => {
                "gelu_f16_"@ + dec(n as nat) + "_"@ + dec(up_off as nat)
            },
            Kernel::MatvecGeluMul { rows, cols, weight } => {
                "mv_gelu_mul_"@ + tag_of(weight) + "_"@ + dec(rows as nat) + "x"@ + dec(cols as nat)
            },
            Kernel::MatvecGeluMulProj { gate_rows, cols, proj_rows, weight, eps, scale } => {
                "mv_gelu_proj_rms_"@ + tag_of(weight) + "_"@ + dec(gate_rows as nat) + "x"@
                    + dec(cols as nat) + "_"@ + dec(proj_rows as nat) + "_"@ + dec(eps as nat)
                    + "_"@ + dec(scale as nat)
            },
            Kernel::AddScale { n, scale } => {
                "add_sc_f16_"@ + dec(n as nat) + "_"@ + dec(scale as nat)
            },
            Kernel::GateUpGelu { rows, cols, weight } => {
                "mv_gate_up_gelu_"@ + tag_of(weight) + "_"@ + dec(rows as nat) + "x"@
                    + dec(cols as nat)
            },
            Kernel::RmsNormGateUpGelu { rows, cols, eps, weight } => {
                "rms_mv_gate_up_gelu_"@ + tag_of(weight) + "_"@ + dec(rows as nat) + "x"@
                    + dec(cols as nat) + "_"@ + dec(eps as nat)
            },
            Kernel::ScaleConst { n, scale } => {
                "sc_f16_"@ + dec(n as nat) + "_"@ + dec(scale as nat)
            },
            Kernel::Rope { n_heads, hd } => {
                "rope_f16_"@ + dec(n_heads as nat) + "_"@ + dec(hd as nat)
            },
            Kernel::Sdpa { n_q, hd, max_t, kv } => {
                "sdpa_f16_"@ + dec(n_q as nat) + "_"@ + dec(hd as nat) + "_"@ + dec(max_t as nat)
                    + "_"@ + kv.label()
            },
            Kernel::SdpaMwgPart { n_q, hd, max_t, nwg, kv } => {
                "sdpa_mwg_part_"@ + dec(n_q as nat) + "_"@ + dec(hd as nat) + "_"@
                    + dec(max_t as nat) + "_"@ + dec(nwg as nat) + "_"@ + kv.label()
            },
            Kernel::SdpaMwgReduce { n_q, hd, nwg } => {
                "sdpa_mwg_reduce_"@ + dec(n_q as nat) + "_"@ + dec(hd as nat) + "_"@
                    + dec(nwg as nat)
            },
            Kernel::QuantizeQ40 { n } => "q40_pack_"@ + dec(n as nat),
            Kernel::RmsNormPerHeadRopeQ40 { n_heads, hd, eps } => {
                "rms_ph_rope_q40_"@ + dec(n_heads as nat) + "_"@ + dec(hd as nat) + "_"@
                    + dec(eps as nat)
            },
            Kernel::RmsNormPerHeadQ40 { n_heads, hd, eps } => {
                "rms_ph_q40_"@ + dec(n_heads as nat) + "_"@ + dec(hd as nat) + "_"@
                    + dec(eps as nat)
            },
            Kernel::CopySlice { n, src_off, dst_off } => {
                "csl_f16_"@ + dec(n as nat) + "_"@ + dec(src_off as nat) + "_"@
                    + dec(dst_off as nat)
            },
            Kernel::CopyScale { n, scale, dtype } => {
                "csl_sc_"@ + tag_of(dtype) + "_"@ + dec(n as nat) + "_"@ + dec(scale as nat)
            },
            Kernel::SoftcapArgmax { n, cap } => {
                "sca_f16_"@ + dec(n as nat) + "_"@ + dec(cap as nat)
            },
        }
    }

    /// The key under which the compiled kernel is kept.
    pub fn key(&self) -> (r: String)
        ensures
            r@ == self.key_of(),
    {
        match self {
            Kernel::Matvec { rows, cols, weight } => {
                String::from_str("mv_").concat(weight_cache_tag(*weight)).concat("_")
                    .concat(dec_usize(*rows).as_str()).concat("x").concat(dec_usize(*cols).as_str())
            },
            Kernel::MatvecQkv { q_rows, kv_rows, cols, wq, wk, wv } => {
                String::from_str("mv_qkv_").concat(weight_cache_tag(*wq)).concat("_")
                    .concat(weight_cache_tag(*wk)).concat("_").concat(weight_cache_tag(*wv))
                    .concat("_").concat(dec_usize(*q_rows).as_str()).concat("x")
                    .concat(dec_usize(*kv_rows).as_str()).concat("x")
                    .concat(dec_usize(*cols).as_str())
            },
            Kernel::RmsNormMatvec { rows, cols, eps, weight } => {
                String::from_str("rms_mv_").concat(weight_cache_tag(*weight)).concat("_")
                    .concat(dec_usize(*rows).as_str()).concat("x").concat(dec_usize(*cols).as_str())
                    .concat("_").concat(dec_text(*eps as u64).as_str())
            },
            Kernel::RmsNormMatvecQkv { q_rows, kv_rows, cols, eps, wq, wk, wv } => {
                String::from_str("rms_mv_qkv_").concat(weight_cache_tag(*wq)).concat("_")
                    .concat(weight_cache_tag(*wk)).concat("_").concat(weight_cache_tag(*wv))
                    .concat("_").concat(dec_usize(*q_rows).as_str()).concat("x")
                    .concat(dec_usize(*kv_rows).as_str()).concat("x")
                    .concat(dec_usize(*cols).as_str()).concat("_")
                    .concat(dec_text(*eps as u64).as_str())
            },
            Kernel::RmsNorm { n, eps } => {
                String::from_str("rms_f16_").concat(dec_usize(*n).as_str()).concat("_")
                    .concat(dec_text(*eps as u64).as_str())
            },
            Kernel::RmsNormAdd { n, eps } => {
                String::from_str("rms_f16_add_").concat(dec_usize(*n).as_str()).concat("_")
                    .concat(dec_text(*eps as u64).as_str())
            },
            Kernel::RmsNormAddScale { n, eps, scale } => {
                String::from_str("rms_f16_add_sc_").concat(dec_usize(*n).as_str()).concat("_")
                    .concat(dec_text(*eps as u64).as_str()).concat("_")
                    .concat(dec_text(*scale as u64).as_str())
            },
            Kernel::RmsNormAddThenRmsNorm { n, eps } => {
                String::from_str("rms_f16_add_then_rms_").concat(dec_usize(*n).as_str()).concat("_")
                    .concat(dec_text(*eps as u64).as_str())
            },
            Kernel::RmsNormPerHead { n_heads, hd, eps } => {
                String::from_str("rms_f16_ph_").concat(dec_usize(*n_heads).as_str()).concat("_")
                    .concat(dec_usize(*hd).as_str()).concat("_")
                    .concat(dec_text(*eps as u64).as_str())
            },
            Kernel::RmsNormPerHeadRope { n_heads, hd, eps } => {
                String::from_str("rms_f16_ph_rope_").concat(dec_usize(*n_heads).as_str())
                    .concat("_").concat(dec_usize(*hd).as_str()).concat("_")
                    .concat(dec_text(*eps as u64).as_str())
            },
            Kernel::RmsNormNoWeight { n_heads, hd, eps } => {
                String::from_str("rms_f16_nw_").concat(dec_usize(*n_heads).as_str()).concat("_")
                    .concat(dec_usize(*hd).as_str()).concat("_")
                    .concat(dec_text(*eps as u64).as_str())
            },
            Kernel::Add { n } => String::from_str("add_f16_").concat(dec_usize(*n).as_str()),
            Kernel::GeluMul { n, up_off } => {
                String::from_str("gelu_f16_").concat(dec_usize(*n).as_str()).concat("_")
                    .concat(dec_usize(*up_off).as_str())
            },
            Kernel::MatvecGeluMul { rows, cols, weight } => {
                String::from_str("mv_gelu_mul_").concat(weight_cache_tag(*weight)).concat("_")
                    .concat(dec_usize(*rows).as_str()).concat("x").concat(dec_usize(*cols).as_str())
            },
            Kernel::MatvecGeluMulProj { gate_rows, cols, proj_rows, weight, eps, scale } => {
                String::from_str("mv_gelu_proj_rms_").concat(weight_cache_tag(*weight)).concat("_")
                    .concat(dec_usize(*gate_rows).as_str()).concat("x")
                    .concat(dec_usize(*cols).as_str()).concat("_")
                    .concat(dec_usize(*proj_rows).as_str()).concat("_")
                    .concat(dec_text(*eps as u64).as_str()).concat("_")
                    .concat(dec_text(*scale as u64).as_str())
            },
            Kernel::AddScale { n, scale } => {
                String::from_str("add_sc_f16_").concat(dec_usize(*n).as_str()).concat("_")
                    .concat(dec_text(*scale as u64).as_str())
            },
            Kernel::GateUpGelu { rows, cols, weight } => {
                String::from_str("mv_gate_up_gelu_").concat(weight_cache_tag(*weight)).concat("_")
                    .concat(dec_usize(*rows).as_str()).concat("x").concat(dec_usize(*cols).as_str())
            },
            Kernel::RmsNormGateUpGelu { rows, cols, eps, weight } => {
                String::from_str("rms_mv_gate_up_gelu_").concat(weight_cache_tag(*weight))
                    .concat("_").concat(dec_usize(*rows).as_str()).concat("x")
                    .concat(dec_usize(*cols).as_str()).concat("_")
                    .concat(dec_text(*eps as u64).as_str())
            },
            Kernel::ScaleConst { n, scale } => {
                String::from_str("sc_f16_").concat(dec_usize(*n).as_str()).concat("_")
                    .concat(dec_text(*scale as u64).as_str())
            },
            Kernel::Rope { n_heads, hd } => {
                String::from_str("rope_f16_").concat(dec_usize(*n_heads).as_str()).concat("_")
                    .concat(dec_usize(*hd).as_str())
            },
            Kernel::Sdpa { n_q, hd, max_t, kv } => {
                String::from_str("sdpa_f16_").concat(dec_usize(*n_q).as_str()).concat("_")
                    .concat(dec_usize(*hd).as_str()).concat("_").concat(dec_usize(*max_t).as_str())
                    .concat("_").concat(kv.label_text())
            },
            Kernel::SdpaMwgPart { n_q, hd, max_t, nwg, kv } => {
                String::from_str("sdpa_mwg_part_").concat(dec_usize(*n_q).as_str()).concat("_")
                    .concat(dec_usize(*hd).as_str()).concat("_").concat(dec_usize(*max_t).as_str())
                    .concat("_").concat(dec_usize(*nwg).as_str()).concat("_")
                    .concat(kv.label_text())
            },
            Kernel::SdpaMwgReduce { n_q, hd, nwg } => {
                String::from_str("sdpa_mwg_reduce_").concat(dec_usize(*n_q).as_str()).concat("_")
                    .concat(dec_usize(*hd).as_str()).concat("_").concat(dec_usize(*nwg).as_str())
            },
            Kernel::QuantizeQ40 { n } => {
                String::from_str("q40_pack_").concat(dec_usize(*n).as_str())
            },
            Kernel::RmsNormPerHeadRopeQ40 { n_heads, hd, eps } => {
                String::from_str("rms_ph_rope_q40_").concat(dec_usize(*n_heads).as_str())
                    .concat("_").concat(dec_usize(*hd).as_str()).concat("_")
                    .concat(dec_text(*eps as u64).as_str())
            },
            Kernel::RmsNormPerHeadQ40 { n_heads, hd, eps } => {
                String::from_str("rms_ph_q40_").concat(dec_usize(*n_heads).as_str()).concat("_")
                    .concat(dec_usize(*hd).as_str()).concat("_")
                    .concat(dec_text(*eps as u64).as_str())
            },
            Kernel::CopySlice { n, src_off, dst_off } => {
                String::from_str("csl_f16_").concat(dec_usize(*n).as_str()).concat("_")
                    .concat(dec_usize(*src_off).as_str()).concat("_")
                    .concat(dec_usize(*dst_off).as_str())
            },
            Kernel::CopyScale { n, scale, dtype } => {
                String::from_str("csl_sc_").concat(weight_cache_tag(*dtype)).concat("_")
                    .concat(dec_usize(*n).as_str()).concat("_")
                    .concat(dec_text(*scale as u64).as_str())
            },
            Kernel::SoftcapArgmax { n, cap } => {
                String::from_str("sca_f16_").concat(dec_usize(*n).as_str()).concat("_")
                    .concat(dec_text(*cap as u64).as_str())
            },
        }
    }

    /// Whether the sizes of the kernel are machine integers, and its head size one that attention
    /// and packing are built for.
    pub open spec fn fits(self) -> bool {
        match self {
            Kernel::RmsNormPerHead { n_heads, hd, .. } => n_heads * hd <= usize::MAX,
            Kernel::RmsNormPerHeadRope { n_heads, hd, .. } => n_heads * hd <= usize::MAX,
            Kernel::RmsNormNoWeight { n_heads, hd, .. } => n_heads * hd <= usize::MAX,
            Kernel::GeluMul { n, up_off } => up_off + n <= usize::MAX,
            Kernel::Rope { n_heads, hd } => n_heads * hd <= usize::MAX,
            Kernel::Sdpa { n_q, hd, max_t, .. } => {
                n_q * hd <= usize::MAX && max_t * hd <= usize::MAX && hd % 32 == 0 && 0 < hd <= 4096
            },
            Kernel::SdpaMwgPart { n_q, hd, max_t, nwg, .. } => {
                n_q * hd <= usize::MAX
                    && max_t * hd <= usize::MAX
                    && n_q * nwg * (hd + 2) <= usize::MAX
                    && n_q * nwg <= usize::MAX
                    && hd + 2 <= usize::MAX
            },
            Kernel::SdpaMwgReduce { n_q, hd, nwg } => {
                n_q * nwg * (hd + 2) <= usize::MAX
                    && n_q * hd <= usize::MAX
                    && n_q * nwg <= usize::MAX
                    && hd + 2 <= usize::MAX
            },
            Kernel::RmsNormPerHeadRopeQ40 { n_heads, hd, .. } => {
                n_heads * hd <= usize::MAX && hd % 32 == 0
            },
            Kernel::RmsNormPerHeadQ40 { n_heads, hd, .. } => {
                n_heads * hd <= usize::MAX && hd % 32 == 0
            },
            Kernel::CopySlice { n, src_off, .. } => src_off + n <= usize::MAX,
            _ => true,
        }
    }

    /// The graph that the kernel computes, from the buffers it reads as inputs.
    pub open spec fn recipe(self) -> Step {
        match self {
            Kernel::Matvec { rows, cols, weight } => {
                given(
                    given(no_nodes(), seq![rows, cols], weight),
                    seq![cols],
                    DType::F16,
                ).matvec_step(TensorId(0), TensorId(1))
            },
            Kernel::MatvecQkv { q_rows, kv_rows, cols, wq, wk, wv } => {
                given(
                    given(
                        given(given(no_nodes(), seq![q_rows, cols], wq), seq![kv_rows, cols], wk),
                        seq![kv_rows, cols],
                        wv,
                    ),
                    seq![cols],
                    DType::F16,
                ).qkv_step(TensorId(0), TensorId(1), TensorId(2), TensorId(3))
            },
            Kernel::RmsNormMatvec { rows, cols, eps, weight } => {
                given(
                    given(given(no_nodes(), seq![rows, cols], weight), seq![cols], DType::F16),
                    seq![cols],
                    DType::F16,
                ).rmsnorm_matvec_step(TensorId(0), TensorId(1), TensorId(2), Scalar::Bits(eps))
            },
            Kernel::RmsNormMatvecQkv { q_rows, kv_rows, cols, eps, wq, wk, wv } => {
                given(
                    given(
                        given(
                            given(
                                given(no_nodes(), seq![q_rows, cols], wq),
                                seq![kv_rows, cols],
                                wk,
                            ),
                            seq![kv_rows, cols],
                            wv,
                        ),
                        seq![cols],
                        DType::F16,
                    ),
                    seq![cols],
                    DType::F16,
                ).rmsnorm_qkv_step(TensorId(0), TensorId(1), TensorId(2), TensorId(3), TensorId(4), Scalar::Bits(eps))
            },
            Kernel::RmsNorm { n, eps } => {
                given(
                    given(no_nodes(), seq![n], DType::F16),
                    seq![n],
                    DType::F16,
                ).rmsnorm_step(TensorId(0), TensorId(1), Scalar::Bits(eps))
            },
            Kernel::RmsNormAdd { n, eps } => {
                given(
                    given(given(no_nodes(), seq![n], DType::F16), seq![n], DType::F16),
                    seq![n],
                    DType::F16,
                ).rmsnorm_add_step(TensorId(0), TensorId(1), TensorId(2), Scalar::Bits(eps))
            },
            Kernel::RmsNormAddScale { n, eps, scale } => {
                given(
                    given(given(no_nodes(), seq![n], DType::F16), seq![n], DType::F16),
                    seq![n],
                    DType::F16,
                ).rmsnorm_add_scale_step(TensorId(0), TensorId(1), TensorId(2), Scalar::Bits(eps), Scalar::Bits(scale))
            },
            Kernel::RmsNormAddThenRmsNorm { n, eps } => {
                given(
                    given(
                        given(given(no_nodes(), seq![n], DType::F16), seq![n], DType::F16),
                        seq![n],
                        DType::F16,
                    ),
                    seq![n],
                    DType::F16,
                ).called(
                    seq![TensorId(0), TensorId(1), TensorId(2), TensorId(3)],
                    seq![n],
                    DType::F16,
                    FuseHint::RmsNormAddThenRmsNorm {
                        n,
                        eps: Scalar::Bits(eps),
                        y: TensorId(0),
                        w_post: TensorId(1),
                        residual: TensorId(2),
                        w_ffn: TensorId(3),
                    },
                )
            },
            Kernel::RmsNormPerHead { n_heads, hd, eps } => {
                given(
                    given(no_nodes(), seq![(n_heads * hd) as usize], DType::F16),
                    seq![hd],
                    DType::F16,
                ).per_head_step(
                    TensorId(0),
                    n_heads,
                    hd,
                    seq![TensorId(0), TensorId(1)],
                    FuseHint::RmsNormPerHead {
                        n_heads,
                        hd,
                        eps: Scalar::Bits(eps),
                        with_weight: true,
                        x: TensorId(0),
                        w: TensorId(1),
                    },
                )
            },
            Kernel::RmsNormPerHeadRope { n_heads, hd, eps } => {
                given(
                    given(
                        given(no_nodes(), seq![(n_heads * hd) as usize], DType::F16),
                        seq![hd],
                        DType::F16,
                    ),
                    seq![hd],
                    DType::F16,
                ).per_head_step(
                    TensorId(0),
                    n_heads,
                    hd,
                    seq![TensorId(0), TensorId(1), TensorId(2)],
                    FuseHint::RmsNormPerHeadRope {
                        n_heads,
                        hd,
                        eps: Scalar::Bits(eps),
                        with_weight: true,
                        x: TensorId(0),
                        w: TensorId(1),
                        cos_sin: TensorId(2),
                    },
                )
            },
            Kernel::RmsNormNoWeight { n_heads, hd, eps } => {
                given(
                    given(no_nodes(), seq![(n_heads * hd) as usize], DType::F16),
                    seq![hd],
                    DType::F16,
                ).per_head_step(
                    TensorId(0),
                    n_heads,
                    hd,
                    seq![TensorId(0), TensorId(1)],
                    FuseHint::RmsNormPerHead {
                        n_heads,
                        hd,
                        eps: Scalar::Bits(eps),
                        with_weight: false,
                        x: TensorId(0),
                        w: TensorId(1),
                    },
                )
            },
            Kernel::Add { n } => {
                given(
                    given(no_nodes(), seq![n], DType::F16),
                    seq![n],
                    DType::F16,
                ).add_step(TensorId(0), TensorId(1))
            },
            Kernel::GeluMul { n, up_off } => {
                given(
                    given(no_nodes(), seq![n], DType::F16),
                    seq![(up_off + n) as usize],
                    DType::F16,
                ).gelu_mul_step(TensorId(0), TensorId(1), up_off)
            },
            Kernel::MatvecGeluMul { rows, cols, weight } => {
                given(
                    given(given(no_nodes(), seq![rows, cols], weight), seq![cols], DType::F16),
                    seq![rows],
                    DType::F16,
                ).called(
                    seq![TensorId(0), TensorId(1), TensorId(2)],
                    seq![rows],
                    DType::F16,
                    FuseHint::MatvecGeluMul {
                        rows,
                        cols,
                        ctx_off: 0,
                        w: TensorId(0),
                        x: TensorId(1),
                        ctx: TensorId(2),
                    },
                )
            },
            Kernel::MatvecGeluMulProj { gate_rows, cols, proj_rows, weight, eps, scale } => {
                given(
                    given(
                        given(
                            given(
                                given(
                                    given(no_nodes(), seq![gate_rows, cols], weight),
                                    seq![cols],
                                    DType::F16,
                                ),
                                seq![gate_rows],
                                DType::F16,
                            ),
                            seq![proj_rows, gate_rows],
                            weight,
                        ),
                        seq![proj_rows],
                        DType::F16,
                    ),
                    seq![proj_rows],
                    DType::F16,
                ).called(
                    seq![
                        TensorId(0),
                        TensorId(1),
                        TensorId(2),
                        TensorId(3),
                        TensorId(4),
                        TensorId(5),
                    ],
                    seq![proj_rows],
                    DType::F16,
                    FuseHint::MatvecGeluMulProjRmsAddScale {
                        gate_rows,
                        cols,
                        proj_rows,
                        ctx_off: 0,
                        eps: Scalar::Bits(eps),
                        scale: Scalar::Bits(scale),
                        w_gate: TensorId(0),
                        x: TensorId(1),
                        ctx: TensorId(2),
                        w_proj: TensorId(3),
                        w_norm: TensorId(4),
                        residual: TensorId(5),
                    },
                )
            },
            Kernel::AddScale { n, scale } => match given(
                given(no_nodes(), seq![n], DType::F16),
                seq![n],
                DType::F16,
            ).add_step(TensorId(0), TensorId(1)) {
                (g, Ok(s)) => g.scale_step(s, Scalar::Bits(scale)),
                (g, Err(e)) => (g, Err(e)),
            },
            Kernel::GateUpGelu { rows, cols, weight } => {
                given(
                    given(given(no_nodes(), seq![rows, cols], weight), seq![rows, cols], weight),
                    seq![cols],
                    DType::F16,
                ).gate_up_step(TensorId(0), TensorId(1), TensorId(2))
            },
            Kernel::RmsNormGateUpGelu { rows, cols, eps, weight } => {
                given(
                    given(
                        given(
                            given(no_nodes(), seq![rows, cols], weight),
                            seq![rows, cols],
                            weight,
                        ),
                        seq![cols],
                        DType::F16,
                    ),
                    seq![cols],
                    DType::F16,
                ).rmsnorm_gate_up_step(TensorId(0), TensorId(1), TensorId(2), TensorId(3), Scalar::Bits(eps))
            },
            Kernel::ScaleConst { n, scale } => {
                given(no_nodes(), seq![n], DType::F16).scale_step(TensorId(0), Scalar::Bits(scale))
            },
            Kernel::Rope { n_heads, hd } => {
                given(
                    given(no_nodes(), seq![(n_heads * hd) as usize], DType::F16),
                    seq![hd],
                    DType::F16,
                ).per_head_step(
                    TensorId(0),
                    n_heads,
                    hd,
                    seq![TensorId(0), TensorId(1)],
                    FuseHint::Rope { n_heads, hd, x: TensorId(0), cos_sin: TensorId(1) },
                )
            },
            Kernel::Sdpa { n_q, hd, max_t, kv } => {
                given(
                    given(
                        given(
                            given(no_nodes(), seq![(n_q * hd) as usize], DType::F16),
                            seq![(max_t * hd) as usize],
                            kv,
                        ),
                        seq![(max_t * hd) as usize],
                        kv,
                    ),
                    seq![2usize],
                    DType::F16,
                ).sdpa_step(TensorId(0), TensorId(1), TensorId(2), TensorId(3), n_q, hd, max_t)
            },
            Kernel::SdpaMwgPart { n_q, hd, max_t, nwg, kv } => {
                given(
                    given(
                        given(
                            given(no_nodes(), seq![(n_q * hd) as usize], DType::F16),
                            seq![(max_t * hd) as usize],
                            kv,
                        ),
                        seq![(max_t * hd) as usize],
                        kv,
                    ),
                    seq![2usize],
                    DType::F16,
                ).called(
                    seq![TensorId(0), TensorId(1), TensorId(2), TensorId(3)],
                    seq![(n_q * nwg * (hd + 2)) as usize],
                    DType::F32,
                    FuseHint::SdpaMwgPart {
                        n_q,
                        hd,
                        max_t,
                        nwg,
                        q: TensorId(0),
                        k: TensorId(1),
                        v: TensorId(2),
                        meta: TensorId(3),
                        kv_dtype: kv,
                    },
                )
            },
            Kernel::SdpaMwgReduce { n_q, hd, nwg } => {
                given(no_nodes(), seq![(n_q * nwg * (hd + 2)) as usize], DType::F32).called(
                    seq![TensorId(0)],
                    seq![(n_q * hd) as usize],
                    DType::F16,
                    FuseHint::SdpaMwgReduce { n_q, hd, nwg, tmp: TensorId(0) },
                )
            },
            Kernel::QuantizeQ40 { n } => {
                given(no_nodes(), seq![n], DType::F16).called(
                    seq![TensorId(0)],
                    seq![n],
                    DType::Q40,
                    FuseHint::QuantizeQ40 { n, src: TensorId(0) },
                )
            },
            Kernel::RmsNormPerHeadRopeQ40 { n_heads, hd, eps } => {
                given(
                    given(
                        given(no_nodes(), seq![(n_heads * hd) as usize], DType::F16),
                        seq![hd],
                        DType::F16,
                    ),
                    seq![hd],
                    DType::F16,
                ).called(
                    seq![TensorId(0), TensorId(1), TensorId(2)],
                    seq![(n_heads * hd) as usize],
                    DType::Q40,
                    FuseHint::RmsNormPerHeadRopeQ40 {
                        n_heads,
                        hd,
                        eps: Scalar::Bits(eps),
                        with_weight: true,
                        x: TensorId(0),
                        w: TensorId(1),
                        cos_sin: TensorId(2),
                    },
                )
            },
            Kernel::RmsNormPerHeadQ40 { n_heads, hd, eps } => {
                given(
                    given(no_nodes(), seq![(n_heads * hd) as usize], DType::F16),
                    seq![hd],
                    DType::F16,
                ).called(
                    seq![TensorId(0), TensorId(1)],
                    seq![(n_heads * hd) as usize],
                    DType::Q40,
                    FuseHint::RmsNormPerHeadQ40 {
                        n_heads,
                        hd,
                        eps: Scalar::Bits(eps),
                        with_weight: false,
                        x: TensorId(0),
                        w: TensorId(1),
                    },
                )
            },
            Kernel::CopySlice { n, src_off, dst_off } => {
                given(
                    no_nodes(),
                    seq![(src_off + n) as usize],
                    DType::F16,
                ).copy_slice_step(TensorId(0), src_off, dst_off, n)
            },
            Kernel::CopyScale { n, scale, dtype } => {
                given(no_nodes(), seq![n], dtype).copy_scale_step(
                    TensorId(0),
                    0,
                    0,
                    n,
                    Scalar::Bits(scale),
                )
            },
            Kernel::SoftcapArgmax { n, cap } => {
                given(
                    no_nodes(),
                    seq![n],
                    DType::F16,
                ).softcap_argmax_step(TensorId(0), Scalar::Bits(cap))
            },
        }
    }

    /// Builds the graph that the kernel computes.
    pub fn graph(&self) -> (r: (Graph, Result<TensorId, IrError>))
        requires
            self.fits(),
        ensures
            (r.0@, r.1) == self.recipe(),
    {
        let mut g: Graph = Graph::new();
        proof {
            assert forall|s: Seq<usize>| s.len() == 1 implies #[trigger] product_fits(s) by {
                lemma_vector_fits(s);
            }
        }
        let out = match *self {
            Kernel::Matvec { rows, cols, weight } => {
                let _ = g.input(matrix_shape(rows, cols), weight);
                let _ = g.input(vector_shape(cols), DType::F16);
                g.matvec_prim(TensorId(0), TensorId(1))
            },
            Kernel::MatvecQkv { q_rows, kv_rows, cols, wq, wk, wv } => {
                let _ = g.input(matrix_shape(q_rows, cols), wq);
                let _ = g.input(matrix_shape(kv_rows, cols), wk);
                let _ = g.input(matrix_shape(kv_rows, cols), wv);
                let _ = g.input(vector_shape(cols), DType::F16);
                g.matvec_qkv(TensorId(0), TensorId(1), TensorId(2), TensorId(3))
            },
            Kernel::RmsNormMatvec { rows, cols, eps, weight } => {
                let _ = g.input(matrix_shape(rows, cols), weight);
                let _ = g.input(vector_shape(cols), DType::F16);
                let _ = g.input(vector_shape(cols), DType::F16);
                g.rmsnorm_matvec(TensorId(0), TensorId(1), TensorId(2), Scalar::Bits(eps))
            },
            Kernel::RmsNormMatvecQkv { q_rows, kv_rows, cols, eps, wq, wk, wv } => {
                let _ = g.input(matrix_shape(q_rows, cols), wq);
                let _ = g.input(matrix_shape(kv_rows, cols), wk);
                let _ = g.input(matrix_shape(kv_rows, cols), wv);
                let _ = g.input(vector_shape(cols), DType::F16);
                let _ = g.input(vector_shape(cols), DType::F16);
                g.rmsnorm_matvec_qkv(
                    TensorId(0),
                    TensorId(1),
                    TensorId(2),
                    TensorId(3),
                    TensorId(4),
                    Scalar::Bits(eps),
                )
            },
            Kernel::RmsNorm { n, eps } => {
                let _ = g.input(vector_shape(n), DType::F16);
                let _ = g.input(vector_shape(n), DType::F16);
                g.rmsnorm_expand(TensorId(0), TensorId(1), Scalar::Bits(eps))
            },
            Kernel::RmsNormAdd { n, eps } => {
                let _ = g.input(vector_shape(n), DType::F16);
                let _ = g.input(vector_shape(n), DType::F16);
                let _ = g.input(vector_shape(n), DType::F16);
                g.rmsnorm_add_expand(TensorId(0), TensorId(1), TensorId(2), Scalar::Bits(eps))
            },
            Kernel::RmsNormAddScale { n, eps, scale } => {
                let _ = g.input(vector_shape(n), DType::F16);
                let _ = g.input(vector_shape(n), DType::F16);
                let _ = g.input(vector_shape(n), DType::F16);
                g.rmsnorm_add_scale_expand(
                    TensorId(0),
                    TensorId(1),
                    TensorId(2),
                    Scalar::Bits(eps),
                    Scalar::Bits(scale),
                )
            },
            Kernel::RmsNormAddThenRmsNorm { n, eps } => {
                let _ = g.input(vector_shape(n), DType::F16);
                let _ = g.input(vector_shape(n), DType::F16);
                let _ = g.input(vector_shape(n), DType::F16);
                let _ = g.input(vector_shape(n), DType::F16);
                let ids = first_ids(4);
                assert(ids@ =~= seq![TensorId(0), TensorId(1), TensorId(2), TensorId(3)]);
                let hint = FuseHint::RmsNormAddThenRmsNorm {
                    n,
                    eps: Scalar::Bits(eps),
                    y: TensorId(0),
                    w_post: TensorId(1),
                    residual: TensorId(2),
                    w_ffn: TensorId(3),
                };
                Ok(g.call(ids, vector_shape(n), DType::F16, hint))
            },
            Kernel::RmsNormPerHead { n_heads, hd, eps } => {
                let _ = g.input(vector_shape(n_heads * hd), DType::F16);
                let _ = g.input(vector_shape(hd), DType::F16);
                g.rmsnorm_per_head(TensorId(0), TensorId(1), n_heads, hd, Scalar::Bits(eps), true)
            },
            Kernel::RmsNormPerHeadRope { n_heads, hd, eps } => {
                let _ = g.input(vector_shape(n_heads * hd), DType::F16);
                let _ = g.input(vector_shape(hd), DType::F16);
                let _ = g.input(vector_shape(hd), DType::F16);
                g.rmsnorm_per_head_rope(
                    TensorId(0),
                    TensorId(1),
                    TensorId(2),
                    n_heads,
                    hd,
                    Scalar::Bits(eps),
                    true,
                )
            },
            Kernel::RmsNormNoWeight { n_heads, hd, eps } => {
                let _ = g.input(vector_shape(n_heads * hd), DType::F16);
                let _ = g.input(vector_shape(hd), DType::F16);
                g.rmsnorm_per_head(TensorId(0), TensorId(1), n_heads, hd, Scalar::Bits(eps), false)
            },
            Kernel::Add { n } => {
                let _ = g.input(vector_shape(n), DType::F16);
                let _ = g.input(vector_shape(n), DType::F16);
                g.add(TensorId(0), TensorId(1))
            },
            Kernel::GeluMul { n, up_off } => {
                let _ = g.input(vector_shape(n), DType::F16);
                let _ = g.input(vector_shape(up_off + n), DType::F16);
                g.gelu_mul_at(TensorId(0), TensorId(1), up_off)
            },
            Kernel::MatvecGeluMul { rows, cols, weight } => {
                let _ = g.input(matrix_shape(rows, cols), weight);
                let _ = g.input(vector_shape(cols), DType::F16);
                let _ = g.input(vector_shape(rows), DType::F16);
                let ids = first_ids(3);
                assert(ids@ =~= seq![TensorId(0), TensorId(1), TensorId(2)]);
                let hint = FuseHint::MatvecGeluMul {
                    rows,
                    cols,
                    ctx_off: 0,
                    w: TensorId(0),
                    x: TensorId(1),
                    ctx: TensorId(2),
                };
                Ok(g.call(ids, vector_shape(rows), DType::F16, hint))
            },
            Kernel::MatvecGeluMulProj { gate_rows, cols, proj_rows, weight, eps, scale } => {
                let _ = g.input(matrix_shape(gate_rows, cols), weight);
                let _ = g.input(vector_shape(cols), DType::F16);
                let _ = g.input(vector_shape(gate_rows), DType::F16);
                let _ = g.input(matrix_shape(proj_rows, gate_rows), weight);
                let _ = g.input(vector_shape(proj_rows), DType::F16);
                let _ = g.input(vector_shape(proj_rows), DType::F16);
                let ids = first_ids(6);
                assert(
                    ids@ =~= seq![
                        TensorId(0),
                        TensorId(1),
                        TensorId(2),
                        TensorId(3),
                        TensorId(4),
                        TensorId(5),
                    ]
                );
                let hint = FuseHint::MatvecGeluMulProjRmsAddScale {
                    gate_rows,
                    cols,
                    proj_rows,
                    ctx_off: 0,
                    eps: Scalar::Bits(eps),
                    scale: Scalar::Bits(scale),
                    w_gate: TensorId(0),
                    x: TensorId(1),
                    ctx: TensorId(2),
                    w_proj: TensorId(3),
                    w_norm: TensorId(4),
                    residual: TensorId(5),
                };
                Ok(g.call(ids, vector_shape(proj_rows), DType::F16, hint))
            },
            Kernel::AddScale { n, scale } => {
                let _ = g.input(vector_shape(n), DType::F16);
                let _ = g.input(vector_shape(n), DType::F16);
                match g.add(TensorId(0), TensorId(1)) {
                    Ok(s) => g.scale_const(s, Scalar::Bits(scale)),
                    Err(e) => Err(e),
                }
            },
            Kernel::GateUpGelu { rows, cols, weight } => {
                let _ = g.input(matrix_shape(rows, cols), weight);
                let _ = g.input(matrix_shape(rows, cols), weight);
                let _ = g.input(vector_shape(cols), DType::F16);
                g.matvec_gate_up_gelu(TensorId(0), TensorId(1), TensorId(2))
            },
            Kernel::RmsNormGateUpGelu { rows, cols, eps, weight } => {
                let _ = g.input(matrix_shape(rows, cols), weight);
                let _ = g.input(matrix_shape(rows, cols), weight);
                let _ = g.input(vector_shape(cols), DType::F16);
                let _ = g.input(vector_shape(cols), DType::F16);
                g.rmsnorm_matvec_gate_up_gelu(
                    TensorId(0),
                    TensorId(1),
                    TensorId(2),
                    TensorId(3),
                    Scalar::Bits(eps),
                )
            },
            Kernel::ScaleConst { n, scale } => {
                let _ = g.input(vector_shape(n), DType::F16);
                g.scale_const(TensorId(0), Scalar::Bits(scale))
            },
            Kernel::Rope { n_heads, hd } => {
                let _ = g.input(vector_shape(n_heads * hd), DType::F16);
                let _ = g.input(vector_shape(hd), DType::F16);
                g.rope(TensorId(0), TensorId(1), n_heads, hd)
            },
            Kernel::Sdpa { n_q, hd, max_t, kv } => {
                let _ = g.input(vector_shape(n_q * hd), DType::F16);
                let _ = g.input(vector_shape(max_t * hd), kv);
                let _ = g.input(vector_shape(max_t * hd), kv);
                let _ = g.input(vector_shape(2usize), DType::F16);
                g.sdpa_naive(TensorId(0), TensorId(1), TensorId(2), TensorId(3), n_q, hd, max_t)
            },
            Kernel::SdpaMwgPart { n_q, hd, max_t, nwg, kv } => {
                let _ = g.input(vector_shape(n_q * hd), DType::F16);
                let _ = g.input(vector_shape(max_t * hd), kv);
                let _ = g.input(vector_shape(max_t * hd), kv);
                let _ = g.input(vector_shape(2usize), DType::F16);
                let ids = first_ids(4);
                assert(ids@ =~= seq![TensorId(0), TensorId(1), TensorId(2), TensorId(3)]);
                let hint = FuseHint::SdpaMwgPart {
                    n_q,
                    hd,
                    max_t,
                    nwg,
                    q: TensorId(0),
                    k: TensorId(1),
                    v: TensorId(2),
                    meta: TensorId(3),
                    kv_dtype: kv,
                };
                Ok(g.call(ids, vector_shape(n_q * nwg * (hd + 2)), DType::F32, hint))
            },
            Kernel::SdpaMwgReduce { n_q, hd, nwg } => {
                let _ = g.input(vector_shape(n_q * nwg * (hd + 2)), DType::F32);
                let ids = first_ids(1);
                assert(ids@ =~= seq![TensorId(0)]);
                let hint = FuseHint::SdpaMwgReduce { n_q, hd, nwg, tmp: TensorId(0) };
                Ok(g.call(ids, vector_shape(n_q * hd), DType::F16, hint))
            },
            Kernel::QuantizeQ40 { n } => {
                let _ = g.input(vector_shape(n), DType::F16);
                let ids = first_ids(1);
                assert(ids@ =~= seq![TensorId(0)]);
                let hint = FuseHint::QuantizeQ40 { n, src: TensorId(0) };
                Ok(g.call(ids, vector_shape(n), DType::Q40, hint))
            },
            Kernel::RmsNormPerHeadRopeQ40 { n_heads, hd, eps } => {
                let _ = g.input(vector_shape(n_heads * hd), DType::F16);
                let _ = g.input(vector_shape(hd), DType::F16);
                let _ = g.input(vector_shape(hd), DType::F16);
                let ids = first_ids(3);
                assert(ids@ =~= seq![TensorId(0), TensorId(1), TensorId(2)]);
                let hint = FuseHint::RmsNormPerHeadRopeQ40 {
                    n_heads,
                    hd,
                    eps: Scalar::Bits(eps),
                    with_weight: true,
                    x: TensorId(0),
                    w: TensorId(1),
                    cos_sin: TensorId(2),
                };
                Ok(g.call(ids, vector_shape(n_heads * hd), DType::Q40, hint))
            },
            Kernel::RmsNormPerHeadQ40 { n_heads, hd, eps } => {
                let _ = g.input(vector_shape(n_heads * hd), DType::F16);
                let _ = g.input(vector_shape(hd), DType::F16);
                let ids = first_ids(2);
                assert(ids@ =~= seq![TensorId(0), TensorId(1)]);
                let hint = FuseHint::RmsNormPerHeadQ40 {
                    n_heads,
                    hd,
                    eps: Scalar::Bits(eps),
                    with_weight: false,
                    x: TensorId(0),
                    w: TensorId(1),
                };
                Ok(g.call(ids, vector_shape(n_heads * hd), DType::Q40, hint))
            },
            Kernel::CopySlice { n, src_off, dst_off } => {
                let _ = g.input(vector_shape(src_off + n), DType::F16);
                g.copy_slice(TensorId(0), src_off, dst_off, n)
            },
            Kernel::CopyScale { n, scale, dtype } => {
                let _ = g.input(vector_shape(n), dtype);
                g.copy_scale(TensorId(0), 0, 0, n, Scalar::Bits(scale))
            },
            Kernel::SoftcapArgmax { n, cap } => {
                let _ = g.input(vector_shape(n), DType::F16);
                g.softcap_argmax(TensorId(0), Scalar::Bits(cap))
            },
        };
        (g, out)
    }
}

fn first_ids(n: u32) -> (r: Vec<TensorId>)
    ensures
        r@ == Seq::new(n as nat, |i: int| TensorId(i as u32)),
{
    let mut v: Vec<TensorId> = Vec::new();
    let mut i: u32 = 0;
    while i < n
        invariant
            i <= n,
            v@ == Seq::new(i as nat, |j: int| TensorId(j as u32)),
        decreases n - i,
    {
        v.push(TensorId(i));
        assert(v@ =~= Seq::new((i + 1) as nat, |j: int| TensorId(j as u32)));
        i += 1;
    }
    v
}

/// Only the kernels of attention and packing have a head size to mind, and only through a hint.
proof fn lemma_heads(g: GraphV, out: TensorId)
    requires
        g.hints.contains_key(out.0) ==> match g.hints[out.0] {
            FuseHint::SdpaNaive { hd, .. } => hd % 32 == 0 && 0 < hd <= 4096,
            FuseHint::RmsNormPerHeadRopeQ40 { hd, .. } => hd % 32 == 0,
            FuseHint::RmsNormPerHeadQ40 { hd, .. } => hd % 32 == 0,
            _ => true,
        },
    ensures
        match scheduled(g, out) {
            Ok(sk) => head_ok(sk.kind),
            Err(_) => true,
        },
{
}

/// Whether the last step of a recipe can be scheduled.
spec fn ready(s: Step) -> bool {
    match s.1 {
        Ok(out) => region_ok(s.0, out) && matrix_ranked(s.0, out),
        Err(_) => true,
    }
}

proof fn lemma_ready(g: GraphV, s: Step)
    requires
        grows(g, s),
        s.1 matches Ok(out) ==> {
            &&& s.0.shape(out).len() == 1
            &&& matrix_ranked(s.0, out)
            &&& s.0.hints.contains_key(out.0) ==> match s.0.hints[out.0] {
                FuseHint::SdpaNaive { hd, .. } => hd % 32 == 0 && 0 < hd <= 4096,
                FuseHint::RmsNormPerHeadRopeQ40 { hd, .. } => hd % 32 == 0,
                FuseHint::RmsNormPerHeadQ40 { hd, .. } => hd % 32 == 0,
                _ => true,
            }
        },
    ensures
        ready(s),
{
    if let Ok(out) = s.1 {
        lemma_heads(s.0, out);
        lemma_vector_fits(s.0.shape(out));
    }
}

proof fn lemma_matvec_ready(rows: usize, cols: usize, weight: DType)
    requires
        (Kernel::Matvec { rows, cols, weight }).fits(),
    ensures
        ready((Kernel::Matvec { rows, cols, weight }).recipe()),
{
    let g0 = no_nodes();
    lemma_build_grows(g0, Build::Input { shape: seq![rows, cols], dtype: weight });
    let g1 = given(g0, seq![rows, cols], weight);
    lemma_build_grows(g1, Build::Input { shape: seq![cols], dtype: DType::F16 });
    let g2 = given(g1, seq![cols], DType::F16);
    let b = Build::Matvec { w: TensorId(0), x: TensorId(1) };
    lemma_build_grows(g2, b);
    lemma_ready(g2, built(g2, b));
}

proof fn lemma_matvec_qkv_ready(
    q_rows: usize,
    kv_rows: usize,
    cols: usize,
    wq: DType,
    wk: DType,
    wv: DType,
)
    requires
        (Kernel::MatvecQkv { q_rows, kv_rows, cols, wq, wk, wv }).fits(),
    ensures
        ready((Kernel::MatvecQkv { q_rows, kv_rows, cols, wq, wk, wv }).recipe()),
{
    let g0 = no_nodes();
    lemma_build_grows(g0, Build::Input { shape: seq![q_rows, cols], dtype: wq });
    let g1 = given(g0, seq![q_rows, cols], wq);
    lemma_build_grows(g1, Build::Input { shape: seq![kv_rows, cols], dtype: wk });
    let g2 = given(g1, seq![kv_rows, cols], wk);
    lemma_build_grows(g2, Build::Input { shape: seq![kv_rows, cols], dtype: wv });
    let g3 = given(g2, seq![kv_rows, cols], wv);
    lemma_build_grows(g3, Build::Input { shape: seq![cols], dtype: DType::F16 });
    let g4 = given(g3, seq![cols], DType::F16);
    let b = Build::Qkv { wq: TensorId(0), wk: TensorId(1), wv: TensorId(2), x: TensorId(3) };
    lemma_build_grows(g4, b);
    lemma_ready(g4, built(g4, b));
}

proof fn lemma_rms_norm_matvec_ready(rows: usize, cols: usize, eps: u32, weight: DType)
    requires
        (Kernel::RmsNormMatvec { rows, cols, eps, weight }).fits(),
    ensures
        ready((Kernel::RmsNormMatvec { rows, cols, eps, weight }).recipe()),
{
    let g0 = no_nodes();
    lemma_build_grows(g0, Build::Input { shape: seq![rows, cols], dtype: weight });
    let g1 = given(g0, seq![rows, cols], weight);
    lemma_build_grows(g1, Build::Input { shape: seq![cols], dtype: DType::F16 });
    let g2 = given(g1, seq![cols], DType::F16);
    lemma_build_grows(g2, Build::Input { shape: seq![cols], dtype: DType::F16 });
    let g3 = given(g2, seq![cols], DType::F16);
    let b = Build::RmsNormMatvec {
        w_mat: TensorId(0),
        x: TensorId(1),
        w_norm: TensorId(2),
        eps: Scalar::Bits(eps),
    };
    lemma_build_grows(g3, b);
    lemma_ready(g3, built(g3, b));
}

proof fn lemma_rms_norm_matvec_qkv_ready(
    q_rows: usize,
    kv_rows: usize,
    cols: usize,
    eps: u32,
    wq: DType,
    wk: DType,
    wv: DType,
)
    requires
        (Kernel::RmsNormMatvecQkv { q_rows, kv_rows, cols, eps, wq, wk, wv }).fits(),
    ensures
        ready((Kernel::RmsNormMatvecQkv { q_rows, kv_rows, cols, eps, wq, wk, wv }).recipe()),
{
    let g0 = no_nodes();
    lemma_build_grows(g0, Build::Input { shape: seq![q_rows, cols], dtype: wq });
    let g1 = given(g0, seq![q_rows, cols], wq);
    lemma_build_grows(g1, Build::Input { shape: seq![kv_rows, cols], dtype: wk });
    let g2 = given(g1, seq![kv_rows, cols], wk);
    lemma_build_grows(g2, Build::Input { shape: seq![kv_rows, cols], dtype: wv });
    let g3 = given(g2, seq![kv_rows, cols], wv);
    lemma_build_grows(g3, Build::Input { shape: seq![cols], dtype: DType::F16 });
    let g4 = given(g3, seq![cols], DType::F16);
    lemma_build_grows(g4, Build::Input { shape: seq![cols], dtype: DType::F16 });
    let g5 = given(g4, seq![cols], DType::F16);
    let b = Build::RmsNormQkv {
        wq: TensorId(0),
        wk: TensorId(1),
        wv: TensorId(2),
        x: TensorId(3),
        w_norm: TensorId(4),
        eps: Scalar::Bits(eps),
    };
    lemma_build_grows(g5, b);
    lemma_ready(g5, built(g5, b));
}

proof fn lemma_rms_norm_ready(n: usize, eps: u32)
    requires
        (Kernel::RmsNorm { n, eps }).fits(),
    ensures
        ready((Kernel::RmsNorm { n, eps }).recipe()),
{
    let g0 = no_nodes();
    lemma_build_grows(g0, Build::Input { shape: seq![n], dtype: DType::F16 });
    let g1 = given(g0, seq![n], DType::F16);
    lemma_build_grows(g1, Build::Input { shape: seq![n], dtype: DType::F16 });
    let g2 = given(g1, seq![n], DType::F16);
    let b = Build::RmsNorm { x: TensorId(0), w: TensorId(1), eps: Scalar::Bits(eps) };
    lemma_build_grows(g2, b);
    lemma_ready(g2, built(g2, b));
}

proof fn lemma_rms_norm_add_ready(n: usize, eps: u32)
    requires
        (Kernel::RmsNormAdd { n, eps }).fits(),
    ensures
        ready((Kernel::RmsNormAdd { n, eps }).recipe()),
{
    let g0 = no_nodes();
    lemma_build_grows(g0, Build::Input { shape: seq![n], dtype: DType::F16 });
    let g1 = given(g0, seq![n], DType::F16);
    lemma_build_grows(g1, Build::Input { shape: seq![n], dtype: DType::F16 });
    let g2 = given(g1, seq![n], DType::F16);
    lemma_build_grows(g2, Build::Input { shape: seq![n], dtype: DType::F16 });
    let g3 = given(g2, seq![n], DType::F16);
    let b = Build::RmsNormAdd {
        x: TensorId(0),
        w: TensorId(1),
        residual: TensorId(2),
        eps: Scalar::Bits(eps),
    };
    lemma_build_grows(g3, b);
    lemma_ready(g3, built(g3, b));
}

proof fn lemma_rms_norm_add_scale_ready(n: usize, eps: u32, scale: u32)
    requires
        (Kernel::RmsNormAddScale { n, eps, scale }).fits(),
    ensures
        ready((Kernel::RmsNormAddScale { n, eps, scale }).recipe()),
{
    let g0 = no_nodes();
    lemma_build_grows(g0, Build::Input { shape: seq![n], dtype: DType::F16 });
    let g1 = given(g0, seq![n], DType::F16);
    lemma_build_grows(g1, Build::Input { shape: seq![n], dtype: DType::F16 });
    let g2 = given(g1, seq![n], DType::F16);
    lemma_build_grows(g2, Build::Input { shape: seq![n], dtype: DType::F16 });
    let g3 = given(g2, seq![n], DType::F16);
    let b = Build::RmsNormAddScale {
        x: TensorId(0),
        w: TensorId(1),
        residual: TensorId(2),
        eps: Scalar::Bits(eps),
        scale: Scalar::Bits(scale),
    };
    lemma_build_grows(g3, b);
    lemma_ready(g3, built(g3, b));
}

proof fn lemma_rms_norm_add_then_rms_norm_ready(n: usize, eps: u32)
    requires
        (Kernel::RmsNormAddThenRmsNorm { n, eps }).fits(),
    ensures
        ready((Kernel::RmsNormAddThenRmsNorm { n, eps }).recipe()),
{
    let g0 = no_nodes();
    lemma_build_grows(g0, Build::Input { shape: seq![n], dtype: DType::F16 });
    let g1 = given(g0, seq![n], DType::F16);
    lemma_build_grows(g1, Build::Input { shape: seq![n], dtype: DType::F16 });
    let g2 = given(g1, seq![n], DType::F16);
    lemma_build_grows(g2, Build::Input { shape: seq![n], dtype: DType::F16 });
    let g3 = given(g2, seq![n], DType::F16);
    lemma_build_grows(g3, Build::Input { shape: seq![n], dtype: DType::F16 });
    let g4 = given(g3, seq![n], DType::F16);
    let b = Build::Call {
        inputs: seq![TensorId(0), TensorId(1), TensorId(2), TensorId(3)],
        shape: seq![n],
        dtype: DType::F16,
        hint: FuseHint::RmsNormAddThenRmsNorm {
            n,
            eps: Scalar::Bits(eps),
            y: TensorId(0),
            w_post: TensorId(1),
            residual: TensorId(2),
            w_ffn: TensorId(3),
        },
    };
    lemma_build_grows(g4, b);
    lemma_ready(g4, built(g4, b));
}

proof fn lemma_rms_norm_per_head_ready(n_heads: usize, hd: usize, eps: u32)
    requires
        (Kernel::RmsNormPerHead { n_heads, hd, eps }).fits(),
    ensures
        ready((Kernel::RmsNormPerHead { n_heads, hd, eps }).recipe()),
{
    let g0 = no_nodes();
    lemma_build_grows(g0, Build::Input { shape: seq![(n_heads * hd) as usize], dtype: DType::F16 });
    let g1 = given(g0, seq![(n_heads * hd) as usize], DType::F16);
    lemma_build_grows(g1, Build::Input { shape: seq![hd], dtype: DType::F16 });
    let g2 = given(g1, seq![hd], DType::F16);
    let b = Build::PerHead {
        x: TensorId(0),
        n_heads: n_heads,
        hd: hd,
        inputs: seq![TensorId(0), TensorId(1)],
        hint: FuseHint::RmsNormPerHead {
            n_heads,
            hd,
            eps: Scalar::Bits(eps),
            with_weight: true,
            x: TensorId(0),
            w: TensorId(1),
        },
    };
    lemma_build_grows(g2, b);
    lemma_ready(g2, built(g2, b));
}

proof fn lemma_rms_norm_per_head_rope_ready(n_heads: usize, hd: usize, eps: u32)
    requires
        (Kernel::RmsNormPerHeadRope { n_heads, hd, eps }).fits(),
    ensures
        ready((Kernel::RmsNormPerHeadRope { n_heads, hd, eps }).recipe()),
{
    let g0 = no_nodes();
    lemma_build_grows(g0, Build::Input { shape: seq![(n_heads * hd) as usize], dtype: DType::F16 });
    let g1 = given(g0, seq![(n_heads * hd) as usize], DType::F16);
    lemma_build_grows(g1, Build::Input { shape: seq![hd], dtype: DType::F16 });
    let g2 = given(g1, seq![hd], DType::F16);
    lemma_build_grows(g2, Build::Input { shape: seq![hd], dtype: DType::F16 });
    let g3 = given(g2, seq![hd], DType::F16);
    let b = Build::PerHead {
        x: TensorId(0),
        n_heads: n_heads,
        hd: hd,
        inputs: seq![TensorId(0), TensorId(1), TensorId(2)],
        hint: FuseHint::RmsNormPerHeadRope {
            n_heads,
            hd,
            eps: Scalar::Bits(eps),
            with_weight: true,
            x: TensorId(0),
            w: TensorId(1),
            cos_sin: TensorId(2),
        },
    };
    lemma_build_grows(g3, b);
    lemma_ready(g3, built(g3, b));
}

proof fn lemma_rms_norm_no_weight_ready(n_heads: usize, hd: usize, eps: u32)
    requires
        (Kernel::RmsNormNoWeight { n_heads, hd, eps }).fits(),
    ensures
        ready((Kernel::RmsNormNoWeight { n_heads, hd, eps }).recipe()),
{
    let g0 = no_nodes();
    lemma_build_grows(g0, Build::Input { shape: seq![(n_heads * hd) as usize], dtype: DType::F16 });
    let g1 = given(g0, seq![(n_heads * hd) as usize], DType::F16);
    lemma_build_grows(g1, Build::Input { shape: seq![hd], dtype: DType::F16 });
    let g2 = given(g1, seq![hd], DType::F16);
    let b = Build::PerHead {
        x: TensorId(0),
        n_heads: n_heads,
        hd: hd,
        inputs: seq![TensorId(0), TensorId(1)],
        hint: FuseHint::RmsNormPerHead {
            n_heads,
            hd,
            eps: Scalar::Bits(eps),
            with_weight: false,
            x: TensorId(0),
            w: TensorId(1),
        },
    };
    lemma_build_grows(g2, b);
    lemma_ready(g2, built(g2, b));
}

proof fn lemma_add_ready(n: usize)
    requires
        (Kernel::Add { n }).fits(),
    ensures
        ready((Kernel::Add { n }).recipe()),
{
    let g0 = no_nodes();
    lemma_build_grows(g0, Build::Input { shape: seq![n], dtype: DType::F16 });
    let g1 = given(g0, seq![n], DType::F16);
    lemma_build_grows(g1, Build::Input { shape: seq![n], dtype: DType::F16 });
    let g2 = given(g1, seq![n], DType::F16);
    let b = Build::Add { a: TensorId(0), b: TensorId(1) };
    lemma_build_grows(g2, b);
    lemma_ready(g2, built(g2, b));
}

proof fn lemma_gelu_mul_ready(n: usize, up_off: usize)
    requires
        (Kernel::GeluMul { n, up_off }).fits(),
    ensures
        ready((Kernel::GeluMul { n, up_off }).recipe()),
{
    let g0 = no_nodes();
    lemma_build_grows(g0, Build::Input { shape: seq![n], dtype: DType::F16 });
    let g1 = given(g0, seq![n], DType::F16);
    lemma_build_grows(g1, Build::Input { shape: seq![(up_off + n) as usize], dtype: DType::F16 });
    let g2 = given(g1, seq![(up_off + n) as usize], DType::F16);
    let b = Build::GeluMul { gate: TensorId(0), up: TensorId(1), up_off: up_off };
    lemma_build_grows(g2, b);
    lemma_ready(g2, built(g2, b));
}

proof fn lemma_matvec_gelu_mul_ready(rows: usize, cols: usize, weight: DType)
    requires
        (Kernel::MatvecGeluMul { rows, cols, weight }).fits(),
    ensures
        ready((Kernel::MatvecGeluMul { rows, cols, weight }).recipe()),
{
    let g0 = no_nodes();
    lemma_build_grows(g0, Build::Input { shape: seq![rows, cols], dtype: weight });
    let g1 = given(g0, seq![rows, cols], weight);
    lemma_build_grows(g1, Build::Input { shape: seq![cols], dtype: DType::F16 });
    let g2 = given(g1, seq![cols], DType::F16);
    lemma_build_grows(g2, Build::Input { shape: seq![rows], dtype: DType::F16 });
    let g3 = given(g2, seq![rows], DType::F16);
    let b = Build::Call {
        inputs: seq![TensorId(0), TensorId(1), TensorId(2)],
        shape: seq![rows],
        dtype: DType::F16,
        hint: FuseHint::MatvecGeluMul {
            rows,
            cols,
            ctx_off: 0,
            w: TensorId(0),
            x: TensorId(1),
            ctx: TensorId(2),
        },
    };
    lemma_build_grows(g3, b);
    lemma_ready(g3, built(g3, b));
}

proof fn lemma_matvec_gelu_mul_proj_ready(
    gate_rows: usize,
    cols: usize,
    proj_rows: usize,
    weight: DType,
    eps: u32,
    scale: u32,
)
    requires
        (Kernel::MatvecGeluMulProj { gate_rows, cols, proj_rows, weight, eps, scale }).fits(),
    ensures
        ready(
            (Kernel::MatvecGeluMulProj { gate_rows, cols, proj_rows, weight, eps, scale }).recipe(),
        ),
{
    let g0 = no_nodes();
    lemma_build_grows(g0, Build::Input { shape: seq![gate_rows, cols], dtype: weight });
    let g1 = given(g0, seq![gate_rows, cols], weight);
    lemma_build_grows(g1, Build::Input { shape: seq![cols], dtype: DType::F16 });
    let g2 = given(g1, seq![cols], DType::F16);
    lemma_build_grows(g2, Build::Input { shape: seq![gate_rows], dtype: DType::F16 });
    let g3 = given(g2, seq![gate_rows], DType::F16);
    lemma_build_grows(g3, Build::Input { shape: seq![proj_rows, gate_rows], dtype: weight });
    let g4 = given(g3, seq![proj_rows, gate_rows], weight);
    lemma_build_grows(g4, Build::Input { shape: seq![proj_rows], dtype: DType::F16 });
    let g5 = given(g4, seq![proj_rows], DType::F16);
    lemma_build_grows(g5, Build::Input { shape: seq![proj_rows], dtype: DType::F16 });
    let g6 = given(g5, seq![proj_rows], DType::F16);
    let b = Build::Call {
        inputs: seq![TensorId(0), TensorId(1), TensorId(2), TensorId(3), TensorId(4), TensorId(5)],
        shape: seq![proj_rows],
        dtype: DType::F16,
        hint: FuseHint::MatvecGeluMulProjRmsAddScale {
            gate_rows,
            cols,
            proj_rows,
            ctx_off: 0,
            eps: Scalar::Bits(eps),
            scale: Scalar::Bits(scale),
            w_gate: TensorId(0),
            x: TensorId(1),
            ctx: TensorId(2),
            w_proj: TensorId(3),
            w_norm: TensorId(4),
            residual: TensorId(5),
        },
    };
    lemma_build_grows(g6, b);
    lemma_ready(g6, built(g6, b));
}

proof fn lemma_add_scale_ready(n: usize, scale: u32)
    requires
        (Kernel::AddScale { n, scale }).fits(),
    ensures
        ready((Kernel::AddScale { n, scale }).recipe()),
{
    let g0 = no_nodes();
    lemma_build_grows(g0, Build::Input { shape: seq![n], dtype: DType::F16 });
    let g1 = given(g0, seq![n], DType::F16);
    lemma_build_grows(g1, Build::Input { shape: seq![n], dtype: DType::F16 });
    let g2 = given(g1, seq![n], DType::F16);
    let b1 = Build::Add { a: TensorId(0), b: TensorId(1) };
    lemma_build_grows(g2, b1);
    let s1 = built(g2, b1);
    if let Ok(s) = s1.1 {
        let b2 = Build::Scale { x: s, scale: Scalar::Bits(scale) };
        lemma_build_grows(s1.0, b2);
        lemma_ready(s1.0, built(s1.0, b2));
    }
}

proof fn lemma_gate_up_gelu_ready(rows: usize, cols: usize, weight: DType)
    requires
        (Kernel::GateUpGelu { rows, cols, weight }).fits(),
    ensures
        ready((Kernel::GateUpGelu { rows, cols, weight }).recipe()),
{
    let g0 = no_nodes();
    lemma_build_grows(g0, Build::Input { shape: seq![rows, cols], dtype: weight });
    let g1 = given(g0, seq![rows, cols], weight);
    lemma_build_grows(g1, Build::Input { shape: seq![rows, cols], dtype: weight });
    let g2 = given(g1, seq![rows, cols], weight);
    lemma_build_grows(g2, Build::Input { shape: seq![cols], dtype: DType::F16 });
    let g3 = given(g2, seq![cols], DType::F16);
    let b = Build::GateUp { gate: TensorId(0), up: TensorId(1), x: TensorId(2) };
    lemma_build_grows(g3, b);
    lemma_ready(g3, built(g3, b));
}

proof fn lemma_rms_norm_gate_up_gelu_ready(rows: usize, cols: usize, eps: u32, weight: DType)
    requires
        (Kernel::RmsNormGateUpGelu { rows, cols, eps, weight }).fits(),
    ensures
        ready((Kernel::RmsNormGateUpGelu { rows, cols, eps, weight }).recipe()),
{
    let g0 = no_nodes();
    lemma_build_grows(g0, Build::Input { shape: seq![rows, cols], dtype: weight });
    let g1 = given(g0, seq![rows, cols], weight);
    lemma_build_grows(g1, Build::Input { shape: seq![rows, cols], dtype: weight });
    let g2 = given(g1, seq![rows, cols], weight);
    lemma_build_grows(g2, Build::Input { shape: seq![cols], dtype: DType::F16 });
    let g3 = given(g2, seq![cols], DType::F16);
    lemma_build_grows(g3, Build::Input { shape: seq![cols], dtype: DType::F16 });
    let g4 = given(g3, seq![cols], DType::F16);
    let b = Build::RmsNormGateUp {
        gate: TensorId(0),
        up: TensorId(1),
        x: TensorId(2),
        w_norm: TensorId(3),
        eps: Scalar::Bits(eps),
    };
    lemma_build_grows(g4, b);
    lemma_ready(g4, built(g4, b));
}

proof fn lemma_scale_const_ready(n: usize, scale: u32)
    requires
        (Kernel::ScaleConst { n, scale }).fits(),
    ensures
        ready((Kernel::ScaleConst { n, scale }).recipe()),
{
    let g0 = no_nodes();
    lemma_build_grows(g0, Build::Input { shape: seq![n], dtype: DType::F16 });
    let g1 = given(g0, seq![n], DType::F16);
    let b = Build::Scale { x: TensorId(0), scale: Scalar::Bits(scale) };
    lemma_build_grows(g1, b);
    lemma_ready(g1, built(g1, b));
}

proof fn lemma_rope_ready(n_heads: usize, hd: usize)
    requires
        (Kernel::Rope { n_heads, hd }).fits(),
    ensures
        ready((Kernel::Rope { n_heads, hd }).recipe()),
{
    let g0 = no_nodes();
    lemma_build_grows(g0, Build::Input { shape: seq![(n_heads * hd) as usize], dtype: DType::F16 });
    let g1 = given(g0, seq![(n_heads * hd) as usize], DType::F16);
    lemma_build_grows(g1, Build::Input { shape: seq![hd], dtype: DType::F16 });
    let g2 = given(g1, seq![hd], DType::F16);
    let b = Build::PerHead {
        x: TensorId(0),
        n_heads: n_heads,
        hd: hd,
        inputs: seq![TensorId(0), TensorId(1)],
        hint: FuseHint::Rope { n_heads, hd, x: TensorId(0), cos_sin: TensorId(1) },
    };
    lemma_build_grows(g2, b);
    lemma_ready(g2, built(g2, b));
}

proof fn lemma_sdpa_ready(n_q: usize, hd: usize, max_t: usize, kv: DType)
    requires
        (Kernel::Sdpa { n_q, hd, max_t, kv }).fits(),
    ensures
        ready((Kernel::Sdpa { n_q, hd, max_t, kv }).recipe()),
{
    let g0 = no_nodes();
    lemma_build_grows(g0, Build::Input { shape: seq![(n_q * hd) as usize], dtype: DType::F16 });
    let g1 = given(g0, seq![(n_q * hd) as usize], DType::F16);
    lemma_build_grows(g1, Build::Input { shape: seq![(max_t * hd) as usize], dtype: kv });
    let g2 = given(g1, seq![(max_t * hd) as usize], kv);
    lemma_build_grows(g2, Build::Input { shape: seq![(max_t * hd) as usize], dtype: kv });
    let g3 = given(g2, seq![(max_t * hd) as usize], kv);
    lemma_build_grows(g3, Build::Input { shape: seq![2usize], dtype: DType::F16 });
    let g4 = given(g3, seq![2usize], DType::F16);
    let b = Build::Sdpa {
        q: TensorId(0),
        k: TensorId(1),
        v: TensorId(2),
        meta: TensorId(3),
        n_q: n_q,
        hd: hd,
        max_t: max_t,
    };
    lemma_build_grows(g4, b);
    lemma_ready(g4, built(g4, b));
}

proof fn lemma_sdpa_mwg_part_ready(n_q: usize, hd: usize, max_t: usize, nwg: usize, kv: DType)
    requires
        (Kernel::SdpaMwgPart { n_q, hd, max_t, nwg, kv }).fits(),
    ensures
        ready((Kernel::SdpaMwgPart { n_q, hd, max_t, nwg, kv }).recipe()),
{
    let g0 = no_nodes();
    lemma_build_grows(g0, Build::Input { shape: seq![(n_q * hd) as usize], dtype: DType::F16 });
    let g1 = given(g0, seq![(n_q * hd) as usize], DType::F16);
    lemma_build_grows(g1, Build::Input { shape: seq![(max_t * hd) as usize], dtype: kv });
    let g2 = given(g1, seq![(max_t * hd) as usize], kv);
    lemma_build_grows(g2, Build::Input { shape: seq![(max_t * hd) as usize], dtype: kv });
    let g3 = given(g2, seq![(max_t * hd) as usize], kv);
    lemma_build_grows(g3, Build::Input { shape: seq![2usize], dtype: DType::F16 });
    let g4 = given(g3, seq![2usize], DType::F16);
    let b = Build::Call {
        inputs: seq![TensorId(0), TensorId(1), TensorId(2), TensorId(3)],
        shape: seq![(n_q * nwg * (hd + 2)) as usize],
        dtype: DType::F32,
        hint: FuseHint::SdpaMwgPart {
            n_q,
            hd,
            max_t,
            nwg,
            q: TensorId(0),
            k: TensorId(1),
            v: TensorId(2),
            meta: TensorId(3),
            kv_dtype: kv,
        },
    };
    lemma_build_grows(g4, b);
    lemma_ready(g4, built(g4, b));
}

proof fn lemma_sdpa_mwg_reduce_ready(n_q: usize, hd: usize, nwg: usize)
    requires
        (Kernel::SdpaMwgReduce { n_q, hd, nwg }).fits(),
    ensures
        ready((Kernel::SdpaMwgReduce { n_q, hd, nwg }).recipe()),
{
    let g0 = no_nodes();
    lemma_build_grows(
        g0,
        Build::Input { shape: seq![(n_q * nwg * (hd + 2)) as usize], dtype: DType::F32 },
    );
    let g1 = given(g0, seq![(n_q * nwg * (hd + 2)) as usize], DType::F32);
    let b = Build::Call {
        inputs: seq![TensorId(0)],
        shape: seq![(n_q * hd) as usize],
        dtype: DType::F16,
        hint: FuseHint::SdpaMwgReduce { n_q, hd, nwg, tmp: TensorId(0) },
    };
    lemma_build_grows(g1, b);
    lemma_ready(g1, built(g1, b));
}

proof fn lemma_quantize_q_4_0_ready(n: usize)
    requires
        (Kernel::QuantizeQ40 { n }).fits(),
    ensures
        ready((Kernel::QuantizeQ40 { n }).recipe()),
{
    let g0 = no_nodes();
    lemma_build_grows(g0, Build::Input { shape: seq![n], dtype: DType::F16 });
    let g1 = given(g0, seq![n], DType::F16);
    let b = Build::Call {
        inputs: seq![TensorId(0)],
        shape: seq![n],
        dtype: DType::Q40,
        hint: FuseHint::QuantizeQ40 { n, src: TensorId(0) },
    };
    lemma_build_grows(g1, b);
    lemma_ready(g1, built(g1, b));
}

proof fn lemma_rms_norm_per_head_rope_q_4_0_ready(n_heads: usize, hd: usize, eps: u32)
    requires
        (Kernel::RmsNormPerHeadRopeQ40 { n_heads, hd, eps }).fits(),
    ensures
        ready((Kernel::RmsNormPerHeadRopeQ40 { n_heads, hd, eps }).recipe()),
{
    let g0 = no_nodes();
    lemma_build_grows(g0, Build::Input { shape: seq![(n_heads * hd) as usize], dtype: DType::F16 });
    let g1 = given(g0, seq![(n_heads * hd) as usize], DType::F16);
    lemma_build_grows(g1, Build::Input { shape: seq![hd], dtype: DType::F16 });
    let g2 = given(g1, seq![hd], DType::F16);
    lemma_build_grows(g2, Build::Input { shape: seq![hd], dtype: DType::F16 });
    let g3 = given(g2, seq![hd], DType::F16);
    let b = Build::Call {
        inputs: seq![TensorId(0), TensorId(1), TensorId(2)],
        shape: seq![(n_heads * hd) as usize],
        dtype: DType::Q40,
        hint: FuseHint::RmsNormPerHeadRopeQ40 {
            n_heads,
            hd,
            eps: Scalar::Bits(eps),
            with_weight: true,
            x: TensorId(0),
            w: TensorId(1),
            cos_sin: TensorId(2),
        },
    };
    lemma_build_grows(g3, b);
    lemma_ready(g3, built(g3, b));
}

proof fn lemma_rms_norm_per_head_q_4_0_ready(n_heads: usize, hd: usize, eps: u32)
    requires
        (Kernel::RmsNormPerHeadQ40 { n_heads, hd, eps }).fits(),
    ensures
        ready((Kernel::RmsNormPerHeadQ40 { n_heads, hd, eps }).recipe()),
{
    let g0 = no_nodes();
    lemma_build_grows(g0, Build::Input { shape: seq![(n_heads * hd) as usize], dtype: DType::F16 });
    let g1 = given(g0, seq![(n_heads * hd) as usize], DType::F16);
    lemma_build_grows(g1, Build::Input { shape: seq![hd], dtype: DType::F16 });
    let g2 = given(g1, seq![hd], DType::F16);
    let b = Build::Call {
        inputs: seq![TensorId(0), TensorId(1)],
        shape: seq![(n_heads * hd) as usize],
        dtype: DType::Q40,
        hint: FuseHint::RmsNormPerHeadQ40 {
            n_heads,
            hd,
            eps: Scalar::Bits(eps),
            with_weight: false,
            x: TensorId(0),
            w: TensorId(1),
        },
    };
    lemma_build_grows(g2, b);
    lemma_ready(g2, built(g2, b));
}

proof fn lemma_copy_slice_ready(n: usize, src_off: usize, dst_off: usize)
    requires
        (Kernel::CopySlice { n, src_off, dst_off }).fits(),
    ensures
        ready((Kernel::CopySlice { n, src_off, dst_off }).recipe()),
{
    let g0 = no_nodes();
    lemma_build_grows(g0, Build::Input { shape: seq![(src_off + n) as usize], dtype: DType::F16 });
    let g1 = given(g0, seq![(src_off + n) as usize], DType::F16);
    let b = Build::CopySlice { src: TensorId(0), src_off: src_off, dst_off: dst_off, n: n };
    lemma_build_grows(g1, b);
    lemma_ready(g1, built(g1, b));
}

proof fn lemma_copy_scale_ready(n: usize, scale: u32, dtype: DType)
    requires
        (Kernel::CopyScale { n, scale, dtype }).fits(),
    ensures
        ready((Kernel::CopyScale { n, scale, dtype }).recipe()),
{
    let g0 = no_nodes();
    lemma_build_grows(g0, Build::Input { shape: seq![n], dtype: dtype });
    let g1 = given(g0, seq![n], dtype);
    let b = Build::CopyScale {
        src: TensorId(0),
        src_off: 0,
        dst_off: 0,
        n: n,
        scale: Scalar::Bits(scale),
    };
    lemma_build_grows(g1, b);
    lemma_ready(g1, built(g1, b));
}

proof fn lemma_softcap_argmax_ready(n: usize, cap: u32)
    requires
        (Kernel::SoftcapArgmax { n, cap }).fits(),
    ensures
        ready((Kernel::SoftcapArgmax { n, cap }).recipe()),
{
    let g0 = no_nodes();
    lemma_build_grows(g0, Build::Input { shape: seq![n], dtype: DType::F16 });
    let g1 = given(g0, seq![n], DType::F16);
    let b = Build::SoftcapArgmax { x: TensorId(0), cap: Scalar::Bits(cap) };
    lemma_build_grows(g1, b);
    lemma_ready(g1, built(g1, b));
}

/// The graph of every kernel can be scheduled.
pub proof fn lemma_recipe_ready(k: Kernel)
    requires
        k.fits(),
    ensures
        match k.recipe().1 {
            Ok(out) => region_ok(k.recipe().0, out) && matrix_ranked(k.recipe().0, out),
            Err(_) => true,
        },
{
    match k {
        Kernel::Matvec { rows, cols, weight } => {
            lemma_matvec_ready(rows, cols, weight);
        },
        Kernel::MatvecQkv { q_rows, kv_rows, cols, wq, wk, wv } => {
            lemma_matvec_qkv_ready(q_rows, kv_rows, cols, wq, wk, wv);
        },
        Kernel::RmsNormMatvec { rows, cols, eps, weight } => {
            lemma_rms_norm_matvec_ready(rows, cols, eps, weight);
        },
        Kernel::RmsNormMatvecQkv { q_rows, kv_rows, cols, eps, wq, wk, wv } => {
            lemma_rms_norm_matvec_qkv_ready(q_rows, kv_rows, cols, eps, wq, wk, wv);
        },
        Kernel::RmsNorm { n, eps } => {
            lemma_rms_norm_ready(n, eps);
        },
        Kernel::RmsNormAdd { n, eps } => {
            lemma_rms_norm_add_ready(n, eps);
        },
        Kernel::RmsNormAddScale { n, eps, scale } => {
            lemma_rms_norm_add_scale_ready(n, eps, scale);
        },
        Kernel::RmsNormAddThenRmsNorm { n, eps } => {
            lemma_rms_norm_add_then_rms_norm_ready(n, eps);
        },
        Kernel::RmsNormPerHead { n_heads, hd, eps } => {
            lemma_rms_norm_per_head_ready(n_heads, hd, eps);
        },
        Kernel::RmsNormPerHeadRope { n_heads, hd, eps } => {
            lemma_rms_norm_per_head_rope_ready(n_heads, hd, eps);
        },
        Kernel::RmsNormNoWeight { n_heads, hd, eps } => {
            lemma_rms_norm_no_weight_ready(n_heads, hd, eps);
        },
        Kernel::Add { n } => {
            lemma_add_ready(n);
        },
        Kernel::GeluMul { n, up_off } => {
            lemma_gelu_mul_ready(n, up_off);
        },
        Kernel::MatvecGeluMul { rows, cols, weight } => {
            lemma_matvec_gelu_mul_ready(rows, cols, weight);
        },
        Kernel::MatvecGeluMulProj { gate_rows, cols, proj_rows, weight, eps, scale } => {
            lemma_matvec_gelu_mul_proj_ready(gate_rows, cols, proj_rows, weight, eps, scale);
        },
        Kernel::AddScale { n, scale } => {
            lemma_add_scale_ready(n, scale);
        },
        Kernel::GateUpGelu { rows, cols, weight } => {
            lemma_gate_up_gelu_ready(rows, cols, weight);
        },
        Kernel::RmsNormGateUpGelu { rows, cols, eps, weight } => {
            lemma_rms_norm_gate_up_gelu_ready(rows, cols, eps, weight);
        },
        Kernel::ScaleConst { n, scale } => {
            lemma_scale_const_ready(n, scale);
        },
        Kernel::Rope { n_heads, hd } => {
            lemma_rope_ready(n_heads, hd);
        },
        Kernel::Sdpa { n_q, hd, max_t, kv } => {
            lemma_sdpa_ready(n_q, hd, max_t, kv);
        },
        Kernel::SdpaMwgPart { n_q, hd, max_t, nwg, kv } => {
            lemma_sdpa_mwg_part_ready(n_q, hd, max_t, nwg, kv);
        },
        Kernel::SdpaMwgReduce { n_q, hd, nwg } => {
            lemma_sdpa_mwg_reduce_ready(n_q, hd, nwg);
        },
        Kernel::QuantizeQ40 { n } => {
            lemma_quantize_q_4_0_ready(n);
        },
        Kernel::RmsNormPerHeadRopeQ40 { n_heads, hd, eps } => {
            lemma_rms_norm_per_head_rope_q_4_0_ready(n_heads, hd, eps);
        },
        Kernel::RmsNormPerHeadQ40 { n_heads, hd, eps } => {
            lemma_rms_norm_per_head_q_4_0_ready(n_heads, hd, eps);
        },
        Kernel::CopySlice { n, src_off, dst_off } => {
            lemma_copy_slice_ready(n, src_off, dst_off);
        },
        Kernel::CopyScale { n, scale, dtype } => {
            lemma_copy_scale_ready(n, scale, dtype);
        },
        Kernel::SoftcapArgmax { n, cap } => {
            lemma_softcap_argmax_ready(n, cap);
        },
    }
}

/// The source of a kernel under a kept tiling, if there is one.
pub open spec fn kernel_source(k: Kernel, plan: Option<OptSchedule>, lits: Seq<LitV>) -> Result<
    SourceV,
    ErrorV,
> {
    match k.recipe() {
        (g, Ok(out)) => metal_of(g, out, plan, lits),
        (_, Err(e)) => Err(ErrorV::Ir(e)),
    }
}

impl Kernel {
    /// Compiles the kernel to source. `plan` is the tiling kept under what [`Kernel::lookup`]
    /// returns.
    pub fn source(&self, plan: Option<OptSchedule>, lits: &Vec<Literal>) -> (r: Result<
        MetalKernelSource,
        CodegenError,
    >)
        requires
            self.fits(),
            plan matches Some(p) ==> sched_fits(p),
        ensures
            result_view(r) == kernel_source(*self, plan, lits_view(lits@)),
    {
        proof {
            lemma_recipe_ready(*self);
        }
        match self.graph() {
            (g, Ok(out)) => lower_to_metal(&g, out, plan, lits),
            (_, Err(e)) => Err(CodegenError::Ir(e)),
        }
    }

    /// The floating-point constants of the kernel, for which its source needs literals.
    pub fn constants(&self, plan: Option<OptSchedule>) -> (r: Result<Vec<Scalar>, CodegenError>)
        requires
            self.fits(),
            plan matches Some(p) ==> sched_fits(p),
        ensures
            result_view(r) == (match self.recipe() {
                (g, Ok(out)) => constants_of(g, out, plan),
                (_, Err(e)) => Err(ErrorV::Ir(e)),
            }),
    {
        proof {
            lemma_recipe_ready(*self);
        }
        match self.graph() {
            (g, Ok(out)) => region_constants(&g, out, plan),
            (_, Err(e)) => Err(CodegenError::Ir(e)),
        }
    }

    /// Under what the tiling of the kernel is kept.
    pub fn lookup(&self) -> (r: Result<Option<(&'static str, Vec<usize>)>, CodegenError>)
        requires
            self.fits(),
        ensures
            ({
                let want = match self.recipe() {
                    (g, Ok(out)) => lookup_of(g, out),
                    (_, Err(e)) => Err(ErrorV::Ir(e)),
                };
                match r {
                    Err(e) => want == Err::<Option<(Seq<char>, Seq<usize>)>, ErrorV>(e@),
                    Ok(None) => want == Ok::<Option<(Seq<char>, Seq<usize>)>, ErrorV>(None),
                    Ok(Some((kind, dims))) => want == Ok::<
                        Option<(Seq<char>, Seq<usize>)>,
                        ErrorV,
                    >(Some((kind@, dims@))),
                }
            }),
    {
        proof {
            lemma_recipe_ready(*self);
        }
        match self.graph() {
            (g, Ok(out)) => plan_lookup(&g, out),
            (_, Err(e)) => Err(CodegenError::Ir(e)),
        }
    }
}

impl Kernel {
    /// Checks the sizes of the kernel.
    pub fn check(&self) -> (r: bool)
        ensures
            r == self.fits(),
    {
        match *self {
            Kernel::RmsNormPerHead { n_heads, hd, .. } => mul_ok(n_heads, hd),
            Kernel::RmsNormPerHeadRope { n_heads, hd, .. } => mul_ok(n_heads, hd),
            Kernel::RmsNormNoWeight { n_heads, hd, .. } => mul_ok(n_heads, hd),
            Kernel::GeluMul { n, up_off } => add_ok(up_off, n),
            Kernel::Rope { n_heads, hd } => mul_ok(n_heads, hd),
            Kernel::Sdpa { n_q, hd, max_t, .. } => {
                mul_ok(n_q, hd) && mul_ok(max_t, hd) && hd % 32 == 0 && 0 < hd && hd <= 4096
            },
            Kernel::SdpaMwgPart { n_q, hd, max_t, nwg, .. } => {
                mul_ok(n_q, hd) && mul_ok(max_t, hd) && mul3_ok(n_q, nwg, hd)
            },
            Kernel::SdpaMwgReduce { n_q, hd, nwg } => mul_ok(n_q, hd) && mul3_ok(n_q, nwg, hd),
            Kernel::RmsNormPerHeadRopeQ40 { n_heads, hd, .. } => {
                mul_ok(n_heads, hd) && hd % 32 == 0
            },
            Kernel::RmsNormPerHeadQ40 { n_heads, hd, .. } => mul_ok(n_heads, hd) && hd % 32 == 0,
            Kernel::CopySlice { n, src_off, .. } => add_ok(src_off, n),
            _ => true,
        }
    }
}

/// Checks that a product is a machine integer.
pub fn mul_ok(a: usize, b: usize) -> (r: bool)
    ensures
        r == (a * b <= usize::MAX),
{
    a.checked_mul(b).is_some()
}

/// Checks that a sum is a machine integer.
pub fn add_ok(a: usize, b: usize) -> (r: bool)
    ensures
        r == (a + b <= usize::MAX),
{
    a.checked_add(b).is_some()
}

/// Checks the size of the scratch of partitioned attention.
fn mul3_ok(a: usize, b: usize, c: usize) -> (r: bool)
    ensures
        r == (a * b <= usize::MAX && c + 2 <= usize::MAX && a * b * (c + 2) <= usize::MAX),
{
    match a.checked_mul(b) {
        None => false,
        Some(p) => match c.checked_add(2) {
            None => false,
            Some(q) => p.checked_mul(q).is_some(),
        },
    }
}

} // verus!
