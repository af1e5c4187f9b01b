//! The calls of the engine, and the launches that each of them makes.

use vstd::prelude::*;

use crate::ir::dtype::DType;
use crate::kernels::buffer::{at, start, Buf, Place};
use crate::kernels::kernel::{mul_ok, Kernel};

verus! {

/// Parts that partitioned attention splits the positions into.
pub const SDPA_MWG_NWG: usize = 16;

/// From how many positions on attention is partitioned.
pub const SDPA_MWG_THRESHOLD: u32 = 128;

/// A call of the engine: an operation, its dimensions and its buffers.
#[derive(Clone, Copy, Debug, PartialEq, Eq, Structural)]
pub enum Call {
    /// A matrix times a vector; activations are half precision.
    Matvec { rows: usize, cols: usize, weight: DType, a: Buf, x: Buf, y: Buf },
    /// A packed matrix times a slice, into a slice; offsets count elements.
    MatvecAt { rows: usize, cols: usize, a: Buf, x: Buf, x_off: usize, y: Buf, y_off: usize },
    /// Three matrices of their own element types times one vector.
    MatvecQkv {
        q_rows: usize,
        kv_rows: usize,
        cols: usize,
        wq_dtype: DType,
        wk_dtype: DType,
        wv_dtype: DType,
        wq: Buf,
        wk: Buf,
        wv: Buf,
        x: Buf,
        q: Buf,
        k: Buf,
        v: Buf,
    },
    /// A matrix times a normalised vector.
    RmsNormMatvec {
        rows: usize,
        cols: usize,
        eps: u32,
        weight: DType,
        x: Buf,
        w_norm: Buf,
        w_mat: Buf,
        y: Buf,
    },
    /// Three matrices of their own element types times one normalised vector.
    RmsNormMatvecQkv {
        q_rows: usize,
        kv_rows: usize,
        cols: usize,
        eps: u32,
        wq_dtype: DType,
        wk_dtype: DType,
        wv_dtype: DType,
        x: Buf,
        w_norm: Buf,
        wq: Buf,
        wk: Buf,
        wv: Buf,
        q: Buf,
        k: Buf,
        v: Buf,
    },
    /// A normalised slice, into a slice; offsets count elements.
    RmsNorm { n: usize, eps: u32, x: Buf, x_off: usize, w: Buf, y: Buf, y_off: usize },
    /// A normalised vector plus a residual.
    RmsNormAdd { n: usize, eps: u32, x: Buf, w: Buf, residual: Buf, y: Buf },
    /// A normalised vector plus a residual, scaled.
    RmsNormAddScale { n: usize, eps: u32, scale: u32, x: Buf, w: Buf, residual: Buf, y: Buf },
    /// `out_x = residual + rms(y) * w_post` and `out_x2 = rms(out_x) * w_ffn`.
    RmsNormAddThenRmsNorm {
        n: usize,
        eps: u32,
        y: Buf,
        w_post: Buf,
        residual: Buf,
        w_ffn: Buf,
        out_x: Buf,
        out_x2: Buf,
    },
    /// Every head normalised on its own.
    RmsNormPerHead { n_heads: usize, hd: usize, eps: u32, x: Buf, w: Buf, y: Buf },
    /// Every head normalised and rotated; offsets count elements.
    RmsNormPerHeadRope {
        n_heads: usize,
        hd: usize,
        eps: u32,
        x: Buf,
        w: Buf,
        cos_sin: Buf,
        cos_sin_off: usize,
        y: Buf,
        y_off: usize,
    },
    /// Every head normalised without weights, into a slice.
    RmsNormNoWeight { n_heads: usize, hd: usize, eps: u32, x: Buf, y: Buf, y_off: usize },
    /// The sum of two vectors.
    Add { n: usize, a: Buf, b: Buf, y: Buf },
    /// GELU of a gate times a slice of another vector.
    GeluMul { n: usize, gate: Buf, up: Buf, up_off: usize, y: Buf },
    /// GELU of a matrix times a vector, times a slice of a context; the offset counts elements.
    MatvecGeluMul {
        rows: usize,
        cols: usize,
        weight: DType,
        w: Buf,
        x: Buf,
        ctx: Buf,
        ctx_off: usize,
        y: Buf,
    },
    /// A gate, its projection, and the normalised sum with a residual; the offset counts elements.
    MatvecGeluMulProj {
        gate_rows: usize,
        cols: usize,
        proj_rows: usize,
        weight: DType,
        w_gate: Buf,
        x: Buf,
        ctx: Buf,
        ctx_off: usize,
        w_proj: Buf,
        w_norm: Buf,
        residual: Buf,
        eps: u32,
        scale: u32,
        y: Buf,
    },
    /// A product, then its normalised sum with a residual, one after the other.
    MatvecRmsNormAdd {
        rows: usize,
        cols: usize,
        eps: u32,
        weight: DType,
        w: Buf,
        x: Buf,
        w_norm: Buf,
        residual: Buf,
        y: Buf,
    },
    /// A product, then its normalised and scaled sum with a residual, one after the other.
    MatvecRmsNormAddScale {
        rows: usize,
        cols: usize,
        eps: u32,
        scale: u32,
        weight: DType,
        w: Buf,
        x: Buf,
        w_norm: Buf,
        residual: Buf,
        y: Buf,
    },
    /// The scaled sum of two vectors.
    AddScale { n: usize, scale: u32, a: Buf, b: Buf, y: Buf },
    /// GELU of one product times another.
    GateUpGelu { rows: usize, cols: usize, weight: DType, gate: Buf, up: Buf, x: Buf, y: Buf },
    /// GELU of one product times another, of a normalised vector.
    RmsNormGateUpGelu {
        rows: usize,
        cols: usize,
        eps: u32,
        weight: DType,
        x: Buf,
        w_norm: Buf,
        gate: Buf,
        up: Buf,
        y: Buf,
    },
    /// A scaled vector.
    ScaleConst { n: usize, scale: u32, x: Buf, y: Buf },
    /// Every head rotated by its position.
    Rope { n_heads: usize, hd: usize, x: Buf, cos_sin: Buf, y: Buf },
    /// Attention with keys and values of the given element type.
    Sdpa {
        n_q: usize,
        hd: usize,
        max_t: usize,
        kv_dtype: DType,
        q: Buf,
        k: Buf,
        v: Buf,
        meta: Buf,
        out: Buf,
    },
    /// Attention over parts of the positions, then the parts put together.
    SdpaMwg {
        n_q: usize,
        hd: usize,
        max_t: usize,
        kv_dtype: DType,
        q: Buf,
        k: Buf,
        v: Buf,
        meta: Buf,
        tmp: Buf,
        out: Buf,
    },
    /// A vector packed as Q4_0, into a slice; the offset counts bytes.
    QuantizeQ40 { n: usize, src: Buf, dst: Buf, dst_byte_off: usize },
    /// Every head normalised, rotated and packed, into a slice.
    RmsNormPerHeadRopeQ40 {
        n_heads: usize,
        hd: usize,
        eps: u32,
        x: Buf,
        w: Buf,
        cos_sin: Buf,
        cos_sin_off: usize,
        dst: Buf,
        dst_byte_off: usize,
    },
    /// Every head normalised without weights and packed, into a slice.
    RmsNormPerHeadQ40 {
        n_heads: usize,
        hd: usize,
        eps: u32,
        x: Buf,
        dst: Buf,
        dst_byte_off: usize,
    },
    /// A copy of a slice.
    CopySlice { n: usize, src: Buf, src_off: usize, dst: Buf, dst_off: usize },
    /// A scaled copy; offsets count bytes.
    CopyScale {
        n: usize,
        scale: u32,
        dtype: DType,
        src: Buf,
        src_byte_off: usize,
        dst: Buf,
        dst_byte_off: usize,
    },
    /// The place of the greatest soft-capped element.
    SoftcapArgmax { n: usize, cap: u32, x: Buf, out: Buf },
    /// A scaled row, chosen by a token number on the device.
    CopyScaleIndexed { n: usize, scale: u32, dtype: DType, src: Buf, idx: Buf, dst: Buf },
    /// Scaled rows, chosen by token numbers on the device.
    CopyScaleIndexedBatch {
        n: usize,
        batch: usize,
        scale: u32,
        dtype: DType,
        src: Buf,
        idx: Buf,
        dst: Buf,
    },
    /// A matrix times every row of a batch.
    MatvecBatch { rows: usize, cols: usize, batch: usize, weight: DType, a: Buf, x: Buf, y: Buf },
    /// Every row of a batch normalised.
    RmsNormRows { n: usize, rows: usize, eps: u32, x: Buf, w: Buf, y: Buf },
    /// Every row of a batch normalised, plus a residual.
    RmsNormAddRows { n: usize, rows: usize, eps: u32, x: Buf, w: Buf, residual: Buf, y: Buf },
    /// Every row of a batch normalised, plus a residual, scaled.
    RmsNormAddScaleRows {
        n: usize,
        rows: usize,
        eps: u32,
        scale: u32,
        x: Buf,
        w: Buf,
        residual: Buf,
        y: Buf,
    },
    /// The two norms at the end of attention, for every row of a batch.
    RmsNormAddThenRmsNormRows {
        n: usize,
        rows: usize,
        eps: u32,
        y: Buf,
        w_post: Buf,
        residual: Buf,
        w_ffn: Buf,
        out_x: Buf,
        out_x2: Buf,
    },
    /// Queries normalised and rotated; keys and values appended, packed.
    QkvNormQ40 {
        n_q: usize,
        n_kv: usize,
        hd: usize,
        eps: u32,
        q: Buf,
        qw: Buf,
        cos_sin: Buf,
        cos_sin_off: usize,
        k: Buf,
        kw: Buf,
        v: Buf,
        q_out: Buf,
        k_dst: Buf,
        v_dst: Buf,
        kv_byte_off: usize,
    },
    /// The same for every row of a batch.
    QkvNormQ40Batch {
        n_q: usize,
        n_kv: usize,
        hd: usize,
        batch: usize,
        eps: u32,
        q: Buf,
        qw: Buf,
        cos_sin: Buf,
        cos_sin_off: usize,
        k: Buf,
        kw: Buf,
        v: Buf,
        q_out: Buf,
        k_dst: Buf,
        v_dst: Buf,
        kv_byte_off: usize,
    },
    /// Every head of every row of a batch normalised and rotated.
    RmsNormPerHeadRopeBatch {
        n_heads: usize,
        hd: usize,
        batch: usize,
        eps: u32,
        x: Buf,
        w: Buf,
        cos_sin: Buf,
        cos_sin_off: usize,
        y: Buf,
    },
    /// Attention of every row of a batch.
    SdpaBatch {
        n_q: usize,
        batch: usize,
        hd: usize,
        max_t: usize,
        attn_t: u32,
        kv_dtype: DType,
        q: Buf,
        k: Buf,
        v: Buf,
        meta: Buf,
        tmp: Buf,
        out: Buf,
    },
    /// GELU of every row of a gate times a slice of the row of a context.
    GeluMulStrided {
        n: usize,
        rows: usize,
        gate: Buf,
        up: Buf,
        up_off: usize,
        up_stride: usize,
        y: Buf,
    },
}

/// The engine: the calls that a model makes of it.
pub struct Eng;

impl Eng {
    /// A matrix times a vector; activations are half precision.
    #[verifier::allow_in_spec]
    pub fn matvec_wd(rows: usize, cols: usize, weight: DType, a: Buf, x: Buf, y: Buf) -> Call
        returns
            (Call::Matvec { rows, cols, weight, a, x, y }),
    {
        Call::Matvec { rows, cols, weight, a, x, y }
    }

    /// A packed matrix times a slice, into a slice; offsets count elements.
    #[verifier::allow_in_spec]
    pub fn matvec_q4k_prim_at(
        rows: usize,
        cols: usize,
        a: Buf,
        x: Buf,
        x_off: usize,
        y: Buf,
        y_off: usize,
    ) -> Call
        returns
            (Call::MatvecAt { rows, cols, a, x, x_off, y, y_off }),
    {
        Call::MatvecAt { rows, cols, a, x, x_off, y, y_off }
    }

    /// Three matrices of their own element types times one vector.
    #[verifier::allow_in_spec]
    pub fn matvec_qkv_wds(
        q_rows: usize,
        kv_rows: usize,
        cols: usize,
        wq_dtype: DType,
        wk_dtype: DType,
        wv_dtype: DType,
        wq: Buf,
        wk: Buf,
        wv: Buf,
        x: Buf,
        q: Buf,
        k: Buf,
        v: Buf,
    ) -> Call
        returns
            (
                Call::MatvecQkv {
                    q_rows,
                    kv_rows,
                    cols,
                    wq_dtype,
                    wk_dtype,
                    wv_dtype,
                    wq,
                    wk,
                    wv,
                    x,
                    q,
                    k,
                    v,
                }
            ),
    {
        Call::MatvecQkv {
            q_rows,
            kv_rows,
            cols,
            wq_dtype,
            wk_dtype,
            wv_dtype,
            wq,
            wk,
            wv,
            x,
            q,
            k,
            v,
        }
    }

    /// A matrix times a normalised vector.
    #[verifier::allow_in_spec]
    pub fn rmsnorm_matvec_wd(
        rows: usize,
        cols: usize,
        eps: u32,
        weight: DType,
        x: Buf,
        w_norm: Buf,
        w_mat: Buf,
        y: Buf,
    ) -> Call
        returns
            (Call::RmsNormMatvec { rows, cols, eps, weight, x, w_norm, w_mat, y }),
    {
        Call::RmsNormMatvec { rows, cols, eps, weight, x, w_norm, w_mat, y }
    }

    /// Three matrices of their own element types times one normalised vector.
    #[verifier::allow_in_spec]
    pub fn rmsnorm_matvec_qkv_wds(
        q_rows: usize,
        kv_rows: usize,
        cols: usize,
        eps: u32,
        wq_dtype: DType,
        wk_dtype: DType,
        wv_dtype: DType,
        x: Buf,
        w_norm: Buf,
        wq: Buf,
        wk: Buf,
        wv: Buf,
        q: Buf,
        k: Buf,
        v: Buf,
    ) -> Call
        returns
            (
                Call::RmsNormMatvecQkv {
                    q_rows,
                    kv_rows,
                    cols,
                    eps,
                    wq_dtype,
                    wk_dtype,
                    wv_dtype,
                    x,
                    w_norm,
                    wq,
                    wk,
                    wv,
                    q,
                    k,
                    v,
                }
            ),
    {
        Call::RmsNormMatvecQkv {
            q_rows,
            kv_rows,
            cols,
            eps,
            wq_dtype,
            wk_dtype,
            wv_dtype,
            x,
            w_norm,
            wq,
            wk,
            wv,
            q,
            k,
            v,
        }
    }

    /// A normalised slice, into a slice; offsets count elements.
    #[verifier::allow_in_spec]
    pub fn rmsnorm_at(
        n: usize,
        eps: u32,
        x: Buf,
        x_off: usize,
        w: Buf,
        y: Buf,
        y_off: usize,
    ) -> Call
        returns
            (Call::RmsNorm { n, eps, x, x_off, w, y, y_off }),
    {
        Call::RmsNorm { n, eps, x, x_off, w, y, y_off }
    }

    /// A normalised vector plus a residual.
    #[verifier::allow_in_spec]
    pub fn rmsnorm_add(n: usize, eps: u32, x: Buf, w: Buf, residual: Buf, y: Buf) -> Call
        returns
            (Call::RmsNormAdd { n, eps, x, w, residual, y }),
    {
        Call::RmsNormAdd { n, eps, x, w, residual, y }
    }

    /// A normalised vector plus a residual, scaled.
    #[verifier::allow_in_spec]
    pub fn rmsnorm_add_scale(
        n: usize,
        eps: u32,
        scale: u32,
        x: Buf,
        w: Buf,
        residual: Buf,
        y: Buf,
    ) -> Call
        returns
            (Call::RmsNormAddScale { n, eps, scale, x, w, residual, y }),
    {
        Call::RmsNormAddScale { n, eps, scale, x, w, residual, y }
    }

    /// `out_x = residual + rms(y) * w_post` and `out_x2 = rms(out_x) * w_ffn`.
    #[verifier::allow_in_spec]
    pub fn rmsnorm_add_then_rmsnorm(
        n: usize,
        eps: u32,
        y: Buf,
        w_post: Buf,
        residual: Buf,
        w_ffn: Buf,
        out_x: Buf,
        out_x2: Buf,
    ) -> Call
        returns
            (Call::RmsNormAddThenRmsNorm { n, eps, y, w_post, residual, w_ffn, out_x, out_x2 }),
    {
        Call::RmsNormAddThenRmsNorm { n, eps, y, w_post, residual, w_ffn, out_x, out_x2 }
    }

    /// Every head normalised on its own.
    #[verifier::allow_in_spec]
    pub fn rmsnorm_per_head(n_heads: usize, hd: usize, eps: u32, x: Buf, w: Buf, y: Buf) -> Call
        returns
            (Call::RmsNormPerHead { n_heads, hd, eps, x, w, y }),
    {
        Call::RmsNormPerHead { n_heads, hd, eps, x, w, y }
    }

    /// Every head normalised and rotated; offsets count elements.
    #[verifier::allow_in_spec]
    pub fn rmsnorm_per_head_rope_off(
        n_heads: usize,
        hd: usize,
        eps: u32,
        x: Buf,
        w: Buf,
        cos_sin: Buf,
        cos_sin_off: usize,
        y: Buf,
        y_off: usize,
    ) -> Call
        returns
            (Call::RmsNormPerHeadRope { n_heads, hd, eps, x, w, cos_sin, cos_sin_off, y, y_off }),
    {
        Call::RmsNormPerHeadRope { n_heads, hd, eps, x, w, cos_sin, cos_sin_off, y, y_off }
    }

    /// Every head normalised without weights, into a slice.
    #[verifier::allow_in_spec]
    pub fn rmsnorm_noweight_off(
        n_heads: usize,
        hd: usize,
        eps: u32,
        x: Buf,
        y: Buf,
        y_off: usize,
    ) -> Call
        returns
            (Call::RmsNormNoWeight { n_heads, hd, eps, x, y, y_off }),
    {
        Call::RmsNormNoWeight { n_heads, hd, eps, x, y, y_off }
    }

    /// The sum of two vectors.
    #[verifier::allow_in_spec]
    pub fn add(n: usize, a: Buf, b: Buf, y: Buf) -> Call
        returns
            (Call::Add { n, a, b, y }),
    {
        Call::Add { n, a, b, y }
    }

    /// GELU of a gate times a slice of another vector.
    #[verifier::allow_in_spec]
    pub fn gelu_mul_at(n: usize, gate: Buf, up: Buf, up_off: usize, y: Buf) -> Call
        returns
            (Call::GeluMul { n, gate, up, up_off, y }),
    {
        Call::GeluMul { n, gate, up, up_off, y }
    }

    /// GELU of a matrix times a vector, times a slice of a context; the offset counts elements.
    #[verifier::allow_in_spec]
    pub fn matvec_gelu_mul_at(
        rows: usize,
        cols: usize,
        weight: DType,
        w: Buf,
        x: Buf,
        ctx: Buf,
        ctx_off: usize,
        y: Buf,
    ) -> Call
        returns
            (Call::MatvecGeluMul { rows, cols, weight, w, x, ctx, ctx_off, y }),
    {
        Call::MatvecGeluMul { rows, cols, weight, w, x, ctx, ctx_off, y }
    }

    /// A gate, its projection, and the normalised sum with a residual; the offset counts elements.
    #[verifier::allow_in_spec]
    pub fn matvec_gelu_mul_proj_rms_add_scale_at(
        gate_rows: usize,
        cols: usize,
        proj_rows: usize,
        weight: DType,
        w_gate: Buf,
        x: Buf,
        ctx: Buf,
        ctx_off: usize,
        w_proj: Buf,
        w_norm: Buf,
        residual: Buf,
        eps: u32,
        scale: u32,
        y: Buf,
    ) -> Call
        returns
            (
                Call::MatvecGeluMulProj {
                    gate_rows,
                    cols,
                    proj_rows,
                    weight,
                    w_gate,
                    x,
                    ctx,
                    ctx_off,
                    w_proj,
                    w_norm,
                    residual,
                    eps,
                    scale,
                    y,
                }
            ),
    {
        Call::MatvecGeluMulProj {
            gate_rows,
            cols,
            proj_rows,
            weight,
            w_gate,
            x,
            ctx,
            ctx_off,
            w_proj,
            w_norm,
            residual,
            eps,
            scale,
            y,
        }
    }

    /// A product, then its normalised sum with a residual, one after the other.
    #[verifier::allow_in_spec]
    pub fn matvec_rmsnorm_add(
        rows: usize,
        cols: usize,
        eps: u32,
        weight: DType,
        w: Buf,
        x: Buf,
        w_norm: Buf,
        residual: Buf,
        y: Buf,
    ) -> Call
        returns
            (Call::MatvecRmsNormAdd { rows, cols, eps, weight, w, x, w_norm, residual, y }),
    {
        Call::MatvecRmsNormAdd { rows, cols, eps, weight, w, x, w_norm, residual, y }
    }

    /// A product, then its normalised and scaled sum with a residual, one after the other.
    #[verifier::allow_in_spec]
    pub fn matvec_rmsnorm_add_scale(
        rows: usize,
        cols: usize,
        eps: u32,
        scale: u32,
        weight: DType,
        w: Buf,
        x: Buf,
        w_norm: Buf,
        residual: Buf,
        y: Buf,
    ) -> Call
        returns
            (
                Call::MatvecRmsNormAddScale {
                    rows,
                    cols,
                    eps,
                    scale,
                    weight,
                    w,
                    x,
                    w_norm,
                    residual,
                    y,
                }
            ),
    {
        Call::MatvecRmsNormAddScale { rows, cols, eps, scale, weight, w, x, w_norm, residual, y }
    }

    /// The scaled sum of two vectors.
    #[verifier::allow_in_spec]
    pub fn add_scale(n: usize, scale: u32, a: Buf, b: Buf, y: Buf) -> Call
        returns
            (Call::AddScale { n, scale, a, b, y }),
    {
        Call::AddScale { n, scale, a, b, y }
    }

    /// GELU of one product times another.
    #[verifier::allow_in_spec]
    pub fn matvec_gate_up_gelu_wd(
        rows: usize,
        cols: usize,
        weight: DType,
        gate: Buf,
        up: Buf,
        x: Buf,
        y: Buf,
    ) -> Call
        returns
            (Call::GateUpGelu { rows, cols, weight, gate, up, x, y }),
    {
        Call::GateUpGelu { rows, cols, weight, gate, up, x, y }
    }

    /// GELU of one product times another, of a normalised vector.
    #[verifier::allow_in_spec]
    pub fn rmsnorm_matvec_gate_up_gelu_wd(
        rows: usize,
        cols: usize,
        eps: u32,
        weight: DType,
        x: Buf,
        w_norm: Buf,
        gate: Buf,
        up: Buf,
        y: Buf,
    ) -> Call
        returns
            (Call::RmsNormGateUpGelu { rows, cols, eps, weight, x, w_norm, gate, up, y }),
    {
        Call::RmsNormGateUpGelu { rows, cols, eps, weight, x, w_norm, gate, up, y }
    }

    /// A scaled vector.
    #[verifier::allow_in_spec]
    pub fn scale_const(n: usize, scale: u32, x: Buf, y: Buf) -> Call
        returns
            (Call::ScaleConst { n, scale, x, y }),
    {
        Call::ScaleConst { n, scale, x, y }
    }

    /// Every head rotated by its position.
    #[verifier::allow_in_spec]
    pub fn rope(n_heads: usize, hd: usize, x: Buf, cos_sin: Buf, y: Buf) -> Call
        returns
            (Call::Rope { n_heads, hd, x, cos_sin, y }),
    {
        Call::Rope { n_heads, hd, x, cos_sin, y }
    }

    /// Attention with keys and values of the given element type.
    #[verifier::allow_in_spec]
    pub fn sdpa_naive_kv(
        n_q: usize,
        hd: usize,
        max_t: usize,
        kv_dtype: DType,
        q: Buf,
        k: Buf,
        v: Buf,
        meta: Buf,
        out: Buf,
    ) -> Call
        returns
            (Call::Sdpa { n_q, hd, max_t, kv_dtype, q, k, v, meta, out }),
    {
        Call::Sdpa { n_q, hd, max_t, kv_dtype, q, k, v, meta, out }
    }

    /// Attention over parts of the positions, then the parts put together.
    #[verifier::allow_in_spec]
    pub fn sdpa_mwg_kv(
        n_q: usize,
        hd: usize,
        max_t: usize,
        kv_dtype: DType,
        q: Buf,
        k: Buf,
        v: Buf,
        meta: Buf,
        tmp: Buf,
        out: Buf,
    ) -> Call
        returns
            (Call::SdpaMwg { n_q, hd, max_t, kv_dtype, q, k, v, meta, tmp, out }),
    {
        Call::SdpaMwg { n_q, hd, max_t, kv_dtype, q, k, v, meta, tmp, out }
    }

    /// A vector packed as Q4_0, into a slice; the offset counts bytes.
    #[verifier::allow_in_spec]
    pub fn quantize_q40(n: usize, src: Buf, dst: Buf, dst_byte_off: usize) -> Call
        returns
            (Call::QuantizeQ40 { n, src, dst, dst_byte_off }),
    {
        Call::QuantizeQ40 { n, src, dst, dst_byte_off }
    }

    /// Every head normalised, rotated and packed, into a slice.
    #[verifier::allow_in_spec]
    pub fn rmsnorm_per_head_rope_q40_off(
        n_heads: usize,
        hd: usize,
        eps: u32,
        x: Buf,
        w: Buf,
        cos_sin: Buf,
        cos_sin_off: usize,
        dst: Buf,
        dst_byte_off: usize,
    ) -> Call
        returns
            (
                Call::RmsNormPerHeadRopeQ40 {
                    n_heads,
                    hd,
                    eps,
                    x,
                    w,
                    cos_sin,
                    cos_sin_off,
                    dst,
                    dst_byte_off,
                }
            ),
    {
        Call::RmsNormPerHeadRopeQ40 {
            n_heads,
            hd,
            eps,
            x,
            w,
            cos_sin,
            cos_sin_off,
            dst,
            dst_byte_off,
        }
    }

    /// Every head normalised without weights and packed, into a slice.
    #[verifier::allow_in_spec]
    pub fn rmsnorm_per_head_q40_off(
        n_heads: usize,
        hd: usize,
        eps: u32,
        x: Buf,
        dst: Buf,
        dst_byte_off: usize,
    ) -> Call
        returns
            (Call::RmsNormPerHeadQ40 { n_heads, hd, eps, x, dst, dst_byte_off }),
    {
        Call::RmsNormPerHeadQ40 { n_heads, hd, eps, x, dst, dst_byte_off }
    }

    /// A copy of a slice.
    #[verifier::allow_in_spec]
    pub fn copy_slice(n: usize, src: Buf, src_off: usize, dst: Buf, dst_off: usize) -> Call
        returns
            (Call::CopySlice { n, src, src_off, dst, dst_off }),
    {
        Call::CopySlice { n, src, src_off, dst, dst_off }
    }

    /// A scaled copy; offsets count bytes.
    #[verifier::allow_in_spec]
    pub fn copy_scale_wd(
        n: usize,
        scale: u32,
        dtype: DType,
        src: Buf,
        src_byte_off: usize,
        dst: Buf,
        dst_byte_off: usize,
    ) -> Call
        returns
            (Call::CopyScale { n, scale, dtype, src, src_byte_off, dst, dst_byte_off }),
    {
        Call::CopyScale { n, scale, dtype, src, src_byte_off, dst, dst_byte_off }
    }

    /// The place of the greatest soft-capped element.
    #[verifier::allow_in_spec]
    pub fn softcap_argmax(n: usize, cap: u32, x: Buf, out: Buf) -> Call
        returns
            (Call::SoftcapArgmax { n, cap, x, out }),
    {
        Call::SoftcapArgmax { n, cap, x, out }
    }

    /// A scaled row, chosen by a token number on the device.
    #[verifier::allow_in_spec]
    pub fn copy_scale_indexed_wd(
        n: usize,
        scale: u32,
        dtype: DType,
        src: Buf,
        idx: Buf,
        dst: Buf,
    ) -> Call
        returns
            (Call::CopyScaleIndexed { n, scale, dtype, src, idx, dst }),
    {
        Call::CopyScaleIndexed { n, scale, dtype, src, idx, dst }
    }

    /// Scaled rows, chosen by token numbers on the device.
    #[verifier::allow_in_spec]
    pub fn copy_scale_indexed_batch_wd(
        n: usize,
        batch: usize,
        scale: u32,
        dtype: DType,
        src: Buf,
        idx: Buf,
        dst: Buf,
    ) -> Call
        returns
            (Call::CopyScaleIndexedBatch { n, batch, scale, dtype, src, idx, dst }),
    {
        Call::CopyScaleIndexedBatch { n, batch, scale, dtype, src, idx, dst }
    }

    /// A matrix times every row of a batch.
    #[verifier::allow_in_spec]
    pub fn matvec_batch(
        rows: usize,
        cols: usize,
        batch: usize,
        weight: DType,
        a: Buf,
        x: Buf,
        y: Buf,
    ) -> Call
        returns
            (Call::MatvecBatch { rows, cols, batch, weight, a, x, y }),
    {
        Call::MatvecBatch { rows, cols, batch, weight, a, x, y }
    }

    /// Every row of a batch normalised.
    #[verifier::allow_in_spec]
    pub fn rmsnorm_rows(n: usize, rows: usize, eps: u32, x: Buf, w: Buf, y: Buf) -> Call
        returns
            (Call::RmsNormRows { n, rows, eps, x, w, y }),
    {
        Call::RmsNormRows { n, rows, eps, x, w, y }
    }

    /// Every row of a batch normalised, plus a residual.
    #[verifier::allow_in_spec]
    pub fn rmsnorm_add_rows(
        n: usize,
        rows: usize,
        eps: u32,
        x: Buf,
        w: Buf,
        residual: Buf,
        y: Buf,
    ) -> Call
        returns
            (Call::RmsNormAddRows { n, rows, eps, x, w, residual, y }),
    {
        Call::RmsNormAddRows { n, rows, eps, x, w, residual, y }
    }

    /// Every row of a batch normalised, plus a residual, scaled.
    #[verifier::allow_in_spec]
    pub fn rmsnorm_add_scale_rows(
        n: usize,
        rows: usize,
        eps: u32,
        scale: u32,
        x: Buf,
        w: Buf,
        residual: Buf,
        y: Buf,
    ) -> Call
        returns
            (Call::RmsNormAddScaleRows { n, rows, eps, scale, x, w, residual, y }),
    {
        Call::RmsNormAddScaleRows { n, rows, eps, scale, x, w, residual, y }
    }

    /// The two norms at the end of attention, for every row of a batch.
    #[verifier::allow_in_spec]
    pub fn rmsnorm_add_then_rmsnorm_rows(
        n: usize,
        rows: usize,
        eps: u32,
        y: Buf,
        w_post: Buf,
        residual: Buf,
        w_ffn: Buf,
        out_x: Buf,
        out_x2: Buf,
    ) -> Call
        returns
            (
                Call::RmsNormAddThenRmsNormRows {
                    n,
                    rows,
                    eps,
                    y,
                    w_post,
                    residual,
                    w_ffn,
                    out_x,
                    out_x2,
                }
            ),
    {
        Call::RmsNormAddThenRmsNormRows { n, rows, eps, y, w_post, residual, w_ffn, out_x, out_x2 }
    }

    /// Queries normalised and rotated; keys and values appended, packed.
    #[verifier::allow_in_spec]
    pub fn rmsnorm_per_head_qkv_q40_off(
        n_q: usize,
        n_kv: usize,
        hd: usize,
        eps: u32,
        q: Buf,
        qw: Buf,
        cos_sin: Buf,
        cos_sin_off: usize,
        k: Buf,
        kw: Buf,
        v: Buf,
        q_out: Buf,
        k_dst: Buf,
        v_dst: Buf,
        kv_byte_off: usize,
    ) -> Call
        returns
            (
                Call::QkvNormQ40 {
                    n_q,
                    n_kv,
                    hd,
                    eps,
                    q,
                    qw,
                    cos_sin,
                    cos_sin_off,
                    k,
                    kw,
                    v,
                    q_out,
                    k_dst,
                    v_dst,
                    kv_byte_off,
                }
            ),
    {
        Call::QkvNormQ40 {
            n_q,
            n_kv,
            hd,
            eps,
            q,
            qw,
            cos_sin,
            cos_sin_off,
            k,
            kw,
            v,
            q_out,
            k_dst,
            v_dst,
            kv_byte_off,
        }
    }

    /// The same for every row of a batch.
    #[verifier::allow_in_spec]
    pub fn rmsnorm_per_head_qkv_q40_batch(
        n_q: usize,
        n_kv: usize,
        hd: usize,
        batch: usize,
        eps: u32,
        q: Buf,
        qw: Buf,
        cos_sin: Buf,
        cos_sin_off: usize,
        k: Buf,
        kw: Buf,
        v: Buf,
        q_out: Buf,
        k_dst: Buf,
        v_dst: Buf,
        kv_byte_off: usize,
    ) -> Call
        returns
            (
                Call::QkvNormQ40Batch {
                    n_q,
                    n_kv,
                    hd,
                    batch,
                    eps,
                    q,
                    qw,
                    cos_sin,
                    cos_sin_off,
                    k,
                    kw,
                    v,
                    q_out,
                    k_dst,
                    v_dst,
                    kv_byte_off,
                }
            ),
    {
        Call::QkvNormQ40Batch {
            n_q,
            n_kv,
            hd,
            batch,
            eps,
            q,
            qw,
            cos_sin,
            cos_sin_off,
            k,
            kw,
            v,
            q_out,
            k_dst,
            v_dst,
            kv_byte_off,
        }
    }

    /// Every head of every row of a batch normalised and rotated.
    #[verifier::allow_in_spec]
    pub fn rmsnorm_per_head_rope_batch(
        n_heads: usize,
        hd: usize,
        batch: usize,
        eps: u32,
        x: Buf,
        w: Buf,
        cos_sin: Buf,
        cos_sin_off: usize,
        y: Buf,
    ) -> Call
        returns
            (
                Call::RmsNormPerHeadRopeBatch {
                    n_heads,
                    hd,
                    batch,
                    eps,
                    x,
                    w,
                    cos_sin,
                    cos_sin_off,
                    y,
                }
            ),
    {
        Call::RmsNormPerHeadRopeBatch { n_heads, hd, batch, eps, x, w, cos_sin, cos_sin_off, y }
    }

    /// Attention of every row of a batch.
    #[verifier::allow_in_spec]
    pub fn sdpa_hybrid_kv_batch(
        n_q: usize,
        batch: usize,
        hd: usize,
        max_t: usize,
        attn_t: u32,
        kv_dtype: DType,
        q: Buf,
        k: Buf,
        v: Buf,
        meta: Buf,
        tmp: Buf,
        out: Buf,
    ) -> Call
        returns
            (Call::SdpaBatch { n_q, batch, hd, max_t, attn_t, kv_dtype, q, k, v, meta, tmp, out }),
    {
        Call::SdpaBatch { n_q, batch, hd, max_t, attn_t, kv_dtype, q, k, v, meta, tmp, out }
    }

    /// GELU of every row of a gate times a slice of the row of a context.
    #[verifier::allow_in_spec]
    pub fn gelu_mul_strided(
        n: usize,
        rows: usize,
        gate: Buf,
        up: Buf,
        up_off: usize,
        up_stride: usize,
        y: Buf,
    ) -> Call
        returns
            (Call::GeluMulStrided { n, rows, gate, up, up_off, up_stride, y }),
    {
        Call::GeluMulStrided { n, rows, gate, up, up_off, up_stride, y }
    }

    /// A half-precision matrix times a vector.
    #[verifier::allow_in_spec]
    pub fn matvec(rows: usize, cols: usize, a: Buf, x: Buf, y: Buf) -> Call
        returns
            (Call::Matvec { rows, cols, weight: DType::F16, a, x, y }),
    {
        Call::Matvec { rows, cols, weight: DType::F16, a, x, y }
    }

    /// A packed matrix times a vector.
    #[verifier::allow_in_spec]
    pub fn matvec_q4k_prim(rows: usize, cols: usize, a: Buf, x: Buf, y: Buf) -> Call
        returns
            (Call::Matvec { rows, cols, weight: DType::Q4K, a, x, y }),
    {
        Call::Matvec { rows, cols, weight: DType::Q4K, a, x, y }
    }

    /// Three half-precision matrices times one vector.
    #[verifier::allow_in_spec]
    pub fn matvec_qkv(
        q_rows: usize,
        kv_rows: usize,
        cols: usize,
        wq: Buf,
        wk: Buf,
        wv: Buf,
        x: Buf,
        q: Buf,
        k: Buf,
        v: Buf,
    ) -> Call
        returns
            (
                Call::MatvecQkv {
                    q_rows,
                    kv_rows,
                    cols,
                    wq_dtype: DType::F16,
                    wk_dtype: DType::F16,
                    wv_dtype: DType::F16,
                    wq,
                    wk,
                    wv,
                    x,
                    q,
                    k,
                    v,
                }
            ),
    {
        Call::MatvecQkv {
            q_rows,
            kv_rows,
            cols,
            wq_dtype: DType::F16,
            wk_dtype: DType::F16,
            wv_dtype: DType::F16,
            wq,
            wk,
            wv,
            x,
            q,
            k,
            v,
        }
    }

    /// Three matrices of one element type times one vector.
    #[verifier::allow_in_spec]
    pub fn matvec_qkv_wd(
        q_rows: usize,
        kv_rows: usize,
        cols: usize,
        weight: DType,
        wq: Buf,
        wk: Buf,
        wv: Buf,
        x: Buf,
        q: Buf,
        k: Buf,
        v: Buf,
    ) -> Call
        returns
            (
                Call::MatvecQkv {
                    q_rows,
                    kv_rows,
                    cols,
                    wq_dtype: weight,
                    wk_dtype: weight,
                    wv_dtype: weight,
                    wq,
                    wk,
                    wv,
                    x,
                    q,
                    k,
                    v,
                }
            ),
    {
        Call::MatvecQkv {
            q_rows,
            kv_rows,
            cols,
            wq_dtype: weight,
            wk_dtype: weight,
            wv_dtype: weight,
            wq,
            wk,
            wv,
            x,
            q,
            k,
            v,
        }
    }

    /// A half-precision matrix times a normalised vector.
    #[verifier::allow_in_spec]
    pub fn rmsnorm_matvec(
        rows: usize,
        cols: usize,
        eps: u32,
        x: Buf,
        w_norm: Buf,
        w_mat: Buf,
        y: Buf,
    ) -> Call
        returns
            (Call::RmsNormMatvec { rows, cols, eps, weight: DType::F16, x, w_norm, w_mat, y }),
    {
        Call::RmsNormMatvec { rows, cols, eps, weight: DType::F16, x, w_norm, w_mat, y }
    }

    /// Three half-precision matrices times one normalised vector.
    #[verifier::allow_in_spec]
    pub fn rmsnorm_matvec_qkv(
        q_rows: usize,
        kv_rows: usize,
        cols: usize,
        eps: u32,
        x: Buf,
        w_norm: Buf,
        wq: Buf,
        wk: Buf,
        wv: Buf,
        q: Buf,
        k: Buf,
        v: Buf,
    ) -> Call
        returns
            (
                Call::RmsNormMatvecQkv {
                    q_rows,
                    kv_rows,
                    cols,
                    eps,
                    wq_dtype: DType::F16,
                    wk_dtype: DType::F16,
                    wv_dtype: DType::F16,
                    x,
                    w_norm,
                    wq,
                    wk,
                    wv,
                    q,
                    k,
                    v,
                }
            ),
    {
        Call::RmsNormMatvecQkv {
            q_rows,
            kv_rows,
            cols,
            eps,
            wq_dtype: DType::F16,
            wk_dtype: DType::F16,
            wv_dtype: DType::F16,
            x,
            w_norm,
            wq,
            wk,
            wv,
            q,
            k,
            v,
        }
    }

    /// Three matrices of one element type times one normalised vector.
    #[verifier::allow_in_spec]
    pub fn rmsnorm_matvec_qkv_wd(
        q_rows: usize,
        kv_rows: usize,
        cols: usize,
        eps: u32,
        weight: DType,
        x: Buf,
        w_norm: Buf,
        wq: Buf,
        wk: Buf,
        wv: Buf,
        q: Buf,
        k: Buf,
        v: Buf,
    ) -> Call
        returns
            (
                Call::RmsNormMatvecQkv {
                    q_rows,
                    kv_rows,
                    cols,
                    eps,
                    wq_dtype: weight,
                    wk_dtype: weight,
                    wv_dtype: weight,
                    x,
                    w_norm,
                    wq,
                    wk,
                    wv,
                    q,
                    k,
                    v,
                }
            ),
    {
        Call::RmsNormMatvecQkv {
            q_rows,
            kv_rows,
            cols,
            eps,
            wq_dtype: weight,
            wk_dtype: weight,
            wv_dtype: weight,
            x,
            w_norm,
            wq,
            wk,
            wv,
            q,
            k,
            v,
        }
    }

    /// A normalised vector.
    #[verifier::allow_in_spec]
    pub fn rmsnorm(n: usize, eps: u32, x: Buf, w: Buf, y: Buf) -> Call
        returns
            (Call::RmsNorm { n, eps, x, x_off: 0, w, y, y_off: 0 }),
    {
        Call::RmsNorm { n, eps, x, x_off: 0, w, y, y_off: 0 }
    }

    /// Every head normalised and rotated.
    #[verifier::allow_in_spec]
    pub fn rmsnorm_per_head_rope(
        n_heads: usize,
        hd: usize,
        eps: u32,
        x: Buf,
        w: Buf,
        cos_sin: Buf,
        y: Buf,
    ) -> Call
        returns
            (
                Call::RmsNormPerHeadRope {
                    n_heads,
                    hd,
                    eps,
                    x,
                    w,
                    cos_sin,
                    cos_sin_off: 0,
                    y,
                    y_off: 0,
                }
            ),
    {
        Call::RmsNormPerHeadRope { n_heads, hd, eps, x, w, cos_sin, cos_sin_off: 0, y, y_off: 0 }
    }

    /// Every head normalised without weights.
    #[verifier::allow_in_spec]
    pub fn rmsnorm_noweight(n_heads: usize, hd: usize, eps: u32, x: Buf, y: Buf) -> Call
        returns
            (Call::RmsNormNoWeight { n_heads, hd, eps, x, y, y_off: 0 }),
    {
        Call::RmsNormNoWeight { n_heads, hd, eps, x, y, y_off: 0 }
    }

    /// GELU of a gate times another vector.
    #[verifier::allow_in_spec]
    pub fn gelu_mul(n: usize, gate: Buf, up: Buf, y: Buf) -> Call
        returns
            (Call::GeluMul { n, gate, up, up_off: 0, y }),
    {
        Call::GeluMul { n, gate, up, up_off: 0, y }
    }

    /// GELU of one half-precision product times another.
    #[verifier::allow_in_spec]
    pub fn matvec_gate_up_gelu(rows: usize, cols: usize, gate: Buf, up: Buf, x: Buf, y: Buf) -> Call
        returns
            (Call::GateUpGelu { rows, cols, weight: DType::F16, gate, up, x, y }),
    {
        Call::GateUpGelu { rows, cols, weight: DType::F16, gate, up, x, y }
    }

    /// GELU of one half-precision product times another, of a normalised vector.
    #[verifier::allow_in_spec]
    pub fn rmsnorm_matvec_gate_up_gelu(
        rows: usize,
        cols: usize,
        eps: u32,
        x: Buf,
        w_norm: Buf,
        gate: Buf,
        up: Buf,
        y: Buf,
    ) -> Call
        returns
            (
                Call::RmsNormGateUpGelu {
                    rows,
                    cols,
                    eps,
                    weight: DType::F16,
                    x,
                    w_norm,
                    gate,
                    up,
                    y,
                }
            ),
    {
        Call::RmsNormGateUpGelu { rows, cols, eps, weight: DType::F16, x, w_norm, gate, up, y }
    }

    /// Attention with half-precision keys and values.
    #[verifier::allow_in_spec]
    pub fn sdpa_naive(
        n_q: usize,
        hd: usize,
        max_t: usize,
        q: Buf,
        k: Buf,
        v: Buf,
        meta: Buf,
        out: Buf,
    ) -> Call
        returns
            (Call::Sdpa { n_q, hd, max_t, kv_dtype: DType::F16, q, k, v, meta, out }),
    {
        Call::Sdpa { n_q, hd, max_t, kv_dtype: DType::F16, q, k, v, meta, out }
    }

    /// Attention: in one launch over few positions, partitioned over many.
    #[verifier::allow_in_spec]
    pub fn sdpa_hybrid_kv(
        n_q: usize,
        hd: usize,
        max_t: usize,
        attn_t: u32,
        kv_dtype: DType,
        q: Buf,
        k: Buf,
        v: Buf,
        meta: Buf,
        tmp: Buf,
        out: Buf,
    ) -> Call
        returns
            (if attn_t >= SDPA_MWG_THRESHOLD {
            Call::SdpaMwg { n_q, hd, max_t, kv_dtype, q, k, v, meta, tmp, out }
        } else {
            Call::Sdpa { n_q, hd, max_t, kv_dtype, q, k, v, meta, out }
        }),
    {
        if attn_t >= SDPA_MWG_THRESHOLD {
            Call::SdpaMwg { n_q, hd, max_t, kv_dtype, q, k, v, meta, tmp, out }
        } else {
            Call::Sdpa { n_q, hd, max_t, kv_dtype, q, k, v, meta, out }
        }
    }

    /// A scaled half-precision copy; offsets count elements.
    #[verifier::allow_in_spec]
    pub fn copy_scale(
        n: usize,
        scale: u32,
        src: Buf,
        src_off: usize,
        dst: Buf,
        dst_off: usize,
    ) -> Call
        requires
            src_off * 2 <= usize::MAX,
            dst_off * 2 <= usize::MAX,
        returns
            (
                Call::CopyScale {
                    n,
                    scale,
                    dtype: DType::F16,
                    src,
                    src_byte_off: (src_off * 2) as usize,
                    dst,
                    dst_byte_off: (dst_off * 2) as usize,
                }
            ),
    {
        Call::CopyScale {
            n,
            scale,
            dtype: DType::F16,
            src,
            src_byte_off: (src_off * 2) as usize,
            dst,
            dst_byte_off: (dst_off * 2) as usize,
        }
    }
}

/// What a call does on the device.
#[verifier::ext_equal]
pub ghost enum WorkV {
    Launch { kernel: Kernel, ins: Seq<Place>, outs: Seq<Place> },
    /// Later launches see what earlier ones wrote.
    Barrier,
}

/// What a call does on the device.
#[derive(Debug)]
pub enum Work {
    Launch { kernel: Kernel, ins: Vec<Place>, outs: Vec<Place> },
    /// Later launches see what earlier ones wrote.
    Barrier,
}

impl View for Work {
    type V = WorkV;

    open spec fn view(&self) -> WorkV {
        match *self {
            Work::Launch { kernel, ins, outs } => WorkV::Launch { kernel, ins: ins@, outs: outs@ },
            Work::Barrier => WorkV::Barrier,
        }
    }
}

pub open spec fn works_view(v: Seq<Work>) -> Seq<WorkV> {
    v.map_values(|w: Work| w@)
}

impl Call {
    /// Whether the byte offsets of the call are machine integers, and its kernels fit.
    pub open spec fn fits(self) -> bool {
        match self {
            Call::Matvec { rows, cols, weight, .. } => {
                (Kernel::Matvec { rows, cols, weight }).fits()
            },
            Call::MatvecAt { rows, cols, x_off, y_off, .. } => {
                (Kernel::Matvec { rows, cols, weight: DType::Q4K }).fits()
                    && x_off * 2 <= usize::MAX
                    && y_off * 2 <= usize::MAX
            },
            Call::MatvecQkv {
                q_rows,
                kv_rows,
                cols,
                wq_dtype,
                wk_dtype,
                wv_dtype,
                wq,
                wk,
                wv,
                ..
            } => {
                (
                    Kernel::MatvecQkv {
                        q_rows,
                        kv_rows,
                        cols,
                        wq: wq_dtype,
                        wk: wk_dtype,
                        wv: wv_dtype,
                    }
                ).fits()
            },
            Call::RmsNormMatvec { rows, cols, eps, weight, .. } => {
                (Kernel::RmsNormMatvec { rows, cols, eps, weight }).fits()
            },
            Call::RmsNormMatvecQkv {
                q_rows,
                kv_rows,
                cols,
                eps,
                wq_dtype,
                wk_dtype,
                wv_dtype,
                wq,
                wk,
                wv,
                ..
            } => {
                (
                    Kernel::RmsNormMatvecQkv {
                        q_rows,
                        kv_rows,
                        cols,
                        eps,
                        wq: wq_dtype,
                        wk: wk_dtype,
                        wv: wv_dtype,
                    }
                ).fits()
            },
            Call::RmsNorm { n, eps, x_off, y_off, .. } => {
                (Kernel::RmsNorm { n, eps }).fits()
                    && x_off * 2 <= usize::MAX
                    && y_off * 2 <= usize::MAX
            },
            Call::RmsNormAdd { n, eps, .. } => (Kernel::RmsNormAdd { n, eps }).fits(),
            Call::RmsNormAddScale { n, eps, scale, .. } => {
                (Kernel::RmsNormAddScale { n, eps, scale }).fits()
            },
            Call::RmsNormAddThenRmsNorm { n, eps, .. } => {
                (Kernel::RmsNormAddThenRmsNorm { n, eps }).fits()
            },
            Call::RmsNormPerHead { n_heads, hd, eps, .. } => {
                (Kernel::RmsNormPerHead { n_heads, hd, eps }).fits()
            },
            Call::RmsNormPerHeadRope { n_heads, hd, eps, cos_sin_off, y_off, .. } => {
                (Kernel::RmsNormPerHeadRope { n_heads, hd, eps }).fits()
                    && cos_sin_off * 2 <= usize::MAX
                    && y_off * 2 <= usize::MAX
            },
            Call::RmsNormNoWeight { n_heads, hd, eps, y_off, .. } => {
                (Kernel::RmsNormNoWeight { n_heads, hd, eps }).fits() && y_off * 2 <= usize::MAX
            },
            Call::Add { n, .. } => (Kernel::Add { n }).fits(),
            Call::GeluMul { n, up_off, .. } => (Kernel::GeluMul { n, up_off }).fits(),
            Call::MatvecGeluMul { rows, cols, weight, ctx_off, .. } => {
                (Kernel::MatvecGeluMul { rows, cols, weight }).fits() && ctx_off * 2 <= usize::MAX
            },
            Call::MatvecGeluMulProj {
                gate_rows,
                cols,
                proj_rows,
                weight,
                ctx_off,
                eps,
                scale,
                ..
            } => {
                (
                    Kernel::MatvecGeluMulProj { gate_rows, cols, proj_rows, weight, eps, scale }
                ).fits()
                    && ctx_off * 2 <= usize::MAX
            },
            Call::MatvecRmsNormAdd { rows, cols, eps, weight, .. } => {
                (Kernel::Matvec { rows, cols, weight }).fits()
                    && (Kernel::RmsNormAdd { n: rows, eps }).fits()
            },
            Call::MatvecRmsNormAddScale { rows, cols, eps, scale, weight, .. } => {
                (Kernel::Matvec { rows, cols, weight }).fits()
                    && (Kernel::RmsNormAddScale { n: rows, eps, scale }).fits()
            },
            Call::AddScale { n, scale, .. } => (Kernel::AddScale { n, scale }).fits(),
            Call::GateUpGelu { rows, cols, weight, .. } => {
                (Kernel::GateUpGelu { rows, cols, weight }).fits()
            },
            Call::RmsNormGateUpGelu { rows, cols, eps, weight, .. } => {
                (Kernel::RmsNormGateUpGelu { rows, cols, eps, weight }).fits()
            },
            Call::ScaleConst { n, scale, .. } => (Kernel::ScaleConst { n, scale }).fits(),
            Call::Rope { n_heads, hd, .. } => (Kernel::Rope { n_heads, hd }).fits(),
            Call::Sdpa { n_q, hd, max_t, kv_dtype, .. } => {
                (Kernel::Sdpa { n_q, hd, max_t, kv: kv_dtype }).fits()
            },
            Call::SdpaMwg { n_q, hd, max_t, kv_dtype, .. } => {
                (Kernel::SdpaMwgPart { n_q, hd, max_t, nwg: SDPA_MWG_NWG, kv: kv_dtype }).fits()
                    && (Kernel::SdpaMwgReduce { n_q, hd, nwg: SDPA_MWG_NWG }).fits()
            },
            Call::QuantizeQ40 { n, .. } => (Kernel::QuantizeQ40 { n }).fits(),
            Call::RmsNormPerHeadRopeQ40 { n_heads, hd, eps, cos_sin_off, .. } => {
                (Kernel::RmsNormPerHeadRopeQ40 { n_heads, hd, eps }).fits()
                    && cos_sin_off * 2 <= usize::MAX
            },
            Call::RmsNormPerHeadQ40 { n_heads, hd, eps, .. } => {
                (Kernel::RmsNormPerHeadQ40 { n_heads, hd, eps }).fits()
            },
            Call::CopySlice { n, src_off, dst_off, .. } => {
                (Kernel::CopySlice { n, src_off, dst_off }).fits()
            },
            Call::CopyScale { n, scale, dtype, .. } => {
                (Kernel::CopyScale { n, scale, dtype }).fits()
            },
            Call::SoftcapArgmax { n, cap, .. } => (Kernel::SoftcapArgmax { n, cap }).fits(),
            _ => true,
        }
    }

    /// Checks the offsets and the kernels of the call.
    pub fn check(&self) -> (r: bool)
        ensures
            r == self.fits(),
    {
        match *self {
            Call::Matvec { rows, cols, weight, .. } => {
                (Kernel::Matvec { rows, cols, weight }).check()
            },
            Call::MatvecAt { rows, cols, x_off, y_off, .. } => {
                (Kernel::Matvec { rows, cols, weight: DType::Q4K }).check()
                    && mul_ok(x_off, 2)
                    && mul_ok(y_off, 2)
            },
            Call::MatvecQkv {
                q_rows,
                kv_rows,
                cols,
                wq_dtype,
                wk_dtype,
                wv_dtype,
                wq,
                wk,
                wv,
                ..
            } => {
                (
                    Kernel::MatvecQkv {
                        q_rows,
                        kv_rows,
                        cols,
                        wq: wq_dtype,
                        wk: wk_dtype,
                        wv: wv_dtype,
                    }
                ).check()
            },
            Call::RmsNormMatvec { rows, cols, eps, weight, .. } => {
                (Kernel::RmsNormMatvec { rows, cols, eps, weight }).check()
            },
            Call::RmsNormMatvecQkv {
                q_rows,
                kv_rows,
                cols,
                eps,
                wq_dtype,
                wk_dtype,
                wv_dtype,
                wq,
                wk,
                wv,
                ..
            } => {
                (
                    Kernel::RmsNormMatvecQkv {
                        q_rows,
                        kv_rows,
                        cols,
                        eps,
                        wq: wq_dtype,
                        wk: wk_dtype,
                        wv: wv_dtype,
                    }
                ).check()
            },
            Call::RmsNorm { n, eps, x_off, y_off, .. } => {
                (Kernel::RmsNorm { n, eps }).check() && mul_ok(x_off, 2) && mul_ok(y_off, 2)
            },
            Call::RmsNormAdd { n, eps, .. } => (Kernel::RmsNormAdd { n, eps }).check(),
            Call::RmsNormAddScale { n, eps, scale, .. } => {
                (Kernel::RmsNormAddScale { n, eps, scale }).check()
            },
            Call::RmsNormAddThenRmsNorm { n, eps, .. } => {
                (Kernel::RmsNormAddThenRmsNorm { n, eps }).check()
            },
            Call::RmsNormPerHead { n_heads, hd, eps, .. } => {
                (Kernel::RmsNormPerHead { n_heads, hd, eps }).check()
            },
            Call::RmsNormPerHeadRope { n_heads, hd, eps, cos_sin_off, y_off, .. } => {
                (Kernel::RmsNormPerHeadRope { n_heads, hd, eps }).check()
                    && mul_ok(cos_sin_off, 2)
                    && mul_ok(y_off, 2)
            },
            Call::RmsNormNoWeight { n_heads, hd, eps, y_off, .. } => {
                (Kernel::RmsNormNoWeight { n_heads, hd, eps }).check() && mul_ok(y_off, 2)
            },
            Call::Add { n, .. } => (Kernel::Add { n }).check(),
            Call::GeluMul { n, up_off, .. } => (Kernel::GeluMul { n, up_off }).check(),
            Call::MatvecGeluMul { rows, cols, weight, ctx_off, .. } => {
                (Kernel::MatvecGeluMul { rows, cols, weight }).check() && mul_ok(ctx_off, 2)
            },
            Call::MatvecGeluMulProj {
                gate_rows,
                cols,
                proj_rows,
                weight,
                ctx_off,
                eps,
                scale,
                ..
            } => {
                (
                    Kernel::MatvecGeluMulProj { gate_rows, cols, proj_rows, weight, eps, scale }
                ).check()
                    && mul_ok(ctx_off, 2)
            },
            Call::MatvecRmsNormAdd { rows, cols, eps, weight, .. } => {
                (Kernel::Matvec { rows, cols, weight }).check()
                    && (Kernel::RmsNormAdd { n: rows, eps }).check()
            },
            Call::MatvecRmsNormAddScale { rows, cols, eps, scale, weight, .. } => {
                (Kernel::Matvec { rows, cols, weight }).check()
                    && (Kernel::RmsNormAddScale { n: rows, eps, scale }).check()
            },
            Call::AddScale { n, scale, .. } => (Kernel::AddScale { n, scale }).check(),
            Call::GateUpGelu { rows, cols, weight, .. } => {
                (Kernel::GateUpGelu { rows, cols, weight }).check()
            },
            Call::RmsNormGateUpGelu { rows, cols, eps, weight, .. } => {
                (Kernel::RmsNormGateUpGelu { rows, cols, eps, weight }).check()
            },
            Call::ScaleConst { n, scale, .. } => (Kernel::ScaleConst { n, scale }).check(),
            Call::Rope { n_heads, hd, .. } => (Kernel::Rope { n_heads, hd }).check(),
            Call::Sdpa { n_q, hd, max_t, kv_dtype, .. } => {
                (Kernel::Sdpa { n_q, hd, max_t, kv: kv_dtype }).check()
            },
            Call::SdpaMwg { n_q, hd, max_t, kv_dtype, .. } => {
                (Kernel::SdpaMwgPart { n_q, hd, max_t, nwg: SDPA_MWG_NWG, kv: kv_dtype }).check()
                    && (Kernel::SdpaMwgReduce { n_q, hd, nwg: SDPA_MWG_NWG }).check()
            },
            Call::QuantizeQ40 { n, .. } => (Kernel::QuantizeQ40 { n }).check(),
            Call::RmsNormPerHeadRopeQ40 { n_heads, hd, eps, cos_sin_off, .. } => {
                (Kernel::RmsNormPerHeadRopeQ40 { n_heads, hd, eps }).check()
                    && mul_ok(cos_sin_off, 2)
            },
            Call::RmsNormPerHeadQ40 { n_heads, hd, eps, .. } => {
                (Kernel::RmsNormPerHeadQ40 { n_heads, hd, eps }).check()
            },
            Call::CopySlice { n, src_off, dst_off, .. } => {
                (Kernel::CopySlice { n, src_off, dst_off }).check()
            },
            Call::CopyScale { n, scale, dtype, .. } => {
                (Kernel::CopyScale { n, scale, dtype }).check()
            },
            Call::SoftcapArgmax { n, cap, .. } => (Kernel::SoftcapArgmax { n, cap }).check(),
            _ => true,
        }
    }

    /// What the call does on the device, in order; nothing is known here of the calls over
    /// batches and rows chosen on the device, which have no kernel.
    pub open spec fn works(self) -> Option<Seq<WorkV>> {
        match self {
            Call::Matvec { rows, cols, weight, a, x, y } => {
                Some(
                    seq![
                        WorkV::Launch {
                            kernel: Kernel::Matvec { rows, cols, weight },
                            ins: seq![start(a), start(x)],
                            outs: seq![start(y)],
                        },
                    ],
                )
            },
            Call::MatvecAt { rows, cols, a, x, x_off, y, y_off } => {
                Some(
                    seq![
                        WorkV::Launch {
                            kernel: Kernel::Matvec { rows, cols, weight: DType::Q4K },
                            ins: seq![start(a), at(x, (x_off * 2) as u64)],
                            outs: seq![at(y, (y_off * 2) as u64)],
                        },
                    ],
                )
            },
            Call::MatvecQkv {
                q_rows,
                kv_rows,
                cols,
                wq_dtype,
                wk_dtype,
                wv_dtype,
                wq,
                wk,
                wv,
                x,
                q,
                k,
                v,
            } => {
                Some(
                    seq![
                        WorkV::Launch {
                            kernel: Kernel::MatvecQkv {
                                q_rows,
                                kv_rows,
                                cols,
                                wq: wq_dtype,
                                wk: wk_dtype,
                                wv: wv_dtype,
                            },
                            ins: seq![start(wq), start(wk), start(wv), start(x)],
                            outs: seq![start(q), start(k), start(v)],
                        },
                    ],
                )
            },
            Call::RmsNormMatvec { rows, cols, eps, weight, x, w_norm, w_mat, y } => {
                Some(
                    seq![
                        WorkV::Launch {
                            kernel: Kernel::RmsNormMatvec { rows, cols, eps, weight },
                            ins: seq![start(w_mat), start(x), start(w_norm)],
                            outs: seq![start(y)],
                        },
                    ],
                )
            },
            Call::RmsNormMatvecQkv {
                q_rows,
                kv_rows,
                cols,
                eps,
                wq_dtype,
                wk_dtype,
                wv_dtype,
                x,
                w_norm,
                wq,
                wk,
                wv,
                q,
                k,
                v,
            } => {
                Some(
                    seq![
                        WorkV::Launch {
                            kernel: Kernel::RmsNormMatvecQkv {
                                q_rows,
                                kv_rows,
                                cols,
                                eps,
                                wq: wq_dtype,
                                wk: wk_dtype,
                                wv: wv_dtype,
                            },
                            ins: seq![start(wq), start(wk), start(wv), start(x), start(w_norm)],
                            outs: seq![start(q), start(k), start(v)],
                        },
                    ],
                )
            },
            Call::RmsNorm { n, eps, x, x_off, w, y, y_off } => {
                Some(
                    seq![
                        WorkV::Launch {
                            kernel: Kernel::RmsNorm { n, eps },
                            ins: seq![at(x, (x_off * 2) as u64), start(w)],
                            outs: seq![at(y, (y_off * 2) as u64)],
                        },
                    ],
                )
            },
            Call::RmsNormAdd { n, eps, x, w, residual, y } => {
                Some(
                    seq![
                        WorkV::Launch {
                            kernel: Kernel::RmsNormAdd { n, eps },
                            ins: seq![start(x), start(w), start(residual)],
                            outs: seq![start(y)],
                        },
                    ],
                )
            },
            Call::RmsNormAddScale { n, eps, scale, x, w, residual, y } => {
                Some(
                    seq![
                        WorkV::Launch {
                            kernel: Kernel::RmsNormAddScale { n, eps, scale },
                            ins: seq![start(x), start(w), start(residual)],
                            outs: seq![start(y)],
                        },
                    ],
                )
            },
            Call::RmsNormAddThenRmsNorm { n, eps, y, w_post, residual, w_ffn, out_x, out_x2 } => {
                Some(
                    seq![
                        WorkV::Launch {
                            kernel: Kernel::RmsNormAddThenRmsNorm { n, eps },
                            ins: seq![start(y), start(w_post), start(residual), start(w_ffn)],
                            outs: seq![start(out_x), start(out_x2)],
                        },
                    ],
                )
            },
            Call::RmsNormPerHead { n_heads, hd, eps, x, w, y } => {
                Some(
                    seq![
                        WorkV::Launch {
                            kernel: Kernel::RmsNormPerHead { n_heads, hd, eps },
                            ins: seq![start(x), start(w)],
                            outs: seq![start(y)],
                        },
                    ],
                )
            },
            Call::RmsNormPerHeadRope { n_heads, hd, eps, x, w, cos_sin, cos_sin_off, y, y_off } => {
                Some(
                    seq![
                        WorkV::Launch {
                            kernel: Kernel::RmsNormPerHeadRope { n_heads, hd, eps },
                            ins: seq![start(x), start(w), at(cos_sin, (cos_sin_off * 2) as u64)],
                            outs: seq![at(y, (y_off * 2) as u64)],
                        },
                    ],
                )
            },
            Call::RmsNormNoWeight { n_heads, hd, eps, x, y, y_off } => {
                Some(
                    seq![
                        WorkV::Launch {
                            kernel: Kernel::RmsNormNoWeight { n_heads, hd, eps },
                            ins: seq![start(x), start(x)],
                            outs: seq![at(y, (y_off * 2) as u64)],
                        },
                    ],
                )
            },
            Call::Add { n, a, b, y } => {
                Some(
                    seq![
                        WorkV::Launch {
                            kernel: Kernel::Add { n },
                            ins: seq![start(a), start(b)],
                            outs: seq![start(y)],
                        },
                    ],
                )
            },
            Call::GeluMul { n, gate, up, up_off, y } => {
                Some(
                    seq![
                        WorkV::Launch {
                            kernel: Kernel::GeluMul { n, up_off },
                            ins: seq![start(gate), start(up)],
                            outs: seq![start(y)],
                        },
                    ],
                )
            },
            Call::MatvecGeluMul { rows, cols, weight, w, x, ctx, ctx_off, y } => {
                Some(
                    seq![
                        WorkV::Launch {
                            kernel: Kernel::MatvecGeluMul { rows, cols, weight },
                            ins: seq![start(w), start(x), at(ctx, (ctx_off * 2) as u64)],
                            outs: seq![start(y)],
                        },
                    ],
                )
            },
            Call::MatvecGeluMulProj {
                gate_rows,
                cols,
                proj_rows,
                weight,
                w_gate,
                x,
                ctx,
                ctx_off,
                w_proj,
                w_norm,
                residual,
                eps,
                scale,
                y,
            } => {
                Some(
                    seq![
                        WorkV::Launch {
                            kernel: Kernel::MatvecGeluMulProj {
                                gate_rows,
                                cols,
                                proj_rows,
                                weight,
                                eps,
                                scale,
                            },
                            ins: seq![
                                start(w_gate),
                                start(x),
                                at(ctx, (ctx_off * 2) as u64),
                                start(w_proj),
                                start(w_norm),
                                start(residual),
                            ],
                            outs: seq![start(y)],
                        },
                    ],
                )
            },
            Call::MatvecRmsNormAdd { rows, cols, eps, weight, w, x, w_norm, residual, y } => {
                Some(
                    seq![
                        WorkV::Launch {
                            kernel: Kernel::Matvec { rows, cols, weight },
                            ins: seq![start(w), start(x)],
                            outs: seq![start(Buf::Scratch { n: rows })],
                        },
                        WorkV::Barrier,
                        WorkV::Launch {
                            kernel: Kernel::RmsNormAdd { n: rows, eps },
                            ins: seq![
                                start(Buf::Scratch { n: rows }),
                                start(w_norm),
                                start(residual),
                            ],
                            outs: seq![start(y)],
                        },
                    ],
                )
            },
            Call::MatvecRmsNormAddScale {
                rows,
                cols,
                eps,
                scale,
                weight,
                w,
                x,
                w_norm,
                residual,
                y,
            } => {
                Some(
                    seq![
                        WorkV::Launch {
                            kernel: Kernel::Matvec { rows, cols, weight },
                            ins: seq![start(w), start(x)],
                            outs: seq![start(Buf::Scratch { n: rows })],
                        },
                        WorkV::Barrier,
                        WorkV::Launch {
                            kernel: Kernel::RmsNormAddScale { n: rows, eps, scale },
                            ins: seq![
                                start(Buf::Scratch { n: rows }),
                                start(w_norm),
                                start(residual),
                            ],
                            outs: seq![start(y)],
                        },
                    ],
                )
            },
            Call::AddScale { n, scale, a, b, y } => {
                Some(
                    seq![
                        WorkV::Launch {
                            kernel: Kernel::AddScale { n, scale },
                            ins: seq![start(a), start(b)],
                            outs: seq![start(y)],
                        },
                    ],
                )
            },
            Call::GateUpGelu { rows, cols, weight, gate, up, x, y } => {
                Some(
                    seq![
                        WorkV::Launch {
                            kernel: Kernel::GateUpGelu { rows, cols, weight },
                            ins: seq![start(gate), start(up), start(x)],
                            outs: seq![start(y)],
                        },
                    ],
                )
            },
            Call::RmsNormGateUpGelu { rows, cols, eps, weight, x, w_norm, gate, up, y } => {
                Some(
                    seq![
                        WorkV::Launch {
                            kernel: Kernel::RmsNormGateUpGelu { rows, cols, eps, weight },
                            ins: seq![start(gate), start(up), start(x), start(w_norm)],
                            outs: seq![start(y)],
                        },
                    ],
                )
            },
            Call::ScaleConst { n, scale, x, y } => {
                Some(
                    seq![
                        WorkV::Launch {
                            kernel: Kernel::ScaleConst { n, scale },
                            ins: seq![start(x)],
                            outs: seq![start(y)],
                        },
                    ],
                )
            },
            Call::Rope { n_heads, hd, x, cos_sin, y } => {
                Some(
                    seq![
                        WorkV::Launch {
                            kernel: Kernel::Rope { n_heads, hd },
                            ins: seq![start(x), start(cos_sin)],
                            outs: seq![start(y)],
                        },
                    ],
                )
            },
            Call::Sdpa { n_q, hd, max_t, kv_dtype, q, k, v, meta, out } => {
                Some(
                    seq![
                        WorkV::Launch {
                            kernel: Kernel::Sdpa { n_q, hd, max_t, kv: kv_dtype },
                            ins: seq![start(q), start(k), start(v), start(meta)],
                            outs: seq![start(out)],
                        },
                    ],
                )
            },
            Call::SdpaMwg { n_q, hd, max_t, kv_dtype, q, k, v, meta, tmp, out } => {
                Some(
                    seq![
                        WorkV::Launch {
                            kernel: Kernel::SdpaMwgPart {
                                n_q,
                                hd,
                                max_t,
                                nwg: SDPA_MWG_NWG,
                                kv: kv_dtype,
                            },
                            ins: seq![start(q), start(k), start(v), start(meta)],
                            outs: seq![start(tmp)],
                        },
                        WorkV::Launch {
                            kernel: Kernel::SdpaMwgReduce { n_q, hd, nwg: SDPA_MWG_NWG },
                            ins: seq![start(tmp)],
                            outs: seq![start(out)],
                        },
                    ],
                )
            },
            Call::QuantizeQ40 { n, src, dst, dst_byte_off } => {
                Some(
                    seq![
                        WorkV::Launch {
                            kernel: Kernel::QuantizeQ40 { n },
                            ins: seq![start(src)],
                            outs: seq![at(dst, dst_byte_off as u64)],
                        },
                    ],
                )
            },
            Call::RmsNormPerHeadRopeQ40 {
                n_heads,
                hd,
                eps,
                x,
                w,
                cos_sin,
                cos_sin_off,
                dst,
                dst_byte_off,
            } => {
                Some(
                    seq![
                        WorkV::Launch {
                            kernel: Kernel::RmsNormPerHeadRopeQ40 { n_heads, hd, eps },
                            ins: seq![start(x), start(w), at(cos_sin, (cos_sin_off * 2) as u64)],
                            outs: seq![at(dst, dst_byte_off as u64)],
                        },
                    ],
                )
            },
            Call::RmsNormPerHeadQ40 { n_heads, hd, eps, x, dst, dst_byte_off } => {
                Some(
                    seq![
                        WorkV::Launch {
                            kernel: Kernel::RmsNormPerHeadQ40 { n_heads, hd, eps },
                            ins: seq![start(x), start(x)],
                            outs: seq![at(dst, dst_byte_off as u64)],
                        },
                    ],
                )
            },
            Call::CopySlice { n, src, src_off, dst, dst_off } => {
                Some(
                    seq![
                        WorkV::Launch {
                            kernel: Kernel::CopySlice { n, src_off, dst_off },
                            ins: seq![start(src)],
                            outs: seq![start(dst)],
                        },
                    ],
                )
            },
            Call::CopyScale { n, scale, dtype, src, src_byte_off, dst, dst_byte_off } => {
                Some(
                    seq![
                        WorkV::Launch {
                            kernel: Kernel::CopyScale { n, scale, dtype },
                            ins: seq![at(src, src_byte_off as u64)],
                            outs: seq![at(dst, dst_byte_off as u64)],
                        },
                    ],
                )
            },
            Call::SoftcapArgmax { n, cap, x, out } => {
                Some(
                    seq![
                        WorkV::Launch {
                            kernel: Kernel::SoftcapArgmax { n, cap },
                            ins: seq![start(x)],
                            outs: seq![start(out)],
                        },
                    ],
                )
            },
            _ => None,
        }
    }

    /// What the call does on the device.
    pub fn launches(&self) -> (r: Option<Vec<Work>>)
        requires
            self.fits(),
        ensures
            match r {
                Some(v) => self.works() == Some(works_view(v@)),
                None => self.works() is None,
            },
    {
        let mut list: Vec<Work> = Vec::new();
        match *self {
            Call::Matvec { rows, cols, weight, a, x, y } => {
                list.push(
                    launch(
                        Kernel::Matvec { rows, cols, weight },
                        places2(start(a), start(x)),
                        places1(start(y)),
                    ),
                );
            },
            Call::MatvecAt { rows, cols, a, x, x_off, y, y_off } => {
                list.push(
                    launch(
                        Kernel::Matvec { rows, cols, weight: DType::Q4K },
                        places2(start(a), at(x, (x_off * 2) as u64)),
                        places1(at(y, (y_off * 2) as u64)),
                    ),
                );
            },
            Call::MatvecQkv {
                q_rows,
                kv_rows,
                cols,
                wq_dtype,
                wk_dtype,
                wv_dtype,
                wq,
                wk,
                wv,
                x,
                q,
                k,
                v,
            } => {
                list.push(
                    launch(
                        Kernel::MatvecQkv {
                            q_rows,
                            kv_rows,
                            cols,
                            wq: wq_dtype,
                            wk: wk_dtype,
                            wv: wv_dtype,
                        },
                        places4(start(wq), start(wk), start(wv), start(x)),
                        places3(start(q), start(k), start(v)),
                    ),
                );
            },
            Call::RmsNormMatvec { rows, cols, eps, weight, x, w_norm, w_mat, y } => {
                list.push(
                    launch(
                        Kernel::RmsNormMatvec { rows, cols, eps, weight },
                        places3(start(w_mat), start(x), start(w_norm)),
                        places1(start(y)),
                    ),
                );
            },
            Call::RmsNormMatvecQkv {
                q_rows,
                kv_rows,
                cols,
                eps,
                wq_dtype,
                wk_dtype,
                wv_dtype,
                x,
                w_norm,
                wq,
                wk,
                wv,
                q,
                k,
                v,
            } => {
                list.push(
                    launch(
                        Kernel::RmsNormMatvecQkv {
                            q_rows,
                            kv_rows,
                            cols,
                            eps,
                            wq: wq_dtype,
                            wk: wk_dtype,
                            wv: wv_dtype,
                        },
                        places5(start(wq), start(wk), start(wv), start(x), start(w_norm)),
                        places3(start(q), start(k), start(v)),
                    ),
                );
            },
            Call::RmsNorm { n, eps, x, x_off, w, y, y_off } => {
                list.push(
                    launch(
                        Kernel::RmsNorm { n, eps },
                        places2(at(x, (x_off * 2) as u64), start(w)),
                        places1(at(y, (y_off * 2) as u64)),
                    ),
                );
            },
            Call::RmsNormAdd { n, eps, x, w, residual, y } => {
                list.push(
                    launch(
                        Kernel::RmsNormAdd { n, eps },
                        places3(start(x), start(w), start(residual)),
                        places1(start(y)),
                    ),
                );
            },
            Call::RmsNormAddScale { n, eps, scale, x, w, residual, y } => {
                list.push(
                    launch(
                        Kernel::RmsNormAddScale { n, eps, scale },
                        places3(start(x), start(w), start(residual)),
                        places1(start(y)),
                    ),
                );
            },
            Call::RmsNormAddThenRmsNorm { n, eps, y, w_post, residual, w_ffn, out_x, out_x2 } => {
                list.push(
                    launch(
                        Kernel::RmsNormAddThenRmsNorm { n, eps },
                        places4(start(y), start(w_post), start(residual), start(w_ffn)),
                        places2(start(out_x), start(out_x2)),
                    ),
                );
            },
            Call::RmsNormPerHead { n_heads, hd, eps, x, w, y } => {
                list.push(
                    launch(
                        Kernel::RmsNormPerHead { n_heads, hd, eps },
                        places2(start(x), start(w)),
                        places1(start(y)),
                    ),
                );
            },
            Call::RmsNormPerHeadRope { n_heads, hd, eps, x, w, cos_sin, cos_sin_off, y, y_off } => {
                list.push(
                    launch(
                        Kernel::RmsNormPerHeadRope { n_heads, hd, eps },
                        places3(start(x), start(w), at(cos_sin, (cos_sin_off * 2) as u64)),
                        places1(at(y, (y_off * 2) as u64)),
                    ),
                );
            },
            Call::RmsNormNoWeight { n_heads, hd, eps, x, y, y_off } => {
                list.push(
                    launch(
                        Kernel::RmsNormNoWeight { n_heads, hd, eps },
                        places2(start(x), start(x)),
                        places1(at(y, (y_off * 2) as u64)),
                    ),
                );
            },
            Call::Add { n, a, b, y } => {
                list.push(
                    launch(Kernel::Add { n }, places2(start(a), start(b)), places1(start(y))),
                );
            },
            Call::GeluMul { n, gate, up, up_off, y } => {
                list.push(
                    launch(
                        Kernel::GeluMul { n, up_off },
                        places2(start(gate), start(up)),
                        places1(start(y)),
                    ),
                );
            },
            Call::MatvecGeluMul { rows, cols, weight, w, x, ctx, ctx_off, y } => {
                list.push(
                    launch(
                        Kernel::MatvecGeluMul { rows, cols, weight },
                        places3(start(w), start(x), at(ctx, (ctx_off * 2) as u64)),
                        places1(start(y)),
                    ),
                );
            },
            Call::MatvecGeluMulProj {
                gate_rows,
                cols,
                proj_rows,
                weight,
                w_gate,
                x,
                ctx,
                ctx_off,
                w_proj,
                w_norm,
                residual,
                eps,
                scale,
                y,
            } => {
                list.push(
                    launch(
                        Kernel::MatvecGeluMulProj {
                            gate_rows,
                            cols,
                            proj_rows,
                            weight,
                            eps,
                            scale,
                        },
                        places6(
                            start(w_gate),
                            start(x),
                            at(ctx, (ctx_off * 2) as u64),
                            start(w_proj),
                            start(w_norm),
                            start(residual),
                        ),
                        places1(start(y)),
                    ),
                );
            },
            Call::MatvecRmsNormAdd { rows, cols, eps, weight, w, x, w_norm, residual, y } => {
                list.push(
                    launch(
                        Kernel::Matvec { rows, cols, weight },
                        places2(start(w), start(x)),
                        places1(start(Buf::Scratch { n: rows })),
                    ),
                );
                list.push(Work::Barrier);
                list.push(
                    launch(
                        Kernel::RmsNormAdd { n: rows, eps },
                        places3(start(Buf::Scratch { n: rows }), start(w_norm), start(residual)),
                        places1(start(y)),
                    ),
                );
            },
            Call::MatvecRmsNormAddScale {
                rows,
                cols,
                eps,
                scale,
                weight,
                w,
                x,
                w_norm,
                residual,
                y,
            } => {
                list.push(
                    launch(
                        Kernel::Matvec { rows, cols, weight },
                        places2(start(w), start(x)),
                        places1(start(Buf::Scratch { n: rows })),
                    ),
                );
                list.push(Work::Barrier);
                list.push(
                    launch(
                        Kernel::RmsNormAddScale { n: rows, eps, scale },
                        places3(start(Buf::Scratch { n: rows }), start(w_norm), start(residual)),
                        places1(start(y)),
                    ),
                );
            },
            Call::AddScale { n, scale, a, b, y } => {
                list.push(
                    launch(
                        Kernel::AddScale { n, scale },
                        places2(start(a), start(b)),
                        places1(start(y)),
                    ),
                );
            },
            Call::GateUpGelu { rows, cols, weight, gate, up, x, y } => {
                list.push(
                    launch(
                        Kernel::GateUpGelu { rows, cols, weight },
                        places3(start(gate), start(up), start(x)),
                        places1(start(y)),
                    ),
                );
            },
            Call::RmsNormGateUpGelu { rows, cols, eps, weight, x, w_norm, gate, up, y } => {
                list.push(
                    launch(
                        Kernel::RmsNormGateUpGelu { rows, cols, eps, weight },
                        places4(start(gate), start(up), start(x), start(w_norm)),
                        places1(start(y)),
                    ),
                );
            },
            Call::ScaleConst { n, scale, x, y } => {
                list.push(
                    launch(Kernel::ScaleConst { n, scale }, places1(start(x)), places1(start(y))),
                );
            },
            Call::Rope { n_heads, hd, x, cos_sin, y } => {
                list.push(
                    launch(
                        Kernel::Rope { n_heads, hd },
                        places2(start(x), start(cos_sin)),
                        places1(start(y)),
                    ),
                );
            },
            Call::Sdpa { n_q, hd, max_t, kv_dtype, q, k, v, meta, out } => {
                list.push(
                    launch(
                        Kernel::Sdpa { n_q, hd, max_t, kv: kv_dtype },
                        places4(start(q), start(k), start(v), start(meta)),
                        places1(start(out)),
                    ),
                );
            },
            Call::SdpaMwg { n_q, hd, max_t, kv_dtype, q, k, v, meta, tmp, out } => {
                list.push(
                    launch(
                        Kernel::SdpaMwgPart { n_q, hd, max_t, nwg: SDPA_MWG_NWG, kv: kv_dtype },
                        places4(start(q), start(k), start(v), start(meta)),
                        places1(start(tmp)),
                    ),
                );
                list.push(
                    launch(
                        Kernel::SdpaMwgReduce { n_q, hd, nwg: SDPA_MWG_NWG },
                        places1(start(tmp)),
                        places1(start(out)),
                    ),
                );
            },
            Call::QuantizeQ40 { n, src, dst, dst_byte_off } => {
                list.push(
                    launch(
                        Kernel::QuantizeQ40 { n },
                        places1(start(src)),
                        places1(at(dst, dst_byte_off as u64)),
                    ),
                );
            },
            Call::RmsNormPerHeadRopeQ40 {
                n_heads,
                hd,
                eps,
                x,
                w,
                cos_sin,
                cos_sin_off,
                dst,
                dst_byte_off,
            } => {
                list.push(
                    launch(
                        Kernel::RmsNormPerHeadRopeQ40 { n_heads, hd, eps },
                        places3(start(x), start(w), at(cos_sin, (cos_sin_off * 2) as u64)),
                        places1(at(dst, dst_byte_off as u64)),
                    ),
                );
            },
            Call::RmsNormPerHeadQ40 { n_heads, hd, eps, x, dst, dst_byte_off } => {
                list.push(
                    launch(
                        Kernel::RmsNormPerHeadQ40 { n_heads, hd, eps },
                        places2(start(x), start(x)),
                        places1(at(dst, dst_byte_off as u64)),
                    ),
                );
            },
            Call::CopySlice { n, src, src_off, dst, dst_off } => {
                list.push(
                    launch(
                        Kernel::CopySlice { n, src_off, dst_off },
                        places1(start(src)),
                        places1(start(dst)),
                    ),
                );
            },
            Call::CopyScale { n, scale, dtype, src, src_byte_off, dst, dst_byte_off } => {
                list.push(
                    launch(
                        Kernel::CopyScale { n, scale, dtype },
                        places1(at(src, src_byte_off as u64)),
                        places1(at(dst, dst_byte_off as u64)),
                    ),
                );
            },
            Call::SoftcapArgmax { n, cap, x, out } => {
                list.push(
                    launch(
                        Kernel::SoftcapArgmax { n, cap },
                        places1(start(x)),
                        places1(start(out)),
                    ),
                );
            },
            _ => {
                return None;
            },
        }
        assert(works_view(list@) =~= self.works()->0);
        Some(list)
    }
}

fn launch(kernel: Kernel, ins: Vec<Place>, outs: Vec<Place>) -> (r: Work)
    ensures
        r@ == (WorkV::Launch { kernel, ins: ins@, outs: outs@ }),
{
    Work::Launch { kernel, ins, outs }
}

fn places1(p0: Place) -> (r: Vec<Place>)
    ensures
        r@ == seq![p0],
{
    let mut v: Vec<Place> = Vec::new();
    v.push(p0);
    assert(v@ =~= seq![p0]);
    v
}

fn places2(p0: Place, p1: Place) -> (r: Vec<Place>)
    ensures
        r@ == seq![p0, p1],
{
    let mut v: Vec<Place> = Vec::new();
    v.push(p0);
    v.push(p1);
    assert(v@ =~= seq![p0, p1]);
    v
}

fn places3(p0: Place, p1: Place, p2: Place) -> (r: Vec<Place>)
    ensures
        r@ == seq![p0, p1, p2],
{
    let mut v: Vec<Place> = Vec::new();
    v.push(p0);
    v.push(p1);
    v.push(p2);
    assert(v@ =~= seq![p0, p1, p2]);
    v
}

fn places4(p0: Place, p1: Place, p2: Place, p3: Place) -> (r: Vec<Place>)
    ensures
        r@ == seq![p0, p1, p2, p3],
{
    let mut v: Vec<Place> = Vec::new();
    v.push(p0);
    v.push(p1);
    v.push(p2);
    v.push(p3);
    assert(v@ =~= seq![p0, p1, p2, p3]);
    v
}

fn places5(p0: Place, p1: Place, p2: Place, p3: Place, p4: Place) -> (r: Vec<Place>)
    ensures
        r@ == seq![p0, p1, p2, p3, p4],
{
    let mut v: Vec<Place> = Vec::new();
    v.push(p0);
    v.push(p1);
    v.push(p2);
    v.push(p3);
    v.push(p4);
    assert(v@ =~= seq![p0, p1, p2, p3, p4]);
    v
}

fn places6(p0: Place, p1: Place, p2: Place, p3: Place, p4: Place, p5: Place) -> (r: Vec<Place>)
    ensures
        r@ == seq![p0, p1, p2, p3, p4, p5],
{
    let mut v: Vec<Place> = Vec::new();
    v.push(p0);
    v.push(p1);
    v.push(p2);
    v.push(p3);
    v.push(p4);
    v.push(p5);
    assert(v@ =~= seq![p0, p1, p2, p3, p4, p5]);
    v
}

} // verus!
