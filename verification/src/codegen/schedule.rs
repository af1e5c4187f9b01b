//! From a graph region to one scheduled kernel: fusion hints, matrix-vector
//! products, elementwise chains and copies.

use vstd::prelude::*;
use vstd::string::*;

use crate::codegen::error::{msg, msg_v, CodegenError, ErrorV};
use crate::codegen::plan_cache::{join_numbers, numerals};
use crate::ir::dtype::{product, product_fits, DType, IrError, Scalar, TensorId};
use crate::ir::graph::{reads_below, Graph, GraphV, Node, Op, OpV};
use crate::ir::kernel::{ElemExpr, FuseHint, KernelKind, KernelV, ScheduledKernel};
use crate::text::{dec, dec_text, dec_usize, join};

verus! {

/// The stem of the name of a hinted kernel.
pub open spec fn hint_stem(hint: FuseHint) -> Seq<char> {
    match hint {
        FuseHint::RmsNorm { .. } => "k_rmsnorm_"@,
        FuseHint::RmsNormAdd { .. } => "k_rms_add_"@,
        FuseHint::RmsNormAddScale { .. } => "k_rms_add_sc_"@,
        FuseHint::RmsNormAddThenRmsNorm { .. } => "k_rms_add_then_rms_"@,
        FuseHint::RmsNormPerHead { .. } => "k_rms_ph_"@,
        FuseHint::RmsNormPerHeadRope { .. } => "k_rms_ph_rope_"@,
        FuseHint::RmsNormPerHeadRopeQ40 { .. } => "k_rms_ph_rope_q40_"@,
        FuseHint::RmsNormPerHeadQ40 { .. } => "k_rms_ph_q40_"@,
        FuseHint::RmsNormPerHeadQkvQ40 { .. } => "k_rms_ph_qkv_q40_"@,
        FuseHint::Rope { .. } => "k_rope_"@,
        FuseHint::CopyScale { .. } => "k_csl_sc_"@,
        FuseHint::CopyScaleIndexed { .. } => "k_csl_sc_idx_"@,
        FuseHint::GeluMul { .. } => "k_gelu_mul_"@,
        FuseHint::MatvecGateUpGelu { .. } => "k_mv_gate_up_gelu_"@,
        FuseHint::MatvecGeluMul { .. } => "k_mv_gelu_mul_"@,
        FuseHint::MatvecGeluMulProjRmsAddScale { .. } => "k_mv_gelu_proj_rms_"@,
        FuseHint::MatvecRmsNormAdd { .. } => "k_mv_rms_add_"@,
        FuseHint::MatvecRmsNormAddScale { .. } => "k_mv_rms_add_sc_"@,
        FuseHint::MatvecQkv { .. } => "k_mv_qkv_"@,
        FuseHint::RmsNormMatvec { .. } => "k_rms_mv_"@,
        FuseHint::RmsNormMatvecGateUpGelu { .. } => "k_rms_mv_gate_up_gelu_"@,
        FuseHint::RmsNormMatvecQkv { .. } => "k_rms_mv_qkv_"@,
        FuseHint::SdpaNaive { .. } => "k_sdpa_naive_"@,
        FuseHint::SdpaMwgPart { .. } => "k_sdpa_mwg_part_"@,
        FuseHint::SdpaMwgReduce { .. } => "k_sdpa_mwg_reduce_"@,
        FuseHint::QuantizeQ40 { .. } => "k_q40_"@,
        FuseHint::SoftcapArgmax { .. } => "k_sca_"@,
    }
}

/// The tensors that a hinted kernel reads, in buffer order.
pub open spec fn hint_inputs(hint: FuseHint) -> Seq<TensorId> {
    match hint {
        FuseHint::RmsNorm { x, w, .. } => seq![x, w],
        FuseHint::RmsNormAdd { x, w, residual, .. } => seq![x, w, residual],
        FuseHint::RmsNormAddScale { x, w, residual, .. } => seq![x, w, residual],
        FuseHint::RmsNormAddThenRmsNorm { y, w_post, residual, w_ffn, .. } => {
            seq![y, w_post, residual, w_ffn]
        },
        FuseHint::RmsNormPerHead { x, w, .. } => seq![x, w],
        FuseHint::RmsNormPerHeadRope { x, w, cos_sin, .. } => seq![x, w, cos_sin],
        FuseHint::RmsNormPerHeadRopeQ40 { x, w, cos_sin, .. } => seq![x, w, cos_sin],
        FuseHint::RmsNormPerHeadQ40 { x, w, .. } => seq![x, w],
        FuseHint::RmsNormPerHeadQkvQ40 { q, qw, cos_sin, k, kw, v, .. } => {
            seq![q, qw, cos_sin, k, kw, v]
        },
        FuseHint::Rope { x, cos_sin, .. } => seq![x, cos_sin],
        FuseHint::CopyScale { src, .. } => seq![src],
        FuseHint::CopyScaleIndexed { src, idx, .. } => seq![src, idx],
        FuseHint::GeluMul { gate, up, .. } => seq![gate, up],
        FuseHint::MatvecGateUpGelu { gate, up, x, .. } => seq![gate, up, x],
        FuseHint::MatvecGeluMul { w, x, ctx, .. } => seq![w, x, ctx],
        FuseHint::MatvecGeluMulProjRmsAddScale { w_gate, x, ctx, w_proj, w_norm, residual, .. } => {
            seq![w_gate, x, ctx, w_proj, w_norm, residual]
        },
        FuseHint::MatvecRmsNormAdd { w_mat, x, w_norm, residual, .. } => {
            seq![w_mat, x, w_norm, residual]
        },
        FuseHint::MatvecRmsNormAddScale { w_mat, x, w_norm, residual, .. } => {
            seq![w_mat, x, w_norm, residual]
        },
        FuseHint::MatvecQkv { wq, wk, wv, x, .. } => seq![wq, wk, wv, x],
        FuseHint::RmsNormMatvec { x, w_norm, w_mat, .. } => seq![w_mat, x, w_norm],
        FuseHint::RmsNormMatvecGateUpGelu { x, w_norm, gate, up, .. } => seq![gate, up, x, w_norm],
        FuseHint::RmsNormMatvecQkv { x, w_norm, wq, wk, wv, .. } => seq![wq, wk, wv, x, w_norm],
        FuseHint::SdpaNaive { q, k, v, meta, .. } => seq![q, k, v, meta],
        FuseHint::SdpaMwgPart { q, k, v, meta, .. } => seq![q, k, v, meta],
        FuseHint::SdpaMwgReduce { tmp, .. } => seq![tmp],
        FuseHint::QuantizeQ40 { src, .. } => seq![src],
        FuseHint::SoftcapArgmax { x, .. } => seq![x],
    }
}

/// The algorithm of a hinted kernel; the element type of weights comes from the graph.
pub open spec fn hint_kind(g: GraphV, hint: FuseHint) -> Result<KernelKind, IrError> {
    match hint {
        FuseHint::RmsNorm { n, eps, x, w } => Ok(
            KernelKind::RmsNorm { n, eps, x, w },
        ),
        FuseHint::RmsNormAdd { n, eps, x, w, residual } => Ok(
            KernelKind::RmsNormAdd { n, eps, x, w, residual },
        ),
        FuseHint::RmsNormAddScale { n, eps, scale, x, w, residual } => Ok(
            KernelKind::RmsNormAddScale { n, eps, scale, x, w, residual },
        ),
        FuseHint::RmsNormAddThenRmsNorm { n, eps, y, w_post, residual, w_ffn } => Ok(
            KernelKind::RmsNormAddThenRmsNorm { n, eps, y, w_post, residual, w_ffn },
        ),
        FuseHint::RmsNormPerHead { n_heads, hd, eps, with_weight, x, w } => Ok(
            KernelKind::RmsNormPerHead { n_heads, hd, eps, with_weight, x, w },
        ),
        FuseHint::RmsNormPerHeadRope { n_heads, hd, eps, with_weight, x, w, cos_sin } => Ok(
            KernelKind::RmsNormPerHeadRope { n_heads, hd, eps, with_weight, x, w, cos_sin },
        ),
        FuseHint::RmsNormPerHeadRopeQ40 { n_heads, hd, eps, with_weight, x, w, cos_sin } => Ok(
            KernelKind::RmsNormPerHeadRopeQ40 { n_heads, hd, eps, with_weight, x, w, cos_sin },
        ),
        FuseHint::RmsNormPerHeadQ40 { n_heads, hd, eps, with_weight, x, w } => Ok(
            KernelKind::RmsNormPerHeadQ40 { n_heads, hd, eps, with_weight, x, w },
        ),
        FuseHint::RmsNormPerHeadQkvQ40 { n_q, n_kv, hd, eps, q, qw, cos_sin, k, kw, v } => Ok(
            KernelKind::RmsNormPerHeadQkvQ40 { n_q, n_kv, hd, eps, q, qw, cos_sin, k, kw, v },
        ),
        FuseHint::Rope { n_heads, hd, x, cos_sin } => Ok(
            KernelKind::Rope { n_heads, hd, x, cos_sin },
        ),
        FuseHint::CopyScale { src_off, dst_off, n, scale, src, src_dtype } => Ok(
            KernelKind::CopyScale { src_off, dst_off, n, scale, src, src_dtype },
        ),
        FuseHint::CopyScaleIndexed { n, scale, src, idx, src_dtype } => Ok(
            KernelKind::CopyScaleIndexed { n, scale, src, idx, src_dtype },
        ),
        FuseHint::GeluMul { n, up_off, gate, up } => Ok(
            KernelKind::GeluMul { n, up_off, gate, up },
        ),
        FuseHint::MatvecGateUpGelu { rows, cols, gate, up, x } => if g.has(gate) {
            Ok(
                KernelKind::MatvecGateUpGelu {
                    rows,
                    cols,
                    gate,
                    up,
                    x,
                    weight_dtype: g.dtype(gate),
                },
            )
        } else {
            Err(IrError::BadTensorId)
        },
        FuseHint::MatvecGeluMul { rows, cols, ctx_off, w, x, ctx } => if g.has(w) {
            Ok(
                KernelKind::MatvecGeluMul {
                    rows,
                    cols,
                    ctx_off,
                    w,
                    x,
                    ctx,
                    weight_dtype: g.dtype(w),
                },
            )
        } else {
            Err(IrError::BadTensorId)
        },
        FuseHint::MatvecGeluMulProjRmsAddScale {
            gate_rows,
            cols,
            proj_rows,
            ctx_off,
            eps,
            scale,
            w_gate,
            x,
            ctx,
            w_proj,
            w_norm,
            residual,
        } => if g.has(w_gate) {
            Ok(
                KernelKind::MatvecGeluMulProjRmsAddScale {
                    gate_rows,
                    cols,
                    proj_rows,
                    ctx_off,
                    eps,
                    scale,
                    w_gate,
                    x,
                    ctx,
                    w_proj,
                    w_norm,
                    residual,
                    weight_dtype: g.dtype(w_gate),
                },
            )
        } else {
            Err(IrError::BadTensorId)
        },
        FuseHint::MatvecRmsNormAdd {
            rows,
            cols,
            eps,
            w_mat,
            x,
            w_norm,
            residual,
        } => if g.has(w_mat) {
            Ok(
                KernelKind::MatvecRmsNormAdd {
                    rows,
                    cols,
                    eps,
                    w_mat,
                    x,
                    w_norm,
                    residual,
                    weight_dtype: g.dtype(w_mat),
                },
            )
        } else {
            Err(IrError::BadTensorId)
        },
        FuseHint::MatvecRmsNormAddScale {
            rows,
            cols,
            eps,
            scale,
            w_mat,
            x,
            w_norm,
            residual,
        } => if g.has(w_mat) {
            Ok(
                KernelKind::MatvecRmsNormAddScale {
                    rows,
                    cols,
                    eps,
                    scale,
                    w_mat,
                    x,
                    w_norm,
                    residual,
                    weight_dtype: g.dtype(w_mat),
                },
            )
        } else {
            Err(IrError::BadTensorId)
        },
        FuseHint::MatvecQkv { q_rows, kv_rows, cols, wq, wk, wv, x } => if g.has(wq) && g.has(wk)
            && g.has(wv) {
            Ok(
                KernelKind::MatvecQkv {
                    q_rows,
                    kv_rows,
                    cols,
                    wq,
                    wk,
                    wv,
                    x,
                    wq_dtype: g.dtype(wq),
                    wk_dtype: g.dtype(wk),
                    wv_dtype: g.dtype(wv),
                },
            )
        } else {
            Err(IrError::BadTensorId)
        },
        FuseHint::RmsNormMatvec { n, eps, rows, cols, x, w_norm, w_mat } => if g.has(w_mat) {
            Ok(
                KernelKind::RmsNormMatvec {
                    n,
                    eps,
                    rows,
                    cols,
                    x,
                    w_norm,
                    w_mat,
                    weight_dtype: g.dtype(w_mat),
                },
            )
        } else {
            Err(IrError::BadTensorId)
        },
        FuseHint::RmsNormMatvecGateUpGelu {
            n,
            eps,
            rows,
            cols,
            x,
            w_norm,
            gate,
            up,
        } => if g.has(gate) {
            Ok(
                KernelKind::RmsNormMatvecGateUpGelu {
                    n,
                    eps,
                    rows,
                    cols,
                    x,
                    w_norm,
                    gate,
                    up,
                    weight_dtype: g.dtype(gate),
                },
            )
        } else {
            Err(IrError::BadTensorId)
        },
        FuseHint::RmsNormMatvecQkv {
            n,
            eps,
            q_rows,
            kv_rows,
            cols,
            x,
            w_norm,
            wq,
            wk,
            wv,
        } => if g.has(wq)
            && g.has(wk) && g.has(wv) {
            Ok(
                KernelKind::RmsNormMatvecQkv {
                    n,
                    eps,
                    q_rows,
                    kv_rows,
                    cols,
                    x,
                    w_norm,
                    wq,
                    wk,
                    wv,
                    wq_dtype: g.dtype(wq),
                    wk_dtype: g.dtype(wk),
                    wv_dtype: g.dtype(wv),
                },
            )
        } else {
            Err(IrError::BadTensorId)
        },
        FuseHint::SdpaNaive { n_q, hd, max_t, q, k, v, meta, kv_dtype } => Ok(
            KernelKind::SdpaNaive { n_q, hd, max_t, q, k, v, meta, kv_dtype },
        ),
        FuseHint::SdpaMwgPart { n_q, hd, max_t, nwg, q, k, v, meta, kv_dtype } => Ok(
            KernelKind::SdpaMwgPart { n_q, hd, max_t, nwg, q, k, v, meta, kv_dtype },
        ),
        FuseHint::SdpaMwgReduce { n_q, hd, nwg, tmp } => Ok(
            KernelKind::SdpaMwgReduce { n_q, hd, nwg, tmp },
        ),
        FuseHint::QuantizeQ40 { n, src } => Ok(
            KernelKind::QuantizeQ40 { n, src },
        ),
        FuseHint::SoftcapArgmax { n, cap, x } => Ok(
            KernelKind::SoftcapArgmax { n, cap, x },
        ),
    }
}

/// The kernel that a hint asks for.
pub open spec fn hint_kernel(g: GraphV, out: TensorId, hint: FuseHint) -> Result<KernelV, ErrorV> {
    match hint_kind(g, hint) {
        Ok(kind) => Ok(
            KernelV {
                name: hint_stem(hint) + dec(out.0 as nat),
                inputs: hint_inputs(hint),
                output: out,
                kind,
            },
        ),
        Err(e) => Err(ErrorV::Ir(e)),
    }
}

/// A result whose error is taken by its view.
pub open spec fn err_view<T>(r: Result<T, CodegenError>) -> Result<T, ErrorV> {
    match r {
        Ok(t) => Ok(t),
        Err(e) => Err(e@),
    }
}

/// A result taken by its views.
pub open spec fn result_view<T: View>(r: Result<T, CodegenError>) -> Result<T::V, ErrorV> {
    match r {
        Ok(t) => Ok(t@),
        Err(e) => Err(e@),
    }
}

fn ids1(a: TensorId) -> (v: Vec<TensorId>)
    ensures
        v@ == seq![a],
{
    let mut v: Vec<TensorId> = Vec::new();
    v.push(a);
    assert(v@ =~= seq![a]);
    v
}

fn ids2(a: TensorId, b: TensorId) -> (v: Vec<TensorId>)
    ensures
        v@ == seq![a, b],
{
    let mut v: Vec<TensorId> = Vec::new();
    v.push(a);
    v.push(b);
    assert(v@ =~= seq![a, b]);
    v
}

fn ids3(a: TensorId, b: TensorId, c: TensorId) -> (v: Vec<TensorId>)
    ensures
        v@ == seq![a, b, c],
{
    let mut v: Vec<TensorId> = Vec::new();
    v.push(a);
    v.push(b);
    v.push(c);
    assert(v@ =~= seq![a, b, c]);
    v
}

fn ids4(a: TensorId, b: TensorId, c: TensorId, d: TensorId) -> (v: Vec<TensorId>)
    ensures
        v@ == seq![a, b, c, d],
{
    let mut v: Vec<TensorId> = Vec::new();
    v.push(a);
    v.push(b);
    v.push(c);
    v.push(d);
    assert(v@ =~= seq![a, b, c, d]);
    v
}

fn ids5(a: TensorId, b: TensorId, c: TensorId, d: TensorId, e: TensorId) -> (v: Vec<TensorId>)
    ensures
        v@ == seq![a, b, c, d, e],
{
    let mut v: Vec<TensorId> = Vec::new();
    v.push(a);
    v.push(b);
    v.push(c);
    v.push(d);
    v.push(e);
    assert(v@ =~= seq![a, b, c, d, e]);
    v
}

fn ids6(
    a: TensorId,
    b: TensorId,
    c: TensorId,
    d: TensorId,
    e: TensorId,
    f: TensorId,
) -> (v: Vec<TensorId>)
    ensures
        v@ == seq![a, b, c, d, e, f],
{
    let mut v: Vec<TensorId> = Vec::new();
    v.push(a);
    v.push(b);
    v.push(c);
    v.push(d);
    v.push(e);
    v.push(f);
    assert(v@ =~= seq![a, b, c, d, e, f]);
    v
}

/// The element type of a node.
fn dtype_of(graph: &Graph, id: TensorId) -> (r: Result<DType, CodegenError>)
    ensures
        err_view(r) == (if graph@.has(id) {
            Ok(graph@.dtype(id))
        } else {
            Err(ErrorV::Ir(IrError::BadTensorId))
        }),
{
    match graph.node(id) {
        Ok(n) => Ok(n.dtype),
        Err(e) => Err(CodegenError::Ir(e)),
    }
}

/// `stem` followed by the number of the output tensor.
fn kernel_name(stem: &str, out: TensorId) -> (r: String)
    ensures
        r@ == stem@ + dec(out.0 as nat),
{
    String::from_str(stem).concat(dec_text(out.0 as u64).as_str())
}

/// The kernel for a hinted node.
pub fn sk_from_hint(graph: &Graph, out: TensorId, hint: &FuseHint) -> (r: Result<
    ScheduledKernel,
    CodegenError,
>)
    ensures
        result_view(r) == hint_kernel(graph@, out, *hint),
{
    let (stem, inputs, kind) = match hint {
        FuseHint::RmsNorm { n, eps, x, w } => (
            "k_rmsnorm_",
            ids2(*x, *w),
            KernelKind::RmsNorm { n: *n, eps: *eps, x: *x, w: *w },
        ),
        FuseHint::RmsNormAdd { n, eps, x, w, residual } => (
            "k_rms_add_",
            ids3(*x, *w, *residual),
            KernelKind::RmsNormAdd { n: *n, eps: *eps, x: *x, w: *w, residual: *residual },
        ),
        FuseHint::RmsNormAddScale { n, eps, scale, x, w, residual } => (
            "k_rms_add_sc_",
            ids3(*x, *w, *residual),
            KernelKind::RmsNormAddScale {
                n: *n,
                eps: *eps,
                scale: *scale,
                x: *x,
                w: *w,
                residual: *residual,
            },
        ),
        FuseHint::RmsNormAddThenRmsNorm { n, eps, y, w_post, residual, w_ffn } => (
            "k_rms_add_then_rms_",
            ids4(*y, *w_post, *residual, *w_ffn),
            KernelKind::RmsNormAddThenRmsNorm {
                n: *n,
                eps: *eps,
                y: *y,
                w_post: *w_post,
                residual: *residual,
                w_ffn: *w_ffn,
            },
        ),
        FuseHint::RmsNormPerHead { n_heads, hd, eps, with_weight, x, w } => (
            "k_rms_ph_",
            ids2(*x, *w),
            KernelKind::RmsNormPerHead {
                n_heads: *n_heads,
                hd: *hd,
                eps: *eps,
                with_weight: *with_weight,
                x: *x,
                w: *w,
            },
        ),
        FuseHint::RmsNormPerHeadRope { n_heads, hd, eps, with_weight, x, w, cos_sin } => (
            "k_rms_ph_rope_",
            ids3(*x, *w, *cos_sin),
            KernelKind::RmsNormPerHeadRope {
                n_heads: *n_heads,
                hd: *hd,
                eps: *eps,
                with_weight: *with_weight,
                x: *x,
                w: *w,
                cos_sin: *cos_sin,
            },
        ),
        FuseHint::RmsNormPerHeadRopeQ40 { n_heads, hd, eps, with_weight, x, w, cos_sin } => (
            "k_rms_ph_rope_q40_",
            ids3(*x, *w, *cos_sin),
            KernelKind::RmsNormPerHeadRopeQ40 {
                n_heads: *n_heads,
                hd: *hd,
                eps: *eps,
                with_weight: *with_weight,
                x: *x,
                w: *w,
                cos_sin: *cos_sin,
            },
        ),
        FuseHint::RmsNormPerHeadQ40 { n_heads, hd, eps, with_weight, x, w } => (
            "k_rms_ph_q40_",
            ids2(*x, *w),
            KernelKind::RmsNormPerHeadQ40 {
                n_heads: *n_heads,
                hd: *hd,
                eps: *eps,
                with_weight: *with_weight,
                x: *x,
                w: *w,
            },
        ),
        FuseHint::RmsNormPerHeadQkvQ40 { n_q, n_kv, hd, eps, q, qw, cos_sin, k, kw, v } => (
            "k_rms_ph_qkv_q40_",
            ids6(*q, *qw, *cos_sin, *k, *kw, *v),
            KernelKind::RmsNormPerHeadQkvQ40 {
                n_q: *n_q,
                n_kv: *n_kv,
                hd: *hd,
                eps: *eps,
                q: *q,
                qw: *qw,
                cos_sin: *cos_sin,
                k: *k,
                kw: *kw,
                v: *v,
            },
        ),
        FuseHint::Rope { n_heads, hd, x, cos_sin } => (
            "k_rope_",
            ids2(*x, *cos_sin),
            KernelKind::Rope { n_heads: *n_heads, hd: *hd, x: *x, cos_sin: *cos_sin },
        ),
        FuseHint::CopyScale { src_off, dst_off, n, scale, src, src_dtype } => (
            "k_csl_sc_",
            ids1(*src),
            KernelKind::CopyScale {
                src_off: *src_off,
                dst_off: *dst_off,
                n: *n,
                scale: *scale,
                src: *src,
                src_dtype: *src_dtype,
            },
        ),
        FuseHint::CopyScaleIndexed { n, scale, src, idx, src_dtype } => (
            "k_csl_sc_idx_",
            ids2(*src, *idx),
            KernelKind::CopyScaleIndexed {
                n: *n,
                scale: *scale,
                src: *src,
                idx: *idx,
                src_dtype: *src_dtype,
            },
        ),
        FuseHint::GeluMul { n, up_off, gate, up } => (
            "k_gelu_mul_",
            ids2(*gate, *up),
            KernelKind::GeluMul { n: *n, up_off: *up_off, gate: *gate, up: *up },
        ),
        FuseHint::MatvecGateUpGelu { rows, cols, gate, up, x } => (
            "k_mv_gate_up_gelu_",
            ids3(*gate, *up, *x),
            KernelKind::MatvecGateUpGelu {
                rows: *rows,
                cols: *cols,
                gate: *gate,
                up: *up,
                x: *x,
                weight_dtype: dtype_of(graph, *gate)?,
            },
        ),
        FuseHint::MatvecGeluMul { rows, cols, ctx_off, w, x, ctx } => (
            "k_mv_gelu_mul_",
            ids3(*w, *x, *ctx),
            KernelKind::MatvecGeluMul {
                rows: *rows,
                cols: *cols,
                ctx_off: *ctx_off,
                w: *w,
                x: *x,
                ctx: *ctx,
                weight_dtype: dtype_of(graph, *w)?,
            },
        ),
        FuseHint::MatvecGeluMulProjRmsAddScale {
            gate_rows,
            cols,
            proj_rows,
            ctx_off,
            eps,
            scale,
            w_gate,
            x,
            ctx,
            w_proj,
            w_norm,
            residual,
        } => (
            "k_mv_gelu_proj_rms_",
            ids6(*w_gate, *x, *ctx, *w_proj, *w_norm, *residual),
            KernelKind::MatvecGeluMulProjRmsAddScale {
                gate_rows: *gate_rows,
                cols: *cols,
                proj_rows: *proj_rows,
                ctx_off: *ctx_off,
                eps: *eps,
                scale: *scale,
                w_gate: *w_gate,
                x: *x,
                ctx: *ctx,
                w_proj: *w_proj,
                w_norm: *w_norm,
                residual: *residual,
                weight_dtype: dtype_of(graph, *w_gate)?,
            },
        ),
        FuseHint::MatvecRmsNormAdd { rows, cols, eps, w_mat, x, w_norm, residual } => (
            "k_mv_rms_add_",
            ids4(*w_mat, *x, *w_norm, *residual),
            KernelKind::MatvecRmsNormAdd {
                rows: *rows,
                cols: *cols,
                eps: *eps,
                w_mat: *w_mat,
                x: *x,
                w_norm: *w_norm,
                residual: *residual,
                weight_dtype: dtype_of(graph, *w_mat)?,
            },
        ),
        FuseHint::MatvecRmsNormAddScale { rows, cols, eps, scale, w_mat, x, w_norm, residual } => (
            "k_mv_rms_add_sc_",
            ids4(*w_mat, *x, *w_norm, *residual),
            KernelKind::MatvecRmsNormAddScale {
                rows: *rows,
                cols: *cols,
                eps: *eps,
                scale: *scale,
                w_mat: *w_mat,
                x: *x,
                w_norm: *w_norm,
                residual: *residual,
                weight_dtype: dtype_of(graph, *w_mat)?,
            },
        ),
        FuseHint::MatvecQkv { q_rows, kv_rows, cols, wq, wk, wv, x } => (
            "k_mv_qkv_",
            ids4(*wq, *wk, *wv, *x),
            KernelKind::MatvecQkv {
                q_rows: *q_rows,
                kv_rows: *kv_rows,
                cols: *cols,
                wq: *wq,
                wk: *wk,
                wv: *wv,
                x: *x,
                wq_dtype: dtype_of(graph, *wq)?,
                wk_dtype: dtype_of(graph, *wk)?,
                wv_dtype: dtype_of(graph, *wv)?,
            },
        ),
        FuseHint::RmsNormMatvec { n, eps, rows, cols, x, w_norm, w_mat } => (
            "k_rms_mv_",
            ids3(*w_mat, *x, *w_norm),
            KernelKind::RmsNormMatvec {
                n: *n,
                eps: *eps,
                rows: *rows,
                cols: *cols,
                x: *x,
                w_norm: *w_norm,
                w_mat: *w_mat,
                weight_dtype: dtype_of(graph, *w_mat)?,
            },
        ),
        FuseHint::RmsNormMatvecGateUpGelu { n, eps, rows, cols, x, w_norm, gate, up } => (
            "k_rms_mv_gate_up_gelu_",
            ids4(*gate, *up, *x, *w_norm),
            KernelKind::RmsNormMatvecGateUpGelu {
                n: *n,
                eps: *eps,
                rows: *rows,
                cols: *cols,
                x: *x,
                w_norm: *w_norm,
                gate: *gate,
                up: *up,
                weight_dtype: dtype_of(graph, *gate)?,
            },
        ),
        FuseHint::RmsNormMatvecQkv { n, eps, q_rows, kv_rows, cols, x, w_norm, wq, wk, wv } => (
            "k_rms_mv_qkv_",
            ids5(*wq, *wk, *wv, *x, *w_norm),
            KernelKind::RmsNormMatvecQkv {
                n: *n,
                eps: *eps,
                q_rows: *q_rows,
                kv_rows: *kv_rows,
                cols: *cols,
                x: *x,
                w_norm: *w_norm,
                wq: *wq,
                wk: *wk,
                wv: *wv,
                wq_dtype: dtype_of(graph, *wq)?,
                wk_dtype: dtype_of(graph, *wk)?,
                wv_dtype: dtype_of(graph, *wv)?,
            },
        ),
        FuseHint::SdpaNaive { n_q, hd, max_t, q, k, v, meta, kv_dtype } => (
            "k_sdpa_naive_",
            ids4(*q, *k, *v, *meta),
            KernelKind::SdpaNaive {
                n_q: *n_q,
                hd: *hd,
                max_t: *max_t,
                q: *q,
                k: *k,
                v: *v,
                meta: *meta,
                kv_dtype: *kv_dtype,
            },
        ),
        FuseHint::SdpaMwgPart { n_q, hd, max_t, nwg, q, k, v, meta, kv_dtype } => (
            "k_sdpa_mwg_part_",
            ids4(*q, *k, *v, *meta),
            KernelKind::SdpaMwgPart {
                n_q: *n_q,
                hd: *hd,
                max_t: *max_t,
                nwg: *nwg,
                q: *q,
                k: *k,
                v: *v,
                meta: *meta,
                kv_dtype: *kv_dtype,
            },
        ),
        FuseHint::SdpaMwgReduce { n_q, hd, nwg, tmp } => (
            "k_sdpa_mwg_reduce_",
            ids1(*tmp),
            KernelKind::SdpaMwgReduce { n_q: *n_q, hd: *hd, nwg: *nwg, tmp: *tmp },
        ),
        FuseHint::QuantizeQ40 { n, src } => (
            "k_q40_",
            ids1(*src),
            KernelKind::QuantizeQ40 { n: *n, src: *src },
        ),
        FuseHint::SoftcapArgmax { n, cap, x } => (
            "k_sca_",
            ids1(*x),
            KernelKind::SoftcapArgmax { n: *n, cap: *cap, x: *x },
        ),
    };
    Ok(ScheduledKernel { name: kernel_name(stem, out), inputs, output: out, kind })
}

/// Whether `out` is computed by one kernel: it has a hint, or is not an input of the graph.
pub open spec fn primitive_region(g: GraphV, out: TensorId) -> Result<bool, ErrorV> {
    if g.hints.contains_key(out.0) {
        Ok(true)
    } else if !g.has(out) {
        Err(ErrorV::Ir(IrError::BadTensorId))
    } else {
        Ok(!(g.at(out).op is Input))
    }
}

pub fn is_primitive_region(graph: &Graph, out: TensorId) -> (r: Result<bool, CodegenError>)
    ensures
        err_view(r) == primitive_region(graph@, out),
{
    if graph.fuse_hint(out).is_some() {
        return Ok(true);
    }
    match graph.node(out) {
        Ok(node) => match &node.op {
            Op::Input { .. } => Ok(false),
            _ => Ok(true),
        },
        Err(e) => Err(CodegenError::Ir(e)),
    }
}

/// The last axis of a tensor of this shape.
pub open spec fn last_axis(s: Seq<usize>) -> int {
    if s.len() == 0 {
        0
    } else {
        s.len() - 1
    }
}

/// Whether `out` sums, along the last axis, the rows of a Q4_K matrix times a vector.
pub open spec fn q4_matvec_at(g: GraphV, out: TensorId) -> Result<bool, ErrorV> {
    let bad = Err(ErrorV::Ir(IrError::BadTensorId));
    if !g.has(out) {
        bad
    } else {
        match g.at(out).op {
            OpV::SumReduce { inp, axis } => if !g.has(inp) {
                bad
            } else if axis != last_axis(g.shape(inp)) {
                Ok(false)
            } else {
                match g.at(inp).op {
                    OpV::MulBroadcastRow { left, row } => if !g.has(left) || !g.has(row) {
                        bad
                    } else {
                        Ok(g.dtype(left) == DType::Q4K)
                    },
                    _ => Ok(false),
                }
            },
            _ => Ok(false),
        }
    }
}

/// The node that a node stands for: what it scales, if it scales by one, else itself.
pub open spec fn unscaled(g: GraphV, out: TensorId) -> TensorId {
    match g.at(out).op {
        OpV::ScaleConst { x, scale } if is_one(scale) => x,
        _ => out,
    }
}

/// Whether `out` is, or is rewritten to, a product of a Q4_K matrix and a vector.
pub open spec fn q4_matvec_pattern(g: GraphV, out: TensorId) -> Result<bool, ErrorV> {
    if !g.has(out) {
        Err(ErrorV::Ir(IrError::BadTensorId))
    } else {
        q4_matvec_at(g, unscaled(g, out))
    }
}

/// The node with this index, or the error of this module.
fn node_of(graph: &Graph, id: TensorId) -> (r: Result<&Node, CodegenError>)
    ensures
        match r {
            Ok(n) => graph@.has(id) && n@ == graph@.at(id),
            Err(e) => !graph@.has(id) && e@ == ErrorV::Ir(IrError::BadTensorId),
        },
{
    match graph.node(id) {
        Ok(n) => Ok(n),
        Err(e) => Err(CodegenError::Ir(e)),
    }
}

fn is_unit(s: Scalar) -> (r: bool)
    ensures
        r == is_one(s),
{
    s == Scalar::Bits(0x3F800000) || s == Scalar::RecipBits(0x3F800000) || s == Scalar::Int(1) || s
        == Scalar::RecipInt(1)
}

pub fn validate_q4_matvec_pattern(graph: &Graph, out: TensorId) -> (r: Result<bool, CodegenError>)
    ensures
        err_view(r) == q4_matvec_pattern(graph@, out),
{
    let root: TensorId = match &node_of(graph, out)?.op {
        Op::ScaleConst { x, scale } => if is_unit(*scale) {
            *x
        } else {
            out
        },
        _ => out,
    };
    let node = node_of(graph, root)?;
    let (inp, axis) = match &node.op {
        Op::SumReduce { inp, axis } => (*inp, *axis),
        _ => {
            return Ok(false);
        },
    };
    let summed = node_of(graph, inp)?;
    let rank: usize = summed.shape.rank();
    let last: usize = if rank == 0 {
        0
    } else {
        rank - 1
    };
    if axis != last {
        return Ok(false);
    }
    match &summed.op {
        Op::MulBroadcastRow { left, row } => {
            let wd = dtype_of(graph, *left)?;
            let _ = dtype_of(graph, *row)?;
            Ok(wd == DType::Q4K)
        },
        _ => Ok(false),
    }
}

/// The element type of the weights of a matrix-vector product rooted at `out`, if it is one.
pub open spec fn weight_dtype_of(g: GraphV, out: TensorId) -> Result<Option<DType>, ErrorV> {
    let bad = Err(ErrorV::Ir(IrError::BadTensorId));
    let hinted = |w: TensorId| if g.has(w) {
        Ok(Some(g.dtype(w)))
    } else {
        bad
    };
    let prim = if !g.has(out) {
        bad
    } else {
        match g.at(out).op {
            OpV::SumReduce { inp, .. } => if !g.has(inp) {
                bad
            } else {
                match g.at(inp).op {
                    OpV::MulBroadcastRow { left, .. } => hinted(left),
                    _ => Ok(None),
                }
            },
            _ => Ok(None),
        }
    };
    if g.hints.contains_key(out.0) {
        match g.hints[out.0] {
            FuseHint::MatvecGateUpGelu { gate, .. } => hinted(gate),
            FuseHint::MatvecQkv { wq, .. } => hinted(wq),
            FuseHint::RmsNormMatvec { w_mat, .. } => hinted(w_mat),
            FuseHint::RmsNormMatvecGateUpGelu { gate, .. } => hinted(gate),
            FuseHint::RmsNormMatvecQkv { wq, .. } => hinted(wq),
            _ => prim,
        }
    } else {
        prim
    }
}

pub fn matvec_weight_dtype(graph: &Graph, out: TensorId) -> (r: Result<
    Option<DType>,
    CodegenError,
>)
    ensures
        err_view(r) == weight_dtype_of(graph@, out),
{
    if let Some(hint) = graph.fuse_hint(out) {
        let weight = match hint {
            FuseHint::MatvecGateUpGelu { gate, .. } => Some(*gate),
            FuseHint::MatvecQkv { wq, .. } => Some(*wq),
            FuseHint::RmsNormMatvec { w_mat, .. } => Some(*w_mat),
            FuseHint::RmsNormMatvecGateUpGelu { gate, .. } => Some(*gate),
            FuseHint::RmsNormMatvecQkv { wq, .. } => Some(*wq),
            _ => None,
        };
        if let Some(w) = weight {
            let d = dtype_of(graph, w)?;
            return Ok(Some(d));
        }
    }
    let node = node_of(graph, out)?;
    let inp = match &node.op {
        Op::SumReduce { inp, .. } => *inp,
        _ => {
            return Ok(None);
        },
    };
    let left = match &node_of(graph, inp)?.op {
        Op::MulBroadcastRow { left, .. } => *left,
        _ => {
            return Ok(None);
        },
    };
    let d = dtype_of(graph, left)?;
    Ok(Some(d))
}

/// The root of the region after local rewrites: scaling by one is elided.
pub open spec fn rewritten(g: GraphV, out: TensorId) -> Result<TensorId, ErrorV> {
    if !g.has(out) {
        Err(ErrorV::Ir(IrError::BadTensorId))
    } else {
        match g.at(out).op {
            OpV::ScaleConst { x, scale } if is_one(scale) => Ok(x),
            OpV::SumReduce { .. } => match q4_matvec_pattern(g, out) {
                Ok(_) => Ok(out),
                Err(e) => Err(e),
            },
            _ => Ok(out),
        }
    }
}

/// Whether a constant is one. Every single-precision number within 1e-12 of one is one.
pub open spec fn is_one(s: Scalar) -> bool {
    s == Scalar::Bits(0x3F800000) || s == Scalar::RecipBits(0x3F800000) || s == Scalar::Int(1) || s
        == Scalar::RecipInt(1)
}

pub fn rewrite_region(graph: &Graph, out: TensorId) -> (r: Result<TensorId, CodegenError>)
    ensures
        err_view(r) == rewritten(graph@, out),
{
    let node = node_of(graph, out)?;
    match &node.op {
        Op::ScaleConst { x, scale } => {
            if is_unit(*scale) {
                Ok(*x)
            } else {
                Ok(out)
            }
        },
        Op::SumReduce { .. } => {
            match validate_q4_matvec_pattern(graph, out) {
                Ok(_) => Ok(out),
                Err(e) => Err(e),
            }
        },
        _ => Ok(out),
    }
}

/// The elementwise computation of `id` over the inputs read so far and those it adds: a tensor
/// is loaded from the first place where it stands in the list.
pub open spec fn elem_of(g: GraphV, id: TensorId, ins: Seq<TensorId>) -> (
    Result<ElemExpr, ErrorV>,
    Seq<TensorId>,
)
    decreases id.0,
{
    if !g.has(id) {
        (Err(ErrorV::Ir(IrError::BadTensorId)), ins)
    } else {
        match g.at(id).op {
            OpV::Input { .. } => if ins.contains(id) {
                (Ok(ElemExpr::Load(ins.index_of_first(id)->0 as usize)), ins)
            } else {
                (Ok(ElemExpr::Load(ins.len() as usize)), ins.push(id))
            },
            OpV::Add { a, b } if a.0 < id.0 && b.0 < id.0 => {
                let (ra, ins1) = elem_of(g, a, ins);
                match ra {
                    Err(e) => (Err(e), ins1),
                    Ok(ea) => {
                        let (rb, ins2) = elem_of(g, b, ins1);
                        match rb {
                            Err(e) => (Err(e), ins2),
                            Ok(eb) => (Ok(ElemExpr::Add(Box::new(ea), Box::new(eb))), ins2),
                        }
                    },
                }
            },
            OpV::Mul { a, b } if a.0 < id.0 && b.0 < id.0 => {
                let (ra, ins1) = elem_of(g, a, ins);
                match ra {
                    Err(e) => (Err(e), ins1),
                    Ok(ea) => {
                        let (rb, ins2) = elem_of(g, b, ins1);
                        match rb {
                            Err(e) => (Err(e), ins2),
                            Ok(eb) => (Ok(ElemExpr::Mul(Box::new(ea), Box::new(eb))), ins2),
                        }
                    },
                }
            },
            OpV::ScaleConst { x, scale } if x.0 < id.0 => {
                let (rx, ins1) = elem_of(g, x, ins);
                match rx {
                    Err(e) => (Err(e), ins1),
                    Ok(ex) => (Ok(ElemExpr::Scale(Box::new(ex), scale)), ins1),
                }
            },
            _ => (Err(msg_v("elementwise region may only contain Add/Mul/ScaleConst/Input")), ins),
        }
    }
}

/// Where a tensor stands in the list; it is added at the end if it does not.
fn input_index(inputs: &mut Vec<TensorId>, id: TensorId) -> (r: usize)
    ensures
        old(inputs)@.contains(id) ==> r == old(inputs)@.index_of_first(id)->0 && final(inputs)@
            == old(inputs)@,
        !old(inputs)@.contains(id) ==> r == old(inputs)@.len() && final(inputs)@
            == old(inputs)@.push(id),
{
    let mut i: usize = 0;
    let ghost ins = inputs@;
    while i < inputs.len()
        invariant
            i <= inputs@.len(),
            inputs@ == ins,
            forall|k: int| 0 <= k < i ==> inputs@[k] != id,
        decreases inputs@.len() - i,
    {
        if inputs[i] == id {
            proof {
                assert(ins[i as int] == id);
                ins.index_of_first_ensures(id);
            }
            return i;
        }
        i += 1;
    }
    inputs.push(id);
    i
}

pub fn build_elem_expr(graph: &Graph, id: TensorId, inputs: &mut Vec<TensorId>) -> (r: Result<
    ElemExpr,
    CodegenError,
>)
    requires
        graph@.ordered(),
    ensures
        (err_view(r), final(inputs)@) == elem_of(graph@, id, old(inputs)@),
    decreases id.0,
{
    let node = node_of(graph, id)?;
    assert(reads_below(graph@.nodes[id.0 as int].op, id.0 as int));
    match &node.op {
        Op::Input { .. } => Ok(ElemExpr::Load(input_index(inputs, id))),
        Op::Add { a, b } => {
            let ea = build_elem_expr(graph, *a, inputs)?;
            let eb = build_elem_expr(graph, *b, inputs)?;
            Ok(ElemExpr::Add(Box::new(ea), Box::new(eb)))
        },
        Op::Mul { a, b } => {
            let ea = build_elem_expr(graph, *a, inputs)?;
            let eb = build_elem_expr(graph, *b, inputs)?;
            Ok(ElemExpr::Mul(Box::new(ea), Box::new(eb)))
        },
        Op::ScaleConst { x, scale } => {
            let ex = build_elem_expr(graph, *x, inputs)?;
            Ok(ElemExpr::Scale(Box::new(ex), *scale))
        },
        _ => Err(msg("elementwise region may only contain Add/Mul/ScaleConst/Input")),
    }
}

/// The name of an operation.
pub open spec fn op_name(op: OpV) -> Seq<char> {
    match op {
        OpV::Input { .. } => "Input"@,
        OpV::Const { .. } => "Const"@,
        OpV::Add { .. } => "Add"@,
        OpV::Mul { .. } => "Mul"@,
        OpV::ScaleConst { .. } => "ScaleConst"@,
        OpV::Rsqrt { .. } => "Rsqrt"@,
        OpV::Tanh { .. } => "Tanh"@,
        OpV::Exp { .. } => "Exp"@,
        OpV::SumReduce { .. } => "SumReduce"@,
        OpV::MaxReduce { .. } => "MaxReduce"@,
        OpV::Expand { .. } => "Expand"@,
        OpV::Reshape { .. } => "Reshape"@,
        OpV::Permute { .. } => "Permute"@,
        OpV::MulBroadcastRow { .. } => "MulBroadcastRow"@,
        OpV::CopySlice { .. } => "CopySlice"@,
        OpV::Call { .. } => "Call"@,
    }
}

pub fn op_label(op: &Op) -> (r: &'static str)
    ensures
        r@ == op_name(op@),
{
    match op {
        Op::Input { .. } => "Input",
        Op::Const { .. } => "Const",
        Op::Add { .. } => "Add",
        Op::Mul { .. } => "Mul",
        Op::ScaleConst { .. } => "ScaleConst",
        Op::Rsqrt { .. } => "Rsqrt",
        Op::Tanh { .. } => "Tanh",
        Op::Exp { .. } => "Exp",
        Op::SumReduce { .. } => "SumReduce",
        Op::MaxReduce { .. } => "MaxReduce",
        Op::Expand { .. } => "Expand",
        Op::Reshape { .. } => "Reshape",
        Op::Permute { .. } => "Permute",
        Op::MulBroadcastRow { .. } => "MulBroadcastRow",
        Op::CopySlice { .. } => "CopySlice",
        Op::Call { .. } => "Call",
    }
}

/// A tensor as it is shown in a message.
pub open spec fn id_shown(t: TensorId) -> Seq<char> {
    "TensorId("@ + dec(t.0 as nat) + ")"@
}

fn show_id(t: TensorId) -> (r: String)
    ensures
        r@ == id_shown(t),
{
    String::from_str("TensorId(").concat(dec_text(t.0 as u64).as_str()).concat(")")
}

/// The fields of an operation that no kernel computes, as they are shown in a message. A
/// floating-point constant is shown by its name alone.
pub open spec fn fields_shown(op: OpV) -> Seq<char> {
    match op {
        OpV::Input { shape, dtype } => " { shape: Shape(["@ + join(numerals(shape), ", "@)
            + "]), dtype: "@ + dtype.label() + " }"@,
        OpV::Rsqrt { x } => " { x: "@ + id_shown(x) + " }"@,
        OpV::Tanh { x } => " { x: "@ + id_shown(x) + " }"@,
        OpV::Exp { x } => " { x: "@ + id_shown(x) + " }"@,
        OpV::MaxReduce { inp, axis } => " { inp: "@ + id_shown(inp) + ", axis: "@ + dec(axis as nat)
            + " }"@,
        OpV::MulBroadcastRow { left, row } => " { left: "@ + id_shown(left) + ", row: "@ + id_shown(
            row,
        ) + " }"@,
        _ => ""@,
    }
}

fn show_fields(op: &Op) -> (r: String)
    ensures
        r@ == fields_shown(op@),
{
    match op {
        Op::Input { shape, dtype } => String::from_str(" { shape: Shape([").concat(
            join_numbers(&shape.0, ", ").as_str(),
        ).concat("]), dtype: ").concat(dtype.label_text()).concat(" }"),
        Op::Rsqrt { x } | Op::Tanh { x } | Op::Exp { x } => String::from_str(" { x: ").concat(
            show_id(*x).as_str(),
        ).concat(" }"),
        Op::MaxReduce { inp, axis } => String::from_str(" { inp: ").concat(
            show_id(*inp).as_str(),
        ).concat(", axis: ").concat(dec_usize(*axis).as_str()).concat(" }"),
        Op::MulBroadcastRow { left, row } => String::from_str(" { left: ").concat(
            show_id(*left).as_str(),
        ).concat(", row: ").concat(show_id(*row).as_str()).concat(" }"),
        _ => String::from_str(""),
    }
}

/// The error for an operation that no kernel computes; `what` says who found it.
pub open spec fn no_kernel(what: Seq<char>, op: OpV) -> ErrorV {
    ErrorV::Msg(what + " ("@ + op_name(op) + fields_shown(op) + ")"@)
}

pub fn no_kernel_error(what: &str, op: &Op) -> (r: CodegenError)
    ensures
        r@ == no_kernel(what@, op@),
{
    let m = String::from_str(what).concat(" (").concat(op_label(op)).concat(
        show_fields(op).as_str(),
    ).concat(")");
    CodegenError::Msg(m)
}

/// A kernel for `out` with a name of its own.
pub open spec fn kernel_v(
    stem: &str,
    out: TensorId,
    inputs: Seq<TensorId>,
    kind: KernelKind,
) -> KernelV {
    KernelV { name: stem@ + dec(out.0 as nat), inputs, output: out, kind }
}

/// The one kernel that computes `out`: by its hint, as a matrix-vector product, as row sums,
/// as an elementwise chain or as a copy.
pub open spec fn scheduled(g: GraphV, out: TensorId) -> Result<KernelV, ErrorV> {
    if q4_matvec_pattern(g, out) is Err {
        Err(q4_matvec_pattern(g, out)->Err_0)
    } else if g.hints.contains_key(out.0) {
        hint_kernel(g, out, g.hints[out.0])
    } else {
        let n = product(g.shape(out)) as usize;
        match g.at(out).op {
            OpV::Call { .. } => Err(msg_v("schedule: Call without FuseHint")),
            OpV::ScaleConst { x, scale } => if !g.has(x) {
                Err(ErrorV::Ir(IrError::BadTensorId))
            } else if g.at(x).op is Add || g.at(x).op is Mul {
                let (inner, ins) = elem_of(g, x, Seq::empty());
                match inner {
                    Err(e) => Err(e),
                    Ok(e) => Ok(
                        kernel_v(
                            "k_scale_",
                            out,
                            ins,
                            KernelKind::Elementwise {
                                n,
                                expr: ElemExpr::Scale(Box::new(e), scale),
                            },
                        ),
                    ),
                }
            } else {
                Ok(
                    kernel_v(
                        "k_scale_",
                        out,
                        seq![x],
                        KernelKind::Elementwise {
                            n,
                            expr: ElemExpr::Scale(Box::new(ElemExpr::Load(0)), scale),
                        },
                    ),
                )
            },
            OpV::Add { .. } | OpV::Mul { .. } => {
                let (expr, ins) = elem_of(g, out, Seq::empty());
                match expr {
                    Err(e) => Err(e),
                    Ok(expr) => Ok(
                        kernel_v("k_elem_", out, ins, KernelKind::Elementwise { n, expr }),
                    ),
                }
            },
            OpV::Reshape { inp, .. } | OpV::Permute { inp, .. } | OpV::Expand { inp, .. } => Ok(
                kernel_v(
                    "k_move_",
                    out,
                    seq![inp],
                    KernelKind::Elementwise { n, expr: ElemExpr::Load(0) },
                ),
            ),
            OpV::SumReduce { inp, axis } => if axis != last_axis(g.shape(inp)) {
                Err(msg_v("schedule: only last-axis SumReduce supported"))
            } else {
                match g.at(inp).op {
                    OpV::MulBroadcastRow { left, row } => if g.shape(left).len() != 2 {
                        Err(msg_v("matvec matrix must be rank-2"))
                    } else {
                        Ok(
                            kernel_v(
                                "k_matvec_",
                                out,
                                seq![left, row],
                                KernelKind::Matvec {
                                    rows: g.shape(left)[0],
                                    cols: g.shape(left)[1],
                                    matrix: left,
                                    vector: row,
                                    weight_dtype: g.dtype(left),
                                },
                            ),
                        )
                    },
                    _ => if g.shape(inp).len() != 2 {
                        Err(msg_v("sum_last input must be rank-2"))
                    } else {
                        Ok(
                            kernel_v(
                                "k_sumlast_",
                                out,
                                seq![inp],
                                KernelKind::SumLast {
                                    rows: g.shape(inp)[0],
                                    cols: g.shape(inp)[1],
                                    inp,
                                },
                            ),
                        )
                    },
                }
            },
            OpV::CopySlice { src, src_off, dst_off, n } => Ok(
                kernel_v(
                    "k_copy_slice_",
                    out,
                    seq![src],
                    KernelKind::CopySlice { src_off, dst_off, n, src },
                ),
            ),
            other => Err(no_kernel("schedule: not a Thesis A primitive region"@, other)),
        }
    }
}

/// Schedules the one kernel that computes `out`.
pub fn schedule(graph: &Graph, out: TensorId) -> (r: Result<Vec<ScheduledKernel>, CodegenError>)
    requires
        graph@.ordered(),
        graph@.has(out) ==> product_fits(graph@.shape(out)),
    ensures
        match r {
            Ok(v) => v@.len() == 1 && scheduled(graph@, out) == Ok::<KernelV, ErrorV>(v@[0]@),
            Err(e) => scheduled(graph@, out) == Err::<KernelV, ErrorV>(e@),
        },
{
    match validate_q4_matvec_pattern(graph, out) {
        Ok(_) => {},
        Err(e) => {
            return Err(e);
        },
    }
    let sk = if let Some(hint) = graph.fuse_hint(out) {
        sk_from_hint(graph, out, hint)?
    } else {
        schedule_node(graph, out)?
    };
    let mut v: Vec<ScheduledKernel> = Vec::new();
    v.push(sk);
    Ok(v)
}

/// Schedules a node that has no hint.
fn schedule_node(graph: &Graph, out: TensorId) -> (r: Result<ScheduledKernel, CodegenError>)
    requires
        graph@.ordered(),
        graph@.has(out),
        product_fits(graph@.shape(out)),
        q4_matvec_pattern(graph@, out) is Ok,
        !graph@.hints.contains_key(out.0),
    ensures
        result_view(r) == scheduled(graph@, out),
{
    let node = node_of(graph, out)?;
    assert(reads_below(graph@.nodes[out.0 as int].op, out.0 as int));
    let (stem, inputs, kind) = match &node.op {
        Op::Call { .. } => {
            return Err(msg("schedule: Call without FuseHint"));
        },
        Op::ScaleConst { x, scale } => {
            let n: usize = node.shape.numel();
            let fold: bool = match &node_of(graph, *x)?.op {
                Op::Add { .. } | Op::Mul { .. } => true,
                _ => false,
            };
            if fold {
                let mut inputs: Vec<TensorId> = Vec::new();
                let inner = build_elem_expr(graph, *x, &mut inputs)?;
                let expr = ElemExpr::Scale(Box::new(inner), *scale);
                ("k_scale_", inputs, KernelKind::Elementwise { n, expr })
            } else {
                let expr = ElemExpr::Scale(Box::new(ElemExpr::Load(0)), *scale);
                ("k_scale_", ids1(*x), KernelKind::Elementwise { n, expr })
            }
        },
        Op::Add { .. } | Op::Mul { .. } => {
            let mut inputs: Vec<TensorId> = Vec::new();
            let expr = build_elem_expr(graph, out, &mut inputs)?;
            let n: usize = node.shape.numel();
            ("k_elem_", inputs, KernelKind::Elementwise { n, expr })
        },
        Op::Reshape { inp, .. } | Op::Permute { inp, .. } | Op::Expand { inp, .. } => {
            let n: usize = node.shape.numel();
            ("k_move_", ids1(*inp), KernelKind::Elementwise { n, expr: ElemExpr::Load(0) })
        },
        Op::SumReduce { inp, axis } => {
            let summed = node_of(graph, *inp)?;
            let rank: usize = summed.shape.rank();
            let last: usize = if rank == 0 {
                0
            } else {
                rank - 1
            };
            if *axis != last {
                return Err(msg("schedule: only last-axis SumReduce supported"));
            }
            match &summed.op {
                Op::MulBroadcastRow { left, row } => {
                    let m = node_of(graph, *left)?;
                    if m.shape.rank() != 2 {
                        return Err(msg("matvec matrix must be rank-2"));
                    }
                    let kind = KernelKind::Matvec {
                        rows: m.shape.0[0],
                        cols: m.shape.0[1],
                        matrix: *left,
                        vector: *row,
                        weight_dtype: m.dtype,
                    };
                    ("k_matvec_", ids2(*left, *row), kind)
                },
                _ => {
                    if rank != 2 {
                        return Err(msg("sum_last input must be rank-2"));
                    }
                    let kind = KernelKind::SumLast {
                        rows: summed.shape.0[0],
                        cols: summed.shape.0[1],
                        inp: *inp,
                    };
                    ("k_sumlast_", ids1(*inp), kind)
                },
            }
        },
        Op::CopySlice { src, src_off, dst_off, n } => {
            let kind = KernelKind::CopySlice {
                src_off: *src_off,
                dst_off: *dst_off,
                n: *n,
                src: *src,
            };
            ("k_copy_slice_", ids1(*src), kind)
        },
        other => {
            return Err(no_kernel_error("schedule: not a Thesis A primitive region", other));
        },
    };
    Ok(ScheduledKernel { name: kernel_name(stem, out), inputs, output: out, kind })
}

} // verus!
