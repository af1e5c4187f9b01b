//! From a scheduled kernel to its launch and body.

use vstd::prelude::*;

use crate::codegen::error::{msg, msg_v, CodegenError, ErrorV};
use crate::codegen::lower::block::Block;
use crate::codegen::lower::elem::{
    copy_scale_code, copy_slice_code, elemwise_code, gelu_mul_code, lower_copy_scale,
    lower_copy_slice, lower_elemwise, lower_gelu_mul, lower_quantize_q40, lower_softcap_argmax,
    lower_sum_last, quantize_code, softcap_argmax_code, sum_last_code,
};
use crate::codegen::lower::fused::{
    gate_up_lowered, lower_matvec_gate_up_gelu, lower_matvec_qkv, lower_matvec_rmsnorm_fused,
    lower_ple_gelu_proj_rms_fused, most_rows, ple_code, ple_error, proj_rms_code, proj_rms_error,
    qkv_lowered, QkvSpec,
};
use crate::codegen::lower::matvec::{
    allow_matvec_weight, apply_matvec_sched, lower_matvec, lower_matvec_epi, matvec_launch,
    matvec_launch_of, matvec_lowered, sched_error, validate_sched, Lowered, MatvecEpi,
    TG_X_FLOATS_MAX,
};
use crate::codegen::lower::norm::{
    lower_rmsnorm, lower_rmsnorm_add_then_rmsnorm, lower_rmsnorm_per_head,
    lower_rmsnorm_per_head_q40, lower_rmsnorm_per_head_rope, lower_rmsnorm_per_head_rope_q40,
    lower_rope, rmsnorm_code, rmsnorm_per_head_code, rmsnorm_q40_code, rmsnorm_rope_code,
    rmsnorm_rope_q40_code, rmsnorm_twice_code, rope_code,
};
use crate::codegen::lower::sdpa::{lower_sdpa_online, sdpa_code, sdpa_tile};
use crate::codegen::schedule::result_view;
use crate::ir::dtype::{DType, Shape};
use crate::ir::graph::{Graph, GraphV};
use crate::ir::kernel::{
    Code, KernelIr, KernelIrV, KernelKind, KernelV, KirLaunch, OptSchedule, ScheduledKernel,
};

verus! {

/// What lowering decides about a kernel.
pub ghost struct Body {
    pub launch: KirLaunch,
    pub code: Seq<Code>,
    pub n_outputs: usize,
    pub next: u32,
}

/// A body with one output.
pub open spec fn plain(launch: KirLaunch, code: Seq<Code>, next: u32) -> Body {
    Body { launch, code, n_outputs: 1, next }
}

/// A body that depends on a tiling which must be supported.
pub open spec fn checked(
    sched: OptSchedule,
    launch: KirLaunch,
    body: Result<Lowered, ErrorV>,
    n_outputs: usize,
) -> Result<Body, ErrorV> {
    match sched_error(sched) {
        Some(e) => Err(e),
        None => match body {
            Err(e) => Err(e),
            Ok(l) => Ok(Body { launch, code: l.code, n_outputs, next: l.next }),
        },
    }
}

/// One threadgroup of `tg` threads.
#[verifier::allow_in_spec]
pub fn one_group(tg: u64) -> KirLaunch
    returns
        (KirLaunch::RowsParallel { rows: 1, tg }),
{
    KirLaunch::RowsParallel { rows: 1, tg }
}

/// The tiling of the gated kernel: more simdgroups than a single product takes.
#[verifier::allow_in_spec]
pub fn gate_up_sched(weight_dtype: DType, cols: usize, sched: OptSchedule) -> OptSchedule
    returns
        (if weight_dtype == DType::Q4K && cols % 256 == 0 {
            OptSchedule { tg: 128, vec: sched.vec, unroll: sched.unroll, nsg: 4, nr0: 16 }
        } else {
            apply_matvec_sched(weight_dtype, cols, sched)
        }),
{
    if weight_dtype == DType::Q4K && cols % 256 == 0 {
        OptSchedule { tg: 128, vec: sched.vec, unroll: sched.unroll, nsg: 4, nr0: 16 }
    } else {
        apply_matvec_sched(weight_dtype, cols, sched)
    }
}

/// Threads of the attention kernel: a simdgroup for each query head.
pub open spec fn sdpa_threads(n_q: usize) -> u64 {
    if n_q == 0 {
        32
    } else if n_q * 32 > u64::MAX {
        u64::MAX
    } else {
        (n_q * 32) as u64
    }
}

fn sdpa_thread_count(n_q: usize) -> (r: u64)
    ensures
        r == sdpa_threads(n_q),
{
    let n: u64 = n_q as u64;
    if n == 0 {
        32
    } else if n > u64::MAX / 32 {
        u64::MAX
    } else {
        n * 32
    }
}

/// Whether the head size of a kernel is one that its body can be written for: packed heads come
/// in whole blocks, and two rows of attended heads fit into a threadgroup.
pub open spec fn head_ok(kind: KernelKind) -> bool {
    match kind {
        KernelKind::SdpaNaive { hd, .. } => hd % 32 == 0 && 0 < hd <= 4096,
        KernelKind::RmsNormPerHeadRopeQ40 { hd, .. } => hd % 32 == 0,
        KernelKind::RmsNormPerHeadQ40 { hd, .. } => hd % 32 == 0,
        _ => true,
    }
}

/// Whether the identifiers and thread counts of a tiling stay within machine integers.
pub open spec fn sched_fits(sched: OptSchedule) -> bool {
    sched.nr0 <= 0x10000000 && sched.nsg <= 0x1000000
}

/// The launch and body of a kernel that multiplies a matrix and a vector, if it is one.
pub open spec fn projection_body(
    kind: KernelKind,
    sched: OptSchedule,
) -> Option<Result<Body, ErrorV>> {
    match kind {
        KernelKind::Matvec { .. }
        | KernelKind::MatvecGateUpGelu { .. }
        | KernelKind::MatvecQkv { .. }
        | KernelKind::RmsNormMatvec { .. }
        | KernelKind::RmsNormMatvecGateUpGelu { .. }
        | KernelKind::RmsNormMatvecQkv { .. }
        | KernelKind::MatvecGeluMul { .. } => Some(projection(kind, sched)),
        _ => None,
    }
}

/// The launch and body of a kernel that multiplies a matrix and a vector.
#[verifier::opaque]
pub open spec fn projection(kind: KernelKind, sched: OptSchedule) -> Result<Body, ErrorV> {
    match kind {
        KernelKind::Matvec {
            rows,
            cols,
            weight_dtype,
            ..
        } => if !allow_matvec_weight(weight_dtype) {
            Err(msg_v("lower matvec: weight dtype must be float, Q4K, or Q6K"))
        } else {
            let s = apply_matvec_sched(weight_dtype, cols, sched);
            checked(
                sched,
                matvec_launch_of(weight_dtype, rows, s),
                matvec_lowered(rows, cols, weight_dtype, s, 1, 2, None, MatvecEpi::Plain, 0),
                1,
            )
        },
        KernelKind::MatvecGateUpGelu {
            rows,
            cols,
            weight_dtype,
            ..
        } => if !allow_matvec_weight(weight_dtype) {
            Err(msg_v("lower matvec_gate_up_gelu: weight dtype must be float or Q4K"))
        } else {
            let s = gate_up_sched(weight_dtype, cols, sched);
            checked(
                sched,
                matvec_launch_of(weight_dtype, rows, s),
                gate_up_lowered(rows, cols, weight_dtype, s, 2, 3, None, 0),
                1,
            )
        },
        KernelKind::MatvecQkv { q_rows, kv_rows, cols, wq_dtype, wk_dtype, wv_dtype, .. } => if !(
        allow_matvec_weight(wq_dtype) && allow_matvec_weight(wk_dtype) && allow_matvec_weight(wv_dtype)) {
            Err(msg_v("lower matvec_qkv: weight dtype must be float, Q4K, or Q6K"))
        } else {
            let s = apply_matvec_sched(wq_dtype, cols, sched);
            let p = QkvSpec {
                q_rows,
                kv_rows,
                cols,
                wq: wq_dtype,
                wk: wk_dtype,
                wv: wv_dtype,
                x_buf: 3,
                out_q: 4,
                out_k: 5,
                out_v: 6,
            };
            checked(
                sched,
                matvec_launch_of(wq_dtype, most_rows(q_rows, kv_rows), s),
                qkv_lowered(p, s, None, 0),
                3,
            )
        },
        KernelKind::RmsNormMatvec {
            eps,
            rows,
            cols,
            weight_dtype,
            ..
        } => if !allow_matvec_weight(weight_dtype) {
            Err(msg_v("lower rmsnorm_matvec: weight dtype must be float, Q4K, or Q6K"))
        } else {
            let s = apply_matvec_sched(weight_dtype, cols, sched);
            checked(
                sched,
                matvec_launch_of(weight_dtype, rows, s),
                matvec_lowered(
                    rows,
                    cols,
                    weight_dtype,
                    s,
                    1,
                    3,
                    Some((2u32, eps)),
                    MatvecEpi::Plain,
                    0,
                ),
                1,
            )
        },
        KernelKind::RmsNormMatvecGateUpGelu {
            eps,
            rows,
            cols,
            weight_dtype,
            ..
        } => if !allow_matvec_weight(weight_dtype) {
            Err(msg_v("lower rmsnorm_matvec_gate_up_gelu: weight dtype must be float or Q4K"))
        } else {
            let s = gate_up_sched(weight_dtype, cols, sched);
            checked(
                sched,
                matvec_launch_of(weight_dtype, rows, s),
                gate_up_lowered(rows, cols, weight_dtype, s, 2, 4, Some((3u32, eps)), 0),
                1,
            )
        },
        KernelKind::RmsNormMatvecQkv {
            eps,
            q_rows,
            kv_rows,
            cols,
            wq_dtype,
            wk_dtype,
            wv_dtype,
            ..
        } => if !(
        allow_matvec_weight(wq_dtype) && allow_matvec_weight(wk_dtype) && allow_matvec_weight(wv_dtype)) {
            Err(msg_v("lower rmsnorm_matvec_qkv: weight dtype must be float, Q4K, or Q6K"))
        } else {
            let s = apply_matvec_sched(wq_dtype, cols, sched);
            let p = QkvSpec {
                q_rows,
                kv_rows,
                cols,
                wq: wq_dtype,
                wk: wk_dtype,
                wv: wv_dtype,
                x_buf: 3,
                out_q: 5,
                out_k: 6,
                out_v: 7,
            };
            checked(
                sched,
                matvec_launch_of(wq_dtype, most_rows(q_rows, kv_rows), s),
                qkv_lowered(p, s, Some((4u32, eps)), 0),
                3,
            )
        },
        KernelKind::MatvecGeluMul { rows, cols, ctx_off, weight_dtype, .. } => {
            let s = apply_matvec_sched(weight_dtype, cols, sched);
            let epi = MatvecEpi::GeluMulCtx { ctx_buf: 2, ctx_off: ctx_off as u32, dt: DType::F16 };
            checked(
                sched,
                matvec_launch_of(weight_dtype, rows, s),
                matvec_lowered(rows, cols, weight_dtype, s, 1, 3, None, epi, 0),
                1,
            )
        },
        _ => arbitrary(),
    }
}

/// The launch and body of a kernel that normalises or rotates, if it is one.
pub open spec fn norm_body(kind: KernelKind, out_dtype: DType) -> Option<Result<Body, ErrorV>> {
    match kind {
        KernelKind::RmsNorm { .. }
        | KernelKind::RmsNormAdd { .. }
        | KernelKind::RmsNormAddScale { .. }
        | KernelKind::RmsNormAddThenRmsNorm { .. }
        | KernelKind::RmsNormPerHead { .. }
        | KernelKind::RmsNormPerHeadRope { .. }
        | KernelKind::RmsNormPerHeadRopeQ40 { .. }
        | KernelKind::RmsNormPerHeadQ40 { .. }
        | KernelKind::Rope { .. }
        | KernelKind::MatvecGeluMulProjRmsAddScale { .. }
        | KernelKind::MatvecRmsNormAdd { .. }
        | KernelKind::MatvecRmsNormAddScale { .. } => Some(normalisation(kind, out_dtype)),
        _ => None,
    }
}

/// The launch and body of a kernel that normalises or rotates.
#[verifier::opaque]
pub open spec fn normalisation(kind: KernelKind, out_dtype: DType) -> Result<Body, ErrorV> {
    match kind {
        KernelKind::RmsNorm { n, eps, .. } => Ok(
            plain(one_group(256), rmsnorm_code(n, eps, false, None, 2, out_dtype, 256, 0), 4),
        ),
        KernelKind::RmsNormAdd { n, eps, .. } => Ok(
            plain(one_group(256), rmsnorm_code(n, eps, true, None, 3, out_dtype, 256, 0), 4),
        ),
        KernelKind::RmsNormAddScale { n, eps, scale, .. } => Ok(
            plain(one_group(256), rmsnorm_code(n, eps, true, Some(scale), 3, out_dtype, 256, 0), 4),
        ),
        KernelKind::RmsNormAddThenRmsNorm { n, eps, .. } => if n > TG_X_FLOATS_MAX {
            Err(msg_v("rmsnorm_add_then_rmsnorm requires LOCAL staging of residual stream"))
        } else {
            Ok(
                Body {
                    launch: one_group(256),
                    code: rmsnorm_twice_code(n, eps, out_dtype, 256, 0),
                    n_outputs: 2,
                    next: 8,
                },
            )
        },
        KernelKind::RmsNormPerHead { n_heads, hd, eps, with_weight, .. } => Ok(
            plain(
                KirLaunch::Elementwise { n: n_heads },
                rmsnorm_per_head_code(hd, eps, with_weight, 0, 1, 2, out_dtype, 0),
                5,
            ),
        ),
        KernelKind::RmsNormPerHeadRope { n_heads, hd, eps, with_weight, .. } => Ok(
            plain(
                KirLaunch::Elementwise { n: n_heads },
                rmsnorm_rope_code(hd, eps, with_weight, out_dtype, 0),
                11,
            ),
        ),
        KernelKind::RmsNormPerHeadRopeQ40 { n_heads, hd, eps, with_weight, .. } => Ok(
            plain(
                KirLaunch::Elementwise { n: n_heads },
                rmsnorm_rope_q40_code(hd, eps, with_weight, DType::F16, 0),
                11,
            ),
        ),
        KernelKind::RmsNormPerHeadQ40 { n_heads, hd, eps, with_weight, .. } => Ok(
            plain(
                KirLaunch::Elementwise { n: n_heads },
                rmsnorm_q40_code(hd, eps, with_weight, DType::F16, 0),
                6,
            ),
        ),
        KernelKind::Rope { n_heads, hd, .. } => Ok(
            plain(KirLaunch::Elementwise { n: n_heads }, rope_code(hd, 0, 1, 2, out_dtype, 0), 6),
        ),
        KernelKind::MatvecGeluMulProjRmsAddScale {
            gate_rows,
            cols,
            proj_rows,
            ctx_off,
            eps,
            scale,
            weight_dtype,
            ..
        } => match ple_error(gate_rows, cols, proj_rows, weight_dtype) {
            Some(e) => Err(e),
            None => Ok(
                plain(
                    one_group(256),
                    ple_code(gate_rows, cols, proj_rows, ctx_off, eps, scale, 0),
                    17,
                ),
            ),
        },
        KernelKind::MatvecRmsNormAdd { rows, cols, eps, weight_dtype, .. } => match proj_rms_error(
            rows,
            cols,
            weight_dtype,
        ) {
            Some(e) => Err(e),
            None => Ok(plain(one_group(256), proj_rms_code(rows, cols, eps, None, 0), 9)),
        },
        KernelKind::MatvecRmsNormAddScale {
            rows,
            cols,
            eps,
            scale,
            weight_dtype,
            ..
        } => match proj_rms_error(
            rows,
            cols,
            weight_dtype,
        ) {
            Some(e) => Err(e),
            None => Ok(plain(one_group(256), proj_rms_code(rows, cols, eps, Some(scale), 0), 9)),
        },
        _ => arbitrary(),
    }
}

/// The launch and body of any other kernel of `n_in` inputs.
#[verifier::opaque]
pub open spec fn other_body(
    kind: KernelKind,
    n_in: u32,
    out_dtype: DType,
    sched: OptSchedule,
) -> Result<Body, ErrorV> {
    match kind {
        KernelKind::Elementwise { n, expr } => Ok(
            plain(KirLaunch::Elementwise { n }, elemwise_code(expr, n_in, out_dtype), 0),
        ),
        KernelKind::SumLast { rows, cols, .. } => checked(
            sched,
            KirLaunch::RowsParallel { rows, tg: sched.tg },
            Ok(Lowered { code: sum_last_code(cols, out_dtype, sched.tg, 0), next: 3 }),
            1,
        ),
        KernelKind::CopySlice { src_off, dst_off, n, .. } => Ok(
            plain(
                KirLaunch::Elementwise { n },
                copy_slice_code(src_off, dst_off, n_in, out_dtype),
                0,
            ),
        ),
        KernelKind::CopyScale { src_off, dst_off, n, scale, src_dtype, .. } => Ok(
            plain(
                KirLaunch::Elementwise { n },
                copy_scale_code(src_off, dst_off, scale, n_in, src_dtype),
                0,
            ),
        ),
        KernelKind::GeluMul { n, up_off, .. } => Ok(
            plain(KirLaunch::Elementwise { n }, gelu_mul_code(up_off, n_in, out_dtype, 0), 4),
        ),
        KernelKind::SdpaNaive { n_q, hd, kv_dtype, .. } => Ok(
            plain(
                one_group(sdpa_threads(n_q)),
                sdpa_code(hd, out_dtype, kv_dtype, sdpa_threads(n_q), 0),
                (20 + 2 * sdpa_tile(hd)) as u32,
            ),
        ),
        KernelKind::QuantizeQ40 { n, .. } => Ok(
            plain(KirLaunch::Elementwise { n: n / 32 }, quantize_code(n_in), 0),
        ),
        KernelKind::SoftcapArgmax { n, cap, .. } => Ok(
            plain(one_group(1024), softcap_argmax_code(n, cap, DType::F16, 1024, 0), 4),
        ),
        KernelKind::CopyScaleIndexed { .. }
        | KernelKind::RmsNormPerHeadQkvQ40 { .. }
        | KernelKind::SdpaMwgPart { .. }
        | KernelKind::SdpaMwgReduce { .. } => Err(msg_v("lower: no body for this kernel kind")),
        _ => arbitrary(),
    }
}

/// The launch and body of a kernel of `n_in` inputs.
pub open spec fn body_of(
    kind: KernelKind,
    n_in: u32,
    out_dtype: DType,
    sched: OptSchedule,
) -> Result<Body, ErrorV> {
    match projection_body(kind, sched) {
        Some(r) => r,
        None => match norm_body(kind, out_dtype) {
            Some(r) => r,
            None => other_body(kind, n_in, out_dtype, sched),
        },
    }
}

/// Whether a lowering gave the body that is asked for.
pub open spec fn gives(
    spec: Result<Body,
    ErrorV>,
    r: Result<(KirLaunch,
    Block,
    usize),
    CodegenError>,
    next: u32,
) -> bool {
    match r {
        Ok((launch, b, n_outputs)) => spec == Ok::<Body, ErrorV>(
            Body { launch, code: b@, n_outputs, next },
        ),
        Err(e) => spec == Err::<Body, ErrorV>(e@),
    }
}

fn lower_projection(
    kind: &KernelKind,
    sched: OptSchedule,
    next: &mut u32,
) -> (r: Result<(KirLaunch, Block, usize), CodegenError>)
    requires
        *old(next) == 0,
        sched_fits(sched),
        projection_body(*kind, sched) is Some,
    ensures
        gives(projection(*kind, sched), r, *final(next)),
{
    proof {
        reveal(projection);
    }
    Ok(
        match kind {
            KernelKind::Matvec { rows, cols, weight_dtype, .. } => {
                if !allow_matvec_weight(*weight_dtype) {
                    return Err(msg("lower matvec: weight dtype must be float, Q4K, or Q6K"));
                }
                validate_sched(sched)?;
                let s = apply_matvec_sched(*weight_dtype, *cols, sched);
                (
                    matvec_launch(*weight_dtype, *rows, s),
                    lower_matvec(*rows, *cols, *weight_dtype, s, 1, 2, None, next)?,
                    1,
                )
            },
            KernelKind::MatvecGateUpGelu { rows, cols, weight_dtype, .. } => {
                if !allow_matvec_weight(*weight_dtype) {
                    return Err(msg("lower matvec_gate_up_gelu: weight dtype must be float or Q4K"));
                }
                validate_sched(sched)?;
                let s = gate_up_sched(*weight_dtype, *cols, sched);
                (
                    matvec_launch(*weight_dtype, *rows, s),
                    lower_matvec_gate_up_gelu(*rows, *cols, *weight_dtype, s, 2, 3, None, next)?,
                    1,
                )
            },
            KernelKind::MatvecQkv { q_rows, kv_rows, cols, wq_dtype, wk_dtype, wv_dtype, .. } => {
                if !(allow_matvec_weight(*wq_dtype) && allow_matvec_weight(*wk_dtype)
                    && allow_matvec_weight(*wv_dtype)) {
                    return Err(msg("lower matvec_qkv: weight dtype must be float, Q4K, or Q6K"));
                }
                validate_sched(sched)?;
                let s = apply_matvec_sched(*wq_dtype, *cols, sched);
                let p = QkvSpec {
                    q_rows: *q_rows,
                    kv_rows: *kv_rows,
                    cols: *cols,
                    wq: *wq_dtype,
                    wk: *wk_dtype,
                    wv: *wv_dtype,
                    x_buf: 3,
                    out_q: 4,
                    out_k: 5,
                    out_v: 6,
                };
                (
                    matvec_launch(*wq_dtype, most_rows(*q_rows, *kv_rows), s),
                    lower_matvec_qkv(p, s, None, next)?,
                    3,
                )
            },
            KernelKind::RmsNormMatvec { eps, rows, cols, weight_dtype, .. } => {
                if !allow_matvec_weight(*weight_dtype) {
                    return Err(
                        msg("lower rmsnorm_matvec: weight dtype must be float, Q4K, or Q6K"),
                    );
                }
                validate_sched(sched)?;
                let s = apply_matvec_sched(*weight_dtype, *cols, sched);
                (
                    matvec_launch(*weight_dtype, *rows, s),
                    lower_matvec(*rows, *cols, *weight_dtype, s, 1, 3, Some((2u32, *eps)), next)?,
                    1,
                )
            },
            KernelKind::RmsNormMatvecGateUpGelu { eps, rows, cols, weight_dtype, .. } => {
                if !allow_matvec_weight(*weight_dtype) {
                    return Err(
                        msg("lower rmsnorm_matvec_gate_up_gelu: weight dtype must be float or Q4K"),
                    );
                }
                validate_sched(sched)?;
                let s = gate_up_sched(*weight_dtype, *cols, sched);
                (
                    matvec_launch(*weight_dtype, *rows, s),
                    lower_matvec_gate_up_gelu(
                        *rows,
                        *cols,
                        *weight_dtype,
                        s,
                        2,
                        4,
                        Some((3u32, *eps)),
                        next,
                    )?,
                    1,
                )
            },
            KernelKind::RmsNormMatvecQkv {
                eps,
                q_rows,
                kv_rows,
                cols,
                wq_dtype,
                wk_dtype,
                wv_dtype,
                ..
            } => {
                if !(allow_matvec_weight(*wq_dtype) && allow_matvec_weight(*wk_dtype)
                    && allow_matvec_weight(*wv_dtype)) {
                    return Err(
                        msg("lower rmsnorm_matvec_qkv: weight dtype must be float, Q4K, or Q6K"),
                    );
                }
                validate_sched(sched)?;
                let s = apply_matvec_sched(*wq_dtype, *cols, sched);
                let p = QkvSpec {
                    q_rows: *q_rows,
                    kv_rows: *kv_rows,
                    cols: *cols,
                    wq: *wq_dtype,
                    wk: *wk_dtype,
                    wv: *wv_dtype,
                    x_buf: 3,
                    out_q: 5,
                    out_k: 6,
                    out_v: 7,
                };
                (
                    matvec_launch(*wq_dtype, most_rows(*q_rows, *kv_rows), s),
                    lower_matvec_qkv(p, s, Some((4u32, *eps)), next)?,
                    3,
                )
            },
            KernelKind::MatvecGeluMul { rows, cols, ctx_off, weight_dtype, .. } => {
                validate_sched(sched)?;
                let s = apply_matvec_sched(*weight_dtype, *cols, sched);
                let epi = MatvecEpi::GeluMulCtx {
                    ctx_buf: 2,
                    ctx_off: *ctx_off as u32,
                    dt: DType::F16,
                };
                (
                    matvec_launch(*weight_dtype, *rows, s),
                    lower_matvec_epi(*rows, *cols, *weight_dtype, s, 1, 3, None, epi, next)?,
                    1,
                )
            },
            _ => {
                return Err(msg("lower: no body for this kernel kind"));
            },
        },
    )
}

fn lower_normalisation(
    kind: &KernelKind,
    out_dtype: DType,
    next: &mut u32,
) -> (r: Result<(KirLaunch, Block, usize), CodegenError>)
    requires
        *old(next) == 0,
        head_ok(*kind),
        norm_body(*kind, out_dtype) is Some,
    ensures
        gives(normalisation(*kind, out_dtype), r, *final(next)),
{
    proof {
        reveal(normalisation);
    }
    Ok(
        match kind {
            KernelKind::RmsNorm { n, eps, .. } => (
                one_group(256),
                lower_rmsnorm(*n, *eps, false, None, 2, out_dtype, 256, next),
                1,
            ),
            KernelKind::RmsNormAdd { n, eps, .. } => (
                one_group(256),
                lower_rmsnorm(*n, *eps, true, None, 3, out_dtype, 256, next),
                1,
            ),
            KernelKind::RmsNormAddScale { n, eps, scale, .. } => (
                one_group(256),
                lower_rmsnorm(*n, *eps, true, Some(*scale), 3, out_dtype, 256, next),
                1,
            ),
            KernelKind::RmsNormAddThenRmsNorm { n, eps, .. } => {
                if *n > TG_X_FLOATS_MAX {
                    return Err(
                        msg("rmsnorm_add_then_rmsnorm requires LOCAL staging of residual stream"),
                    );
                }
                (
                    one_group(256),
                    lower_rmsnorm_add_then_rmsnorm(*n, *eps, out_dtype, 256, next),
                    2,
                )
            },
            KernelKind::RmsNormPerHead { n_heads, hd, eps, with_weight, .. } => (
                KirLaunch::Elementwise { n: *n_heads },
                lower_rmsnorm_per_head(*hd, *eps, *with_weight, 0, 1, 2, out_dtype, next),
                1,
            ),
            KernelKind::RmsNormPerHeadRope { n_heads, hd, eps, with_weight, .. } => (
                KirLaunch::Elementwise { n: *n_heads },
                lower_rmsnorm_per_head_rope(*hd, *eps, *with_weight, out_dtype, next),
                1,
            ),
            KernelKind::RmsNormPerHeadRopeQ40 { n_heads, hd, eps, with_weight, .. } => (
                KirLaunch::Elementwise { n: *n_heads },
                lower_rmsnorm_per_head_rope_q40(*hd, *eps, *with_weight, DType::F16, next),
                1,
            ),
            KernelKind::RmsNormPerHeadQ40 { n_heads, hd, eps, with_weight, .. } => (
                KirLaunch::Elementwise { n: *n_heads },
                lower_rmsnorm_per_head_q40(*hd, *eps, *with_weight, DType::F16, next),
                1,
            ),
            KernelKind::Rope { n_heads, hd, .. } => (
                KirLaunch::Elementwise { n: *n_heads },
                lower_rope(*hd, 0, 1, 2, out_dtype, next),
                1,
            ),
            KernelKind::MatvecGeluMulProjRmsAddScale {
                gate_rows,
                cols,
                proj_rows,
                ctx_off,
                eps,
                scale,
                weight_dtype,
                ..
            } => {
                let (launch, b) = lower_ple_gelu_proj_rms_fused(
                    *gate_rows,
                    *cols,
                    *proj_rows,
                    *ctx_off,
                    *eps,
                    *scale,
                    *weight_dtype,
                    next,
                )?;
                (launch, b, 1)
            },
            KernelKind::MatvecRmsNormAdd { rows, cols, eps, weight_dtype, .. } => {
                let (launch, b) = lower_matvec_rmsnorm_fused(
                    *rows,
                    *cols,
                    *weight_dtype,
                    *eps,
                    None,
                    next,
                )?;
                (launch, b, 1)
            },
            KernelKind::MatvecRmsNormAddScale { rows, cols, eps, scale, weight_dtype, .. } => {
                let (launch, b) = lower_matvec_rmsnorm_fused(
                    *rows,
                    *cols,
                    *weight_dtype,
                    *eps,
                    Some(*scale),
                    next,
                )?;
                (launch, b, 1)
            },
            _ => {
                return Err(msg("lower: no body for this kernel kind"));
            },
        },
    )
}

fn lower_other(
    kind: &KernelKind,
    n_in: u32,
    out_dtype: DType,
    sched: OptSchedule,
    next: &mut u32,
) -> (r: Result<(KirLaunch, Block, usize), CodegenError>)
    requires
        *old(next) == 0,
        head_ok(*kind),
        projection_body(*kind, sched) is None,
        norm_body(*kind, out_dtype) is None,
    ensures
        gives(other_body(*kind, n_in, out_dtype, sched), r, *final(next)),
{
    proof {
        reveal(other_body);
    }
    Ok(
        match kind {
            KernelKind::Elementwise { n, expr } => (
                KirLaunch::Elementwise { n: *n },
                lower_elemwise(expr, n_in, out_dtype),
                1usize,
            ),
            KernelKind::SumLast { rows, cols, .. } => {
                validate_sched(sched)?;
                (
                    KirLaunch::RowsParallel { rows: *rows, tg: sched.tg },
                    lower_sum_last(*cols, out_dtype, sched.tg, next),
                    1,
                )
            },
            KernelKind::CopySlice { src_off, dst_off, n, .. } => (
                KirLaunch::Elementwise { n: *n },
                lower_copy_slice(*src_off, *dst_off, n_in, out_dtype),
                1,
            ),
            KernelKind::CopyScale { src_off, dst_off, n, scale, src_dtype, .. } => (
                KirLaunch::Elementwise { n: *n },
                lower_copy_scale(*src_off, *dst_off, *scale, n_in, *src_dtype),
                1,
            ),
            KernelKind::GeluMul { n, up_off, .. } => (
                KirLaunch::Elementwise { n: *n },
                lower_gelu_mul(*up_off, n_in, out_dtype, next),
                1,
            ),
            KernelKind::SdpaNaive { n_q, hd, kv_dtype, .. } => {
                let tg: u64 = sdpa_thread_count(*n_q);
                (one_group(tg), lower_sdpa_online(*hd, out_dtype, *kv_dtype, tg, next), 1)
            },
            KernelKind::QuantizeQ40 { n, .. } => (
                KirLaunch::Elementwise { n: *n / 32 },
                lower_quantize_q40(n_in),
                1,
            ),
            KernelKind::SoftcapArgmax { n, cap, .. } => (
                one_group(1024),
                lower_softcap_argmax(*n, *cap, DType::F16, 1024, next),
                1,
            ),
            KernelKind::CopyScaleIndexed { .. }
            | KernelKind::RmsNormPerHeadQkvQ40 { .. }
            | KernelKind::SdpaMwgPart { .. }
            | KernelKind::SdpaMwgReduce { .. } => {
                return Err(msg("lower: no body for this kernel kind"));
            },
            _ => {
                return Err(msg("lower: no body for this kernel kind"));
            },
        },
    )
}

/// The kernel that a scheduled kernel lowers to.
pub open spec fn lowered(
    sk: KernelV,
    out_shape: Seq<usize>,
    out_dtype: DType,
    sched: OptSchedule,
) -> Result<KernelIrV, ErrorV> {
    match body_of(sk.kind, sk.inputs.len() as u32, out_dtype, sched) {
        Err(e) => Err(e),
        Ok(b) => Ok(
            KernelIrV {
                name: sk.name,
                n_inputs: sk.inputs.len() as usize,
                n_outputs: b.n_outputs,
                out_shape,
                out_dtype,
                launch: b.launch,
                body: b.code,
                next_id: b.next,
            },
        ),
    }
}

/// Lowers a scheduled kernel.
pub fn lower_to_kir(
    sk: &ScheduledKernel,
    out_shape: Shape,
    out_dtype: DType,
    sched: OptSchedule,
) -> (r: Result<KernelIr, CodegenError>)
    requires
        head_ok(sk.kind),
        sched_fits(sched),
    ensures
        result_view(r) == lowered(sk@, out_shape@, out_dtype, sched),
{
    let mut next: u32 = 0;
    let n_in: u32 = sk.inputs.len() as u32;
    let (launch, body, n_outputs) = match &sk.kind {
        KernelKind::Matvec { .. }
        | KernelKind::MatvecGateUpGelu { .. }
        | KernelKind::MatvecQkv { .. }
        | KernelKind::RmsNormMatvec { .. }
        | KernelKind::RmsNormMatvecGateUpGelu { .. }
        | KernelKind::RmsNormMatvecQkv { .. }
        | KernelKind::MatvecGeluMul { .. } => lower_projection(&sk.kind, sched, &mut next)?,
        KernelKind::RmsNorm { .. }
        | KernelKind::RmsNormAdd { .. }
        | KernelKind::RmsNormAddScale { .. }
        | KernelKind::RmsNormAddThenRmsNorm { .. }
        | KernelKind::RmsNormPerHead { .. }
        | KernelKind::RmsNormPerHeadRope { .. }
        | KernelKind::RmsNormPerHeadRopeQ40 { .. }
        | KernelKind::RmsNormPerHeadQ40 { .. }
        | KernelKind::Rope { .. }
        | KernelKind::MatvecGeluMulProjRmsAddScale { .. }
        | KernelKind::MatvecRmsNormAdd { .. }
        | KernelKind::MatvecRmsNormAddScale { .. } => lower_normalisation(
            &sk.kind,
            out_dtype,
            &mut next,
        )?,
        _ => lower_other(&sk.kind, n_in, out_dtype, sched, &mut next)?,
    };
    Ok(
        KernelIr {
            name: sk.name.clone(),
            n_inputs: sk.inputs.len(),
            n_outputs,
            out_shape,
            out_dtype,
            launch,
            body: body.into_stmts(),
            next_id: next,
        },
    )
}

/// The kernel of a node, lowered with the shape and element type that the graph gives it.
pub open spec fn lowered_in(
    g: GraphV,
    sk: KernelV,
    sched: OptSchedule,
) -> Result<KernelIrV, ErrorV> {
    if !g.has(sk.output) {
        Err(ErrorV::Ir(crate::ir::dtype::IrError::BadTensorId))
    } else {
        lowered(sk, g.shape(sk.output), g.dtype(sk.output), sched)
    }
}

pub fn lower_kernel(
    graph: &Graph,
    sk: &ScheduledKernel,
    sched: OptSchedule,
) -> (r: Result<KernelIr, CodegenError>)
    requires
        head_ok(sk.kind),
        sched_fits(sched),
    ensures
        result_view(r) == lowered_in(graph@, sk@, sched),
{
    match graph.shape_dtype(sk.output) {
        Err(e) => Err(CodegenError::Ir(e)),
        Ok((shape, dtype)) => lower_to_kir(sk, shape, dtype, sched),
    }
}

} // verus!
