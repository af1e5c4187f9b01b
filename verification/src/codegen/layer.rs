//! Kernels that are built directly, one launch each, without a graph.

use vstd::prelude::*;
use vstd::string::*;

use crate::codegen::error::{CodegenError, ErrorV};
use crate::codegen::lower::kernels::{lower_to_kir, lowered};
use crate::codegen::render::expr::{lits_view, LitV, Literal};
use crate::codegen::render::kernel::{render_msl, rendered, MetalKernelSource, SourceV};
use crate::codegen::schedule::result_view;
use crate::ir::dtype::{vector_shape, DType, Scalar, TensorId};
use crate::ir::kernel::{KernelKind, KernelV, OptSchedule, ScheduledKernel};
use crate::text::{dec, dec_usize};

verus! {

/// The tensors that a kernel of `n` inputs reads: the first `n` there are.
pub open spec fn first_tensors(n: nat) -> Seq<TensorId> {
    Seq::new(n, |i: int| TensorId(i as u32))
}

/// The source of a kernel over single-precision vectors of `len` elements, under the default
/// tiling.
pub open spec fn layer_source(
    name: Seq<char>,
    n_inputs: nat,
    len: usize,
    kind: KernelKind,
    lits: Seq<LitV>,
) -> Result<SourceV, ErrorV> {
    let sk = KernelV {
        name,
        inputs: first_tensors(n_inputs),
        output: TensorId(n_inputs as u32),
        kind,
    };
    let sched = OptSchedule { tg: 32, vec: 4, unroll: 1, nsg: 2, nr0: 4 };
    match lowered(sk, seq![len], DType::F32, sched) {
        Ok(k) => rendered(k, lits),
        Err(e) => Err(e),
    }
}

fn layer_kernel(
    name: String,
    n_inputs: u32,
    len: usize,
    kind: KernelKind,
    lits: &Vec<Literal>,
) -> (r: Result<MetalKernelSource, CodegenError>)
    requires
        n_inputs < 16,
        crate::codegen::lower::kernels::head_ok(kind),
    ensures
        result_view(r) == layer_source(name@, n_inputs as nat, len, kind, lits_view(lits@)),
{
    let mut inputs: Vec<TensorId> = Vec::new();
    let mut i: u32 = 0;
    while i < n_inputs
        invariant
            i <= n_inputs,
            inputs@ == first_tensors(i as nat),
        decreases n_inputs - i,
    {
        inputs.push(TensorId(i));
        assert(inputs@ =~= first_tensors((i + 1) as nat));
        i += 1;
    }
    let sk = ScheduledKernel { name, inputs, output: TensorId(n_inputs), kind };
    let shape = vector_shape(len);
    assert(shape@ =~= seq![len]);
    let kir = lower_to_kir(&sk, shape, DType::F32, OptSchedule::default())?;
    render_msl(&kir, lits)
}

/// The root-mean-square norm of a vector, scaled by weights.
pub fn render_rmsnorm(
    n: usize,
    eps: Scalar,
    lits: &Vec<Literal>,
) -> (r: Result<MetalKernelSource, CodegenError>)
    ensures
        result_view(r) == layer_source(
            "k_rmsnorm_"@ + dec(n as nat),
            2,
            n,
            (KernelKind::RmsNorm { n, eps, x: TensorId(0), w: TensorId(1) }),
            lits_view(lits@),
        ),
{
    let name = String::from_str("k_rmsnorm_").concat(dec_usize(n).as_str());
    layer_kernel(name, 2, n, KernelKind::RmsNorm { n, eps, x: TensorId(0), w: TensorId(1) }, lits)
}

/// The norm of a vector, added to a residual.
pub fn render_rmsnorm_add(
    n: usize,
    eps: Scalar,
    lits: &Vec<Literal>,
) -> (r: Result<MetalKernelSource, CodegenError>)
    ensures
        result_view(r) == layer_source(
            "k_rms_add_"@ + dec(n as nat),
            3,
            n,
            (
                KernelKind::RmsNormAdd {
                    n,
                    eps,
                    x: TensorId(0),
                    w: TensorId(1),
                    residual: TensorId(2),
                }
            ),
            lits_view(lits@),
        ),
{
    let name = String::from_str("k_rms_add_").concat(dec_usize(n).as_str());
    layer_kernel(
        name,
        3,
        n,
        KernelKind::RmsNormAdd { n, eps, x: TensorId(0), w: TensorId(1), residual: TensorId(2) },
        lits,
    )
}

/// The norm of a vector, added to a residual and scaled.
pub fn render_rmsnorm_add_scale(
    n: usize,
    eps: Scalar,
    scale: Scalar,
    lits: &Vec<Literal>,
) -> (r: Result<MetalKernelSource, CodegenError>)
    ensures
        result_view(r) == layer_source(
            "k_rms_add_sc_"@ + dec(n as nat),
            3,
            n,
            (
                KernelKind::RmsNormAddScale {
                    n,
                    eps,
                    scale,
                    x: TensorId(0),
                    w: TensorId(1),
                    residual: TensorId(2),
                }
            ),
            lits_view(lits@),
        ),
{
    let name = String::from_str("k_rms_add_sc_").concat(dec_usize(n).as_str());
    layer_kernel(
        name,
        3,
        n,
        KernelKind::RmsNormAddScale {
            n,
            eps,
            scale,
            x: TensorId(0),
            w: TensorId(1),
            residual: TensorId(2),
        },
        lits,
    )
}

/// The norm of each head on its own.
pub fn render_rmsnorm_per_head(
    n_heads: usize,
    hd: usize,
    eps: Scalar,
    with_weight: bool,
    lits: &Vec<Literal>,
) -> (r: Result<MetalKernelSource, CodegenError>)
    requires
        n_heads * hd <= usize::MAX,
    ensures
        result_view(r) == layer_source(
            "k_rms_ph_"@ + dec(n_heads as nat) + "_"@ + dec(hd as nat) + "_"@
                + (if with_weight { "1"@ } else { "0"@ }),
            2,
            (n_heads * hd) as usize,
            (
                KernelKind::RmsNormPerHead {
                    n_heads,
                    hd,
                    eps,
                    with_weight,
                    x: TensorId(0),
                    w: TensorId(1),
                }
            ),
            lits_view(lits@),
        ),
{
    let name = String::from_str("k_rms_ph_").concat(dec_usize(n_heads).as_str()).concat("_")
        .concat(dec_usize(hd).as_str()).concat("_").concat(if with_weight { "1" } else { "0" });
    layer_kernel(
        name,
        2,
        n_heads * hd,
        KernelKind::RmsNormPerHead {
            n_heads,
            hd,
            eps,
            with_weight,
            x: TensorId(0),
            w: TensorId(1),
        },
        lits,
    )
}

/// Rotary position embedding of each head.
pub fn render_rope(
    n_heads: usize,
    hd: usize,
    lits: &Vec<Literal>,
) -> (r: Result<MetalKernelSource, CodegenError>)
    requires
        n_heads * hd <= usize::MAX,
    ensures
        result_view(r) == layer_source(
            "k_rope_"@ + dec(n_heads as nat) + "_"@ + dec(hd as nat),
            2,
            (n_heads * hd) as usize,
            (KernelKind::Rope { n_heads, hd, x: TensorId(0), cos_sin: TensorId(1) }),
            lits_view(lits@),
        ),
{
    let name = String::from_str("k_rope_").concat(dec_usize(n_heads).as_str()).concat("_")
        .concat(dec_usize(hd).as_str());
    layer_kernel(
        name,
        2,
        n_heads * hd,
        KernelKind::Rope { n_heads, hd, x: TensorId(0), cos_sin: TensorId(1) },
        lits,
    )
}

/// GELU of a gate times a slice of another vector.
pub fn render_gelu_mul(
    n: usize,
    up_off: usize,
    lits: &Vec<Literal>,
) -> (r: Result<MetalKernelSource, CodegenError>)
    ensures
        result_view(r) == layer_source(
            "k_gelu_mul_"@ + dec(n as nat) + "_"@ + dec(up_off as nat),
            2,
            n,
            (KernelKind::GeluMul { n, up_off, gate: TensorId(0), up: TensorId(1) }),
            lits_view(lits@),
        ),
{
    let name = String::from_str("k_gelu_mul_").concat(dec_usize(n).as_str()).concat("_")
        .concat(dec_usize(up_off).as_str());
    layer_kernel(
        name,
        2,
        n,
        KernelKind::GeluMul { n, up_off, gate: TensorId(0), up: TensorId(1) },
        lits,
    )
}

/// A copy of a slice.
pub fn render_copy_slice(
    src_off: usize,
    dst_off: usize,
    n: usize,
    lits: &Vec<Literal>,
) -> (r: Result<MetalKernelSource, CodegenError>)
    ensures
        result_view(r) == layer_source(
            "k_copy_slice_"@ + dec(n as nat) + "_"@ + dec(src_off as nat) + "_"@
                + dec(dst_off as nat),
            1,
            n,
            (KernelKind::CopySlice { src_off, dst_off, n, src: TensorId(0) }),
            lits_view(lits@),
        ),
{
    let name = String::from_str("k_copy_slice_").concat(dec_usize(n).as_str()).concat("_")
        .concat(dec_usize(src_off).as_str()).concat("_").concat(dec_usize(dst_off).as_str());
    layer_kernel(name, 1, n, KernelKind::CopySlice { src_off, dst_off, n, src: TensorId(0) }, lits)
}

/// The place of the greatest soft-capped element.
pub fn render_softcap_argmax(
    n: usize,
    cap: Scalar,
    lits: &Vec<Literal>,
) -> (r: Result<MetalKernelSource, CodegenError>)
    ensures
        result_view(r) == layer_source(
            "k_sca_"@ + dec(n as nat),
            1,
            1usize,
            (KernelKind::SoftcapArgmax { n, cap, x: TensorId(0) }),
            lits_view(lits@),
        ),
{
    let name = String::from_str("k_sca_").concat(dec_usize(n).as_str());
    layer_kernel(name, 1, 1usize, KernelKind::SoftcapArgmax { n, cap, x: TensorId(0) }, lits)
}

} // verus!
