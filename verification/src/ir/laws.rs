//! What every way of building a graph keeps.

use vstd::prelude::*;

use crate::ir::dtype::{
    DType, IrError, Scalar, TensorId, GELU_CUBIC, HALF, ONE, SQRT_2_OVER_PI,
};
use crate::ir::graph::{reads_below, GraphV, OpV, Step};
use crate::ir::kernel::FuseHint;

verus! {

/// One operation on a graph under construction.
pub ghost enum Build {
    Input { shape: Seq<usize>, dtype: DType },
    Const { value: Scalar, shape: Seq<usize>, dtype: DType },
    Call { inputs: Seq<TensorId>, shape: Seq<usize>, dtype: DType, hint: FuseHint },
    Add { a: TensorId, b: TensorId },
    Mul { a: TensorId, b: TensorId },
    Scale { x: TensorId, scale: Scalar },
    Rsqrt { x: TensorId },
    Tanh { x: TensorId },
    Exp { x: TensorId },
    Broadcast { left: TensorId, row: TensorId },
    Sum { inp: TensorId, axis: usize },
    Max { inp: TensorId, axis: usize },
    Matvec { w: TensorId, x: TensorId },
    Expand { inp: TensorId, shape: Seq<usize> },
    Reshape { inp: TensorId, shape: Seq<usize> },
    Permute { inp: TensorId, axes: Seq<usize> },
    CopySlice { src: TensorId, src_off: usize, dst_off: usize, n: usize },
    Softcap { x: TensorId, bits: u32 },
    Gelu { x: TensorId },
    RmsNorm { x: TensorId, w: TensorId, eps: Scalar },
    RmsNormAdd { x: TensorId, w: TensorId, residual: TensorId, eps: Scalar },
    RmsNormAddScale {
        x: TensorId,
        w: TensorId,
        residual: TensorId,
        eps: Scalar,
        scale: Scalar,
    },
    PerHead {
        x: TensorId,
        n_heads: usize,
        hd: usize,
        inputs: Seq<TensorId>,
        hint: FuseHint,
    },
    CopyScale { src: TensorId, src_off: usize, dst_off: usize, n: usize, scale: Scalar },
    Sdpa {
        q: TensorId,
        k: TensorId,
        v: TensorId,
        meta: TensorId,
        n_q: usize,
        hd: usize,
        max_t: usize,
    },
    GeluMul { gate: TensorId, up: TensorId, up_off: usize },
    GateUp { gate: TensorId, up: TensorId, x: TensorId },
    Qkv { wq: TensorId, wk: TensorId, wv: TensorId, x: TensorId },
    RmsNormMatvec { w_mat: TensorId, x: TensorId, w_norm: TensorId, eps: Scalar },
    RmsNormGateUp {
        gate: TensorId,
        up: TensorId,
        x: TensorId,
        w_norm: TensorId,
        eps: Scalar,
    },
    RmsNormQkv {
        wq: TensorId,
        wk: TensorId,
        wv: TensorId,
        x: TensorId,
        w_norm: TensorId,
        eps: Scalar,
    },
    SoftcapArgmax { x: TensorId, cap: Scalar },
}

/// What an operation makes of a graph.
pub open spec fn built(g: GraphV, b: Build) -> Step {
    match b {
        Build::Input { shape, dtype } => g.made(OpV::Input { shape, dtype }, shape, dtype),
        Build::Const { value, shape, dtype } => g.made(
            OpV::Const { value, shape, dtype },
            shape,
            dtype,
        ),
        Build::Call { inputs, shape, dtype, hint } => g.called(inputs, shape, dtype, hint),
        Build::Add { a, b } => g.add_step(a, b),
        Build::Mul { a, b } => g.mul_step(a, b),
        Build::Scale { x, scale } => g.scale_step(x, scale),
        Build::Rsqrt { x } => g.map_step(x, OpV::Rsqrt { x }),
        Build::Tanh { x } => g.map_step(x, OpV::Tanh { x }),
        Build::Exp { x } => g.map_step(x, OpV::Exp { x }),
        Build::Broadcast { left, row } => g.broadcast_step(left, row),
        Build::Sum { inp, axis } => g.sum_step(inp, axis),
        Build::Max { inp, axis } => g.max_step(inp, axis),
        Build::Matvec { w, x } => g.matvec_step(w, x),
        Build::Expand { inp, shape } => g.expand_step(inp, shape),
        Build::Reshape { inp, shape } => g.reshape_step(inp, shape),
        Build::Permute { inp, axes } => g.permute_step(inp, axes),
        Build::CopySlice { src, src_off, dst_off, n } => g.copy_slice_step(
            src,
            src_off,
            dst_off,
            n,
        ),
        Build::Softcap { x, bits } => g.softcap_step(x, bits),
        Build::Gelu { x } => g.gelu_step(x),
        Build::RmsNorm { x, w, eps } => g.rmsnorm_step(x, w, eps),
        Build::RmsNormAdd { x, w, residual, eps } => g.rmsnorm_add_step(x, w, residual, eps),
        Build::RmsNormAddScale { x, w, residual, eps, scale } => g.rmsnorm_add_scale_step(
            x,
            w,
            residual,
            eps,
            scale,
        ),
        Build::PerHead { x, n_heads, hd, inputs, hint } => g.per_head_step(
            x,
            n_heads,
            hd,
            inputs,
            hint,
        ),
        Build::CopyScale { src, src_off, dst_off, n, scale } => g.copy_scale_step(
            src,
            src_off,
            dst_off,
            n,
            scale,
        ),
        Build::Sdpa { q, k, v, meta, n_q, hd, max_t } => g.sdpa_step(q, k, v, meta, n_q, hd, max_t),
        Build::GeluMul { gate, up, up_off } => g.gelu_mul_step(gate, up, up_off),
        Build::GateUp { gate, up, x } => g.gate_up_step(gate, up, x),
        Build::Qkv { wq, wk, wv, x } => g.qkv_step(wq, wk, wv, x),
        Build::RmsNormMatvec { w_mat, x, w_norm, eps } => g.rmsnorm_matvec_step(
            w_mat,
            x,
            w_norm,
            eps,
        ),
        Build::RmsNormGateUp { gate, up, x, w_norm, eps } => g.rmsnorm_gate_up_step(
            gate,
            up,
            x,
            w_norm,
            eps,
        ),
        Build::RmsNormQkv { wq, wk, wv, x, w_norm, eps } => g.rmsnorm_qkv_step(
            wq,
            wk,
            wv,
            x,
            w_norm,
            eps,
        ),
        Build::SoftcapArgmax { x, cap } => g.softcap_argmax_step(x, cap),
    }
}

/// Whether `h` is `g` with nodes behind it, still ordered, and the returned node is one of them.
pub open spec fn grows(g: GraphV, s: Step) -> bool {
    &&& s.0.ordered()
    &&& g.nodes.len() <= s.0.nodes.len()
    &&& s.0.nodes.take(g.nodes.len() as int) == g.nodes
    &&& s.1 matches Ok(id) ==> s.0.has(id) && id.0 >= g.nodes.len()
}

proof fn lemma_made(g: GraphV, op: OpV, shape: Seq<usize>, dtype: DType)
    requires
        g.ordered(),
        g.room(1),
        reads_below(op, g.nodes.len() as int),
    ensures
        grows(g, g.made(op, shape, dtype)),
        g.made(op, shape, dtype).0.nodes.len() == g.nodes.len() + 1,
{
    let h = g.with(op, shape, dtype);
    assert forall|i: int| 0 <= i < h.nodes.len() implies reads_below(
        (#[trigger] h.nodes[i]).op,
        i,
    ) by {
        if i < g.nodes.len() {
            assert(h.nodes[i] == g.nodes[i]);
        }
    }
    assert(h.nodes.take(g.nodes.len() as int) =~= g.nodes);
}

proof fn lemma_refused(g: GraphV, e: IrError)
    requires
        g.ordered(),
    ensures
        grows(g, g.refused(e)),
{
    assert(g.nodes.take(g.nodes.len() as int) =~= g.nodes);
}

proof fn lemma_hinted(g: GraphV, h: GraphV, id: TensorId, at: TensorId, hint: FuseHint)
    requires
        grows(g, (h, Ok(id))),
    ensures
        grows(g, (h.hinted(at, hint), Ok(id))),
{
    assert forall|i: int| 0 <= i < h.nodes.len() implies reads_below(
        (#[trigger] h.hinted(at, hint).nodes[i]).op,
        i,
    ) by {
        assert(h.nodes[i] == h.hinted(at, hint).nodes[i]);
    }
}

proof fn lemma_chain(g: GraphV, h: GraphV, s: Step)
    requires
        h.nodes.len() >= g.nodes.len(),
        h.nodes.take(g.nodes.len() as int) == g.nodes,
        grows(h, s),
    ensures
        grows(g, s),
{
    assert(s.0.nodes.take(g.nodes.len() as int) =~= h.nodes.take(g.nodes.len() as int)) by {
        assert forall|i: int| 0 <= i < g.nodes.len() implies s.0.nodes[i] == h.nodes[i] by {
            assert(s.0.nodes.take(h.nodes.len() as int)[i] == s.0.nodes[i]);
        }
    }
}

/// Whether `h` is `g` with nodes behind it, still ordered.
pub open spec fn grown(g: GraphV, h: GraphV) -> bool {
    grows(g, (h, Err(IrError::BadAxis)))
}

proof fn lemma_with(g: GraphV, h: GraphV, op: OpV, shape: Seq<usize>, dtype: DType)
    requires
        grown(g, h),
        h.room(1),
        reads_below(op, h.nodes.len() as int),
    ensures
        grown(g, h.with(op, shape, dtype)),
        h.with(op, shape, dtype).nodes.len() == h.nodes.len() + 1,
{
    lemma_made(h, op, shape, dtype);
    lemma_chain(g, h, h.made(op, shape, dtype));
}

proof fn lemma_gelu(g: GraphV, x: TensorId)
    requires
        g.ordered(),
        g.room(10),
    ensures
        grows(g, g.gelu_step(x)),
        g.has(x) ==> g.gelu_step(x).0.nodes.len() == g.nodes.len() + 10,
{
    if !g.has(x) {
        lemma_refused(g, IrError::BadTensorId);
    } else {
        lemma_refused(g, IrError::BadAxis);
        let n = g.nodes.len();
        let s = g.shape(x);
        let d = g.dtype(x);
        let t = |k: int| TensorId((n + k) as u32);
        lemma_with(g, g, OpV::Mul { a: x, b: x }, s, d);
        let g1 = g.with(OpV::Mul { a: x, b: x }, s, d);
        lemma_with(g, g1, OpV::Mul { a: t(0), b: x }, s, d);
        let g2 = g1.with(OpV::Mul { a: t(0), b: x }, s, d);
        let o3 = OpV::ScaleConst { x: t(1), scale: Scalar::Bits(GELU_CUBIC) };
        lemma_with(g, g2, o3, s, d);
        let g3 = g2.with(o3, s, d);
        let o4 = OpV::Add { a: x, b: t(2) };
        lemma_with(g, g3, o4, s, d);
        let g4 = g3.with(o4, s, d);
        let o5 = OpV::ScaleConst { x: t(3), scale: Scalar::Bits(SQRT_2_OVER_PI) };
        lemma_with(g, g4, o5, s, d);
        let g5 = g4.with(o5, s, d);
        let o6 = OpV::Tanh { x: t(4) };
        lemma_with(g, g5, o6, s, d);
        let g6 = g5.with(o6, s, d);
        let o7 = OpV::Const { value: Scalar::Bits(ONE), shape: s, dtype: d };
        lemma_with(g, g6, o7, s, d);
        let g7 = g6.with(o7, s, d);
        let o8 = OpV::Add { a: t(6), b: t(5) };
        lemma_with(g, g7, o8, s, d);
        let g8 = g7.with(o8, s, d);
        let o9 = OpV::ScaleConst { x, scale: Scalar::Bits(HALF) };
        lemma_with(g, g8, o9, s, d);
        let g9 = g8.with(o9, s, d);
        lemma_with(g, g9, OpV::Mul { a: t(8), b: t(7) }, s, d);
    }
}

proof fn lemma_rmsnorm(g: GraphV, x: TensorId, w: TensorId, eps: Scalar)
    requires
        g.ordered(),
        g.room(9),
    ensures
        grows(g, g.rmsnorm_step(x, w, eps)),
        g.rmsnorm_step(x, w, eps).0.nodes.len() <= g.nodes.len() + 9,
{
    match g.rmsnorm_refusal(x, w) {
        Some(e) => {
            lemma_refused(g, e);
        },
        None => {
            lemma_refused(g, IrError::BadAxis);
            let m = g.nodes.len();
            let s = g.shape(x);
            let d = g.dtype(x);
            let one = seq![1usize];
            let t = |k: int| TensorId((m + k) as u32);
            lemma_with(g, g, OpV::Mul { a: x, b: x }, s, d);
            let g1 = g.with(OpV::Mul { a: x, b: x }, s, d);
            let o2 = OpV::SumReduce { inp: t(0), axis: 0 };
            lemma_with(g, g1, o2, one, d);
            let g2 = g1.with(o2, one, d);
            let o3 = OpV::ScaleConst { x: t(1), scale: Scalar::RecipInt(s[0] as u64) };
            lemma_with(g, g2, o3, one, d);
            let g3 = g2.with(o3, one, d);
            let o4 = OpV::Const { value: eps, shape: one, dtype: d };
            lemma_with(g, g3, o4, one, d);
            let g4 = g3.with(o4, one, d);
            let o5 = OpV::Add { a: t(2), b: t(3) };
            lemma_with(g, g4, o5, one, d);
            let g5 = g4.with(o5, one, d);
            let o6 = OpV::Rsqrt { x: t(4) };
            lemma_with(g, g5, o6, one, d);
            let g6 = g5.with(o6, one, d);
            let o7 = OpV::Expand { inp: t(5), shape: s };
            lemma_with(g, g6, o7, s, d);
            let g7 = g6.with(o7, s, d);
            let o8 = OpV::Mul { a: x, b: t(6) };
            lemma_with(g, g7, o8, s, d);
            let g8 = g7.with(o8, s, d);
            let o9 = OpV::Mul { a: t(7), b: w };
            lemma_with(g, g8, o9, s, d);
            let g9 = g8.with(o9, s, d);
            lemma_hinted(g, g9, t(8), t(8), FuseHint::RmsNorm { n: s[0], eps, x, w });
        },
    }
}

proof fn lemma_called(
    g: GraphV,
    inputs: Seq<TensorId>,
    shape: Seq<usize>,
    dtype: DType,
    hint: FuseHint,
)
    requires
        g.ordered(),
        g.room(1),
    ensures
        grows(g, g.called(inputs, shape, dtype, hint)),
{
    lemma_made(g, OpV::Call { inputs }, shape, dtype);
    let id = TensorId(g.nodes.len() as u32);
    lemma_hinted(g, g.with(OpV::Call { inputs }, shape, dtype), id, id, hint);
}

proof fn lemma_add(g: GraphV, a: TensorId, b: TensorId)
    requires
        g.ordered(),
        g.room(1),
    ensures
        grows(g, g.add_step(a, b)),
        g.add_step(a, b).0.nodes.len() <= g.nodes.len() + 1,
{
    lemma_refused(g, IrError::BadTensorId);
    lemma_refused(g, IrError::ShapeMismatch);
    if g.has(a) && g.has(b) {
        lemma_made(g, OpV::Add { a, b }, g.shape(a), g.dtype(a));
    }
}

proof fn lemma_mul(g: GraphV, a: TensorId, b: TensorId)
    requires
        g.ordered(),
        g.room(1),
    ensures
        grows(g, g.mul_step(a, b)),
{
    lemma_refused(g, IrError::BadTensorId);
    lemma_refused(g, IrError::ShapeMismatch);
    if g.has(a) && g.has(b) {
        lemma_made(g, OpV::Mul { a, b }, g.shape(a), g.dtype(a));
    }
}

proof fn lemma_map(g: GraphV, x: TensorId, op: OpV)
    requires
        g.ordered(),
        g.room(1),
        g.has(x) ==> reads_below(op, g.nodes.len() as int),
    ensures
        grows(g, g.map_step(x, op)),
        g.map_step(x, op).0.nodes.len() <= g.nodes.len() + 1,
        g.has(x) ==> g.map_step(x, op).0.nodes.len() == g.nodes.len() + 1,
{
    lemma_refused(g, IrError::BadTensorId);
    if g.has(x) {
        lemma_made(g, op, g.shape(x), g.dtype(x));
    }
}

proof fn lemma_reduce(g: GraphV, inp: TensorId, axis: usize, op: OpV)
    requires
        g.ordered(),
        g.room(1),
        g.has(inp) ==> reads_below(op, g.nodes.len() as int),
    ensures
        grows(g, g.reduce_step(inp, axis, op)),
{
    lemma_refused(g, IrError::BadTensorId);
    lemma_refused(g, IrError::BadAxis);
    if g.has(inp) {
        lemma_made(
            g,
            op,
            crate::ir::graph::reduced(g.shape(inp), axis as int),
            g.dtype(inp),
        );
    }
}

proof fn lemma_broadcast(g: GraphV, left: TensorId, row: TensorId)
    requires
        g.ordered(),
        g.room(1),
    ensures
        grows(g, g.broadcast_step(left, row)),
        g.broadcast_step(left, row).0.nodes.len() <= g.nodes.len() + 1,
{
    lemma_refused(g, IrError::BadTensorId);
    lemma_refused(g, IrError::ShapeMismatch);
    if g.has(left) && g.has(row) {
        lemma_made(g, OpV::MulBroadcastRow { left, row }, g.shape(left), g.dtype(row));
    }
}

proof fn lemma_copy_slice(g: GraphV, src: TensorId, src_off: usize, dst_off: usize, n: usize)
    requires
        g.ordered(),
        g.room(1),
    ensures
        grows(g, g.copy_slice_step(src, src_off, dst_off, n)),
        g.has(src) ==> g.copy_slice_step(src, src_off, dst_off, n).0.nodes.len() == g.nodes.len()
            + 1,
{
    lemma_refused(g, IrError::BadTensorId);
    if g.has(src) {
        lemma_made(g, OpV::CopySlice { src, src_off, dst_off, n }, seq![n], g.dtype(src));
    }
}

proof fn lemma_rmsnorm_add(g: GraphV, x: TensorId, w: TensorId, residual: TensorId, eps: Scalar)
    requires
        g.ordered(),
        g.room(10),
    ensures
        grows(g, g.rmsnorm_add_step(x, w, residual, eps)),
        g.rmsnorm_add_step(x, w, residual, eps).0.nodes.len() <= g.nodes.len() + 10,
{
    lemma_rmsnorm(g, x, w, eps);
    let (g1, r1) = g.rmsnorm_step(x, w, eps);
    if let Ok(yn) = r1 {
        lemma_add(g1, yn, residual);
        let s = g1.add_step(yn, residual);
        lemma_chain(g, g1, s);
        if let Ok(out) = s.1 {
            lemma_hinted(
                g,
                s.0,
                out,
                out,
                FuseHint::RmsNormAdd { n: g.shape(x)[0], eps, x, w, residual },
            );
        }
    }
}

proof fn lemma_gelu_mul(g: GraphV, gate: TensorId, up: TensorId, up_off: usize)
    requires
        g.ordered(),
        g.room(12),
    ensures
        grows(g, g.gelu_mul_step(gate, up, up_off)),
{
    lemma_refused(g, IrError::BadTensorId);
    lemma_refused(g, IrError::ShapeMismatch);
    if g.has(gate) && g.has(up) {
        let n = g.shape(gate)[0];
        lemma_gelu(g, gate);
        let g1 = g.gelu_step(gate).0;
        assert(g1.nodes.take(g.nodes.len() as int)[up.0 as int] == g1.nodes[up.0 as int]);
        assert(g1.nodes.take(g.nodes.len() as int)[gate.0 as int] == g1.nodes[gate.0 as int]);
        lemma_copy_slice(g1, up, up_off, 0, n);
        let s2 = g1.copy_slice_step(up, up_off, 0, n);
        lemma_chain(g, g1, s2);
        let g2 = s2.0;
        let a = TensorId((g1.nodes.len() - 1) as u32);
        let b = TensorId(g1.nodes.len() as u32);
        lemma_mul(g2, a, b);
        let s3 = g2.mul_step(a, b);
        lemma_chain(g, g2, s3);
        assert(g2.nodes.take(g1.nodes.len() as int)[a.0 as int] == g2.nodes[a.0 as int]);
        let sg = g.shape(gate);
        if sg.len() == 1 && g.dtype(up) == g.dtype(gate) {
            assert(sg =~= seq![n]);
            assert(g2.shape(a) == sg && g2.dtype(a) == g.dtype(gate));
            assert(g2.shape(b) == seq![n] && g2.dtype(b) == g.dtype(up));
            let out = TensorId(g2.nodes.len() as u32);
            lemma_hinted(g, s3.0, out, out, FuseHint::GeluMul { n, up_off, gate, up });
        }
    }
}

/// Every operation on a graph leaves the nodes there as they are, adds nodes that read only
/// earlier ones, and returns one that it added, if it does not refuse.
pub proof fn lemma_build_grows(g: GraphV, b: Build)
    requires
        g.ordered(),
        g.room(16),
    ensures
        grows(g, built(g, b)),
{
    lemma_refused(g, IrError::BadTensorId);
    lemma_refused(g, IrError::ShapeMismatch);
    lemma_refused(g, IrError::BadAxis);
    match b {
        Build::Input { shape, dtype } => {
            lemma_made(g, OpV::Input { shape, dtype }, shape, dtype);
        },
        Build::Const { value, shape, dtype } => {
            lemma_made(g, OpV::Const { value, shape, dtype }, shape, dtype);
        },
        Build::Call { inputs, shape, dtype, hint } => {
            lemma_called(g, inputs, shape, dtype, hint);
        },
        Build::Add { a, b } => {
            lemma_add(g, a, b);
        },
        Build::Mul { a, b } => {
            lemma_mul(g, a, b);
        },
        Build::Scale { x, scale } => {
            lemma_map(g, x, OpV::ScaleConst { x, scale });
        },
        Build::Rsqrt { x } => {
            lemma_map(g, x, OpV::Rsqrt { x });
        },
        Build::Tanh { x } => {
            lemma_map(g, x, OpV::Tanh { x });
        },
        Build::Exp { x } => {
            lemma_map(g, x, OpV::Exp { x });
        },
        Build::Broadcast { left, row } => {
            lemma_broadcast(g, left, row);
        },
        Build::Sum { inp, axis } => {
            lemma_reduce(g, inp, axis, OpV::SumReduce { inp, axis });
        },
        Build::Max { inp, axis } => {
            lemma_reduce(g, inp, axis, OpV::MaxReduce { inp, axis });
        },
        Build::Matvec { w, x } => {
            lemma_broadcast(g, w, x);
            let s = g.broadcast_step(w, x);
            if let Ok(m) = s.1 {
                lemma_reduce(s.0, m, 1, OpV::SumReduce { inp: m, axis: 1 });
                lemma_chain(g, s.0, s.0.sum_step(m, 1));
            }
        },
        Build::Expand { inp, shape } => {
            if g.has(inp) {
                lemma_made(g, OpV::Expand { inp, shape }, shape, g.dtype(inp));
            }
        },
        Build::Reshape { inp, shape } => {
            if g.has(inp) {
                lemma_made(g, OpV::Reshape { inp, shape }, shape, g.dtype(inp));
            }
        },
        Build::Permute { inp, axes } => {
            if g.has(inp) {
                let s = g.shape(inp);
                lemma_made(
                    g,
                    OpV::Permute { inp, axes },
                    axes.map_values(|a: usize| s[a as int]),
                    g.dtype(inp),
                );
            }
        },
        Build::CopySlice { src, src_off, dst_off, n } => {
            lemma_copy_slice(g, src, src_off, dst_off, n);
        },
        Build::Softcap { x, bits } => {
            lemma_softcap(g, x, bits);
        },
        Build::Gelu { x } => {
            lemma_gelu(g, x);
        },
        Build::RmsNorm { x, w, eps } => {
            lemma_rmsnorm(g, x, w, eps);
        },
        Build::RmsNormAdd { x, w, residual, eps } => {
            lemma_rmsnorm_add(g, x, w, residual, eps);
        },
        Build::RmsNormAddScale { x, w, residual, eps, scale } => {
            lemma_rmsnorm_add(g, x, w, residual, eps);
            let s = g.rmsnorm_add_step(x, w, residual, eps);
            if let Ok(added) = s.1 {
                lemma_map(s.0, added, OpV::ScaleConst { x: added, scale });
                let s2 = s.0.scale_step(added, scale);
                lemma_chain(g, s.0, s2);
                if let Ok(out) = s2.1 {
                    lemma_hinted(
                        g,
                        s2.0,
                        out,
                        out,
                        FuseHint::RmsNormAddScale {
                            n: g.shape(x)[0],
                            eps,
                            scale,
                            x,
                            w,
                            residual,
                        },
                    );
                }
            }
        },
        Build::GeluMul { gate, up, up_off } => {
            lemma_gelu_mul(g, gate, up, up_off);
        },
        _ => {
            lemma_call_grows(g, b);
        },
    }
}

proof fn lemma_softcap(g: GraphV, x: TensorId, cap: u32)
    requires
        g.ordered(),
        g.room(3),
    ensures
        grows(g, g.softcap_step(x, cap)),
{
    lemma_refused(g, IrError::BadTensorId);
    if g.has(x) {
        let scale = Scalar::RecipBits(cap);
        lemma_map(g, x, OpV::ScaleConst { x, scale });
        let s1 = g.scale_step(x, scale);
        let t = TensorId(g.nodes.len() as u32);
        lemma_map(s1.0, t, OpV::Tanh { x: t });
        let s2 = s1.0.map_step(t, OpV::Tanh { x: t });
        lemma_chain(g, s1.0, s2);
        let u = TensorId(s1.0.nodes.len() as u32);
        lemma_map(s2.0, u, OpV::ScaleConst { x: u, scale: Scalar::Bits(cap) });
        lemma_chain(g, s2.0, s2.0.scale_step(u, Scalar::Bits(cap)));
    }
}

/// A step that refuses or adds one kernel.
proof fn lemma_call_grows(g: GraphV, b: Build)
    requires
        g.ordered(),
        g.room(1),
        b is PerHead || b is CopyScale || b is Sdpa || b is GateUp || b is Qkv || b is RmsNormMatvec
            || b is RmsNormGateUp || b is RmsNormQkv || b is SoftcapArgmax,
    ensures
        grows(g, built(g, b)),
{
    lemma_refused(g, IrError::BadTensorId);
    lemma_refused(g, IrError::ShapeMismatch);
    assert forall|i: Seq<TensorId>, s: Seq<usize>, d: DType, h: FuseHint| grows(
        g,
        #[trigger] g.called(i, s, d, h),
    ) by {
        lemma_called(g, i, s, d, h);
    }
    assert forall|w: DType, a: DType, c: usize|
        (#[trigger] crate::ir::graph::matvec_out(w, a, c)) matches Err(e) ==> e
            == IrError::ShapeMismatch by {}
    assert forall|d: DType| (#[trigger] crate::ir::graph::copy_out(d)) matches Err(e) ==> e
        == IrError::ShapeMismatch by {}
}

} // verus!
