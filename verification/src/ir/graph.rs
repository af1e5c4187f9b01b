//! The graph of primitive operations, and the sugar that expands into it.

use std::collections::HashMap;
use vstd::prelude::*;
use vstd::std_specs::hash::*;

use crate::ir::dtype::{
    product, product_fits, vector_shape, DType, IrError, Scalar, Shape, TensorId, GELU_CUBIC, HALF,
    ONE, SQRT_2_OVER_PI,
};
use crate::ir::kernel::FuseHint;

verus! {

broadcast use group_hash_axioms;

/// A primitive operation. A `Call` stands for one kernel whose algorithm is in its [`FuseHint`].
#[derive(Clone, Debug)]
pub enum Op {
    Input { shape: Shape, dtype: DType },
    Const { value: Scalar, shape: Shape, dtype: DType },
    Add { a: TensorId, b: TensorId },
    Mul { a: TensorId, b: TensorId },
    ScaleConst { x: TensorId, scale: Scalar },
    Rsqrt { x: TensorId },
    Tanh { x: TensorId },
    Exp { x: TensorId },
    SumReduce { inp: TensorId, axis: usize },
    MaxReduce { inp: TensorId, axis: usize },
    Expand { inp: TensorId, shape: Shape },
    Reshape { inp: TensorId, shape: Shape },
    Permute { inp: TensorId, axes: Vec<usize> },
    MulBroadcastRow { left: TensorId, row: TensorId },
    CopySlice { src: TensorId, src_off: usize, dst_off: usize, n: usize },
    Call { inputs: Vec<TensorId> },
}

/// An operation with the shape and element type of its result.
#[derive(Clone, Debug)]
pub struct Node {
    pub op: Op,
    pub shape: Shape,
    pub dtype: DType,
}

/// Operations in the order in which they were added, and fusion hints by output.
#[derive(Debug)]
pub struct Graph {
    pub nodes: Vec<Node>,
    pub fuse_hints: HashMap<u32, FuseHint>,
}

/// An operation as a mathematical value.
pub ghost enum OpV {
    Input { shape: Seq<usize>, dtype: DType },
    Const { value: Scalar, shape: Seq<usize>, dtype: DType },
    Add { a: TensorId, b: TensorId },
    Mul { a: TensorId, b: TensorId },
    ScaleConst { x: TensorId, scale: Scalar },
    Rsqrt { x: TensorId },
    Tanh { x: TensorId },
    Exp { x: TensorId },
    SumReduce { inp: TensorId, axis: usize },
    MaxReduce { inp: TensorId, axis: usize },
    Expand { inp: TensorId, shape: Seq<usize> },
    Reshape { inp: TensorId, shape: Seq<usize> },
    Permute { inp: TensorId, axes: Seq<usize> },
    MulBroadcastRow { left: TensorId, row: TensorId },
    CopySlice { src: TensorId, src_off: usize, dst_off: usize, n: usize },
    Call { inputs: Seq<TensorId> },
}

/// A node as a mathematical value.
pub ghost struct NodeV {
    pub op: OpV,
    pub shape: Seq<usize>,
    pub dtype: DType,
}

/// A graph as a mathematical value.
#[verifier::ext_equal]
pub ghost struct GraphV {
    pub nodes: Seq<NodeV>,
    pub hints: Map<u32, FuseHint>,
}

/// The graph after an operation, and what the operation returned.
pub type Step = (GraphV, Result<TensorId, IrError>);

impl View for Op {
    type V = OpV;

    open spec fn view(&self) -> OpV {
        match *self {
            Op::Input { shape, dtype } => OpV::Input { shape: shape@, dtype },
            Op::Const { value, shape, dtype } => OpV::Const { value, shape: shape@, dtype },
            Op::Add { a, b } => OpV::Add { a, b },
            Op::Mul { a, b } => OpV::Mul { a, b },
            Op::ScaleConst { x, scale } => OpV::ScaleConst { x, scale },
            Op::Rsqrt { x } => OpV::Rsqrt { x },
            Op::Tanh { x } => OpV::Tanh { x },
            Op::Exp { x } => OpV::Exp { x },
            Op::SumReduce { inp, axis } => OpV::SumReduce { inp, axis },
            Op::MaxReduce { inp, axis } => OpV::MaxReduce { inp, axis },
            Op::Expand { inp, shape } => OpV::Expand { inp, shape: shape@ },
            Op::Reshape { inp, shape } => OpV::Reshape { inp, shape: shape@ },
            Op::Permute { inp, axes } => OpV::Permute { inp, axes: axes@ },
            Op::MulBroadcastRow { left, row } => OpV::MulBroadcastRow { left, row },
            Op::CopySlice { src, src_off, dst_off, n } => OpV::CopySlice {
                src,
                src_off,
                dst_off,
                n,
            },
            Op::Call { inputs } => OpV::Call { inputs: inputs@ },
        }
    }
}

impl View for Node {
    type V = NodeV;

    open spec fn view(&self) -> NodeV {
        NodeV { op: self.op@, shape: self.shape@, dtype: self.dtype }
    }
}

impl View for Graph {
    type V = GraphV;

    open spec fn view(&self) -> GraphV {
        GraphV { nodes: self.nodes@.map_values(|n: Node| n@), hints: self.fuse_hints@ }
    }
}

/// The element type of a matrix-vector product: that of the activations, which the
/// weights share or, packed as Q4_K or Q6_K in whole blocks, meet as half precision.
pub open spec fn matvec_out(weight: DType, act: DType, cols: usize) -> Result<DType, IrError> {
    if weight.is_float() && act == weight {
        Ok(weight)
    } else if (weight == DType::Q4K || weight == DType::Q6K) && act == DType::F16 && cols % 256
        == 0 {
        Ok(DType::F16)
    } else {
        Err(IrError::ShapeMismatch)
    }
}

/// The element type of a scaled copy: packed weights are expanded to half precision.
pub open spec fn copy_out(src: DType) -> Result<DType, IrError> {
    match src {
        DType::F32 | DType::F16 => Ok(src),
        DType::Q4K | DType::Q5K | DType::Q6K => Ok(DType::F16),
        _ => Err(IrError::ShapeMismatch),
    }
}

/// Whether keys and values of this element type go with queries of that one: the same, or packed
/// Q4_0 with half precision.
#[verifier::allow_in_spec]
pub fn kv_goes_with(kv: DType, q: DType) -> bool
    returns
        kv == q || (kv == DType::Q40 && q == DType::F16),
{
    kv == q || (kv == DType::Q40 && q == DType::F16)
}

/// `s` without the axis `axis`; a scalar is a vector of one.
pub open spec fn reduced(s: Seq<usize>, axis: int) -> Seq<usize> {
    if s.len() == 1 {
        seq![1usize]
    } else {
        s.remove(axis)
    }
}

/// Whether `axes` names each axis of a tensor of rank `rank` once.
pub open spec fn is_permutation(axes: Seq<usize>, rank: nat) -> bool {
    &&& axes.len() == rank
    &&& forall|i: int| 0 <= i < axes.len() ==> #[trigger] axes[i] < rank
    &&& forall|i: int, j: int| 0 <= i < j < axes.len() ==> axes[i] != axes[j]
}

/// Whether an operation reads only nodes before `n`. Kernel calls are left out: what they
/// read is given by their hints.
pub open spec fn reads_below(op: OpV, n: int) -> bool {
    match op {
        OpV::Input { .. } | OpV::Const { .. } | OpV::Call { .. } => true,
        OpV::Add { a, b } | OpV::Mul { a, b } => a.0 < n && b.0 < n,
        OpV::ScaleConst { x, .. } | OpV::Rsqrt { x } | OpV::Tanh { x } | OpV::Exp { x } => x.0 < n,
        OpV::SumReduce { inp, .. } | OpV::MaxReduce { inp, .. } => inp.0 < n,
        OpV::Expand { inp, .. } | OpV::Reshape { inp, .. } | OpV::Permute { inp, .. } => inp.0 < n,
        OpV::MulBroadcastRow { left, row } => left.0 < n && row.0 < n,
        OpV::CopySlice { src, .. } => src.0 < n,
    }
}

impl GraphV {
    pub open spec fn has(self, id: TensorId) -> bool {
        id.0 < self.nodes.len()
    }

    pub open spec fn at(self, id: TensorId) -> NodeV {
        self.nodes[id.0 as int]
    }

    pub open spec fn shape(self, id: TensorId) -> Seq<usize> {
        self.at(id).shape
    }

    pub open spec fn dtype(self, id: TensorId) -> DType {
        self.at(id).dtype
    }

    /// Whether every operation reads only nodes that were added before it.
    pub open spec fn ordered(self) -> bool {
        forall|i: int| 0 <= i < self.nodes.len() ==> reads_below((#[trigger] self.nodes[i]).op, i)
    }

    /// Whether `k` more nodes still get an index of their own.
    pub open spec fn room(self, k: nat) -> bool {
        self.nodes.len() + k <= u32::MAX
    }

    /// The graph with one more node.
    pub open spec fn with(self, op: OpV, shape: Seq<usize>, dtype: DType) -> GraphV {
        GraphV { nodes: self.nodes.push(NodeV { op, shape, dtype }), hints: self.hints }
    }

    /// The graph with `hint` for the node `id`.
    pub open spec fn hinted(self, id: TensorId, hint: FuseHint) -> GraphV {
        GraphV { nodes: self.nodes, hints: self.hints.insert(id.0, hint) }
    }

    /// One more node, whose index is returned.
    pub open spec fn made(self, op: OpV, shape: Seq<usize>, dtype: DType) -> Step {
        (self.with(op, shape, dtype), Ok(TensorId(self.nodes.len() as u32)))
    }

    /// One more node that stands for a kernel over `inputs`.
    pub open spec fn called(
        self,
        inputs: Seq<TensorId>,
        shape: Seq<usize>,
        dtype: DType,
        hint: FuseHint,
    ) -> Step {
        let id = TensorId(self.nodes.len() as u32);
        (self.with(OpV::Call { inputs }, shape, dtype).hinted(id, hint), Ok(id))
    }

    /// The graph unchanged, and an error.
    pub open spec fn refused(self, e: IrError) -> Step {
        (self, Err(e))
    }

    /// Elementwise sum; the operands agree in shape and element type.
    pub open spec fn add_step(self, a: TensorId, b: TensorId) -> Step {
        if !self.has(a) || !self.has(b) {
            self.refused(IrError::BadTensorId)
        } else if self.shape(a) != self.shape(b) || self.dtype(a) != self.dtype(b) {
            self.refused(IrError::ShapeMismatch)
        } else {
            self.made(OpV::Add { a, b }, self.shape(a), self.dtype(a))
        }
    }

    /// Elementwise product; the operands agree in shape and element type.
    pub open spec fn mul_step(self, a: TensorId, b: TensorId) -> Step {
        if !self.has(a) || !self.has(b) {
            self.refused(IrError::BadTensorId)
        } else if self.shape(a) != self.shape(b) || self.dtype(a) != self.dtype(b) {
            self.refused(IrError::ShapeMismatch)
        } else {
            self.made(OpV::Mul { a, b }, self.shape(a), self.dtype(a))
        }
    }

    /// An operation on one tensor that keeps its shape and element type.
    pub open spec fn map_step(self, x: TensorId, op: OpV) -> Step {
        if !self.has(x) {
            self.refused(IrError::BadTensorId)
        } else {
            self.made(op, self.shape(x), self.dtype(x))
        }
    }

    pub open spec fn scale_step(self, x: TensorId, scale: Scalar) -> Step {
        self.map_step(x, OpV::ScaleConst { x, scale })
    }

    /// Every row of a matrix times a vector of its width.
    pub open spec fn broadcast_step(self, left: TensorId, row: TensorId) -> Step {
        if !self.has(left) || !self.has(row) {
            self.refused(IrError::BadTensorId)
        } else {
            let sl = self.shape(left);
            let sr = self.shape(row);
            let dl = self.dtype(left);
            let dr = self.dtype(row);
            if sl.len() != 2 || sr.len() != 1 || sl[1] != sr[0] {
                self.refused(IrError::ShapeMismatch)
            } else if dl.is_float() && dr == dl || (dl == DType::Q4K || dl == DType::Q6K)
                && dr.is_float() && sl[1] % 256 == 0 {
                self.made(OpV::MulBroadcastRow { left, row }, sl, dr)
            } else {
                self.refused(IrError::ShapeMismatch)
            }
        }
    }

    /// A reduction along one axis, by sum or by maximum.
    pub open spec fn reduce_step(self, inp: TensorId, axis: usize, op: OpV) -> Step {
        if !self.has(inp) {
            self.refused(IrError::BadTensorId)
        } else if axis >= self.shape(inp).len() {
            self.refused(IrError::BadAxis)
        } else {
            self.made(op, reduced(self.shape(inp), axis as int), self.dtype(inp))
        }
    }

    pub open spec fn sum_step(self, inp: TensorId, axis: usize) -> Step {
        self.reduce_step(inp, axis, OpV::SumReduce { inp, axis })
    }

    pub open spec fn max_step(self, inp: TensorId, axis: usize) -> Step {
        self.reduce_step(inp, axis, OpV::MaxReduce { inp, axis })
    }

    /// A matrix times a vector: broadcast product, then row sums.
    pub open spec fn matvec_step(self, w: TensorId, x: TensorId) -> Step {
        let (g, m) = self.broadcast_step(w, x);
        match m {
            Ok(m) => g.sum_step(m, 1),
            Err(e) => (g, Err(e)),
        }
    }

    /// Repetition to a shape whose element count the source divides.
    pub open spec fn expand_step(self, inp: TensorId, shape: Seq<usize>) -> Step {
        if !self.has(inp) {
            self.refused(IrError::BadTensorId)
        } else if product(self.shape(inp)) == 0 || product(shape) % product(self.shape(inp)) != 0 {
            self.refused(IrError::ShapeMismatch)
        } else {
            self.made(OpV::Expand { inp, shape }, shape, self.dtype(inp))
        }
    }

    /// The same elements under another shape.
    pub open spec fn reshape_step(self, inp: TensorId, shape: Seq<usize>) -> Step {
        if !self.has(inp) {
            self.refused(IrError::BadTensorId)
        } else if product(self.shape(inp)) != product(shape) {
            self.refused(IrError::ShapeMismatch)
        } else {
            self.made(OpV::Reshape { inp, shape }, shape, self.dtype(inp))
        }
    }

    /// The axes in another order.
    pub open spec fn permute_step(self, inp: TensorId, axes: Seq<usize>) -> Step {
        if !self.has(inp) {
            self.refused(IrError::BadTensorId)
        } else if !is_permutation(axes, self.shape(inp).len()) {
            self.refused(IrError::ShapeMismatch)
        } else {
            let s = self.shape(inp);
            self.made(
                OpV::Permute { inp, axes },
                axes.map_values(|a: usize| s[a as int]),
                self.dtype(inp),
            )
        }
    }

    pub open spec fn copy_slice_step(
        self,
        src: TensorId,
        src_off: usize,
        dst_off: usize,
        n: usize,
    ) -> Step {
        if !self.has(src) {
            self.refused(IrError::BadTensorId)
        } else {
            self.made(OpV::CopySlice { src, src_off, dst_off, n }, seq![n], self.dtype(src))
        }
    }

    /// `cap * tanh(x / cap)`.
    pub open spec fn softcap_step(self, x: TensorId, cap: u32) -> Step {
        if !self.has(x) {
            self.refused(IrError::BadTensorId)
        } else {
            let g1 = self.scale_step(x, Scalar::RecipBits(cap)).0;
            let scaled = TensorId(self.nodes.len() as u32);
            let g2 = g1.map_step(scaled, OpV::Tanh { x: scaled }).0;
            g2.scale_step(TensorId(g1.nodes.len() as u32), Scalar::Bits(cap))
        }
    }

    /// `x/2 * (1 + tanh(c1 * (x + c2 * x^3)))`, built from primitives.
    pub open spec fn gelu_step(self, x: TensorId) -> Step {
        if !self.has(x) {
            self.refused(IrError::BadTensorId)
        } else {
            let n = self.nodes.len();
            let s = self.shape(x);
            let d = self.dtype(x);
            let t = |k: int| TensorId((n + k) as u32);
            let g = self.with(OpV::Mul { a: x, b: x }, s, d)
                .with(OpV::Mul { a: t(0), b: x }, s, d)
                .with(OpV::ScaleConst { x: t(1), scale: Scalar::Bits(GELU_CUBIC) }, s, d)
                .with(OpV::Add { a: x, b: t(2) }, s, d)
                .with(OpV::ScaleConst { x: t(3), scale: Scalar::Bits(SQRT_2_OVER_PI) }, s, d)
                .with(OpV::Tanh { x: t(4) }, s, d)
                .with(OpV::Const { value: Scalar::Bits(ONE), shape: s, dtype: d }, s, d)
                .with(OpV::Add { a: t(6), b: t(5) }, s, d)
                .with(OpV::ScaleConst { x, scale: Scalar::Bits(HALF) }, s, d)
                .with(OpV::Mul { a: t(8), b: t(7) }, s, d);
            (g, Ok(t(9)))
        }
    }

    /// Why `x` and `w` cannot be normalised together, if they cannot.
    pub open spec fn rmsnorm_refusal(self, x: TensorId, w: TensorId) -> Option<IrError> {
        if !self.has(x) || !self.has(w) {
            Some(IrError::BadTensorId)
        } else if self.shape(x) != self.shape(w) || !self.dtype(x).is_float() || self.dtype(x)
            != self.dtype(w) || self.shape(x).len() != 1 {
            Some(IrError::ShapeMismatch)
        } else {
            None
        }
    }

    /// `x * rsqrt(sum(x * x) / n + eps) * w`, built from primitives and hinted as one kernel.
    pub open spec fn rmsnorm_step(self, x: TensorId, w: TensorId, eps: Scalar) -> Step {
        match self.rmsnorm_refusal(x, w) {
            Some(e) => self.refused(e),
            None => {
                let m = self.nodes.len();
                let s = self.shape(x);
                let d = self.dtype(x);
                let one = seq![1usize];
                let t = |k: int| TensorId((m + k) as u32);
                let g = self.with(OpV::Mul { a: x, b: x }, s, d)
                    .with(OpV::SumReduce { inp: t(0), axis: 0 }, one, d)
                    .with(OpV::ScaleConst { x: t(1), scale: Scalar::RecipInt(s[0] as u64) }, one, d)
                    .with(OpV::Const { value: eps, shape: one, dtype: d }, one, d)
                    .with(OpV::Add { a: t(2), b: t(3) }, one, d)
                    .with(OpV::Rsqrt { x: t(4) }, one, d)
                    .with(OpV::Expand { inp: t(5), shape: s }, s, d)
                    .with(OpV::Mul { a: x, b: t(6) }, s, d)
                    .with(OpV::Mul { a: t(7), b: w }, s, d);
                (g.hinted(t(8), FuseHint::RmsNorm { n: s[0], eps, x, w }), Ok(t(8)))
            },
        }
    }

    /// The normalised `x` plus a residual.
    pub open spec fn rmsnorm_add_step(
        self,
        x: TensorId,
        w: TensorId,
        residual: TensorId,
        eps: Scalar,
    ) -> Step {
        let (g1, r1) = self.rmsnorm_step(x, w, eps);
        match r1 {
            Err(e) => (g1, Err(e)),
            Ok(yn) => {
                let (g2, r2) = g1.add_step(yn, residual);
                match r2 {
                    Err(e) => (g2, Err(e)),
                    Ok(out) => (
                        g2.hinted(
                            out,
                            FuseHint::RmsNormAdd { n: self.shape(x)[0], eps, x, w, residual },
                        ),
                        Ok(out),
                    ),
                }
            },
        }
    }

    /// The normalised `x` plus a residual, scaled.
    pub open spec fn rmsnorm_add_scale_step(
        self,
        x: TensorId,
        w: TensorId,
        residual: TensorId,
        eps: Scalar,
        scale: Scalar,
    ) -> Step {
        let (g1, r1) = self.rmsnorm_add_step(x, w, residual, eps);
        match r1 {
            Err(e) => (g1, Err(e)),
            Ok(added) => {
                let (g2, r2) = g1.scale_step(added, scale);
                match r2 {
                    Err(e) => (g2, Err(e)),
                    Ok(out) => (
                        g2.hinted(
                            out,
                            FuseHint::RmsNormAddScale {
                                n: self.shape(x)[0],
                                eps,
                                scale,
                                x,
                                w,
                                residual,
                            },
                        ),
                        Ok(out),
                    ),
                }
            },
        }
    }

    /// A kernel over `inputs` that keeps the `n_heads * hd` elements of `x`.
    pub open spec fn per_head_step(
        self,
        x: TensorId,
        n_heads: usize,
        hd: usize,
        inputs: Seq<TensorId>,
        hint: FuseHint,
    ) -> Step {
        if !self.has(x) {
            self.refused(IrError::BadTensorId)
        } else if !self.dtype(x).is_float() || product(self.shape(x)) != n_heads * hd {
            self.refused(IrError::ShapeMismatch)
        } else {
            self.called(inputs, seq![(n_heads * hd) as usize], self.dtype(x), hint)
        }
    }

    /// A scaled copy; packed sources come out in half precision.
    pub open spec fn copy_scale_step(
        self,
        src: TensorId,
        src_off: usize,
        dst_off: usize,
        n: usize,
        scale: Scalar,
    ) -> Step {
        if !self.has(src) {
            self.refused(IrError::BadTensorId)
        } else {
            let d = self.dtype(src);
            match copy_out(d) {
                Err(e) => self.refused(e),
                Ok(out) => self.called(
                    seq![src],
                    seq![n],
                    out,
                    FuseHint::CopyScale { src_off, dst_off, n, scale, src, src_dtype: d },
                ),
            }
        }
    }

    /// Attention of `n_q` heads of `hd` elements over at most `max_t` positions.
    pub open spec fn sdpa_step(
        self,
        q: TensorId,
        k: TensorId,
        v: TensorId,
        meta: TensorId,
        n_q: usize,
        hd: usize,
        max_t: usize,
    ) -> Step {
        if !self.has(q) || !self.has(k) || !self.has(v) {
            self.refused(IrError::BadTensorId)
        } else {
            let d = self.dtype(q);
            let kv = self.dtype(k);
            if !d.is_float() || !kv_goes_with(kv, d) || self.dtype(v) != kv || product(
                self.shape(q),
            ) != n_q * hd || n_q == 0 || hd == 0 || max_t == 0 {
                self.refused(IrError::ShapeMismatch)
            } else {
                self.called(
                    seq![q, k, v, meta],
                    seq![(n_q * hd) as usize],
                    d,
                    FuseHint::SdpaNaive { n_q, hd, max_t, q, k, v, meta, kv_dtype: kv },
                )
            }
        }
    }

    /// `gelu(gate) * up[up_off..]`, built from primitives and hinted as one kernel.
    pub open spec fn gelu_mul_step(self, gate: TensorId, up: TensorId, up_off: usize) -> Step {
        if !self.has(gate) || !self.has(up) {
            self.refused(IrError::BadTensorId)
        } else {
            let sg = self.shape(gate);
            let d = self.dtype(gate);
            if !d.is_float() || self.dtype(up) != d || sg.len() != 1 || product(self.shape(up))
                < up_off + sg[0] {
                self.refused(IrError::ShapeMismatch)
            } else {
                let n = sg[0];
                let (g1, _) = self.gelu_step(gate);
                let g = TensorId((g1.nodes.len() - 1) as u32);
                let (g2, _) = g1.copy_slice_step(up, up_off, 0, n);
                let (g3, _) = g2.mul_step(g, TensorId(g1.nodes.len() as u32));
                let out = TensorId(g2.nodes.len() as u32);
                (g3.hinted(out, FuseHint::GeluMul { n, up_off, gate, up }), Ok(out))
            }
        }
    }

    /// `gelu(gate . x) * (up . x)` for two matrices of one shape.
    pub open spec fn gate_up_step(self, gate: TensorId, up: TensorId, x: TensorId) -> Step {
        if !self.has(gate) || !self.has(up) || !self.has(x) {
            self.refused(IrError::BadTensorId)
        } else {
            let sg = self.shape(gate);
            let sx = self.shape(x);
            if sg.len() != 2 || self.shape(up) != sg || sx.len() != 1 || self.dtype(up)
                != self.dtype(gate) || sx[0] != sg[1] {
                self.refused(IrError::ShapeMismatch)
            } else {
                match matvec_out(self.dtype(gate), self.dtype(x), sg[1]) {
                    Err(e) => self.refused(e),
                    Ok(d) => self.called(
                        seq![gate, up, x],
                        seq![sg[0]],
                        d,
                        FuseHint::MatvecGateUpGelu { rows: sg[0], cols: sg[1], gate, up, x },
                    ),
                }
            }
        }
    }

    /// Whether three weights share the width of `x`, the last two one shape, and each can be
    /// multiplied with `x`; their element types may differ.
    pub open spec fn qkv_fits(self, wq: TensorId, wk: TensorId, wv: TensorId, x: TensorId) -> bool {
        let sq = self.shape(wq);
        let sk = self.shape(wk);
        let sx = self.shape(x);
        &&& sq.len() == 2
        &&& sk.len() == 2
        &&& sx.len() == 1
        &&& self.shape(wv) == sk
        &&& sq[1] == sk[1]
        &&& sx[0] == sq[1]
        &&& matvec_out(self.dtype(wk), self.dtype(x), sk[1]) is Ok
        &&& matvec_out(self.dtype(wv), self.dtype(x), sk[1]) is Ok
    }

    /// Three matrix-vector products that share `x`; the node has the shape of the first.
    pub open spec fn qkv_step(self, wq: TensorId, wk: TensorId, wv: TensorId, x: TensorId) -> Step {
        if !self.has(wq) || !self.has(wk) || !self.has(wv) || !self.has(x) {
            self.refused(IrError::BadTensorId)
        } else if !self.qkv_fits(wq, wk, wv, x) {
            self.refused(IrError::ShapeMismatch)
        } else {
            let sq = self.shape(wq);
            match matvec_out(self.dtype(wq), self.dtype(x), sq[1]) {
                Err(e) => self.refused(e),
                Ok(d) => self.called(
                    seq![wq, wk, wv, x],
                    seq![sq[0]],
                    d,
                    FuseHint::MatvecQkv {
                        q_rows: sq[0],
                        kv_rows: self.shape(wk)[0],
                        cols: sq[1],
                        wq,
                        wk,
                        wv,
                        x,
                    },
                ),
            }
        }
    }

    /// A matrix times the normalised `x`.
    pub open spec fn rmsnorm_matvec_step(
        self,
        w_mat: TensorId,
        x: TensorId,
        w_norm: TensorId,
        eps: Scalar,
    ) -> Step {
        if !self.has(w_mat) || !self.has(x) || !self.has(w_norm) {
            self.refused(IrError::BadTensorId)
        } else {
            let sw = self.shape(w_mat);
            let sx = self.shape(x);
            let sn = self.shape(w_norm);
            if sw.len() != 2 || sx.len() != 1 || sn.len() != 1
                || self.dtype(w_norm) != self.dtype(x)
                || sx[0] != sw[1] || sn[0] != sx[0] {
                self.refused(IrError::ShapeMismatch)
            } else {
                match matvec_out(self.dtype(w_mat), self.dtype(x), sw[1]) {
                    Err(e) => self.refused(e),
                    Ok(d) => self.called(
                        seq![w_mat, x, w_norm],
                        seq![sw[0]],
                        d,
                        FuseHint::RmsNormMatvec {
                            n: sw[1],
                            eps,
                            rows: sw[0],
                            cols: sw[1],
                            x,
                            w_norm,
                            w_mat,
                        },
                    ),
                }
            }
        }
    }

    /// `gelu(gate . x) * (up . x)` for the normalised `x`.
    pub open spec fn rmsnorm_gate_up_step(
        self,
        gate: TensorId,
        up: TensorId,
        x: TensorId,
        w_norm: TensorId,
        eps: Scalar,
    ) -> Step {
        if !self.has(gate) || !self.has(up) || !self.has(x) || !self.has(w_norm) {
            self.refused(IrError::BadTensorId)
        } else {
            let sg = self.shape(gate);
            let sx = self.shape(x);
            let sn = self.shape(w_norm);
            if sg.len() != 2 || self.shape(up) != sg || sx.len() != 1 || sn.len() != 1
                || self.dtype(
                up,
            ) != self.dtype(gate) || self.dtype(w_norm) != self.dtype(x) || sx[0] != sg[1] || sn[0]
                != sx[0] {
                self.refused(IrError::ShapeMismatch)
            } else {
                match matvec_out(self.dtype(gate), self.dtype(x), sg[1]) {
                    Err(e) => self.refused(e),
                    Ok(d) => self.called(
                        seq![gate, up, x, w_norm],
                        seq![sg[0]],
                        d,
                        FuseHint::RmsNormMatvecGateUpGelu {
                            n: sg[1],
                            eps,
                            rows: sg[0],
                            cols: sg[1],
                            x,
                            w_norm,
                            gate,
                            up,
                        },
                    ),
                }
            }
        }
    }

    /// Three matrix-vector products that share the normalised `x`.
    pub open spec fn rmsnorm_qkv_step(
        self,
        wq: TensorId,
        wk: TensorId,
        wv: TensorId,
        x: TensorId,
        w_norm: TensorId,
        eps: Scalar,
    ) -> Step {
        if !self.has(wq) || !self.has(wk) || !self.has(wv) || !self.has(x) || !self.has(w_norm) {
            self.refused(IrError::BadTensorId)
        } else if !self.qkv_fits(wq, wk, wv, x) || self.shape(w_norm) != self.shape(x)
            || self.dtype(w_norm) != self.dtype(x) {
            self.refused(IrError::ShapeMismatch)
        } else {
            let sq = self.shape(wq);
            match matvec_out(self.dtype(wq), self.dtype(x), sq[1]) {
                Err(e) => self.refused(e),
                Ok(d) => self.called(
                    seq![wq, wk, wv, x, w_norm],
                    seq![sq[0]],
                    d,
                    FuseHint::RmsNormMatvecQkv {
                        n: sq[1],
                        eps,
                        q_rows: sq[0],
                        kv_rows: self.shape(wk)[0],
                        cols: sq[1],
                        x,
                        w_norm,
                        wq,
                        wk,
                        wv,
                    },
                ),
            }
        }
    }

    /// The index of the largest softcapped element; it stays in single precision, since
    /// half precision cannot tell the indices of a vocabulary apart.
    pub open spec fn softcap_argmax_step(self, x: TensorId, cap: Scalar) -> Step {
        if !self.has(x) {
            self.refused(IrError::BadTensorId)
        } else if !self.dtype(x).is_float() || self.shape(x).len() != 1 {
            self.refused(IrError::ShapeMismatch)
        } else {
            self.called(
                seq![x],
                seq![1usize],
                DType::F32,
                FuseHint::SoftcapArgmax { n: self.shape(x)[0], cap, x },
            )
        }
    }
}

impl Graph {
    /// An empty graph.
    pub fn new() -> (r: Graph)
        ensures
            r@ == (GraphV { nodes: Seq::empty(), hints: Map::empty() }),
    {
        let g = Graph { nodes: Vec::new(), fuse_hints: HashMap::new() };
        assert(g@.nodes =~= Seq::<NodeV>::empty());
        g
    }

    /// Adds a node and returns its index.
    pub fn push(&mut self, op: Op, shape: Shape, dtype: DType) -> (id: TensorId)
        requires
            old(self)@.room(1),
        ensures
            final(self)@ == old(self)@.with(op@, shape@, dtype),
            id == TensorId(old(self)@.nodes.len() as u32),
    {
        let ghost g0 = self@;
        let id = TensorId(self.nodes.len() as u32);
        let node = Node { op, shape, dtype };
        self.nodes.push(node);
        assert(self@.nodes =~= g0.nodes.push(node@));
        id
    }

    /// Records what the node `id` stands for.
    pub fn hint(&mut self, id: TensorId, hint: FuseHint)
        ensures
            final(self)@ == old(self)@.hinted(id, hint),
    {
        self.fuse_hints.insert(id.0, hint);
    }

    /// What the node `id` stands for, if that was recorded.
    pub fn fuse_hint(&self, id: TensorId) -> (r: Option<&FuseHint>)
        ensures
            r == (if self@.hints.contains_key(id.0) {
                Some(&self@.hints[id.0])
            } else {
                None
            }),
    {
        self.fuse_hints.get(&id.0)
    }

    pub fn input(&mut self, shape: Shape, dtype: DType) -> (id: TensorId)
        requires
            old(self)@.room(1),
        ensures
            final(self)@ == old(self)@.with(OpV::Input { shape: shape@, dtype }, shape@, dtype),
            id == TensorId(old(self)@.nodes.len() as u32),
    {
        self.push(Op::Input { shape: shape.dup(), dtype }, shape, dtype)
    }

    pub fn const_f32(&mut self, value: Scalar, shape: Shape) -> (id: TensorId)
        requires
            old(self)@.room(1),
        ensures
            final(self)@ == old(self)@.with(
                OpV::Const { value, shape: shape@, dtype: DType::F32 },
                shape@,
                DType::F32,
            ),
            id == TensorId(old(self)@.nodes.len() as u32),
    {
        self.const_val(value, shape, DType::F32)
    }

    pub fn const_val(&mut self, value: Scalar, shape: Shape, dtype: DType) -> (id: TensorId)
        requires
            old(self)@.room(1),
        ensures
            final(self)@ == old(self)@.with(
                OpV::Const { value, shape: shape@, dtype },
                shape@,
                dtype,
            ),
            id == TensorId(old(self)@.nodes.len() as u32),
    {
        self.push(Op::Const { value, shape: shape.dup(), dtype }, shape, dtype)
    }

    /// Adds a kernel over `inputs`, with its hint.
    pub fn call(
        &mut self,
        inputs: Vec<TensorId>,
        shape: Shape,
        dtype: DType,
        hint: FuseHint,
    ) -> (id: TensorId)
        requires
            old(self)@.room(1),
        ensures
            (final(self)@, Ok::<TensorId, IrError>(id)) == old(self)@.called(
                inputs@,
                shape@,
                dtype,
                hint,
            ),
    {
        let id = self.push(Op::Call { inputs }, shape, dtype);
        self.hint(id, hint);
        id
    }

    /// The shape and element type of a node.
    pub fn shape_dtype(&self, id: TensorId) -> (r: Result<(Shape, DType), IrError>)
        ensures
            match r {
                Ok((s, d)) => self@.has(id) && s@ == self@.shape(id) && d == self@.dtype(id),
                Err(e) => !self@.has(id) && e == IrError::BadTensorId,
            },
    {
        match self.node(id) {
            Ok(n) => Ok((n.shape.dup(), n.dtype)),
            Err(e) => Err(e),
        }
    }

    /// The node with this index.
    pub fn node(&self, id: TensorId) -> (r: Result<&Node, IrError>)
        ensures
            match r {
                Ok(n) => self@.has(id) && *n == self.nodes@[id.0 as int] && n@ == self@.at(id),
                Err(e) => !self@.has(id) && e == IrError::BadTensorId,
            },
    {
        if (id.0 as usize) < self.nodes.len() {
            Ok(&self.nodes[id.0 as usize])
        } else {
            Err(IrError::BadTensorId)
        }
    }

    pub fn add(&mut self, a: TensorId, b: TensorId) -> (r: Result<TensorId, IrError>)
        requires
            old(self)@.room(1),
        ensures
            (final(self)@, r) == old(self)@.add_step(a, b),
    {
        let (sa, da) = self.shape_dtype(a)?;
        let (sb, db) = self.shape_dtype(b)?;
        if !sa.same(&sb) || da != db {
            return Err(IrError::ShapeMismatch);
        }
        Ok(self.push(Op::Add { a, b }, sa, da))
    }

    pub fn mul(&mut self, a: TensorId, b: TensorId) -> (r: Result<TensorId, IrError>)
        requires
            old(self)@.room(1),
        ensures
            (final(self)@, r) == old(self)@.mul_step(a, b),
    {
        let (sa, da) = self.shape_dtype(a)?;
        let (sb, db) = self.shape_dtype(b)?;
        if !sa.same(&sb) || da != db {
            return Err(IrError::ShapeMismatch);
        }
        Ok(self.push(Op::Mul { a, b }, sa, da))
    }

    pub fn scale_const(&mut self, x: TensorId, scale: Scalar) -> (r: Result<TensorId, IrError>)
        requires
            old(self)@.room(1),
        ensures
            (final(self)@, r) == old(self)@.scale_step(x, scale),
    {
        let (s, d) = self.shape_dtype(x)?;
        Ok(self.push(Op::ScaleConst { x, scale }, s, d))
    }

    pub fn rsqrt(&mut self, x: TensorId) -> (r: Result<TensorId, IrError>)
        requires
            old(self)@.room(1),
        ensures
            (final(self)@, r) == old(self)@.map_step(x, OpV::Rsqrt { x }),
    {
        let (s, d) = self.shape_dtype(x)?;
        Ok(self.push(Op::Rsqrt { x }, s, d))
    }

    pub fn tanh(&mut self, x: TensorId) -> (r: Result<TensorId, IrError>)
        requires
            old(self)@.room(1),
        ensures
            (final(self)@, r) == old(self)@.map_step(x, OpV::Tanh { x }),
    {
        let (s, d) = self.shape_dtype(x)?;
        Ok(self.push(Op::Tanh { x }, s, d))
    }

    pub fn exp(&mut self, x: TensorId) -> (r: Result<TensorId, IrError>)
        requires
            old(self)@.room(1),
        ensures
            (final(self)@, r) == old(self)@.map_step(x, OpV::Exp { x }),
    {
        let (s, d) = self.shape_dtype(x)?;
        Ok(self.push(Op::Exp { x }, s, d))
    }

    /// Every row of a matrix times a vector; a packed matrix comes in whole blocks.
    pub fn mul_broadcast_row(
        &mut self,
        left: TensorId,
        row: TensorId,
    ) -> (r: Result<TensorId, IrError>)
        requires
            old(self)@.room(1),
        ensures
            (final(self)@, r) == old(self)@.broadcast_step(left, row),
    {
        let (sl, dl) = self.shape_dtype(left)?;
        let (sr, dr) = self.shape_dtype(row)?;
        if sl.rank() != 2 || sr.rank() != 1 || sl.0[1] != sr.0[0] {
            return Err(IrError::ShapeMismatch);
        }
        let whole_blocks: bool = sl.0[1] % 256 == 0;
        let packed: bool = dl == DType::Q4K || dl == DType::Q6K;
        if !(dl.is_float() && dr == dl || packed && dr.is_float() && whole_blocks) {
            return Err(IrError::ShapeMismatch);
        }
        Ok(self.push(Op::MulBroadcastRow { left, row }, sl, dr))
    }

    pub fn matvec_prim(&mut self, w: TensorId, x: TensorId) -> (r: Result<TensorId, IrError>)
        requires
            old(self)@.room(2),
        ensures
            (final(self)@, r) == old(self)@.matvec_step(w, x),
    {
        let m = self.mul_broadcast_row(w, x)?;
        self.sum_reduce(m, 1)
    }

    pub fn sum_reduce(&mut self, inp: TensorId, axis: usize) -> (r: Result<TensorId, IrError>)
        requires
            old(self)@.room(1),
        ensures
            (final(self)@, r) == old(self)@.sum_step(inp, axis),
    {
        let (s, d) = self.shape_dtype(inp)?;
        if axis >= s.rank() {
            return Err(IrError::BadAxis);
        }
        let ghost s0 = s@;
        let mut out: Vec<usize> = s.0;
        out.remove(axis);
        if out.is_empty() {
            out.push(1);
        }
        assert(out@ =~= reduced(s0, axis as int));
        Ok(self.push(Op::SumReduce { inp, axis }, Shape(out), d))
    }

    pub fn max_reduce(&mut self, inp: TensorId, axis: usize) -> (r: Result<TensorId, IrError>)
        requires
            old(self)@.room(1),
        ensures
            (final(self)@, r) == old(self)@.max_step(inp, axis),
    {
        let (s, d) = self.shape_dtype(inp)?;
        if axis >= s.rank() {
            return Err(IrError::BadAxis);
        }
        let ghost s0 = s@;
        let mut out: Vec<usize> = s.0;
        out.remove(axis);
        if out.is_empty() {
            out.push(1);
        }
        assert(out@ =~= reduced(s0, axis as int));
        Ok(self.push(Op::MaxReduce { inp, axis }, Shape(out), d))
    }

    pub fn expand(&mut self, inp: TensorId, shape: Shape) -> (r: Result<TensorId, IrError>)
        requires
            old(self)@.room(1),
            old(self)@.has(inp) ==> product_fits(old(self)@.shape(inp)),
            product_fits(shape@),
        ensures
            (final(self)@, r) == old(self)@.expand_step(inp, shape@),
    {
        let (s, d) = self.shape_dtype(inp)?;
        let src_n: usize = s.numel();
        let dst_n: usize = shape.numel();
        if src_n == 0 || dst_n % src_n != 0 {
            return Err(IrError::ShapeMismatch);
        }
        Ok(self.push(Op::Expand { inp, shape: shape.dup() }, shape, d))
    }

    pub fn reshape(&mut self, inp: TensorId, shape: Shape) -> (r: Result<TensorId, IrError>)
        requires
            old(self)@.room(1),
            old(self)@.has(inp) ==> product_fits(old(self)@.shape(inp)),
            product_fits(shape@),
        ensures
            (final(self)@, r) == old(self)@.reshape_step(inp, shape@),
    {
        let (s, d) = self.shape_dtype(inp)?;
        if s.numel() != shape.numel() {
            return Err(IrError::ShapeMismatch);
        }
        Ok(self.push(Op::Reshape { inp, shape: shape.dup() }, shape, d))
    }

    pub fn permute(&mut self, inp: TensorId, axes: Vec<usize>) -> (r: Result<TensorId, IrError>)
        requires
            old(self)@.room(1),
        ensures
            (final(self)@, r) == old(self)@.permute_step(inp, axes@),
    {
        let (s, d) = self.shape_dtype(inp)?;
        if axes.len() != s.rank() {
            return Err(IrError::ShapeMismatch);
        }
        let ghost g0 = self@;
        let mut seen: Vec<bool> = Vec::new();
        let mut k: usize = 0;
        while k < axes.len()
            invariant
                k <= axes.len(),
                seen@.len() == k,
                forall|j: int| 0 <= j < k ==> !seen@[j],
            decreases axes.len() - k,
        {
            seen.push(false);
            k += 1;
        }
        let mut out: Vec<usize> = Vec::new();
        let mut i: usize = 0;
        while i < axes.len()
            invariant
                i <= axes.len(),
                axes@.len() == s@.len(),
                seen@.len() == axes@.len(),
                out@ == axes@.take(i as int).map_values(|a: usize| s@[a as int]),
                forall|j: int| 0 <= j < i ==> #[trigger] axes@[j] < s@.len(),
                forall|j: int, l: int| 0 <= j < l < i ==> axes@[j] != axes@[l],
                forall|a: int|
                    0 <= a < seen@.len() ==> (#[trigger] seen@[a] <==> exists|j: int|
                        0 <= j < i && axes@[j] == a),
                self@ == g0,
                g0.has(inp),
                s@ == g0.shape(inp),
                g0 == old(self)@,
            decreases axes.len() - i,
        {
            let a: usize = axes[i];
            if a >= s.rank() || seen[a] {
                assert(!is_permutation(axes@, s@.len()));
                return Err(IrError::ShapeMismatch);
            }
            let ghost seen0 = seen@;
            seen.set(a, true);
            out.push(s.0[a]);
            assert(axes@.take(i + 1) =~= axes@.take(i as int).push(a));
            assert(out@ =~= axes@.take(i + 1).map_values(|a: usize| s@[a as int]));
            assert forall|b: int| 0 <= b < seen@.len() implies (#[trigger] seen@[b] <==> exists|j: int|
                0 <= j < i + 1 && axes@[j] == b) by {
                if b == a {
                    assert(axes@[i as int] == b);
                } else {
                    assert(seen@[b] == seen0[b]);
                }
            }
            i += 1;
        }
        assert(axes@.take(axes@.len() as int) =~= axes@);
        Ok(self.push(Op::Permute { inp, axes }, Shape(out), d))
    }

    pub fn copy_slice(
        &mut self,
        src: TensorId,
        src_off: usize,
        dst_off: usize,
        n: usize,
    ) -> (r: Result<TensorId, IrError>)
        requires
            old(self)@.room(1),
        ensures
            (final(self)@, r) == old(self)@.copy_slice_step(src, src_off, dst_off, n),
    {
        let (_, d) = self.shape_dtype(src)?;
        Ok(self.push(Op::CopySlice { src, src_off, dst_off, n }, vector_shape(n), d))
    }

    pub fn square(&mut self, x: TensorId) -> (r: Result<TensorId, IrError>)
        requires
            old(self)@.room(1),
        ensures
            (final(self)@, r) == old(self)@.mul_step(x, x),
    {
        self.mul(x, x)
    }

    /// `cap * tanh(x / cap)` for the number with the bit pattern `cap`.
    pub fn softcap(&mut self, x: TensorId, cap: u32) -> (r: Result<TensorId, IrError>)
        requires
            old(self)@.room(3),
        ensures
            (final(self)@, r) == old(self)@.softcap_step(x, cap),
    {
        let scaled = self.scale_const(x, Scalar::RecipBits(cap))?;
        let t = self.tanh(scaled)?;
        self.scale_const(t, Scalar::Bits(cap))
    }

    pub fn gelu_tanh(&mut self, x: TensorId) -> (r: Result<TensorId, IrError>)
        requires
            old(self)@.room(10),
        ensures
            (final(self)@, r) == old(self)@.gelu_step(x),
    {
        let (s, d) = self.shape_dtype(x)?;
        let x2 = self.mul(x, x)?;
        let x3 = self.mul(x2, x)?;
        let c044 = self.scale_const(x3, Scalar::Bits(GELU_CUBIC))?;
        let inner = self.add(x, c044)?;
        let u = self.scale_const(inner, Scalar::Bits(SQRT_2_OVER_PI))?;
        let t = self.tanh(u)?;
        let one = self.const_val(Scalar::Bits(ONE), s, d);
        let one_plus = self.add(one, t)?;
        let half_x = self.scale_const(x, Scalar::Bits(HALF))?;
        self.mul(half_x, one_plus)
    }

    pub fn rmsnorm_expand(
        &mut self,
        x: TensorId,
        w: TensorId,
        eps: Scalar,
    ) -> (r: Result<TensorId, IrError>)
        requires
            old(self)@.room(9),
        ensures
            (final(self)@, r) == old(self)@.rmsnorm_step(x, w, eps),
    {
        let (sx, dx) = self.shape_dtype(x)?;
        let (sw, dw) = self.shape_dtype(w)?;
        if !sx.same(&sw) || !dx.is_float() || dx != dw || sx.rank() != 1 {
            return Err(IrError::ShapeMismatch);
        }
        let ghost s0 = sx@;
        let n: usize = sx.0[0];
        proof {
            lemma_vector_fits(s0);
            lemma_vector_fits(seq![1usize]);
        }
        let sq = self.square(x)?;
        let sum = self.sum_reduce(sq, 0)?;
        let mean = self.scale_const(sum, Scalar::RecipInt(n as u64))?;
        let eps_t = self.const_val(eps, vector_shape(1), dx);
        let mean_eps = self.add(mean, eps_t)?;
        let inv = self.rsqrt(mean_eps)?;
        let inv_b = self.expand(inv, sx)?;
        let xn = self.mul(x, inv_b)?;
        let out = self.mul(xn, w)?;
        self.hint(out, FuseHint::RmsNorm { n, eps, x, w });
        Ok(out)
    }

    pub fn rmsnorm_add_expand(
        &mut self,
        x: TensorId,
        w: TensorId,
        residual: TensorId,
        eps: Scalar,
    ) -> (r: Result<TensorId, IrError>)
        requires
            old(self)@.room(10),
        ensures
            (final(self)@, r) == old(self)@.rmsnorm_add_step(x, w, residual, eps),
    {
        let yn = self.rmsnorm_expand(x, w, eps)?;
        let out = self.add(yn, residual)?;
        let (sx, _) = self.shape_dtype(x)?;
        proof {
            lemma_vector_fits(sx@);
        }
        let n: usize = sx.numel();
        self.hint(out, FuseHint::RmsNormAdd { n, eps, x, w, residual });
        Ok(out)
    }

    pub fn rmsnorm_add_scale_expand(
        &mut self,
        x: TensorId,
        w: TensorId,
        residual: TensorId,
        eps: Scalar,
        scale: Scalar,
    ) -> (r: Result<TensorId, IrError>)
        requires
            old(self)@.room(11),
        ensures
            (final(self)@, r) == old(self)@.rmsnorm_add_scale_step(x, w, residual, eps, scale),
    {
        let added = self.rmsnorm_add_expand(x, w, residual, eps)?;
        let out = self.scale_const(added, scale)?;
        let (sx, _) = self.shape_dtype(x)?;
        proof {
            lemma_vector_fits(sx@);
        }
        let n: usize = sx.numel();
        self.hint(out, FuseHint::RmsNormAddScale { n, eps, scale, x, w, residual });
        Ok(out)
    }

    pub fn rmsnorm_per_head(
        &mut self,
        x: TensorId,
        w: TensorId,
        n_heads: usize,
        hd: usize,
        eps: Scalar,
        with_weight: bool,
    ) -> (r: Result<TensorId, IrError>)
        requires
            old(self)@.room(1),
            old(self)@.has(x) ==> product_fits(old(self)@.shape(x)),
            n_heads * hd <= usize::MAX,
        ensures
            (final(self)@, r) == old(self)@.per_head_step(
                x,
                n_heads,
                hd,
                seq![x, w],
                FuseHint::RmsNormPerHead { n_heads, hd, eps, with_weight, x, w },
            ),
    {
        let (sx, dx) = self.shape_dtype(x)?;
        if !dx.is_float() || sx.numel() != n_heads * hd {
            return Err(IrError::ShapeMismatch);
        }
        let mut inputs: Vec<TensorId> = Vec::new();
        inputs.push(x);
        inputs.push(w);
        assert(inputs@ =~= seq![x, w]);
        Ok(
            self.call(
                inputs,
                vector_shape(n_heads * hd),
                dx,
                FuseHint::RmsNormPerHead { n_heads, hd, eps, with_weight, x, w },
            ),
        )
    }

    pub fn rmsnorm_per_head_rope(
        &mut self,
        x: TensorId,
        w: TensorId,
        cos_sin: TensorId,
        n_heads: usize,
        hd: usize,
        eps: Scalar,
        with_weight: bool,
    ) -> (r: Result<TensorId, IrError>)
        requires
            old(self)@.room(1),
            old(self)@.has(x) ==> product_fits(old(self)@.shape(x)),
            n_heads * hd <= usize::MAX,
        ensures
            (final(self)@, r) == old(self)@.per_head_step(
                x,
                n_heads,
                hd,
                seq![x, w, cos_sin],
                FuseHint::RmsNormPerHeadRope { n_heads, hd, eps, with_weight, x, w, cos_sin },
            ),
    {
        let (sx, dx) = self.shape_dtype(x)?;
        if !dx.is_float() || sx.numel() != n_heads * hd {
            return Err(IrError::ShapeMismatch);
        }
        let mut inputs: Vec<TensorId> = Vec::new();
        inputs.push(x);
        inputs.push(w);
        inputs.push(cos_sin);
        assert(inputs@ =~= seq![x, w, cos_sin]);
        Ok(
            self.call(
                inputs,
                vector_shape(n_heads * hd),
                dx,
                FuseHint::RmsNormPerHeadRope { n_heads, hd, eps, with_weight, x, w, cos_sin },
            ),
        )
    }

    pub fn copy_scale(
        &mut self,
        src: TensorId,
        src_off: usize,
        dst_off: usize,
        n: usize,
        scale: Scalar,
    ) -> (r: Result<TensorId, IrError>)
        requires
            old(self)@.room(1),
        ensures
            (final(self)@, r) == old(self)@.copy_scale_step(src, src_off, dst_off, n, scale),
    {
        let (_, d) = self.shape_dtype(src)?;
        let out = copy_out_dtype(d)?;
        let mut inputs: Vec<TensorId> = Vec::new();
        inputs.push(src);
        assert(inputs@ =~= seq![src]);
        let hint = FuseHint::CopyScale { src_off, dst_off, n, scale, src, src_dtype: d };
        Ok(self.call(inputs, vector_shape(n), out, hint))
    }

    pub fn rope(
        &mut self,
        x: TensorId,
        cos_sin: TensorId,
        n_heads: usize,
        hd: usize,
    ) -> (r: Result<TensorId, IrError>)
        requires
            old(self)@.room(1),
            old(self)@.has(x) ==> product_fits(old(self)@.shape(x)),
            n_heads * hd <= usize::MAX,
        ensures
            (final(self)@, r) == old(self)@.per_head_step(
                x,
                n_heads,
                hd,
                seq![x, cos_sin],
                FuseHint::Rope { n_heads, hd, x, cos_sin },
            ),
    {
        let (sx, dx) = self.shape_dtype(x)?;
        if !dx.is_float() || sx.numel() != n_heads * hd {
            return Err(IrError::ShapeMismatch);
        }
        let mut inputs: Vec<TensorId> = Vec::new();
        inputs.push(x);
        inputs.push(cos_sin);
        assert(inputs@ =~= seq![x, cos_sin]);
        Ok(
            self.call(
                inputs,
                vector_shape(n_heads * hd),
                dx,
                FuseHint::Rope { n_heads, hd, x, cos_sin },
            ),
        )
    }

    pub fn sdpa_naive(
        &mut self,
        q: TensorId,
        k: TensorId,
        v: TensorId,
        meta: TensorId,
        n_q: usize,
        hd: usize,
        max_t: usize,
    ) -> (r: Result<TensorId, IrError>)
        requires
            old(self)@.room(1),
            old(self)@.has(q) ==> product_fits(old(self)@.shape(q)),
            n_q * hd <= usize::MAX,
        ensures
            (final(self)@, r) == old(self)@.sdpa_step(q, k, v, meta, n_q, hd, max_t),
    {
        let (sq, dq) = self.shape_dtype(q)?;
        let (_, dk) = self.shape_dtype(k)?;
        let (_, dv) = self.shape_dtype(v)?;
        if !dq.is_float() || !kv_goes_with(dk, dq) || dv != dk || sq.numel() != n_q * hd || n_q == 0
            || hd == 0 || max_t == 0 {
            return Err(IrError::ShapeMismatch);
        }
        let mut inputs: Vec<TensorId> = Vec::new();
        inputs.push(q);
        inputs.push(k);
        inputs.push(v);
        inputs.push(meta);
        assert(inputs@ =~= seq![q, k, v, meta]);
        let hint = FuseHint::SdpaNaive { n_q, hd, max_t, q, k, v, meta, kv_dtype: dk };
        Ok(self.call(inputs, vector_shape(n_q * hd), dq, hint))
    }

    pub fn gelu_mul_at(
        &mut self,
        gate: TensorId,
        up: TensorId,
        up_off: usize,
    ) -> (r: Result<TensorId, IrError>)
        requires
            old(self)@.room(12),
            old(self)@.has(up) ==> product_fits(old(self)@.shape(up)),
            old(self)@.has(gate)
                && old(self)@.shape(gate).len() == 1 ==> up_off + old(self)@.shape(gate)[0] <= usize::MAX,
        ensures
            (final(self)@, r) == old(self)@.gelu_mul_step(gate, up, up_off),
    {
        let (sg, dg) = self.shape_dtype(gate)?;
        let (su, du) = self.shape_dtype(up)?;
        if !dg.is_float() || du != dg || sg.rank() != 1 {
            return Err(IrError::ShapeMismatch);
        }
        let n: usize = sg.0[0];
        if su.numel() < up_off + n {
            return Err(IrError::ShapeMismatch);
        }
        let g = self.gelu_tanh(gate)?;
        let up_s = self.copy_slice(up, up_off, 0, n)?;
        assert(sg@ =~= seq![n]);
        let out = self.mul(g, up_s)?;
        self.hint(out, FuseHint::GeluMul { n, up_off, gate, up });
        Ok(out)
    }

    pub fn matvec_gate_up_gelu(
        &mut self,
        gate: TensorId,
        up: TensorId,
        x: TensorId,
    ) -> (r: Result<TensorId, IrError>)
        requires
            old(self)@.room(1),
        ensures
            (final(self)@, r) == old(self)@.gate_up_step(gate, up, x),
    {
        let (sg, dg) = self.shape_dtype(gate)?;
        let (su, du) = self.shape_dtype(up)?;
        let (sx, dx) = self.shape_dtype(x)?;
        if sg.rank() != 2 || !su.same(&sg) || sx.rank() != 1 {
            return Err(IrError::ShapeMismatch);
        }
        if du != dg || sx.0[0] != sg.0[1] {
            return Err(IrError::ShapeMismatch);
        }
        let rows: usize = sg.0[0];
        let cols: usize = sg.0[1];
        let out_dt = matvec_weight_act_out(dg, dx, cols)?;
        let mut inputs: Vec<TensorId> = Vec::new();
        inputs.push(gate);
        inputs.push(up);
        inputs.push(x);
        assert(inputs@ =~= seq![gate, up, x]);
        let hint = FuseHint::MatvecGateUpGelu { rows, cols, gate, up, x };
        Ok(self.call(inputs, vector_shape(rows), out_dt, hint))
    }

    pub fn matvec_qkv(
        &mut self,
        wq: TensorId,
        wk: TensorId,
        wv: TensorId,
        x: TensorId,
    ) -> (r: Result<TensorId, IrError>)
        requires
            old(self)@.room(1),
        ensures
            (final(self)@, r) == old(self)@.qkv_step(wq, wk, wv, x),
    {
        let (sq, dq) = self.shape_dtype(wq)?;
        let (sk, dk) = self.shape_dtype(wk)?;
        let (sv, dv) = self.shape_dtype(wv)?;
        let (sx, dx) = self.shape_dtype(x)?;
        if sq.rank() != 2 || sk.rank() != 2 || sv.rank() != 2 || sx.rank() != 1 {
            return Err(IrError::ShapeMismatch);
        }
        if !sk.same(&sv) || sq.0[1] != sk.0[1] || sx.0[0] != sq.0[1] {
            return Err(IrError::ShapeMismatch);
        }
        let _ = matvec_weight_act_out(dk, dx, sk.0[1])?;
        let _ = matvec_weight_act_out(dv, dx, sk.0[1])?;
        let q_rows: usize = sq.0[0];
        let kv_rows: usize = sk.0[0];
        let cols: usize = sq.0[1];
        let out_dt = matvec_weight_act_out(dq, dx, cols)?;
        let mut inputs: Vec<TensorId> = Vec::new();
        inputs.push(wq);
        inputs.push(wk);
        inputs.push(wv);
        inputs.push(x);
        assert(inputs@ =~= seq![wq, wk, wv, x]);
        let hint = FuseHint::MatvecQkv { q_rows, kv_rows, cols, wq, wk, wv, x };
        Ok(self.call(inputs, vector_shape(q_rows), out_dt, hint))
    }

    pub fn rmsnorm_matvec(
        &mut self,
        w_mat: TensorId,
        x: TensorId,
        w_norm: TensorId,
        eps: Scalar,
    ) -> (r: Result<TensorId, IrError>)
        requires
            old(self)@.room(1),
        ensures
            (final(self)@, r) == old(self)@.rmsnorm_matvec_step(w_mat, x, w_norm, eps),
    {
        let (sw, dw) = self.shape_dtype(w_mat)?;
        let (sx, dx) = self.shape_dtype(x)?;
        let (sn, dn) = self.shape_dtype(w_norm)?;
        if sw.rank() != 2 || sx.rank() != 1 || sn.rank() != 1 {
            return Err(IrError::ShapeMismatch);
        }
        if dn != dx || sx.0[0] != sw.0[1] || sn.0[0] != sx.0[0] {
            return Err(IrError::ShapeMismatch);
        }
        let rows: usize = sw.0[0];
        let cols: usize = sw.0[1];
        let out_dt = matvec_weight_act_out(dw, dx, cols)?;
        let mut inputs: Vec<TensorId> = Vec::new();
        inputs.push(w_mat);
        inputs.push(x);
        inputs.push(w_norm);
        assert(inputs@ =~= seq![w_mat, x, w_norm]);
        let hint = FuseHint::RmsNormMatvec { n: cols, eps, rows, cols, x, w_norm, w_mat };
        Ok(self.call(inputs, vector_shape(rows), out_dt, hint))
    }

    pub fn rmsnorm_matvec_gate_up_gelu(
        &mut self,
        gate: TensorId,
        up: TensorId,
        x: TensorId,
        w_norm: TensorId,
        eps: Scalar,
    ) -> (r: Result<TensorId, IrError>)
        requires
            old(self)@.room(1),
        ensures
            (final(self)@, r) == old(self)@.rmsnorm_gate_up_step(gate, up, x, w_norm, eps),
    {
        let (sg, dg) = self.shape_dtype(gate)?;
        let (su, du) = self.shape_dtype(up)?;
        let (sx, dx) = self.shape_dtype(x)?;
        let (sn, dn) = self.shape_dtype(w_norm)?;
        if sg.rank() != 2 || !su.same(&sg) || sx.rank() != 1 || sn.rank() != 1 {
            return Err(IrError::ShapeMismatch);
        }
        if du != dg || dn != dx || sx.0[0] != sg.0[1] || sn.0[0] != sx.0[0] {
            return Err(IrError::ShapeMismatch);
        }
        let rows: usize = sg.0[0];
        let cols: usize = sg.0[1];
        let out_dt = matvec_weight_act_out(dg, dx, cols)?;
        let mut inputs: Vec<TensorId> = Vec::new();
        inputs.push(gate);
        inputs.push(up);
        inputs.push(x);
        inputs.push(w_norm);
        assert(inputs@ =~= seq![gate, up, x, w_norm]);
        let hint = FuseHint::RmsNormMatvecGateUpGelu {
            n: cols,
            eps,
            rows,
            cols,
            x,
            w_norm,
            gate,
            up,
        };
        Ok(self.call(inputs, vector_shape(rows), out_dt, hint))
    }

    pub fn rmsnorm_matvec_qkv(
        &mut self,
        wq: TensorId,
        wk: TensorId,
        wv: TensorId,
        x: TensorId,
        w_norm: TensorId,
        eps: Scalar,
    ) -> (r: Result<TensorId, IrError>)
        requires
            old(self)@.room(1),
        ensures
            (final(self)@, r) == old(self)@.rmsnorm_qkv_step(wq, wk, wv, x, w_norm, eps),
    {
        let (sq, dq) = self.shape_dtype(wq)?;
        let (sk, dk) = self.shape_dtype(wk)?;
        let (sv, dv) = self.shape_dtype(wv)?;
        let (sx, dx) = self.shape_dtype(x)?;
        let (sn, dn) = self.shape_dtype(w_norm)?;
        if sq.rank() != 2 || sk.rank() != 2 || sv.rank() != 2 || sx.rank() != 1 || sn.rank() != 1 {
            return Err(IrError::ShapeMismatch);
        }
        if !sk.same(&sv) || sq.0[1] != sk.0[1] || sx.0[0] != sq.0[1] || !sn.same(&sx) {
            return Err(IrError::ShapeMismatch);
        }
        if dn != dx {
            return Err(IrError::ShapeMismatch);
        }
        let _ = matvec_weight_act_out(dk, dx, sk.0[1])?;
        let _ = matvec_weight_act_out(dv, dx, sk.0[1])?;
        let q_rows: usize = sq.0[0];
        let kv_rows: usize = sk.0[0];
        let cols: usize = sq.0[1];
        let out_dt = matvec_weight_act_out(dq, dx, cols)?;
        let mut inputs: Vec<TensorId> = Vec::new();
        inputs.push(wq);
        inputs.push(wk);
        inputs.push(wv);
        inputs.push(x);
        inputs.push(w_norm);
        assert(inputs@ =~= seq![wq, wk, wv, x, w_norm]);
        let hint = FuseHint::RmsNormMatvecQkv {
            n: cols,
            eps,
            q_rows,
            kv_rows,
            cols,
            x,
            w_norm,
            wq,
            wk,
            wv,
        };
        Ok(self.call(inputs, vector_shape(q_rows), out_dt, hint))
    }

    pub fn softcap_argmax(&mut self, x: TensorId, cap: Scalar) -> (r: Result<TensorId, IrError>)
        requires
            old(self)@.room(1),
        ensures
            (final(self)@, r) == old(self)@.softcap_argmax_step(x, cap),
    {
        let (sx, dx) = self.shape_dtype(x)?;
        if !dx.is_float() || sx.rank() != 1 {
            return Err(IrError::ShapeMismatch);
        }
        let n: usize = sx.0[0];
        let mut inputs: Vec<TensorId> = Vec::new();
        inputs.push(x);
        assert(inputs@ =~= seq![x]);
        Ok(self.call(inputs, vector_shape(1), DType::F32, FuseHint::SoftcapArgmax { n, cap, x }))
    }
}

fn matvec_weight_act_out(weight: DType, act: DType, cols: usize) -> (r: Result<DType, IrError>)
    ensures
        r == matvec_out(weight, act, cols),
{
    if weight.is_float() && act == weight {
        Ok(weight)
    } else if (weight == DType::Q4K || weight == DType::Q6K) && act == DType::F16 && cols % 256
        == 0 {
        Ok(DType::F16)
    } else {
        Err(IrError::ShapeMismatch)
    }
}

fn copy_out_dtype(src: DType) -> (r: Result<DType, IrError>)
    ensures
        r == copy_out(src),
{
    match src {
        DType::F32 | DType::F16 => Ok(src),
        DType::Q4K | DType::Q5K | DType::Q6K => Ok(DType::F16),
        _ => Err(IrError::ShapeMismatch),
    }
}

/// The only element of a vector's shape is the product of its axes.
pub proof fn lemma_vector_fits(s: Seq<usize>)
    ensures
        s.len() == 1 ==> product_fits(s) && product(s) == s[0],
{
    if s.len() == 1 {
        reveal_with_fuel(product, 3);
        assert(s.drop_last() =~= Seq::<usize>::empty());
        assert forall|k: int| 0 <= k <= s.len() implies #[trigger] product(s.take(k))
            <= usize::MAX by {
            if k == 0 {
                assert(s.take(0) =~= Seq::<usize>::empty());
            } else {
                assert(s.take(1) =~= s);
            }
        }
    }
}

} // verus!
