//! The meaning of graphs: the elements of the tensors that primitives make up.

use vstd::prelude::*;

use crate::codegen::laws::machine::Arith;
use crate::codegen::laws::sums::series;
use crate::ir::dtype::{product, TensorId};
use crate::ir::graph::{GraphV, OpV};
use crate::ir::kernel::UnaryOp;

verus! {

/// Element `i` of a tensor. Inputs are given, and so are the results of kernel calls and of
/// operations that move or compare elements.
pub open spec fn element<V>(
    ar: Arith<V>,
    g: GraphV,
    given: spec_fn(TensorId, int) -> V,
    id: TensorId,
    i: int,
) -> V
    decreases id.0, 0nat, 0nat,
{
    match g.at(id).op {
        OpV::Const { value, .. } => (ar.constant)(value),
        OpV::Add { a, b } if a.0 < id.0 && b.0 < id.0 => ar.sum(
            element(ar, g, given, a, i),
            element(ar, g, given, b, i),
        ),
        OpV::Mul { a, b } if a.0 < id.0 && b.0 < id.0 => ar.product(
            element(ar, g, given, a, i),
            element(ar, g, given, b, i),
        ),
        OpV::ScaleConst { x, scale } if x.0 < id.0 => ar.product(
            (ar.constant)(scale),
            element(ar, g, given, x, i),
        ),
        OpV::Rsqrt { x } if x.0 < id.0 => (ar.unary)(
            UnaryOp::Rsqrt,
            element(ar, g, given, x, i),
        ),
        OpV::Tanh { x } if x.0 < id.0 => (ar.unary)(UnaryOp::Tanh, element(ar, g, given, x, i)),
        OpV::Exp { x } if x.0 < id.0 => (ar.unary)(UnaryOp::Exp, element(ar, g, given, x, i)),
        OpV::SumReduce { inp, axis } if inp.0 < id.0 && axis + 1 == g.shape(inp).len() => run_of(
            ar,
            g,
            given,
            inp,
            i * g.shape(inp)[axis as int],
            g.shape(inp)[axis as int] as nat,
        ),
        OpV::Expand { inp, .. } if inp.0 < id.0 && product(g.shape(inp)) == 1 => element(
            ar,
            g,
            given,
            inp,
            0,
        ),
        OpV::Reshape { inp, .. } if inp.0 < id.0 => element(ar, g, given, inp, i),
        OpV::MulBroadcastRow { left, row } if left.0 < id.0 && row.0 < id.0 => ar.product(
            element(ar, g, given, left, i),
            element(ar, g, given, row, i % g.shape(left).last() as int),
        ),
        OpV::CopySlice { src, src_off, .. } if src.0 < id.0 => element(
            ar,
            g,
            given,
            src,
            src_off + i,
        ),
        _ => given(id, i),
    }
}

/// `n` elements of a tensor from `from` on, added up.
pub open spec fn run_of<V>(
    ar: Arith<V>,
    g: GraphV,
    given: spec_fn(TensorId, int) -> V,
    id: TensorId,
    from: int,
    n: nat,
) -> V
    decreases id.0, 1nat, n,
{
    if n == 0 {
        ar.zero()
    } else {
        ar.sum(
            run_of(ar, g, given, id, from, (n - 1) as nat),
            element(ar, g, given, id, from + n - 1),
        )
    }
}

/// A sum of terms that are the elements of a tensor.
pub proof fn lemma_run_of<V>(
    ar: Arith<V>,
    g: GraphV,
    given: spec_fn(TensorId, int) -> V,
    id: TensorId,
    from: int,
    t: spec_fn(int) -> V,
    n: nat,
)
    requires
        forall|k: int| 0 <= k < n ==> #[trigger] t(k) == element(ar, g, given, id, from + k),
    ensures
        series(ar, t, n) == run_of(ar, g, given, id, from, n),
    decreases n,
{
    if n > 0 {
        lemma_run_of(ar, g, given, id, from, t, (n - 1) as nat);
    }
}

/// The elements of all tensors, as they follow from the given ones.
pub open spec fn elements<V>(
    ar: Arith<V>,
    g: GraphV,
    given: spec_fn(TensorId, int) -> V,
) -> spec_fn(TensorId, int) -> V {
    |id: TensorId, i: int| element(ar, g, given, id, i)
}

/// Device buffers that hold the tensors of a list, each under its place in the list.
pub open spec fn bound<V>(
    bufs: spec_fn(u32, int) -> V,
    given: spec_fn(TensorId, int) -> V,
    ins: Seq<TensorId>,
) -> bool {
    forall|k: int, i: int|
        0 <= k < ins.len() && 0 <= i ==> #[trigger] bufs(k as u32, i) == given(ins[k], i)
}

/// What one of the buffers holds.
pub proof fn lemma_bound<V>(
    bufs: spec_fn(u32, int) -> V,
    given: spec_fn(TensorId, int) -> V,
    ins: Seq<TensorId>,
    k: u32,
    i: int,
)
    requires
        bound(bufs, given, ins),
        k < ins.len(),
        0 <= i,
    ensures
        bufs(k, i) == given(ins[k as int], i),
{
    assert(bufs(k as int as u32, i) == given(ins[k as int], i));
}

} // verus!
