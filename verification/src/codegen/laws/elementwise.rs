//! What elementwise kernels compute.

use vstd::prelude::*;

use crate::codegen::laws::machine::{blank, index, lemma_run_one, run, value, Arith, Lane, Regs};
use crate::codegen::laws::meaning::{bound, element, elements};
use crate::codegen::lower::block::{cs, gid, ld, plus, store, times};
use crate::codegen::lower::elem::{copy_scale_code, copy_slice_code, elem_at_gid, elemwise_code};
use crate::codegen::lower::kernels::{lowered_in, other_body};
use crate::codegen::schedule::{elem_of, is_one, rewritten, scheduled};
use crate::ir::dtype::{product, product_fits, DType, Scalar, TensorId};
use crate::ir::graph::{reads_below, GraphV, OpV};
use crate::ir::kernel::{Code, ElemExpr, KirLaunch, OptSchedule};

verus! {

/// Reading a tensor adds to the list of inputs and changes nothing that stands in it.
proof fn lemma_inputs_grow(g: GraphV, id: TensorId, ins: Seq<TensorId>)
    ensures
        ins.len() <= elem_of(g, id, ins).1.len(),
        elem_of(g, id, ins).1.take(ins.len() as int) == ins,
    decreases id.0,
{
    let out = elem_of(g, id, ins).1;
    if g.has(id) {
        match g.at(id).op {
            OpV::Input { .. } => {},
            OpV::Add { a, b } if a.0 < id.0 && b.0 < id.0 => {
                lemma_inputs_grow(g, a, ins);
                let mid = elem_of(g, a, ins).1;
                lemma_inputs_grow(g, b, mid);
                assert(elem_of(g, b, mid).1.take(ins.len() as int) =~= mid.take(ins.len() as int));
            },
            OpV::Mul { a, b } if a.0 < id.0 && b.0 < id.0 => {
                lemma_inputs_grow(g, a, ins);
                let mid = elem_of(g, a, ins).1;
                lemma_inputs_grow(g, b, mid);
                assert(elem_of(g, b, mid).1.take(ins.len() as int) =~= mid.take(ins.len() as int));
            },
            OpV::ScaleConst { x, scale } if x.0 < id.0 => {
                lemma_inputs_grow(g, x, ins);
            },
            _ => {},
        }
    }
    assert(out.take(ins.len() as int) =~= ins);
}

/// An elementwise expression at position `gid`, over buffers that hold the tensors it reads, is the
/// element of the tensor that it was built for.
proof fn lemma_expression<V>(
    ar: Arith<V>,
    g: GraphV,
    given: spec_fn(TensorId, int) -> V,
    id: TensorId,
    ins: Seq<TensorId>,
    all: Seq<TensorId>,
    l: Lane<V>,
    r: Regs<V>,
    dt: DType,
)
    requires
        elem_of(g, id, ins).0 is Ok,
        elem_of(g, id, ins).1.len() <= all.len() <= u32::MAX,
        all.take(elem_of(g, id, ins).1.len() as int) == elem_of(g, id, ins).1,
        bound(l.bufs, given, all),
        r.stored == Map::<(u32, int), V>::empty(),
        l.gid >= 0,
    ensures
        value(ar, l, r, elem_at_gid(elem_of(g, id, ins).0->Ok_0, dt)) == element(
            ar,
            g,
            given,
            id,
            l.gid,
        ),
    decreases id.0,
{
    let out = elem_of(g, id, ins).1;
    lemma_inputs_grow(g, id, ins);
    match g.at(id).op {
        OpV::Input { .. } => {
            let k: int = if ins.contains(id) {
                ins.index_of_first_ensures(id);
                ins.index_of_first(id)->0
            } else {
                ins.len() as int
            };
            assert(out[k] == id);
            assert(all.take(out.len() as int)[k] == all[k]);
            let e = elem_of(g, id, ins).0->Ok_0;
            assert(e == ElemExpr::Load(k as usize));
            assert(elem_at_gid(e, dt) == ld(k as u32, gid(), dt));
            assert((l.bufs)(k as u32, l.gid) == given(all[k], l.gid));
            assert(index(ar, l, r, gid()) == l.gid);
            assert(value(ar, l, r, elem_at_gid(e, dt)) == given(id, l.gid));
        },
        OpV::Add { a, b } if a.0 < id.0 && b.0 < id.0 => {
            let mid = elem_of(g, a, ins).1;
            lemma_inputs_grow(g, b, mid);
            assert(all.take(mid.len() as int) =~= out.take(mid.len() as int));
            lemma_expression(ar, g, given, a, ins, all, l, r, dt);
            lemma_expression(ar, g, given, b, mid, all, l, r, dt);
            assert(elem_at_gid(elem_of(g, id, ins).0->Ok_0, dt) == plus(
                elem_at_gid(elem_of(g, a, ins).0->Ok_0, dt),
                elem_at_gid(elem_of(g, b, mid).0->Ok_0, dt),
            ));
        },
        OpV::Mul { a, b } if a.0 < id.0 && b.0 < id.0 => {
            let mid = elem_of(g, a, ins).1;
            lemma_inputs_grow(g, b, mid);
            assert(all.take(mid.len() as int) =~= out.take(mid.len() as int));
            lemma_expression(ar, g, given, a, ins, all, l, r, dt);
            lemma_expression(ar, g, given, b, mid, all, l, r, dt);
            assert(elem_at_gid(elem_of(g, id, ins).0->Ok_0, dt) == times(
                elem_at_gid(elem_of(g, a, ins).0->Ok_0, dt),
                elem_at_gid(elem_of(g, b, mid).0->Ok_0, dt),
            ));
        },
        OpV::ScaleConst { x, scale } if x.0 < id.0 => {
            lemma_expression(ar, g, given, x, ins, all, l, r, dt);
            assert(elem_at_gid(elem_of(g, id, ins).0->Ok_0, dt) == times(
                cs(scale),
                elem_at_gid(elem_of(g, x, ins).0->Ok_0, dt),
            ));
            assert(value(ar, l, r, cs(scale)) == (ar.constant)(scale));
        },
        _ => {},
    }
}

/// Inputs of a chain are given, so their elements are.
proof fn lemma_inputs_are_given<V>(
    ar: Arith<V>,
    g: GraphV,
    given: spec_fn(TensorId, int) -> V,
    id: TensorId,
    ins: Seq<TensorId>,
)
    requires
        elem_of(g, id, ins).0 is Ok,
        forall|k: int| 0 <= k < ins.len() ==> g.at(#[trigger] ins[k]).op is Input,
    ensures
        forall|k: int|
            0 <= k < elem_of(g, id, ins).1.len() ==> g.at(
                #[trigger] elem_of(g, id, ins).1[k],
            ).op is Input,
    decreases id.0,
{
    match g.at(id).op {
        OpV::Add { a, b } if a.0 < id.0 && b.0 < id.0 => {
            lemma_inputs_are_given(ar, g, given, a, ins);
            lemma_inputs_are_given(ar, g, given, b, elem_of(g, a, ins).1);
        },
        OpV::Mul { a, b } if a.0 < id.0 && b.0 < id.0 => {
            lemma_inputs_are_given(ar, g, given, a, ins);
            lemma_inputs_are_given(ar, g, given, b, elem_of(g, a, ins).1);
        },
        OpV::ScaleConst { x, .. } if x.0 < id.0 => {
            lemma_inputs_are_given(ar, g, given, x, ins);
        },
        _ => {},
    }
}

/// The kernel that is scheduled and lowered for a sum, a product or a scaling computes that
/// tensor, in any arithmetic: it is launched once for each element, and where buffer `k` holds the
/// tensor that the kernel names as input `k`, the thread at position `i` stores element `i` of the
/// output behind the inputs and nothing else.
pub proof fn lemma_elementwise<V>(
    ar: Arith<V>,
    g: GraphV,
    given: spec_fn(TensorId, int) -> V,
    out: TensorId,
    l: Lane<V>,
    sched: OptSchedule,
)
    requires
        g.ordered(),
        g.has(out),
        product_fits(g.shape(out)),
        g.at(out).op is Add || g.at(out).op is Mul || g.at(out).op is ScaleConst,
        !g.hints.contains_key(out.0),
        scheduled(g, out) is Ok,
        scheduled(g, out)->Ok_0.inputs.len() <= u32::MAX,
        bound(l.bufs, elements(ar, g, given), scheduled(g, out)->Ok_0.inputs),
        l.gid >= 0,
    ensures
        ({
            let k = scheduled(g, out)->Ok_0;
            let n_in = k.inputs.len() as u32;
            &&& lowered_in(g, k, sched) matches Ok(ir) && {
                &&& ir.launch == (KirLaunch::Elementwise { n: product(g.shape(out)) as usize })
                &&& run(ar, l, ir.body, blank()).stored == Map::empty().insert(
                    (n_in, l.gid),
                    element(ar, g, given, out, l.gid),
                )
            }
        }),
{
    let dt = g.dtype(out);
    let k = scheduled(g, out)->Ok_0;
    let n_in = k.inputs.len() as u32;
    let expr = k.kind->Elementwise_expr;
    assert(reads_below(g.nodes[out.0 as int].op, out.0 as int));
    match g.at(out).op {
        OpV::ScaleConst { x, scale } => {
            if g.at(x).op is Add || g.at(x).op is Mul {
                let (inner, ins) = elem_of(g, x, Seq::empty());
                lemma_inputs_are_given(ar, g, given, x, Seq::empty());
                lemma_held(ar, g, given, ins, l);
                assert(ins.take(ins.len() as int) =~= ins);
                lemma_expression(ar, g, given, x, Seq::empty(), ins, l, blank(), dt);
                assert(elem_at_gid(expr, dt) == times(cs(scale), elem_at_gid(inner->Ok_0, dt)));
            } else {
                assert((l.bufs)(0, l.gid) == elements(ar, g, given)(k.inputs[0], l.gid));
                let inner = ElemExpr::Load(0);
                assert(expr == ElemExpr::Scale(Box::new(inner), scale));
                assert(elem_at_gid(inner, dt) == ld(0, gid(), dt));
                assert(elem_at_gid(expr, dt) == times(cs(scale), elem_at_gid(inner, dt)));
                assert(index(ar, l, blank(), gid()) == l.gid);
                assert(value(ar, l, blank(), ld(0, gid(), dt)) == (l.bufs)(0, l.gid));
            }
            assert(value(ar, l, blank(), cs(scale)) == (ar.constant)(scale));
        },
        _ => {
            let (e, ins) = elem_of(g, out, Seq::empty());
            lemma_inputs_are_given(ar, g, given, out, Seq::empty());
            lemma_held(ar, g, given, ins, l);
            assert(ins.take(ins.len() as int) =~= ins);
            lemma_expression(ar, g, given, out, Seq::empty(), ins, l, blank(), dt);
        },
    }
    let s = store(n_in, gid(), elem_at_gid(expr, dt));
    lemma_run_one(ar, l, Code::Flat(s), blank());
    assert(index(ar, l, blank(), gid()) == l.gid);
    assert(k.output == out);
    assert(k.kind is Elementwise);
    reveal(other_body);
    let ir = lowered_in(g, k, sched);
    assert(ir is Ok);
    assert(ir->Ok_0.body == elemwise_code(expr, n_in, dt));
    assert(elemwise_code(expr, n_in, dt) == Seq::<Code>::empty().push(Code::Flat(s)));
    assert(ir->Ok_0.launch == (KirLaunch::Elementwise { n: product(g.shape(out)) as usize }));
}

/// Buffers that hold the elements of inputs hold what is given.
proof fn lemma_held<V>(
    ar: Arith<V>,
    g: GraphV,
    given: spec_fn(TensorId, int) -> V,
    ins: Seq<TensorId>,
    l: Lane<V>,
)
    requires
        bound(l.bufs, elements(ar, g, given), ins),
        forall|k: int| 0 <= k < ins.len() ==> g.at(#[trigger] ins[k]).op is Input,
    ensures
        bound(l.bufs, given, ins),
{
    assert forall|k: int, i: int| 0 <= k < ins.len() && 0 <= i implies #[trigger] (l.bufs)(
        k as u32,
        i,
    ) == given(ins[k], i) by {
        assert((l.bufs)(k as u32, i) == elements(ar, g, given)(ins[k], i));
        assert(g.at(ins[k]).op is Input);
    }
}

/// A copy moves element `src_off + i` of its source to `dst_off + i` of its destination.
pub proof fn lemma_copy_slice<V>(
    ar: Arith<V>,
    src_off: usize,
    dst_off: usize,
    n_in: u32,
    dt: DType,
    l: Lane<V>,
)
    requires
        0 <= l.gid,
        src_off + l.gid <= u32::MAX,
        dst_off + l.gid <= u32::MAX,
    ensures
        run(ar, l, copy_slice_code(src_off, dst_off, n_in, dt), blank()).stored
            == Map::empty().insert(
            (n_in, dst_off + l.gid),
            (l.bufs)(0, src_off + l.gid),
        ),
{
    let b = copy_slice_code(src_off, dst_off, n_in, dt);
    lemma_run_one(ar, l, b[0], blank());
    reveal_with_fuel(index, 3);
    reveal_with_fuel(value, 3);
}

/// A scaling copy does the same and multiplies by the scale.
pub proof fn lemma_copy_scale<V>(
    ar: Arith<V>,
    src_off: usize,
    dst_off: usize,
    scale: Scalar,
    n_in: u32,
    dt: DType,
    l: Lane<V>,
)
    requires
        0 <= l.gid,
        src_off + l.gid <= u32::MAX,
        dst_off + l.gid <= u32::MAX,
    ensures
        run(ar, l, copy_scale_code(src_off, dst_off, scale, n_in, dt), blank()).stored
            == Map::empty().insert(
            (n_in, dst_off + l.gid),
            ar.product((ar.constant)(scale), (l.bufs)(0, src_off + l.gid)),
        ),
{
    let b = copy_scale_code(src_off, dst_off, scale, n_in, dt);
    lemma_run_one(ar, l, b[0], blank());
    reveal_with_fuel(index, 3);
    reveal_with_fuel(value, 4);
}

/// Local rewrites keep the meaning of a region where multiplying by one changes nothing.
pub proof fn lemma_rewrite_keeps<V>(
    ar: Arith<V>,
    g: GraphV,
    given: spec_fn(TensorId, int) -> V,
    out: TensorId,
    i: int,
)
    requires
        g.ordered(),
        rewritten(g, out) is Ok,
        forall|s: Scalar, x: V| #![trigger ar.product((ar.constant)(s), x)]
            is_one(s) ==> ar.product((ar.constant)(s), x) == x,
    ensures
        element(ar, g, given, rewritten(g, out)->Ok_0, i) == element(ar, g, given, out, i),
{
    assert(reads_below(g.nodes[out.0 as int].op, out.0 as int));
}

} // verus!
