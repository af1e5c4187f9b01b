//! Fused kernels compute what the primitives that they stand for compute.

use vstd::prelude::*;

use crate::codegen::laws::machine::{
    blank, fresh_group, group_run, index, lemma_run_one, lemma_run_push, run, value, Arith, Lane,
    Regs,
};
use crate::codegen::laws::meaning::{bound, element, elements, lemma_bound, lemma_run_of};
use crate::codegen::laws::norm::{inverse_root, lemma_rmsnorm, normed};
use crate::codegen::laws::reductions::held;
use crate::codegen::laws::sums::series;
use crate::codegen::lower::block::{
    c, code, cu, gid, larger, ld, let_f, plus, smaller, store, times, un, v, Extend,
};
use crate::codegen::lower::elem::{gelu_code, gelu_mul_code};
use crate::codegen::lower::kernels::{lowered_in, normalisation, one_group, other_body};
use crate::codegen::lower::norm::rmsnorm_code;
use crate::codegen::schedule::scheduled;
use crate::ir::dtype::{
    product, DType, Scalar, TensorId, GELU_CUBIC, HALF, MINUS_TWENTY, ONE, SQRT_2_OVER_PI, TWENTY,
};
use crate::ir::graph::{GraphV, NodeV, OpV};
use crate::ir::kernel::{BinOp, Code, KirExpr, KirLaunch, OptSchedule, UnaryOp};

verus! {

/// Whether to multiply by one over a count is to divide by the count.
pub open spec fn divides<V>(ar: Arith<V>) -> bool {
    forall|a: V, n: u64| #[trigger]
        ar.product((ar.constant)(Scalar::RecipInt(n)), a) == (ar.binary)(
            BinOp::Div,
            a,
            (ar.constant)(Scalar::Int(n)),
        )
}

/// The primitives of a normalisation, from node `m` on.
spec fn norm_nodes(g: GraphV, m: nat, x: TensorId, w: TensorId, eps: Scalar) -> bool {
    let t = |k: int| TensorId((m + k) as u32);
    let s = g.shape(x);
    let d = g.dtype(x);
    let one = seq![1usize];
    &&& m + 9 <= g.nodes.len() <= u32::MAX
    &&& x.0 < m && w.0 < m
    &&& s.len() == 1
    &&& g.nodes[m as int] == (NodeV { op: OpV::Mul { a: x, b: x }, shape: s, dtype: d })
    &&& g.nodes[m as int + 1].op == (OpV::SumReduce { inp: t(0), axis: 0 })
    &&& g.nodes[m as int + 2].op == (
        OpV::ScaleConst { x: t(1), scale: Scalar::RecipInt(s[0] as u64) }
    )
    &&& g.nodes[m as int + 3].op == (OpV::Const { value: eps, shape: one, dtype: d })
    &&& g.nodes[m as int + 4].op == (OpV::Add { a: t(2), b: t(3) })
    &&& g.nodes[m as int + 5].op == (OpV::Rsqrt { x: t(4) })
    &&& g.nodes[m as int + 5].shape == one
    &&& g.nodes[m as int + 6].op == (OpV::Expand { inp: t(5), shape: s })
    &&& g.nodes[m as int + 7].op == (OpV::Mul { a: x, b: t(6) })
    &&& g.nodes[m as int + 8].op == (OpV::Mul { a: t(7), b: w })
}

/// The elements of the primitives of a normalisation.
proof fn lemma_norm_element<V>(
    ar: Arith<V>,
    g: GraphV,
    given: spec_fn(TensorId, int) -> V,
    m: nat,
    x: TensorId,
    w: TensorId,
    eps: Scalar,
    i: int,
)
    requires
        divides(ar),
        norm_nodes(g, m, x, w, eps),
    ensures
        element(ar, g, given, TensorId((m + 8) as u32), i) == normed(
            ar,
            |k: int| element(ar, g, given, x, k),
            |k: int| element(ar, g, given, w, k),
            None,
            None,
            g.shape(x)[0],
            eps,
            i,
        ),
{
    let t = |k: int| TensorId((m + k) as u32);
    let n = g.shape(x)[0];
    let xs = |k: int| element(ar, g, given, x, k);
    let sq = |k: int| ar.product(xs(k), xs(k));
    assert forall|k: int| 0 <= k < n implies #[trigger] sq(k) == element(
        ar,
        g,
        given,
        t(0),
        0 + k,
    ) by {
        assert(g.at(t(0)) == g.nodes[m as int]);
    }
    lemma_run_of(ar, g, given, t(0), 0, sq, n as nat);
    let total = series(ar, sq, n as nat);
    assert(g.shape(t(0))[0] == n);
    assert(0 * n == 0);
    assert(g.at(t(1)) == g.nodes[m as int + 1]);
    assert(element(ar, g, given, t(1), 0) == total);
    assert(g.at(t(2)) == g.nodes[m as int + 2]);
    assert(element(ar, g, given, t(2), 0) == ar.product(
        (ar.constant)(Scalar::RecipInt(n as u64)),
        total,
    ));
    assert(g.at(t(3)) == g.nodes[m as int + 3]);
    assert(element(ar, g, given, t(3), 0) == (ar.constant)(eps));
    assert(g.at(t(4)) == g.nodes[m as int + 4]);
    assert(element(ar, g, given, t(4), 0) == ar.sum(
        element(ar, g, given, t(2), 0),
        element(ar, g, given, t(3), 0),
    ));
    assert(g.at(t(5)) == g.nodes[m as int + 5]);
    let inv = inverse_root(ar, xs, n, eps);
    assert(element(ar, g, given, t(5), 0) == inv) by {
        assert((|k: int| ar.product(xs(k), xs(k))) =~= sq);
    }
    assert(product(g.shape(t(5))) == 1) by {
        reveal_with_fuel(product, 2);
    }
    assert(g.at(t(6)) == g.nodes[m as int + 6]);
    assert(element(ar, g, given, t(6), i) == inv);
    assert(g.at(t(7)) == g.nodes[m as int + 7]);
    assert(element(ar, g, given, t(7), i) == ar.product(xs(i), inv));
    assert(g.at(t(8)) == g.nodes[m as int + 8]);
}

/// The kernel of a normalisation stores what it should.
proof fn lemma_norm_kernel<V>(
    ar: Arith<V>,
    h: GraphV,
    given: spec_fn(TensorId, int) -> V,
    out: TensorId,
    ins: Seq<TensorId>,
    n: usize,
    eps: Scalar,
    scale: Option<Scalar>,
    out_buf: u32,
    dt: DType,
    gid: int,
    bufs: spec_fn(u32, int) -> V,
)
    requires
        ar.exact(),
        n + 256 <= u32::MAX,
        bound(bufs, elements(ar, h, given), ins),
        ins.len() == 2 || ins.len() == 3,
        out_buf >= ins.len(),
        forall|i: int|
            0 <= i < n ==> #[trigger] element(ar, h, given, out, i) == normed(
                ar,
                |k: int| element(ar, h, given, ins[0], k),
                |k: int| element(ar, h, given, ins[1], k),
                if ins.len() == 3 {
                    Some(|k: int| element(ar, h, given, ins[2], k))
                } else {
                    None
                },
                scale,
                n,
                eps,
                i,
            ),
    ensures
        group_run(
            ar,
            gid,
            bufs,
            rmsnorm_code(n, eps, ins.len() == 3, scale, out_buf, dt, 256, 0),
            fresh_group(256),
        ).stored == held(ar, h, given, out, out_buf, 0, n as int),
{
    let more = ins.len() == 3;
    lemma_rmsnorm(ar, gid, bufs, n, eps, more, scale, out_buf, dt, 256, 0);
    let got = group_run(
        ar,
        gid,
        bufs,
        rmsnorm_code(n, eps, more, scale, out_buf, dt, 256, 0),
        fresh_group(256),
    ).stored;
    let want = held(ar, h, given, out, out_buf, 0, n as int);
    let x = |k: int| element(ar, h, given, ins[0], k);
    let y = |k: int| bufs(0, k);
    assert forall|k: int| 0 <= k implies #[trigger] y(k) == x(k) by {
        lemma_bound(bufs, elements(ar, h, given), ins, 0, k);
    }
    let sx = |k: int| ar.product(x(k), x(k));
    let sy = |k: int| ar.product(y(k), y(k));
    lemma_series_same(ar, sx, sy, n as nat);
    assert(inverse_root(ar, x, n, eps) == inverse_root(ar, y, n, eps));
    assert forall|at: (u32, int)| got.contains_key(at) implies #[trigger] got[at] == want[at] by {
        let i = at.1;
        lemma_bound(bufs, elements(ar, h, given), ins, 1, i);
        assert(y(i) == x(i));
        if more {
            lemma_bound(bufs, elements(ar, h, given), ins, 2, i);
        }
        assert(element(ar, h, given, out, i) == want[at]);
    }
    assert(got =~= want);
}

/// A sum depends on its terms only.
proof fn lemma_series_same<V>(ar: Arith<V>, t: spec_fn(int) -> V, u: spec_fn(int) -> V, n: nat)
    requires
        forall|i: int| 0 <= i < n ==> #[trigger] t(i) == u(i),
    ensures
        series(ar, t, n) == series(ar, u, n),
    decreases n,
{
    if n > 0 {
        lemma_series_same(ar, t, u, (n - 1) as nat);
    }
}

/// Whether the kernel that is scheduled and lowered for `out` reads the tensors `ins` and, as one
/// group of 256 threads, stores the `n` elements of `out` behind them and nothing else.
pub open spec fn computes<V>(
    ar: Arith<V>,
    h: GraphV,
    given: spec_fn(TensorId, int) -> V,
    out: TensorId,
    ins: Seq<TensorId>,
    n: usize,
    sched: OptSchedule,
    bufs: spec_fn(u32, int) -> V,
) -> bool {
    match scheduled(h, out) {
        Ok(k) => match lowered_in(h, k, sched) {
            Ok(ir) => {
                &&& k.inputs == ins
                &&& ir.launch == one_group(256)
                &&& group_run(ar, 0, bufs, ir.body, fresh_group(256)).stored == held(
                    ar,
                    h,
                    given,
                    out,
                    ins.len() as u32,
                    0,
                    n as int,
                )
            },
            Err(_) => false,
        },
        Err(_) => false,
    }
}

/// The one kernel that is scheduled for a normalisation computes what its primitives compute,
/// where sums may be taken in any order and the buffers hold the vector and its weights.
pub proof fn lemma_norm_fused<V>(
    ar: Arith<V>,
    g: GraphV,
    given: spec_fn(TensorId, int) -> V,
    x: TensorId,
    w: TensorId,
    eps: Scalar,
    sched: OptSchedule,
    bufs: spec_fn(u32, int) -> V,
)
    requires
        ar.exact(),
        divides(ar),
        g.room(9),
        g.rmsnorm_step(x, w, eps).1 is Ok,
        g.shape(x)[0] + 256 <= u32::MAX,
        bound(bufs, elements(ar, g.rmsnorm_step(x, w, eps).0, given), seq![x, w]),
    ensures
        ({
            let (h, out) = g.rmsnorm_step(x, w, eps);
            computes(ar, h, given, out->Ok_0, seq![x, w], g.shape(x)[0], sched, bufs)
        }),
{
    reveal(normalisation);
    let m = g.nodes.len();
    let n = g.shape(x)[0];
    let h = g.rmsnorm_step(x, w, eps).0;
    let out = g.rmsnorm_step(x, w, eps).1->Ok_0;
    assert(h.at(x) == g.at(x));
    assert(norm_nodes(h, m, x, w, eps));
    let ins = seq![x, w];
    assert forall|i: int| 0 <= i < n implies #[trigger] element(ar, h, given, out, i) == normed(
        ar,
        |k: int| element(ar, h, given, ins[0], k),
        |k: int| element(ar, h, given, ins[1], k),
        None,
        None,
        n,
        eps,
        i,
    ) by {
        lemma_norm_element(ar, h, given, m, x, w, eps, i);
    }
    lemma_norm_kernel(ar, h, given, out, ins, n, eps, None, 2, h.dtype(out), 0, bufs);
}

/// The same of a normalisation that is added to a residual.
pub proof fn lemma_norm_add_fused<V>(
    ar: Arith<V>,
    g: GraphV,
    given: spec_fn(TensorId, int) -> V,
    x: TensorId,
    w: TensorId,
    residual: TensorId,
    eps: Scalar,
    sched: OptSchedule,
    bufs: spec_fn(u32, int) -> V,
)
    requires
        ar.exact(),
        divides(ar),
        g.room(10),
        g.has(residual),
        g.rmsnorm_add_step(x, w, residual, eps).1 is Ok,
        g.shape(x)[0] + 256 <= u32::MAX,
        bound(
            bufs,
            elements(ar, g.rmsnorm_add_step(x, w, residual, eps).0, given),
            seq![x, w, residual],
        ),
    ensures
        ({
            let (h, out) = g.rmsnorm_add_step(x, w, residual, eps);
            computes(ar, h, given, out->Ok_0, seq![x, w, residual], g.shape(x)[0], sched, bufs)
        }),
{
    reveal(normalisation);
    let m = g.nodes.len();
    let n = g.shape(x)[0];
    let h = g.rmsnorm_add_step(x, w, residual, eps).0;
    let out = g.rmsnorm_add_step(x, w, residual, eps).1->Ok_0;
    assert(g.rmsnorm_step(x, w, eps).1 is Ok);
    assert(h.at(x) == g.at(x));
    assert(norm_nodes(h, m, x, w, eps));
    let ins = seq![x, w, residual];
    let yn = TensorId((m + 8) as u32);
    assert(out == TensorId((m + 9) as u32));
    assert(h.at(out).op == (OpV::Add { a: yn, b: residual }));
    assert forall|i: int| 0 <= i < n implies #[trigger] element(ar, h, given, out, i) == normed(
        ar,
        |k: int| element(ar, h, given, ins[0], k),
        |k: int| element(ar, h, given, ins[1], k),
        Some(|k: int| element(ar, h, given, ins[2], k)),
        None,
        n,
        eps,
        i,
    ) by {
        lemma_norm_element(ar, h, given, m, x, w, eps, i);
    }
    lemma_norm_kernel(ar, h, given, out, ins, n, eps, None, 3, h.dtype(out), 0, bufs);
}

/// The same of a normalisation that is added to a residual and scaled.
pub proof fn lemma_norm_add_scale_fused<V>(
    ar: Arith<V>,
    g: GraphV,
    given: spec_fn(TensorId, int) -> V,
    x: TensorId,
    w: TensorId,
    residual: TensorId,
    eps: Scalar,
    scale: Scalar,
    sched: OptSchedule,
    bufs: spec_fn(u32, int) -> V,
)
    requires
        ar.exact(),
        divides(ar),
        g.room(11),
        g.has(residual),
        g.rmsnorm_add_scale_step(x, w, residual, eps, scale).1 is Ok,
        g.shape(x)[0] + 256 <= u32::MAX,
        bound(
            bufs,
            elements(ar, g.rmsnorm_add_scale_step(x, w, residual, eps, scale).0, given),
            seq![x, w, residual],
        ),
    ensures
        ({
            let (h, out) = g.rmsnorm_add_scale_step(x, w, residual, eps, scale);
            computes(ar, h, given, out->Ok_0, seq![x, w, residual], g.shape(x)[0], sched, bufs)
        }),
{
    reveal(normalisation);
    let m = g.nodes.len();
    let n = g.shape(x)[0];
    let h = g.rmsnorm_add_scale_step(x, w, residual, eps, scale).0;
    let out = g.rmsnorm_add_scale_step(x, w, residual, eps, scale).1->Ok_0;
    assert(g.rmsnorm_step(x, w, eps).1 is Ok);
    assert(g.rmsnorm_add_step(x, w, residual, eps).1 is Ok);
    assert(h.at(x) == g.at(x));
    assert(norm_nodes(h, m, x, w, eps));
    let ins = seq![x, w, residual];
    let yn = TensorId((m + 8) as u32);
    let added = TensorId((m + 9) as u32);
    assert(out == TensorId((m + 10) as u32));
    assert(h.at(added).op == (OpV::Add { a: yn, b: residual }));
    assert(h.at(out).op == (OpV::ScaleConst { x: added, scale }));
    assert forall|i: int| 0 <= i < n implies #[trigger] element(ar, h, given, out, i) == normed(
        ar,
        |k: int| element(ar, h, given, ins[0], k),
        |k: int| element(ar, h, given, ins[1], k),
        Some(|k: int| element(ar, h, given, ins[2], k)),
        Some(scale),
        n,
        eps,
        i,
    ) by {
        lemma_norm_element(ar, h, given, m, x, w, eps, i);
        assert(element(ar, h, given, added, i) == ar.sum(
            element(ar, h, given, yn, i),
            element(ar, h, given, residual, i),
        ));
    }
    lemma_norm_kernel(ar, h, given, out, ins, n, eps, Some(scale), 3, h.dtype(out), 0, bufs);
}

/// The approximate GELU of a value.
pub open spec fn gelu<V>(ar: Arith<V>, x: V) -> V {
    let k = |bits: u32| (ar.constant)(Scalar::Bits(bits));
    let cube = ar.product(ar.product(x, x), x);
    let u = ar.product(k(SQRT_2_OVER_PI), ar.sum(x, ar.product(k(GELU_CUBIC), cube)));
    ar.product(
        ar.product(k(HALF), x),
        ar.sum(k(ONE), (ar.unary)(UnaryOp::Tanh, u)),
    )
}

/// A value, brought within twenty either way.
pub open spec fn clamped<V>(ar: Arith<V>, x: V) -> V {
    (ar.binary)(
        BinOp::Min,
        (ar.constant)(Scalar::Bits(TWENTY)),
        (ar.binary)(BinOp::Max, (ar.constant)(Scalar::Bits(MINUS_TWENTY)), x),
    )
}

/// The elements of the primitives of a gated product.
proof fn lemma_gelu_element<V>(
    ar: Arith<V>,
    g: GraphV,
    given: spec_fn(TensorId, int) -> V,
    gate: TensorId,
    up: TensorId,
    up_off: usize,
    i: int,
)
    requires
        g.room(12),
        g.gelu_mul_step(gate, up, up_off).1 is Ok,
    ensures
        ({
            let (h, out) = g.gelu_mul_step(gate, up, up_off);
            element(ar, h, given, out->Ok_0, i) == ar.product(
                gelu(ar, element(ar, h, given, gate, i)),
                element(ar, h, given, up, up_off + i),
            )
        }),
{
    let (h, out) = g.gelu_mul_step(gate, up, up_off);
    let m = g.nodes.len() as int;
    let t = |k: int| TensorId((m + k) as u32);
    assert(g.shape(gate) =~= seq![g.shape(gate)[0]]);
    let x = element(ar, h, given, gate, i);
    let k = |bits: u32| (ar.constant)(Scalar::Bits(bits));
    assert(h.at(t(0)).op == (OpV::Mul { a: gate, b: gate }));
    assert(element(ar, h, given, t(0), i) == ar.product(x, x));
    assert(h.at(t(1)).op == (OpV::Mul { a: t(0), b: gate }));
    assert(element(ar, h, given, t(1), i) == ar.product(ar.product(x, x), x));
    assert(h.at(t(2)).op == (OpV::ScaleConst { x: t(1), scale: Scalar::Bits(GELU_CUBIC) }));
    assert(element(ar, h, given, t(2), i) == ar.product(
        k(GELU_CUBIC),
        element(ar, h, given, t(1), i),
    ));
    assert(h.at(t(3)).op == (OpV::Add { a: gate, b: t(2) }));
    assert(element(ar, h, given, t(3), i) == ar.sum(x, element(ar, h, given, t(2), i)));
    assert(h.at(t(4)).op == (OpV::ScaleConst { x: t(3), scale: Scalar::Bits(SQRT_2_OVER_PI) }));
    assert(element(ar, h, given, t(4), i) == ar.product(
        k(SQRT_2_OVER_PI),
        element(ar, h, given, t(3), i),
    ));
    assert(h.at(t(5)).op == (OpV::Tanh { x: t(4) }));
    assert(element(ar, h, given, t(5), i) == (ar.unary)(
        UnaryOp::Tanh,
        element(ar, h, given, t(4), i),
    ));
    assert(h.at(t(6)).op is Const);
    assert(element(ar, h, given, t(6), i) == k(ONE));
    assert(h.at(t(7)).op == (OpV::Add { a: t(6), b: t(5) }));
    assert(element(ar, h, given, t(7), i) == ar.sum(k(ONE), element(ar, h, given, t(5), i)));
    assert(h.at(t(8)).op == (OpV::ScaleConst { x: gate, scale: Scalar::Bits(HALF) }));
    assert(element(ar, h, given, t(8), i) == ar.product(k(HALF), x));
    assert(h.at(t(9)).op == (OpV::Mul { a: t(8), b: t(7) }));
    assert(element(ar, h, given, t(9), i) == gelu(ar, x));
    assert(h.at(t(10)).op is CopySlice);
    assert(element(ar, h, given, t(10), i) == element(ar, h, given, up, up_off + i));
    assert(h.at(t(11)).op == (OpV::Mul { a: t(9), b: t(10) }));
}

/// The statements that take the approximate GELU of an expression.
pub proof fn lemma_gelu_steps<V>(
    ar: Arith<V>,
    l: Lane<V>,
    r: Regs<V>,
    x: KirExpr,
    ax: u32,
    u: u32,
    to: u32,
)
    requires
        ax != u,
        ax != to,
        u != to,
    ensures
        ({
            let p = run(ar, l, gelu_code(code(), x, ax, u, to), r);
            &&& p == (Regs { f: p.f, ..r })
            &&& p.f[to] == gelu(ar, clamped(ar, value(ar, l, r, x)))
            &&& forall|i: u32| i != ax && i != u && i != to ==> #[trigger] p.f[i] == r.f[i]
        }),
{
    let y = clamped(ar, value(ar, l, r, x));
    let s1 = let_f(ax, smaller(c(TWENTY), larger(c(MINUS_TWENTY), x)));
    let square = times(v(ax), v(ax));
    let cube = times(square, v(ax));
    let cubic = times(c(GELU_CUBIC), cube);
    let inner = plus(v(ax), cubic);
    let s2 = let_f(u, times(c(SQRT_2_OVER_PI), inner));
    let half = times(c(HALF), v(ax));
    let bent = plus(c(ONE), un(UnaryOp::Tanh, v(u)));
    let s3 = let_f(to, times(half, bent));
    let b1 = code().s(s1);
    let b2 = b1.s(s2);
    lemma_run_one(ar, l, Code::Flat(s1), r);
    lemma_run_push(ar, l, b1, Code::Flat(s2), r);
    lemma_run_push(ar, l, b2, Code::Flat(s3), r);
    let r1 = run(ar, l, b1, r);
    let r2 = run(ar, l, b2, r);
    let k = |bits: u32| (ar.constant)(Scalar::Bits(bits));
    assert(value(ar, l, r, c(TWENTY)) == k(TWENTY));
    assert(value(ar, l, r, c(MINUS_TWENTY)) == k(MINUS_TWENTY));
    assert(value(ar, l, r, larger(c(MINUS_TWENTY), x)) == (ar.binary)(
        BinOp::Max,
        k(MINUS_TWENTY),
        value(ar, l, r, x),
    ));
    assert(r1.f[ax] == y);
    assert(value(ar, l, r1, v(ax)) == y);
    assert(value(ar, l, r1, square) == ar.product(y, y));
    assert(value(ar, l, r1, cube) == ar.product(ar.product(y, y), y));
    assert(value(ar, l, r1, c(GELU_CUBIC)) == k(GELU_CUBIC));
    assert(value(ar, l, r1, cubic) == ar.product(k(GELU_CUBIC), value(ar, l, r1, cube)));
    assert(value(ar, l, r1, inner) == ar.sum(y, value(ar, l, r1, cubic)));
    assert(value(ar, l, r1, c(SQRT_2_OVER_PI)) == k(SQRT_2_OVER_PI));
    assert(r2.f[u] == ar.product(k(SQRT_2_OVER_PI), value(ar, l, r1, inner)));
    assert(value(ar, l, r2, v(ax)) == y);
    assert(value(ar, l, r2, v(u)) == r2.f[u]);
    assert(value(ar, l, r2, c(HALF)) == k(HALF));
    assert(value(ar, l, r2, half) == ar.product(k(HALF), y));
    assert(value(ar, l, r2, c(ONE)) == k(ONE));
    assert(value(ar, l, r2, un(UnaryOp::Tanh, v(u))) == (ar.unary)(UnaryOp::Tanh, r2.f[u]));
    assert(value(ar, l, r2, bent) == ar.sum(k(ONE), (ar.unary)(UnaryOp::Tanh, r2.f[u])));
    assert(gelu_code(code(), x, ax, u, to) == b2.s(s3));
}

/// What the kernel of a gated product stores.
proof fn lemma_gelu_kernel<V>(ar: Arith<V>, l: Lane<V>, up_off: usize, dt: DType)
    requires
        0 <= l.gid,
        up_off + l.gid <= u32::MAX,
    ensures
        run(ar, l, gelu_mul_code(up_off, 2, dt, 0), blank()).stored == Map::empty().insert(
            (2u32, l.gid),
            ar.product(
                gelu(ar, clamped(ar, (l.bufs)(0, l.gid))),
                (l.bufs)(1, up_off + l.gid),
            ),
        ),
{
    reveal(gelu_mul_code);
    let x = (l.bufs)(0, l.gid);
    let y = clamped(ar, x);
    let s0 = let_f(0, ld(0, gid(), dt));
    let s1 = let_f(1, smaller(c(TWENTY), larger(c(MINUS_TWENTY), v(0))));
    let cube = times(times(v(1), v(1)), v(1));
    let inner = plus(v(1), times(c(GELU_CUBIC), cube));
    let s2 = let_f(2, times(c(SQRT_2_OVER_PI), inner));
    let s3 = let_f(
        3,
        times(times(c(HALF), v(1)), plus(c(ONE), un(UnaryOp::Tanh, v(2)))),
    );
    let at = plus(cu(up_off as u32), gid());
    let s4 = store(2, gid(), times(v(3), ld(1, at, dt)));
    let b1 = code().s(s0);
    let b2 = b1.s(s1);
    let b3 = b2.s(s2);
    let b4 = b3.s(s3);
    lemma_run_one(ar, l, Code::Flat(s0), blank());
    lemma_run_push(ar, l, b1, Code::Flat(s1), blank());
    lemma_run_push(ar, l, b2, Code::Flat(s2), blank());
    lemma_run_push(ar, l, b3, Code::Flat(s3), blank());
    lemma_run_push(ar, l, b4, Code::Flat(s4), blank());
    let r1 = run(ar, l, b1, blank());
    let r2 = run(ar, l, b2, blank());
    let r3 = run(ar, l, b3, blank());
    let r4 = run(ar, l, b4, blank());
    reveal_with_fuel(value, 6);
    reveal_with_fuel(index, 3);
    assert(r1.f[0] == x);
    assert(r2.f[1] == y);
    assert(r3.f[1] == y);
    assert(value(ar, l, r2, cube) == ar.product(ar.product(y, y), y));
    assert(value(ar, l, r2, inner) == ar.sum(
        y,
        ar.product((ar.constant)(Scalar::Bits(GELU_CUBIC)), value(ar, l, r2, cube)),
    ));
    assert(r4.f[3] == gelu(ar, y));
    assert(index(ar, l, r4, at) == up_off + l.gid);
    assert(r4.stored == Map::<(u32, int), V>::empty());
    assert(gelu_mul_code(up_off, 2, dt, 0) == b4.s(s4));
}

/// The kernel that is scheduled for a gated product computes what its primitives compute, in any
/// arithmetic: where the buffers hold both factors, thread `i` stores element `i` of the output and
/// nothing else. Left out are elements of the first factor beyond twenty either way, which the
/// kernel brings to twenty.
pub proof fn lemma_gelu_mul_fused<V>(
    ar: Arith<V>,
    g: GraphV,
    given: spec_fn(TensorId, int) -> V,
    gate: TensorId,
    up: TensorId,
    up_off: usize,
    sched: OptSchedule,
    l: Lane<V>,
)
    requires
        g.room(12),
        g.gelu_mul_step(gate, up, up_off).1 is Ok,
        bound(
            l.bufs,
            elements(ar, g.gelu_mul_step(gate, up, up_off).0, given),
            seq![gate, up],
        ),
        0 <= l.gid,
        up_off + l.gid <= u32::MAX,
        clamped(ar, (l.bufs)(0, l.gid)) == (l.bufs)(0, l.gid),
    ensures
        ({
            let (h, out) = g.gelu_mul_step(gate, up, up_off);
            match scheduled(h, out->Ok_0) {
                Ok(k) => match lowered_in(h, k, sched) {
                    Ok(ir) => {
                        &&& k.inputs == seq![gate, up]
                        &&& ir.launch == (KirLaunch::Elementwise { n: g.shape(gate)[0] })
                        &&& run(ar, l, ir.body, blank()).stored == Map::empty().insert(
                            (2u32, l.gid),
                            element(ar, h, given, out->Ok_0, l.gid),
                        )
                    },
                    Err(_) => false,
                },
                Err(_) => false,
            }
        }),
{
    reveal(other_body);
    let (h, out) = g.gelu_mul_step(gate, up, up_off);
    let ins = seq![gate, up];
    assert(g.shape(gate) =~= seq![g.shape(gate)[0]]);
    lemma_gelu_element(ar, g, given, gate, up, up_off, l.gid);
    lemma_gelu_kernel(ar, l, up_off, h.dtype(out->Ok_0));
    lemma_bound(l.bufs, elements(ar, h, given), ins, 0, l.gid);
    lemma_bound(l.bufs, elements(ar, h, given), ins, 1, up_off + l.gid);
}

} // verus!
