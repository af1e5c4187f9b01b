//! Bodies of the elementwise, copying, packing and index kernels.

use vstd::prelude::*;

use crate::codegen::lower::block::{
    accumulate, assign, c, code, cs, cu, equal, fresh, gid, gt, larger, ld, let_f, let_u, lid, over,
    plus, reduce, smaller, store, times, to_float, un, uv, v, Block, Extend,
};
use crate::ir::dtype::{
    DType, Scalar, GELU_CUBIC, HALF, LOWEST, MINUS_TWENTY, ONE, SQRT_2_OVER_PI, TWENTY, ZERO,
};
use crate::ir::kernel::{Code, ElemExpr, KirExpr, KirStmt, UnaryOp};

verus! {

/// An elementwise computation at position `gid`.
pub open spec fn elem_at_gid(e: ElemExpr, dt: DType) -> KirExpr
    decreases e,
{
    match e {
        ElemExpr::Load(i) => ld(i as u32, gid(), dt),
        ElemExpr::Add(a, b) => plus(elem_at_gid(*a, dt), elem_at_gid(*b, dt)),
        ElemExpr::Mul(a, b) => times(elem_at_gid(*a, dt), elem_at_gid(*b, dt)),
        ElemExpr::Scale(a, s) => times(cs(s), elem_at_gid(*a, dt)),
    }
}

fn elem_kir(e: &ElemExpr, dt: DType) -> (r: KirExpr)
    ensures
        r == elem_at_gid(*e, dt),
    decreases *e,
{
    match e {
        ElemExpr::Load(i) => ld(*i as u32, gid(), dt),
        ElemExpr::Add(a, b) => plus(elem_kir(a, dt), elem_kir(b, dt)),
        ElemExpr::Mul(a, b) => times(elem_kir(a, dt), elem_kir(b, dt)),
        ElemExpr::Scale(a, s) => times(cs(*s), elem_kir(a, dt)),
    }
}

/// `out[gid] = expr`.
pub open spec fn elemwise_code(e: ElemExpr, n_in: u32, dt: DType) -> Seq<Code> {
    code().s(store(n_in, gid(), elem_at_gid(e, dt)))
}

pub fn lower_elemwise(e: &ElemExpr, n_in: u32, dt: DType) -> (r: Block)
    ensures
        r@ == elemwise_code(*e, n_in, dt),
{
    Block::new().s(store(n_in, gid(), elem_kir(e, dt)))
}

/// `out[dst_off + gid] = in0[src_off + gid]`.
pub open spec fn copy_slice_code(
    src_off: usize,
    dst_off: usize,
    n_in: u32,
    dt: DType,
) -> Seq<Code> {
    code().s(
        store(n_in, plus(cu(dst_off as u32), gid()), ld(0, plus(cu(src_off as u32), gid()), dt)),
    )
}

pub fn lower_copy_slice(src_off: usize, dst_off: usize, n_in: u32, dt: DType) -> (r: Block)
    ensures
        r@ == copy_slice_code(src_off, dst_off, n_in, dt),
{
    Block::new().s(
        store(n_in, plus(cu(dst_off as u32), gid()), ld(0, plus(cu(src_off as u32), gid()), dt)),
    )
}

/// `out[dst_off + gid] = scale * in0[src_off + gid]`.
pub open spec fn copy_scale_code(
    src_off: usize,
    dst_off: usize,
    scale: Scalar,
    n_in: u32,
    dt: DType,
) -> Seq<Code> {
    code().s(
        store(
            n_in,
            plus(cu(dst_off as u32), gid()),
            times(cs(scale), ld(0, plus(cu(src_off as u32), gid()), dt)),
        ),
    )
}

pub fn lower_copy_scale(
    src_off: usize,
    dst_off: usize,
    scale: Scalar,
    n_in: u32,
    dt: DType,
) -> (r: Block)
    ensures
        r@ == copy_scale_code(src_off, dst_off, scale, n_in, dt),
{
    Block::new().s(
        store(
            n_in,
            plus(cu(dst_off as u32), gid()),
            times(cs(scale), ld(0, plus(cu(src_off as u32), gid()), dt)),
        ),
    )
}

/// Packs block `gid` of `in0` as Q4_0.
pub open spec fn quantize_code(n_in: u32) -> Seq<Code> {
    code().s(
        KirStmt::Q40PackBlock {
            dst_buf: n_in,
            block: gid(),
            src_buf: 0,
            src_elem: times(gid(), cu(32)),
        },
    )
}

pub fn lower_quantize_q40(n_in: u32) -> (r: Block)
    ensures
        r@ == quantize_code(n_in),
{
    Block::new().s(
        KirStmt::Q40PackBlock {
            dst_buf: n_in,
            block: gid(),
            src_buf: 0,
            src_elem: times(gid(), cu(32)),
        },
    )
}

/// Three more statements: `x` clamped to twenty either way into `ax`, the argument of the
/// hyperbolic tangent into `u`, and the approximate GELU of the clamped `x` into `gelu`.
pub open spec fn gelu_code(b: Seq<Code>, x: KirExpr, ax: u32, u: u32, gelu: u32) -> Seq<Code> {
    b
        .s(let_f(ax, smaller(c(TWENTY), larger(c(MINUS_TWENTY), x))))
        .s(
            let_f(
                u,
                times(
                    c(SQRT_2_OVER_PI),
                    plus(v(ax), times(c(GELU_CUBIC), times(times(v(ax), v(ax)), v(ax)))),
                ),
            ),
        )
        .s(let_f(gelu, times(times(c(HALF), v(ax)), plus(c(ONE), un(UnaryOp::Tanh, v(u))))))
}

pub fn emit_gelu_of(b: Block, x: KirExpr, ax: u32, u: u32, gelu: u32) -> (r: Block)
    ensures
        r@ == gelu_code(b@, x, ax, u, gelu),
{
    b
        .s(let_f(ax, smaller(c(TWENTY), larger(c(MINUS_TWENTY), x))))
        .s(
            let_f(
                u,
                times(
                    c(SQRT_2_OVER_PI),
                    plus(v(ax), times(c(GELU_CUBIC), times(times(v(ax), v(ax)), v(ax)))),
                ),
            ),
        )
        .s(let_f(gelu, times(times(c(HALF), v(ax)), plus(c(ONE), un(UnaryOp::Tanh, v(u))))))
}

/// `out[gid] = gelu(in0[gid]) * in1[up_off + gid]`.
#[verifier::opaque]
pub open spec fn gelu_mul_code(up_off: usize, n_in: u32, dt: DType, n0: u32) -> Seq<Code> {
    gelu_code(
        code().s(let_f(n0, ld(0, gid(), dt))),
        v(n0),
        (n0 + 1) as u32,
        (n0 + 2) as u32,
        (n0 + 3) as u32,
    )
        .s(store(n_in, gid(), times(v((n0 + 3) as u32), ld(1, plus(cu(up_off as u32), gid()), dt))))
}

pub fn lower_gelu_mul(up_off: usize, n_in: u32, dt: DType, next: &mut u32) -> (r: Block)
    requires
        *old(next) + 4 <= u32::MAX,
    ensures
        r@ == gelu_mul_code(up_off, n_in, dt, *old(next)),
        *final(next) == *old(next) + 4,
{
    proof {
        reveal(gelu_mul_code);
    }
    let x: u32 = fresh(next);
    let ax: u32 = fresh(next);
    let u: u32 = fresh(next);
    let gelu: u32 = fresh(next);
    emit_gelu_of(Block::new().s(let_f(x, ld(0, gid(), dt))), v(x), ax, u, gelu)
        .s(store(n_in, gid(), times(v(gelu), ld(1, plus(cu(up_off as u32), gid()), dt))))
}

/// `out[gid]` is the sum of row `gid` of `in0`.
#[verifier::opaque]
pub open spec fn sum_last_code(cols: usize, dt: DType, tg: u64, n0: u32) -> Seq<Code> {
    let acc = n0;
    let k = (n0 + 1) as u32;
    let base = (n0 + 2) as u32;
    code()
        .s(let_u(base, times(gid(), cu(cols as u32))))
        .s(let_f(acc, c(ZERO)))
        .s(let_u(k, lid()))
        .range(k, cu(cols as u32), cu(tg as u32), code()
            .s(accumulate(acc, ld(0, plus(uv(base), uv(k)), dt))))
        .s(reduce(acc, tg))
        .when(equal(lid(), cu(0)), code().s(store(1, gid(), v(acc))))
}

pub fn lower_sum_last(cols: usize, dt: DType, tg: u64, next: &mut u32) -> (r: Block)
    requires
        *old(next) + 3 <= u32::MAX,
    ensures
        r@ == sum_last_code(cols, dt, tg, *old(next)),
        *final(next) == *old(next) + 3,
{
    proof {
        reveal(sum_last_code);
    }
    let acc: u32 = fresh(next);
    let k: u32 = fresh(next);
    let base: u32 = fresh(next);
    Block::new()
        .s(let_u(base, times(gid(), cu(cols as u32))))
        .s(let_f(acc, c(ZERO)))
        .s(let_u(k, lid()))
        .range(k, cu(cols as u32), cu(tg as u32), Block::new()
            .s(accumulate(acc, ld(0, plus(uv(base), uv(k)), dt))))
        .s(reduce(acc, tg))
        .when(equal(lid(), cu(0)), Block::new().s(store(1, gid(), v(acc))))
}

/// The index of the first of the largest values of `cap * tanh(in0[i] / cap)`.
#[verifier::opaque]
pub open spec fn softcap_argmax_code(
    n: usize,
    cap: Scalar,
    dt: DType,
    tg: u64,
    n0: u32,
) -> Seq<Code> {
    let best_i = n0;
    let best_v = (n0 + 1) as u32;
    let i = (n0 + 2) as u32;
    let val = (n0 + 3) as u32;
    code()
        .s(let_f(best_v, c(LOWEST)))
        .s(let_f(best_i, c(ZERO)))
        .s(let_u(i, lid()))
        .range(i, cu(n as u32), cu(tg as u32), code()
            .s(let_f(val, times(cs(cap), un(UnaryOp::Tanh, over(ld(0, uv(i), dt), cs(cap))))))
            .when(gt(v(val), v(best_v)), code()
                .s(assign(best_v, v(val)))
                .s(assign(best_i, to_float(uv(i))))))
        .s(KirStmt::ThreadgroupArgmax { val_id: best_v, idx_id: best_i, tg })
        .when(equal(lid(), cu(0)), code().s(store(1, cu(0), v(best_i))))
}

pub fn lower_softcap_argmax(n: usize, cap: Scalar, dt: DType, tg: u64, next: &mut u32) -> (r: Block)
    requires
        *old(next) + 4 <= u32::MAX,
    ensures
        r@ == softcap_argmax_code(n, cap, dt, tg, *old(next)),
        *final(next) == *old(next) + 4,
{
    proof {
        reveal(softcap_argmax_code);
    }
    let best_i: u32 = fresh(next);
    let best_v: u32 = fresh(next);
    let i: u32 = fresh(next);
    let val: u32 = fresh(next);
    Block::new()
        .s(let_f(best_v, c(LOWEST)))
        .s(let_f(best_i, c(ZERO)))
        .s(let_u(i, lid()))
        .range(i, cu(n as u32), cu(tg as u32), Block::new()
            .s(let_f(val, times(cs(cap), un(UnaryOp::Tanh, over(ld(0, uv(i), dt), cs(cap))))))
            .when(gt(v(val), v(best_v)), Block::new()
                .s(assign(best_v, v(val)))
                .s(assign(best_i, to_float(uv(i))))))
        .s(KirStmt::ThreadgroupArgmax { val_id: best_v, idx_id: best_i, tg })
        .when(equal(lid(), cu(0)), Block::new().s(store(1, cu(0), v(best_i))))
}

} // verus!
