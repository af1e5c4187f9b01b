//! Bodies of the normalisation, rotation and packing kernels.

use vstd::prelude::*;

use crate::codegen::lower::block::{
    accumulate, barrier, cn, code, cs, c, cu, fresh, fv, gid, ld, lid, minus, over, plus, let_f,
    let_u, reduce, store, tg_decl, tg_load, tg_store, th_decl, th_load, th_store, times, un, uv, v,
    Block, Extend,
};
use crate::ir::dtype::{DType, Scalar, ZERO};
use crate::ir::kernel::{Code, KirStmt, UnaryOp};

verus! {

/// Normalises `x` into threadgroup array 0: `x[i] * rsqrt(mean(x * x) + eps) * w[i]`.
#[verifier::opaque]
pub open spec fn xhat_code(
    n: usize,
    eps: Scalar,
    x_buf: u32,
    w_buf: u32,
    tg: u64,
    dt: DType,
    n0: u32,
) -> Seq<Code> {
    let ss = n0;
    let i = (n0 + 1) as u32;
    let inv = (n0 + 2) as u32;
    let i2 = (n0 + 3) as u32;
    code()
        .s(tg_decl(0, n))
        .s(let_f(ss, c(ZERO)))
        .s(let_u(i, lid()))
        .range(i, cu(n as u32), cu(tg as u32), code()
            .s(accumulate(ss, times(ld(x_buf, uv(i), dt), ld(x_buf, uv(i), dt)))))
        .s(reduce(ss, tg))
        .s(let_f(inv, un(UnaryOp::Rsqrt, plus(over(v(ss), cn(n)), cs(eps)))))
        .s(let_u(i2, lid()))
        .range(i2, cu(n as u32), cu(tg as u32), code()
            .s(tg_store(0, uv(i2), times(times(ld(x_buf, uv(i2), dt), v(inv)), ld(w_buf, uv(i2), dt)))))
        .s(barrier())
}

pub fn lower_stage_xhat_local(
    n: usize,
    eps: Scalar,
    x_buf: u32,
    w_buf: u32,
    tg: u64,
    dt: DType,
    next: &mut u32,
) -> (r: Block)
    requires
        *old(next) + 4 <= u32::MAX,
    ensures
        r@ == xhat_code(n, eps, x_buf, w_buf, tg, dt, *old(next)),
        *final(next) == *old(next) + 4,
{
    proof {
        reveal(xhat_code);
    }
    let ss: u32 = fresh(next);
    let i: u32 = fresh(next);
    let inv: u32 = fresh(next);
    let i2: u32 = fresh(next);
    Block::new()
        .s(tg_decl(0, n))
        .s(let_f(ss, c(ZERO)))
        .s(let_u(i, lid()))
        .range(i, cu(n as u32), cu(tg as u32), Block::new()
            .s(accumulate(ss, times(ld(x_buf, uv(i), dt), ld(x_buf, uv(i), dt)))))
        .s(reduce(ss, tg))
        .s(let_f(inv, un(UnaryOp::Rsqrt, plus(over(v(ss), cn(n)), cs(eps)))))
        .s(let_u(i2, lid()))
        .range(i2, cu(n as u32), cu(tg as u32), Block::new()
            .s(tg_store(0, uv(i2), times(times(ld(x_buf, uv(i2), dt), v(inv)), ld(w_buf, uv(i2), dt)))))
        .s(barrier())
}

/// `x * rsqrt(mean(x * x) + eps) * w`, then the residual and the scale where there are any.
/// Buffers: 0 = x, 1 = w, 2 = residual.
#[verifier::opaque]
pub open spec fn rmsnorm_code(
    n: usize,
    eps: Scalar,
    add_res: bool,
    scale: Option<Scalar>,
    out_buf: u32,
    dt: DType,
    tg: u64,
    n0: u32,
) -> Seq<Code> {
    let ss = n0;
    let i = (n0 + 1) as u32;
    let inv = (n0 + 2) as u32;
    let j = (n0 + 3) as u32;
    let normed = times(times(ld(0, uv(j), dt), v(inv)), ld(1, uv(j), dt));
    let summed = if add_res {
        plus(normed, ld(2, uv(j), dt))
    } else {
        normed
    };
    let val = match scale {
        Some(sc) => times(cs(sc), summed),
        None => summed,
    };
    code()
        .s(let_f(ss, c(ZERO)))
        .s(let_u(i, lid()))
        .range(i, cu(n as u32), cu(tg as u32), code()
            .s(accumulate(ss, times(ld(0, uv(i), dt), ld(0, uv(i), dt)))))
        .s(reduce(ss, tg))
        .s(let_f(inv, un(UnaryOp::Rsqrt, plus(over(v(ss), cn(n)), cs(eps)))))
        .s(let_u(j, lid()))
        .range(j, cu(n as u32), cu(tg as u32), code()
            .s(store(out_buf, uv(j), val)))
}

pub fn lower_rmsnorm(
    n: usize,
    eps: Scalar,
    add_res: bool,
    scale: Option<Scalar>,
    out_buf: u32,
    dt: DType,
    tg: u64,
    next: &mut u32,
) -> (r: Block)
    requires
        *old(next) + 4 <= u32::MAX,
    ensures
        r@ == rmsnorm_code(n, eps, add_res, scale, out_buf, dt, tg, *old(next)),
        *final(next) == *old(next) + 4,
{
    proof {
        reveal(rmsnorm_code);
    }
    let ss: u32 = fresh(next);
    let i: u32 = fresh(next);
    let inv: u32 = fresh(next);
    let j: u32 = fresh(next);
    let normed = times(times(ld(0, uv(j), dt), v(inv)), ld(1, uv(j), dt));
    let summed = if add_res {
        plus(normed, ld(2, uv(j), dt))
    } else {
        normed
    };
    let val = match scale {
        Some(sc) => times(cs(sc), summed),
        None => summed,
    };
    Block::new()
        .s(let_f(ss, c(ZERO)))
        .s(let_u(i, lid()))
        .range(i, cu(n as u32), cu(tg as u32), Block::new()
            .s(accumulate(ss, times(ld(0, uv(i), dt), ld(0, uv(i), dt)))))
        .s(reduce(ss, tg))
        .s(let_f(inv, un(UnaryOp::Rsqrt, plus(over(v(ss), cn(n)), cs(eps)))))
        .s(let_u(j, lid()))
        .range(j, cu(n as u32), cu(tg as u32), Block::new()
            .s(store(out_buf, uv(j), val)))
}

/// `out0 = residual + rms(y) * w_post`, then `out1 = rms(out0) * w_ffn`, with `out0` staged between.
/// Buffers: 0 = y, 1 = w_post, 2 = residual, 3 = w_ffn, 4 and 5 = outputs.
#[verifier::opaque]
pub open spec fn rmsnorm_twice_code(
    n: usize,
    eps: Scalar,
    dt: DType,
    tg: u64,
    n0: u32,
) -> Seq<Code> {
    let ss = n0;
    let i = (n0 + 1) as u32;
    let inv = (n0 + 2) as u32;
    let j = (n0 + 3) as u32;
    let ss2 = (n0 + 4) as u32;
    let i2 = (n0 + 5) as u32;
    let inv2 = (n0 + 6) as u32;
    let j2 = (n0 + 7) as u32;
    code()
        .s(tg_decl(0, n))
        .s(let_f(ss, c(ZERO)))
        .s(let_u(i, lid()))
        .range(i, cu(n as u32), cu(tg as u32), code()
            .s(accumulate(ss, times(ld(0, uv(i), dt), ld(0, uv(i), dt)))))
        .s(reduce(ss, tg))
        .s(let_f(inv, un(UnaryOp::Rsqrt, plus(over(v(ss), cn(n)), cs(eps)))))
        .s(let_u(j, lid()))
        .range(j, cu(n as u32), cu(tg as u32), code()
            .s(
                tg_store(
                    0,
                    uv(j),
                    plus(
                        ld(2, uv(j), dt),
                        times(times(ld(0, uv(j), dt), v(inv)), ld(1, uv(j), dt)),
                    ),
                ),
            )
            .s(store(4, uv(j), plus(ld(2, uv(j), dt), times(times(ld(0, uv(j), dt), v(inv)), ld(1, uv(j), dt))))))
        .s(barrier())
        .s(let_f(ss2, c(ZERO)))
        .s(let_u(i2, lid()))
        .range(i2, cu(n as u32), cu(tg as u32), code()
            .s(accumulate(ss2, times(tg_load(0, uv(i2)), tg_load(0, uv(i2))))))
        .s(reduce(ss2, tg))
        .s(let_f(inv2, un(UnaryOp::Rsqrt, plus(over(v(ss2), cn(n)), cs(eps)))))
        .s(let_u(j2, lid()))
        .range(j2, cu(n as u32), cu(tg as u32), code()
            .s(store(5, uv(j2), times(times(tg_load(0, uv(j2)), v(inv2)), ld(3, uv(j2), dt)))))
}

pub fn lower_rmsnorm_add_then_rmsnorm(
    n: usize,
    eps: Scalar,
    dt: DType,
    tg: u64,
    next: &mut u32,
) -> (r: Block)
    requires
        *old(next) + 8 <= u32::MAX,
    ensures
        r@ == rmsnorm_twice_code(n, eps, dt, tg, *old(next)),
        *final(next) == *old(next) + 8,
{
    proof {
        reveal(rmsnorm_twice_code);
    }
    let ss: u32 = fresh(next);
    let i: u32 = fresh(next);
    let inv: u32 = fresh(next);
    let j: u32 = fresh(next);
    let ss2: u32 = fresh(next);
    let i2: u32 = fresh(next);
    let inv2: u32 = fresh(next);
    let j2: u32 = fresh(next);
    Block::new()
        .s(tg_decl(0, n))
        .s(let_f(ss, c(ZERO)))
        .s(let_u(i, lid()))
        .range(i, cu(n as u32), cu(tg as u32), Block::new()
            .s(accumulate(ss, times(ld(0, uv(i), dt), ld(0, uv(i), dt)))))
        .s(reduce(ss, tg))
        .s(let_f(inv, un(UnaryOp::Rsqrt, plus(over(v(ss), cn(n)), cs(eps)))))
        .s(let_u(j, lid()))
        .range(j, cu(n as u32), cu(tg as u32), Block::new()
            .s(
                tg_store(
                    0,
                    uv(j),
                    plus(
                        ld(2, uv(j), dt),
                        times(times(ld(0, uv(j), dt), v(inv)), ld(1, uv(j), dt)),
                    ),
                ),
            )
            .s(store(4, uv(j), plus(ld(2, uv(j), dt), times(times(ld(0, uv(j), dt), v(inv)), ld(1, uv(j), dt))))))
        .s(barrier())
        .s(let_f(ss2, c(ZERO)))
        .s(let_u(i2, lid()))
        .range(i2, cu(n as u32), cu(tg as u32), Block::new()
            .s(accumulate(ss2, times(tg_load(0, uv(i2)), tg_load(0, uv(i2))))))
        .s(reduce(ss2, tg))
        .s(let_f(inv2, un(UnaryOp::Rsqrt, plus(over(v(ss2), cn(n)), cs(eps)))))
        .s(let_u(j2, lid()))
        .range(j2, cu(n as u32), cu(tg as u32), Block::new()
            .s(store(5, uv(j2), times(times(tg_load(0, uv(j2)), v(inv2)), ld(3, uv(j2), dt)))))
}

/// Normalises the `hd` elements of head `gid` into a buffer.
#[verifier::opaque]
pub open spec fn rmsnorm_per_head_code(
    hd: usize,
    eps: Scalar,
    with_weight: bool,
    x_buf: u32,
    w_buf: u32,
    out_buf: u32,
    dt: DType,
    n0: u32,
) -> Seq<Code> {
    let base = n0;
    let ss = (n0 + 1) as u32;
    let i = (n0 + 2) as u32;
    let inv = (n0 + 3) as u32;
    let j = (n0 + 4) as u32;
    let normed = times(ld(x_buf, plus(v(base), fv(j)), dt), v(inv));
    let val = if with_weight {
        times(normed, ld(w_buf, fv(j), dt))
    } else {
        normed
    };
    code()
        .s(let_f(base, times(gid(), cu(hd as u32))))
        .s(let_f(ss, c(ZERO)))
        .each(i, hd, code()
            .s(accumulate(ss, times(ld(x_buf, plus(v(base), fv(i)), dt), ld(x_buf, plus(v(base), fv(i)), dt)))))
        .s(let_f(inv, un(UnaryOp::Rsqrt, plus(over(v(ss), cn(hd)), cs(eps)))))
        .each(j, hd, code().s(store(out_buf, plus(v(base), fv(j)), val)))
}

pub fn lower_rmsnorm_per_head(
    hd: usize,
    eps: Scalar,
    with_weight: bool,
    x_buf: u32,
    w_buf: u32,
    out_buf: u32,
    dt: DType,
    next: &mut u32,
) -> (r: Block)
    requires
        *old(next) + 5 <= u32::MAX,
    ensures
        r@ == rmsnorm_per_head_code(hd, eps, with_weight, x_buf, w_buf, out_buf, dt, *old(next)),
        *final(next) == *old(next) + 5,
{
    proof {
        reveal(rmsnorm_per_head_code);
    }
    let base: u32 = fresh(next);
    let ss: u32 = fresh(next);
    let i: u32 = fresh(next);
    let inv: u32 = fresh(next);
    let j: u32 = fresh(next);
    let normed = times(ld(x_buf, plus(v(base), fv(j)), dt), v(inv));
    let val = if with_weight {
        times(normed, ld(w_buf, fv(j), dt))
    } else {
        normed
    };
    Block::new()
        .s(let_f(base, times(gid(), cu(hd as u32))))
        .s(let_f(ss, c(ZERO)))
        .each(i, hd, Block::new()
            .s(accumulate(ss, times(ld(x_buf, plus(v(base), fv(i)), dt), ld(x_buf, plus(v(base), fv(i)), dt)))))
        .s(let_f(inv, un(UnaryOp::Rsqrt, plus(over(v(ss), cn(hd)), cs(eps)))))
        .each(j, hd, Block::new().s(store(out_buf, plus(v(base), fv(j)), val)))
}

/// Normalises the `hd` elements of head `gid` into a thread array.
#[verifier::opaque]
pub open spec fn rmsnorm_to_thread_code(
    hd: usize,
    eps: Scalar,
    with_weight: bool,
    x_buf: u32,
    w_buf: u32,
    th_id: u32,
    dt: DType,
    n0: u32,
) -> Seq<Code> {
    let base = n0;
    let ss = (n0 + 1) as u32;
    let i = (n0 + 2) as u32;
    let inv = (n0 + 3) as u32;
    let j = (n0 + 4) as u32;
    let normed = times(ld(x_buf, plus(v(base), fv(j)), dt), v(inv));
    let val = if with_weight {
        times(normed, ld(w_buf, fv(j), dt))
    } else {
        normed
    };
    code()
        .s(let_f(base, times(gid(), cu(hd as u32))))
        .s(let_f(ss, c(ZERO)))
        .each(i, hd, code()
            .s(accumulate(ss, times(ld(x_buf, plus(v(base), fv(i)), dt), ld(x_buf, plus(v(base), fv(i)), dt)))))
        .s(let_f(inv, un(UnaryOp::Rsqrt, plus(over(v(ss), cn(hd)), cs(eps)))))
        .each(j, hd, code().s(th_store(th_id, fv(j), val)))
}

fn lower_rmsnorm_per_head_to_thread(
    hd: usize,
    eps: Scalar,
    with_weight: bool,
    x_buf: u32,
    w_buf: u32,
    th_id: u32,
    dt: DType,
    next: &mut u32,
) -> (r: Block)
    requires
        *old(next) + 5 <= u32::MAX,
    ensures
        r@ == rmsnorm_to_thread_code(hd, eps, with_weight, x_buf, w_buf, th_id, dt, *old(next)),
        *final(next) == *old(next) + 5,
{
    proof {
        reveal(rmsnorm_to_thread_code);
    }
    let base: u32 = fresh(next);
    let ss: u32 = fresh(next);
    let i: u32 = fresh(next);
    let inv: u32 = fresh(next);
    let j: u32 = fresh(next);
    let normed = times(ld(x_buf, plus(v(base), fv(j)), dt), v(inv));
    let val = if with_weight {
        times(normed, ld(w_buf, fv(j), dt))
    } else {
        normed
    };
    Block::new()
        .s(let_f(base, times(gid(), cu(hd as u32))))
        .s(let_f(ss, c(ZERO)))
        .each(i, hd, Block::new()
            .s(accumulate(ss, times(ld(x_buf, plus(v(base), fv(i)), dt), ld(x_buf, plus(v(base), fv(i)), dt)))))
        .s(let_f(inv, un(UnaryOp::Rsqrt, plus(over(v(ss), cn(hd)), cs(eps)))))
        .each(j, hd, Block::new().s(th_store(th_id, fv(j), val)))
}

/// Rotates the halves of a thread array by the angles in `cos_buf`.
#[verifier::opaque]
pub open spec fn rope_on_thread_code(
    hd: usize,
    th_id: u32,
    cos_buf: u32,
    dt: DType,
    n0: u32,
) -> Seq<Code> {
    let i = n0;
    let u = (n0 + 1) as u32;
    let vv = (n0 + 2) as u32;
    let cos = (n0 + 3) as u32;
    let sin = (n0 + 4) as u32;
    let half = hd / 2;
    code().each(i, half, code()
        .s(let_f(cos, ld(cos_buf, fv(i), dt)))
        .s(let_f(sin, ld(cos_buf, plus(cu(half as u32), fv(i)), dt)))
        .s(let_f(u, th_load(th_id, fv(i))))
        .s(let_f(vv, th_load(th_id, plus(cu(half as u32), fv(i)))))
        .s(th_store(th_id, fv(i), minus(times(v(u), v(cos)), times(v(vv), v(sin)))))
        .s(th_store(th_id, plus(cu(half as u32), fv(i)), plus(times(v(u), v(sin)), times(v(vv), v(cos))))))
}

fn lower_rope_on_thread(
    hd: usize,
    th_id: u32,
    cos_buf: u32,
    dt: DType,
    next: &mut u32,
) -> (r: Block)
    requires
        *old(next) + 5 <= u32::MAX,
    ensures
        r@ == rope_on_thread_code(hd, th_id, cos_buf, dt, *old(next)),
        *final(next) == *old(next) + 5,
{
    proof {
        reveal(rope_on_thread_code);
    }
    let i: u32 = fresh(next);
    let u: u32 = fresh(next);
    let vv: u32 = fresh(next);
    let cos: u32 = fresh(next);
    let sin: u32 = fresh(next);
    let half: usize = hd / 2;
    Block::new().each(i, half, Block::new()
        .s(let_f(cos, ld(cos_buf, fv(i), dt)))
        .s(let_f(sin, ld(cos_buf, plus(cu(half as u32), fv(i)), dt)))
        .s(let_f(u, th_load(th_id, fv(i))))
        .s(let_f(vv, th_load(th_id, plus(cu(half as u32), fv(i)))))
        .s(th_store(th_id, fv(i), minus(times(v(u), v(cos)), times(v(vv), v(sin)))))
        .s(th_store(th_id, plus(cu(half as u32), fv(i)), plus(times(v(u), v(sin)), times(v(vv), v(cos))))))
}

/// Rotates the halves of head `gid` by the angles in `cos_buf`.
#[verifier::opaque]
pub open spec fn rope_code(
    hd: usize,
    x_buf: u32,
    cos_buf: u32,
    out_buf: u32,
    dt: DType,
    n0: u32,
) -> Seq<Code> {
    let base = n0;
    let i = (n0 + 1) as u32;
    let u = (n0 + 2) as u32;
    let vv = (n0 + 3) as u32;
    let cos = (n0 + 4) as u32;
    let sin = (n0 + 5) as u32;
    let half = hd / 2;
    code()
        .s(let_f(base, times(gid(), cu(hd as u32))))
        .each(i, half, code()
            .s(let_f(cos, ld(cos_buf, fv(i), dt)))
            .s(let_f(sin, ld(cos_buf, plus(cu(half as u32), fv(i)), dt)))
            .s(let_f(u, ld(x_buf, plus(v(base), fv(i)), dt)))
            .s(let_f(vv, ld(x_buf, plus(v(base), plus(cu(half as u32), fv(i))), dt)))
            .s(
                store(
                    out_buf,
                    plus(v(base), fv(i)),
                    minus(times(v(u), v(cos)), times(v(vv), v(sin))),
                ),
            )
            .s(store(out_buf, plus(v(base), plus(cu(half as u32), fv(i))), plus(times(v(u), v(sin)), times(v(vv), v(cos))))))
}

pub fn lower_rope(
    hd: usize,
    x_buf: u32,
    cos_buf: u32,
    out_buf: u32,
    dt: DType,
    next: &mut u32,
) -> (r: Block)
    requires
        *old(next) + 6 <= u32::MAX,
    ensures
        r@ == rope_code(hd, x_buf, cos_buf, out_buf, dt, *old(next)),
        *final(next) == *old(next) + 6,
{
    proof {
        reveal(rope_code);
    }
    let base: u32 = fresh(next);
    let i: u32 = fresh(next);
    let u: u32 = fresh(next);
    let vv: u32 = fresh(next);
    let cos: u32 = fresh(next);
    let sin: u32 = fresh(next);
    let half: usize = hd / 2;
    Block::new()
        .s(let_f(base, times(gid(), cu(hd as u32))))
        .each(i, half, Block::new()
            .s(let_f(cos, ld(cos_buf, fv(i), dt)))
            .s(let_f(sin, ld(cos_buf, plus(cu(half as u32), fv(i)), dt)))
            .s(let_f(u, ld(x_buf, plus(v(base), fv(i)), dt)))
            .s(let_f(vv, ld(x_buf, plus(v(base), plus(cu(half as u32), fv(i))), dt)))
            .s(
                store(
                    out_buf,
                    plus(v(base), fv(i)),
                    minus(times(v(u), v(cos)), times(v(vv), v(sin))),
                ),
            )
            .s(store(out_buf, plus(v(base), plus(cu(half as u32), fv(i))), plus(times(v(u), v(sin)), times(v(vv), v(cos))))))
}

/// Packs a thread array into the Q4_0 blocks of head `gid`.
#[verifier::opaque]
pub open spec fn pack_thread_code(hd: usize, th_id: u32, dst_buf: u32, n0: u32) -> Seq<Code> {
    let b = n0;
    let n_blk = hd / 32;
    code().each(b, n_blk, code()
        .s(KirStmt::Q40PackFromThread {
            dst_buf,
            block: plus(times(gid(), cu(n_blk as u32)), fv(b)),
            th_id,
            th_off: times(fv(b), cu(32)),
        }))
}

fn lower_pack_thread_q40(hd: usize, th_id: u32, dst_buf: u32, next: &mut u32) -> (r: Block)
    requires
        *old(next) + 1 <= u32::MAX,
        hd % 32 == 0,
    ensures
        r@ == pack_thread_code(hd, th_id, dst_buf, *old(next)),
        *final(next) == *old(next) + 1,
{
    proof {
        reveal(pack_thread_code);
    }
    let b: u32 = fresh(next);
    let n_blk: usize = hd / 32;
    Block::new().each(b, n_blk, Block::new()
        .s(KirStmt::Q40PackFromThread {
            dst_buf,
            block: plus(times(gid(), cu(n_blk as u32)), fv(b)),
            th_id,
            th_off: times(fv(b), cu(32)),
        }))
}

/// Normalises, rotates and packs head `gid`. Buffers: 0 = x, 1 = w, 2 = angles, 3 = output.
#[verifier::opaque]
pub open spec fn rmsnorm_rope_q40_code(
    hd: usize,
    eps: Scalar,
    with_weight: bool,
    dt: DType,
    n0: u32,
) -> Seq<Code> {
    code().s(th_decl(0, hd))
        .cat(rmsnorm_to_thread_code(hd, eps, with_weight, 0, 1, 0, dt, n0))
        .cat(rope_on_thread_code(hd, 0, 2, dt, (n0 + 5) as u32))
        .cat(pack_thread_code(hd, 0, 3, (n0 + 10) as u32))
}

pub fn lower_rmsnorm_per_head_rope_q40(
    hd: usize,
    eps: Scalar,
    with_weight: bool,
    dt: DType,
    next: &mut u32,
) -> (r: Block)
    requires
        *old(next) + 11 <= u32::MAX,
        hd % 32 == 0,
    ensures
        r@ == rmsnorm_rope_q40_code(hd, eps, with_weight, dt, *old(next)),
        *final(next) == *old(next) + 11,
{
    proof {
        reveal(rmsnorm_rope_q40_code);
    }
    let b = Block::new().s(th_decl(0, hd));
    let b = b.cat(lower_rmsnorm_per_head_to_thread(hd, eps, with_weight, 0, 1, 0, dt, next));
    let b = b.cat(lower_rope_on_thread(hd, 0, 2, dt, next));
    b.cat(lower_pack_thread_q40(hd, 0, 3, next))
}

/// Normalises and packs head `gid`. Buffers: 0 = x, 1 = w, 2 = output.
#[verifier::opaque]
pub open spec fn rmsnorm_q40_code(
    hd: usize,
    eps: Scalar,
    with_weight: bool,
    dt: DType,
    n0: u32,
) -> Seq<Code> {
    code().s(th_decl(0, hd))
        .cat(rmsnorm_to_thread_code(hd, eps, with_weight, 0, 1, 0, dt, n0))
        .cat(pack_thread_code(hd, 0, 2, (n0 + 5) as u32))
}

pub fn lower_rmsnorm_per_head_q40(
    hd: usize,
    eps: Scalar,
    with_weight: bool,
    dt: DType,
    next: &mut u32,
) -> (r: Block)
    requires
        *old(next) + 6 <= u32::MAX,
        hd % 32 == 0,
    ensures
        r@ == rmsnorm_q40_code(hd, eps, with_weight, dt, *old(next)),
        *final(next) == *old(next) + 6,
{
    proof {
        reveal(rmsnorm_q40_code);
    }
    let b = Block::new().s(th_decl(0, hd));
    let b = b.cat(lower_rmsnorm_per_head_to_thread(hd, eps, with_weight, 0, 1, 0, dt, next));
    b.cat(lower_pack_thread_q40(hd, 0, 2, next))
}

/// Normalises head `gid` into the output and rotates it there.
/// Buffers: 0 = x, 1 = w, 2 = angles, 3 = output.
#[verifier::opaque]
pub open spec fn rmsnorm_rope_code(
    hd: usize,
    eps: Scalar,
    with_weight: bool,
    dt: DType,
    n0: u32,
) -> Seq<Code> {
    rmsnorm_per_head_code(hd, eps, with_weight, 0, 1, 3, dt, n0)
        .cat(rope_code(hd, 3, 2, 3, dt, (n0 + 5) as u32))
}

pub fn lower_rmsnorm_per_head_rope(
    hd: usize,
    eps: Scalar,
    with_weight: bool,
    dt: DType,
    next: &mut u32,
) -> (r: Block)
    requires
        *old(next) + 11 <= u32::MAX,
    ensures
        r@ == rmsnorm_rope_code(hd, eps, with_weight, dt, *old(next)),
        *final(next) == *old(next) + 11,
{
    proof {
        reveal(rmsnorm_rope_code);
    }
    let b = lower_rmsnorm_per_head(hd, eps, with_weight, 0, 1, 3, dt, next);
    b.cat(lower_rope(hd, 3, 2, 3, dt, next))
}

} // verus!
