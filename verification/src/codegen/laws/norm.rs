//! What the kernel of root-mean-square normalisation computes.

use vstd::prelude::*;

use crate::codegen::laws::group::{
    has_put, lemma_all_put, lemma_apart_quiet, lemma_putting, lemma_strided, putting, quiet,
    strided,
};
use crate::codegen::laws::machine::{
    apart, blank, device_writes, fresh_group, group_run, index, lane, lemma_group_push, only_in,
    step, value, Arith, Lane, Regs,
};
use crate::codegen::laws::sums::{lemma_first_turn, lemma_group_total, series, share};
use crate::codegen::lower::block::{
    c, cn, code, cs, ld, let_f, let_u, lid, over, plus, reduce, times, un, uv, v, Extend,
};
use crate::codegen::lower::norm::rmsnorm_code;
use crate::ir::dtype::{DType, Scalar, ZERO};
use crate::ir::kernel::{BinOp, Code, KirExpr, UnaryOp};

verus! {

/// The factor that normalises `n` values: one over the root of their mean square and `eps`.
pub open spec fn inverse_root<V>(ar: Arith<V>, x: spec_fn(int) -> V, n: usize, eps: Scalar) -> V {
    let squares = series(ar, |i: int| ar.product(x(i), x(i)), n as nat);
    let mean = (ar.binary)(BinOp::Div, squares, (ar.constant)(Scalar::Int(n as u64)));
    (ar.unary)(UnaryOp::Rsqrt, ar.sum(mean, (ar.constant)(eps)))
}

/// An element of a vector that is normalised and weighted, then added to a residual and scaled
/// where that is asked for.
pub open spec fn normed<V>(
    ar: Arith<V>,
    x: spec_fn(int) -> V,
    w: spec_fn(int) -> V,
    residual: Option<spec_fn(int) -> V>,
    scale: Option<Scalar>,
    n: usize,
    eps: Scalar,
    i: int,
) -> V {
    let y = ar.product(ar.product(x(i), inverse_root(ar, x, n, eps)), w(i));
    let z = match residual {
        Some(r) => ar.sum(y, r(i)),
        None => y,
    };
    match scale {
        Some(s) => ar.product((ar.constant)(s), z),
        None => z,
    }
}

/// The variables of the kernel.
spec fn with_sum<V>(n0: u32, at: int, sum: V) -> Regs<V> {
    Regs {
        f: Map::empty().insert(n0, sum),
        u: Map::empty().insert((n0 + 1) as u32, at),
        ..blank::<V>()
    }
}

/// Every thread has its share of the squares.
proof fn lemma_squares<V>(
    ar: Arith<V>,
    gid: int,
    bufs: spec_fn(u32, int) -> V,
    n: u32,
    dt: DType,
    tg: u32,
    n0: u32,
)
    requires
        1 <= tg,
        n + tg <= u32::MAX,
        n0 + 4 <= u32::MAX,
    ensures
        ({
            let i = (n0 + 1) as u32;
            let t = |k: int| ar.product(bufs(0, k), bufs(0, k));
            let e = times(ld(0, uv(i), dt), ld(0, uv(i), dt));
            let b = code().s(let_f(n0, c(ZERO))).s(let_u(i, lid())).push(
                strided(n0, i, n, tg, e),
            );
            let g = group_run(ar, gid, bufs, b, fresh_group(tg as nat));
            &&& g.shared == Map::<(u32, int), V>::empty()
            &&& g.stored == Map::<(u32, int), V>::empty()
            &&& g.regs.len() == tg
            &&& forall|k: int|
                0 <= k < tg ==> #[trigger] g.regs[k] == with_sum(
                    n0,
                    g.regs[k].u[i],
                    share(ar, t, tg as int, k, n as nat),
                )
        }),
{
    let i = (n0 + 1) as u32;
    let t = |k: int| ar.product(bufs(0, k), bufs(0, k));
    let e = times(ld(0, uv(i), dt), ld(0, uv(i), dt));
    let s0 = Code::Flat(let_f(n0, c(ZERO)));
    let s1 = Code::Flat(let_u(i, lid()));
    let s2 = strided(n0, i, n, tg, e);
    let g0 = fresh_group::<V>(tg as nat);
    let g1 = group_run(ar, gid, bufs, code().push(s0), g0);
    let g2 = group_run(ar, gid, bufs, code().push(s0).push(s1), g0);
    let g3 = group_run(ar, gid, bufs, code().push(s0).push(s1).push(s2), g0);
    assert(group_run(ar, gid, bufs, code(), g0) == g0);
    lemma_group_push(ar, gid, bufs, code(), s0, g0);
    lemma_group_push(ar, gid, bufs, code().push(s0), s1, g0);
    lemma_group_push(ar, gid, bufs, code().push(s0).push(s1), s2, g0);
    assert forall|k: int| 0 <= k < tg implies #[trigger] step(
        ar,
        lane(gid, bufs, g0, k),
        s0,
        g0.regs[k],
    ) == (Regs { f: Map::empty().insert(n0, ar.zero()), ..blank::<V>() }) by {}
    lemma_apart_quiet(ar, gid, bufs, s0, g0);
    assert forall|k: int| 0 <= k < tg implies #[trigger] step(
        ar,
        lane(gid, bufs, g1, k),
        s1,
        g1.regs[k],
    ) == with_sum(n0, k, ar.zero()) by {
        assert(g1.regs[k] == step(ar, lane(gid, bufs, g0, k), s0, g0.regs[k]));
        assert(index(ar, lane(gid, bufs, g1, k), g1.regs[k], lid()) == k);
    }
    lemma_apart_quiet(ar, gid, bufs, s1, g1);
    assert forall|k: int| 0 <= k < tg implies {
        let p = #[trigger] step(ar, lane(gid, bufs, g2, k), s2, g2.regs[k]);
        p == with_sum(n0, p.u[i], share(ar, t, tg as int, k, n as nat))
    } by {
        let l = lane(gid, bufs, g2, k);
        let r = g2.regs[k];
        assert(r == step(ar, lane(gid, bufs, g1, k), s1, g1.regs[k]));
        lemma_first_turn(ar, t, tg as int, k);
        assert forall|f: Map<u32, V>, d: int| 0 <= d < n implies #[trigger] value(
            ar,
            l,
            Regs { f, u: r.u.insert(i, d), ..r },
            e,
        ) == t(d) by {
            let q = Regs { f, u: r.u.insert(i, d), ..r };
            assert(index(ar, l, q, uv(i)) == d);
            assert(value(ar, l, q, ld(0, uv(i), dt)) == bufs(0, d));
        }
        lemma_strided(ar, l, n0, i, n, tg, e, t, r);
        let p = step(ar, l, s2, r);
        let s = share(ar, t, tg as int, k, n as nat);
        assert(p.f =~= Map::empty().insert(n0, s));
        assert(p.u =~= Map::empty().insert(i, p.u[i]));
    }
    lemma_apart_quiet(ar, gid, bufs, s2, g2);
    assert forall|k: int| 0 <= k < tg implies #[trigger] g3.regs[k] == with_sum(
        n0,
        g3.regs[k].u[i],
        share(ar, t, tg as int, k, n as nat),
    ) by {
        assert(g3.regs[k] == step(ar, lane(gid, bufs, g2, k), s2, g2.regs[k]));
    }
}

/// The expression that the kernel stores at position `j`.
spec fn stored_value(
    add_res: bool,
    scale: Option<Scalar>,
    dt: DType,
    inv: u32,
    j: u32,
) -> KirExpr {
    let y = times(times(ld(0, uv(j), dt), v(inv)), ld(1, uv(j), dt));
    let z = if add_res {
        plus(y, ld(2, uv(j), dt))
    } else {
        y
    };
    match scale {
        Some(s) => times(cs(s), z),
        None => z,
    }
}

/// The value of that expression.
proof fn lemma_stored_value<V>(
    ar: Arith<V>,
    l: Lane<V>,
    r: Regs<V>,
    n: usize,
    eps: Scalar,
    add_res: bool,
    scale: Option<Scalar>,
    dt: DType,
    inv: u32,
    j: u32,
    d: int,
    out_buf: u32,
)
    requires
        r.u[j] == d,
        only_in(r.stored, out_buf),
        out_buf >= 2,
        add_res ==> out_buf >= 3,
        r.f[inv] == inverse_root(ar, |i: int| (l.bufs)(0, i), n, eps),
    ensures
        value(ar, l, r, stored_value(add_res, scale, dt, inv, j)) == normed(
            ar,
            |i: int| (l.bufs)(0, i),
            |i: int| (l.bufs)(1, i),
            if add_res {
                Some(|i: int| (l.bufs)(2, i))
            } else {
                None
            },
            scale,
            n,
            eps,
            d,
        ),
{
    assert(index(ar, l, r, uv(j)) == d);
    let x = ld(0, uv(j), dt);
    assert(value(ar, l, r, x) == (l.bufs)(0, d));
    assert(value(ar, l, r, v(inv)) == r.f[inv]);
    let a = times(x, v(inv));
    assert(value(ar, l, r, a) == ar.product((l.bufs)(0, d), r.f[inv]));
    let w = ld(1, uv(j), dt);
    assert(value(ar, l, r, w) == (l.bufs)(1, d));
    let y = times(a, w);
    assert(value(ar, l, r, y) == ar.product(value(ar, l, r, a), value(ar, l, r, w)));
    let s = ld(2, uv(j), dt);
    assert(add_res ==> value(ar, l, r, s) == (l.bufs)(2, d));
    assert(value(ar, l, r, plus(y, s)) == ar.sum(value(ar, l, r, y), value(ar, l, r, s)));
    match scale {
        None => {},
        Some(q) => {
            assert(value(ar, l, r, cs(q)) == (ar.constant)(q));
        },
    }
}

/// The kernel of root-mean-square normalisation computes `x * rsqrt(mean(x^2) + eps) * w`, added
/// to a residual and scaled where that is asked for, whatever the number of its threads, where
/// sums may be taken in any order: it stores the `n` elements and nothing else.
pub proof fn lemma_rmsnorm<V>(
    ar: Arith<V>,
    gid: int,
    bufs: spec_fn(u32, int) -> V,
    n: usize,
    eps: Scalar,
    add_res: bool,
    scale: Option<Scalar>,
    out_buf: u32,
    dt: DType,
    tg: u64,
    n0: u32,
)
    requires
        ar.exact(),
        1 <= tg <= 1024,
        n + tg <= u32::MAX,
        n0 + 4 <= u32::MAX,
        out_buf >= 2,
        add_res ==> out_buf >= 3,
    ensures
        group_run(
            ar,
            gid,
            bufs,
            rmsnorm_code(n, eps, add_res, scale, out_buf, dt, tg, n0),
            fresh_group(tg as nat),
        ).stored == Map::new(
            |at: (u32, int)| at.0 == out_buf && 0 <= at.1 < n,
            |at: (u32, int)|
                normed(
                    ar,
                    |i: int| bufs(0, i),
                    |i: int| bufs(1, i),
                    if add_res {
                        Some(|i: int| bufs(2, i))
                    } else {
                        None
                    },
                    scale,
                    n,
                    eps,
                    at.1,
                ),
        ),
{
    reveal(rmsnorm_code);
    let m = n as u32;
    let w = tg as u32;
    let i = (n0 + 1) as u32;
    let inv = (n0 + 2) as u32;
    let j = (n0 + 3) as u32;
    let x = |k: int| bufs(0, k);
    let sq = |k: int| ar.product(bufs(0, k), bufs(0, k));
    let e = times(ld(0, uv(i), dt), ld(0, uv(i), dt));
    let val = stored_value(add_res, scale, dt, inv, j);
    let t = |k: int|
        normed(
            ar,
            |i: int| bufs(0, i),
            |i: int| bufs(1, i),
            if add_res {
                Some(|i: int| bufs(2, i))
            } else {
                None
            },
            scale,
            n,
            eps,
            k,
        );
    let g0 = fresh_group::<V>(tg as nat);
    let b3 = code().s(let_f(n0, c(ZERO))).s(let_u(i, lid())).push(strided(n0, i, m, w, e));
    let s3 = Code::Flat(reduce(n0, tg));
    let root = un(UnaryOp::Rsqrt, plus(over(v(n0), cn(n)), cs(eps)));
    let s4 = Code::Flat(let_f(inv, root));
    let s5 = Code::Flat(let_u(j, lid()));
    let s6 = putting(out_buf, j, m, w, val);
    lemma_squares(ar, gid, bufs, m, dt, w, n0);
    let g3 = group_run(ar, gid, bufs, b3, g0);
    let g4 = group_run(ar, gid, bufs, b3.push(s3), g0);
    let g5 = group_run(ar, gid, bufs, b3.push(s3).push(s4), g0);
    let g6 = group_run(ar, gid, bufs, b3.push(s3).push(s4).push(s5), g0);
    let g7 = group_run(ar, gid, bufs, b3.push(s3).push(s4).push(s5).push(s6), g0);
    lemma_group_push(ar, gid, bufs, b3, s3, g0);
    lemma_group_push(ar, gid, bufs, b3.push(s3), s4, g0);
    lemma_group_push(ar, gid, bufs, b3.push(s3).push(s4), s5, g0);
    lemma_group_push(ar, gid, bufs, b3.push(s3).push(s4).push(s5), s6, g0);
    lemma_group_total(ar, sq, g3.regs, n0, n as nat);
    let total = series(ar, sq, n as nat);
    assert((|k: int| ar.product(x(k), x(k))) =~= sq);
    let factor = inverse_root(ar, x, n, eps);
    assert forall|k: int| 0 <= k < tg implies (#[trigger] g4.regs[k]).f[n0] == total && quiet(
        g4.regs[k],
    ) by {
        assert(g3.regs[k] == with_sum(
            n0,
            g3.regs[k].u[i],
            share(ar, sq, tg as int, k, n as nat),
        ));
    }
    assert forall|k: int| 0 <= k < tg implies {
        let p = #[trigger] step(ar, lane(gid, bufs, g4, k), s4, g4.regs[k]);
        p.f[inv] == factor && quiet(p)
    } by {
        let l = lane(gid, bufs, g4, k);
        let r = g4.regs[k];
        assert(value(ar, l, r, v(n0)) == total);
        assert(value(ar, l, r, cn(n)) == (ar.constant)(Scalar::Int(n as u64)));
        assert(value(ar, l, r, over(v(n0), cn(n))) == (ar.binary)(
            BinOp::Div,
            total,
            (ar.constant)(Scalar::Int(n as u64)),
        ));
        assert(value(ar, l, r, cs(eps)) == (ar.constant)(eps));
        let y = plus(over(v(n0), cn(n)), cs(eps));
        assert(value(ar, l, r, y) == ar.sum(
            value(ar, l, r, over(v(n0), cn(n))),
            value(ar, l, r, cs(eps)),
        ));
        assert(value(ar, l, r, root) == factor);
    }
    lemma_apart_quiet(ar, gid, bufs, s4, g4);
    assert forall|k: int| 0 <= k < tg implies {
        let p = #[trigger] step(ar, lane(gid, bufs, g5, k), s5, g5.regs[k]);
        p.f[inv] == factor && quiet(p) && p.u.contains_key(j) && p.u[j] == k
    } by {
        assert(g5.regs[k] == step(ar, lane(gid, bufs, g4, k), s4, g4.regs[k]));
        assert(index(ar, lane(gid, bufs, g5, k), g5.regs[k], lid()) == k);
    }
    lemma_apart_quiet(ar, gid, bufs, s5, g5);
    let after = Seq::new(g6.regs.len(), |k: int| step(ar, lane(gid, bufs, g6, k), s6, g6.regs[k]));
    assert forall|k: int| 0 <= k < after.len() implies has_put(
        #[trigger] after[k],
        out_buf,
        n as int,
        after.len() as int,
        k,
        n as int,
        t,
    ) by {
        let l = lane(gid, bufs, g6, k);
        let r = g6.regs[k];
        assert(r == step(ar, lane(gid, bufs, g5, k), s5, g5.regs[k]));
        lemma_first_turn(ar, sq, tg as int, k);
        assert forall|d: int| 0 <= d < k && d < n && #[trigger] (d % tg as int) == k implies r
            .stored.contains_key((out_buf, d)) by {
            lemma_first_turn(ar, sq, tg as int, d);
        }
        assert forall|stored: Map<(u32, int), V>, d: int|
            only_in(stored, out_buf) && 0 <= d < m implies #[trigger] value(
            ar,
            l,
            Regs { stored, u: r.u.insert(j, d), ..r },
            val,
        ) == t(d) by {
            let q = Regs { stored, u: r.u.insert(j, d), ..r };
            assert((|i: int| (l.bufs)(0, i)) =~= x);
            lemma_stored_value(ar, l, q, n, eps, add_res, scale, dt, inv, j, d, out_buf);
        }
        lemma_putting(ar, l, out_buf, j, m, w, val, t, r);
    }
    lemma_all_put(after, out_buf, n as int, t);
    assert(g6.stored == Map::<(u32, int), V>::empty());
    assert(g7 == apart(ar, gid, bufs, s6, g6));
    assert(g7.stored == device_writes(g6.stored, after, after.len()));
    assert(rmsnorm_code(n, eps, add_res, scale, out_buf, dt, tg, n0) == b3.push(s3).push(s4).push(
        s5,
    ).push(s6));
    assert(g7.stored =~= Map::new(
        |at: (u32, int)| at.0 == out_buf && 0 <= at.1 < n,
        |at: (u32, int)|
            normed(
                ar,
                |i: int| bufs(0, i),
                |i: int| bufs(1, i),
                if add_res {
                    Some(|i: int| bufs(2, i))
                } else {
                    None
                },
                scale,
                n,
                eps,
                at.1,
            ),
    ));
}

} // verus!
