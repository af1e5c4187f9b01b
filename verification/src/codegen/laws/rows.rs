//! What the kernel that sums rows computes.

use vstd::prelude::*;

use crate::codegen::laws::group::{
    lemma_apart_first, lemma_apart_quiet, lemma_strided, quiet, strided,
};
use crate::codegen::laws::machine::{
    blank, fresh_group, group_run, holds, index, lane, lemma_group_push, lemma_run_one, step, turns,
    value, Arith, Lane, Regs,
};
use crate::codegen::laws::sums::{lemma_first_turn, lemma_group_total, series, share};
use crate::codegen::lower::block::{
    c, code, cu, equal, gid as group_id, ld, let_f, let_u, lid, plus, reduce, store, times, uv, v,
    Extend,
};
use crate::codegen::lower::elem::sum_last_code;
use crate::ir::dtype::{DType, ZERO};
use crate::ir::kernel::Code;

verus! {

/// A thread of the summing kernel once it has its share.
spec fn summed<V>(gid: int, cols: int, k: int, acc: V) -> Regs<V> {
    Regs {
        f: Map::empty().insert(0, acc),
        u: Map::empty().insert(2, gid * cols).insert(1, k),
        ..blank::<V>()
    }
}

/// The thread before its loop.
proof fn lemma_head<V>(
    ar: Arith<V>,
    gid: int,
    bufs: spec_fn(u32, int) -> V,
    cols: u32,
    tg: nat,
)
    requires
        0 <= gid,
        gid * cols <= u32::MAX,
    ensures
        ({
            let b = code()
                .s(let_u(2, times(group_id(), cu(cols))))
                .s(let_f(0, c(ZERO)))
                .s(let_u(1, lid()));
            let g = group_run(ar, gid, bufs, b, fresh_group(tg));
            &&& g.shared == Map::<(u32, int), V>::empty()
            &&& g.stored == Map::<(u32, int), V>::empty()
            &&& g.regs == Seq::new(tg, |i: int| summed(gid, cols as int, i, ar.zero()))
        }),
{
    let g0 = fresh_group::<V>(tg);
    let s1 = Code::Flat(let_u(2, times(group_id(), cu(cols))));
    let s2 = Code::Flat(let_f(0, c(ZERO)));
    let s3 = Code::Flat(let_u(1, lid()));
    assert(0 <= gid * cols) by (nonlinear_arith)
        requires
            0 <= gid,
    ;
    lemma_group_push(ar, gid, bufs, code(), s1, g0);
    lemma_group_push(ar, gid, bufs, code().push(s1), s2, g0);
    lemma_group_push(ar, gid, bufs, code().push(s1).push(s2), s3, g0);
    let g1 = group_run(ar, gid, bufs, code().push(s1), g0);
    let g2 = group_run(ar, gid, bufs, code().push(s1).push(s2), g0);
    let g3 = group_run(ar, gid, bufs, code().push(s1).push(s2).push(s3), g0);
    assert(group_run(ar, gid, bufs, code(), g0) == g0);
    assert forall|i: int| 0 <= i < tg implies #[trigger] step(
        ar,
        lane(gid, bufs, g0, i),
        s1,
        g0.regs[i],
    ) == (Regs { u: Map::empty().insert(2u32, gid * cols), ..blank::<V>() }) by {
        let l = lane(gid, bufs, g0, i);
        assert(index(ar, l, g0.regs[i], group_id()) == gid);
        assert(index(ar, l, g0.regs[i], cu(cols)) == cols);
    }
    lemma_apart_quiet(ar, gid, bufs, s1, g0);
    assert forall|i: int| 0 <= i < tg implies #[trigger] step(
        ar,
        lane(gid, bufs, g1, i),
        s2,
        g1.regs[i],
    ) == (Regs {
        f: Map::empty().insert(0u32, ar.zero()),
        u: Map::empty().insert(2u32, gid * cols),
        ..blank::<V>()
    }) by {
        assert(g1.regs[i] == step(ar, lane(gid, bufs, g0, i), s1, g0.regs[i]));
    }
    lemma_apart_quiet(ar, gid, bufs, s2, g1);
    assert forall|i: int| 0 <= i < tg implies #[trigger] step(
        ar,
        lane(gid, bufs, g2, i),
        s3,
        g2.regs[i],
    ) == summed(gid, cols as int, i, ar.zero()) by {
        assert(g2.regs[i] == step(ar, lane(gid, bufs, g1, i), s2, g1.regs[i]));
    }
    lemma_apart_quiet(ar, gid, bufs, s3, g2);
    assert(g3.regs =~= Seq::new(tg, |i: int| summed(gid, cols as int, i, ar.zero()))) by {
        assert forall|i: int| 0 <= i < tg implies #[trigger] g3.regs[i] == summed(
            gid,
            cols as int,
            i,
            ar.zero(),
        ) by {
            assert(g3.regs[i] == step(ar, lane(gid, bufs, g2, i), s3, g2.regs[i]));
        }
    }
}

/// A thread of the summing kernel takes its share of the row.
proof fn lemma_row_share<V>(
    ar: Arith<V>,
    l: Lane<V>,
    cols: u32,
    dt: DType,
    tg: u32,
)
    requires
        0 <= l.gid,
        0 <= l.lid < tg,
        cols + tg <= u32::MAX,
        (l.gid + 1) * cols <= u32::MAX,
    ensures
        ({
            let t = |k: int| (l.bufs)(0, l.gid * cols + k);
            let r = summed(l.gid, cols as int, l.lid, ar.zero());
            let e = ld(0, plus(uv(2), uv(1)), dt);
            let after = turns(ar, l, strided(0, 1, cols, tg, e), r);
            after == summed(
                l.gid,
                cols as int,
                after.u[1],
                share(ar, t, tg as int, l.lid, cols as nat),
            )
        }),
{
    let t = |k: int| (l.bufs)(0, l.gid * cols + k);
    let r = summed(l.gid, cols as int, l.lid, ar.zero());
    let e = ld(0, plus(uv(2), uv(1)), dt);
    assert((l.gid + 1) * cols == l.gid * cols + cols) by (nonlinear_arith);
    assert(0 <= l.gid * cols) by (nonlinear_arith)
        requires
            0 <= l.gid,
    ;
    lemma_first_turn(ar, t, tg as int, l.lid);
    assert forall|f: Map<u32, V>, k: int| 0 <= k < cols implies #[trigger] value(
        ar,
        l,
        Regs { f, u: r.u.insert(1, k), ..r },
        e,
    ) == t(k) by {
        let q = Regs { f, u: r.u.insert(1, k), ..r };
        assert(index(ar, l, q, uv(2)) == l.gid * cols);
        assert(index(ar, l, q, uv(1)) == k);
        assert(index(ar, l, q, plus(uv(2), uv(1))) == l.gid * cols + k);
    }
    lemma_strided(ar, l, 0, 1, cols, tg, e, t, r);
    let after = turns(ar, l, strided(0, 1, cols, tg, e), r);
    let s = share(ar, t, tg as int, l.lid, cols as nat);
    assert(after.f =~= Map::empty().insert(0u32, s));
    assert(after.u =~= Map::empty().insert(2u32, l.gid * cols).insert(1u32, after.u[1]));
}

/// The kernel that sums the rows of a matrix sums them, whatever the number of its threads: where
/// sums may be taken in any order, group `gid` stores the sum of row `gid` and nothing else.
pub proof fn lemma_sum_last<V>(
    ar: Arith<V>,
    gid: int,
    bufs: spec_fn(u32, int) -> V,
    cols: usize,
    dt: DType,
    tg: u64,
)
    requires
        ar.exact(),
        1 <= tg <= 1024,
        0 <= gid,
        cols + tg <= u32::MAX,
        (gid + 1) * cols <= u32::MAX,
    ensures
        group_run(ar, gid, bufs, sum_last_code(cols, dt, tg, 0), fresh_group(tg as nat)).stored
            == Map::empty().insert(
            (1u32, gid),
            series(ar, |k: int| bufs(0, gid * cols + k), cols as nat),
        ),
{
    reveal(sum_last_code);
    let w = cols as u32;
    let n = tg as nat;
    let t = |k: int| bufs(0, gid * cols + k);
    let e = ld(0, plus(uv(2), uv(1)), dt);
    let head = code()
        .s(let_u(2, times(group_id(), cu(w))))
        .s(let_f(0, c(ZERO)))
        .s(let_u(1, lid()));
    let s4 = strided(0, 1, w, tg as u32, e);
    let s5 = Code::Flat(reduce(0, tg));
    let put = Code::Flat(store(1, group_id(), v(0)));
    let s6 = Code::If { cond: equal(lid(), cu(0)), body: code().push(put) };
    assert((gid + 1) * cols == gid * cols + cols) by (nonlinear_arith);
    lemma_head(ar, gid, bufs, w, n);
    let g0 = fresh_group::<V>(n);
    let g3 = group_run(ar, gid, bufs, head, g0);
    lemma_group_push(ar, gid, bufs, head, s4, g0);
    lemma_group_push(ar, gid, bufs, head.push(s4), s5, g0);
    lemma_group_push(ar, gid, bufs, head.push(s4).push(s5), s6, g0);
    let g4 = group_run(ar, gid, bufs, head.push(s4), g0);
    let g5 = group_run(ar, gid, bufs, head.push(s4).push(s5), g0);
    assert forall|i: int| 0 <= i < n implies quiet(
        #[trigger] step(ar, lane(gid, bufs, g3, i), s4, g3.regs[i]),
    ) by {
        lemma_row_share(ar, lane(gid, bufs, g3, i), w, dt, tg as u32);
    }
    lemma_apart_quiet(ar, gid, bufs, s4, g3);
    assert forall|i: int| 0 <= i < g4.regs.len() implies (#[trigger] g4.regs[i]).f[0] == share(
        ar,
        t,
        g4.regs.len() as int,
        i,
        cols as nat,
    ) && quiet(g4.regs[i]) by {
        let l = lane(gid, bufs, g3, i);
        lemma_row_share(ar, l, w, dt, tg as u32);
        assert(g4.regs[i] == step(ar, l, s4, g3.regs[i]));
        let q = |k: int| (l.bufs)(0, l.gid * w + k);
        assert(q =~= t);
    }
    lemma_group_total(ar, t, g4.regs, 0, cols as nat);
    let x = series(ar, t, cols as nat);
    assert forall|i: int| 0 <= i < n implies (#[trigger] g5.regs[i]).f[0] == x && quiet(
        g5.regs[i],
    ) by {
        assert(quiet(g4.regs[i]));
    }
    assert(g5.stored == Map::<(u32, int), V>::empty());
    assert forall|i: int| 0 <= i < n implies holds(
        ar,
        #[trigger] lane(gid, bufs, g5, i),
        g5.regs[i],
        equal(lid(), cu(0)),
    ) == (i == 0) by {
        let l = lane(gid, bufs, g5, i);
        assert(index(ar, l, g5.regs[i], lid()) == i);
        assert(index(ar, l, g5.regs[i], cu(0)) == 0);
    }
    let l0 = lane(gid, bufs, g5, 0);
    lemma_run_one(ar, l0, put, g5.regs[0]);
    assert(index(ar, l0, g5.regs[0], group_id()) == gid);
    assert(value(ar, l0, g5.regs[0], v(0)) == x);
    assert forall|i: int| 0 < i < g5.regs.len() implies #[trigger] step(
        ar,
        lane(gid, bufs, g5, i),
        s6,
        g5.regs[i],
    ) == g5.regs[i] by {}
    assert(!crate::codegen::laws::machine::meets(s6)) by {
        reveal_with_fuel(crate::codegen::laws::machine::block_meets, 2);
        reveal_with_fuel(crate::codegen::laws::machine::meets, 2);
    }
    lemma_apart_first(ar, gid, bufs, s6, g5, (1u32, gid), x);
}

} // verus!
