//! What the generic kernel of a gate and an up projection computes.

use vstd::prelude::*;

use crate::codegen::laws::fused::{clamped, gelu, lemma_gelu_steps};
use crate::codegen::laws::group::quiet;
use crate::codegen::laws::machine::{
    block_meets, fresh_group, group_run, lemma_run_push, run, value, Arith, Group, Lane, Regs,
};
use crate::codegen::laws::matvec::{lemma_acc, lemma_first_row, lemma_guard, Job};
use crate::codegen::laws::product::{generic_job, lemma_row_end, lemma_shares_ready};
use crate::codegen::lower::block::{
    code, cu, gid as group_id, let_u, row_at, store, times, v, Extend,
};
use crate::codegen::lower::elem::gelu_code;
use crate::codegen::lower::fused::{gate_up_generic, gated_finish, gated_row_code};
use crate::codegen::lower::matvec::{
    at_least_one, decls_code, effective_tg, ids_fit, sched_ok, stage_x, sweep_code, x_dtype,
    TG_X_FLOATS_MAX,
};
use crate::ir::dtype::{DType, Scalar};
use crate::ir::kernel::{Code, OptSchedule};

verus! {

/// The gated rows: the GELU of the product with the first matrix, times that with the second.
pub open spec fn gated<V>(job: Job<V>) -> spec_fn(int) -> V {
    |j: int|
        job.ar.product(
            gelu(job.ar, clamped(job.ar, job.total(j))),
            job.total(job.t.nr + j),
        )
}

/// The store of row `j`.
pub proof fn lemma_gated_row<V>(job: Job<V>, out_buf: u32, n: u32, j: int)
    requires
        job.ok(),
        job.m.per == 3,
        0 <= j < job.t.nr,
        job.k < n,
        n + 3 <= u32::MAX,
    ensures
        ({
            let b = gated_row_code(job.m, out_buf, j, n);
            &&& job.puts(b, j, (out_buf, job.first() + j), gated(job)(j))
            &&& !block_meets(b, b.len())
        }),
{
    let ar = job.ar;
    let other = job.t.nr + j;
    let acc = job.acc(j);
    let up = job.acc(other);
    lemma_acc(job, j);
    lemma_acc(job, other);
    lemma_first_row(job);
    assert(up == acc + 1 && acc == job.m.acc(j));
    let row = row_at(job.m.first, j as u32);
    let u = (n + 1) as u32;
    let to = (n + 2) as u32;
    let b0 = gelu_code(code(), v(acc), n, u, to);
    let s = Code::Flat(store(out_buf, row, times(v(to), v(up))));
    let b = gated_row_code(job.m, out_buf, j, n);
    let at = (out_buf, job.first() + j);
    let x = gated(job)(j);
    assert(b == b0.push(s));
    reveal_with_fuel(block_meets, 5);
    assert forall|l: Lane<V>, r: Regs<V>|
        l.bufs == job.bufs && quiet(r) && job.knows_rows(r) && job.has_totals(
            r,
            j,
        ) implies job.has_put(#[trigger] run(ar, l, b, r), r, j, at, x) by {
        assert(value(ar, l, r, v(acc)) == job.total(j));
        lemma_gelu_steps(ar, l, r, v(acc), n, u, to);
        lemma_run_push(ar, l, b0, s, r);
        let p = run(ar, l, b0, r);
        lemma_guard(job, l, p, j);
        assert(p.f[up] == r.f[up]);
        assert(value(ar, l, p, v(up)) == job.total(other));
        assert(value(ar, l, p, v(to)) == p.f[to]);
        assert(value(ar, l, p, times(v(to), v(up))) == x);
        let q = run(ar, l, b, r);
        assert forall|i: int| 0 <= i < job.sums() && job.row(i) != j implies q.f[
            #[trigger] job.acc(i)
        ] == r.f[job.acc(i)] by {
            lemma_acc(job, i);
            assert(job.acc(i) < n);
            assert(p.f[job.acc(i)] == r.f[job.acc(i)]);
        }
    }
}

/// The sums and stores of the first `r` rows.
proof fn lemma_gated_finish<V>(
    job: Job<V>,
    b: Seq<Code>,
    g0: Group<V>,
    out_buf: u32,
    n: u32,
    r: nat,
)
    requires
        job.ar.exact(),
        job.ok(),
        job.m.per == 3,
        r <= job.t.nr,
        job.k < n,
        n + 3 * job.t.nr <= u32::MAX,
        ({
            let g = group_run(job.ar, job.gid, job.bufs, b, g0);
            g.stored == Map::<(u32, int), V>::empty() && job.summed(g, 0)
        }),
    ensures
        ({
            let g = group_run(
                job.ar,
                job.gid,
                job.bufs,
                gated_finish(b, job.m, job.t.tg, out_buf, n, r),
                g0,
            );
            g.stored == job.finished(out_buf, r, gated(job)) && job.summed(g, r)
        }),
    decreases r,
{
    let y = gated(job);
    if r == 0 {
        assert(job.finished(out_buf, 0, y) =~= Map::<(u32, int), V>::empty());
    } else {
        let j = r - 1;
        lemma_gated_finish(job, b, g0, out_buf, n, j as nat);
        lemma_acc(job, j);
        lemma_acc(job, job.t.nr + j);
        let before = gated_finish(b, job.m, job.t.tg, out_buf, n, j as nat);
        let m = (n + 3 * j) as u32;
        lemma_gated_row(job, out_buf, m, j);
        let code = gated_row_code(job.m, out_buf, j, m);
        lemma_row_end(job, before, g0, code, out_buf, j, y);
        assert(gated_finish(b, job.m, job.t.tg, out_buf, n, r) == before.push(
            job.row_end(j, code),
        ));
    }
}

/// Every tiling of the generic gate and up kernel computes the gated product: group `gid` stores,
/// for each of its rows, the GELU of the product with the first matrix times the product with the
/// second, and nothing else, where sums may be taken in any order. The vector is normalised first
/// where that is asked for. The tilings that lose elements of a plain product are left out here
/// too.
pub proof fn lemma_gate_up<V>(
    ar: Arith<V>,
    gid: int,
    bufs: spec_fn(u32, int) -> V,
    rows: usize,
    cols: usize,
    wd: DType,
    sched: OptSchedule,
    x_buf: u32,
    out_buf: u32,
    rms: Option<(u32, Scalar)>,
    n0: u32,
)
    requires
        ar.exact(),
        sched_ok(sched),
        ids_fit(n0, sched),
        rows <= u32::MAX,
        cols + 0x80000 <= u32::MAX,
        rms is Some ==> cols <= TG_X_FLOATS_MAX,
        0 <= gid,
        (gid + 1) * at_least_one(sched.nr0) <= u32::MAX,
        (gid + 1) * at_least_one(sched.nr0) * cols <= u32::MAX,
        generic_job(ar, gid, bufs, rows, cols, wd, sched, x_buf, rms, 3, n0).reaches_all(),
    ensures
        ({
            let job = generic_job(ar, gid, bufs, rows, cols, wd, sched, x_buf, rms, 3, n0);
            let tg = effective_tg(wd, cols, sched.tg) as nat;
            gate_up_generic(rows, cols, wd, sched, x_buf, out_buf, rms, n0) matches Ok(lw)
                && group_run(ar, gid, bufs, lw.code, fresh_group(tg)).stored == job.finished(
                out_buf,
                job.t.nr as nat,
                gated(job),
            )
        }),
{
    reveal(gate_up_generic);
    let job = generic_job(ar, gid, bufs, rows, cols, wd, sched, x_buf, rms, 3, n0);
    let t = job.t;
    lemma_shares_ready(ar, gid, bufs, rows, cols, wd, sched, x_buf, rms, 3, n0);
    let st = stage_x(cols, x_buf, t.tg, x_dtype(wd), rms, n0)->Ok_0;
    let b = st.code.s(let_u(job.m.first, times(group_id(), cu(t.nr))));
    let swept = sweep_code(decls_code(b, job.m, t.nr as nat), job.m, t, job.k);
    let g0 = fresh_group::<V>(t.tg as nat);
    lemma_gated_finish(job, swept, g0, out_buf, (job.k + 1) as u32, t.nr as nat);
}

} // verus!
