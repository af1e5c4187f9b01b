//! What a group of the generic matrix-vector kernel stores.

use vstd::prelude::*;

use crate::codegen::laws::group::{
    lemma_apart_leader, lemma_apart_quiet, lemma_nothing_stored, quiet,
};
use crate::codegen::laws::machine::{
    adds_up, apart, block_meets, collected, fresh_group, group_run, group_step, holds, index, lane,
    joins, lemma_group_push, lemma_run_one, lemma_run_push, meets, run, shared_at, simd_only, step,
    turns, value, Arith, Group, Lane, Regs,
};
use crate::codegen::laws::fused::{clamped, gelu, lemma_gelu_steps};
use crate::codegen::laws::matvec::{
    has_chunks, lemma_acc, lemma_accs_apart, lemma_base, lemma_bases_apart, lemma_first_row,
    lemma_guard, Job,
};
use crate::codegen::laws::norm::{inverse_root, normed};
use crate::codegen::laws::solo::{block_silent, each_alone, lemma_group_cat, lemma_solo};
use crate::codegen::laws::sums::{
    lemma_first_turn, lemma_group_total, lemma_other_remainders, series, share,
};
use crate::codegen::laws::sweep::{
    lemma_chunk_loop, lemma_main_loop, lemma_no_waiting, lemma_parts_sum, lemma_tail,
};
use crate::codegen::laws::twice::{but_factor, factor_code, lemma_factor, reads, root_of};
use crate::codegen::lower::block::{
    barrier, c, code, cu, equal, gid as group_id, gt, ld, let_f, let_u, lid, plus, reduce, row_at,
    store, tg_decl, tg_store, times, uv, v, Extend,
};
use crate::codegen::lower::matvec::{
    at_least_one, copy_x_code, decls_code, effective_tg, effective_vec, epi_ids, finish_code,
    ids_fit, lemma_fits, matvec_generic, sched_ok, stage_x, store_row_code, sweep_code, tiling_of,
    x_dtype, MatvecEpi, Rows, TG_X_FLOATS_MAX,
};
use crate::codegen::lower::elem::gelu_code;
use crate::codegen::lower::norm::xhat_code;
use crate::ir::dtype::{DType, Scalar, ZERO};
use crate::ir::kernel::{Code, KirExpr, OptSchedule};

verus! {

impl<V> Job<V> {
    /// Whether the vector is staged where the kernel reads it staged.
    pub open spec fn staged(self, shared: Map<(u32, int), V>) -> bool {
        match self.m.tg_x {
            None => true,
            Some(id) => forall|i: int|
                0 <= i < self.m.cols ==> #[trigger] shared[(id, i)] == self.x(i),
        }
    }

    /// Whether the threads of a group know the first `r` of their rows and have summed nothing.
    pub open spec fn ready(self, g: Group<V>, r: nat) -> bool {
        &&& g.regs.len() == self.t.tg
        &&& g.stored == Map::<(u32, int), V>::empty()
        &&& self.staged(g.shared)
        &&& forall|i: int| 0 <= i < g.regs.len() ==> self.knows(#[trigger] g.regs[i], r)
    }

    /// Whether a thread knows the first `r` of its rows and has summed nothing.
    pub open spec fn knows(self, t: Regs<V>, r: nat) -> bool {
        &&& quiet(t)
        &&& t.u[self.m.first] == self.first()
        &&& forall|j: int|
            0 <= j < r ==> t.u[#[trigger] self.m.base(j)] == (self.first() + j) * self.m.cols
        &&& forall|s: int|
            0 <= s < self.sums() && self.row(s) < r ==> t.f[#[trigger] self.acc(s)]
                == self.ar.zero()
    }

    /// Whether the threads of a group hold their shares of the rows from `r` on.
    pub open spec fn summed(self, g: Group<V>, r: nat) -> bool {
        &&& g.regs.len() == self.t.tg
        &&& forall|i: int| 0 <= i < g.regs.len() ==> self.has_from(i, #[trigger] g.regs[i], r)
    }

    /// Whether a thread holds its shares of the rows from `r` on.
    pub open spec fn has_from(self, lid: int, t: Regs<V>, r: nat) -> bool {
        &&& quiet(t)
        &&& self.knows_rows(t)
        &&& forall|s: int|
            0 <= s < self.sums() && r <= self.row(s) && self.live(s) ==> t.f[#[trigger] self.acc(s)]
                == share(self.ar, self.part(s), self.t.tg as int, lid, self.parts())
    }

    /// A whole sum.
    pub open spec fn total(self, s: int) -> V {
        series(self.ar, self.term(s), self.m.cols as nat)
    }

    /// The first `r` rows of the group, as far as they exist, row `j` with the value `y(j)`.
    pub open spec fn finished(self, out_buf: u32, r: nat, y: spec_fn(int) -> V) -> Map<
        (u32, int),
        V,
    > {
        Map::new(
            |at: (u32, int)|
                at.0 == out_buf && self.first() <= at.1 < self.first() + r && at.1 < self.m.rows,
            |at: (u32, int)| y(at.1 - self.first()),
        )
    }

    /// The first `r` rows of the group, as far as they exist, each with its product.
    pub open spec fn products(self, out_buf: u32, r: nat) -> Map<(u32, int), V> {
        self.finished(out_buf, r, |j: int| self.total(j))
    }

    /// Whether a thread knows the whole sums of row `j`.
    pub open spec fn has_totals(self, t: Regs<V>, j: int) -> bool {
        &&& t.f[self.acc(j)] == self.total(j)
        &&& self.m.per == 3 ==> t.f[self.acc(self.t.nr + j)] == self.total(self.t.nr + j)
    }

    /// Whether a block, taken by a thread that knows the whole sums of row `j`, stores one element
    /// and leaves the sums of other rows alone.
    pub open spec fn puts(self, b: Seq<Code>, j: int, at: (u32, int), x: V) -> bool {
        forall|l: Lane<V>, r: Regs<V>|
            l.bufs == self.bufs && quiet(r) && self.knows_rows(r) && self.has_totals(r, j)
                ==> self.has_put(#[trigger] run(self.ar, l, b, r), r, j, at, x)
    }

    /// What such a block leaves.
    pub open spec fn has_put(
        self,
        p: Regs<V>,
        r: Regs<V>,
        j: int,
        at: (u32, int),
        x: V,
    ) -> bool {
        &&& p.u == r.u
        &&& p.writes == r.writes
        &&& p.stored == Map::empty().insert(at, x)
        &&& forall|s: int|
            0 <= s < self.sums() && self.row(s) != j ==> p.f[#[trigger] self.acc(s)]
                == r.f[self.acc(s)]
    }

    /// The end of row `j`: its sums are added up, and the first thread takes a block.
    pub open spec fn row_end(self, j: int, b: Seq<Code>) -> Code {
        let one = code().s(reduce(self.acc(j), self.t.tg));
        let all = if self.m.per == 2 {
            one
        } else {
            one.s(reduce(self.acc(self.t.nr + j), self.t.tg))
        };
        Code::If {
            cond: gt(cu(self.m.rows), row_at(self.m.first, j as u32)),
            body: all.when(equal(lid(), cu(0)), b),
        }
    }
}

/// A statement without a block in which threads do not meet is taken apart.
proof fn lemma_apart_flat<V>(job: Job<V>, s: crate::ir::kernel::KirStmt, g: Group<V>)
    requires
        !joins(s),
    ensures
        group_step(job.ar, job.gid, job.bufs, Code::Flat(s), g) == apart(
            job.ar,
            job.gid,
            job.bufs,
            Code::Flat(s),
            g,
        ),
{
}

/// The declarations of row `j`.
pub open spec fn row_decls<V>(job: Job<V>, j: int) -> Seq<Code> {
    let one = code().s(let_f(job.acc(j), c(ZERO)));
    let all = if job.m.per == 2 {
        one
    } else {
        one.s(let_f(job.acc(job.t.nr + j), c(ZERO)))
    };
    all.s(let_u(job.m.base(j), times(row_at(job.m.first, j as u32), cu(job.m.cols))))
}

/// A thread after the declarations of row `j`.
pub proof fn lemma_row_decls<V>(job: Job<V>, l: Lane<V>, r: Regs<V>, j: int)
    requires
        job.ok(),
        0 <= j < job.t.nr,
        job.knows(r, j as nat),
    ensures
        job.knows(run(job.ar, l, row_decls(job, j), r), (j + 1) as nat),
        run(job.ar, l, row_decls(job, j), r).u == r.u.insert(
            job.m.base(j),
            (job.first() + j) * job.m.cols,
        ),
{
    lemma_fits(job.m, j, job.t.nr as int);
    lemma_first_row(job);
    lemma_acc(job, j);
    let s1 = Code::Flat(let_f(job.acc(j), c(ZERO)));
    let s2 = Code::Flat(let_f(job.acc(job.t.nr + j), c(ZERO)));
    let row = row_at(job.m.first, j as u32);
    let s3 = Code::Flat(let_u(job.m.base(j), times(row, cu(job.m.cols))));
    let one = code().push(s1);
    let all = if job.m.per == 2 {
        one
    } else {
        one.push(s2)
    };
    lemma_run_one(job.ar, l, s1, r);
    lemma_run_push(job.ar, l, one, s2, r);
    lemma_run_push(job.ar, l, all, s3, r);
    let mid = run(job.ar, l, all, r);
    let end = run(job.ar, l, all.push(s3), r);
    assert(row_decls(job, j) == all.push(s3));
    assert(value(job.ar, l, r, c(ZERO)) == job.ar.zero());
    if job.m.per == 3 {
        lemma_acc(job, job.t.nr + j);
        assert(value(job.ar, l, run(job.ar, l, one, r), c(ZERO)) == job.ar.zero());
    }
    assert(mid == (Regs { f: mid.f, ..r }));
    let n = (job.first() + j) * job.m.cols;
    assert(0 <= n <= u32::MAX) by (nonlinear_arith)
        requires
            n == (job.first() + j) * job.m.cols,
            0 <= job.first(),
            0 <= j < job.t.nr,
            (job.first() + job.t.nr) * job.m.cols <= u32::MAX,
    ;
    assert(index(job.ar, l, mid, uv(job.m.first)) == job.first());
    assert(index(job.ar, l, mid, cu(j as u32)) == j);
    assert(index(job.ar, l, mid, row) == job.first() + j);
    assert(index(job.ar, l, mid, cu(job.m.cols)) == job.m.cols);
    assert(index(job.ar, l, mid, times(row, cu(job.m.cols))) == n);
    assert(end == (Regs { u: mid.u.insert(job.m.base(j), n), ..mid }));
    assert forall|q: int| 0 <= q < j + 1 implies end.u[#[trigger] job.m.base(q)] == (job.first()
        + q) * job.m.cols by {
        if q < j {
            lemma_bases_apart(job, q, j);
            assert(r.u[job.m.base(q)] == (job.first() + q) * job.m.cols);
        }
    }
    assert forall|q: int| 0 <= q < job.sums() && job.row(q) < j + 1 implies end.f[
        #[trigger] job.acc(q)
    ] == job.ar.zero() by {
        lemma_acc(job, q);
        if job.row(q) < j {
            assert(r.f[job.acc(q)] == job.ar.zero());
        }
    }
}

/// The declarations of the rows.
proof fn lemma_decls<V>(job: Job<V>, b: Seq<Code>, g0: Group<V>, r: nat)
    requires
        job.ok(),
        r <= job.t.nr,
        job.ready(group_run(job.ar, job.gid, job.bufs, b, g0), 0),
    ensures
        job.ready(group_run(job.ar, job.gid, job.bufs, decls_code(b, job.m, r), g0), r),
    decreases r,
{
    if r > 0 {
        let j = r - 1;
        let (ar, gid, bufs) = (job.ar, job.gid, job.bufs);
        lemma_decls(job, b, g0, j as nat);
        lemma_fits(job.m, j, job.t.nr as int);
        lemma_acc(job, j);
        if job.m.per == 3 {
            lemma_acc(job, job.t.nr + j);
        }
        let before = decls_code(b, job.m, j as nat);
        let d = row_decls(job, j);
        let g = group_run(ar, gid, bufs, before, g0);
        assert(decls_code(b, job.m, r) =~= before + d);
        lemma_group_cat(ar, gid, bufs, before, d, d.len(), g0);
        assert(block_silent(d, d.len())) by {
            reveal_with_fuel(block_silent, 4);
        }
        assert forall|i: int| 0 <= i < g.regs.len() implies quiet(#[trigger] g.regs[i]) by {
            assert(job.knows(g.regs[i], j as nat));
        }
        lemma_solo(ar, gid, bufs, d, g);
        let after = group_run(ar, gid, bufs, decls_code(b, job.m, r), g0);
        assert(after == each_alone(ar, gid, bufs, d, g));
        assert forall|i: int| 0 <= i < after.regs.len() implies job.knows(
            #[trigger] after.regs[i],
            r,
        ) by {
            assert(job.knows(g.regs[i], j as nat));
            lemma_row_decls(job, lane(gid, bufs, g, i), g.regs[i], j);
        }
    }
}

/// A thread reads the vector where its group has it.
proof fn lemma_reads<V>(job: Job<V>, g: Group<V>, i: int, r: Regs<V>)
    requires
        job.staged(g.shared),
        quiet(r),
    ensures
        job.reads_x(lane(job.gid, job.bufs, g, i), r),
{
    match job.m.tg_x {
        None => {},
        Some(id) => {
            assert forall|n: int| 0 <= n < job.m.cols implies #[trigger] shared_at(
                lane(job.gid, job.bufs, g, i),
                r,
                id,
                n,
            ) == job.x(n) by {
                assert(g.shared[(id, n)] == job.x(n));
            }
        },
    }
}

/// A thread before its pass over the row stands at its first turn.
proof fn lemma_stands_first<V>(job: Job<V>, g: Group<V>, i: int)
    requires
        job.ok(),
        job.ready(g, job.t.nr as nat),
        0 <= i < job.t.tg,
    ensures
        ({
            let l = lane(job.gid, job.bufs, g, i);
            let s = Code::Flat(let_u(job.k, times(lid(), cu(job.t.vec))));
            let p = step(job.ar, l, s, g.regs[i]);
            quiet(p) && job.stands(l, p, i as nat)
        }),
{
    let l = lane(job.gid, job.bufs, g, i);
    let r = g.regs[i];
    assert(job.knows(r, job.t.nr as nat));
    let s = Code::Flat(let_u(job.k, times(lid(), cu(job.t.vec))));
    let p = step(job.ar, l, s, r);
    assert(0 <= i * job.t.vec <= 1024 * 32) by (nonlinear_arith)
        requires
            0 <= i < 1024,
            0 <= job.t.vec <= 32,
    ;
    assert(index(job.ar, l, r, lid()) == i);
    assert(index(job.ar, l, r, cu(job.t.vec)) == job.t.vec);
    assert(p == (Regs { u: r.u.insert(job.k, i * job.t.vec), ..r }));
    assert forall|j: int| 0 <= j < job.t.nr implies p.u[#[trigger] job.m.base(j)] == (job.first()
        + j) * job.m.cols by {
        lemma_base(job, j);
        assert(r.u[job.m.base(j)] == (job.first() + j) * job.m.cols);
    }
    lemma_reads(job, g, i, p);
    lemma_first_turn(job.ar, job.chunk(0), job.t.tg as int, i);
    assert(has_chunks(job, i, p.f, i as nat)) by {
        assert forall|j: int| 0 <= j < job.sums() && job.live(j) implies p.f[#[trigger] job.acc(j)]
            == share(job.ar, job.chunk(j), job.t.tg as int, i, i as nat) by {
            lemma_acc(job, j);
            lemma_first_turn(job.ar, job.chunk(j), job.t.tg as int, i);
            assert(r.f[job.acc(j)] == job.ar.zero());
        }
    }
    assert(job.chunks() >= 0) by (nonlinear_arith)
        requires
            job.chunks() == job.m.cols as int / job.t.vec as int,
            job.t.vec >= 1,
    ;
}

/// The pass over the width leaves every thread with its share of every row.
proof fn lemma_sweep<V>(job: Job<V>, b: Seq<Code>, g0: Group<V>)
    requires
        job.ar.exact(),
        job.ok(),
        job.reaches_all(),
        job.ready(group_run(job.ar, job.gid, job.bufs, b, g0), job.t.nr as nat),
    ensures
        ({
            let g = group_run(
                job.ar,
                job.gid,
                job.bufs,
                sweep_code(b, job.m, job.t, job.k),
                g0,
            );
            g.stored == Map::<(u32, int), V>::empty() && job.summed(g, 0)
        }),
{
    let (ar, gid, bufs) = (job.ar, job.gid, job.bufs);
    let s0 = Code::Flat(let_u(job.k, times(lid(), cu(job.t.vec))));
    let s1 = job.main_loop();
    let s2 = job.chunk_loop();
    let s3 = job.tail_loop();
    lemma_no_waiting(job);
    let g1 = group_run(ar, gid, bufs, b, g0);
    let g2 = group_run(ar, gid, bufs, b.push(s0), g0);
    let g3 = group_run(ar, gid, bufs, b.push(s0).push(s1), g0);
    let g4 = group_run(ar, gid, bufs, b.push(s0).push(s1).push(s2), g0);
    let g5 = group_run(ar, gid, bufs, b.push(s0).push(s1).push(s2).push(s3), g0);
    lemma_group_push(ar, gid, bufs, b, s0, g0);
    lemma_group_push(ar, gid, bufs, b.push(s0), s1, g0);
    lemma_group_push(ar, gid, bufs, b.push(s0).push(s1), s2, g0);
    lemma_group_push(ar, gid, bufs, b.push(s0).push(s1).push(s2), s3, g0);
    assert forall|i: int| 0 <= i < g1.regs.len() implies {
        let p = #[trigger] step(ar, lane(gid, bufs, g1, i), s0, g1.regs[i]);
        quiet(p) && job.stands(lane(gid, bufs, g1, i), p, i as nat)
    } by {
        lemma_stands_first(job, g1, i);
    }
    lemma_apart_quiet(ar, gid, bufs, s0, g1);
    assert forall|i: int| 0 <= i < g2.regs.len() implies quiet(
        #[trigger] step(ar, lane(gid, bufs, g2, i), s1, g2.regs[i]),
    ) && exists|d: nat|
        job.stands(
            lane(gid, bufs, g2, i),
            step(ar, lane(gid, bufs, g2, i), s1, g2.regs[i]),
            d,
        ) by {
        assert(lane(gid, bufs, g2, i) == lane(gid, bufs, g1, i));
        assert(g2.regs[i] == step(ar, lane(gid, bufs, g1, i), s0, g1.regs[i]));
        lemma_main_loop(job, lane(gid, bufs, g2, i), g2.regs[i], i as nat);
    }
    lemma_apart_quiet(ar, gid, bufs, s1, g2);
    assert forall|i: int| 0 <= i < g3.regs.len() implies quiet(
        #[trigger] step(ar, lane(gid, bufs, g3, i), s2, g3.regs[i]),
    ) && exists|d: nat|
        d >= job.chunks() && job.stands(
            lane(gid, bufs, g3, i),
            step(ar, lane(gid, bufs, g3, i), s2, g3.regs[i]),
            d,
        ) by {
        let l = lane(gid, bufs, g2, i);
        assert(lane(gid, bufs, g3, i) == l);
        assert(g3.regs[i] == step(ar, l, s1, g2.regs[i]));
        let d = choose|d: nat| job.stands(l, step(ar, l, s1, g2.regs[i]), d);
        assert(job.stands(l, g3.regs[i], d));
        lemma_chunk_loop(job, l, g3.regs[i], d);
        let p = step(ar, l, s2, g3.regs[i]);
        assert(p == turns(ar, l, s2, g3.regs[i]));
        let e = choose|e: nat| e >= job.chunks() && job.stands(l, p, e);
        assert(job.stands(lane(gid, bufs, g3, i), p, e));
    }
    lemma_apart_quiet(ar, gid, bufs, s2, g3);
    assert forall|i: int| 0 <= i < g4.regs.len() implies {
        let p = #[trigger] step(ar, lane(gid, bufs, g4, i), s3, g4.regs[i]);
        &&& quiet(p)
        &&& job.knows_rows(p)
        &&& job.has_all(i, p.f)
        &&& quiet(g4.regs[i])
        &&& job.knows_rows(g4.regs[i])
        &&& job.parts() == job.chunks() ==> job.has_all(i, g4.regs[i].f)
    } by {
        let l = lane(gid, bufs, g3, i);
        assert(lane(gid, bufs, g4, i) == l);
        assert(g4.regs[i] == step(ar, l, s2, g3.regs[i]));
        let d = choose|d: nat| d >= job.chunks() && job.stands(l, step(ar, l, s2, g3.regs[i]), d);
        lemma_tail(job, l, g4.regs[i], d);
    }
    lemma_apart_quiet(ar, gid, bufs, s3, g4);
    if job.m.dtype == DType::Q4K {
        assert forall|i: int| 0 <= i < g4.regs.len() implies job.has_from(
            i,
            #[trigger] g4.regs[i],
            0,
        ) by {
            let p = step(ar, lane(gid, bufs, g4, i), s3, g4.regs[i]);
        }
        assert(sweep_code(b, job.m, job.t, job.k) == b.push(s0).push(s1).push(s2));
    } else {
        assert forall|i: int| 0 <= i < g5.regs.len() implies job.has_from(
            i,
            #[trigger] g5.regs[i],
            0,
        ) by {
            assert(g5.regs[i] == step(ar, lane(gid, bufs, g4, i), s3, g4.regs[i]));
        }
        assert(sweep_code(b, job.m, job.t, job.k) == b.push(s0).push(s1).push(s2).push(s3));
    }
}

/// A group adds up one sum of its threads.
proof fn lemma_reduce<V>(job: Job<V>, g: Group<V>, s: int)
    requires
        job.ar.exact(),
        job.ok(),
        0 <= s < job.sums(),
        g.regs.len() == job.t.tg,
        forall|i: int|
            0 <= i < g.regs.len() ==> (#[trigger] g.regs[i]).f[job.acc(s)] == share(
                job.ar,
                job.part(s),
                job.t.tg as int,
                i,
                job.parts(),
            ),
    ensures
        ({
            let c = Code::Flat(reduce(job.acc(s), job.t.tg));
            let p = group_step(job.ar, job.gid, job.bufs, c, g);
            &&& p.shared == g.shared
            &&& p.stored == g.stored
            &&& p.regs.len() == g.regs.len()
            &&& forall|i: int|
                0 <= i < g.regs.len() ==> #[trigger] p.regs[i] == (Regs {
                    f: g.regs[i].f.insert(job.acc(s), job.total(s)),
                    ..g.regs[i]
                })
        }),
{
    lemma_group_total(job.ar, job.part(s), g.regs, job.acc(s), job.parts());
    lemma_parts_sum(job, s);
}

/// The first thread of a group takes a block that stores one element.
proof fn lemma_leader<V>(
    job: Job<V>,
    g: Group<V>,
    b: Seq<Code>,
    j: int,
    at: (u32, int),
    x: V,
)
    requires
        job.ok(),
        0 <= j < job.t.nr,
        g.regs.len() == job.t.tg,
        forall|i: int|
            0 <= i < g.regs.len() ==> job.has_from(i, #[trigger] g.regs[i], (j + 1) as nat),
        job.has_totals(g.regs[0], j),
        job.puts(b, j, at, x),
        !block_meets(b, b.len()),
    ensures
        ({
            let c = Code::If { cond: equal(lid(), cu(0)), body: b };
            let p = group_step(job.ar, job.gid, job.bufs, c, g);
            &&& p.stored == g.stored.insert(at, x)
            &&& job.summed(p, (j + 1) as nat)
        }),
{
    let (ar, gid, bufs) = (job.ar, job.gid, job.bufs);
    let c = Code::If { cond: equal(lid(), cu(0)), body: b };
    assert forall|i: int| 0 <= i < g.regs.len() implies holds(
        ar,
        #[trigger] lane(gid, bufs, g, i),
        g.regs[i],
        equal(lid(), cu(0)),
    ) == (i == 0) && quiet(g.regs[i]) by {
        let l = lane(gid, bufs, g, i);
        assert(index(ar, l, g.regs[i], lid()) == i);
        assert(index(ar, l, g.regs[i], cu(0)) == 0);
        assert(job.has_from(i, g.regs[i], (j + 1) as nat));
    }
    assert forall|i: int| 0 <= i < g.regs.len() implies quiet(#[trigger] g.regs[i]) by {
        assert(job.has_from(i, g.regs[i], (j + 1) as nat));
    }
    let l0 = lane(gid, bufs, g, 0);
    let r0 = g.regs[0];
    let p0 = run(ar, l0, b, r0);
    assert(job.has_from(0, r0, (j + 1) as nat));
    assert(job.has_put(p0, r0, j, at, x));
    assert(step(ar, l0, c, r0) == p0);
    let q = Regs { stored: Map::empty(), ..p0 };
    assert(p0 == (Regs { stored: Map::empty().insert(at, x), ..q }));
    assert forall|i: int| 0 < i < g.regs.len() implies #[trigger] step(
        ar,
        lane(gid, bufs, g, i),
        c,
        g.regs[i],
    ) == g.regs[i] by {
        assert(!holds(ar, lane(gid, bufs, g, i), g.regs[i], equal(lid(), cu(0))));
    }
    let m = Map::empty().insert(at, x);
    lemma_apart_leader(ar, gid, bufs, c, g, q, m);
    assert(g.stored.union_prefer_right(m) =~= g.stored.insert(at, x));
    assert(!meets(c));
    let p = group_step(ar, gid, bufs, c, g);
    assert forall|i: int| 0 <= i < p.regs.len() implies job.has_from(
        i,
        #[trigger] p.regs[i],
        (j + 1) as nat,
    ) by {
        assert(job.has_from(i, g.regs[i], (j + 1) as nat));
        if i == 0 {
            assert(p.regs[0] == q);
        } else {
            assert(p.regs[i] == g.regs[i]);
        }
    }
}

/// The end of row `j`.
pub proof fn lemma_row_end<V>(
    job: Job<V>,
    before: Seq<Code>,
    g0: Group<V>,
    b: Seq<Code>,
    out_buf: u32,
    j: int,
    y: spec_fn(int) -> V,
)
    requires
        job.ar.exact(),
        job.ok(),
        0 <= j < job.t.nr,
        ({
            let g = group_run(job.ar, job.gid, job.bufs, before, g0);
            g.stored == job.finished(out_buf, j as nat, y) && job.summed(g, j as nat)
        }),
        job.puts(b, j, (out_buf, job.first() + j), y(j)),
        !block_meets(b, b.len()),
    ensures
        ({
            let r = (j + 1) as nat;
            let g = group_run(job.ar, job.gid, job.bufs, before.push(job.row_end(j, b)), g0);
            g.stored == job.finished(out_buf, r, y) && job.summed(g, r)
        }),
{
    let (ar, gid, bufs) = (job.ar, job.gid, job.bufs);
    let r = (j + 1) as nat;
    let other = job.t.nr + j;
    lemma_acc(job, j);
    lemma_first_row(job);
    let g = group_run(ar, gid, bufs, before, g0);
    let s1 = Code::Flat(reduce(job.acc(j), job.t.tg));
    let s2 = Code::Flat(reduce(job.acc(other), job.t.tg));
    let s3 = Code::If { cond: equal(lid(), cu(0)), body: b };
    let one = code().push(s1);
    let all = if job.m.per == 2 {
        one
    } else {
        one.push(s2)
    };
    let body = all.push(s3);
    let whole = job.row_end(j, b);
    lemma_group_push(ar, gid, bufs, before, whole, g0);
    assert(meets(whole) && meets(s1) && meets(s2)) by {
        reveal_with_fuel(block_meets, 4);
        reveal_with_fuel(meets, 3);
        assert(body[0] == s1);
    }
    assert(!simd_only(body)) by {
        assert(body[0] == s1);
        assert(meets(body[0]) && !adds_up(body[0]));
    }
    assert(job.has_from(0, g.regs[0], j as nat));
    lemma_guard(job, lane(gid, bufs, g, 0), g.regs[0], j);
    let after = group_run(ar, gid, bufs, before.push(whole), g0);
    if job.live(j) {
        assert(after == group_run(ar, gid, bufs, body, g));
        lemma_group_push(ar, gid, bufs, code(), s1, g);
        lemma_group_push(ar, gid, bufs, one, s2, g);
        lemma_group_push(ar, gid, bufs, all, s3, g);
        assert(group_run(ar, gid, bufs, code(), g) == g);
        assert forall|i: int| 0 <= i < g.regs.len() implies (#[trigger] g.regs[i]).f[job.acc(j)]
            == share(ar, job.part(j), job.t.tg as int, i, job.parts()) by {
            assert(job.has_from(i, g.regs[i], j as nat));
        }
        lemma_reduce(job, g, j);
        let g1 = group_run(ar, gid, bufs, one, g);
        if job.m.per == 3 {
            lemma_acc(job, other);
            assert forall|i: int| 0 <= i < g1.regs.len() implies (#[trigger] g1.regs[i]).f[job.acc(
                other,
            )] == share(ar, job.part(other), job.t.tg as int, i, job.parts()) by {
                assert(job.has_from(i, g.regs[i], j as nat));
            }
            lemma_reduce(job, g1, other);
        }
        let g2 = group_run(ar, gid, bufs, all, g);
        assert forall|i: int| 0 <= i < g2.regs.len() implies job.has_from(
            i,
            #[trigger] g2.regs[i],
            r,
        ) && job.has_totals(g2.regs[i], j) by {
            let before_regs = g.regs[i];
            assert(job.has_from(i, before_regs, j as nat));
            assert(g1.regs[i].u == before_regs.u);
            let t = g2.regs[i];
            assert(t.u == before_regs.u);
            assert forall|q: int|
                0 <= q < job.sums() && r <= job.row(q) && job.live(q) implies t.f[
                #[trigger] job.acc(q)
            ] == share(ar, job.part(q), job.t.tg as int, i, job.parts()) by {
                lemma_accs_apart(job, q, j);
                if job.m.per == 3 {
                    lemma_accs_apart(job, q, other);
                }
                assert(before_regs.f[job.acc(q)] == share(
                    ar,
                    job.part(q),
                    job.t.tg as int,
                    i,
                    job.parts(),
                ));
            }
        }
        let at = (out_buf, job.first() + j);
        lemma_leader(job, g2, b, j, at, y(j));
        assert(after.stored == job.finished(out_buf, j as nat, y).insert(at, y(j)));
        assert(job.finished(out_buf, r, y) =~= job.finished(out_buf, j as nat, y).insert(
            at,
            y(j),
        ));
    } else {
        assert(after == g);
        assert(job.finished(out_buf, r, y) =~= job.finished(out_buf, j as nat, y));
        assert forall|i: int| 0 <= i < g.regs.len() implies job.has_from(
            i,
            #[trigger] g.regs[i],
            r,
        ) by {
            assert(job.has_from(i, g.regs[i], j as nat));
        }
    }
}

/// What the generic kernel stores for row `j`.
pub open spec fn row_value<V>(job: Job<V>, epi: MatvecEpi) -> spec_fn(int) -> V {
    |j: int|
        match epi {
            MatvecEpi::Plain => job.total(j),
            MatvecEpi::GeluMulCtx { ctx_buf, ctx_off, .. } => job.ar.product(
                gelu(job.ar, clamped(job.ar, job.total(j))),
                (job.bufs)(ctx_buf, ctx_off + job.first() + j),
            ),
        }
}

/// The store of row `j`.
pub proof fn lemma_store_row<V>(job: Job<V>, out_buf: u32, epi: MatvecEpi, n: u32, j: int)
    requires
        job.ok(),
        job.m.per == 2,
        0 <= j < job.t.nr,
        job.k < n,
        n + 4 <= u32::MAX,
        epi matches MatvecEpi::GeluMulCtx { ctx_off, .. } ==> ctx_off + job.first() + job.t.nr
            <= u32::MAX,
    ensures
        ({
            let b = store_row_code(out_buf, job.m.first, j as u32, job.acc(j), epi, n);
            &&& job.puts(b, j, (out_buf, job.first() + j), row_value(job, epi)(j))
            &&& !block_meets(b, b.len())
        }),
{
    let ar = job.ar;
    let acc = job.acc(j);
    let row = row_at(job.m.first, j as u32);
    let b = store_row_code(out_buf, job.m.first, j as u32, acc, epi, n);
    let at = (out_buf, job.first() + j);
    let x = row_value(job, epi)(j);
    lemma_acc(job, j);
    lemma_first_row(job);
    reveal_with_fuel(block_meets, 6);
    assert forall|l: Lane<V>, r: Regs<V>|
        l.bufs == job.bufs && quiet(r) && job.knows_rows(r) && job.has_totals(
            r,
            j,
        ) implies job.has_put(#[trigger] run(ar, l, b, r), r, j, at, x) by {
        lemma_guard(job, l, r, j);
        assert(value(ar, l, r, v(acc)) == job.total(j));
        match epi {
            MatvecEpi::Plain => {
                lemma_run_one(ar, l, Code::Flat(store(out_buf, row, v(acc))), r);
            },
            MatvecEpi::GeluMulCtx { ctx_buf, ctx_off, dt } => {
                let u = (n + 1) as u32;
                let to = (n + 2) as u32;
                let out = (n + 3) as u32;
                let b0 = gelu_code(code(), v(acc), n, u, to);
                let place = plus(cu(ctx_off), row);
                let y = ld(ctx_buf, place, dt);
                let s1 = Code::Flat(let_f(out, times(v(to), y)));
                let s2 = Code::Flat(store(out_buf, row, v(out)));
                lemma_gelu_steps(ar, l, r, v(acc), n, u, to);
                lemma_run_push(ar, l, b0, s1, r);
                lemma_run_push(ar, l, b0.push(s1), s2, r);
                let p0 = run(ar, l, b0, r);
                let p1 = run(ar, l, b0.push(s1), r);
                lemma_guard(job, l, p0, j);
                assert(index(ar, l, p0, cu(ctx_off)) == ctx_off);
                assert(index(ar, l, p0, place) == ctx_off + job.first() + j);
                assert(value(ar, l, p0, y) == (job.bufs)(ctx_buf, ctx_off + job.first() + j));
                assert(value(ar, l, p0, v(to)) == p0.f[to]);
                assert(p1.f[out] == x);
                lemma_guard(job, l, p1, j);
                assert(value(ar, l, p1, v(out)) == x);
                let p2 = run(ar, l, b, r);
                assert forall|s: int| 0 <= s < job.sums() && job.row(s) != j implies p2.f[
                    #[trigger] job.acc(s)
                ] == r.f[job.acc(s)] by {
                    lemma_acc(job, s);
                    assert(job.acc(s) < n);
                    assert(p0.f[job.acc(s)] == r.f[job.acc(s)]);
                }
            },
        }
    }
}

/// The sums and stores of the first `r` rows.
proof fn lemma_finish<V>(
    job: Job<V>,
    b: Seq<Code>,
    g0: Group<V>,
    out_buf: u32,
    epi: MatvecEpi,
    n: u32,
    r: nat,
)
    requires
        job.ar.exact(),
        job.ok(),
        job.m.per == 2,
        r <= job.t.nr,
        job.k < n,
        n + 4 * job.t.nr <= u32::MAX,
        epi matches MatvecEpi::GeluMulCtx { ctx_off, .. } ==> ctx_off + job.first() + job.t.nr
            <= u32::MAX,
        ({
            let g = group_run(job.ar, job.gid, job.bufs, b, g0);
            g.stored == Map::<(u32, int), V>::empty() && job.summed(g, 0)
        }),
    ensures
        ({
            let g = group_run(
                job.ar,
                job.gid,
                job.bufs,
                finish_code(b, job.m, job.t.tg, out_buf, epi, n, r),
                g0,
            );
            g.stored == job.finished(out_buf, r, row_value(job, epi)) && job.summed(g, r)
        }),
    decreases r,
{
    let y = row_value(job, epi);
    if r == 0 {
        assert(job.finished(out_buf, 0, y) =~= Map::<(u32, int), V>::empty());
    } else {
        let j = r - 1;
        lemma_finish(job, b, g0, out_buf, epi, n, j as nat);
        lemma_acc(job, j);
        let before = finish_code(b, job.m, job.t.tg, out_buf, epi, n, j as nat);
        let m = (n + epi_ids(epi) * j) as u32;
        assert(0 <= epi_ids(epi) * j <= 4 * j) by (nonlinear_arith)
            requires
                0 <= epi_ids(epi) <= 4,
                0 <= j,
        ;
        lemma_store_row(job, out_buf, epi, m, j);
        let code = store_row_code(out_buf, job.m.first, j as u32, job.acc(j), epi, m);
        lemma_row_end(job, before, g0, code, out_buf, j, y);
        assert(finish_code(b, job.m, job.t.tg, out_buf, epi, n, r) == before.push(
            job.row_end(j, code),
        ));
    }
}

/// Whether a thread has staged its elements below `n` and nothing but elements of the vector.
spec fn has_staged<V>(job: Job<V>, lid: int, r: Regs<V>, n: int) -> bool {
    &&& r.stored == Map::<(u32, int), V>::empty()
    &&& forall|at: (u32, int)| #[trigger]
        r.writes.contains_key(at) ==> at.0 == 0 && r.writes[at] == job.x(at.1)
    &&& forall|d: int|
        0 <= d < n && #[trigger] (d % job.t.tg as int) == lid ==> r.writes.contains_key((0u32, d))
}

spec fn stage_loop<V>(job: Job<V>, i: u32, e: KirExpr) -> Code {
    Code::ForRange {
        id: i,
        limit_off: cu(0),
        bound: cu(job.m.cols),
        step: cu(job.t.tg as u32),
        body: code().s(tg_store(0, uv(i), e)),
    }
}

/// Whether an expression over variable `i` is the vector, for threads with the float variables `f`.
spec fn is_x<V>(job: Job<V>, l: Lane<V>, f: Map<u32, V>, i: u32, e: KirExpr) -> bool {
    forall|q: Regs<V>|
        q.f == f && q.stored == Map::<(u32, int), V>::empty() && 0 <= q.u[i] < job.m.cols
            ==> #[trigger] value(job.ar, l, q, e) == job.x(q.u[i])
}

/// A thread stages every element that falls to it.
proof fn lemma_stage_loop<V>(job: Job<V>, l: Lane<V>, i: u32, e: KirExpr, r: Regs<V>)
    requires
        job.ok(),
        job.lane_ok(l),
        is_x(job, l, r.f, i, e),
        0 <= r.u[i] < job.m.cols + job.t.tg,
        r.u[i] % job.t.tg as int == l.lid,
        has_staged(job, l.lid, r, r.u[i]),
    ensures
        has_staged(job, l.lid, turns(job.ar, l, stage_loop(job, i, e), r), job.m.cols as int),
    decreases job.m.cols + job.t.tg - r.u[i],
{
    let whole = stage_loop(job, i, e);
    let at = r.u[i];
    let tg = job.t.tg as int;
    assert(index(job.ar, l, r, cu(0)) == 0);
    assert(index(job.ar, l, r, cu(job.m.cols)) == job.m.cols);
    if at < job.m.cols {
        let s = Code::Flat(tg_store(0, uv(i), e));
        lemma_run_one(job.ar, l, s, r);
        let b = run(job.ar, l, code().push(s), r);
        assert(index(job.ar, l, r, uv(i)) == at);
        assert(value(job.ar, l, r, e) == job.x(at));
        assert(b == (Regs { writes: r.writes.insert((0u32, at), job.x(at)), ..r }));
        assert(index(job.ar, l, b, cu(job.t.tg as u32)) == tg);
        let next = Regs { u: b.u.insert(i, at + tg), ..b };
        assert(turns(job.ar, l, whole, r) == turns(job.ar, l, whole, next));
        lemma_other_remainders(at, tg, l.lid);
        assert forall|d: int| 0 <= d < at + tg && #[trigger] (d % tg) == l.lid implies next
            .writes.contains_key((0u32, d)) by {
            if d < at {
                assert(r.writes.contains_key((0u32, d)));
            }
        }
        lemma_stage_loop(job, l, i, e, next);
    } else {
        assert(turns(job.ar, l, whole, r) == r);
    }
}

/// What one of the first `n` threads has staged, the group has.
proof fn lemma_collected<V>(job: Job<V>, m: Map<(u32, int), V>, regs: Seq<Regs<V>>, n: nat, d: int)
    requires
        n <= regs.len(),
        0 <= d < job.m.cols,
        forall|i: int| 0 <= i < n ==> has_staged(job, i, #[trigger] regs[i], job.m.cols as int),
        0 <= d % job.t.tg as int,
    ensures
        (d % job.t.tg as int) < n ==> {
            &&& collected(m, regs, n).contains_key((0u32, d))
            &&& collected(m, regs, n)[(0u32, d)] == job.x(d)
        },
    decreases n,
{
    if n > 0 {
        lemma_collected(job, m, regs, (n - 1) as nat, d);
        let last = regs[n - 1];
        assert(has_staged(job, n - 1, last, job.m.cols as int));
    }
}

/// After the loop that stages the vector it is staged.
proof fn lemma_stage_by<V>(job: Job<V>, b: Seq<Code>, g0: Group<V>, i: u32, e: KirExpr)
    requires
        job.ok(),
        job.m.tg_x == Some(0u32),
        ({
            let g = group_run(job.ar, job.gid, job.bufs, b, g0);
            &&& g.regs.len() == job.t.tg
            &&& g.stored == Map::<(u32, int), V>::empty()
            &&& forall|j: int|
                0 <= j < g.regs.len() ==> quiet(#[trigger] g.regs[j]) && is_x(
                    job,
                    lane(job.gid, job.bufs, g, j),
                    g.regs[j].f,
                    i,
                    e,
                )
        }),
    ensures
        ({
            let g = group_run(
                job.ar,
                job.gid,
                job.bufs,
                b.s(let_u(i, lid())).push(stage_loop(job, i, e)).s(barrier()),
                g0,
            );
            &&& g.regs.len() == job.t.tg
            &&& g.stored == Map::<(u32, int), V>::empty()
            &&& job.staged(g.shared)
            &&& forall|j: int| 0 <= j < g.regs.len() ==> quiet(#[trigger] g.regs[j])
        }),
{
    let (ar, gid, bufs) = (job.ar, job.gid, job.bufs);
    let s1 = Code::Flat(let_u(i, lid()));
    let s2 = stage_loop(job, i, e);
    let s3 = Code::Flat(barrier());
    let g1 = group_run(ar, gid, bufs, b, g0);
    let g2 = group_run(ar, gid, bufs, b.push(s1), g0);
    let g3 = group_run(ar, gid, bufs, b.push(s1).push(s2), g0);
    let g4 = group_run(ar, gid, bufs, b.push(s1).push(s2).push(s3), g0);
    lemma_group_push(ar, gid, bufs, b, s1, g0);
    lemma_group_push(ar, gid, bufs, b.push(s1), s2, g0);
    lemma_group_push(ar, gid, bufs, b.push(s1).push(s2), s3, g0);
    assert forall|j: int| 0 <= j < g1.regs.len() implies #[trigger] step(
        ar,
        lane(gid, bufs, g1, j),
        s1,
        g1.regs[j],
    ) == (Regs { u: g1.regs[j].u.insert(i, j), ..g1.regs[j] }) && quiet(g1.regs[j]) by {
        assert(index(ar, lane(gid, bufs, g1, j), g1.regs[j], lid()) == j);
    }
    lemma_apart_quiet(ar, gid, bufs, s1, g1);
    let after = Seq::new(g2.regs.len(), |j: int| step(ar, lane(gid, bufs, g2, j), s2, g2.regs[j]));
    assert forall|j: int| 0 <= j < after.len() implies has_staged(
        job,
        j,
        #[trigger] after[j],
        job.m.cols as int,
    ) by {
        let l = lane(gid, bufs, g2, j);
        assert(l == lane(gid, bufs, g1, j));
        assert(g2.regs[j] == step(ar, lane(gid, bufs, g1, j), s1, g1.regs[j]));
        lemma_first_turn(ar, job.chunk(0), job.t.tg as int, j);
        assert forall|d: int| 0 <= d < j && #[trigger] (d % job.t.tg as int) == j implies g2.regs[j]
            .writes.contains_key((0u32, d)) by {
            lemma_first_turn(ar, job.chunk(0), job.t.tg as int, d);
        }
        assert(is_x(job, l, g1.regs[j].f, i, e));
        lemma_stage_loop(job, l, i, e, g2.regs[j]);
    }
    assert(!meets(s2));
    assert(g3 == apart(ar, gid, bufs, s2, g2));
    assert(job.staged(g3.shared)) by {
        assert forall|d: int| 0 <= d < job.m.cols implies #[trigger] g3.shared[(0u32, d)] == job.x(
            d,
        ) by {
            assert(0 <= d % job.t.tg as int && (d % job.t.tg as int) < job.t.tg)
                by (nonlinear_arith)
                requires
                    job.t.tg >= 1,
            ;
            lemma_collected(job, g2.shared, after, after.len(), d);
        }
    }
    assert(g3.stored == g2.stored) by {
        lemma_nothing_stored(g2.stored, after, 0, after.len());
    }
    assert(g4 == g3);
}

/// A fresh group that has declared its array.
proof fn lemma_declared<V>(job: Job<V>, cols: usize)
    requires
        job.ok(),
    ensures
        ({
            let g = group_run(
                job.ar,
                job.gid,
                job.bufs,
                code().s(tg_decl(0, cols)),
                fresh_group(job.t.tg as nat),
            );
            &&& g.regs.len() == job.t.tg
            &&& g.stored == Map::<(u32, int), V>::empty()
            &&& forall|j: int| 0 <= j < g.regs.len() ==> quiet(#[trigger] g.regs[j])
        }),
{
    let (ar, gid, bufs) = (job.ar, job.gid, job.bufs);
    let s0 = Code::Flat(tg_decl(0, cols));
    let g0 = fresh_group::<V>(job.t.tg as nat);
    assert(group_run(ar, gid, bufs, code(), g0) == g0);
    lemma_group_push(ar, gid, bufs, code(), s0, g0);
    assert forall|j: int| 0 <= j < g0.regs.len() implies #[trigger] step(
        ar,
        lane(gid, bufs, g0, j),
        s0,
        g0.regs[j],
    ) == g0.regs[j] && quiet(g0.regs[j]) by {}
    lemma_apart_quiet(ar, gid, bufs, s0, g0);
    let g = group_run(ar, gid, bufs, code().push(s0), g0);
    assert forall|j: int| 0 <= j < g.regs.len() implies quiet(#[trigger] g.regs[j]) by {
        assert(g.regs[j] == step(ar, lane(gid, bufs, g0, j), s0, g0.regs[j]));
    }
}

/// After the prologue that copies it the vector is staged.
proof fn lemma_stage<V>(job: Job<V>, cols: usize, i: u32, dt: DType)
    requires
        job.ok(),
        cols == job.m.cols,
        job.m.tg_x == Some(0u32),
        forall|d: int| #[trigger] (job.xs)(d) == (job.bufs)(job.m.x_buf, d),
    ensures
        ({
            let g = group_run(
                job.ar,
                job.gid,
                job.bufs,
                copy_x_code(cols, job.m.x_buf, job.t.tg, dt, i),
                fresh_group(job.t.tg as nat),
            );
            &&& g.regs.len() == job.t.tg
            &&& g.stored == Map::<(u32, int), V>::empty()
            &&& job.staged(g.shared)
            &&& forall|j: int| 0 <= j < g.regs.len() ==> quiet(#[trigger] g.regs[j])
        }),
{
    let (ar, gid, bufs) = (job.ar, job.gid, job.bufs);
    let g0 = fresh_group::<V>(job.t.tg as nat);
    let b = code().s(tg_decl(0, cols));
    let e = ld(job.m.x_buf, uv(i), dt);
    lemma_declared(job, cols);
    let g = group_run(ar, gid, bufs, b, g0);
    assert forall|j: int| 0 <= j < g.regs.len() implies quiet(#[trigger] g.regs[j]) && is_x(
        job,
        lane(gid, bufs, g, j),
        g.regs[j].f,
        i,
        e,
    ) by {
        let l = lane(gid, bufs, g, j);
        assert forall|q: Regs<V>|
            q.f == g.regs[j].f && q.stored == Map::<(u32, int), V>::empty() && 0 <= q.u[i]
                < job.m.cols implies #[trigger] value(ar, l, q, e) == job.x(q.u[i]) by {
            assert(index(ar, l, q, uv(i)) == q.u[i]);
            assert((job.xs)(q.u[i]) == (job.bufs)(job.m.x_buf, q.u[i]));
        }
    }
    lemma_stage_by(job, b, g0, i, e);
    assert(copy_x_code(cols, job.m.x_buf, job.t.tg, dt, i) == b.s(let_u(i, lid())).push(
        stage_loop(job, i, e),
    ).s(barrier()));
}

/// After the prologue that normalises it the vector is staged.
proof fn lemma_stage_normed<V>(
    job: Job<V>,
    cols: usize,
    w_buf: u32,
    eps: Scalar,
    dt: DType,
    n0: u32,
)
    requires
        job.ar.exact(),
        job.ok(),
        cols == job.m.cols,
        job.m.tg_x == Some(0u32),
        n0 + 4 <= u32::MAX,
        forall|d: int| #[trigger]
            (job.xs)(d) == normed(
                job.ar,
                |k: int| (job.bufs)(job.m.x_buf, k),
                |k: int| (job.bufs)(w_buf, k),
                None,
                None,
                cols,
                eps,
                d,
            ),
    ensures
        ({
            let g = group_run(
                job.ar,
                job.gid,
                job.bufs,
                xhat_code(cols, eps, job.m.x_buf, w_buf, job.t.tg, dt, n0),
                fresh_group(job.t.tg as nat),
            );
            &&& g.regs.len() == job.t.tg
            &&& g.stored == Map::<(u32, int), V>::empty()
            &&& job.staged(g.shared)
            &&& forall|j: int| 0 <= j < g.regs.len() ==> quiet(#[trigger] g.regs[j])
        }),
{
    reveal(xhat_code);
    let (ar, gid, bufs) = (job.ar, job.gid, job.bufs);
    let g0 = fresh_group::<V>(job.t.tg as nat);
    let b0 = code().s(tg_decl(0, cols));
    let i = (n0 + 1) as u32;
    let inv = (n0 + 2) as u32;
    let i2 = (n0 + 3) as u32;
    let x = |k: int| bufs(job.m.x_buf, k);
    let sq = |k: int| ar.product(x(k), x(k));
    let xi = ld(job.m.x_buf, uv(i), dt);
    let d = factor_code(n0, i, inv, times(xi, xi), cols, eps, job.t.tg);
    lemma_declared(job, cols);
    let g = group_run(ar, gid, bufs, b0, g0);
    assert(reads(ar, bufs, g.shared, times(xi, xi), i, cols as int, sq)) by {
        assert forall|l: Lane<V>, q: Regs<V>|
            l.bufs == bufs && l.shared == g.shared && q.writes == Map::<(u32, int), V>::empty()
                && q.stored == Map::<(u32, int), V>::empty() && 0 <= q.u[i]
                < cols implies #[trigger] value(ar, l, q, times(xi, xi)) == sq(q.u[i]) by {
            assert(index(ar, l, q, uv(i)) == q.u[i]);
            assert(value(ar, l, q, xi) == x(q.u[i]));
        }
    }
    lemma_factor(ar, gid, bufs, g, n0, i, inv, times(xi, xi), sq, cols, eps, job.t.tg);
    lemma_group_cat(ar, gid, bufs, b0, d, d.len(), g0);
    let b = b0 + d;
    let p = group_run(ar, gid, bufs, b, g0);
    let factor = inverse_root(ar, x, cols, eps);
    assert(factor == root_of(ar, series(ar, sq, cols as nat), cols, eps));
    let xj = ld(job.m.x_buf, uv(i2), dt);
    let wj = ld(w_buf, uv(i2), dt);
    let e = times(times(xj, v(inv)), wj);
    assert forall|j: int| 0 <= j < p.regs.len() implies quiet(#[trigger] p.regs[j]) && is_x(
        job,
        lane(gid, bufs, p, j),
        p.regs[j].f,
        i2,
        e,
    ) by {
        let l = lane(gid, bufs, p, j);
        assert(but_factor(p.regs[j], g.regs[j], n0, i, inv));
        assert(p.regs[j].f[inv] == factor);
        assert forall|q: Regs<V>|
            q.f == p.regs[j].f && q.stored == Map::<(u32, int), V>::empty() && 0 <= q.u[i2]
                < job.m.cols implies #[trigger] value(ar, l, q, e) == job.x(q.u[i2]) by {
            let at = q.u[i2];
            assert(index(ar, l, q, uv(i2)) == at);
            assert(value(ar, l, q, xj) == x(at));
            assert(value(ar, l, q, wj) == bufs(w_buf, at));
            assert(value(ar, l, q, v(inv)) == factor);
            assert(value(ar, l, q, times(xj, v(inv))) == ar.product(x(at), factor));
            assert((job.xs)(at) == normed(
                ar,
                x,
                |k: int| bufs(w_buf, k),
                None,
                None,
                cols,
                eps,
                at,
            ));
        }
    }
    lemma_stage_by(job, b, g0, i2, e);
    assert(xhat_code(cols, eps, job.m.x_buf, w_buf, job.t.tg, dt, n0) =~= b.s(
        let_u(i2, lid()),
    ).push(stage_loop(job, i2, e)).s(barrier()));
}

/// The first row of a group, as its threads know it.
pub proof fn lemma_first<V>(job: Job<V>, b: Seq<Code>, g0: Group<V>)
    requires
        job.ok(),
        ({
            let g = group_run(job.ar, job.gid, job.bufs, b, g0);
            &&& g.regs.len() == job.t.tg
            &&& g.stored == Map::<(u32, int), V>::empty()
            &&& job.staged(g.shared)
            &&& forall|j: int| 0 <= j < g.regs.len() ==> quiet(#[trigger] g.regs[j])
        }),
    ensures
        job.ready(
            group_run(
                job.ar,
                job.gid,
                job.bufs,
                b.s(let_u(job.m.first, times(group_id(), cu(job.t.nr)))),
                g0,
            ),
            0,
        ),
{
    let (ar, gid, bufs) = (job.ar, job.gid, job.bufs);
    let s = let_u(job.m.first, times(group_id(), cu(job.t.nr)));
    let g = group_run(ar, gid, bufs, b, g0);
    lemma_group_push(ar, gid, bufs, b, Code::Flat(s), g0);
    lemma_apart_flat(job, s, g);
    lemma_first_row(job);
    assert forall|i: int| 0 <= i < g.regs.len() implies #[trigger] step(
        ar,
        lane(gid, bufs, g, i),
        Code::Flat(s),
        g.regs[i],
    ) == (Regs { u: g.regs[i].u.insert(job.m.first, job.first()), ..g.regs[i] }) && quiet(
        g.regs[i],
    ) by {
        let l = lane(gid, bufs, g, i);
        assert(index(ar, l, g.regs[i], group_id()) == gid);
        assert(index(ar, l, g.regs[i], cu(job.t.nr)) == job.t.nr);
    }
    lemma_apart_quiet(ar, gid, bufs, Code::Flat(s), g);
    let after = group_run(ar, gid, bufs, b.s(s), g0);
    assert forall|i: int| 0 <= i < after.regs.len() implies job.knows(
        #[trigger] after.regs[i],
        0,
    ) by {
        assert(after.regs[i] == step(ar, lane(gid, bufs, g, i), Code::Flat(s), g.regs[i]));
    }
}

/// The vector of a product: a buffer, normalised and weighted where that is asked for.
pub open spec fn given_x<V>(
    ar: Arith<V>,
    bufs: spec_fn(u32, int) -> V,
    cols: usize,
    x_buf: u32,
    rms: Option<(u32, Scalar)>,
) -> spec_fn(int) -> V {
    match rms {
        None => |i: int| bufs(x_buf, i),
        Some((w_buf, eps)) => |i: int|
            normed(
                ar,
                |k: int| bufs(x_buf, k),
                |k: int| bufs(w_buf, k),
                None,
                None,
                cols,
                eps,
                i,
            ),
    }
}

/// After the prologue the vector is staged where the kernel reads it staged.
pub proof fn lemma_prologue<V>(
    job: Job<V>,
    cols: usize,
    dt: DType,
    rms: Option<(u32, Scalar)>,
    n0: u32,
)
    requires
        job.ar.exact(),
        job.ok(),
        cols == job.m.cols,
        rms is Some ==> cols <= TG_X_FLOATS_MAX,
        n0 + 4 <= u32::MAX,
        job.m.tg_x == (if rms is Some || cols <= TG_X_FLOATS_MAX {
            Some(0u32)
        } else {
            None
        }),
        job.xs == given_x(job.ar, job.bufs, cols, job.m.x_buf, rms),
    ensures
        stage_x(cols, job.m.x_buf, job.t.tg, dt, rms, n0) matches Ok(st) && {
            let g = group_run(
                job.ar,
                job.gid,
                job.bufs,
                st.code,
                fresh_group(job.t.tg as nat),
            );
            &&& g.regs.len() == job.t.tg
            &&& g.stored == Map::<(u32, int), V>::empty()
            &&& job.staged(g.shared)
            &&& forall|j: int| 0 <= j < g.regs.len() ==> quiet(#[trigger] g.regs[j])
        },
{
    let g0 = fresh_group::<V>(job.t.tg as nat);
    match rms {
        Some((w_buf, eps)) => {
            lemma_stage_normed(job, cols, w_buf, eps, dt, n0);
        },
        None => {
            if cols <= TG_X_FLOATS_MAX {
                lemma_stage(job, cols, n0, dt);
            } else {
                assert(group_run(job.ar, job.gid, job.bufs, code(), g0) == g0);
            }
        },
    }
}

/// The work of group `gid` of the generic kernel with one matrix (`per` is 2) or two (`per` is 3).
pub open spec fn generic_job<V>(
    ar: Arith<V>,
    gid: int,
    bufs: spec_fn(u32, int) -> V,
    rows: usize,
    cols: usize,
    wd: DType,
    sched: OptSchedule,
    x_buf: u32,
    rms: Option<(u32, Scalar)>,
    per: u32,
    n0: u32,
) -> Job<V> {
    let t = tiling_of(effective_tg(wd, cols, sched.tg), effective_vec(wd, sched.vec), sched);
    let local = rms is Some || cols <= TG_X_FLOATS_MAX;
    let first = if rms is Some {
        (n0 + 4) as u32
    } else if local {
        (n0 + 1) as u32
    } else {
        n0
    };
    Job {
        ar,
        gid,
        bufs,
        xs: given_x(ar, bufs, cols, x_buf, rms),
        m: Rows {
            rows: rows as u32,
            cols: cols as u32,
            first,
            ids: (first + 1) as u32,
            per,
            x_buf,
            tg_x: if local {
                Some(0u32)
            } else {
                None
            },
            width: t.vec,
            dtype: wd,
        },
        t,
        k: (first + 1 + per * t.nr) as u32,
    }
}

/// The part of the generic kernel before it adds up the sums of its threads: every thread of the
/// group has its share of every sum.
pub proof fn lemma_shares_ready<V>(
    ar: Arith<V>,
    gid: int,
    bufs: spec_fn(u32, int) -> V,
    rows: usize,
    cols: usize,
    wd: DType,
    sched: OptSchedule,
    x_buf: u32,
    rms: Option<(u32, Scalar)>,
    per: u32,
    n0: u32,
)
    requires
        ar.exact(),
        sched_ok(sched),
        ids_fit(n0, sched),
        rows <= u32::MAX,
        cols + 0x80000 <= u32::MAX,
        rms is Some ==> cols <= TG_X_FLOATS_MAX,
        per == 2 || per == 3,
        0 <= gid,
        (gid + 1) * at_least_one(sched.nr0) <= u32::MAX,
        (gid + 1) * at_least_one(sched.nr0) * cols <= u32::MAX,
        generic_job(ar, gid, bufs, rows, cols, wd, sched, x_buf, rms, per, n0).reaches_all(),
    ensures
        ({
            let job = generic_job(ar, gid, bufs, rows, cols, wd, sched, x_buf, rms, per, n0);
            let t = job.t;
            &&& job.ok()
            &&& stage_x(cols, x_buf, t.tg, x_dtype(wd), rms, n0) matches Ok(st) && {
                let b = st.code.s(let_u(job.m.first, times(group_id(), cu(t.nr))));
                let head = decls_code(b, job.m, t.nr as nat);
                let g = group_run(
                    ar,
                    gid,
                    bufs,
                    sweep_code(head, job.m, t, job.k),
                    fresh_group(t.tg as nat),
                );
                &&& st.tg_x == job.m.tg_x
                &&& st.next == job.m.first
                &&& g.stored == Map::<(u32, int), V>::empty()
                &&& job.summed(g, 0)
            }
        }),
{
    let job = generic_job(ar, gid, bufs, rows, cols, wd, sched, x_buf, rms, per, n0);
    let t = job.t;
    let nr = t.nr as int;
    assert(t.tg * t.vec <= 1024 * 32) by (nonlinear_arith)
        requires
            1 <= t.tg <= 1024,
            1 <= t.vec <= 32,
    ;
    assert(job.first() + nr == (gid + 1) * nr) by (nonlinear_arith)
        requires
            job.first() == gid * nr,
    ;
    assert(per * t.nr == (if per == 2 {
        2 * t.nr
    } else {
        3 * t.nr
    }));
    assert(job.ok());
    let g0 = fresh_group::<V>(t.tg as nat);
    let st = stage_x(cols, x_buf, t.tg, x_dtype(wd), rms, n0)->Ok_0;
    assert(st.tg_x == job.m.tg_x && st.next == job.m.first);
    lemma_prologue(job, cols, x_dtype(wd), rms, n0);
    lemma_first(job, st.code, g0);
    let b = st.code.s(let_u(job.m.first, times(group_id(), cu(t.nr))));
    lemma_decls(job, b, g0, t.nr as nat);
    let head = decls_code(b, job.m, t.nr as nat);
    lemma_sweep(job, head, g0);
}

/// Every tiling of the generic kernel computes the product: group `gid` stores, for each of its
/// rows, the sum of the products of the row and the vector, or the gated one, and nothing else,
/// where sums may be taken in any order. The vector is normalised first where that is asked for.
/// Left out are tilings that lose elements: those with more than one element behind the last whole
/// chunk and more than one thread, and those of Q4_K with any.
pub proof fn lemma_generic<V>(
    ar: Arith<V>,
    gid: int,
    bufs: spec_fn(u32, int) -> V,
    rows: usize,
    cols: usize,
    wd: DType,
    sched: OptSchedule,
    x_buf: u32,
    out_buf: u32,
    rms: Option<(u32, Scalar)>,
    epi: MatvecEpi,
    n0: u32,
)
    requires
        ar.exact(),
        sched_ok(sched),
        ids_fit(n0, sched),
        rows <= u32::MAX,
        cols + 0x80000 <= u32::MAX,
        rms is Some ==> cols <= TG_X_FLOATS_MAX,
        epi matches MatvecEpi::GeluMulCtx { ctx_off, .. } ==> ctx_off + (gid + 1) * at_least_one(
            sched.nr0,
        ) <= u32::MAX,
        0 <= gid,
        (gid + 1) * at_least_one(sched.nr0) <= u32::MAX,
        (gid + 1) * at_least_one(sched.nr0) * cols <= u32::MAX,
        generic_job(ar, gid, bufs, rows, cols, wd, sched, x_buf, rms, 2, n0).reaches_all(),
    ensures
        ({
            let job = generic_job(ar, gid, bufs, rows, cols, wd, sched, x_buf, rms, 2, n0);
            let tg = effective_tg(wd, cols, sched.tg) as nat;
            matvec_generic(
                rows,
                cols,
                wd,
                sched,
                x_buf,
                out_buf,
                rms,
                epi,
                n0,
            ) matches Ok(
                lw,
            ) && group_run(ar, gid, bufs, lw.code, fresh_group(tg)).stored == job.finished(
                out_buf,
                job.t.nr as nat,
                row_value(job, epi),
            )
        }),
{
    reveal(matvec_generic);
    let job = generic_job(ar, gid, bufs, rows, cols, wd, sched, x_buf, rms, 2, n0);
    let t = job.t;
    lemma_shares_ready(ar, gid, bufs, rows, cols, wd, sched, x_buf, rms, 2, n0);
    let st = stage_x(cols, x_buf, t.tg, x_dtype(wd), rms, n0)->Ok_0;
    let b = st.code.s(let_u(job.m.first, times(group_id(), cu(t.nr))));
    let swept = sweep_code(decls_code(b, job.m, t.nr as nat), job.m, t, job.k);
    let g0 = fresh_group::<V>(t.tg as nat);
    assert(job.first() + t.nr == (gid + 1) * t.nr) by (nonlinear_arith)
        requires
            job.first() == gid * t.nr,
    ;
    lemma_finish(job, swept, g0, out_buf, epi, (job.k + 1) as u32, t.nr as nat);
}

} // verus!
