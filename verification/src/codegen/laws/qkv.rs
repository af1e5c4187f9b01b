//! What the kernel that projects queries, keys and values computes.

use vstd::prelude::*;

use crate::codegen::laws::group::{lemma_apart_leader, lemma_apart_quiet, quiet};
use crate::codegen::laws::machine::{
    adds_up, block_meets, fresh_group, group_run, group_step, holds, index, is_index, lane,
    lemma_group_push, lemma_run_one, lemma_run_push, meets, run, shared_at, simd_only, step, turns,
    value, Arith, Group, Lane, Regs,
};
use crate::codegen::laws::matvec::Job;
use crate::codegen::laws::product::{given_x, lemma_first, lemma_prologue};
use crate::codegen::laws::solo::{block_silent, each_alone, lemma_meets_at, lemma_solo};
use crate::codegen::laws::streams::{
    lemma_chunk_loop, lemma_main_loop, lemma_no_waiting, lemma_tail, Pass,
};
use crate::codegen::laws::sums::{lemma_first_turn, lemma_group_total, series, share};
use crate::codegen::laws::sweep::lemma_parts_sum;
use crate::codegen::lower::block::{
    c, code, cu, equal, gid as group_id, gt, let_f, let_u, lid, reduce, row_at, store, times, uv, v,
    Extend,
};
use crate::codegen::lower::fused::{
    most_rows, qkv_lowered, qkv_row, qkv_rows, qkv_vec, streams_decl, streams_sweep, Qkv, QkvSpec,
    Stream,
};
use crate::codegen::lower::matvec::{
    at_least_one, effective_tg, ids_fit, packed_k_quant, sched_ok, stage_x, tiling_of, x_dtype,
    Rows, Tiling, TG_X_FLOATS_MAX,
};
use crate::ir::dtype::{Scalar, ZERO};
use crate::ir::kernel::{Code, OptSchedule};

verus! {

impl<V> Pass<V> {
    /// The whole sum of a stream.
    pub open spec fn total(self, w: int) -> V {
        series(self.ar, self.job(w).term(0), self.q.cols as nat)
    }

    /// Whether a thread that has written nothing knows the first row of its group.
    pub open spec fn knows_first(self, r: Regs<V>) -> bool {
        quiet(r) && r.u[self.q.first] == self.gid * self.t.nr
    }

    /// Whether a group is between two passes.
    pub open spec fn between(self, g: Group<V>) -> bool {
        &&& g.regs.len() == self.t.tg
        &&& match self.q.tg_x {
            None => true,
            Some(id) => forall|i: int|
                0 <= i < self.q.cols ==> #[trigger] g.shared[(id, i)] == (self.xs)(i),
        }
        &&& forall|i: int| 0 <= i < g.regs.len() ==> self.knows_first(#[trigger] g.regs[i])
    }

    /// Whether a thread knows the whole sums.
    pub open spec fn has_totals(self, r: Regs<V>) -> bool {
        forall|w: int|
            0 <= w < self.n() ==> r.f[(#[trigger] self.stream(w)).acc] == self.total(w)
    }

    /// Whether a block, taken by a thread that knows the whole sums, stores `m` and does nothing
    /// else.
    pub open spec fn puts(self, b: Seq<Code>, m: Map<(u32, int), V>) -> bool {
        forall|l: Lane<V>, r: Regs<V>|
            self.lane_ok(l) && self.knows_first(r) && self.has_totals(r) ==> #[trigger] run(
                self.ar,
                l,
                b,
                r,
            ) == (Regs { stored: m, ..r })
    }
}

/// A thread after the declarations stands at its first turn.
proof fn lemma_decl<V>(p: Pass<V>, g: Group<V>, i: int)
    requires
        p.ok(),
        p.between(g),
        0 <= i < p.t.tg,
    ensures
        ({
            let l = lane(p.gid, p.bufs, g, i);
            let b = streams_decl(p.q, p.t, p.s, p.s2, p.r, p.base, p.k);
            let r = run(p.ar, l, b, g.regs[i]);
            p.stands(l, r, i as nat) && p.knows_first(r)
        }),
{
    let (ar, l, r) = (p.ar, lane(p.gid, p.bufs, g, i), g.regs[i]);
    assert(p.knows_first(r));
    let row = row_at(p.q.first, p.r);
    let s1 = Code::Flat(let_u(p.base, times(row, cu(p.q.cols))));
    let s2 = Code::Flat(let_f(p.s.acc, c(ZERO)));
    let s4 = Code::Flat(let_u(p.k, times(lid(), cu(p.t.vec))));
    let b1 = code().push(s1);
    let b2 = b1.push(s2);
    lemma_run_one(ar, l, s1, r);
    lemma_run_push(ar, l, b1, s2, r);
    assert(0 <= p.gid * p.t.nr) by (nonlinear_arith)
        requires
            0 <= p.gid,
    ;
    assert(index(ar, l, r, uv(p.q.first)) == p.gid * p.t.nr);
    assert(index(ar, l, r, cu(p.r)) == p.r);
    assert(index(ar, l, r, row) == p.row());
    assert(index(ar, l, r, cu(p.q.cols)) == p.q.cols);
    assert(index(ar, l, r, times(row, cu(p.q.cols))) == p.start());
    let r1 = run(ar, l, b1, r);
    assert(r1 == (Regs { u: r.u.insert(p.base, p.start()), ..r }));
    let r2 = run(ar, l, b2, r);
    assert(value(ar, l, r1, c(ZERO)) == ar.zero());
    assert(r2 == (Regs { f: r1.f.insert(p.s.acc, ar.zero()), ..r1 }));
    let b3 = match p.s2 {
        None => b2,
        Some(o) => b2.push(Code::Flat(let_f(o.acc, c(ZERO)))),
    };
    match p.s2 {
        None => {},
        Some(o) => {
            lemma_run_push(ar, l, b2, Code::Flat(let_f(o.acc, c(ZERO))), r);
            assert(value(ar, l, r2, c(ZERO)) == ar.zero());
        },
    }
    let r3 = run(ar, l, b3, r);
    assert(r3 == (Regs { f: r3.f, ..r1 }));
    assert forall|w: int| 0 <= w < p.n() implies r3.f[(#[trigger] p.stream(w)).acc]
        == ar.zero() by {}
    lemma_run_push(ar, l, b3, s4, r);
    assert(0 <= i * p.t.vec <= 1024 * 32) by (nonlinear_arith)
        requires
            0 <= i < 1024,
            0 <= p.t.vec <= 32,
    ;
    assert(index(ar, l, r3, lid()) == i);
    assert(index(ar, l, r3, cu(p.t.vec)) == p.t.vec);
    let r4 = run(ar, l, b3.push(s4), r);
    assert(r4 == (Regs { u: r3.u.insert(p.k, i * p.t.vec), ..r3 }));
    assert(streams_decl(p.q, p.t, p.s, p.s2, p.r, p.base, p.k) == b3.push(s4));
    match p.q.tg_x {
        None => {},
        Some(id) => {
            assert forall|d: int| 0 <= d < p.q.cols implies #[trigger] shared_at(l, r4, id, d)
                == (p.xs)(d) by {
                assert(g.shared[(id, d)] == (p.xs)(d));
            }
        },
    }
    lemma_first_turn(ar, p.job(0).chunk(0), p.t.tg as int, i);
    assert forall|w: int| 0 <= w < p.n() implies r4.f[(#[trigger] p.stream(w)).acc] == share(
        ar,
        p.job(w).chunk(0),
        p.t.tg as int,
        i,
        i as nat,
    ) by {
        lemma_first_turn(ar, p.job(w).chunk(0), p.t.tg as int, i);
    }
    assert(p.chunks() >= 0) by (nonlinear_arith)
        requires
            p.chunks() == p.q.cols as int / p.t.vec as int,
            p.t.vec >= 1,
    ;
}

/// Whether the threads of a group hold their shares of everything.
spec fn shared_out<V>(p: Pass<V>, g: Group<V>) -> bool {
    &&& p.between(g)
    &&& forall|i: int| 0 <= i < g.regs.len() ==> p.has_all(i, (#[trigger] g.regs[i]).f)
}

/// The statements of a pass before the sums are added up over the group.
spec fn loops<V>(p: Pass<V>) -> Seq<Code> {
    let b = streams_decl(p.q, p.t, p.s, p.s2, p.r, p.base, p.k).push(p.main_loop()).push(
        p.chunk_loop(),
    );
    if packed_k_quant(p.q.lead) {
        b
    } else {
        b.push(p.tail_loop())
    }
}

/// After the loops every thread holds its share.
proof fn lemma_loops<V>(p: Pass<V>, g: Group<V>)
    requires
        p.ar.exact(),
        p.ok(),
        p.between(g),
        p.job(0).reaches_all(),
    ensures
        ({
            let h = group_run(p.ar, p.gid, p.bufs, loops(p), g);
            shared_out(p, h) && h.stored == g.stored && h.shared == g.shared
        }),
{
    let (ar, gid, bufs) = (p.ar, p.gid, p.bufs);
    let b = streams_decl(p.q, p.t, p.s, p.s2, p.r, p.base, p.k);
    let s1 = p.main_loop();
    let s2 = p.chunk_loop();
    let s3 = p.tail_loop();
    lemma_no_waiting(p);
    assert(block_silent(b, b.len())) by {
        reveal_with_fuel(block_silent, 5);
    }
    assert forall|i: int| 0 <= i < g.regs.len() implies quiet(#[trigger] g.regs[i]) by {
        assert(p.knows_first(g.regs[i]));
    }
    lemma_solo(ar, gid, bufs, b, g);
    let g1 = group_run(ar, gid, bufs, b, g);
    let g2 = group_run(ar, gid, bufs, b.push(s1), g);
    let g3 = group_run(ar, gid, bufs, b.push(s1).push(s2), g);
    let g4 = group_run(ar, gid, bufs, b.push(s1).push(s2).push(s3), g);
    lemma_group_push(ar, gid, bufs, b, s1, g);
    lemma_group_push(ar, gid, bufs, b.push(s1), s2, g);
    lemma_group_push(ar, gid, bufs, b.push(s1).push(s2), s3, g);
    assert(g1 == each_alone(ar, gid, bufs, b, g));
    assert forall|i: int| 0 <= i < g1.regs.len() implies {
        let q = #[trigger] step(ar, lane(gid, bufs, g1, i), s1, g1.regs[i]);
        &&& quiet(q)
        &&& p.knows_first(q)
        &&& exists|d: nat| p.stands(lane(gid, bufs, g1, i), q, d)
    } by {
        let l = lane(gid, bufs, g, i);
        assert(lane(gid, bufs, g1, i) == l);
        lemma_decl(p, g, i);
        assert(g1.regs[i] == run(ar, l, b, g.regs[i]));
        lemma_main_loop(p, l, g1.regs[i], i as nat);
        assert(step(ar, l, s1, g1.regs[i]) == turns(ar, l, s1, g1.regs[i]));
    }
    lemma_apart_quiet(ar, gid, bufs, s1, g1);
    assert forall|i: int| 0 <= i < g2.regs.len() implies {
        let q = #[trigger] step(ar, lane(gid, bufs, g2, i), s2, g2.regs[i]);
        &&& quiet(q)
        &&& p.knows_first(q)
        &&& exists|d: nat| d >= p.chunks() && p.stands(lane(gid, bufs, g2, i), q, d)
    } by {
        let l = lane(gid, bufs, g1, i);
        assert(lane(gid, bufs, g2, i) == l);
        assert(g2.regs[i] == step(ar, l, s1, g1.regs[i]));
        let d = choose|d: nat| p.stands(l, step(ar, l, s1, g1.regs[i]), d);
        lemma_chunk_loop(p, l, g2.regs[i], d);
        let q = step(ar, l, s2, g2.regs[i]);
        assert(q == turns(ar, l, s2, g2.regs[i]));
        let e = choose|e: nat| e >= p.chunks() && p.stands(l, q, e);
        assert(p.stands(lane(gid, bufs, g2, i), q, e));
    }
    lemma_apart_quiet(ar, gid, bufs, s2, g2);
    assert forall|i: int| 0 <= i < g3.regs.len() implies {
        let q = #[trigger] step(ar, lane(gid, bufs, g3, i), s3, g3.regs[i]);
        &&& quiet(q)
        &&& p.knows_first(q)
        &&& p.has_all(i, q.f)
        &&& p.knows_first(g3.regs[i])
        &&& p.job(0).parts() == p.chunks() ==> p.has_all(i, g3.regs[i].f)
    } by {
        let l = lane(gid, bufs, g2, i);
        assert(lane(gid, bufs, g3, i) == l);
        assert(g3.regs[i] == step(ar, l, s2, g2.regs[i]));
        let d = choose|d: nat|
            d >= p.chunks() && p.stands(l, step(ar, l, s2, g2.regs[i]), d);
        lemma_tail(p, l, g3.regs[i], d);
        assert(step(ar, l, s3, g3.regs[i]) == turns(ar, l, s3, g3.regs[i]));
    }
    lemma_apart_quiet(ar, gid, bufs, s3, g3);
    if packed_k_quant(p.q.lead) {
        assert forall|i: int| 0 <= i < g3.regs.len() implies p.knows_first(#[trigger] g3.regs[i])
            && p.has_all(i, g3.regs[i].f) by {
            let q = step(ar, lane(gid, bufs, g3, i), s3, g3.regs[i]);
        }
    } else {
        assert forall|i: int| 0 <= i < g4.regs.len() implies p.knows_first(#[trigger] g4.regs[i])
            && p.has_all(i, g4.regs[i].f) by {
            assert(g4.regs[i] == step(ar, lane(gid, bufs, g3, i), s3, g3.regs[i]));
        }
    }
}

/// A group adds up the sums of one stream.
proof fn lemma_reduce<V>(p: Pass<V>, g: Group<V>, w: int)
    requires
        p.ar.exact(),
        p.ok(),
        0 <= w < p.n(),
        p.between(g),
        forall|i: int|
            0 <= i < g.regs.len() ==> (#[trigger] g.regs[i]).f[p.stream(w).acc] == share(
                p.ar,
                p.job(w).part(0),
                p.t.tg as int,
                i,
                p.job(w).parts(),
            ),
    ensures
        ({
            let s = Code::Flat(reduce(p.stream(w).acc, p.t.tg));
            let h = group_step(p.ar, p.gid, p.bufs, s, g);
            &&& p.between(h)
            &&& h.shared == g.shared
            &&& h.stored == g.stored
            &&& forall|i: int|
                0 <= i < g.regs.len() ==> #[trigger] h.regs[i] == (Regs {
                    f: g.regs[i].f.insert(p.stream(w).acc, p.total(w)),
                    ..g.regs[i]
                })
        }),
{
    let acc = p.stream(w).acc;
    let job = p.job(w);
    assert(job.first() == p.row());
    assert((p.row() + 1) * p.q.cols == p.start() + p.q.cols) by (nonlinear_arith)
        requires
            p.start() == p.row() * p.q.cols,
    ;
    assert(0 <= p.gid * p.t.nr) by (nonlinear_arith)
        requires
            0 <= p.gid,
    ;
    assert(job.ok());
    lemma_group_total(p.ar, job.part(0), g.regs, acc, job.parts());
    lemma_parts_sum(job, 0);
    let h = group_step(p.ar, p.gid, p.bufs, Code::Flat(reduce(acc, p.t.tg)), g);
    assert forall|i: int| 0 <= i < g.regs.len() implies #[trigger] h.regs[i] == (Regs {
        f: g.regs[i].f.insert(acc, p.total(w)),
        ..g.regs[i]
    }) && p.knows_first(h.regs[i]) by {
        assert(p.knows_first(g.regs[i]));
    }
}

/// After the pass every thread knows the whole sums.
proof fn lemma_sweep<V>(p: Pass<V>, g: Group<V>)
    requires
        p.ar.exact(),
        p.ok(),
        p.between(g),
        p.job(0).reaches_all(),
    ensures
        ({
            let b = streams_sweep(p.q, p.t, p.s, p.s2, p.r, p.base, p.k);
            let h = group_run(p.ar, p.gid, p.bufs, b, g);
            &&& p.between(h)
            &&& h.shared == g.shared
            &&& h.stored == g.stored
            &&& forall|i: int| 0 <= i < h.regs.len() ==> p.has_totals(#[trigger] h.regs[i])
            &&& meets(b.last())
            &&& !adds_up(b.last())
            &&& b.len() > 0
        }),
{
    let (ar, gid, bufs) = (p.ar, p.gid, p.bufs);
    let b = loops(p);
    lemma_loops(p, g);
    let s1 = Code::Flat(reduce(p.s.acc, p.t.tg));
    let g0 = group_run(ar, gid, bufs, b, g);
    let g1 = group_run(ar, gid, bufs, b.push(s1), g);
    lemma_group_push(ar, gid, bufs, b, s1, g);
    assert forall|i: int| 0 <= i < g0.regs.len() implies (#[trigger] g0.regs[i]).f[p.stream(0).acc]
        == share(ar, p.job(0).part(0), p.t.tg as int, i, p.job(0).parts()) by {
        assert(p.has_all(i, g0.regs[i].f));
    }
    lemma_reduce(p, g0, 0);
    match p.s2 {
        None => {
            assert forall|i: int| 0 <= i < g1.regs.len() implies p.has_totals(
                #[trigger] g1.regs[i],
            ) by {
                assert(g1.regs[i].f[p.stream(0).acc] == p.total(0));
            }
        },
        Some(o) => {
            let s2 = Code::Flat(reduce(o.acc, p.t.tg));
            lemma_group_push(ar, gid, bufs, b.push(s1), s2, g);
            assert forall|i: int| 0 <= i < g1.regs.len() implies (#[trigger] g1.regs[i]).f[p.stream(
                1,
            ).acc] == share(ar, p.job(1).part(0), p.t.tg as int, i, p.job(1).parts()) by {
                assert(p.has_all(i, g0.regs[i].f));
                assert(g0.regs[i].f[p.stream(1).acc] == share(
                    ar,
                    p.job(1).part(0),
                    p.t.tg as int,
                    i,
                    p.job(1).parts(),
                ));
            }
            lemma_reduce(p, g1, 1);
            let g2 = group_run(ar, gid, bufs, b.push(s1).push(s2), g);
            assert forall|i: int| 0 <= i < g2.regs.len() implies p.has_totals(
                #[trigger] g2.regs[i],
            ) by {
                assert(g1.regs[i].f[p.stream(0).acc] == p.total(0));
                assert(g2.regs[i].f[p.stream(1).acc] == p.total(1));
                assert(g2.regs[i].f[p.stream(0).acc] == p.total(0));
            }
        },
    }
}

/// The block of a pass with its stores.
pub open spec fn pass_code<V>(p: Pass<V>, b: Seq<Code>) -> Seq<Code> {
    streams_sweep(p.q, p.t, p.s, p.s2, p.r, p.base, p.k).when(equal(lid(), cu(0)), b)
}

/// A guarded pass stores what it should where its row exists, and nothing where it does not.
proof fn lemma_pass<V>(p: Pass<V>, g: Group<V>, rows: u32, b: Seq<Code>, m: Map<(u32, int), V>)
    requires
        p.ar.exact(),
        p.ok(),
        p.between(g),
        p.job(0).reaches_all(),
        p.puts(b, m),
        !block_meets(b, b.len()),
    ensures
        ({
            let whole = Code::If {
                cond: gt(cu(rows), row_at(p.q.first, p.r)),
                body: pass_code(p, b),
            };
            let h = group_step(p.ar, p.gid, p.bufs, whole, g);
            &&& p.between(h)
            &&& h.stored == (if p.row() < rows {
                g.stored.union_prefer_right(m)
            } else {
                g.stored
            })
            &&& meets(whole)
        }),
{
    let (ar, gid, bufs) = (p.ar, p.gid, p.bufs);
    let a = streams_sweep(p.q, p.t, p.s, p.s2, p.r, p.base, p.k);
    let s = Code::If { cond: equal(lid(), cu(0)), body: b };
    let body = a.push(s);
    let whole = Code::If { cond: gt(cu(rows), row_at(p.q.first, p.r)), body };
    lemma_sweep(p, g);
    assert(body[a.len() - 1] == a.last());
    lemma_meets_at(body, a.len() - 1, body.len());
    assert(!simd_only(body)) by {
        assert(meets(body[a.len() - 1]) && !adds_up(body[a.len() - 1]));
    }
    lemma_row_guard(p, g, 0, rows);
    if p.row() < rows {
        lemma_group_push(ar, gid, bufs, a, s, g);
        let h = group_run(ar, gid, bufs, a, g);
        assert forall|i: int| 0 <= i < h.regs.len() implies holds(
            ar,
            #[trigger] lane(gid, bufs, h, i),
            h.regs[i],
            equal(lid(), cu(0)),
        ) == (i == 0) by {
            let l = lane(gid, bufs, h, i);
            assert(index(ar, l, h.regs[i], lid()) == i);
            assert(index(ar, l, h.regs[i], cu(0)) == 0);
        }
        assert forall|i: int| 0 <= i < h.regs.len() implies quiet(#[trigger] h.regs[i]) by {
            assert(p.knows_first(h.regs[i]));
        }
        let l0 = lane(gid, bufs, h, 0);
        assert(p.knows_first(h.regs[0]) && p.has_totals(h.regs[0]));
        assert(run(ar, l0, b, h.regs[0]) == (Regs { stored: m, ..h.regs[0] }));
        assert forall|i: int| 0 < i < h.regs.len() implies #[trigger] step(
            ar,
            lane(gid, bufs, h, i),
            s,
            h.regs[i],
        ) == h.regs[i] by {
            assert(!holds(ar, lane(gid, bufs, h, i), h.regs[i], equal(lid(), cu(0))));
        }
        lemma_apart_leader(ar, gid, bufs, s, h, h.regs[0], m);
        assert(h.regs.update(0, h.regs[0]) =~= h.regs);
        assert(!meets(s));
    }
}

/// The guard of a row.
proof fn lemma_row_guard<V>(p: Pass<V>, g: Group<V>, i: int, rows: u32)
    requires
        p.ok(),
        p.between(g),
        0 <= i < p.t.tg,
    ensures
        holds(
            p.ar,
            lane(p.gid, p.bufs, g, i),
            g.regs[i],
            gt(cu(rows), row_at(p.q.first, p.r)),
        ) == (p.row() < rows),
{
    let (ar, l, r) = (p.ar, lane(p.gid, p.bufs, g, i), g.regs[i]);
    assert(p.knows_first(r));
    lemma_row_index(p, l, r);
    assert(index(ar, l, r, cu(rows)) == rows);
    assert(is_index(cu(rows)));
}

/// The row, as a thread finds it.
proof fn lemma_row_index<V>(p: Pass<V>, l: Lane<V>, r: Regs<V>)
    requires
        p.ok(),
        r.u[p.q.first] == p.gid * p.t.nr,
    ensures
        index(p.ar, l, r, row_at(p.q.first, p.r)) == p.row(),
{
    assert(0 <= p.gid * p.t.nr) by (nonlinear_arith)
        requires
            0 <= p.gid,
    ;
    assert(index(p.ar, l, r, uv(p.q.first)) == p.gid * p.t.nr);
    assert(index(p.ar, l, r, cu(p.r)) == p.r);
}

/// A group of the kernel at work: the arithmetic, the group, the device buffers, the vector, the
/// shapes, what the rows share, the tiling, and the first variable of the rows.
#[verifier::reject_recursive_types(V)]
pub ghost struct Projection<V> {
    pub ar: Arith<V>,
    pub gid: int,
    pub bufs: spec_fn(u32, int) -> V,
    pub xs: spec_fn(int) -> V,
    pub p: QkvSpec,
    pub q: Qkv,
    pub t: Tiling,
    pub n: u32,
}

impl<V> Projection<V> {
    /// The first row of the group.
    pub open spec fn first(self) -> int {
        self.gid * self.t.nr
    }

    /// Row `row` of the matrix in a buffer, times the vector.
    pub open spec fn product(self, buf: u32, row: int) -> V {
        series(
            self.ar,
            |i: int| self.ar.product((self.bufs)(buf, row * self.q.cols + i), (self.xs)(i)),
            self.q.cols as nat,
        )
    }

    /// The pass over the queries of row `j` of the group.
    pub open spec fn queries(self, j: int) -> Pass<V> {
        let n = (self.n + 7 * j) as u32;
        Pass {
            ar: self.ar,
            gid: self.gid,
            bufs: self.bufs,
            xs: self.xs,
            q: self.q,
            t: self.t,
            s: Stream { acc: n, w: 0, dtype: self.p.wq },
            s2: None,
            r: j as u32,
            base: (n + 2) as u32,
            k: (n + 1) as u32,
        }
    }

    /// The pass over the keys and values of row `j` of the group.
    pub open spec fn keys(self, j: int) -> Pass<V> {
        let n = (self.n + 7 * j) as u32;
        Pass {
            s: Stream { acc: (n + 3) as u32, w: 1, dtype: self.p.wk },
            s2: Some(Stream { acc: (n + 4) as u32, w: 2, dtype: self.p.wv }),
            base: (n + 6) as u32,
            k: (n + 5) as u32,
            ..self.queries(j)
        }
    }

    /// Whether the variables are apart and all indices are machine integers.
    pub open spec fn ok(self) -> bool {
        &&& self.t.ok()
        &&& self.q.first < self.n
        &&& self.n + 7 * self.t.nr <= u32::MAX
        &&& 0 <= self.gid
        &&& self.first() + self.t.nr <= u32::MAX
        &&& (self.first() + self.t.nr) * self.q.cols <= u32::MAX
        &&& self.q.cols + 0x80000 <= u32::MAX
        &&& self.p.q_rows <= u32::MAX
        &&& self.p.kv_rows <= u32::MAX
        &&& self.p.out_q != self.p.out_k
        &&& self.p.out_q != self.p.out_v
        &&& self.p.out_k != self.p.out_v
        &&& self.q.tg_x is None ==> forall|i: int| #[trigger]
            (self.xs)(i) == (self.bufs)(self.q.x_buf, i)
    }

    /// What the first `r` rows of the group hold, as far as they exist: a row of each product.
    pub open spec fn finished(self, r: nat) -> Map<(u32, int), V> {
        Map::new(
            |at: (u32, int)|
                self.first() <= at.1 < self.first() + r && (if at.0 == self.p.out_q {
                    at.1 < self.p.q_rows
                } else {
                    (at.0 == self.p.out_k || at.0 == self.p.out_v) && at.1 < self.p.kv_rows
                }),
            |at: (u32, int)|
                self.product(
                    if at.0 == self.p.out_q {
                        0
                    } else if at.0 == self.p.out_k {
                        1
                    } else {
                        2
                    },
                    at.1,
                ),
        )
    }

    /// Whether no element is lost behind the last whole chunk: there is none, or the tail reaches
    /// all of them.
    pub open spec fn reaches_all(self) -> bool {
        let rest = self.q.cols as int % self.t.vec as int;
        rest == 0 || (!packed_k_quant(self.q.lead) && (rest == 1 || self.t.tg == 1))
    }
}

/// The passes of a row are in order.
proof fn lemma_passes_ok<V>(w: Projection<V>, j: int)
    requires
        w.ok(),
        w.reaches_all(),
        0 <= j < w.t.nr,
    ensures
        w.queries(j).ok(),
        w.keys(j).ok(),
        w.queries(j).job(0).reaches_all(),
        w.keys(j).job(0).reaches_all(),
        w.queries(j).row() == w.first() + j,
        w.keys(j).row() == w.first() + j,
{
    let cols = w.q.cols as int;
    let vec = w.t.vec as int;
    let row = w.first() + j;
    assert(0 <= w.first()) by (nonlinear_arith)
        requires
            w.first() == w.gid * w.t.nr,
            0 <= w.gid,
    ;
    assert(0 <= row * cols && row * cols + cols <= u32::MAX) by (nonlinear_arith)
        requires
            row == w.first() + j,
            0 <= w.first(),
            0 <= j < w.t.nr,
            0 <= cols,
            (w.first() + w.t.nr) * cols <= u32::MAX,
    ;
    assert(cols % vec == cols - cols / vec * vec) by (nonlinear_arith)
        requires
            vec >= 1,
    ;
}

/// The sums of the passes are rows of the products.
proof fn lemma_totals<V>(w: Projection<V>, j: int)
    requires
        w.ok(),
        0 <= j < w.t.nr,
    ensures
        w.queries(j).total(0) == w.product(0, w.first() + j),
        w.keys(j).total(0) == w.product(1, w.first() + j),
        w.keys(j).total(1) == w.product(2, w.first() + j),
{
    let row = w.first() + j;
    let t = |b: u32|
        |i: int| w.ar.product((w.bufs)(b, row * w.q.cols + i), (w.xs)(i));
    assert(w.queries(j).job(0).first() == row);
    assert(w.queries(j).job(0).term(0) =~= t(0));
    assert(w.keys(j).job(0).term(0) =~= t(1));
    assert(w.keys(j).job(1).term(0) =~= t(2));
    assert(t(0) =~= |i: int| w.ar.product((w.bufs)(0, row * w.q.cols + i), (w.xs)(i)));
    assert(t(1) =~= |i: int| w.ar.product((w.bufs)(1, row * w.q.cols + i), (w.xs)(i)));
    assert(t(2) =~= |i: int| w.ar.product((w.bufs)(2, row * w.q.cols + i), (w.xs)(i)));
}

/// The stores of the passes.
proof fn lemma_stores<V>(w: Projection<V>, j: int)
    requires
        w.ok(),
        w.reaches_all(),
        0 <= j < w.t.nr,
    ensures
        ({
            let row = row_at(w.q.first, j as u32);
            let at = w.first() + j;
            let (a, b) = (w.queries(j), w.keys(j));
            let one = code().s(store(w.p.out_q, row, v(a.s.acc)));
            let two = code().s(store(w.p.out_k, row, v(b.s.acc))).s(
                store(w.p.out_v, row, v(b.s2->0.acc)),
            );
            &&& a.puts(one, Map::empty().insert((w.p.out_q, at), w.product(0, at)))
            &&& b.puts(
                two,
                Map::empty().insert((w.p.out_k, at), w.product(1, at)).insert(
                    (w.p.out_v, at),
                    w.product(2, at),
                ),
            )
            &&& !block_meets(one, one.len())
            &&& !block_meets(two, two.len())
        }),
{
    let ar = w.ar;
    let row = row_at(w.q.first, j as u32);
    let at = w.first() + j;
    let (a, b) = (w.queries(j), w.keys(j));
    let s1 = Code::Flat(store(w.p.out_q, row, v(a.s.acc)));
    let s2 = Code::Flat(store(w.p.out_k, row, v(b.s.acc)));
    let s3 = Code::Flat(store(w.p.out_v, row, v(b.s2->0.acc)));
    lemma_passes_ok(w, j);
    lemma_totals(w, j);
    reveal_with_fuel(block_meets, 3);
    assert forall|l: Lane<V>, r: Regs<V>|
        a.lane_ok(l) && a.knows_first(r) && a.has_totals(r) implies #[trigger] run(
        ar,
        l,
        code().push(s1),
        r,
    ) == (Regs { stored: Map::empty().insert((w.p.out_q, at), w.product(0, at)), ..r }) by {
        lemma_run_one(ar, l, s1, r);
        lemma_row_index(a, l, r);
        assert(r.f[a.stream(0).acc] == a.total(0));
        assert(value(ar, l, r, v(a.s.acc)) == a.total(0));
    }
    assert forall|l: Lane<V>, r: Regs<V>|
        b.lane_ok(l) && b.knows_first(r) && b.has_totals(r) implies #[trigger] run(
        ar,
        l,
        code().push(s2).push(s3),
        r,
    ) == (Regs {
        stored: Map::empty().insert((w.p.out_k, at), w.product(1, at)).insert(
            (w.p.out_v, at),
            w.product(2, at),
        ),
        ..r
    }) by {
        lemma_run_one(ar, l, s2, r);
        lemma_run_push(ar, l, code().push(s2), s3, r);
        lemma_row_index(b, l, r);
        assert(r.f[b.stream(0).acc] == b.total(0));
        assert(r.f[b.stream(1).acc] == b.total(1));
        assert(value(ar, l, r, v(b.s.acc)) == b.total(0));
        let q = run(ar, l, code().push(s2), r);
        lemma_row_index(b, l, q);
        assert(value(ar, l, q, v(b.s2->0.acc)) == b.total(1));
    }
}

/// The first `r` rows of a group.
proof fn lemma_rows<V>(w: Projection<V>, b: Seq<Code>, g0: Group<V>, r: nat)
    requires
        w.ar.exact(),
        w.ok(),
        w.reaches_all(),
        r <= w.t.nr,
        ({
            let g = group_run(w.ar, w.gid, w.bufs, b, g0);
            &&& w.queries(0).between(g)
            &&& g.stored == Map::<(u32, int), V>::empty()
        }),
    ensures
        ({
            let g = group_run(w.ar, w.gid, w.bufs, qkv_rows(b, w.p, w.q, w.t, w.n, r), g0);
            &&& w.queries(0).between(g)
            &&& g.stored == w.finished(r)
        }),
    decreases r,
{
    let (ar, gid, bufs) = (w.ar, w.gid, w.bufs);
    if r == 0 {
        assert(w.finished(0) =~= Map::<(u32, int), V>::empty());
    } else {
        let j = r - 1;
        lemma_rows(w, b, g0, j as nat);
        let before = qkv_rows(b, w.p, w.q, w.t, w.n, j as nat);
        let g = group_run(ar, gid, bufs, before, g0);
        let (p, k) = (w.queries(j), w.keys(j));
        let at = w.first() + j;
        lemma_passes_ok(w, j);
        lemma_stores(w, j);
        let row = row_at(w.q.first, j as u32);
        let one = code().s(store(w.p.out_q, row, v(p.s.acc)));
        let two = code().s(store(w.p.out_k, row, v(k.s.acc))).s(
            store(w.p.out_v, row, v(k.s2->0.acc)),
        );
        let m1 = Map::empty().insert((w.p.out_q, at), w.product(0, at));
        let m2 = Map::empty().insert((w.p.out_k, at), w.product(1, at)).insert(
            (w.p.out_v, at),
            w.product(2, at),
        );
        let s1 = Code::If {
            cond: gt(cu(w.p.q_rows as u32), row),
            body: pass_code(p, one),
        };
        let s2 = Code::If {
            cond: gt(cu(w.p.kv_rows as u32), row),
            body: pass_code(k, two),
        };
        let body = code().push(s1).push(s2);
        let most = most_rows(w.p.q_rows, w.p.kv_rows) as u32;
        let whole = Code::If { cond: gt(cu(most), row), body };
        assert(qkv_row(w.p, w.q, w.t, j as u32, (w.n + 7 * j) as u32) == body);
        assert(qkv_rows(b, w.p, w.q, w.t, w.n, r) == before.push(whole));
        lemma_group_push(ar, gid, bufs, before, whole, g0);
        assert(p.between(g));
        lemma_pass(p, g, w.p.q_rows as u32, one, m1);
        assert(body[0] == s1);
        lemma_meets_at(body, 0, body.len());
        assert(!simd_only(body)) by {
            assert(meets(body[0]) && !adds_up(body[0]));
        }
        lemma_row_guard(p, g, 0, most);
        let after = group_step(ar, gid, bufs, whole, g);
        if at < most {
            assert(after == group_run(ar, gid, bufs, body, g));
            assert(group_run(ar, gid, bufs, code(), g) == g);
            lemma_group_push(ar, gid, bufs, code(), s1, g);
            lemma_group_push(ar, gid, bufs, code().push(s1), s2, g);
            let g1 = group_run(ar, gid, bufs, code().push(s1), g);
            assert(k.between(g1));
            lemma_pass(k, g1, w.p.kv_rows as u32, two, m2);
        }
        assert(after.stored =~= w.finished(r));
        assert(w.queries(0).between(after));
    }
}

/// The work of group `gid` of the kernel.
pub open spec fn projection_of<V>(
    ar: Arith<V>,
    gid: int,
    bufs: spec_fn(u32, int) -> V,
    p: QkvSpec,
    sched: OptSchedule,
    rms: Option<(u32, Scalar)>,
    n0: u32,
) -> Projection<V> {
    let t = tiling_of(effective_tg(p.wq, p.cols, sched.tg), qkv_vec(p, sched.vec), sched);
    let local = rms is Some || p.cols <= TG_X_FLOATS_MAX;
    let first = if rms is Some {
        (n0 + 4) as u32
    } else if local {
        (n0 + 1) as u32
    } else {
        n0
    };
    Projection {
        ar,
        gid,
        bufs,
        xs: given_x(ar, bufs, p.cols, p.x_buf, rms),
        p,
        q: Qkv {
            cols: p.cols as u32,
            first,
            x_buf: p.x_buf,
            tg_x: if local {
                Some(0u32)
            } else {
                None
            },
            lead: p.wq,
        },
        t,
        n: (first + 1) as u32,
    }
}

/// Every tiling of the kernel for queries, keys and values computes the three products: group `gid`
/// stores, for each of its rows, the row of each product that has it, and nothing else, where sums
/// may be taken in any order. The vector is normalised first where that is asked for. Left out are
/// tilings that lose elements: those with more than one element behind the last whole chunk and
/// more than one thread, and those of packed query weights with any.
pub proof fn lemma_qkv<V>(
    ar: Arith<V>,
    gid: int,
    bufs: spec_fn(u32, int) -> V,
    p: QkvSpec,
    sched: OptSchedule,
    rms: Option<(u32, Scalar)>,
    n0: u32,
)
    requires
        ar.exact(),
        sched_ok(sched),
        ids_fit(n0, sched),
        p.q_rows <= u32::MAX,
        p.kv_rows <= u32::MAX,
        p.cols + 0x80000 <= u32::MAX,
        p.out_q != p.out_k,
        p.out_q != p.out_v,
        p.out_k != p.out_v,
        rms is Some ==> p.cols <= TG_X_FLOATS_MAX,
        0 <= gid,
        (gid + 1) * at_least_one(sched.nr0) <= u32::MAX,
        (gid + 1) * at_least_one(sched.nr0) * p.cols <= u32::MAX,
        projection_of(ar, gid, bufs, p, sched, rms, n0).reaches_all(),
    ensures
        ({
            let w = projection_of(ar, gid, bufs, p, sched, rms, n0);
            qkv_lowered(p, sched, rms, n0) matches Ok(lw) && group_run(
                ar,
                gid,
                bufs,
                lw.code,
                fresh_group(w.t.tg as nat),
            ).stored == w.finished(w.t.nr as nat)
        }),
{
    reveal(qkv_lowered);
    let w = projection_of(ar, gid, bufs, p, sched, rms, n0);
    let t = w.t;
    let nr = t.nr as int;
    assert(t.tg * t.vec <= 1024 * 32) by (nonlinear_arith)
        requires
            1 <= t.tg <= 1024,
            1 <= t.vec <= 32,
    ;
    assert(w.first() + nr == (gid + 1) * nr) by (nonlinear_arith)
        requires
            w.first() == gid * nr,
    ;
    assert(w.ok());
    let job = Job {
        ar,
        gid,
        bufs,
        xs: w.xs,
        m: Rows {
            rows: u32::MAX,
            cols: w.q.cols,
            first: w.q.first,
            ids: w.n,
            per: 2,
            x_buf: p.x_buf,
            tg_x: w.q.tg_x,
            width: t.vec,
            dtype: p.wq,
        },
        t,
        k: (w.n + 2 * nr) as u32,
    };
    assert(job.ok());
    lemma_prologue(job, p.cols, x_dtype(p.wq), rms, n0);
    let st = stage_x(p.cols, p.x_buf, t.tg, x_dtype(p.wq), rms, n0)->Ok_0;
    assert(st.tg_x == w.q.tg_x && st.next == w.q.first);
    let g0 = fresh_group::<V>(t.tg as nat);
    lemma_first(job, st.code, g0);
    let b = st.code.s(let_u(w.q.first, times(group_id(), cu(t.nr))));
    let g = group_run(ar, gid, bufs, b, g0);
    assert(w.queries(0).between(g)) by {
        assert forall|i: int| 0 <= i < g.regs.len() implies w.queries(0).knows_first(
            #[trigger] g.regs[i],
        ) by {
            assert(job.knows(g.regs[i], 0));
        }
        match w.q.tg_x {
            None => {},
            Some(id) => {
                assert forall|i: int| 0 <= i < w.q.cols implies #[trigger] g.shared[(id, i)]
                    == (w.xs)(i) by {
                    assert(g.shared[(id, i)] == job.x(i));
                }
            },
        }
    }
    lemma_rows(w, b, g0, nr as nat);
}

} // verus!
