//! What the cooperative kernels compute.

use vstd::arithmetic::div_mod::lemma_fundamental_div_mod;
use vstd::prelude::*;

use crate::codegen::laws::coop::{
    head_code, lemma_decls_behind, lemma_head_silent, lemma_job, lemma_lanes_total, lemma_thread,
    parts_make_up, reads_vector, Coop,
};
use crate::codegen::laws::fused::{clamped, gelu};
use crate::codegen::laws::gated::{gated, lemma_gated_row};
use crate::codegen::laws::group::{lemma_apart_quiet, quiet};
use crate::codegen::laws::machine::{
    adds_up, block_meets, collected, device_writes, fresh_group, group_run, holds, index, lane,
    lemma_group_push, masked_step, masked_to, meets, run, seen, simd_only, simd_total, step, turns,
    value, Arith, Group, Regs,
};
use crate::codegen::laws::matvec::{lemma_acc, lemma_accs_apart, lemma_guard, Job};
use crate::codegen::laws::product::{given_x, lemma_prologue, lemma_store_row, row_value};
use crate::codegen::laws::projected::row_product;
use crate::codegen::laws::solo::{
    each_alone, lemma_group_cat, lemma_meets_at, lemma_solo, lemma_unmasked,
};
use crate::codegen::lower::block::{
    assign, code, cu, equal, gt, let_u, row_at, simd_sum, uv, v, Extend,
};
use crate::codegen::lower::fused::{gate_up_coop, gated_coop_finish, gated_row_code};
use crate::codegen::lower::matvec::{
    coop_finish, coop_head, decls_code, epi_ids, matvec_coop, row_guard, stage_coop, store_row_code,
    MatvecEpi, Rows, TG_X_FLOATS_MAX,
};
use crate::ir::dtype::{DType, Scalar};
use crate::ir::kernel::Code;

verus! {

impl<V> Coop<V> {
    /// Whether the threads of a group hold their shares of the rows from `r` on.
    pub open spec fn summed(self, g: Group<V>, r: nat) -> bool {
        &&& g.regs.len() == self.threads()
        &&& forall|i: int|
            0 <= i < g.regs.len() ==> self.holds(i, #[trigger] g.regs[i], self.blocks(), r)
    }

    /// The first `r` rows of every simdgroup, as far as they exist, row `a` of the matrix with the
    /// value `y(a)`.
    pub open spec fn finished(self, out_buf: u32, r: int, y: spec_fn(int) -> V) -> Map<
        (u32, int),
        V,
    > {
        Map::new(
            |at: (u32, int)|
                at.0 == out_buf && self.first() <= at.1 < self.first() + 4 * self.nsg && at.1
                    < self.m.rows && (at.1 - self.first()) % 4 < r,
            |at: (u32, int)| y(at.1),
        )
    }

    /// The end of row `j`, in a block and behind it.
    pub open spec fn with_row(self, before: Seq<Code>, j: int, b: Seq<Code>) -> Seq<Code> {
        row_guard(before, self.m, j as u32, self.exact, self.row_end(j, b))
    }

    /// The end of row `j` of every simdgroup: its sums are added up, and the first lane takes a
    /// block.
    pub open spec fn row_end(self, j: int, b: Seq<Code>) -> Seq<Code> {
        let job = self.job(0);
        let one = code().s(assign(job.acc(j), simd_sum(v(job.acc(j)))));
        let all = if self.m.per == 2 {
            one
        } else {
            one.s(assign(job.acc(4 + j), simd_sum(v(job.acc(4 + j)))))
        };
        all.when(equal(uv(self.lane), cu(0)), b)
    }

    /// Whether a block stores row `j`, whatever the simdgroup.
    pub open spec fn puts(self, b: Seq<Code>, out_buf: u32, j: int, y: spec_fn(int) -> V) -> bool {
        forall|sg: int|
            0 <= sg < self.nsg ==> {
                let job = #[trigger] self.job(sg);
                job.puts(b, j, (out_buf, job.first() + j), y(job.first() + j))
            }
    }
}

/// Before the sums are added up every thread holds its share.
proof fn lemma_swept<V>(c: Coop<V>, b: Seq<Code>, g0: Group<V>)
    requires
        c.ok(),
        ({
            let g = group_run(c.ar, c.gid, c.bufs, b, g0);
            &&& g.regs.len() == c.threads()
            &&& g.stored == Map::<(u32, int), V>::empty()
            &&& reads_vector(c, lane(c.gid, c.bufs, g, 0))
            &&& forall|i: int| 0 <= i < g.regs.len() ==> quiet(#[trigger] g.regs[i])
        }),
    ensures
        ({
            let g = group_run(
                c.ar,
                c.gid,
                c.bufs,
                (b + head_code(c)).push(c.block_loop()),
                g0,
            );
            g.stored == Map::<(u32, int), V>::empty() && c.summed(g, 0)
        }),
{
    let (ar, gid, bufs) = (c.ar, c.gid, c.bufs);
    let d = head_code(c);
    let s = c.block_loop();
    let g = group_run(ar, gid, bufs, b, g0);
    lemma_head_silent(c);
    lemma_solo(ar, gid, bufs, d, g);
    lemma_group_cat(ar, gid, bufs, b, d, d.len(), g0);
    lemma_group_push(ar, gid, bufs, b + d, s, g0);
    let g1 = group_run(ar, gid, bufs, b + d, g0);
    assert(g1 == each_alone(ar, gid, bufs, d, g));
    assert(!meets(s));
    assert forall|i: int| 0 <= i < g1.regs.len() implies quiet(
        #[trigger] step(ar, lane(gid, bufs, g1, i), s, g1.regs[i]),
    ) && c.holds(i, step(ar, lane(gid, bufs, g1, i), s, g1.regs[i]), c.blocks(), 0) by {
        let l = lane(gid, bufs, g, i);
        assert(lane(gid, bufs, g1, i) == l);
        assert(reads_vector(c, l)) by {
            match c.m.tg_x {
                None => {},
                Some(id) => {
                    assert forall|k: int| 0 <= k < c.m.cols implies #[trigger] l.shared[(id, k)]
                        == (c.xs)(k) by {
                        assert(lane(c.gid, c.bufs, g, 0).shared[(id, k)] == (c.xs)(k));
                    }
                },
            }
        }
        assert(g1.regs[i] == run(ar, l, d, g.regs[i]));
        lemma_thread(c, l, g.regs[i], i);
        assert(step(ar, l, s, g1.regs[i]) == turns(ar, l, s, g1.regs[i]));
    }
    lemma_apart_quiet(ar, gid, bufs, s, g1);
    let h = group_run(ar, gid, bufs, (b + d).push(s), g0);
    assert forall|i: int| 0 <= i < h.regs.len() implies c.holds(
        i,
        #[trigger] h.regs[i],
        c.blocks(),
        0,
    ) by {
        assert(h.regs[i] == step(ar, lane(gid, bufs, g1, i), s, g1.regs[i]));
    }
}

/// The lanes of a simdgroup, added up.
proof fn lemma_simd_total<V>(c: Coop<V>, g: Group<V>, sg: int, s: int, n: nat)
    requires
        c.ok(),
        0 <= sg < c.nsg,
        n <= 32,
        g.regs.len() == c.threads(),
        forall|i: int|
            0 <= i < g.regs.len() && i / 32 == sg ==> (#[trigger] g.regs[i]).f[c.job(0).acc(s)]
                == c.had(i / 32, s, i % 32, c.blocks()),
    ensures
        simd_total(c.ar, c.gid, c.bufs, v(c.job(0).acc(s)), g, 32 * sg, n) == c.lanes_had(
            sg,
            s,
            c.blocks(),
            n,
        ),
    decreases n,
{
    if n > 0 {
        lemma_simd_total(c, g, sg, s, (n - 1) as nat);
        let i = 32 * sg + n - 1;
        assert(0 <= i < g.regs.len());
        assert(i / 32 == sg && i % 32 == n - 1);
        let e = v(c.job(0).acc(s));
        assert(value(c.ar, lane(c.gid, c.bufs, g, i), g.regs[i], e) == g.regs[i].f[c.job(0).acc(
            s,
        )]);
    }
}

/// The simdgroups that are to do so add up one of their sums.
proof fn lemma_simd<V>(c: Coop<V>, g: Group<V>, s: int, mask: spec_fn(int) -> bool)
    requires
        c.ar.exact(),
        parts_make_up(c.ar, c.q6),
        c.ok(),
        0 <= s < c.job(0).sums(),
        g.regs.len() == c.threads(),
        forall|i: int|
            0 <= i < g.regs.len() ==> #[trigger] mask(i) == c.job(i / 32).live(s),
        forall|i: int|
            0 <= i < g.regs.len() && c.job(i / 32).live(s) ==> (#[trigger] g.regs[i]).f[c.job(
                0,
            ).acc(s)] == c.had(i / 32, s, i % 32, c.blocks()),
    ensures
        ({
            let acc = c.job(0).acc(s);
            let h = masked_step(
                c.ar,
                c.gid,
                c.bufs,
                mask,
                Code::Flat(assign(acc, simd_sum(v(acc)))),
                g,
            );
            &&& h.shared == g.shared
            &&& h.stored == g.stored
            &&& h.regs.len() == g.regs.len()
            &&& forall|i: int|
                0 <= i < g.regs.len() ==> #[trigger] h.regs[i] == (if c.job(i / 32).live(s) {
                    Regs {
                        f: g.regs[i].f.insert(acc, c.job(i / 32).total(s)),
                        ..g.regs[i]
                    }
                } else {
                    g.regs[i]
                })
        }),
{
    let acc = c.job(0).acc(s);
    let e = assign(acc, simd_sum(v(acc)));
    assert(adds_up(Code::Flat(e)));
    let h = masked_step(c.ar, c.gid, c.bufs, mask, Code::Flat(e), g);
    assert forall|i: int| 0 <= i < g.regs.len() implies #[trigger] h.regs[i] == (if c.job(
        i / 32,
    ).live(s) {
        Regs { f: g.regs[i].f.insert(acc, c.job(i / 32).total(s)), ..g.regs[i] }
    } else {
        g.regs[i]
    }) by {
        let sg = i / 32;
        assert(mask(i) == c.job(sg).live(s));
        if c.job(sg).live(s) {
            assert(i / 32 * 32 == 32 * sg);
            lemma_simd_total(c, g, sg, s, 32);
            lemma_lanes_total(c, sg, s, c.blocks());
            assert(256 * c.blocks() == c.m.cols);
        }
    }
}

/// What the first lanes among the first `n` threads have stored.
proof fn lemma_leaders<V>(
    c: Coop<V>,
    m: Map<(u32, int), V>,
    after: Seq<Regs<V>>,
    out_buf: u32,
    j: int,
    y: spec_fn(int) -> V,
    n: nat,
    at: (u32, int),
)
    requires
        n <= after.len(),
        0 <= j < 4,
        forall|i: int|
            0 <= i < after.len() ==> (#[trigger] after[i]).stored == (if i % 32 == 0 && c.first()
                + 4 * (i / 32) + j < c.m.rows {
                let a = c.first() + 4 * (i / 32) + j;
                Map::empty().insert((out_buf, a), y(a))
            } else {
                Map::empty()
            }),
    ensures
        ({
            let q = (at.1 - c.first() - j) / 4;
            let hit = at.0 == out_buf && at.1 == c.first() + 4 * q + j && 0 <= q && 32 * q < n
                && at.1 < c.m.rows;
            let s = device_writes(m, after, n);
            &&& s.contains_key(at) == (m.contains_key(at) || hit)
            &&& hit ==> s[at] == y(at.1)
            &&& !hit && m.contains_key(at) ==> s[at] == m[at]
        }),
    decreases n,
{
    if n > 0 {
        lemma_leaders(c, m, after, out_buf, j, y, (n - 1) as nat, at);
        let i = n - 1;
        let q = (at.1 - c.first() - j) / 4;
        if i % 32 == 0 {
            let a = c.first() + 4 * (i / 32) + j;
            if at == (out_buf, a) {
                assert(q == i / 32);
                assert(32 * q == i);
            } else if at.0 == out_buf && at.1 == c.first() + 4 * q + j && 32 * q < n && 32 * q
                >= i {
                assert(32 * q == i);
            }
        } else if 32 * q < n && 32 * q >= i {
            assert(32 * q == i);
        }
    }
}

/// Nothing that no thread has written reaches the arrays of the group.
proof fn lemma_arrays_stay<V>(m: Map<(u32, int), V>, regs: Seq<Regs<V>>, n: nat)
    requires
        n <= regs.len(),
        forall|i: int|
            0 <= i < regs.len() ==> (#[trigger] regs[i]).writes == Map::<(u32, int), V>::empty(),
    ensures
        collected(m, regs, n) == m,
    decreases n,
{
    if n > 0 {
        lemma_arrays_stay(m, regs, (n - 1) as nat);
        assert(m.union_prefer_right(regs[n - 1].writes) =~= m);
    }
}

/// The end of row `j`, for the simdgroups that have it.
proof fn lemma_row_masked<V>(
    c: Coop<V>,
    g: Group<V>,
    mask: spec_fn(int) -> bool,
    b: Seq<Code>,
    out_buf: u32,
    j: int,
    y: spec_fn(int) -> V,
)
    requires
        c.ar.exact(),
        parts_make_up(c.ar, c.q6),
        c.ok(),
        0 <= j < 4,
        g.stored == c.finished(out_buf, j, y),
        c.summed(g, j as nat),
        forall|i: int| 0 <= i < g.regs.len() ==> #[trigger] mask(i) == c.job(i / 32).live(j),
        c.puts(b, out_buf, j, y),
        !block_meets(b, b.len()),
    ensures
        ({
            let d = c.row_end(j, b);
            let h = masked_to(c.ar, c.gid, c.bufs, mask, d, d.len(), g);
            &&& h.stored == c.finished(out_buf, j + 1, y)
            &&& c.summed(h, (j + 1) as nat)
            &&& simd_only(d)
            &&& meets(d[0])
        }),
{
    let (ar, gid, bufs) = (c.ar, c.gid, c.bufs);
    let r = (j + 1) as nat;
    let n = c.blocks();
    let job0 = c.job(0);
    lemma_job(c, 0);
    lemma_acc(job0, j);
    let s1 = Code::Flat(assign(job0.acc(j), simd_sum(v(job0.acc(j)))));
    let s2 = Code::Flat(assign(job0.acc(4 + j), simd_sum(v(job0.acc(4 + j)))));
    let s3 = Code::If { cond: equal(uv(c.lane), cu(0)), body: b };
    let d = c.row_end(j, b);
    assert(!meets(s3) && !adds_up(s3));
    let g1 = masked_step(ar, gid, bufs, mask, s1, g);
    let g2 = if c.m.per == 2 {
        g1
    } else {
        masked_step(ar, gid, bufs, mask, s2, g1)
    };
    let h = masked_step(ar, gid, bufs, mask, s3, g2);
    assert(h == masked_to(ar, gid, bufs, mask, d, d.len(), g)) by {
        reveal_with_fuel(masked_to, 4);
    }
    assert forall|i: int| 0 <= i < g.regs.len() && c.job(i / 32).live(j) implies (#[trigger]
    g.regs[i]).f[job0.acc(j)] == c.had(i / 32, j, i % 32, n) by {
        assert(c.holds(i, g.regs[i], n, j as nat));
        assert(c.job(i / 32).acc(j) == job0.acc(j));
    }
    lemma_simd(c, g, j, mask);
    if c.m.per == 3 {
        lemma_acc(job0, 4 + j);
        assert forall|i: int| 0 <= i < g1.regs.len() && c.job(i / 32).live(4 + j) implies (
        #[trigger] g1.regs[i]).f[job0.acc(4 + j)] == c.had(i / 32, 4 + j, i % 32, n) by {
            assert(c.holds(i, g.regs[i], n, j as nat));
            assert(c.job(i / 32).acc(4 + j) == job0.acc(4 + j));
            lemma_accs_apart(job0, j, 4 + j);
        }
        assert forall|i: int| 0 <= i < g1.regs.len() implies #[trigger] mask(i) == c.job(
            i / 32,
        ).live(4 + j) by {}
        lemma_simd(c, g1, 4 + j, mask);
    }
    assert forall|i: int| 0 <= i < g2.regs.len() implies c.holds(i, #[trigger] g2.regs[i], n, r)
        && (c.job(i / 32).live(j) ==> c.job(i / 32).has_totals(g2.regs[i], j)) by {
        let old_regs = g.regs[i];
        let job = c.job(i / 32);
        lemma_job(c, i / 32);
        assert(c.holds(i, old_regs, n, j as nat));
        assert(g1.regs[i].u == old_regs.u);
        let t = g2.regs[i];
        assert(t.u == old_regs.u);
        assert(job.acc(j) == job0.acc(j) && job.acc(4 + j) == job0.acc(4 + j));
        if c.m.per == 3 {
            lemma_accs_apart(job, j, 4 + j);
        }
        assert forall|q: int|
            0 <= q < job.sums() && r <= job.row(q) && job.live(q) implies t.f[
            #[trigger] job.acc(q)
        ] == c.had(i / 32, q, i % 32, n) by {
            lemma_accs_apart(job, q, j);
            if c.m.per == 3 {
                lemma_accs_apart(job, q, 4 + j);
            }
            assert(old_regs.f[job.acc(q)] == c.had(i / 32, q, i % 32, n));
        }
    }
    let after = Seq::new(
        g2.regs.len(),
        |i: int|
            if mask(i) {
                step(ar, lane(gid, bufs, g2, i), s3, g2.regs[i])
            } else {
                g2.regs[i]
            },
    );
    assert forall|i: int| 0 <= i < after.len() implies {
        let t = #[trigger] after[i];
        let a = c.first() + 4 * (i / 32) + j;
        &&& c.holds(i, Regs { stored: Map::empty(), writes: Map::empty(), ..t }, n, r)
        &&& t.writes == Map::<(u32, int), V>::empty()
        &&& t.stored == (if i % 32 == 0 && a < c.m.rows {
            Map::empty().insert((out_buf, a), y(a))
        } else {
            Map::empty()
        })
    } by {
        let l = lane(gid, bufs, g2, i);
        let t = g2.regs[i];
        let job = c.job(i / 32);
        lemma_job(c, i / 32);
        assert(c.holds(i, t, n, r));
        assert(mask(i) == job.live(j));
        if mask(i) {
            assert(job.has_totals(t, j));
            assert(index(ar, l, t, uv(c.lane)) == i % 32);
            assert(index(ar, l, t, cu(0)) == 0);
            assert(holds(ar, l, t, equal(uv(c.lane), cu(0))) == (i % 32 == 0));
            if i % 32 == 0 {
                let a = job.first() + j;
                assert(job.puts(b, j, (out_buf, a), y(a)));
                let p = run(ar, l, b, t);
                assert(job.has_put(p, t, j, (out_buf, a), y(a)));
                assert(after[i] == p);
                let w = Regs { stored: Map::empty(), writes: Map::empty(), ..p };
                assert forall|q: int|
                    0 <= q < job.sums() && r <= job.row(q) && job.live(q) implies w.f[
                    #[trigger] job.acc(q)
                ] == c.had(i / 32, q, i % 32, n) by {
                    assert(p.f[job.acc(q)] == t.f[job.acc(q)]);
                }
            } else {
                assert(after[i] == t);
            }
        } else {
            assert(after[i] == t);
        }
    }
    assert(h == seen(after, g2));
    lemma_arrays_stay(g2.shared, after, after.len());
    assert forall|i: int| 0 <= i < h.regs.len() implies c.holds(i, #[trigger] h.regs[i], n, r) by {
        assert(h.regs[i] == (Regs { writes: Map::empty(), stored: Map::empty(), ..after[i] }));
    }
    let had = c.finished(out_buf, j, y);
    let want = c.finished(out_buf, j + 1, y);
    assert(h.stored == device_writes(had, after, after.len()));
    assert forall|at: (u32, int)| #[trigger] h.stored.contains_key(at) == want.contains_key(at)
        && (h.stored.contains_key(at) ==> h.stored[at] == want[at]) by {
        lemma_leaders(c, had, after, out_buf, j, y, after.len(), at);
        let d = at.1 - c.first();
        let q = (d - j) / 4;
        if d % 4 == j {
            assert(d == 4 * q + j);
        }
    }
    assert(h.stored =~= want);
}

/// The end of row `j`.
proof fn lemma_row_end<V>(
    c: Coop<V>,
    before: Seq<Code>,
    g0: Group<V>,
    b: Seq<Code>,
    out_buf: u32,
    j: int,
    y: spec_fn(int) -> V,
)
    requires
        c.ar.exact(),
        parts_make_up(c.ar, c.q6),
        c.ok(),
        0 <= j < 4,
        ({
            let g = group_run(c.ar, c.gid, c.bufs, before, g0);
            g.stored == c.finished(out_buf, j, y) && c.summed(g, j as nat)
        }),
        c.puts(b, out_buf, j, y),
        !block_meets(b, b.len()),
    ensures
        ({
            let g = group_run(c.ar, c.gid, c.bufs, c.with_row(before, j, b), g0);
            g.stored == c.finished(out_buf, j + 1, y) && c.summed(g, (j + 1) as nat)
        }),
{
    let (ar, gid, bufs) = (c.ar, c.gid, c.bufs);
    let g = group_run(ar, gid, bufs, before, g0);
    let d = c.row_end(j, b);
    let cond = gt(cu(c.m.rows), row_at(c.m.first, j as u32));
    let mask = |i: int| holds(ar, lane(gid, bufs, g, i), g.regs[i], cond);
    assert forall|i: int| 0 <= i < g.regs.len() implies #[trigger] mask(i) == c.job(i / 32).live(
        j,
    ) by {
        lemma_job(c, i / 32);
        assert(c.holds(i, g.regs[i], c.blocks(), j as nat));
        lemma_guard(c.job(i / 32), lane(gid, bufs, g, i), g.regs[i], j);
    }
    lemma_row_masked(c, g, mask, b, out_buf, j, y);
    if c.exact {
        assert forall|i: int| 0 <= i < g.regs.len() implies #[trigger] mask(i) by {
            lemma_job(c, i / 32);
        }
        lemma_unmasked(ar, gid, bufs, mask, d, d.len(), g);
        lemma_group_cat(ar, gid, bufs, before, d, d.len(), g0);
    } else {
        let whole = Code::If { cond, body: d };
        lemma_group_push(ar, gid, bufs, before, whole, g0);
        lemma_meets_at(d, 0, d.len());
        assert(meets(whole));
    }
}

/// What the cooperative kernel with one matrix stores for a row of the matrix.
pub open spec fn coop_value<V>(c: Coop<V>, epi: MatvecEpi) -> spec_fn(int) -> V {
    let a = row_product(c.ar, c.bufs, 0, c.xs, c.m.cols as int);
    |r: int|
        match epi {
            MatvecEpi::Plain => a(r),
            MatvecEpi::GeluMulCtx { ctx_buf, ctx_off, .. } => c.ar.product(
                gelu(c.ar, clamped(c.ar, a(r))),
                (c.bufs)(ctx_buf, ctx_off + r),
            ),
        }
}

/// What the cooperative kernel with two matrices stores for a row of the matrices.
pub open spec fn coop_gated<V>(c: Coop<V>) -> spec_fn(int) -> V {
    let a = row_product(c.ar, c.bufs, 0, c.xs, c.m.cols as int);
    let b = row_product(c.ar, c.bufs, 1, c.xs, c.m.cols as int);
    |r: int| c.ar.product(gelu(c.ar, clamped(c.ar, a(r))), b(r))
}

/// The sums of a simdgroup are products of rows.
proof fn lemma_row_totals<V>(c: Coop<V>, sg: int, j: int)
    requires
        c.ok(),
        0 <= sg < c.nsg,
        0 <= j < 4,
    ensures
        ({
            let job = c.job(sg);
            let r = job.first() + j;
            &&& job.total(j) == row_product(c.ar, c.bufs, 0, c.xs, c.m.cols as int)(r)
            &&& job.total(4 + j) == row_product(c.ar, c.bufs, 1, c.xs, c.m.cols as int)(r)
        }),
{
    let job = c.job(sg);
    let r = job.first() + j;
    let cols = c.m.cols as int;
    let t = |i: int| c.ar.product((c.bufs)(0, r * cols + i), (c.xs)(i));
    let u = |i: int| c.ar.product((c.bufs)(1, r * cols + i), (c.xs)(i));
    assert(job.term(j) =~= t);
    assert(job.term(4 + j) =~= u);
}

/// The rows of the kernel with one matrix, the first `r` of every simdgroup.
proof fn lemma_finish<V>(
    c: Coop<V>,
    b: Seq<Code>,
    g0: Group<V>,
    out_buf: u32,
    epi: MatvecEpi,
    n: u32,
    r: nat,
)
    requires
        c.ar.exact(),
        parts_make_up(c.ar, c.q6),
        c.ok(),
        c.m.per == 2,
        n == c.ib + 1,
        r <= 4,
        epi matches MatvecEpi::GeluMulCtx { ctx_off, .. } ==> ctx_off + c.first() + 4
            * c.nsg <= u32::MAX,
        ({
            let g = group_run(c.ar, c.gid, c.bufs, b, g0);
            g.stored == Map::<(u32, int), V>::empty() && c.summed(g, 0)
        }),
    ensures
        ({
            let g = group_run(
                c.ar,
                c.gid,
                c.bufs,
                coop_finish(b, c.m, c.lane, c.exact, out_buf, epi, n, r),
                g0,
            );
            g.stored == c.finished(out_buf, r as int, coop_value(c, epi)) && c.summed(g, r)
        }),
    decreases r,
{
    let y = coop_value(c, epi);
    if r == 0 {
        assert(c.finished(out_buf, 0, y) =~= Map::<(u32, int), V>::empty());
    } else {
        let j = r - 1;
        lemma_finish(c, b, g0, out_buf, epi, n, j as nat);
        let before = coop_finish(b, c.m, c.lane, c.exact, out_buf, epi, n, j as nat);
        let m = (n + epi_ids(epi) * j) as u32;
        assert(0 <= epi_ids(epi) * j <= 4 * j) by (nonlinear_arith)
            requires
                0 <= epi_ids(epi) <= 4,
                0 <= j,
        ;
        lemma_job(c, 0);
        lemma_acc(c.job(0), j);
        let d = store_row_code(out_buf, c.m.first, j as u32, c.m.acc(j), epi, m);
        assert forall|sg: int| 0 <= sg < c.nsg implies {
            let job = #[trigger] c.job(sg);
            job.puts(d, j, (out_buf, job.first() + j), y(job.first() + j))
        } by {
            let job = c.job(sg);
            lemma_job(c, sg);
            lemma_acc(job, j);
            lemma_store_row(job, out_buf, epi, m, j);
            lemma_row_totals(c, sg, j);
            assert(row_value(job, epi)(j) == y(job.first() + j));
        }
        lemma_store_row(c.job(0), out_buf, epi, m, j);
        lemma_row_end(c, before, g0, d, out_buf, j, y);
        assert(coop_finish(b, c.m, c.lane, c.exact, out_buf, epi, n, r) == c.with_row(
            before,
            j,
            d,
        ));
    }
}

/// The rows of the kernel with two matrices, the first `r` of every simdgroup.
proof fn lemma_gated_finish<V>(
    c: Coop<V>,
    b: Seq<Code>,
    g0: Group<V>,
    out_buf: u32,
    n: u32,
    r: nat,
)
    requires
        c.ar.exact(),
        parts_make_up(c.ar, c.q6),
        c.ok(),
        c.m.per == 3,
        n == c.ib + 1,
        r <= 4,
        ({
            let g = group_run(c.ar, c.gid, c.bufs, b, g0);
            g.stored == Map::<(u32, int), V>::empty() && c.summed(g, 0)
        }),
    ensures
        ({
            let g = group_run(
                c.ar,
                c.gid,
                c.bufs,
                gated_coop_finish(b, c.m, c.lane, c.exact, out_buf, n, r),
                g0,
            );
            g.stored == c.finished(out_buf, r as int, coop_gated(c)) && c.summed(g, r)
        }),
    decreases r,
{
    let y = coop_gated(c);
    if r == 0 {
        assert(c.finished(out_buf, 0, y) =~= Map::<(u32, int), V>::empty());
    } else {
        let j = r - 1;
        lemma_gated_finish(c, b, g0, out_buf, n, j as nat);
        let before = gated_coop_finish(b, c.m, c.lane, c.exact, out_buf, n, j as nat);
        let m = (n + 3 * j) as u32;
        lemma_job(c, 0);
        lemma_acc(c.job(0), j);
        lemma_acc(c.job(0), 4 + j);
        let d = gated_row_code(c.m, out_buf, j, m);
        assert forall|sg: int| 0 <= sg < c.nsg implies {
            let job = #[trigger] c.job(sg);
            job.puts(d, j, (out_buf, job.first() + j), y(job.first() + j))
        } by {
            let job = c.job(sg);
            lemma_job(c, sg);
            lemma_gated_row(job, out_buf, m, j);
            lemma_row_totals(c, sg, j);
            assert(gated(job)(j) == y(job.first() + j));
        }
        lemma_gated_row(c.job(0), out_buf, m, j);
        lemma_row_end(c, before, g0, d, out_buf, j, y);
        assert(gated_coop_finish(b, c.m, c.lane, c.exact, out_buf, n, r) == c.with_row(
            before,
            j,
            d,
        ));
    }
}

/// The work of group `gid` of a cooperative kernel with one matrix (`per` is 2) or two (`per` is
/// 3).
pub open spec fn coop_of<V>(
    ar: Arith<V>,
    gid: int,
    bufs: spec_fn(u32, int) -> V,
    q6: bool,
    rows: usize,
    cols: usize,
    nsg: u32,
    x_buf: u32,
    rms: Option<(u32, Scalar)>,
    per: u32,
    n0: u32,
) -> Coop<V> {
    let lane = if rms is Some {
        (n0 + 4) as u32
    } else {
        n0
    };
    Coop {
        ar,
        gid,
        bufs,
        xs: given_x(ar, bufs, cols, x_buf, rms),
        q6,
        nsg,
        exact: rows as int % (nsg * 4) == 0,
        m: Rows {
            rows: rows as u32,
            cols: cols as u32,
            first: (lane + 2) as u32,
            ids: (lane + 4) as u32,
            per,
            x_buf,
            tg_x: if rms is Some {
                Some(0u32)
            } else {
                None
            },
            width: 1,
            dtype: DType::Q4K,
        },
        lane,
        ib: (lane + 4 + 4 * per) as u32,
    }
}

/// What a launch of a cooperative kernel meets: whole blocks, no more threads than a group has, and
/// a group that has a row.
pub open spec fn coop_fits(
    gid: int,
    rows: usize,
    cols: usize,
    nsg: u32,
    rms: Option<(u32, Scalar)>,
    n0: u32,
) -> bool {
    &&& 1 <= nsg <= 32
    &&& cols % 256 == 0
    &&& rows <= u32::MAX
    &&& cols + 0x80000 <= u32::MAX
    &&& rms is Some ==> cols <= TG_X_FLOATS_MAX
    &&& n0 + 64 <= u32::MAX
    &&& 0 <= gid
    &&& gid * (nsg * 4) < rows
    &&& (gid + 1) * (nsg * 4) <= u32::MAX
    &&& (gid + 1) * (nsg * 4) * cols <= u32::MAX
}

/// The prologue, the head and the loop of a cooperative kernel.
proof fn lemma_to_sums<V>(
    ar: Arith<V>,
    gid: int,
    bufs: spec_fn(u32, int) -> V,
    q6: bool,
    rows: usize,
    cols: usize,
    nsg: u32,
    x_buf: u32,
    rms: Option<(u32, Scalar)>,
    per: u32,
    n0: u32,
)
    requires
        ar.exact(),
        coop_fits(gid, rows, cols, nsg, rms, n0),
        per == 2 || per == 3,
        q6 ==> per == 2,
    ensures
        ({
            let c = coop_of(ar, gid, bufs, q6, rows, cols, nsg, x_buf, rms, per, n0);
            &&& c.ok()
            &&& stage_coop(cols, x_buf, (nsg * 32) as u64, rms, n0) matches Ok(st) && {
                let b = decls_code(coop_head(st.code, q6, nsg, c.lane), c.m, 4).s(
                    let_u(c.ib, uv((c.lane + 3) as u32)),
                ).push(c.block_loop());
                let g = group_run(ar, gid, bufs, b, fresh_group(32 * nsg as nat));
                &&& st.next == c.lane
                &&& st.tg_x == c.m.tg_x
                &&& g.stored == Map::<(u32, int), V>::empty()
                &&& c.summed(g, 0)
            }
        }),
{
    let c = coop_of(ar, gid, bufs, q6, rows, cols, nsg, x_buf, rms, per, n0);
    assert(c.first() + 4 * nsg == (gid + 1) * (nsg * 4) && c.first() == gid * (nsg * 4))
        by (nonlinear_arith)
        requires
            c.first() == gid * nsg * 4,
    ;
    if c.exact {
        let w = nsg * 4;
        let q = rows as int / w;
        lemma_fundamental_div_mod(rows as int, w);
        assert(gid < q) by (nonlinear_arith)
            requires
                gid * w < rows,
                rows == w * q,
                w > 0,
        ;
        assert((gid + 1) * w <= w * q) by (nonlinear_arith)
            requires
                gid + 1 <= q,
                w > 0,
        ;
    }
    assert(c.ok());
    let g0 = fresh_group::<V>(32 * nsg as nat);
    let st = stage_coop(cols, x_buf, (nsg * 32) as u64, rms, n0)->Ok_0;
    let g = group_run(ar, gid, bufs, st.code, g0);
    lemma_job(c, 0);
    if rms is Some {
        let job = Job { gid, ..c.job(0) };
        assert(job.first() == gid * 4);
        assert((gid * 4 + 4) <= u32::MAX && (gid * 4 + 4) * cols <= u32::MAX) by (nonlinear_arith)
            requires
                (gid + 1) * (nsg * 4) <= u32::MAX,
                (gid + 1) * (nsg * 4) * cols <= u32::MAX,
                nsg >= 1,
                gid >= 0,
                cols >= 0,
        ;
        assert(job.ok());
        lemma_prologue(job, cols, DType::F16, rms, n0);
        assert(job.m.tg_x == Some(0u32) && job.m.cols == c.m.cols && job.xs == c.xs);
        assert(job.staged(g.shared));
        assert forall|i: int| 0 <= i < c.m.cols implies #[trigger] g.shared[(0u32, i)] == (c.xs)(
            i,
        ) by {
            assert(g.shared[(0u32, i)] == job.x(i));
        }
    } else {
        assert(group_run(ar, gid, bufs, code(), g0) == g0);
    }
    assert(reads_vector(c, lane(gid, bufs, g, 0)));
    lemma_swept(c, st.code, g0);
    let h = coop_head(code(), q6, nsg, c.lane);
    assert(coop_head(st.code, q6, nsg, c.lane) =~= st.code + h);
    lemma_decls_behind(st.code, h, c.m, 4);
    assert((st.code + decls_code(h, c.m, 4)).s(let_u(c.ib, uv((c.lane + 3) as u32)))
        =~= st.code + head_code(c));
}

/// A cooperative kernel with one matrix computes the product: where the lanes of every stripe
/// together add the product of a block and sums may be taken in any order, group `gid` stores, for
/// each of its rows that exists, the sum of the products of the row and the vector, or the gated
/// one, and nothing else. The vector is normalised first where that is asked for.
pub proof fn lemma_coop<V>(
    ar: Arith<V>,
    gid: int,
    bufs: spec_fn(u32, int) -> V,
    q6: bool,
    rows: usize,
    cols: usize,
    nsg: u32,
    x_buf: u32,
    out_buf: u32,
    rms: Option<(u32, Scalar)>,
    epi: MatvecEpi,
    n0: u32,
)
    requires
        ar.exact(),
        parts_make_up(ar, q6),
        coop_fits(gid, rows, cols, nsg, rms, n0),
        epi matches MatvecEpi::GeluMulCtx { ctx_off, .. } ==> ctx_off + (gid + 1) * (nsg
            * 4) <= u32::MAX,
    ensures
        ({
            let c = coop_of(ar, gid, bufs, q6, rows, cols, nsg, x_buf, rms, 2, n0);
            matvec_coop(q6, rows, cols, nsg, x_buf, out_buf, rms, epi, n0) matches Ok(lw)
                && group_run(ar, gid, bufs, lw.code, fresh_group(32 * nsg as nat)).stored
                == c.finished(out_buf, 4, coop_value(c, epi))
        }),
{
    reveal(matvec_coop);
    let c = coop_of(ar, gid, bufs, q6, rows, cols, nsg, x_buf, rms, 2, n0);
    lemma_to_sums(ar, gid, bufs, q6, rows, cols, nsg, x_buf, rms, 2, n0);
    let st = stage_coop(cols, x_buf, (nsg * 32) as u64, rms, n0)->Ok_0;
    let b = decls_code(coop_head(st.code, q6, nsg, c.lane), c.m, 4).s(
        let_u(c.ib, uv((c.lane + 3) as u32)),
    ).push(c.block_loop());
    let g0 = fresh_group::<V>(32 * nsg as nat);
    assert(c.first() + 4 * nsg == (gid + 1) * (nsg * 4)) by (nonlinear_arith)
        requires
            c.first() == gid * nsg * 4,
    ;
    lemma_finish(c, b, g0, out_buf, epi, (c.ib + 1) as u32, 4);
}

/// The cooperative gate and up kernel computes the gated product, under the same conditions: group
/// `gid` stores, for each of its rows that exists, the GELU of the product with the first matrix
/// times the product with the second, and nothing else.
pub proof fn lemma_gate_up_coop<V>(
    ar: Arith<V>,
    gid: int,
    bufs: spec_fn(u32, int) -> V,
    rows: usize,
    cols: usize,
    nsg: u32,
    x_buf: u32,
    out_buf: u32,
    rms: Option<(u32, Scalar)>,
    n0: u32,
)
    requires
        ar.exact(),
        parts_make_up(ar, false),
        coop_fits(gid, rows, cols, nsg, rms, n0),
    ensures
        ({
            let c = coop_of(ar, gid, bufs, false, rows, cols, nsg, x_buf, rms, 3, n0);
            gate_up_coop(rows, cols, nsg, x_buf, out_buf, rms, n0) matches Ok(lw) && group_run(
                ar,
                gid,
                bufs,
                lw.code,
                fresh_group(32 * nsg as nat),
            ).stored == c.finished(out_buf, 4, coop_gated(c))
        }),
{
    reveal(gate_up_coop);
    let c = coop_of(ar, gid, bufs, false, rows, cols, nsg, x_buf, rms, 3, n0);
    lemma_to_sums(ar, gid, bufs, false, rows, cols, nsg, x_buf, rms, 3, n0);
    let st = stage_coop(cols, x_buf, (nsg * 32) as u64, rms, n0)->Ok_0;
    let b = decls_code(coop_head(st.code, false, nsg, c.lane), c.m, 4).s(
        let_u(c.ib, uv((c.lane + 3) as u32)),
    ).push(c.block_loop());
    let g0 = fresh_group::<V>(32 * nsg as nat);
    lemma_gated_finish(c, b, g0, out_buf, (c.ib + 1) as u32, 4);
}

} // verus!
