//! What a simdgroup of a cooperative kernel adds up: four rows of packed weights, whose blocks its
//! lanes share.

use vstd::prelude::*;

use crate::codegen::laws::group::quiet;
use crate::codegen::laws::machine::{
    four_gained, holds, index, is_index, lemma_run_one, lemma_run_push, part_of, run, shared_at,
    step, turns, value, Arith, Lane, Regs,
};
use crate::codegen::laws::matvec::{
    gained, lemma_acc, lemma_base, lemma_first_row, lemma_gained, lemma_guard, with_gain, Job,
};
use crate::codegen::laws::per_head::lemma_run_cat;
use crate::codegen::laws::product::{lemma_row_decls, row_decls};
use crate::codegen::laws::solo::{block_silent, lemma_silent_push};
use crate::codegen::laws::sums::{
    lemma_assoc, lemma_comm, lemma_first_turn, lemma_had_all, lemma_turn, lemma_zero, series, share,
};
use crate::codegen::lower::block::{
    code, cu, gid as group_id, gt, let_u, lid, minus, over, plus, q4k_frag, q6k_frag, row_at, times,
    uv, v, Extend,
};
use crate::codegen::lower::matvec::{
    before, coop_head, decls_code, four_rows, frag_rows_code, frag_step, superblock_code, Rows,
    Tiling,
};
use crate::ir::kernel::{Code, KirExpr, KirStmt};

verus! {

/// How many stripes of blocks the lanes of a simdgroup share out.
pub open spec fn stripes(q6: bool) -> int {
    if q6 {
        2
    } else {
        4
    }
}

/// The stripe of a lane.
pub open spec fn stripe(q6: bool, lane: int) -> int {
    if q6 {
        lane % 2
    } else {
        lane / 8
    }
}

/// What those of the first `n` lanes add that work on one stripe.
pub open spec fn stripe_sum<V>(
    ar: Arith<V>,
    q6: bool,
    w: Seq<V>,
    x: Seq<V>,
    ix: int,
    n: nat,
) -> V
    decreases n,
{
    if n == 0 {
        ar.zero()
    } else {
        let p = stripe_sum(ar, q6, w, x, ix, (n - 1) as nat);
        if stripe(q6, n - 1) == ix {
            ar.sum(p, (ar.part)(q6, w, x, n - 1))
        } else {
            p
        }
    }
}

/// Whether the lanes of every stripe together add the product of a block.
pub open spec fn parts_make_up<V>(ar: Arith<V>, q6: bool) -> bool {
    forall|w: Seq<V>, x: Seq<V>, ix: int|
        w.len() == 256 && x.len() == 256 && 0 <= ix < stripes(q6) ==> #[trigger] stripe_sum(
            ar,
            q6,
            w,
            x,
            ix,
            32,
        ) == series(ar, |i: int| ar.product(w[i], x[i]), 256)
}

/// A group of a cooperative kernel at work: the arithmetic, the group, the device buffers, the
/// vector, the type of the weights, the number of simdgroups, whether all rows of all groups exist,
/// the rows, and the variables that hold the lane and the block.
#[verifier::reject_recursive_types(V)]
pub ghost struct Coop<V> {
    pub ar: Arith<V>,
    pub gid: int,
    pub bufs: spec_fn(u32, int) -> V,
    pub xs: spec_fn(int) -> V,
    pub q6: bool,
    pub nsg: u32,
    pub exact: bool,
    pub m: Rows,
    pub lane: u32,
    pub ib: u32,
}

impl<V> Coop<V> {
    /// The work of a simdgroup, as that of a group of its own.
    pub open spec fn job(self, sg: int) -> Job<V> {
        Job {
            ar: self.ar,
            gid: self.gid * self.nsg + sg,
            bufs: self.bufs,
            xs: self.xs,
            m: self.m,
            t: Tiling {
                tg: (32 * self.nsg) as u64,
                vec: 1,
                unroll: 1,
                nr: 4,
                stride: (32 * self.nsg) as u64,
            },
            k: self.ib,
        }
    }

    pub open spec fn threads(self) -> int {
        32 * self.nsg
    }

    /// The first row of the group.
    pub open spec fn first(self) -> int {
        self.gid * self.nsg * 4
    }

    /// Whether the variables are apart and all indices are machine integers.
    pub open spec fn ok(self) -> bool {
        &&& 1 <= self.nsg <= 32
        &&& self.m.per == 2 || self.m.per == 3
        &&& self.m.width == 1
        &&& self.m.first == self.lane + 2
        &&& self.m.ids == self.lane + 4
        &&& self.ib == self.m.ids + 4 * self.m.per
        &&& self.ib + 32 <= u32::MAX
        &&& self.q6 ==> self.m.per == 2
        &&& 0 <= self.gid
        &&& self.m.cols % 256 == 0
        &&& self.exact ==> self.first() + 4 * self.nsg <= self.m.rows
        &&& self.first() + 4 * self.nsg <= u32::MAX
        &&& (self.first() + 4 * self.nsg) * self.m.cols <= u32::MAX
        &&& self.m.cols + 0x80000 <= u32::MAX
        &&& self.m.tg_x is None ==> forall|i: int| #[trigger]
            (self.xs)(i) == (self.bufs)(self.m.x_buf, i)
    }

    /// The weights of a block of a sum.
    pub open spec fn weights(self, sg: int, s: int, b: int) -> Seq<V> {
        Seq::new(256, |i: int| self.job(sg).weight(s, 256 * b + i))
    }

    /// The activations of a block.
    pub open spec fn inputs(self, b: int) -> Seq<V> {
        Seq::new(256, |i: int| (self.xs)(256 * b + i))
    }

    /// What a lane adds to a sum, block by block.
    pub open spec fn piece(self, sg: int, s: int, lane: int) -> spec_fn(int) -> V {
        |b: int| (self.ar.part)(self.q6, self.weights(sg, s, b), self.inputs(b), lane)
    }

    /// What a lane adds to a sum for the first `n` blocks.
    pub open spec fn had(self, sg: int, s: int, lane: int, n: nat) -> V {
        share(
            self.ar,
            self.piece(sg, s, lane),
            stripes(self.q6),
            stripe(self.q6, lane),
            n,
        )
    }

    /// What the first `lanes` lanes add to a sum for the first `n` blocks.
    pub open spec fn lanes_had(self, sg: int, s: int, n: nat, lanes: nat) -> V
        decreases lanes,
    {
        if lanes == 0 {
            self.ar.zero()
        } else {
            self.ar.sum(
                self.lanes_had(sg, s, n, (lanes - 1) as nat),
                self.had(sg, s, lanes - 1, n),
            )
        }
    }

    pub open spec fn blocks(self) -> nat {
        (self.m.cols / 256) as nat
    }

    /// Whether a thread knows its lane and its rows, and has had its share of the first `n` blocks
    /// of the rows from `r` on that exist.
    pub open spec fn holds(self, i: int, t: Regs<V>, n: nat, r: nat) -> bool {
        &&& quiet(t)
        &&& t.u[self.lane] == i % 32
        &&& self.job(i / 32).knows_rows(t)
        &&& forall|s: int|
            0 <= s < self.job(i / 32).sums() && r <= self.job(i / 32).row(s) && self.job(
                i / 32,
            ).live(s) ==> t.f[#[trigger] self.job(i / 32).acc(s)] == self.had(
                i / 32,
                s,
                i % 32,
                n,
            )
    }

    /// The statements that take one block: four rows at once where all exist, else row by row.
    pub open spec fn block_code(self) -> Seq<Code> {
        superblock_code(self.m, self.q6, self.ib, self.lane, self.exact, self.block_step())
    }

    /// The statement that takes one block of four rows.
    pub open spec fn block_step(self) -> KirStmt {
        let m = self.m;
        if m.per == 2 {
            four_rows(
                m,
                self.q6,
                self.ib,
                self.lane,
                [m.acc(0), m.acc(1), m.acc(2), m.acc(3)],
                m.base(0),
            )
        } else {
            KirStmt::Q4kCoopNr4Dual {
                row0_base: uv(m.base(0)),
                cols: m.cols,
                ib: uv(self.ib),
                b_from_tg: m.tg_x,
                x_buf: m.x_buf,
                lane: uv(self.lane),
                acc_g: [m.acc(0), m.acc(1), m.acc(2), m.acc(3)],
                acc_u: [
                    (m.acc(0) + 1) as u32,
                    (m.acc(1) + 1) as u32,
                    (m.acc(2) + 1) as u32,
                    (m.acc(3) + 1) as u32,
                ],
            }
        }
    }

    /// The loop over the blocks.
    pub open spec fn block_loop(self) -> Code {
        Code::ForRange {
            id: self.ib,
            limit_off: cu(0),
            bound: cu((self.m.cols / 256) as u32),
            step: cu(stripes(self.q6) as u32),
            body: self.block_code(),
        }
    }
}

/// The work of a simdgroup is in order.
pub proof fn lemma_job<V>(c: Coop<V>, sg: int)
    requires
        c.ok(),
        0 <= sg < c.nsg,
    ensures
        c.job(sg).ok(),
        c.job(sg).first() == c.first() + 4 * sg,
        0 <= c.first(),
        c.job(sg).first() + 4 <= c.first() + 4 * c.nsg,
{
    let job = c.job(sg);
    let n = c.gid * c.nsg;
    assert(0 <= n) by (nonlinear_arith)
        requires
            n == c.gid * c.nsg,
            0 <= c.gid,
    ;
    assert(job.first() == (n + sg) * 4);
    let end = c.first() + 4 * c.nsg;
    assert((job.first() + 4) * c.m.cols <= end * c.m.cols) by (nonlinear_arith)
        requires
            job.first() + 4 <= end,
    ;
    if c.m.per == 2 {
        assert(c.m.per * 4 == 8);
    } else {
        assert(c.m.per * 4 == 12);
    }
}

/// One more block adds what the lanes of its stripe add.
proof fn lemma_next_block<V>(c: Coop<V>, sg: int, s: int, n: nat, lanes: nat)
    requires
        c.ar.exact(),
    ensures
        c.lanes_had(sg, s, n + 1, lanes) == c.ar.sum(
            c.lanes_had(sg, s, n, lanes),
            stripe_sum(
                c.ar,
                c.q6,
                c.weights(sg, s, n as int),
                c.inputs(n as int),
                n as int % stripes(c.q6),
                lanes,
            ),
        ),
    decreases lanes,
{
    let ar = c.ar;
    if lanes == 0 {
        lemma_zero(ar, ar.zero());
    } else {
        let i = lanes - 1;
        let (w, x) = (c.weights(sg, s, n as int), c.inputs(n as int));
        let ix = n as int % stripes(c.q6);
        lemma_next_block(c, sg, s, n, i as nat);
        let a = c.lanes_had(sg, s, n, i as nat);
        let g = stripe_sum(ar, c.q6, w, x, ix, i as nat);
        let h = c.had(sg, s, i, n);
        let p = (ar.part)(c.q6, w, x, i);
        assert(c.piece(sg, s, i)(n as int) == p);
        lemma_assoc(ar, a, g, h);
        lemma_comm(ar, g, h);
        lemma_assoc(ar, a, h, g);
        if stripe(c.q6, i) == ix {
            lemma_assoc(ar, ar.sum(a, g), h, p);
            lemma_assoc(ar, ar.sum(a, h), g, p);
        }
    }
}

/// A sum and the next terms.
proof fn lemma_append<V>(
    ar: Arith<V>,
    t: spec_fn(int) -> V,
    u: spec_fn(int) -> V,
    at: nat,
    n: nat,
)
    requires
        ar.exact(),
        forall|i: int| 0 <= i < n ==> #[trigger] u(i) == t(at + i),
    ensures
        ar.sum(series(ar, t, at), series(ar, u, n)) == series(ar, t, at + n),
    decreases n,
{
    if n == 0 {
        lemma_zero(ar, series(ar, t, at));
    } else {
        let m = (n - 1) as nat;
        lemma_append(ar, t, u, at, m);
        assert(u(m as int) == t(at as int + m as int));
        lemma_assoc(ar, series(ar, t, at), series(ar, u, m), u(m as int));
    }
}

proof fn lemma_nothing_had<V>(c: Coop<V>, sg: int, s: int, lanes: nat)
    requires
        c.ar.exact(),
    ensures
        c.lanes_had(sg, s, 0, lanes) == c.ar.zero(),
    decreases lanes,
{
    if lanes > 0 {
        lemma_nothing_had(c, sg, s, (lanes - 1) as nat);
        lemma_zero(c.ar, c.ar.zero());
    }
}

/// Together the lanes add up the row.
pub proof fn lemma_lanes_total<V>(c: Coop<V>, sg: int, s: int, n: nat)
    requires
        c.ar.exact(),
        parts_make_up(c.ar, c.q6),
    ensures
        c.lanes_had(sg, s, n, 32) == series(c.ar, c.job(sg).term(s), 256 * n),
    decreases n,
{
    if n == 0 {
        lemma_nothing_had(c, sg, s, 32);
    } else {
        let b = (n - 1) as nat;
        let t = c.job(sg).term(s);
        lemma_lanes_total(c, sg, s, b);
        lemma_next_block(c, sg, s, b, 32);
        let (w, x) = (c.weights(sg, s, b as int), c.inputs(b as int));
        let ix = b as int % stripes(c.q6);
        assert(stripe_sum(c.ar, c.q6, w, x, ix, 32) == series(
            c.ar,
            |i: int| c.ar.product(w[i], x[i]),
            256,
        ));
        let u = |i: int| c.ar.product(w[i], x[i]);
        assert forall|i: int| 0 <= i < 256 implies #[trigger] u(i) == t((256 * b) as nat + i) by {}
        lemma_append(c.ar, t, u, 256 * b, 256);
    }
}

/// A thread after the head of the kernel.
proof fn lemma_head<V>(c: Coop<V>, l: Lane<V>, r: Regs<V>, i: int)
    requires
        c.ok(),
        quiet(r),
        l.gid == c.gid,
        l.lid == i,
        0 <= i < c.threads(),
    ensures
        ({
            let p = run(c.ar, l, coop_head(code(), c.q6, c.nsg, c.lane), r);
            &&& c.job(i / 32).knows(p, 0)
            &&& p.u[c.lane] == i % 32
            &&& p.u[(c.lane + 3) as u32] == stripe(c.q6, i % 32)
        }),
{
    let ar = c.ar;
    let n = c.lane;
    let sg = (n + 1) as u32;
    let first = (n + 2) as u32;
    let ix = (n + 3) as u32;
    let job = c.job(i / 32);
    lemma_job(c, i / 32);
    let e1 = over(lid(), cu(32));
    let e2 = minus(lid(), times(uv(sg), cu(32)));
    let e3 = times(plus(times(group_id(), cu(c.nsg)), uv(sg)), cu(4));
    let e4 = if c.q6 {
        minus(uv(n), times(over(uv(n), cu(2)), cu(2)))
    } else {
        over(uv(n), cu(8))
    };
    let s1 = Code::Flat(let_u(sg, e1));
    let s2 = Code::Flat(let_u(n, e2));
    let s3 = Code::Flat(let_u(first, e3));
    let s4 = Code::Flat(let_u(ix, e4));
    let b1 = code().push(s1);
    let b2 = b1.push(s2);
    let b3 = b2.push(s3);
    lemma_run_one(ar, l, s1, r);
    lemma_run_push(ar, l, b1, s2, r);
    lemma_run_push(ar, l, b2, s3, r);
    lemma_run_push(ar, l, b3, s4, r);
    assert(coop_head(code(), c.q6, c.nsg, c.lane) == b3.push(s4));
    let r1 = run(ar, l, b1, r);
    assert(index(ar, l, r, lid()) == i);
    assert(index(ar, l, r, cu(32)) == 32);
    assert(r1 == (Regs { u: r.u.insert(sg, i / 32), ..r }));
    let r2 = run(ar, l, b2, r);
    assert(index(ar, l, r1, lid()) == i);
    assert(index(ar, l, r1, uv(sg)) == i / 32);
    assert(index(ar, l, r1, cu(32)) == 32);
    assert(index(ar, l, r1, times(uv(sg), cu(32))) == i / 32 * 32);
    assert(index(ar, l, r1, e2) == i % 32);
    assert(r2 == (Regs { u: r1.u.insert(n, i % 32), ..r1 }));
    let r3 = run(ar, l, b3, r);
    assert(index(ar, l, r2, group_id()) == c.gid);
    assert(index(ar, l, r2, cu(c.nsg)) == c.nsg);
    assert(0 <= c.gid * c.nsg) by (nonlinear_arith)
        requires
            0 <= c.gid,
    ;
    assert(index(ar, l, r2, times(group_id(), cu(c.nsg))) == c.gid * c.nsg);
    assert(index(ar, l, r2, uv(sg)) == i / 32);
    assert(index(ar, l, r2, plus(times(group_id(), cu(c.nsg)), uv(sg))) == c.gid * c.nsg + i / 32);
    assert(index(ar, l, r2, cu(4)) == 4);
    assert(index(ar, l, r2, e3) == job.first());
    assert(r3 == (Regs { u: r2.u.insert(first, job.first()), ..r2 }));
    let r4 = run(ar, l, b3.push(s4), r);
    assert(index(ar, l, r3, uv(n)) == i % 32);
    if c.q6 {
        assert(index(ar, l, r3, cu(2)) == 2);
        assert(index(ar, l, r3, over(uv(n), cu(2))) == i % 32 / 2);
        assert(index(ar, l, r3, times(over(uv(n), cu(2)), cu(2))) == i % 32 / 2 * 2);
    } else {
        assert(index(ar, l, r3, cu(8)) == 8);
    }
    assert(index(ar, l, r3, e4) == stripe(c.q6, i % 32));
    assert(r4 == (Regs { u: r3.u.insert(ix, stripe(c.q6, i % 32)), ..r3 }));
}

/// Declarations behind a block are that block and the declarations.
pub proof fn lemma_decls_behind(b: Seq<Code>, d: Seq<Code>, m: Rows, r: nat)
    ensures
        decls_code(b + d, m, r) == b + decls_code(d, m, r),
    decreases r,
{
    if r > 0 {
        lemma_decls_behind(b, d, m, (r - 1) as nat);
        assert(decls_code(b + d, m, r) =~= b + decls_code(d, m, r));
    }
}

/// The declarations of a row, as they stand.
proof fn lemma_decls_step<V>(c: Coop<V>, b: Seq<Code>, sg: int, j: int)
    requires
        c.ok(),
        0 <= sg < c.nsg,
        0 <= j < 4,
    ensures
        decls_code(b, c.m, (j + 1) as nat) == decls_code(b, c.m, j as nat) + row_decls(
            c.job(sg),
            j,
        ),
{
    let job = c.job(sg);
    lemma_job(c, sg);
    lemma_acc(job, j);
    if c.m.per == 3 {
        lemma_acc(job, 4 + j);
    }
    assert(decls_code(b, c.m, (j + 1) as nat) =~= decls_code(b, c.m, j as nat) + row_decls(job, j));
}

/// A thread after the declarations of the first `j` rows.
proof fn lemma_thread_decls<V>(c: Coop<V>, l: Lane<V>, r: Regs<V>, i: int, j: nat)
    requires
        c.ok(),
        quiet(r),
        l.gid == c.gid,
        l.lid == i,
        0 <= i < c.threads(),
        j <= 4,
    ensures
        ({
            let b = coop_head(code(), c.q6, c.nsg, c.lane);
            let p = run(c.ar, l, decls_code(b, c.m, j), r);
            &&& c.job(i / 32).knows(p, j)
            &&& p.u[c.lane] == i % 32
            &&& p.u[(c.lane + 3) as u32] == stripe(c.q6, i % 32)
        }),
    decreases j,
{
    let b = coop_head(code(), c.q6, c.nsg, c.lane);
    let job = c.job(i / 32);
    lemma_job(c, i / 32);
    if j == 0 {
        lemma_head(c, l, r, i);
    } else {
        let k = j - 1;
        lemma_thread_decls(c, l, r, i, k as nat);
        lemma_decls_step(c, b, i / 32, k);
        let before = decls_code(b, c.m, k as nat);
        let d = row_decls(job, k);
        let p = run(c.ar, l, before, r);
        lemma_run_cat(c.ar, l, before, d, d.len(), r);
        assert(d.take(d.len() as int) =~= d);
        lemma_row_decls(job, l, p, k);
        lemma_base(job, k);
        assert(job.m.base(k) > c.lane + 3);
    }
}

/// All statements before the loop, for a thread.
pub open spec fn head_code<V>(c: Coop<V>) -> Seq<Code> {
    decls_code(coop_head(code(), c.q6, c.nsg, c.lane), c.m, 4).s(
        let_u(c.ib, uv((c.lane + 3) as u32)),
    )
}

/// They change nothing but registers.
pub proof fn lemma_head_silent<V>(c: Coop<V>)
    requires
        c.ok(),
    ensures
        block_silent(head_code(c), head_code(c).len()),
{
    let b = coop_head(code(), c.q6, c.nsg, c.lane);
    assert(block_silent(b, b.len())) by {
        reveal_with_fuel(block_silent, 5);
    }
    lemma_decls_silent(b, c.m, 4);
    lemma_silent_push(
        decls_code(b, c.m, 4),
        Code::Flat(let_u(c.ib, uv((c.lane + 3) as u32))),
    );
}

proof fn lemma_decls_silent(b: Seq<Code>, m: Rows, r: nat)
    requires
        block_silent(b, b.len()),
    ensures
        block_silent(decls_code(b, m, r), decls_code(b, m, r).len()),
    decreases r,
{
    if r > 0 {
        lemma_decls_silent(b, m, (r - 1) as nat);
        let d = decls_code(b, m, (r - 1) as nat);
        let all = decls_code(b, m, r);
        let s1 = all[d.len() as int];
        let s2 = all[d.len() as int + 1];
        lemma_silent_push(d, s1);
        lemma_silent_push(d.push(s1), s2);
        if m.per == 2 {
            assert(all =~= d.push(s1).push(s2));
        } else {
            let s3 = all[d.len() as int + 2];
            lemma_silent_push(d.push(s1).push(s2), s3);
            assert(all =~= d.push(s1).push(s2).push(s3));
        }
    }
}

/// Whether a thread reads the vector where it is.
pub open spec fn reads_vector<V>(c: Coop<V>, l: Lane<V>) -> bool {
    &&& l.bufs == c.bufs
    &&& match c.m.tg_x {
        None => true,
        Some(id) => forall|i: int|
            0 <= i < c.m.cols ==> #[trigger] l.shared[(id, i)] == (c.xs)(i),
    }
}

/// A thread before the loop.
proof fn lemma_before_loop<V>(c: Coop<V>, l: Lane<V>, r: Regs<V>, i: int)
    requires
        c.ok(),
        quiet(r),
        l.gid == c.gid,
        l.lid == i,
        0 <= i < c.threads(),
    ensures
        ({
            let p = run(c.ar, l, head_code(c), r);
            let b = stripe(c.q6, i % 32);
            c.holds(i, p, b as nat, 0) && p.u[c.ib] == b && p.u.contains_key(c.ib)
        }),
{
    let ar = c.ar;
    let job = c.job(i / 32);
    let d = decls_code(coop_head(code(), c.q6, c.nsg, c.lane), c.m, 4);
    let s = Code::Flat(let_u(c.ib, uv((c.lane + 3) as u32)));
    let b = stripe(c.q6, i % 32);
    lemma_job(c, i / 32);
    lemma_thread_decls(c, l, r, i, 4);
    lemma_run_push(ar, l, d, s, r);
    let q = run(ar, l, d, r);
    let p = run(ar, l, d.push(s), r);
    assert(index(ar, l, q, uv((c.lane + 3) as u32)) == b);
    assert(p == (Regs { u: q.u.insert(c.ib, b), ..q }));
    assert forall|j: int| 0 <= j < job.t.nr implies p.u[#[trigger] job.m.base(j)] == (job.first()
        + j) * job.m.cols by {
        lemma_base(job, j);
        assert(q.u[job.m.base(j)] == (job.first() + j) * job.m.cols);
    }
    assert forall|s: int| 0 <= s < job.sums() && 0 <= job.row(s) && job.live(s) implies p.f[
        #[trigger] job.acc(s)
    ] == c.had(i / 32, s, i % 32, b as nat) by {
        lemma_acc(job, s);
        lemma_first_turn(ar, c.piece(i / 32, s, i % 32), stripes(c.q6), b);
        assert(q.f[job.acc(s)] == ar.zero());
    }
}

/// What a lane adds for one block of one sum.
proof fn lemma_part<V>(c: Coop<V>, l: Lane<V>, r: Regs<V>, i: int, b: int, s: int)
    requires
        c.ok(),
        0 <= i < c.threads(),
        reads_vector(c, l),
        quiet(r),
        0 <= b < c.m.cols / 256,
        0 <= s < c.job(i / 32).sums(),
    ensures
        ({
            let job = c.job(i / 32);
            part_of(
                c.ar,
                l,
                r,
                c.q6,
                job.matrix(s),
                job.first() * c.m.cols + job.row(s) * c.m.cols,
                b,
                c.m.tg_x,
                c.m.x_buf,
                0,
                i % 32,
            ) == c.piece(i / 32, s, i % 32)(b)
        }),
{
    let job = c.job(i / 32);
    let at = job.first() * c.m.cols + job.row(s) * c.m.cols;
    assert(at == (job.first() + job.row(s)) * c.m.cols) by (nonlinear_arith)
        requires
            at == job.first() * c.m.cols + job.row(s) * c.m.cols,
    ;
    let w = Seq::new(256, |n: int| (l.bufs)(job.matrix(s), at + (256 * b + n)));
    let from = c.m.tg_x;
    let (x_buf, x_off) = (c.m.x_buf, 0int);
    let x = Seq::new(
        256,
        |n: int|
            match from {
                Some(id) => shared_at(l, r, id, 256 * b - x_off + n),
                None => (l.bufs)(x_buf, 256 * b + n),
            },
    );
    assert(w =~= c.weights(i / 32, s, b));
    assert(x =~= c.inputs(b)) by {
        assert forall|n: int| 0 <= n < 256 implies #[trigger] x[n] == c.inputs(b)[n] by {
            match from {
                Some(id) => {
                    assert(l.shared[(id, 256 * b + n)] == (c.xs)(256 * b + n));
                },
                None => {
                    assert((c.xs)(256 * b + n) == (c.bufs)(c.m.x_buf, 256 * b + n));
                },
            }
        }
    }
    assert(part_of(c.ar, l, r, c.q6, job.matrix(s), at, b, from, x_buf, x_off, i % 32) == (
    c.ar.part)(c.q6, w, x, i % 32));
}

/// Whether all sums of rows that exist have gained what a lane has for a block.
spec fn has_gained<V>(c: Coop<V>, i: int, p: Regs<V>, r: Regs<V>, b: int) -> bool {
    let job = c.job(i / 32);
    &&& p == (Regs { f: p.f, ..r })
    &&& forall|s: int|
        0 <= s < job.sums() && job.live(s) ==> p.f[#[trigger] job.acc(s)] == c.ar.sum(
            r.f[job.acc(s)],
            c.piece(i / 32, s, i % 32)(b),
        )
}

/// One row at a time, the first `n` of those that exist.
proof fn lemma_frag_rows<V>(c: Coop<V>, l: Lane<V>, r: Regs<V>, i: int, b: int, n: nat)
    requires
        c.ok(),
        0 <= i < c.threads(),
        reads_vector(c, l),
        c.holds(i, r, b as nat, 0),
        r.u[c.ib] == b,
        0 <= b < c.m.cols / 256,
        n <= 4,
    ensures
        run(c.ar, l, frag_rows_code(c.m, c.q6, c.ib, c.lane, n), r) == (Regs {
            f: gained(c.job(i / 32), r.f, |s: int| c.piece(i / 32, s, i % 32)(b), n),
            ..r
        }),
    decreases n,
{
    let (ar, job, m) = (c.ar, c.job(i / 32), c.m);
    let gain = |s: int| c.piece(i / 32, s, i % 32)(b);
    lemma_job(c, i / 32);
    if n == 0 {
        assert(run(ar, l, frag_rows_code(m, c.q6, c.ib, c.lane, 0), r) == r);
    } else {
        let j = n - 1;
        lemma_frag_rows(c, l, r, i, b, j as nat);
        let before = frag_rows_code(m, c.q6, c.ib, c.lane, j as nat);
        let q = run(ar, l, before, r);
        let s = Code::Flat(frag_step(m, c.q6, job.acc(j), m.base(j), 0, c.ib, c.lane));
        let one = code().push(s);
        let guard = gt(cu(m.rows), row_at(m.first, j as u32));
        lemma_acc(job, j);
        lemma_guard(job, l, q, j);
        lemma_run_one(ar, l, s, q);
        lemma_frag_step(c, l, q, i, b, j);
        let mid = run(ar, l, one, q);
        if m.per == 2 {
            lemma_run_push(ar, l, before, Code::If { cond: guard, body: one }, r);
        } else {
            let other = 4 + j;
            lemma_acc(job, other);
            assert(job.acc(other) == job.acc(j) + 1);
            let s2 = Code::Flat(frag_step(m, c.q6, job.acc(other), m.base(j), 1, c.ib, c.lane));
            lemma_run_push(ar, l, before, Code::If { cond: guard, body: one.push(s2) }, r);
            lemma_run_push(ar, l, one, s2, q);
            lemma_frag_step(c, l, mid, i, b, other);
        }
    }
}

/// One block of one sum.
proof fn lemma_frag_step<V>(c: Coop<V>, l: Lane<V>, q: Regs<V>, i: int, b: int, s: int)
    requires
        c.ok(),
        0 <= i < c.threads(),
        reads_vector(c, l),
        quiet(q),
        q.u[c.lane] == i % 32,
        c.job(i / 32).knows_rows(q),
        q.u[c.ib] == b,
        0 <= b < c.m.cols / 256,
        0 <= s < c.job(i / 32).sums(),
    ensures
        ({
            let job = c.job(i / 32);
            step(
                c.ar,
                l,
                Code::Flat(
                    frag_step(
                        c.m,
                        c.q6,
                        job.acc(s),
                        c.m.base(job.row(s)),
                        job.matrix(s),
                        c.ib,
                        c.lane,
                    ),
                ),
                q,
            ) == (Regs {
                f: with_gain(job, q.f, |s: int| c.piece(i / 32, s, i % 32)(b), s),
                ..q
            })
        }),
{
    let (ar, job, m) = (c.ar, c.job(i / 32), c.m);
    lemma_job(c, i / 32);
    lemma_first_row(job);
    lemma_acc(job, s);
    let j = job.row(s);
    let acc = job.acc(s);
    let at = job.first() * m.cols + j * m.cols;
    assert(at == (job.first() + j) * m.cols) by (nonlinear_arith)
        requires
            at == job.first() * m.cols + j * m.cols,
    ;
    let base = KirExpr::UVar(m.base(j));
    assert(index(ar, l, q, base) == at);
    assert(index(ar, l, q, KirExpr::UVar(c.ib)) == b);
    assert(index(ar, l, q, KirExpr::UVar(c.lane)) == i % 32);
    assert(index(ar, l, q, KirExpr::ConstU32(0)) == 0);
    lemma_part(c, l, q, i, b, s);
    let w = job.matrix(s);
    let e = if c.q6 {
        q6k_frag(w, m.base(j), m.cols, c.ib, m.tg_x, m.x_buf, c.lane)
    } else {
        q4k_frag(w, m.base(j), m.cols, c.ib, m.tg_x, m.x_buf, c.lane)
    };
    assert(value(ar, l, q, e) == c.piece(i / 32, s, i % 32)(b));
    assert(value(ar, l, q, v(acc)) == q.f[acc]);
    assert(value(ar, l, q, plus(v(acc), e)) == ar.sum(q.f[acc], value(ar, l, q, e)));
}

/// One block.
proof fn lemma_block<V>(c: Coop<V>, l: Lane<V>, r: Regs<V>, i: int, b: nat)
    requires
        c.ok(),
        0 <= i < c.threads(),
        reads_vector(c, l),
        c.holds(i, r, b, 0),
        r.u[c.ib] == b,
        b < c.m.cols / 256,
        b as int % stripes(c.q6) == stripe(c.q6, i % 32),
    ensures
        ({
            let p = run(c.ar, l, c.block_code(), r);
            &&& p == (Regs { f: p.f, ..r })
            &&& c.holds(i, p, (b + stripes(c.q6)) as nat, 0)
            &&& (b + stripes(c.q6)) % stripes(c.q6) == stripe(c.q6, i % 32)
        }),
{
    let (ar, job, m) = (c.ar, c.job(i / 32), c.m);
    let (q6, ln) = (c.q6, i % 32);
    let p = run(ar, l, c.block_code(), r);
    lemma_job(c, i / 32);
    lemma_first_row(job);
    assert(has_gained(c, i, p, r, b as int)) by {
        let s1 = Code::If {
            cond: gt(cu(m.rows), plus(uv(m.first), cu(3))),
            body: code().s(c.block_step()),
        };
        let few = frag_rows_code(m, q6, c.ib, c.lane, 4);
        let s2 = Code::If { cond: gt(plus(uv(m.first), cu(3)), cu(before(m.rows))), body: few };
        if c.exact {
            lemma_four(c, l, r, i, b);
        } else {
            lemma_run_one(ar, l, s1, r);
            lemma_run_push(ar, l, code().push(s1), s2, r);
            assert(c.block_code() == code().push(s1).push(s2));
            let full = job.first() + 3 < m.rows;
            let q = run(ar, l, code().push(s1), r);
            lemma_full(c, l, r, i);
            if full {
                lemma_four(c, l, r, i, b);
                assert(q == run(ar, l, code().s(c.block_step()), r));
                lemma_full(c, l, q, i);
                assert(p == q);
            } else {
                assert(q == r);
                lemma_frag_rows(c, l, r, i, b as int, 4);
                let gain = |s: int| c.piece(i / 32, s, ln)(b as int);
                lemma_gained(job, r.f, gain, 4);
                assert(p == run(ar, l, few, r));
                assert forall|s: int| 0 <= s < job.sums() && job.live(s) implies p.f[
                    #[trigger] job.acc(s)
                ] == ar.sum(r.f[job.acc(s)], c.piece(i / 32, s, ln)(b as int)) by {
                    lemma_acc(job, s);
                }
            }
        }
    }
    lemma_turn(ar, c.piece(i / 32, 0, ln), stripes(q6), stripe(q6, ln), b);
    assert forall|s: int| 0 <= s < job.sums() && 0 <= job.row(s) && job.live(s) implies p.f[
        #[trigger] job.acc(s)
    ] == c.had(i / 32, s, ln, (b + stripes(q6)) as nat) by {
        lemma_turn(ar, c.piece(i / 32, s, ln), stripes(q6), stripe(q6, ln), b);
        assert(r.f[job.acc(s)] == c.had(i / 32, s, ln, b));
    }
}

/// Whether all four rows of a simdgroup exist is what the guards ask.
proof fn lemma_full<V>(c: Coop<V>, l: Lane<V>, r: Regs<V>, i: int)
    requires
        c.ok(),
        0 <= i < c.threads(),
        c.job(i / 32).knows_rows(r),
    ensures
        ({
            let full = c.job(i / 32).first() + 3 < c.m.rows;
            let third = plus(uv(c.m.first), cu(3));
            &&& holds(c.ar, l, r, gt(cu(c.m.rows), third)) == full
            &&& holds(c.ar, l, r, gt(third, cu(before(c.m.rows)))) == !full
        }),
{
    let (ar, m, job) = (c.ar, c.m, c.job(i / 32));
    lemma_job(c, i / 32);
    let third = plus(uv(m.first), cu(3));
    assert(index(ar, l, r, uv(m.first)) == job.first());
    assert(index(ar, l, r, cu(3)) == 3);
    assert(index(ar, l, r, third) == job.first() + 3);
    assert(index(ar, l, r, cu(m.rows)) == m.rows);
    assert(index(ar, l, r, cu(before(m.rows))) == before(m.rows));
    assert(is_index(cu(m.rows)));
    assert(is_index(uv(m.first)) && is_index(third));
}

/// One block of four rows.
proof fn lemma_four<V>(c: Coop<V>, l: Lane<V>, r: Regs<V>, i: int, b: nat)
    requires
        c.ok(),
        0 <= i < c.threads(),
        reads_vector(c, l),
        c.holds(i, r, b, 0),
        r.u[c.ib] == b,
        b < c.m.cols / 256,
    ensures
        has_gained(c, i, run(c.ar, l, code().s(c.block_step()), r), r, b as int),
{
    let (ar, job, m) = (c.ar, c.job(i / 32), c.m);
    let s0 = Code::Flat(c.block_step());
    lemma_job(c, i / 32);
    lemma_first_row(job);
    lemma_run_one(ar, l, s0, r);
    let at = job.first() * m.cols;
    lemma_base(job, 0);
    assert(r.u[m.base(0)] == (job.first() + 0) * m.cols);
    assert(index(ar, l, r, uv(m.base(0))) == at);
    assert(index(ar, l, r, uv(c.ib)) == b);
    assert(index(ar, l, r, uv(c.lane)) == i % 32);
    assert(index(ar, l, r, cu(0)) == 0);
    let (q6, tg_x, x_buf, ln, cols) = (c.q6, m.tg_x, m.x_buf, i % 32, m.cols);
    let (bb, zero) = (b as int, 0int);
    let p = run(ar, l, code().push(s0), r);
    lemma_acc(job, 0);
    lemma_acc(job, 1);
    lemma_acc(job, 2);
    lemma_acc(job, 3);
    let accs = [m.acc(0), m.acc(1), m.acc(2), m.acc(3)];
    let g = |j: int| part_of(ar, l, r, q6, 0, at + j * cols, bb, tg_x, x_buf, zero, ln);
    lemma_part(c, l, r, i, bb, 0);
    lemma_part(c, l, r, i, bb, 1);
    lemma_part(c, l, r, i, bb, 2);
    lemma_part(c, l, r, i, bb, 3);
    assert(g(0) == c.piece(i / 32, 0, ln)(bb));
    assert(g(1) == c.piece(i / 32, 1, ln)(bb));
    assert(g(2) == c.piece(i / 32, 2, ln)(bb));
    assert(g(3) == c.piece(i / 32, 3, ln)(bb));
    let one = four_gained(ar, r.f, accs, g);
    if m.per == 2 {
        assert(p == (Regs { f: one, ..r }));
    } else {
        lemma_acc(job, 4);
        lemma_acc(job, 5);
        lemma_acc(job, 6);
        lemma_acc(job, 7);
        let ups = [
            (m.acc(0) + 1) as u32,
            (m.acc(1) + 1) as u32,
            (m.acc(2) + 1) as u32,
            (m.acc(3) + 1) as u32,
        ];
        let h = |j: int| part_of(ar, l, r, q6, 1, at + j * cols, bb, tg_x, x_buf, zero, ln);
        lemma_part(c, l, r, i, bb, 4);
        lemma_part(c, l, r, i, bb, 5);
        lemma_part(c, l, r, i, bb, 6);
        lemma_part(c, l, r, i, bb, 7);
        assert(h(0) == c.piece(i / 32, 4, ln)(bb));
        assert(h(1) == c.piece(i / 32, 5, ln)(bb));
        assert(h(2) == c.piece(i / 32, 6, ln)(bb));
        assert(h(3) == c.piece(i / 32, 7, ln)(bb));
        assert(p == (Regs { f: four_gained(ar, one, ups, h), ..r }));
    }
    assert forall|s: int| 0 <= s < job.sums() && job.live(s) implies p.f[#[trigger] job.acc(s)]
        == ar.sum(r.f[job.acc(s)], c.piece(i / 32, s, ln)(bb)) by {
        lemma_acc(job, s);
    }
}

/// The loop over the blocks leaves a thread with its share of all of them.
pub proof fn lemma_block_loop<V>(c: Coop<V>, l: Lane<V>, r: Regs<V>, i: int, b: nat)
    requires
        c.ok(),
        0 <= i < c.threads(),
        reads_vector(c, l),
        c.holds(i, r, b, 0),
        r.u[c.ib] == b,
        b < c.blocks() + stripes(c.q6),
        b as int % stripes(c.q6) == stripe(c.q6, i % 32),
    ensures
        c.holds(i, turns(c.ar, l, c.block_loop(), r), c.blocks(), 0),
    decreases c.blocks() + stripes(c.q6) - b,
{
    let (ar, job) = (c.ar, c.job(i / 32));
    let whole = c.block_loop();
    let n = c.blocks();
    let st = stripes(c.q6);
    lemma_job(c, i / 32);
    assert(index(ar, l, r, cu(0)) == 0);
    assert(index(ar, l, r, cu((c.m.cols / 256) as u32)) == n);
    if b < n {
        lemma_block(c, l, r, i, b);
        let p = run(ar, l, c.block_code(), r);
        assert(index(ar, l, p, cu(st as u32)) == st);
        let next = Regs { u: p.u.insert(c.ib, b + st), ..p };
        assert(turns(ar, l, whole, r) == turns(ar, l, whole, next));
        assert forall|j: int| 0 <= j < job.t.nr implies next.u[#[trigger] job.m.base(j)] == (
        job.first() + j) * job.m.cols by {
            lemma_base(job, j);
            assert(p.u[job.m.base(j)] == (job.first() + j) * job.m.cols);
        }
        assert(c.holds(i, next, (b + st) as nat, 0));
        lemma_block_loop(c, l, next, i, (b + st) as nat);
    } else {
        assert(turns(ar, l, whole, r) == r);
        assert forall|s: int| 0 <= s < job.sums() && 0 <= job.row(s) && job.live(s) implies r.f[
            #[trigger] job.acc(s)
        ] == c.had(i / 32, s, i % 32, n) by {
            assert(r.f[job.acc(s)] == c.had(i / 32, s, i % 32, b));
            lemma_had_all(ar, c.piece(i / 32, s, i % 32), st, stripe(c.q6, i % 32), n, b);
        }
    }
}

/// All statements before the sums, for a thread.
pub proof fn lemma_thread<V>(c: Coop<V>, l: Lane<V>, r: Regs<V>, i: int)
    requires
        c.ok(),
        quiet(r),
        l.gid == c.gid,
        l.lid == i,
        0 <= i < c.threads(),
        reads_vector(c, l),
    ensures
        c.holds(
            i,
            turns(c.ar, l, c.block_loop(), run(c.ar, l, head_code(c), r)),
            c.blocks(),
            0,
        ),
{
    lemma_before_loop(c, l, r, i);
    let b = stripe(c.q6, i % 32);
    lemma_first_turn(c.ar, c.xs, stripes(c.q6), b);
    lemma_block_loop(c, l, run(c.ar, l, head_code(c), r), i, b as nat);
}

} // verus!
