//! What the generic matrix-vector kernel computes, whatever its tiling.

use vstd::prelude::*;

use crate::codegen::laws::machine::{
    holds, index, is_index, lemma_run_one, lemma_run_push, run, shared_at, value, Arith, Lane, Regs,
};
use crate::codegen::laws::sums::{lemma_turn, share};
use crate::codegen::lower::block::{code, cu, gt, plus, row_at, uv, v, vec_dot, Extend};
use crate::codegen::lower::matvec::{
    chunk_code, dot_step, lemma_fits, moved, unroll_off, unrolled_code, Rows, Tiling,
};
use crate::ir::kernel::Code;

verus! {

/// A group of the kernel at work: the arithmetic, the group, the device buffers, the vector, the
/// rows and the tiling, and the variable that holds the position in the row.
#[verifier::reject_recursive_types(V)]
pub ghost struct Job<V> {
    pub ar: Arith<V>,
    pub gid: int,
    pub bufs: spec_fn(u32, int) -> V,
    pub xs: spec_fn(int) -> V,
    pub m: Rows,
    pub t: Tiling,
    pub k: u32,
}

impl<V> Job<V> {
    /// The first row of the group.
    pub open spec fn first(self) -> int {
        self.gid * self.t.nr
    }

    /// How many sums the group keeps: one for each row, or one for each row and matrix where there
    /// are two matrices.
    pub open spec fn sums(self) -> int {
        if self.m.per == 2 {
            self.t.nr as int
        } else {
            2 * self.t.nr as int
        }
    }

    /// The row of a sum, counted in the group. The sums of the first matrix come first.
    pub open spec fn row(self, s: int) -> int {
        if s < self.t.nr {
            s
        } else {
            s - self.t.nr
        }
    }

    /// The buffer that holds the matrix of a sum.
    pub open spec fn matrix(self, s: int) -> u32 {
        if s < self.t.nr {
            0
        } else {
            1
        }
    }

    /// The variable that holds a sum.
    pub open spec fn acc(self, s: int) -> u32 {
        (self.m.acc(self.row(s)) + self.matrix(s)) as u32
    }

    /// Whether the row of a sum exists.
    pub open spec fn live(self, s: int) -> bool {
        self.first() + self.row(s) < self.m.rows
    }

    pub open spec fn weight(self, s: int, i: int) -> V {
        (self.bufs)(self.matrix(s), (self.first() + self.row(s)) * self.m.cols + i)
    }

    pub open spec fn x(self, i: int) -> V {
        (self.xs)(i)
    }

    /// Whole chunks of a row.
    pub open spec fn chunks(self) -> int {
        self.m.cols as int / self.t.vec as int
    }

    /// What `width` elements from `at` on contribute to a sum.
    pub open spec fn dot_at(self, s: int, at: int) -> V {
        self.ar.dot(
            |n: int| self.weight(s, at + n),
            |n: int| self.x(at + n),
            self.t.vec as nat,
        )
    }

    /// What the chunks contribute to a sum.
    pub open spec fn chunk(self, s: int) -> spec_fn(int) -> V {
        |c: int| self.dot_at(s, c * self.t.vec)
    }

    /// Whether the variables are apart and all indices are machine integers.
    pub open spec fn ok(self) -> bool {
        &&& self.t.ok()
        &&& self.m.width == self.t.vec
        &&& self.m.first < self.m.ids
        &&& self.m.fits(self.t.nr as int)
        &&& self.k == self.m.ids + self.m.per * self.t.nr
        &&& 0 <= self.gid
        &&& (self.first() + self.t.nr) * self.m.cols <= u32::MAX
        &&& self.first() + self.t.nr <= u32::MAX
        &&& self.m.cols + 0x80000 <= u32::MAX
        &&& self.m.tg_x is None ==> forall|i: int| #[trigger]
            (self.xs)(i) == (self.bufs)(self.m.x_buf, i)
    }

    /// Whether a thread of the job, which has stored nothing yet, reads the vector where it is: in
    /// the device buffer, or staged.
    pub open spec fn reads_x(self, l: Lane<V>, r: Regs<V>) -> bool {
        &&& r.stored == Map::<(u32, int), V>::empty()
        &&& match self.m.tg_x {
            None => true,
            Some(id) => forall|i: int|
                0 <= i < self.m.cols ==> #[trigger] shared_at(l, r, id, i) == self.x(i),
        }
    }

    /// Whether a thread knows its rows.
    pub open spec fn knows_rows(self, r: Regs<V>) -> bool {
        &&& r.u[self.m.first] == self.first()
        &&& forall|j: int|
            0 <= j < self.t.nr ==> r.u[#[trigger] self.m.base(j)] == (self.first() + j)
                * self.m.cols
    }

    /// Whether a thread is one of the job.
    pub open spec fn lane_ok(self, l: Lane<V>) -> bool {
        l.gid == self.gid && l.bufs == self.bufs && 0 <= l.lid < self.t.tg
    }
}

/// A dot product depends on the values of its pairs only.
pub proof fn lemma_dot_same<V>(
    ar: Arith<V>,
    a: spec_fn(int) -> V,
    b: spec_fn(int) -> V,
    c: spec_fn(int) -> V,
    d: spec_fn(int) -> V,
    n: nat,
)
    requires
        forall|i: int| 0 <= i < n ==> #[trigger] a(i) == c(i),
        forall|i: int| 0 <= i < n ==> #[trigger] b(i) == d(i),
    ensures
        ar.dot(a, b, n) == ar.dot(c, d, n),
    decreases n,
{
    if n > 1 {
        lemma_dot_same(ar, a, b, c, d, (n - 1) as nat);
    }
}

/// Sums are held apart.
pub proof fn lemma_acc<V>(job: Job<V>, s: int)
    requires
        job.ok(),
        0 <= s < job.sums(),
    ensures
        0 <= job.row(s) < job.t.nr,
        job.acc(s) == job.m.ids + (if job.m.per == 2 {
            2 * job.row(s)
        } else {
            3 * job.row(s) + job.matrix(s)
        }),
{
    lemma_fits(job.m, job.row(s), job.t.nr as int);
}

/// Two sums have two variables.
pub proof fn lemma_accs_apart<V>(job: Job<V>, s: int, q: int)
    requires
        job.ok(),
        0 <= s < job.sums(),
        0 <= q < job.sums(),
        s != q,
    ensures
        job.acc(s) != job.acc(q),
{
    lemma_acc(job, s);
    lemma_acc(job, q);
}

/// So are the offsets of the rows, and the position behind them.
pub proof fn lemma_base<V>(job: Job<V>, j: int)
    requires
        job.ok(),
        0 <= j < job.t.nr,
    ensures
        job.m.base(j) == job.m.ids + (if job.m.per == 2 {
            2 * j + 1
        } else {
            3 * j + 2
        }),
        job.m.base(j) < job.k,
{
    lemma_fits(job.m, j, job.t.nr as int);
    if job.m.per == 2 {
        assert(job.k == job.m.ids + 2 * job.t.nr);
    } else {
        assert(job.k == job.m.ids + 3 * job.t.nr);
    }
}

/// Two rows have two offsets.
pub proof fn lemma_bases_apart<V>(job: Job<V>, i: int, j: int)
    requires
        job.ok(),
        0 <= i < j < job.t.nr,
    ensures
        job.m.base(i) < job.m.base(j),
{
    lemma_base(job, i);
    lemma_base(job, j);
}

/// A sum with a gain.
pub open spec fn with_gain<V>(job: Job<V>, f: Map<u32, V>, gain: spec_fn(int) -> V, s: int) -> Map<
    u32,
    V,
> {
    f.insert(job.acc(s), job.ar.sum(f[job.acc(s)], gain(s)))
}

/// The sums of the first `r` rows, those of each existing row with a gain.
pub open spec fn gained<V>(
    job: Job<V>,
    f: Map<u32, V>,
    gain: spec_fn(int) -> V,
    r: nat,
) -> Map<u32, V>
    decreases r,
{
    if r == 0 {
        f
    } else {
        let p = gained(job, f, gain, (r - 1) as nat);
        if !job.live(r - 1) {
            p
        } else if job.m.per == 2 {
            with_gain(job, p, gain, r - 1)
        } else {
            with_gain(job, with_gain(job, p, gain, r - 1), gain, job.t.nr + r - 1)
        }
    }
}

/// Each sum has its gain and keeps its hands off the others.
pub proof fn lemma_gained<V>(job: Job<V>, f: Map<u32, V>, gain: spec_fn(int) -> V, r: nat)
    requires
        job.ok(),
        r <= job.t.nr,
    ensures
        forall|s: int|
            0 <= s < job.sums() ==> gained(job, f, gain, r)[#[trigger] job.acc(s)] == (if job.row(s)
                < r && job.live(s) {
                job.ar.sum(f[job.acc(s)], gain(s))
            } else {
                f[job.acc(s)]
            }),
    decreases r,
{
    if r > 0 {
        lemma_gained(job, f, gain, (r - 1) as nat);
        lemma_acc(job, r - 1);
        if job.m.per == 3 {
            lemma_acc(job, job.t.nr + r - 1);
        }
        assert forall|s: int| 0 <= s < job.sums() implies gained(job, f, gain, r)[
            #[trigger] job.acc(s)
        ] == (if job.row(s) < r && job.live(s) {
            job.ar.sum(f[job.acc(s)], gain(s))
        } else {
            f[job.acc(s)]
        }) by {
            lemma_acc(job, s);
        }
    }
}

/// The value of one step of a dot product at `at`.
pub proof fn lemma_dot_value<V>(
    job: Job<V>,
    l: Lane<V>,
    r: Regs<V>,
    d: Option<u32>,
    at: int,
    s: int,
)
    requires
        job.ok(),
        job.lane_ok(l),
        job.reads_x(l, r),
        job.knows_rows(r),
        0 <= s < job.sums(),
        at == r.u[job.k] + (match d {
            None => 0,
            Some(d) => d as int,
        }),
        0 <= r.u[job.k],
        at + job.t.vec <= job.m.cols,
    ensures
        value(
            job.ar,
            l,
            r,
            vec_dot(
                job.matrix(s),
                plus(uv(job.m.base(job.row(s))), moved(job.k, d)),
                job.m.x_buf,
                moved(job.k, d),
                job.m.width,
                job.m.dtype,
                job.m.tg_x,
            ),
        ) == job.dot_at(s, at),
{
    let j = job.row(s);
    lemma_acc(job, s);
    lemma_first_row(job);
    let base = (job.first() + j) * job.m.cols;
    let e = moved(job.k, d);
    assert(index(job.ar, l, r, uv(job.k)) == r.u[job.k]);
    match d {
        None => {},
        Some(d) => {
            assert(index(job.ar, l, r, cu(d)) == d);
        },
    }
    assert(index(job.ar, l, r, e) == at);
    assert(index(job.ar, l, r, uv(job.m.base(j))) == base);
    assert(0 <= base && base + job.m.cols <= u32::MAX) by (nonlinear_arith)
        requires
            base == (job.first() + j) * job.m.cols,
            0 <= job.first(),
            0 <= j < job.t.nr,
            (job.first() + job.t.nr) * job.m.cols <= u32::MAX,
    ;
    let i = index(job.ar, l, r, plus(uv(job.m.base(j)), e));
    assert(i == base + at);
    let a = |n: int| (l.bufs)(job.matrix(s), i + n);
    let b = |n: int|
        match job.m.tg_x {
            Some(id) => shared_at(l, r, id, at + n),
            None => (l.bufs)(job.m.x_buf, at + n),
        };
    let y = |n: int| job.x(at + n);
    assert forall|n: int| 0 <= n < job.t.vec implies #[trigger] b(n) == y(n) by {
        match job.m.tg_x {
            Some(id) => {
                assert(shared_at(l, r, id, at + n) == job.x(at + n));
            },
            None => {
                assert((job.xs)(at + n) == (job.bufs)(job.m.x_buf, at + n));
            },
        }
    }
    lemma_dot_same(job.ar, a, b, |n: int| job.weight(s, at + n), y, job.t.vec as nat);
    let whole = vec_dot(
        job.matrix(s),
        plus(uv(job.m.base(j)), e),
        job.m.x_buf,
        e,
        job.m.width,
        job.m.dtype,
        job.m.tg_x,
    );
    assert(value(job.ar, l, r, whole) == job.ar.dot(a, b, job.m.width as nat));
}

pub proof fn lemma_first_row<V>(job: Job<V>)
    requires
        0 <= job.gid,
    ensures
        0 <= job.first(),
{
    assert(0 <= job.gid * job.t.nr) by (nonlinear_arith)
        requires
            0 <= job.gid,
    ;
}

/// Whether a row exists is what its guard asks.
pub proof fn lemma_guard<V>(job: Job<V>, l: Lane<V>, r: Regs<V>, j: int)
    requires
        job.ok(),
        job.knows_rows(r),
        0 <= j < job.t.nr,
    ensures
        holds(job.ar, l, r, gt(cu(job.m.rows), row_at(job.m.first, j as u32))) == job.live(j),
        index(job.ar, l, r, row_at(job.m.first, j as u32)) == job.first() + j,
{
    lemma_first_row(job);
    assert(index(job.ar, l, r, cu(job.m.rows)) == job.m.rows);
    assert(index(job.ar, l, r, uv(job.m.first)) == job.first());
    assert(index(job.ar, l, r, cu(j as u32)) == j);
    assert(is_index(cu(job.m.rows)));
    assert(index(job.ar, l, r, row_at(job.m.first, j as u32)) == job.first() + j);
}

/// A thread that has written nothing more reads the vector as before.
pub proof fn lemma_same_x<V>(job: Job<V>, l: Lane<V>, q: Regs<V>, p: Regs<V>)
    requires
        job.reads_x(l, p),
        q.writes == p.writes,
        q.stored == p.stored,
    ensures
        job.reads_x(l, q),
{
    match job.m.tg_x {
        None => {},
        Some(id) => {
            assert forall|i: int| 0 <= i < job.m.cols implies #[trigger] shared_at(l, q, id, i)
                == job.x(i) by {
                assert(shared_at(l, p, id, i) == job.x(i));
            }
        },
    }
}

/// One chunk at `at` for the first `r` rows.
pub proof fn lemma_chunk<V>(
    job: Job<V>,
    l: Lane<V>,
    b: Seq<Code>,
    d: Option<u32>,
    at: int,
    r0: Regs<V>,
    r: nat,
)
    requires
        job.ok(),
        job.lane_ok(l),
        r <= job.t.nr,
        ({
            let p = run(job.ar, l, b, r0);
            &&& job.reads_x(l, p)
            &&& job.knows_rows(p)
            &&& at == p.u[job.k] + (match d {
                None => 0,
                Some(d) => d as int,
            })
            &&& 0 <= p.u[job.k]
        }),
        at + job.t.vec <= job.m.cols,
    ensures
        ({
            let p = run(job.ar, l, b, r0);
            run(job.ar, l, chunk_code(b, job.m, job.k, d, r), r0) == (Regs {
                f: gained(job, p.f, |s: int| job.dot_at(s, at), r),
                ..p
            })
        }),
    decreases r,
{
    let p = run(job.ar, l, b, r0);
    let gain = |s: int| job.dot_at(s, at);
    if r > 0 {
        let j = r - 1;
        lemma_chunk(job, l, b, d, at, r0, j as nat);
        lemma_fits(job.m, j, job.t.nr as int);
        let before = chunk_code(b, job.m, job.k, d, j as nat);
        let q = run(job.ar, l, before, r0);
        let base = job.m.base(j);
        let acc = job.acc(j);
        let s = Code::Flat(dot_step(job.m, acc, base, 0, job.k, d));
        let one = code().push(s);
        let guard = gt(cu(job.m.rows), row_at(job.m.first, j as u32));
        lemma_acc(job, j);
        lemma_guard(job, l, q, j);
        lemma_run_one(job.ar, l, s, q);
        lemma_same_x(job, l, q, p);
        lemma_dot_value(job, l, q, d, at, j);
        assert(value(job.ar, l, q, v(acc)) == q.f[acc]);
        let mid = run(job.ar, l, one, q);
        assert(mid == (Regs { f: with_gain(job, q.f, gain, j), ..q }));
        if job.m.per == 2 {
            let c = Code::If { cond: guard, body: one };
            lemma_run_push(job.ar, l, before, c, r0);
        } else {
            let other = job.t.nr + j;
            lemma_acc(job, other);
            let acc2 = job.acc(other);
            assert(acc2 == acc + 1);
            let s2 = Code::Flat(dot_step(job.m, acc2, base, 1, job.k, d));
            let c = Code::If { cond: guard, body: one.push(s2) };
            lemma_run_push(job.ar, l, before, c, r0);
            lemma_run_push(job.ar, l, one, s2, q);
            lemma_same_x(job, l, mid, p);
            lemma_dot_value(job, l, mid, d, at, other);
            assert(value(job.ar, l, mid, v(acc2)) == mid.f[acc2]);
            assert(run(job.ar, l, one.push(s2), q) == (Regs {
                f: with_gain(job, mid.f, gain, other),
                ..mid
            }));
        }
    }
}

/// Whether the sums of a thread hold its share of the first `n` chunks.
pub open spec fn has_chunks<V>(job: Job<V>, lid: int, f: Map<u32, V>, n: nat) -> bool {
    forall|s: int|
        0 <= s < job.sums() && job.live(s) ==> f[#[trigger] job.acc(s)] == share(
            job.ar,
            job.chunk(s),
            job.t.tg as int,
            lid,
            n,
        )
}

/// The turn of a thread at chunk `c`.
pub proof fn lemma_chunk_turn<V>(job: Job<V>, lid: int, f: Map<u32, V>, c: nat)
    requires
        job.ok(),
        has_chunks(job, lid, f, c),
        c as int % job.t.tg as int == lid,
    ensures
        has_chunks(
            job,
            lid,
            gained(job, f, |s: int| job.dot_at(s, c * job.t.vec), job.t.nr as nat),
            (c + job.t.tg) as nat,
        ),
        (c + job.t.tg) % job.t.tg as int == lid,
{
    let gain = |s: int| job.dot_at(s, c * job.t.vec);
    lemma_gained(job, f, gain, job.t.nr as nat);
    lemma_turn(job.ar, job.chunk(0), job.t.tg as int, lid, c);
    assert forall|s: int| 0 <= s < job.sums() && job.live(s) implies gained(
        job,
        f,
        gain,
        job.t.nr as nat,
    )[#[trigger] job.acc(s)] == share(
        job.ar,
        job.chunk(s),
        job.t.tg as int,
        lid,
        (c + job.t.tg) as nat,
    ) by {
        lemma_acc(job, s);
        lemma_turn(job.ar, job.chunk(s), job.t.tg as int, lid, c);
        assert(f[job.acc(s)] == share(job.ar, job.chunk(s), job.t.tg as int, lid, c));
    }
}

/// `u` chunks of an unrolled loop from chunk `c` on.
pub proof fn lemma_unrolled<V>(job: Job<V>, l: Lane<V>, r0: Regs<V>, c: nat, u: nat)
    requires
        job.ok(),
        job.lane_ok(l),
        job.reads_x(l, r0),
        job.knows_rows(r0),
        r0.u[job.k] == c * job.t.vec,
        has_chunks(job, l.lid, r0.f, c),
        c as int % job.t.tg as int == l.lid,
        u <= job.t.unroll,
        u > 0 ==> (c + (u - 1) * job.t.tg + 1) * job.t.vec <= job.m.cols,
    ensures
        ({
            let p = run(
                job.ar,
                l,
                unrolled_code(job.m, job.k, job.t.stride, job.t.nr as nat, u),
                r0,
            );
            &&& p == (Regs { f: p.f, ..r0 })
            &&& has_chunks(job, l.lid, p.f, (c + u * job.t.tg) as nat)
            &&& (c + u * job.t.tg) as int % job.t.tg as int == l.lid
        }),
    decreases u,
{
    let b = unrolled_code(job.m, job.k, job.t.stride, job.t.nr as nat, u);
    if u > 0 {
        let w = (u - 1) as nat;
        let tg = job.t.tg as int;
        let vec = job.t.vec as int;
        let cols = job.m.cols as int;
        assert(w > 0 ==> (c + (w - 1) * tg + 1) * vec <= cols) by (nonlinear_arith)
            requires
                (c + w * tg + 1) * vec <= cols,
                0 <= vec,
                0 <= tg,
        ;
        lemma_unrolled(job, l, r0, c, w);
        let before = unrolled_code(job.m, job.k, job.t.stride, job.t.nr as nat, w);
        let p = run(job.ar, l, before, r0);
        let d = unroll_off(w as int, job.t.stride);
        let e = (c + w * tg) as nat;
        let at = e * vec;
        assert(at == c * vec + w * job.t.stride) by (nonlinear_arith)
            requires
                at == (c + w * tg) * vec,
                job.t.stride == tg * vec,
        ;
        assert(at + vec == (c + w * tg + 1) * vec) by (nonlinear_arith)
            requires
                at == (c + w * tg) * vec,
        ;
        assert(0 <= c * vec) by (nonlinear_arith)
            requires
                0 <= vec,
        ;
        assert(0 <= w * job.t.stride <= 8 * 32768) by (nonlinear_arith)
            requires
                0 <= w <= 8,
                0 <= job.t.stride <= 32768,
        ;
        assert(w == 0 ==> w * job.t.stride == 0);
        lemma_same_x(job, l, p, r0);
        lemma_chunk(job, l, before, d, at, r0, job.t.nr as nat);
        lemma_chunk_turn(job, l.lid, p.f, e);
        assert(c + u * tg == e + tg) by (nonlinear_arith)
            requires
                e == c + w * tg,
                u == w + 1,
        ;
    } else {
        assert(run(job.ar, l, b, r0) == r0);
        assert(c + 0 * job.t.tg == c);
    }
}

} // verus!
