//! The pass of a thread over the width of a matrix: unrolled chunks, single chunks and the tail.

use vstd::prelude::*;

use crate::codegen::laws::group::quiet;
use crate::codegen::laws::machine::{
    index, lemma_run_one, lemma_run_push, meets, run, shared_at, step, turns, value, Lane, Regs,
};
use crate::codegen::laws::matvec::{
    gained, has_chunks, lemma_acc, lemma_base, lemma_chunk, lemma_chunk_turn, lemma_first_row,
    lemma_gained, lemma_guard, lemma_same_x, lemma_unrolled, with_gain, Job,
};
use crate::codegen::laws::sums::{
    lemma_assoc, lemma_had_all, lemma_other_remainders, lemma_zero, series, share,
};
use crate::codegen::lower::block::{code, cu, gt, ld, plus, row_at, tg_load, times, uv, v, Extend};
use crate::codegen::lower::matvec::{
    chunk_code, lemma_fits, scalar_step, tail_code, unroll_off, unrolled_code, x_at, x_dtype, Rows,
};
use crate::ir::dtype::DType;
use crate::ir::kernel::Code;

verus! {

/// A chunk lies inside the row if and only if its number is below the number of chunks.
pub proof fn lemma_inside(cols: int, vec: int, c: int)
    requires
        0 < vec,
        0 <= cols,
    ensures
        (c + 1) * vec <= cols <==> c < cols / vec,
        cols / vec * vec <= cols < cols / vec * vec + vec,
{
    let n = cols / vec;
    assert(n * vec <= cols < n * vec + vec) by (nonlinear_arith)
        requires
            n == cols / vec,
            0 < vec,
            0 <= cols,
    ;
    if c < n {
        assert((c + 1) * vec <= n * vec) by (nonlinear_arith)
            requires
                c + 1 <= n,
                0 < vec,
        ;
    } else {
        assert((c + 1) * vec >= (n + 1) * vec) by (nonlinear_arith)
            requires
                c >= n,
                0 < vec,
        ;
        assert((n + 1) * vec == n * vec + vec) by (nonlinear_arith);
    }
}

impl<V> Job<V> {
    /// Whether a thread stands at its turn `c` and has had its share of the chunks before.
    pub open spec fn stands(self, l: Lane<V>, r: Regs<V>, c: nat) -> bool {
        &&& self.reads_x(l, r)
        &&& self.knows_rows(r)
        &&& quiet(r)
        &&& r.u[self.k] == c * self.t.vec
        &&& has_chunks(self, l.lid, r.f, c)
        &&& c as int % self.t.tg as int == l.lid
        &&& c < self.chunks() + self.t.tg
    }

    /// The loop over unrolled chunks.
    pub open spec fn main_loop(self) -> Code {
        Code::ForRange {
            id: self.k,
            limit_off: cu(self.t.main_off()),
            bound: cu(self.m.cols),
            step: cu(self.t.step()),
            body: unrolled_code(
                self.m,
                self.k,
                self.t.stride,
                self.t.nr as nat,
                self.t.unroll as nat,
            ),
        }
    }

    /// The loop over single chunks.
    pub open spec fn chunk_loop(self) -> Code {
        Code::ForRange {
            id: self.k,
            limit_off: cu((self.t.vec - 1) as u32),
            bound: cu(self.m.cols),
            step: cu(self.t.stride as u32),
            body: chunk_code(code(), self.m, self.k, None, self.t.nr as nat),
        }
    }

    /// The loop over single elements.
    pub open spec fn tail_loop(self) -> Code {
        Code::ForRange {
            id: self.k,
            limit_off: cu(0),
            bound: cu(self.m.cols),
            step: cu(self.t.tg as u32),
            body: tail_code(self.m, self.k, self.t.nr as nat),
        }
    }
}

/// Whether a block consists of guarded blocks.
spec fn all_guarded(b: Seq<Code>) -> bool {
    forall|i: int| 0 <= i < b.len() ==> (#[trigger] b[i]) is If
}

proof fn lemma_chunks_guarded(b: Seq<Code>, m: Rows, k: u32, d: Option<u32>, r: nat)
    requires
        all_guarded(b),
    ensures
        all_guarded(chunk_code(b, m, k, d, r)),
    decreases r,
{
    if r > 0 {
        lemma_chunks_guarded(b, m, k, d, (r - 1) as nat);
    }
}

proof fn lemma_unrolled_guarded(m: Rows, k: u32, stride: u64, nr: nat, u: nat)
    ensures
        all_guarded(unrolled_code(m, k, stride, nr, u)),
    decreases u,
{
    if u > 0 {
        lemma_unrolled_guarded(m, k, stride, nr, (u - 1) as nat);
        lemma_chunks_guarded(
            unrolled_code(m, k, stride, nr, (u - 1) as nat),
            m,
            k,
            unroll_off(u - 1, stride),
            nr,
        );
    }
}

proof fn lemma_tail_guarded(m: Rows, k: u32, r: nat)
    ensures
        all_guarded(tail_code(m, k, r)),
    decreases r,
{
    if r > 0 {
        lemma_tail_guarded(m, k, (r - 1) as nat);
    }
}

/// In the loops of the pass no thread waits for another.
pub proof fn lemma_no_waiting<V>(job: Job<V>)
    ensures
        !meets(job.main_loop()),
        !meets(job.chunk_loop()),
        !meets(job.tail_loop()),
{
    let nr = job.t.nr as nat;
    lemma_unrolled_guarded(job.m, job.k, job.t.stride, nr, job.t.unroll as nat);
    lemma_chunks_guarded(code(), job.m, job.k, None, nr);
    lemma_tail_guarded(job.m, job.k, nr);
}

/// A move of the position keeps everything else.
proof fn lemma_moved<V>(job: Job<V>, l: Lane<V>, p: Regs<V>, r: Regs<V>, at: int)
    requires
        job.ok(),
        job.reads_x(l, r),
        job.knows_rows(r),
        quiet(r),
        p == (Regs { f: p.f, u: r.u.insert(job.k, at), ..r }),
    ensures
        job.reads_x(l, p),
        job.knows_rows(p),
        quiet(p),
{
    lemma_same_x(job, l, p, r);
    assert forall|j: int| 0 <= j < job.t.nr implies p.u[#[trigger] job.m.base(j)] == (job.first()
        + j) * job.m.cols by {
        lemma_base(job, j);
    }
}

/// Where a thread stands is a machine integer, with room for a turn.
proof fn lemma_position<V>(job: Job<V>, c: nat)
    requires
        job.ok(),
        c < job.chunks() + job.t.tg,
    ensures
        0 <= c * job.t.vec < job.m.cols + job.t.stride,
{
    let vec = job.t.vec as int;
    let n = job.chunks();
    let tg = job.t.tg as int;
    lemma_inside(job.m.cols as int, vec, 0);
    assert(0 <= c * vec && c * vec <= (n + tg - 1) * vec) by (nonlinear_arith)
        requires
            0 < vec,
            0 <= c <= n + tg - 1,
    ;
    assert((n + tg - 1) * vec == n * vec + tg * vec - vec) by (nonlinear_arith);
}

/// The loop over unrolled chunks takes a thread from one of its turns to a later one.
pub proof fn lemma_main_loop<V>(job: Job<V>, l: Lane<V>, r: Regs<V>, c: nat)
    requires
        job.ok(),
        job.lane_ok(l),
        job.stands(l, r, c),
    ensures
        exists|d: nat| job.stands(l, turns(job.ar, l, job.main_loop(), r), d),
    decreases job.chunks() + job.t.tg - c,
{
    let tg = job.t.tg as int;
    let vec = job.t.vec as int;
    let cols = job.m.cols as int;
    let unroll = job.t.unroll as int;
    let stride = job.t.stride as int;
    lemma_position(job, c);
    assert(stride > 0) by (nonlinear_arith)
        requires
            stride == tg * vec,
            tg >= 1,
            vec >= 1,
    ;
    assert(0 <= (unroll - 1) * stride <= 7 * 32768 && stride * unroll <= 8 * 32768 && stride
        * unroll > 0) by (nonlinear_arith)
        requires
            1 <= unroll <= 8,
            0 < stride <= 32768,
    ;
    assert(job.t.main_off() == (unroll - 1) * stride + vec - 1);
    assert(job.t.step() == stride * unroll);
    let e = c + (unroll - 1) * tg;
    assert((e + 1) * vec == c * vec + (unroll - 1) * stride + vec) by (nonlinear_arith)
        requires
            e == c + (unroll - 1) * tg,
            stride == tg * vec,
    ;
    lemma_inside(cols, vec, e);
    let whole = job.main_loop();
    assert(index(job.ar, l, r, cu(job.t.main_off())) == job.t.main_off());
    assert(index(job.ar, l, r, cu(job.m.cols)) == cols);
    if (e + 1) * vec <= cols {
        lemma_unrolled(job, l, r, c, unroll as nat);
        let body = unrolled_code(job.m, job.k, job.t.stride, job.t.nr as nat, unroll as nat);
        let b = run(job.ar, l, body, r);
        assert(index(job.ar, l, b, cu(job.t.step())) == stride * unroll);
        let d = (c + unroll * tg) as nat;
        assert(unroll * tg > 0 && d == e + tg) by (nonlinear_arith)
            requires
                e == c + (unroll - 1) * tg,
                d == c + unroll * tg,
                unroll >= 1,
                tg >= 1,
        ;
        let at = c * vec + stride * unroll;
        assert(at == d * vec) by (nonlinear_arith)
            requires
                at == c * vec + stride * unroll,
                stride == tg * vec,
                d == c + unroll * tg,
        ;
        let next = Regs { u: b.u.insert(job.k, at), ..b };
        assert(turns(job.ar, l, whole, r) == turns(job.ar, l, whole, next));
        lemma_moved(job, l, next, r, at);
        lemma_main_loop(job, l, next, d);
    } else {
        assert(turns(job.ar, l, whole, r) == r);
    }
}

/// The loop over single chunks takes a thread to its first turn behind the last whole chunk.
pub proof fn lemma_chunk_loop<V>(job: Job<V>, l: Lane<V>, r: Regs<V>, c: nat)
    requires
        job.ok(),
        job.lane_ok(l),
        job.stands(l, r, c),
    ensures
        exists|d: nat|
            d >= job.chunks() && job.stands(l, turns(job.ar, l, job.chunk_loop(), r), d),
    decreases job.chunks() + job.t.tg - c,
{
    let tg = job.t.tg as int;
    let vec = job.t.vec as int;
    let cols = job.m.cols as int;
    let stride = job.t.stride as int;
    lemma_position(job, c);
    assert(stride > 0) by (nonlinear_arith)
        requires
            stride == tg * vec,
            tg >= 1,
            vec >= 1,
    ;
    assert((c + 1) * vec == c * vec + vec) by (nonlinear_arith);
    lemma_inside(cols, vec, c as int);
    let whole = job.chunk_loop();
    assert(index(job.ar, l, r, cu((vec - 1) as u32)) == vec - 1);
    assert(index(job.ar, l, r, cu(job.m.cols)) == cols);
    if (c + 1) * vec <= cols {
        let at = c * vec;
        assert(run(job.ar, l, code(), r) == r);
        lemma_chunk(job, l, code(), None, at, r, job.t.nr as nat);
        lemma_chunk_turn(job, l.lid, r.f, c);
        let body = chunk_code(code(), job.m, job.k, None, job.t.nr as nat);
        let b = run(job.ar, l, body, r);
        assert(index(job.ar, l, b, cu(job.t.stride as u32)) == stride);
        let d = (c + tg) as nat;
        assert(at + stride == d * vec) by (nonlinear_arith)
            requires
                at == c * vec,
                stride == tg * vec,
                d == c + tg,
        ;
        let next = Regs { u: b.u.insert(job.k, at + stride), ..b };
        assert(turns(job.ar, l, whole, r) == turns(job.ar, l, whole, next));
        lemma_moved(job, l, next, r, at + stride);
        lemma_chunk_loop(job, l, next, d);
    } else {
        assert(turns(job.ar, l, whole, r) == r);
    }
}

impl<V> Job<V> {
    /// The products of a sum.
    pub open spec fn term(self, j: int) -> spec_fn(int) -> V {
        |i: int| self.ar.product(self.weight(j, i), self.x(i))
    }

    /// What the tail adds to a sum from `at` on, one element at a time.
    pub open spec fn with_rest(self, j: int, a: V, at: int) -> V
        decreases self.m.cols - at,
    {
        if at >= self.m.cols {
            a
        } else {
            self.with_rest(j, self.ar.sum(a, self.term(j)(at)), at + 1)
        }
    }

    /// The products of a sum from `at` on, added up.
    pub open spec fn rest(self, j: int, at: int) -> V
        decreases self.m.cols - at,
    {
        if at >= self.m.cols {
            self.ar.zero()
        } else {
            self.ar.sum(self.term(j)(at), self.rest(j, at + 1))
        }
    }
}

/// One element at `at` for one sum.
proof fn lemma_scalar_step<V>(job: Job<V>, l: Lane<V>, q: Regs<V>, at: int, s: int)
    requires
        job.ok(),
        job.lane_ok(l),
        job.reads_x(l, q),
        job.knows_rows(q),
        q.u[job.k] == at,
        0 <= at < job.m.cols,
        0 <= s < job.sums(),
    ensures
        step(
            job.ar,
            l,
            Code::Flat(
                scalar_step(
                    job.m,
                    job.acc(s),
                    job.m.base(job.row(s)),
                    job.matrix(s),
                    job.k,
                ),
            ),
            q,
        ) == (Regs { f: with_gain(job, q.f, |s: int| job.term(s)(at), s), ..q }),
{
    let j = job.row(s);
    let acc = job.acc(s);
    let base = job.m.base(j);
    lemma_acc(job, s);
    lemma_first_row(job);
    let row = (job.first() + j) * job.m.cols;
    assert(0 <= row && row + job.m.cols <= u32::MAX) by (nonlinear_arith)
        requires
            row == (job.first() + j) * job.m.cols,
            0 <= job.first(),
            0 <= j < job.t.nr,
            (job.first() + job.t.nr) * job.m.cols <= u32::MAX,
    ;
    assert(index(job.ar, l, q, uv(base)) == row);
    assert(index(job.ar, l, q, uv(job.k)) == at);
    assert(index(job.ar, l, q, plus(uv(base), uv(job.k))) == row + at);
    let a = ld(job.matrix(s), plus(uv(base), uv(job.k)), job.m.dtype);
    let x = x_at(job.m.tg_x, job.m.x_buf, job.k, x_dtype(job.m.dtype));
    assert(value(job.ar, l, q, a) == job.weight(s, at));
    match job.m.tg_x {
        None => {
            assert((job.xs)(at) == (job.bufs)(job.m.x_buf, at));
        },
        Some(id) => {
            assert(shared_at(l, q, id, at) == job.x(at));
            assert(x == tg_load(id, uv(job.k)));
        },
    }
    assert(value(job.ar, l, q, x) == job.x(at));
    assert(value(job.ar, l, q, times(a, x)) == job.term(s)(at));
    assert(value(job.ar, l, q, v(acc)) == q.f[acc]);
    assert(value(job.ar, l, q, plus(v(acc), times(a, x))) == job.ar.sum(
        q.f[acc],
        job.term(s)(at),
    ));
}

/// One element at `at` for the first `r` rows.
proof fn lemma_tail_step<V>(job: Job<V>, l: Lane<V>, r0: Regs<V>, at: int, r: nat)
    requires
        job.ok(),
        job.lane_ok(l),
        r <= job.t.nr,
        job.reads_x(l, r0),
        job.knows_rows(r0),
        r0.u[job.k] == at,
        0 <= at < job.m.cols,
    ensures
        run(job.ar, l, tail_code(job.m, job.k, r), r0) == (Regs {
            f: gained(job, r0.f, |s: int| job.term(s)(at), r),
            ..r0
        }),
    decreases r,
{
    if r > 0 {
        let j = r - 1;
        lemma_tail_step(job, l, r0, at, j as nat);
        lemma_fits(job.m, j, job.t.nr as int);
        let before = tail_code(job.m, job.k, j as nat);
        let q = run(job.ar, l, before, r0);
        let base = job.m.base(j);
        let gain = |s: int| job.term(s)(at);
        let s = Code::Flat(scalar_step(job.m, job.acc(j), base, 0, job.k));
        let one = code().push(s);
        let guard = gt(cu(job.m.rows), row_at(job.m.first, j as u32));
        lemma_acc(job, j);
        lemma_guard(job, l, q, j);
        lemma_same_x(job, l, q, r0);
        lemma_scalar_step(job, l, q, at, j);
        lemma_run_one(job.ar, l, s, q);
        let mid = run(job.ar, l, one, q);
        assert(mid == (Regs { f: with_gain(job, q.f, gain, j), ..q }));
        if job.m.per == 2 {
            lemma_run_push(job.ar, l, before, Code::If { cond: guard, body: one }, r0);
        } else {
            let other = job.t.nr + j;
            lemma_acc(job, other);
            assert(job.acc(other) == job.acc(j) + 1);
            let s2 = Code::Flat(scalar_step(job.m, job.acc(other), base, 1, job.k));
            lemma_run_push(job.ar, l, before, Code::If { cond: guard, body: one.push(s2) }, r0);
            lemma_run_push(job.ar, l, one, s2, q);
            lemma_same_x(job, l, mid, r0);
            lemma_scalar_step(job, l, mid, at, other);
        }
    } else {
        assert(run(job.ar, l, tail_code(job.m, job.k, 0), r0) == r0);
    }
}

/// The tail of a thread, where one turn is enough or the thread is alone.
pub proof fn lemma_tail_loop<V>(job: Job<V>, l: Lane<V>, r: Regs<V>)
    requires
        job.ok(),
        job.lane_ok(l),
        job.reads_x(l, r),
        job.knows_rows(r),
        quiet(r),
        0 <= r.u[job.k] < job.m.cols + job.t.stride,
        job.t.tg == 1 || r.u[job.k] + 1 >= job.m.cols,
    ensures
        ({
            let after = turns(job.ar, l, job.tail_loop(), r);
            &&& quiet(after)
            &&& job.knows_rows(after)
            &&& forall|s: int|
                0 <= s < job.sums() && job.live(s) ==> after.f[#[trigger] job.acc(s)]
                    == job.with_rest(s, r.f[job.acc(s)], r.u[job.k])
        }),
    decreases job.m.cols + job.t.stride - r.u[job.k],
{
    let at = r.u[job.k];
    let tg = job.t.tg as int;
    let whole = job.tail_loop();
    assert(index(job.ar, l, r, cu(0)) == 0);
    assert(index(job.ar, l, r, cu(job.m.cols)) == job.m.cols);
    if at < job.m.cols {
        lemma_tail_step(job, l, r, at, job.t.nr as nat);
        let body = tail_code(job.m, job.k, job.t.nr as nat);
        let b = run(job.ar, l, body, r);
        let gain = |s: int| job.term(s)(at);
        lemma_gained(job, r.f, gain, job.t.nr as nat);
        assert(index(job.ar, l, b, cu(job.t.tg as u32)) == tg);
        assert(tg <= job.t.stride) by (nonlinear_arith)
            requires
                job.t.stride == tg * job.t.vec,
                job.t.vec >= 1,
                tg >= 1,
        ;
        let next = Regs { u: b.u.insert(job.k, at + tg), ..b };
        assert(turns(job.ar, l, whole, r) == turns(job.ar, l, whole, next));
        lemma_moved(job, l, next, r, at + tg);
        lemma_tail_loop(job, l, next);
        let after = turns(job.ar, l, whole, r);
        assert forall|s: int| 0 <= s < job.sums() && job.live(s) implies after.f[
            #[trigger] job.acc(s)
        ] == job.with_rest(s, r.f[job.acc(s)], at) by {
            lemma_acc(job, s);
            let a = job.ar.sum(r.f[job.acc(s)], job.term(s)(at));
            assert(next.f[job.acc(s)] == a);
            assert(job.with_rest(s, r.f[job.acc(s)], at) == job.with_rest(s, a, at + 1));
            if tg != 1 {
                assert(job.with_rest(s, a, at + 1) == a);
                assert(job.with_rest(s, a, at + tg) == a);
            }
        }
    }
}

/// Adding the rest one element at a time adds the sum of the rest.
pub proof fn lemma_with_rest<V>(job: Job<V>, j: int, a: V, at: int)
    requires
        job.ar.exact(),
    ensures
        job.with_rest(j, a, at) == job.ar.sum(a, job.rest(j, at)),
    decreases job.m.cols - at,
{
    if at >= job.m.cols {
        lemma_zero(job.ar, a);
    } else {
        let t = job.term(j)(at);
        lemma_with_rest(job, j, job.ar.sum(a, t), at + 1);
        lemma_assoc(job.ar, a, t, job.rest(j, at + 1));
    }
}

/// The first products and the rest make up the sum.
proof fn lemma_row_in_two<V>(job: Job<V>, j: int, at: nat)
    requires
        job.ar.exact(),
        at <= job.m.cols,
    ensures
        job.ar.sum(series(job.ar, job.term(j), at), job.rest(j, at as int)) == series(
            job.ar,
            job.term(j),
            job.m.cols as nat,
        ),
    decreases job.m.cols - at,
{
    let s = series(job.ar, job.term(j), at);
    if at == job.m.cols {
        lemma_zero(job.ar, s);
    } else {
        let t = job.term(j)(at as int);
        lemma_row_in_two(job, j, at + 1);
        lemma_assoc(job.ar, s, t, job.rest(j, at as int + 1));
    }
}

/// A chunk adds its products.
proof fn lemma_chunk_sum<V>(job: Job<V>, j: int, at: nat, n: nat)
    requires
        job.ar.exact(),
        n >= 1,
    ensures
        job.ar.sum(
            series(job.ar, job.term(j), at),
            job.ar.dot(|i: int| job.weight(j, at + i), |i: int| job.x(at + i), n),
        ) == series(job.ar, job.term(j), at + n),
    decreases n,
{
    let a = |i: int| job.weight(j, at + i);
    let b = |i: int| job.x(at + i);
    let s = series(job.ar, job.term(j), at);
    if n > 1 {
        lemma_chunk_sum(job, j, at, (n - 1) as nat);
        let d = job.ar.dot(a, b, (n - 1) as nat);
        lemma_assoc(job.ar, s, d, job.ar.product(a(n - 1), b(n - 1)));
    }
}

/// The chunks of a sum add up its products.
proof fn lemma_chunks_sum<V>(job: Job<V>, j: int, n: nat)
    requires
        job.ar.exact(),
        job.t.vec >= 1,
    ensures
        series(job.ar, job.chunk(j), n) == series(job.ar, job.term(j), (n * job.t.vec) as nat),
    decreases n,
{
    if n > 0 {
        let c = (n - 1) as nat;
        let at = (c * job.t.vec) as nat;
        assert(0 <= c * job.t.vec && n * job.t.vec == c * job.t.vec + job.t.vec)
            by (nonlinear_arith)
            requires
                n == c + 1,
                job.t.vec >= 0,
        ;
        lemma_chunks_sum(job, j, c);
        lemma_chunk_sum(job, j, at, job.t.vec as nat);
    } else {
        assert(0 * job.t.vec == 0);
    }
}

impl<V> Job<V> {
    /// Whether no element is lost behind the last whole chunk: there is none, or the tail reaches
    /// all of them.
    pub open spec fn reaches_all(self) -> bool {
        let p = self.m.cols as int - self.chunks() * self.t.vec;
        p == 0 || (self.m.dtype != DType::Q4K && (p == 1 || self.t.tg == 1))
    }

    /// The chunks of a sum, the last one as long as it is.
    pub open spec fn part(self, j: int) -> spec_fn(int) -> V {
        |c: int|
            if c < self.chunks() {
                self.dot_at(j, c * self.t.vec)
            } else {
                self.rest(j, self.chunks() * self.t.vec)
            }
    }

    /// How many parts a sum has.
    pub open spec fn parts(self) -> nat {
        if self.chunks() * self.t.vec == self.m.cols {
            self.chunks() as nat
        } else {
            (self.chunks() + 1) as nat
        }
    }

    /// Whether a thread has had its share of all parts of its sums.
    pub open spec fn has_all(self, lid: int, f: Map<u32, V>) -> bool {
        forall|s: int|
            0 <= s < self.sums() && self.live(s) ==> f[#[trigger] self.acc(s)] == share(
                self.ar,
                self.part(s),
                self.t.tg as int,
                lid,
                self.parts(),
            )
    }
}

/// The share of whole chunks is that of parts.
pub proof fn lemma_share_same<V>(job: Job<V>, j: int, lid: int, n: nat)
    requires
        n <= job.chunks(),
    ensures
        share(job.ar, job.part(j), job.t.tg as int, lid, n) == share(
            job.ar,
            job.chunk(j),
            job.t.tg as int,
            lid,
            n,
        ),
    decreases n,
{
    if n > 0 {
        lemma_share_same(job, j, lid, (n - 1) as nat);
    }
}

proof fn lemma_series_same<V>(job: Job<V>, j: int, n: nat)
    requires
        n <= job.chunks(),
    ensures
        series(job.ar, job.part(j), n) == series(job.ar, job.chunk(j), n),
    decreases n,
{
    if n > 0 {
        lemma_series_same(job, j, (n - 1) as nat);
    }
}

/// The parts of a sum add up its products.
pub proof fn lemma_parts_sum<V>(job: Job<V>, j: int)
    requires
        job.ar.exact(),
        job.ok(),
    ensures
        series(job.ar, job.part(j), job.parts()) == series(job.ar, job.term(j), job.m.cols as nat),
{
    let n = job.chunks();
    lemma_inside(job.m.cols as int, job.t.vec as int, 0);
    assert(n >= 0) by (nonlinear_arith)
        requires
            n == job.m.cols as int / job.t.vec as int,
            job.t.vec >= 1,
    ;
    assert(n * job.t.vec >= 0) by (nonlinear_arith)
        requires
            n >= 0,
    ;
    lemma_series_same(job, j, n as nat);
    lemma_chunks_sum(job, j, n as nat);
    lemma_row_in_two(job, j, (n * job.t.vec) as nat);
    if job.parts() == n {
        lemma_zero(job.ar, series(job.ar, job.term(j), (n * job.t.vec) as nat));
    }
}

/// A thread behind the last whole chunk has had its share of everything as soon as it is through
/// the tail; where there is no tail, it has had it already.
pub proof fn lemma_tail<V>(job: Job<V>, l: Lane<V>, r: Regs<V>, c: nat)
    requires
        job.ar.exact(),
        job.ok(),
        job.lane_ok(l),
        job.stands(l, r, c),
        c >= job.chunks(),
        job.reaches_all(),
    ensures
        job.parts() == job.chunks() ==> job.has_all(l.lid, r.f),
        ({
            let after = turns(job.ar, l, job.tail_loop(), r);
            &&& quiet(after)
            &&& job.knows_rows(after)
            &&& job.has_all(l.lid, after.f)
        }),
{
    let n = job.chunks();
    let tg = job.t.tg as int;
    let vec = job.t.vec as int;
    let cols = job.m.cols as int;
    lemma_inside(cols, vec, 0);
    lemma_position(job, c);
    assert(n >= 0) by (nonlinear_arith)
        requires
            n == cols / vec,
            cols >= 0,
            vec >= 1,
    ;
    let at = r.u[job.k];
    assert(c > n ==> at >= n * vec + vec) by (nonlinear_arith)
        requires
            at == c * vec,
            vec >= 1,
    ;
    assert(c == n ==> at == n * vec);
    if n % tg == l.lid && c > n {
        lemma_other_remainders(n, tg, l.lid);
        assert(c as int % tg != l.lid);
    }
    assert(n % tg == l.lid <==> c == n);
    lemma_tail_loop(job, l, r);
    let after = turns(job.ar, l, job.tail_loop(), r);
    assert forall|j: int| 0 <= j < job.sums() && job.live(j) implies {
        let had = share(job.ar, job.part(j), tg, l.lid, n as nat);
        &&& #[trigger] job.acc(j) == job.acc(j)
        &&& r.f[job.acc(j)] == had
        &&& after.f[job.acc(j)] == share(job.ar, job.part(j), tg, l.lid, job.parts())
    } by {
        let had = share(job.ar, job.part(j), tg, l.lid, n as nat);
        lemma_had_all(job.ar, job.chunk(j), tg, l.lid, n as nat, c);
        lemma_share_same(job, j, l.lid, n as nat);
        assert(r.f[job.acc(j)] == had);
        assert(after.f[job.acc(j)] == job.with_rest(j, had, at));
        if c == n {
            if job.parts() != n {
                lemma_with_rest(job, j, had, at);
            }
        }
    }
}

} // verus!
