//! What the attention kernel computes: the parts that threads take by themselves.

use vstd::prelude::*;
use vstd::arithmetic::div_mod::lemma_fundamental_div_mod;

use crate::codegen::laws::group::quiet;
use crate::codegen::laws::machine::{
    counted, index, lemma_run_one, lemma_run_push, run, step, value, Arith, Lane, Regs,
};
use crate::codegen::laws::sums::{lemma_assoc, series};
use crate::codegen::lower::block::{
    accumulate, assign, c, code, cu, fv, larger, let_f, let_u, minus, plus, simd_sum, tg_load,
    th_load, th_store, times, un, uv, v, Extend,
};
use crate::codegen::lower::sdpa::{
    kv_row, score_code, score_term, sdpa_ids, sdpa_tile, softmax_row_code,
};
use crate::ir::dtype::{DType, Scalar, LOWEST, ZERO};
use crate::ir::kernel::{BinOp, Code, KirExpr, UnaryOp};

verus! {

/// An attention kernel at work: buffers 0 to 3 hold queries, keys, values, and the length and
/// start of what is attended to.
#[verifier::reject_recursive_types(V)]
pub ghost struct Attention<V> {
    pub ar: Arith<V>,
    pub bufs: spec_fn(u32, int) -> V,
    pub n_q: usize,
    pub hd: usize,
    pub q_dt: DType,
    pub kv_dt: DType,
}

impl<V> Attention<V> {
    /// Elements of a head that a thread holds.
    pub open spec fn own(self) -> int {
        self.hd as int / 32
    }

    pub open spec fn threads(self) -> int {
        self.n_q * 32
    }

    pub open spec fn tile(self) -> int {
        sdpa_tile(self.hd) as int
    }

    /// How many positions are attended to.
    pub open spec fn tlen(self) -> int {
        (self.ar.to_index)((self.bufs)(3, 0))
    }

    /// The first position that is attended to.
    pub open spec fn start(self) -> int {
        (self.ar.to_index)((self.bufs)(3, 1))
    }

    pub open spec fn query(self, h: int, d: int) -> V {
        (self.bufs)(0, h * self.hd + d)
    }

    pub open spec fn key(self, t: int, d: int) -> V {
        (self.bufs)(1, (self.start() + t) * self.hd + d)
    }

    pub open spec fn val(self, t: int, d: int) -> V {
        (self.bufs)(2, (self.start() + t) * self.hd + d)
    }

    pub open spec fn term(self, h: int, t: int) -> spec_fn(int) -> V {
        |d: int| self.ar.product(self.query(h, d), self.key(t, d))
    }

    /// The score of position `t` for head `h`.
    pub open spec fn score(self, h: int, t: int) -> V {
        series(self.ar, self.term(h, t), self.hd as nat)
    }

    pub open spec fn minus(self, a: V, b: V) -> V {
        (self.ar.binary)(BinOp::Sub, a, b)
    }

    pub open spec fn exp(self, a: V) -> V {
        (self.ar.unary)(UnaryOp::Exp, a)
    }

    /// The largest of the first `n` scores, above a lowest one.
    pub open spec fn top(self, h: int, n: nat) -> V
        decreases n,
    {
        if n == 0 {
            (self.ar.constant)(Scalar::Bits(LOWEST))
        } else {
            (self.ar.binary)(BinOp::Max, self.top(h, (n - 1) as nat), self.score(h, n - 1))
        }
    }

    /// How much position `n - 1` changes the scale of what came before.
    pub open spec fn rescale(self, h: int, n: nat) -> V {
        self.exp(self.minus(self.top(h, (n - 1) as nat), self.top(h, n)))
    }

    /// The weight of position `n - 1` in the scale of the first `n`.
    pub open spec fn weight(self, h: int, n: nat) -> V {
        self.exp(self.minus(self.score(h, n - 1), self.top(h, n)))
    }

    /// The weights of the first `n` positions, added up as they come.
    pub open spec fn norm(self, h: int, n: nat) -> V
        decreases n,
    {
        if n == 0 {
            self.ar.zero()
        } else {
            self.ar.sum(
                self.ar.product(self.norm(h, (n - 1) as nat), self.rescale(h, n)),
                self.weight(h, n),
            )
        }
    }

    /// Element `d` of the weighted values of the first `n` positions, added up as they come.
    pub open spec fn weighted(self, h: int, n: nat, d: int) -> V
        decreases n,
    {
        if n == 0 {
            self.ar.zero()
        } else {
            self.ar.sum(
                self.ar.product(self.weighted(h, (n - 1) as nat, d), self.rescale(h, n)),
                self.ar.product(self.weight(h, n), self.val(n - 1, d)),
            )
        }
    }

    /// Whether sizes are those that a kernel is written for, and all indices machine integers.
    pub open spec fn ok(self) -> bool {
        &&& self.hd % 32 == 0
        &&& 0 < self.hd <= 4096
        &&& 1 <= self.n_q
        &&& self.n_q * 32 + 4096 <= u32::MAX
        &&& self.n_q * self.hd <= u32::MAX
        &&& 0 <= self.tlen()
        &&& self.tlen() + 8 <= u32::MAX
        &&& 0 <= self.start()
        &&& self.start() + self.tlen() <= u32::MAX
        &&& (self.start() + self.tlen()) * self.hd <= u32::MAX
    }

    /// Whether a thread knows its place and holds its share of the query.
    pub open spec fn placed(self, i: int, r: Regs<V>) -> bool {
        &&& quiet(r)
        &&& r.u[2] == i % 32 * self.own()
        &&& r.u[5] == self.tlen()
        &&& r.u[6] == self.start()
        &&& r.u[17] == i / 32 * self.hd
        &&& forall|k: int|
            0 <= k < self.own() ==> #[trigger] r.local[(0u32, k)] == self.query(
                i / 32,
                i % 32 * self.own() + k,
            )
    }

    /// Whether a thread has folded in the first `n` positions.
    pub open spec fn folded(self, i: int, r: Regs<V>, n: nat) -> bool {
        &&& r.f[7] == self.top(i / 32, n)
        &&& r.f[8] == self.norm(i / 32, n)
        &&& forall|k: int|
            0 <= k < self.own() ==> #[trigger] r.local[(1u32, k)] == self.weighted(
                i / 32,
                n,
                i % 32 * self.own() + k,
            )
    }

    /// Whether row `row` of the tile holds element `d` of the key and the value of position `t`.
    pub open spec fn sees_at(self, shared: Map<(u32, int), V>, row: int, t: int, d: int) -> bool {
        &&& shared.contains_key((0u32, row * self.hd + d))
        &&& shared.contains_key((1u32, row * self.hd + d))
        &&& shared[(0u32, row * self.hd + d)] == self.key(t, d)
        &&& shared[(1u32, row * self.hd + d)] == self.val(t, d)
    }

    /// Whether row `row` of the tile holds the key and the value of position `t`.
    pub open spec fn sees(self, shared: Map<(u32, int), V>, row: int, t: int) -> bool {
        forall|d: int| 0 <= d < self.hd ==> #[trigger] self.sees_at(shared, row, t, d)
    }

    /// The products of a thread's share of the query and a key.
    pub open spec fn own_term(self, i: int, t: int) -> spec_fn(int) -> V {
        |k: int| self.term(i / 32, t)(i % 32 * self.own() + k)
    }
}

/// Four more terms of a sum.
proof fn lemma_four<V>(ar: Arith<V>, t: spec_fn(int) -> V, n: nat)
    requires
        ar.exact(),
    ensures
        series(ar, t, n + 4) == ar.sum(
            series(ar, t, n),
            ar.sum(
                ar.sum(t(n as int), t(n as int + 1)),
                ar.sum(t(n as int + 2), t(n as int + 3)),
            ),
        ),
{
    reveal_with_fuel(series, 5);
    let s = series(ar, t, n);
    let (a, b, c, d) = (t(n as int), t(n as int + 1), t(n as int + 2), t(n as int + 3));
    assert(series(ar, t, n + 1) == ar.sum(s, a));
    assert(series(ar, t, n + 2) == ar.sum(ar.sum(s, a), b));
    assert(series(ar, t, n + 3) == ar.sum(ar.sum(ar.sum(s, a), b), c));
    assert(series(ar, t, n + 4) == ar.sum(ar.sum(ar.sum(ar.sum(s, a), b), c), d));
    lemma_assoc(ar, s, a, b);
    let p = ar.sum(a, b);
    lemma_assoc(ar, ar.sum(s, p), c, d);
    lemma_assoc(ar, s, p, ar.sum(c, d));
}

/// The share of a thread lies inside its head.
pub proof fn lemma_share_inside(i: int, own: int, hd: int, k: int)
    requires
        hd == 32 * own,
        0 <= k < own,
    ensures
        0 <= i % 32 * own + k < hd,
        0 <= i % 32 * own,
{
    let j = i % 32;
    assert(0 <= j * own && j * own + own <= 32 * own) by (nonlinear_arith)
        requires
            0 <= j < 32,
            0 <= own,
    ;
}

/// What a thread reads of a key in turn `k` of the loop.
proof fn lemma_key_value<V>(
    a: Attention<V>,
    l: Lane<V>,
    i: int,
    r: Regs<V>,
    row: int,
    t: int,
    at: KirExpr,
    k: int,
)
    requires
        a.ok(),
        a.placed(i, r),
        a.sees(l.shared, row, t),
        0 <= row < 8,
        0 <= k < a.own(),
        index(a.ar, l, r, at) == k,
    ensures
        value(
            a.ar,
            l,
            r,
            times(
                th_load(0, at),
                tg_load(0, plus(cu((row * a.hd) as u32), plus(uv(2), at))),
            ),
        ) == a.own_term(i, t)(k),
        value(a.ar, l, r, tg_load(1, plus(cu((row * a.hd) as u32), plus(uv(2), at)))) == a.val(
            t,
            i % 32 * a.own() + k,
        ),
{
    let own = a.own();
    lemma_fundamental_div_mod(a.hd as int, 32);
    lemma_share_inside(i, own, a.hd as int, k);
    let x = i % 32 * own + k;
    let off = row * a.hd;
    assert(0 <= off <= 7 * 4096) by (nonlinear_arith)
        requires
            0 <= row < 8,
            off == row * a.hd,
            0 <= a.hd <= 4096,
    ;
    assert(index(a.ar, l, r, uv(2)) == i % 32 * own);
    assert(index(a.ar, l, r, plus(uv(2), at)) == x);
    assert(index(a.ar, l, r, cu(off as u32)) == off);
    let e = plus(cu(off as u32), plus(uv(2), at));
    assert(index(a.ar, l, r, e) == off + x);
    assert(a.sees_at(l.shared, row, t, x));
    assert(value(a.ar, l, r, tg_load(0, e)) == a.key(t, x));
    assert(value(a.ar, l, r, th_load(0, at)) == a.query(i / 32, x));
    assert(value(a.ar, l, r, tg_load(1, e)) == a.val(t, x));
}

/// Everything but a loop variable and one sum is as before.
spec fn but_sum<V>(p: Regs<V>, r: Regs<V>, d: u32) -> bool {
    &&& p.local == r.local
    &&& p.writes == r.writes
    &&& p.stored == r.stored
    &&& forall|j: u32| j != d ==> #[trigger] p.u[j] == r.u[j]
    &&& forall|j: u32| j != 10 ==> #[trigger] p.f[j] == r.f[j]
}

/// Moving the variable of a score loop changes nothing that matters.
proof fn lemma_still_placed<V>(a: Attention<V>, i: int, p: Regs<V>, r: Regs<V>, d: u32)
    requires
        a.placed(i, r),
        but_sum(p, r, d),
        d >= 20,
    ensures
        a.placed(i, p),
{
    assert(p.u[2] == r.u[2] && p.u[5] == r.u[5] && p.u[6] == r.u[6] && p.u[17] == r.u[17]);
    assert forall|k: int| 0 <= k < a.own() implies #[trigger] p.local[(0u32, k)] == a.query(
        i / 32,
        i % 32 * a.own() + k,
    ) by {
        assert(r.local[(0u32, k)] == a.query(i / 32, i % 32 * a.own() + k));
    }
}

/// A thread's part of a score, element by element.
proof fn lemma_score_ones<V>(
    a: Attention<V>,
    l: Lane<V>,
    i: int,
    r: Regs<V>,
    row: int,
    t: int,
    d: u32,
    m: usize,
    n: nat,
)
    requires
        a.ok(),
        a.placed(i, r),
        a.sees(l.shared, row, t),
        0 <= row < 8,
        d >= 20,
        r.f[10] == a.ar.zero(),
        n <= a.own(),
    ensures
        ({
            let e = times(
                th_load(0, fv(d)),
                tg_load(0, plus(cu((row * a.hd) as u32), plus(uv(2), fv(d)))),
            );
            let loop_code = Code::For { id: d, n: m, body: code().s(accumulate(10, e)) };
            let p = counted(a.ar, l, loop_code, n, r);
            but_sum(p, r, d) && p.f[10] == series(a.ar, a.own_term(i, t), n)
        }),
    decreases n,
{
    let e = times(
        th_load(0, fv(d)),
        tg_load(0, plus(cu((row * a.hd) as u32), plus(uv(2), fv(d)))),
    );
    let body = code().s(accumulate(10, e));
    let loop_code = Code::For { id: d, n: m, body };
    if n > 0 {
        lemma_score_ones(a, l, i, r, row, t, d, m, (n - 1) as nat);
        let p = counted(a.ar, l, loop_code, (n - 1) as nat, r);
        let q = Regs { u: p.u.insert(d, n - 1), ..p };
        assert(but_sum(q, r, d));
        lemma_still_placed(a, i, q, r, d);
        assert(index(a.ar, l, q, fv(d)) == n - 1);
        lemma_key_value(a, l, i, q, row, t, fv(d), n - 1);
        let s = Code::Flat(accumulate(10, e));
        lemma_run_one(a.ar, l, s, q);
        assert(value(a.ar, l, q, v(10)) == q.f[10]);
        assert(counted(a.ar, l, loop_code, n, r) == run(a.ar, l, body, q));
    }
}

/// A thread's part of a score, four elements at a time.
proof fn lemma_score_fours<V>(
    a: Attention<V>,
    l: Lane<V>,
    i: int,
    r: Regs<V>,
    row: int,
    t: int,
    d: u32,
    m: usize,
    n: nat,
)
    requires
        a.ar.exact(),
        a.ok(),
        a.placed(i, r),
        a.sees(l.shared, row, t),
        0 <= row < 8,
        d >= 20,
        r.f[10] == a.ar.zero(),
        4 * n <= a.own(),
    ensures
        ({
            let off = (row * a.hd) as u32;
            let e = plus(
                plus(score_term(d, 0, off, 2), score_term(d, 1, off, 2)),
                plus(score_term(d, 2, off, 2), score_term(d, 3, off, 2)),
            );
            let loop_code = Code::For { id: d, n: m, body: code().s(accumulate(10, e)) };
            let p = counted(a.ar, l, loop_code, n, r);
            but_sum(p, r, d) && p.f[10] == series(a.ar, a.own_term(i, t), 4 * n)
        }),
    decreases n,
{
    let off = (row * a.hd) as u32;
    let e = plus(
        plus(score_term(d, 0, off, 2), score_term(d, 1, off, 2)),
        plus(score_term(d, 2, off, 2), score_term(d, 3, off, 2)),
    );
    let body = code().s(accumulate(10, e));
    let loop_code = Code::For { id: d, n: m, body };
    if n > 0 {
        lemma_score_fours(a, l, i, r, row, t, d, m, (n - 1) as nat);
        let p = counted(a.ar, l, loop_code, (n - 1) as nat, r);
        let q = Regs { u: p.u.insert(d, n - 1), ..p };
        assert(but_sum(q, r, d));
        lemma_still_placed(a, i, q, r, d);
        let k = 4 * (n - 1);
        assert(a.own() <= 128);
        assert(index(a.ar, l, q, fv(d)) == n - 1);
        let first = times(fv(d), cu(4));
        assert(index(a.ar, l, q, cu(4)) == 4);
        assert(index(a.ar, l, q, first) == k);
        lemma_key_value(a, l, i, q, row, t, first, k);
        assert(index(a.ar, l, q, cu(1)) == 1);
        assert(index(a.ar, l, q, plus(first, cu(1))) == k + 1);
        lemma_key_value(a, l, i, q, row, t, plus(first, cu(1)), k + 1);
        assert(index(a.ar, l, q, cu(2)) == 2);
        assert(index(a.ar, l, q, plus(first, cu(2))) == k + 2);
        lemma_key_value(a, l, i, q, row, t, plus(first, cu(2)), k + 2);
        assert(index(a.ar, l, q, cu(3)) == 3);
        assert(index(a.ar, l, q, plus(first, cu(3))) == k + 3);
        lemma_key_value(a, l, i, q, row, t, plus(first, cu(3)), k + 3);
        let w = a.own_term(i, t);
        let lo = plus(score_term(d, 0, off, 2), score_term(d, 1, off, 2));
        let hi = plus(score_term(d, 2, off, 2), score_term(d, 3, off, 2));
        assert(value(a.ar, l, q, score_term(d, 0, off, 2)) == w(k));
        assert(value(a.ar, l, q, score_term(d, 1, off, 2)) == w(k + 1));
        assert(value(a.ar, l, q, score_term(d, 2, off, 2)) == w(k + 2));
        assert(value(a.ar, l, q, score_term(d, 3, off, 2)) == w(k + 3));
        assert(value(a.ar, l, q, lo) == a.ar.sum(w(k), w(k + 1)));
        assert(value(a.ar, l, q, hi) == a.ar.sum(w(k + 2), w(k + 3)));
        assert(value(a.ar, l, q, e) == a.ar.sum(value(a.ar, l, q, lo), value(a.ar, l, q, hi)));
        lemma_four(a.ar, w, (4 * (n - 1)) as nat);
        let s = Code::Flat(accumulate(10, e));
        lemma_run_one(a.ar, l, s, q);
        assert(value(a.ar, l, q, v(10)) == q.f[10]);
        assert(counted(a.ar, l, loop_code, n, r) == run(a.ar, l, body, q));
    }
}

impl<V> Attention<V> {
    /// The statements before the threads of a head add up their parts of a score.
    pub open spec fn score_part(self, row: int) -> Seq<Code> {
        score_code(
            code().s(let_u(18, kv_row(sdpa_ids(0), row as u32, self.hd as u32))).s(
                let_f(10, c(ZERO)),
            ),
            sdpa_ids(0),
            (20 + 2 * row + 1) as u32,
            (row * self.hd) as u32,
            (self.hd / 32) as usize,
        )
    }

    /// The new element `k` of the weighted values.
    pub open spec fn fold_value(self, row: int) -> KirExpr {
        plus(
            times(th_load(1, fv(15)), v(12)),
            times(v(13), tg_load(1, plus(cu((row * self.hd) as u32), plus(uv(2), fv(15))))),
        )
    }

    /// The loop over the weighted values.
    pub open spec fn fold_loop(self, row: int) -> Code {
        Code::For {
            id: 15,
            n: (self.hd / 32) as usize,
            body: code().s(th_store(1, fv(15), self.fold_value(row))),
        }
    }

    /// The statements that fold a score in.
    pub open spec fn fold_part(self, row: int) -> Seq<Code> {
        code().s(let_f(11, larger(v(7), v(10)))).s(
            let_f(12, un(UnaryOp::Exp, minus(v(7), v(11)))),
        ).s(let_f(13, un(UnaryOp::Exp, minus(v(10), v(11))))).s(
            assign(8, plus(times(v(8), v(12)), v(13))),
        ).s(assign(7, v(11))).push(self.fold_loop(row))
    }
}

/// A thread's part of a score.
pub proof fn lemma_score_part<V>(
    a: Attention<V>,
    l: Lane<V>,
    i: int,
    r: Regs<V>,
    row: int,
    t: int,
    n: nat,
)
    requires
        a.ar.exact(),
        a.ok(),
        a.placed(i, r),
        a.folded(i, r, n),
        a.sees(l.shared, row, t),
        0 <= row < 8,
    ensures
        ({
            let p = run(a.ar, l, a.score_part(row), r);
            &&& a.placed(i, p)
            &&& a.folded(i, p, n)
            &&& p.u[9] == r.u[9]
            &&& p.f[10] == series(a.ar, a.own_term(i, t), a.own() as nat)
        }),
{
    let d = (20 + 2 * row + 1) as u32;
    let off = (row * a.hd) as u32;
    let own = (a.hd / 32) as usize;
    let s0 = Code::Flat(let_u(18, kv_row(sdpa_ids(0), row as u32, a.hd as u32)));
    let s1 = Code::Flat(let_f(10, c(ZERO)));
    let b = code().push(s0).push(s1);
    lemma_run_one(a.ar, l, s0, r);
    lemma_run_push(a.ar, l, code().push(s0), s1, r);
    let q = run(a.ar, l, b, r);
    assert(value(a.ar, l, run(a.ar, l, code().push(s0), r), c(ZERO)) == a.ar.zero());
    assert(q.f[10] == a.ar.zero());
    assert(a.placed(i, q)) by {
        assert forall|k: int| 0 <= k < a.own() implies #[trigger] q.local[(0u32, k)] == a.query(
            i / 32,
            i % 32 * a.own() + k,
        ) by {
            assert(r.local[(0u32, k)] == a.query(i / 32, i % 32 * a.own() + k));
        }
    }
    let e = if own % 4 == 0 {
        plus(
            plus(score_term(d, 0, off, 2), score_term(d, 1, off, 2)),
            plus(score_term(d, 2, off, 2), score_term(d, 3, off, 2)),
        )
    } else {
        times(th_load(0, fv(d)), tg_load(0, plus(cu(off), plus(uv(2), fv(d)))))
    };
    let m = if own % 4 == 0 {
        (own / 4) as usize
    } else {
        own
    };
    let whole = Code::For { id: d, n: m, body: code().s(accumulate(10, e)) };
    assert(a.score_part(row) == b.push(whole));
    lemma_run_push(a.ar, l, b, whole, r);
    if own % 4 == 0 {
        lemma_score_fours(a, l, i, q, row, t, d, m, m as nat);
    } else {
        lemma_score_ones(a, l, i, q, row, t, d, m, m as nat);
    }
    let p = run(a.ar, l, a.score_part(row), r);
    assert(p == counted(a.ar, l, whole, m as nat, q));
    lemma_still_placed(a, i, p, q, d);
    assert(p.u[9] == q.u[9] && p.f[7] == q.f[7] && p.f[8] == q.f[8]);
    assert forall|k: int| 0 <= k < a.own() implies #[trigger] p.local[(1u32, k)] == a.weighted(
        i / 32,
        n,
        i % 32 * a.own() + k,
    ) by {
        assert(r.local[(1u32, k)] == a.weighted(i / 32, n, i % 32 * a.own() + k));
    }
}

/// The first `n` weighted values of a thread, with a position folded in.
proof fn lemma_fold_loop<V>(
    a: Attention<V>,
    l: Lane<V>,
    i: int,
    r: Regs<V>,
    row: int,
    t: nat,
    n: nat,
)
    requires
        a.ok(),
        a.placed(i, r),
        a.sees(l.shared, row, t as int),
        0 <= row < 8,
        n <= a.own(),
        r.f[12] == a.rescale(i / 32, t + 1),
        r.f[13] == a.weight(i / 32, t + 1),
        forall|k: int|
            0 <= k < a.own() ==> #[trigger] r.local[(1u32, k)] == a.weighted(
                i / 32,
                t,
                i % 32 * a.own() + k,
            ),
    ensures
        ({
            let p = counted(a.ar, l, a.fold_loop(row), n, r);
            &&& a.placed(i, p)
            &&& p.f == r.f
            &&& p.u[9] == r.u[9]
            &&& forall|k: int|
                0 <= k < a.own() ==> #[trigger] p.local[(1u32, k)] == a.weighted(
                    i / 32,
                    if k < n {
                        t + 1
                    } else {
                        t
                    },
                    i % 32 * a.own() + k,
                )
        }),
    decreases n,
{
    if n > 0 {
        let j = n - 1;
        lemma_fold_loop(a, l, i, r, row, t, j as nat);
        let p = counted(a.ar, l, a.fold_loop(row), j as nat, r);
        let q = Regs { u: p.u.insert(15, j), ..p };
        assert(a.placed(i, q)) by {
            assert forall|k: int| 0 <= k < a.own() implies #[trigger] q.local[(0u32, k)]
                == a.query(i / 32, i % 32 * a.own() + k) by {
                assert(p.local[(0u32, k)] == a.query(i / 32, i % 32 * a.own() + k));
            }
        }
        let x = i % 32 * a.own() + j;
        assert(index(a.ar, l, q, fv(15)) == j);
        lemma_key_value(a, l, i, q, row, t as int, fv(15), j);
        assert(p.local[(1u32, j)] == a.weighted(i / 32, t, x));
        let old_part = times(th_load(1, fv(15)), v(12));
        let at = tg_load(1, plus(cu((row * a.hd) as u32), plus(uv(2), fv(15))));
        let new_part = times(v(13), at);
        assert(value(a.ar, l, q, th_load(1, fv(15))) == a.weighted(i / 32, t, x));
        assert(value(a.ar, l, q, v(12)) == q.f[12]);
        assert(value(a.ar, l, q, v(13)) == q.f[13]);
        assert(value(a.ar, l, q, old_part) == a.ar.product(
            a.weighted(i / 32, t, x),
            a.rescale(i / 32, t + 1),
        ));
        assert(value(a.ar, l, q, new_part) == a.ar.product(
            a.weight(i / 32, t + 1),
            a.val(t as int, x),
        ));
        assert(value(a.ar, l, q, a.fold_value(row)) == a.weighted(i / 32, t + 1, x));
        let s = Code::Flat(th_store(1, fv(15), a.fold_value(row)));
        lemma_run_one(a.ar, l, s, q);
        let done = counted(a.ar, l, a.fold_loop(row), n, r);
        assert(done == step(a.ar, l, s, q));
        assert(done == (Regs {
            local: q.local.insert((1u32, j), a.weighted(i / 32, t + 1, x)),
            ..q
        }));
        assert forall|k: int| 0 <= k < a.own() implies #[trigger] done.local[(1u32, k)]
            == a.weighted(
            i / 32,
            if k < n {
                t + 1
            } else {
                t
            },
            i % 32 * a.own() + k,
        ) by {
            if k != j {
                assert(p.local[(1u32, k)] == q.local[(1u32, k)]);
            }
        }
        assert forall|k: int| 0 <= k < a.own() implies #[trigger] done.local[(0u32, k)] == a.query(
            i / 32,
            i % 32 * a.own() + k,
        ) by {
            assert(q.local[(0u32, k)] == a.query(i / 32, i % 32 * a.own() + k));
        }
    }
}

/// A thread that knows the score of position `t` folds it in.
pub proof fn lemma_fold_part<V>(
    a: Attention<V>,
    l: Lane<V>,
    i: int,
    r: Regs<V>,
    row: int,
    t: nat,
)
    requires
        a.ok(),
        a.placed(i, r),
        a.folded(i, r, t),
        a.sees(l.shared, row, t as int),
        0 <= row < 8,
        r.f[10] == a.score(i / 32, t as int),
    ensures
        ({
            let p = run(a.ar, l, a.fold_part(row), r);
            &&& a.placed(i, p)
            &&& a.folded(i, p, t + 1)
            &&& p.u[9] == r.u[9]
        }),
{
    let h = i / 32;
    let s0 = let_f(11, larger(v(7), v(10)));
    let s1 = let_f(12, un(UnaryOp::Exp, minus(v(7), v(11))));
    let s2 = let_f(13, un(UnaryOp::Exp, minus(v(10), v(11))));
    let s3 = assign(8, plus(times(v(8), v(12)), v(13)));
    let s4 = assign(7, v(11));
    let b1 = code().s(s0);
    let b2 = b1.s(s1);
    let b3 = b2.s(s2);
    let b4 = b3.s(s3);
    let b5 = b4.s(s4);
    lemma_run_one(a.ar, l, Code::Flat(s0), r);
    lemma_run_push(a.ar, l, b1, Code::Flat(s1), r);
    lemma_run_push(a.ar, l, b2, Code::Flat(s2), r);
    lemma_run_push(a.ar, l, b3, Code::Flat(s3), r);
    lemma_run_push(a.ar, l, b4, Code::Flat(s4), r);
    lemma_run_push(a.ar, l, b5, a.fold_loop(row), r);
    let r1 = run(a.ar, l, b1, r);
    let r2 = run(a.ar, l, b2, r);
    let r3 = run(a.ar, l, b3, r);
    let r4 = run(a.ar, l, b4, r);
    let r5 = run(a.ar, l, b5, r);
    reveal_with_fuel(value, 4);
    let top = a.top(h, t + 1);
    assert(r1.f[11] == top);
    assert(r2.f[12] == a.rescale(h, t + 1));
    assert(r3.f[13] == a.weight(h, t + 1));
    assert(r4.f[8] == a.norm(h, t + 1));
    assert(r5.f[7] == top);
    assert(r5.f[8] == r4.f[8] && r5.f[12] == r2.f[12] && r5.f[13] == r3.f[13]);
    assert(r5.u == r.u && r5.local == r.local && quiet(r5));
    assert(a.placed(i, r5)) by {
        assert forall|k: int| 0 <= k < a.own() implies #[trigger] r5.local[(0u32, k)] == a.query(
            h,
            i % 32 * a.own() + k,
        ) by {
            assert(r.local[(0u32, k)] == a.query(h, i % 32 * a.own() + k));
        }
    }
    assert forall|k: int| 0 <= k < a.own() implies #[trigger] r5.local[(1u32, k)] == a.weighted(
        h,
        t,
        i % 32 * a.own() + k,
    ) by {
        assert(r.local[(1u32, k)] == a.weighted(h, t, i % 32 * a.own() + k));
    }
    lemma_fold_loop(a, l, i, r5, row, t, a.own() as nat);
    let p = run(a.ar, l, a.fold_part(row), r);
    assert(p == counted(a.ar, l, a.fold_loop(row), a.own() as nat, r5));
}

/// The body of a row of the tile: a score, its sum over the threads of a head, and the fold.
pub proof fn lemma_row_in_parts<V>(a: Attention<V>, row: int)
    requires
        a.ok(),
        0 <= row < 8,
    ensures
        softmax_row_code(sdpa_ids(0), row as u32, a.hd) == a.score_part(row).push(
            Code::Flat(assign(10, simd_sum(v(10)))),
        ) + a.fold_part(row),
{
    let s = Code::Flat(assign(10, simd_sum(v(10))));
    assert(softmax_row_code(sdpa_ids(0), row as u32, a.hd) =~= a.score_part(row).push(s)
        + a.fold_part(row));
}

} // verus!
