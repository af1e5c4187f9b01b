//! What the attention kernel computes: the whole kernel, and that it is a softmax.

use vstd::prelude::*;
use vstd::arithmetic::div_mod::{lemma_fundamental_div_mod, lemma_fundamental_div_mod_converse};

use crate::codegen::laws::attention::{lemma_share_inside, Attention};
use crate::codegen::laws::group::quiet;
use crate::codegen::laws::machine::{
    apart, blank, counted, device_writes, fresh_group, group_run, group_turns, index, lane,
    lemma_group_push, lemma_run_one, lemma_run_push, meets, run, step, value, Lane, Regs,
};
use crate::codegen::laws::solo::{block_silent, lemma_silent_push, lemma_solo, silent};
use crate::codegen::laws::sums::series;
use crate::codegen::laws::tiles::{lemma_passes, lemma_passes_meet};
use crate::codegen::lower::block::{
    c, code, cu, fv, ld, let_f, let_u, lid, minus, over, plus, store, tg_decl, th_decl, th_load,
    th_store, times, to_uint, uv, v, Extend,
};
use crate::codegen::lower::kernels::{lowered_in, one_group, other_body};
use crate::codegen::lower::sdpa::sdpa_code;
use crate::codegen::schedule::scheduled;
use crate::ir::dtype::{Scalar, TensorId, LOWEST, ONE, ZERO};
use crate::ir::graph::GraphV;
use crate::ir::kernel::{BinOp, Code, OptSchedule};

verus! {

impl<V> Attention<V> {
    /// The loop that reads a thread's share of the query and clears its weighted values.
    spec fn query_loop(self) -> Code {
        Code::For {
            id: 14,
            n: (self.hd / 32) as usize,
            body: code().s(
                th_store(0, fv(14), ld(0, plus(uv(17), plus(uv(2), fv(14))), self.q_dt)),
            ).s(th_store(1, fv(14), c(ZERO))),
        }
    }

    /// The statements before the passes: declarations, places, and clean accumulators.
    spec fn places(self) -> Seq<Code> {
        let own = (self.hd / 32) as usize;
        let n = (self.tile() * self.hd) as usize;
        code().s(tg_decl(0, n)).s(tg_decl(1, n)).s(th_decl(0, own)).s(th_decl(1, own)).s(
            let_u(0, over(lid(), cu(32))),
        ).s(let_u(1, minus(lid(), times(uv(0), cu(32))))).s(
            let_u(2, times(uv(1), cu(own as u32))),
        ).s(let_f(3, ld(3, cu(0), self.q_dt))).s(let_f(4, ld(3, cu(1), self.q_dt))).s(
            let_u(5, to_uint(v(3))),
        ).s(let_u(6, to_uint(v(4)))).s(let_u(17, times(uv(0), cu(self.hd as u32)))).s(
            let_f(7, c(LOWEST)),
        ).s(let_f(8, c(ZERO)))
    }

    spec fn before(self) -> Seq<Code> {
        self.places().push(self.query_loop()).s(let_u(9, cu(0)))
    }

    /// The loop that stores a thread's share of the output.
    spec fn put_loop(self) -> Code {
        Code::For {
            id: 16,
            n: (self.hd / 32) as usize,
            body: code().s(self.put()),
        }
    }

    spec fn put(self) -> crate::ir::kernel::KirStmt {
        store(4, plus(uv(17), plus(uv(2), fv(16))), times(th_load(1, fv(16)), v(19)))
    }

    /// Element `x` of the output: the weighted values of a head over the sum of the weights.
    pub open spec fn attended(self, x: int) -> V {
        let h = x / self.hd as int;
        let n = self.tlen() as nat;
        self.ar.product(
            self.weighted(h, n, x % self.hd as int),
            (self.ar.binary)(BinOp::Div, (self.ar.constant)(Scalar::Bits(ONE)), self.norm(h, n)),
        )
    }
}

/// The statements by which a thread finds its query head and its share of it.
spec fn share_code<V>(a: Attention<V>) -> Seq<Code> {
    let own = (a.hd / 32) as usize;
    let n = (a.tile() * a.hd) as usize;
    code().s(tg_decl(0, n)).s(tg_decl(1, n)).s(th_decl(0, own)).s(th_decl(1, own)).s(
        let_u(0, over(lid(), cu(32))),
    ).s(let_u(1, minus(lid(), times(uv(0), cu(32))))).s(let_u(2, times(uv(1), cu(own as u32))))
}

/// A thread that has taken them.
proof fn lemma_share_code<V>(a: Attention<V>, l: Lane<V>, i: int)
    requires
        a.ok(),
        l.lid == i,
        0 <= i < a.threads(),
    ensures
        run(a.ar, l, share_code(a), blank()) == (Regs {
            u: Map::empty().insert(0u32, i / 32).insert(1u32, i % 32).insert(
                2u32,
                i % 32 * a.own(),
            ),
            ..blank::<V>()
        }),
{
    let ar = a.ar;
    let own = (a.hd / 32) as usize;
    let n = (a.tile() * a.hd) as usize;
    let z = blank::<V>();
    let s0 = tg_decl(0, n);
    let s1 = tg_decl(1, n);
    let s2 = th_decl(0, own);
    let s3 = th_decl(1, own);
    let s4 = let_u(0, over(lid(), cu(32)));
    let s5 = let_u(1, minus(lid(), times(uv(0), cu(32))));
    let s6 = let_u(2, times(uv(1), cu(own as u32)));
    let b1 = code().s(s0);
    let b2 = b1.s(s1);
    let b3 = b2.s(s2);
    let b4 = b3.s(s3);
    let b5 = b4.s(s4);
    let b6 = b5.s(s5);
    lemma_run_one(ar, l, Code::Flat(s0), z);
    lemma_run_push(ar, l, b1, Code::Flat(s1), z);
    lemma_run_push(ar, l, b2, Code::Flat(s2), z);
    lemma_run_push(ar, l, b3, Code::Flat(s3), z);
    lemma_run_push(ar, l, b4, Code::Flat(s4), z);
    lemma_run_push(ar, l, b5, Code::Flat(s5), z);
    lemma_run_push(ar, l, b6, Code::Flat(s6), z);
    let h = i / 32;
    lemma_fundamental_div_mod(i, 32);
    assert(run(ar, l, b4, z) == z);
    let r5 = run(ar, l, b5, z);
    assert(index(ar, l, z, lid()) == i);
    assert(index(ar, l, z, cu(32)) == 32);
    assert(r5 == (Regs { u: z.u.insert(0, h), ..z }));
    let r6 = run(ar, l, b6, z);
    assert(index(ar, l, r5, lid()) == i);
    assert(index(ar, l, r5, uv(0)) == h);
    assert(index(ar, l, r5, cu(32)) == 32);
    assert(index(ar, l, r5, times(uv(0), cu(32))) == h * 32);
    assert(r6 == (Regs { u: r5.u.insert(1, i % 32), ..r5 }));
    assert(0 <= i % 32 * a.own() <= 31 * 128) by (nonlinear_arith)
        requires
            0 <= i % 32 <= 31,
            0 <= a.own() <= 128,
    ;
    assert(index(ar, l, r6, uv(1)) == i % 32);
    assert(index(ar, l, r6, cu(own as u32)) == a.own());
}

/// The places of a thread.
proof fn lemma_places<V>(a: Attention<V>, l: Lane<V>, i: int)
    requires
        a.ok(),
        l.bufs == a.bufs,
        l.lid == i,
        0 <= i < a.threads(),
    ensures
        ({
            let p = run(a.ar, l, a.places(), blank());
            &&& quiet(p)
            &&& p.u[2] == i % 32 * a.own()
            &&& p.u[5] == a.tlen()
            &&& p.u[6] == a.start()
            &&& p.u[17] == i / 32 * a.hd
            &&& p.f[7] == a.top(i / 32, 0)
            &&& p.f[8] == a.ar.zero()
        }),
{
    let ar = a.ar;
    let z = blank::<V>();
    let h = i / 32;
    let s7 = let_f(3, ld(3, cu(0), a.q_dt));
    let s8 = let_f(4, ld(3, cu(1), a.q_dt));
    let s9 = let_u(5, to_uint(v(3)));
    let s10 = let_u(6, to_uint(v(4)));
    let s11 = let_u(17, times(uv(0), cu(a.hd as u32)));
    let s12 = let_f(7, c(LOWEST));
    let s13 = let_f(8, c(ZERO));
    let b7 = share_code(a);
    let b8 = b7.s(s7);
    let b9 = b8.s(s8);
    let b10 = b9.s(s9);
    let b11 = b10.s(s10);
    let b12 = b11.s(s11);
    let b13 = b12.s(s12);
    lemma_share_code(a, l, i);
    lemma_run_push(ar, l, b7, Code::Flat(s7), z);
    lemma_run_push(ar, l, b8, Code::Flat(s8), z);
    lemma_run_push(ar, l, b9, Code::Flat(s9), z);
    lemma_run_push(ar, l, b10, Code::Flat(s10), z);
    lemma_run_push(ar, l, b11, Code::Flat(s11), z);
    lemma_run_push(ar, l, b12, Code::Flat(s12), z);
    lemma_run_push(ar, l, b13, Code::Flat(s13), z);
    assert(a.places() == b13.s(s13));
    let r7 = run(ar, l, b7, z);
    let r8 = run(ar, l, b8, z);
    assert(index(ar, l, r7, cu(0)) == 0);
    assert(value(ar, l, r7, ld(3, cu(0), a.q_dt)) == (a.bufs)(3, 0));
    assert(r8 == (Regs { f: r7.f.insert(3, (a.bufs)(3, 0)), ..r7 }));
    let r9 = run(ar, l, b9, z);
    assert(index(ar, l, r8, cu(1)) == 1);
    assert(value(ar, l, r8, ld(3, cu(1), a.q_dt)) == (a.bufs)(3, 1));
    assert(r9 == (Regs { f: r8.f.insert(4, (a.bufs)(3, 1)), ..r8 }));
    let r10 = run(ar, l, b10, z);
    assert(value(ar, l, r9, v(3)) == (a.bufs)(3, 0));
    assert(r10 == (Regs { u: r9.u.insert(5, a.tlen()), ..r9 }));
    let r11 = run(ar, l, b11, z);
    assert(value(ar, l, r10, v(4)) == (a.bufs)(3, 1));
    assert(r11 == (Regs { u: r10.u.insert(6, a.start()), ..r10 }));
    let r12 = run(ar, l, b12, z);
    assert(0 <= h * a.hd <= u32::MAX) by (nonlinear_arith)
        requires
            0 <= h < a.n_q,
            a.n_q * a.hd <= u32::MAX,
            0 <= a.hd,
    ;
    assert(index(ar, l, r11, uv(0)) == h);
    assert(index(ar, l, r11, cu(a.hd as u32)) == a.hd);
    assert(r12 == (Regs { u: r11.u.insert(17, h * a.hd), ..r11 }));
    let r13 = run(ar, l, b13, z);
    assert(value(ar, l, r12, c(LOWEST)) == (ar.constant)(Scalar::Bits(LOWEST)));
    assert(r13 == (Regs { f: r12.f.insert(7, (ar.constant)(Scalar::Bits(LOWEST))), ..r12 }));
    assert(value(ar, l, r13, c(ZERO)) == ar.zero());
}

/// A thread reads its share of the query.
proof fn lemma_query_loop<V>(a: Attention<V>, l: Lane<V>, i: int, r: Regs<V>, n: nat)
    requires
        a.ok(),
        l.bufs == a.bufs,
        0 <= i < a.threads(),
        n <= a.own(),
        quiet(r),
        r.u[2] == i % 32 * a.own(),
        r.u[17] == i / 32 * a.hd,
    ensures
        ({
            let p = counted(a.ar, l, a.query_loop(), n, r);
            &&& quiet(p)
            &&& p.f == r.f
            &&& forall|j: u32| j != 14 ==> #[trigger] p.u[j] == r.u[j]
            &&& forall|k: int|
                0 <= k < n ==> #[trigger] p.local[(0u32, k)] == a.query(
                    i / 32,
                    i % 32 * a.own() + k,
                )
            &&& forall|k: int| 0 <= k < n ==> #[trigger] p.local[(1u32, k)] == a.ar.zero()
        }),
    decreases n,
{
    let ar = a.ar;
    if n > 0 {
        let j = n - 1;
        lemma_query_loop(a, l, i, r, j as nat);
        let p = counted(ar, l, a.query_loop(), j as nat, r);
        let q = Regs { u: p.u.insert(14, j), ..p };
        let s0 = th_store(0, fv(14), ld(0, plus(uv(17), plus(uv(2), fv(14))), a.q_dt));
        let s1 = th_store(1, fv(14), c(ZERO));
        lemma_run_one(ar, l, Code::Flat(s0), q);
        lemma_run_push(ar, l, code().s(s0), Code::Flat(s1), q);
        lemma_fundamental_div_mod(a.hd as int, 32);
        lemma_share_inside(i, a.own(), a.hd as int, j);
        let x = i % 32 * a.own() + j;
        let h = i / 32;
        assert(0 <= h * a.hd && h * a.hd + a.hd <= u32::MAX) by (nonlinear_arith)
            requires
                0 <= h < a.n_q,
                a.n_q * a.hd <= u32::MAX,
                0 <= a.hd,
        ;
        assert(q.u[2] == r.u[2] && q.u[17] == r.u[17]);
        assert(index(ar, l, q, fv(14)) == j);
        assert(index(ar, l, q, uv(2)) == i % 32 * a.own());
        assert(index(ar, l, q, plus(uv(2), fv(14))) == x);
        assert(index(ar, l, q, uv(17)) == h * a.hd);
        assert(index(ar, l, q, plus(uv(17), plus(uv(2), fv(14)))) == h * a.hd + x);
        let m = run(ar, l, code().s(s0), q);
        assert(m == (Regs { local: q.local.insert((0u32, j), a.query(h, x)), ..q }));
        assert(index(ar, l, m, fv(14)) == j);
        assert(value(ar, l, m, c(ZERO)) == ar.zero());
        let done = counted(ar, l, a.query_loop(), n, r);
        assert(done == (Regs { local: m.local.insert((1u32, j), ar.zero()), ..m }));
        assert forall|k: int| 0 <= k < n implies #[trigger] done.local[(0u32, k)] == a.query(
            h,
            i % 32 * a.own() + k,
        ) by {
            if k < j {
                assert(p.local[(0u32, k)] == a.query(h, i % 32 * a.own() + k));
            }
        }
        assert forall|k: int| 0 <= k < n implies #[trigger] done.local[(1u32, k)] == ar.zero() by {
            if k < j {
                assert(p.local[(1u32, k)] == ar.zero());
            }
        }
    }
}

/// A thread before the passes.
proof fn lemma_before<V>(a: Attention<V>, l: Lane<V>, i: int)
    requires
        a.ok(),
        l.bufs == a.bufs,
        l.lid == i,
        0 <= i < a.threads(),
    ensures
        ({
            let p = run(a.ar, l, a.before(), blank());
            a.placed(i, p) && a.folded(i, p, 0) && p.u[9] == 0
        }),
{
    let z = blank::<V>();
    let s = Code::Flat(let_u(9, cu(0)));
    lemma_places(a, l, i);
    let p = run(a.ar, l, a.places(), z);
    lemma_run_push(a.ar, l, a.places(), a.query_loop(), z);
    lemma_run_push(a.ar, l, a.places().push(a.query_loop()), s, z);
    lemma_query_loop(a, l, i, p, a.own() as nat);
    let q = run(a.ar, l, a.places().push(a.query_loop()), z);
    assert(q == counted(a.ar, l, a.query_loop(), a.own() as nat, p));
    let done = run(a.ar, l, a.before(), z);
    assert(done == (Regs { u: q.u.insert(9, 0), ..q }));
    assert(q.u[2] == p.u[2] && q.u[5] == p.u[5] && q.u[6] == p.u[6] && q.u[17] == p.u[17]);
    assert forall|k: int| 0 <= k < a.own() implies #[trigger] done.local[(0u32, k)] == a.query(
        i / 32,
        i % 32 * a.own() + k,
    ) by {
        assert(q.local[(0u32, k)] == a.query(i / 32, i % 32 * a.own() + k));
    }
    assert forall|k: int| 0 <= k < a.own() implies #[trigger] done.local[(1u32, k)] == a.weighted(
        i / 32,
        0,
        i % 32 * a.own() + k,
    ) by {
        assert(q.local[(1u32, k)] == a.ar.zero());
    }
}

/// The statements before the passes change nothing but registers.
proof fn lemma_before_silent<V>(a: Attention<V>)
    ensures
        block_silent(a.before(), a.before().len()),
{
    let b = a.places();
    assert(b.len() == 14);
    assert(silent(b[0]) && silent(b[1]) && silent(b[2]) && silent(b[3]) && silent(b[4]) && silent(
        b[5],
    ) && silent(b[6]) && silent(b[7]) && silent(b[8]) && silent(b[9]) && silent(b[10]) && silent(
        b[11],
    ) && silent(b[12]) && silent(b[13]));
    reveal_with_fuel(block_silent, 15);
    assert(block_silent(b, 14));
    let body = a.query_loop()->For_body;
    assert(body.len() == 2 && silent(body[0]) && silent(body[1]));
    assert(block_silent(body, 2));
    assert(silent(a.query_loop()));
    lemma_silent_push(b, a.query_loop());
    let s = Code::Flat(let_u(9, cu(0)));
    assert(silent(s));
    lemma_silent_push(b.push(a.query_loop()), s);
}

/// Whether a thread has stored the first `n` elements of its share of the output, and nothing else.
spec fn has_slice<V>(a: Attention<V>, i: int, p: Regs<V>, n: int) -> bool {
    &&& p.writes == Map::<(u32, int), V>::empty()
    &&& forall|at: (u32, int)| #[trigger]
        p.stored.contains_key(at) ==> at.0 == 4 && i * a.own() <= at.1 < i * a.own() + n
            && p.stored[at] == a.attended(at.1)
    &&& forall|k: int|
        0 <= k < n ==> #[trigger] p.stored.contains_key((4u32, i * a.own() + k))
}

/// Where a thread's share of the output stands.
proof fn lemma_place_of_share<V>(a: Attention<V>, i: int, k: int)
    requires
        a.ok(),
        0 <= i < a.threads(),
        0 <= k < a.own(),
    ensures
        ({
            let x = i * a.own() + k;
            &&& x == i / 32 * a.hd + (i % 32 * a.own() + k)
            &&& x / a.hd as int == i / 32
            &&& x % a.hd as int == i % 32 * a.own() + k
            &&& 0 <= x < a.n_q * a.hd
        }),
{
    let own = a.own();
    let hd = a.hd as int;
    let h = i / 32;
    let j = i % 32;
    lemma_fundamental_div_mod(hd, 32);
    lemma_fundamental_div_mod(i, 32);
    lemma_share_inside(i, own, hd, k);
    let x = i * own + k;
    assert(x == h * hd + (j * own + k)) by (nonlinear_arith)
        requires
            x == i * own + k,
            i == 32 * h + j,
            hd == 32 * own,
    ;
    lemma_fundamental_div_mod_converse(x, hd, h, j * own + k);
    assert(0 <= h * hd && h * hd + hd <= a.n_q * hd) by (nonlinear_arith)
        requires
            0 <= h < a.n_q,
            0 <= hd,
    ;
}

/// A thread stores its share of the output.
proof fn lemma_put_loop<V>(a: Attention<V>, l: Lane<V>, i: int, r: Regs<V>, n: nat)
    requires
        a.ok(),
        0 <= i < a.threads(),
        n <= a.own(),
        a.placed(i, r),
        a.folded(i, r, a.tlen() as nat),
        r.f[19] == (a.ar.binary)(
            BinOp::Div,
            (a.ar.constant)(Scalar::Bits(ONE)),
            a.norm(i / 32, a.tlen() as nat),
        ),
    ensures
        ({
            let p = counted(a.ar, l, a.put_loop(), n, r);
            &&& has_slice(a, i, p, n as int)
            &&& p.f == r.f
            &&& p.local == r.local
            &&& forall|j: u32| j != 16 ==> #[trigger] p.u[j] == r.u[j]
        }),
    decreases n,
{
    let ar = a.ar;
    if n > 0 {
        let j = n - 1;
        lemma_put_loop(a, l, i, r, j as nat);
        let p = counted(ar, l, a.put_loop(), j as nat, r);
        let q = Regs { u: p.u.insert(16, j), ..p };
        lemma_place_of_share(a, i, j);
        let x = i * a.own() + j;
        let h = i / 32;
        let d = i % 32 * a.own() + j;
        lemma_fundamental_div_mod(a.hd as int, 32);
        lemma_share_inside(i, a.own(), a.hd as int, j);
        assert(0 <= h * a.hd) by (nonlinear_arith)
            requires
                0 <= h,
                0 <= a.hd,
        ;
        assert(q.u[2] == r.u[2] && q.u[17] == r.u[17]);
        assert(index(ar, l, q, fv(16)) == j);
        assert(index(ar, l, q, uv(2)) == i % 32 * a.own());
        assert(index(ar, l, q, plus(uv(2), fv(16))) == d);
        assert(index(ar, l, q, uv(17)) == h * a.hd);
        assert(index(ar, l, q, plus(uv(17), plus(uv(2), fv(16)))) == x);
        assert(r.local[(1u32, j)] == a.weighted(h, a.tlen() as nat, d));
        assert(value(ar, l, q, th_load(1, fv(16))) == a.weighted(h, a.tlen() as nat, d));
        assert(value(ar, l, q, v(19)) == q.f[19]);
        assert(value(ar, l, q, times(th_load(1, fv(16)), v(19))) == a.attended(x));
        lemma_run_one(ar, l, Code::Flat(a.put()), q);
        let done = counted(ar, l, a.put_loop(), n, r);
        assert(done == (Regs { stored: q.stored.insert((4u32, x), a.attended(x)), ..q }));
        assert forall|k: int| 0 <= k < n implies #[trigger] done.stored.contains_key(
            (4u32, i * a.own() + k),
        ) by {
            if k < j {
                assert(p.stored.contains_key((4u32, i * a.own() + k)));
            }
        }
    }
}

/// What the first `n` threads have stored is their shares.
proof fn lemma_slices<V>(a: Attention<V>, after: Seq<Regs<V>>, n: nat, at: (u32, int))
    requires
        a.ok(),
        n <= after.len(),
        after.len() == a.threads(),
        forall|i: int| 0 <= i < n ==> has_slice(a, i, #[trigger] after[i], a.own()),
    ensures
        ({
            let m = device_writes(Map::<(u32, int), V>::empty(), after, n);
            let here = at.0 == 4 && 0 <= at.1 < n * a.own();
            &&& m.contains_key(at) ==> here && m[at] == a.attended(at.1)
            &&& here ==> m.contains_key(at)
        }),
    decreases n,
{
    let own = a.own();
    if n > 0 {
        let i = n - 1;
        lemma_slices(a, after, i as nat, at);
        let last = after[i];
        assert(has_slice(a, i, last, own));
        assert(n * own == i * own + own && 0 <= i * own) by (nonlinear_arith)
            requires
                n == i + 1,
                0 <= i,
                0 <= own,
        ;
        if at.0 == 4 && i * own <= at.1 < i * own + own {
            let k = at.1 - i * own;
            assert(last.stored.contains_key((4u32, i * own + k)));
        }
    } else {
        assert(0 * own == 0);
    }
}

/// The attention kernel, with a thread for each thirty-second of a head, computes attention, where
/// sums may be taken in any order: it stores the elements of the output and nothing else.
pub proof fn lemma_attention<V>(a: Attention<V>)
    requires
        a.ar.exact(),
        a.ok(),
    ensures
        group_run(
            a.ar,
            0,
            a.bufs,
            sdpa_code(a.hd, a.q_dt, a.kv_dt, a.threads() as u64, 0),
            fresh_group(a.threads() as nat),
        ).stored == Map::new(
            |at: (u32, int)| at.0 == 4 && 0 <= at.1 < a.n_q * a.hd,
            |at: (u32, int)| a.attended(at.1),
        ),
{
    reveal(sdpa_code);
    let (ar, bufs) = (a.ar, a.bufs);
    let g0 = fresh_group::<V>(a.threads() as nat);
    let b = a.before();
    let s1 = a.passes();
    let s2 = Code::Flat(let_f(19, over(c(ONE), v(8))));
    let s3 = a.put_loop();
    assert(sdpa_code(a.hd, a.q_dt, a.kv_dt, a.threads() as u64, 0) =~= b.push(s1).push(s2).push(
        s3,
    ));
    lemma_group_push(ar, 0, bufs, b, s1, g0);
    lemma_group_push(ar, 0, bufs, b.push(s1), s2, g0);
    lemma_group_push(ar, 0, bufs, b.push(s1).push(s2), s3, g0);
    let g1 = group_run(ar, 0, bufs, b, g0);
    let g2 = group_run(ar, 0, bufs, b.push(s1), g0);
    let g3 = group_run(ar, 0, bufs, b.push(s1).push(s2), g0);
    let g4 = group_run(ar, 0, bufs, b.push(s1).push(s2).push(s3), g0);
    lemma_before_silent(a);
    lemma_solo(ar, 0, bufs, b, g0);
    assert forall|i: int| 0 <= i < g1.regs.len() implies a.placed(i, #[trigger] g1.regs[i])
        && a.folded(i, g1.regs[i], 0) && g1.regs[i].u[9] == 0 by {
        assert(g1.regs[i] == run(ar, lane(0, bufs, g0, i), b, g0.regs[i]));
        lemma_before(a, lane(0, bufs, g0, i), i);
    }
    assert(a.upto(0) == 0);
    assert(a.state(g1, a.upto(0), 0));
    lemma_passes_meet(a);
    lemma_passes(a, g1, 0);
    assert(g2 == group_turns(ar, 0, bufs, s1, g1));
    let end = choose|end: int| #[trigger] a.state(g2, a.upto(a.tlen()), end);
    let n = a.tlen() as nat;
    assert(a.state(g2, n, end));
    let one_over = |h: int|
        (ar.binary)(BinOp::Div, (ar.constant)(Scalar::Bits(ONE)), a.norm(h, n));
    assert forall|i: int| 0 <= i < g2.regs.len() implies quiet(#[trigger] g2.regs[i]) by {
        assert(a.placed(i, g2.regs[i]));
    }
    assert forall|i: int| 0 <= i < g2.regs.len() implies #[trigger] step(
        ar,
        lane(0, bufs, g2, i),
        s2,
        g2.regs[i],
    ) == (Regs { f: g2.regs[i].f.insert(19, one_over(i / 32)), ..g2.regs[i] }) && quiet(
        g2.regs[i],
    ) by {
        let l = lane(0, bufs, g2, i);
        let r = g2.regs[i];
        assert(a.placed(i, r));
        assert(value(ar, l, r, c(ONE)) == (ar.constant)(Scalar::Bits(ONE)));
        assert(value(ar, l, r, v(8)) == r.f[8]);
    }
    crate::codegen::laws::group::lemma_apart_quiet(ar, 0, bufs, s2, g2);
    let after = Seq::new(g3.regs.len(), |i: int| step(ar, lane(0, bufs, g3, i), s3, g3.regs[i]));
    assert forall|i: int| 0 <= i < after.len() implies has_slice(
        a,
        i,
        #[trigger] after[i],
        a.own(),
    ) by {
        let was = g2.regs[i];
        let now = g3.regs[i];
        assert(now == step(ar, lane(0, bufs, g2, i), s2, was));
        assert(a.placed(i, was));
        assert forall|k: int| 0 <= k < a.own() implies #[trigger] now.local[(0u32, k)] == a.query(
            i / 32,
            i % 32 * a.own() + k,
        ) by {
            assert(was.local[(0u32, k)] == a.query(i / 32, i % 32 * a.own() + k));
        }
        assert forall|k: int| 0 <= k < a.own() implies #[trigger] now.local[(1u32, k)]
            == a.weighted(i / 32, n, i % 32 * a.own() + k) by {
            assert(was.local[(1u32, k)] == a.weighted(i / 32, n, i % 32 * a.own() + k));
        }
        lemma_put_loop(a, lane(0, bufs, g3, i), i, now, a.own() as nat);
    }
    assert(!meets(s3));
    assert(g4 == apart(ar, 0, bufs, s3, g3));
    assert(g3.stored == Map::<(u32, int), V>::empty());
    assert(g4.stored == device_writes(g3.stored, after, after.len()));
    let want = Map::new(
        |at: (u32, int)| at.0 == 4 && 0 <= at.1 < a.n_q * a.hd,
        |at: (u32, int)| a.attended(at.1),
    );
    assert(a.threads() * a.own() == a.n_q * a.hd) by {
        lemma_fundamental_div_mod(a.hd as int, 32);
        assert(a.threads() * a.own() == a.n_q * a.hd) by (nonlinear_arith)
            requires
                a.threads() == a.n_q * 32,
                a.hd == 32 * a.own(),
        ;
    }
    assert forall|at: (u32, int)| #[trigger] g4.stored.contains_key(at) == want.contains_key(at)
        && (g4.stored.contains_key(at) ==> g4.stored[at] == want[at]) by {
        lemma_slices(a, after, after.len(), at);
    }
    assert(g4.stored =~= want);
}

/// The kernel that is scheduled and lowered for attention is that kernel, in one group.
pub proof fn lemma_attention_kernel<V>(
    a: Attention<V>,
    g: GraphV,
    out: TensorId,
    sched: OptSchedule,
)
    requires
        a.ar.exact(),
        a.ok(),
        scheduled(g, out) is Ok,
        scheduled(g, out)->Ok_0.output == out,
        scheduled(g, out)->Ok_0.kind is SdpaNaive,
        a.n_q == scheduled(g, out)->Ok_0.kind->SdpaNaive_n_q,
        a.hd == scheduled(g, out)->Ok_0.kind->SdpaNaive_hd,
        a.kv_dt == scheduled(g, out)->Ok_0.kind->SdpaNaive_kv_dtype,
        a.q_dt == g.dtype(out),
        g.has(out),
    ensures
        match lowered_in(g, scheduled(g, out)->Ok_0, sched) {
            Ok(ir) => {
                &&& ir.launch == one_group(a.threads() as u64)
                &&& group_run(
                    a.ar,
                    0,
                    a.bufs,
                    ir.body,
                    fresh_group(a.threads() as nat),
                ).stored == Map::new(
                    |at: (u32, int)| at.0 == 4 && 0 <= at.1 < a.n_q * a.hd,
                    |at: (u32, int)| a.attended(at.1),
                )
            },
            Err(_) => false,
        },
{
    reveal(other_body);
    lemma_attention(a);
}

/// Whether products distribute over sums and exponentials turn sums into products.
pub open spec fn exponential<V>(a: Attention<V>) -> bool {
    &&& forall|x: V, y: V, z: V|
        a.ar.product(a.ar.sum(x, y), z) == #[trigger] a.ar.sum(
            a.ar.product(x, z),
            a.ar.product(y, z),
        )
    &&& forall|x: V, y: V, z: V| #[trigger]
        a.ar.product(a.ar.product(x, y), z) == a.ar.product(a.ar.product(x, z), y)
    &&& forall|x: V| #[trigger] a.ar.product(a.ar.zero(), x) == a.ar.zero()
    &&& forall|x: V, y: V, z: V| #[trigger]
        a.ar.product(a.exp(a.minus(x, y)), a.exp(a.minus(y, z))) == a.exp(a.minus(x, z))
}

impl<V> Attention<V> {
    /// The weight of position `t` in the scale of the first `n`.
    pub open spec fn share_of(self, h: int, n: nat) -> spec_fn(int) -> V {
        |t: int| self.exp(self.minus(self.score(h, t), self.top(h, n)))
    }

    /// Element `d` of the value of position `t`, weighted.
    pub open spec fn part_of(self, h: int, n: nat, d: int) -> spec_fn(int) -> V {
        |t: int| self.ar.product(self.share_of(h, n)(t), self.val(t, d))
    }
}

/// A sum that is multiplied is the sum of the multiplied terms.
proof fn lemma_scaled<V>(
    a: Attention<V>,
    t: spec_fn(int) -> V,
    u: spec_fn(int) -> V,
    z: V,
    n: nat,
)
    requires
        exponential(a),
        forall|k: int| 0 <= k < n ==> #[trigger] u(k) == a.ar.product(t(k), z),
    ensures
        a.ar.product(series(a.ar, t, n), z) == series(a.ar, u, n),
    decreases n,
{
    if n > 0 {
        lemma_scaled(a, t, u, z, (n - 1) as nat);
        assert(u(n - 1) == a.ar.product(t(n - 1), z));
        let s = series(a.ar, t, (n - 1) as nat);
        assert(a.ar.product(a.ar.sum(s, t(n - 1)), z) == a.ar.sum(
            a.ar.product(s, z),
            a.ar.product(t(n - 1), z),
        ));
    }
}

/// What the kernel adds up as positions come is a softmax: the weights are the exponentials of the
/// scores over their largest, and the values are added up with these weights.
pub proof fn lemma_softmax<V>(a: Attention<V>, h: int, n: nat, d: int)
    requires
        exponential(a),
    ensures
        a.norm(h, n) == series(a.ar, a.share_of(h, n), n),
        a.weighted(h, n, d) == series(a.ar, a.part_of(h, n, d), n),
    decreases n,
{
    if n > 0 {
        let m = (n - 1) as nat;
        lemma_softmax(a, h, m, d);
        let z = a.rescale(h, n);
        let f = a.share_of(h, m);
        let g = a.share_of(h, n);
        assert forall|t: int| 0 <= t < m implies #[trigger] g(t) == a.ar.product(f(t), z) by {
            assert(a.ar.product(
                a.exp(a.minus(a.score(h, t), a.top(h, m))),
                a.exp(a.minus(a.top(h, m), a.top(h, n))),
            ) == a.exp(a.minus(a.score(h, t), a.top(h, n))));
        }
        lemma_scaled(a, f, g, z, m);
        let p = a.part_of(h, m, d);
        let q = a.part_of(h, n, d);
        assert forall|t: int| 0 <= t < m implies #[trigger] q(t) == a.ar.product(p(t), z) by {
            assert(g(t) == a.ar.product(f(t), z));
            let x = a.val(t, d);
            assert(a.ar.product(a.ar.product(f(t), x), z) == a.ar.product(
                a.ar.product(f(t), z),
                x,
            ));
        }
        lemma_scaled(a, p, q, z, m);
        assert(g(n - 1) == a.weight(h, n));
    }
}

} // verus!
