//! What the kernel that picks the largest logit computes.

use vstd::prelude::*;

use crate::codegen::laws::group::{lemma_apart_first, lemma_apart_quiet, quiet};
use crate::codegen::laws::machine::{
    best_of, blank, block_meets, fresh_group, group_run, holds, index, is_index, joint, lane,
    lemma_group_push, lemma_run_one, lemma_run_push, meets, run, step, turns, value, waits, Arith,
    Lane, Regs,
};
use crate::codegen::laws::sums::{lemma_first_turn, lemma_other_remainders};
use crate::codegen::lower::block::{
    assign, c, code, cs, cu, equal, gt, ld, let_f, let_u, lid, over, store, times, to_float, un, uv,
    v, Extend,
};
use crate::codegen::lower::elem::softcap_argmax_code;
use crate::ir::dtype::{DType, Scalar, LOWEST, ZERO};
use crate::ir::kernel::{BinOp, Code, KirStmt, UnaryOp};

verus! {

/// Whether values are ordered by a rank, and counts below `n` are read back as they were written.
pub open spec fn ranked<V>(ar: Arith<V>, rank: spec_fn(V) -> int, n: int) -> bool {
    &&& forall|x: V, y: V| #[trigger] (ar.above)(x, y) == (rank(x) > rank(y))
    &&& forall|x: V, y: V| #[trigger] (ar.same)(x, y) == (rank(x) == rank(y))
    &&& forall|i: int| 0 <= i < n ==> #[trigger] (ar.to_index)((ar.of_index)(i)) == i
    &&& (ar.to_index)(ar.zero()) == 0
}

/// A logit, capped.
pub open spec fn capped<V>(ar: Arith<V>, bufs: spec_fn(u32, int) -> V, cap: Scalar) -> spec_fn(
    int,
) -> V {
    |i: int|
        ar.product(
            (ar.constant)(cap),
            (ar.unary)(
                UnaryOp::Tanh,
                (ar.binary)(BinOp::Div, bufs(0, i), (ar.constant)(cap)),
            ),
        )
}

/// Whether `k` is the first of the largest of `n` values.
pub open spec fn first_largest<V>(
    rank: spec_fn(V) -> int,
    t: spec_fn(int) -> V,
    n: int,
    k: int,
) -> bool {
    &&& 0 <= k < n
    &&& forall|j: int| 0 <= j < n ==> rank(#[trigger] t(j)) <= rank(t(k))
    &&& forall|j: int| 0 <= j < k ==> rank(#[trigger] t(j)) < rank(t(k))
}

/// There is a first of the largest of some values.
proof fn lemma_some_largest<V>(rank: spec_fn(V) -> int, t: spec_fn(int) -> V, n: int) -> (k: int)
    requires
        0 < n,
    ensures
        first_largest(rank, t, n, k),
    decreases n,
{
    if n == 1 {
        0
    } else {
        let k = lemma_some_largest(rank, t, n - 1);
        if rank(t(n - 1)) > rank(t(k)) {
            n - 1
        } else {
            k
        }
    }
}

/// Whether a thread holds the first of the largest of those values below `m` that fall to it, or
/// nothing but the lowest value where none does.
spec fn holds_best<V>(
    ar: Arith<V>,
    rank: spec_fn(V) -> int,
    t: spec_fn(int) -> V,
    tg: int,
    lid: int,
    m: int,
    r: Regs<V>,
) -> bool {
    &&& quiet(r)
    &&& forall|j: int| 0 <= j < m && #[trigger] (j % tg) == lid ==> rank(t(j)) <= rank(r.f[1])
    &&& (r.f[1] == (ar.constant)(Scalar::Bits(LOWEST)) && r.f[0] == ar.zero()) || exists|k: int|
        0 <= k < m && k % tg == lid && r.f[1] == t(k) && r.f[0] == #[trigger] (ar.of_index)(k)
            && forall|j: int| 0 <= j < k && #[trigger] (j % tg) == lid ==> rank(t(j)) < rank(t(k))
}

spec fn scan_body(cap: Scalar, dt: DType) -> Seq<Code> {
    let e = times(cs(cap), un(UnaryOp::Tanh, over(ld(0, uv(2), dt), cs(cap))));
    code().s(let_f(3, e)).when(
        gt(v(3), v(1)),
        code().s(assign(1, v(3))).s(assign(0, to_float(uv(2)))),
    )
}

spec fn scan_loop(n: u32, cap: Scalar, dt: DType, tg: u32) -> Code {
    Code::ForRange {
        id: 2,
        limit_off: cu(0),
        bound: cu(n),
        step: cu(tg),
        body: scan_body(cap, dt),
    }
}

/// One turn of a thread.
proof fn lemma_scan_turn<V>(
    ar: Arith<V>,
    l: Lane<V>,
    rank: spec_fn(V) -> int,
    n: int,
    cap: Scalar,
    dt: DType,
    r: Regs<V>,
)
    requires
        ranked(ar, rank, n),
        r.stored == Map::<(u32, int), V>::empty(),
    ensures
        ({
            let x = capped(ar, l.bufs, cap)(r.u[2]);
            let b = run(ar, l, scan_body(cap, dt), r);
            &&& b.u == r.u
            &&& b.local == r.local
            &&& b.writes == r.writes
            &&& b.stored == r.stored
            &&& if rank(x) > rank(r.f[1]) {
                b.f[1] == x && b.f[0] == (ar.of_index)(r.u[2])
            } else {
                b.f[1] == r.f[1] && b.f[0] == r.f[0]
            }
        }),
{
    let inner = over(ld(0, uv(2), dt), cs(cap));
    let e = times(cs(cap), un(UnaryOp::Tanh, inner));
    let s0 = Code::Flat(let_f(3, e));
    let t0 = Code::Flat(assign(1, v(3)));
    let t1 = Code::Flat(assign(0, to_float(uv(2))));
    let s1 = Code::If { cond: gt(v(3), v(1)), body: code().push(t0).push(t1) };
    let x = capped(ar, l.bufs, cap)(r.u[2]);
    lemma_run_one(ar, l, s0, r);
    lemma_run_push(ar, l, code().push(s0), s1, r);
    assert(index(ar, l, r, uv(2)) == r.u[2]);
    assert(value(ar, l, r, ld(0, uv(2), dt)) == (l.bufs)(0, r.u[2]));
    assert(value(ar, l, r, cs(cap)) == (ar.constant)(cap));
    assert(value(ar, l, r, inner) == (ar.binary)(
        BinOp::Div,
        (l.bufs)(0, r.u[2]),
        (ar.constant)(cap),
    ));
    assert(value(ar, l, r, un(UnaryOp::Tanh, inner)) == (ar.unary)(
        UnaryOp::Tanh,
        value(ar, l, r, inner),
    ));
    assert(value(ar, l, r, e) == x);
    let m = run(ar, l, code().push(s0), r);
    assert(m == (Regs { f: r.f.insert(3, x), ..r }));
    assert(value(ar, l, m, v(3)) == x);
    assert(value(ar, l, m, v(1)) == r.f[1]);
    assert(!is_index(v(3)));
    assert(holds(ar, l, m, gt(v(3), v(1))) == (ar.above)(x, r.f[1]));
    lemma_run_one(ar, l, t0, m);
    lemma_run_push(ar, l, code().push(t0), t1, m);
    let a = run(ar, l, code().push(t0), m);
    assert(a == (Regs { f: m.f.insert(1, x), ..m }));
    assert(index(ar, l, a, uv(2)) == r.u[2]);
    assert(value(ar, l, a, to_float(uv(2))) == (ar.of_index)(r.u[2]));
}

/// The scan of a thread over the values that fall to it.
proof fn lemma_scan<V>(
    ar: Arith<V>,
    l: Lane<V>,
    rank: spec_fn(V) -> int,
    n: u32,
    cap: Scalar,
    dt: DType,
    tg: u32,
    r: Regs<V>,
)
    requires
        ranked(ar, rank, n as int),
        0 < tg,
        n + tg <= u32::MAX,
        0 <= r.u[2] < n + tg,
        r.u[2] % tg as int == l.lid,
        holds_best(ar, rank, capped(ar, l.bufs, cap), tg as int, l.lid, r.u[2], r),
    ensures
        holds_best(
            ar,
            rank,
            capped(ar, l.bufs, cap),
            tg as int,
            l.lid,
            n as int,
            turns(ar, l, scan_loop(n, cap, dt, tg), r),
        ),
    decreases n + tg - r.u[2],
{
    let t = capped(ar, l.bufs, cap);
    let whole = scan_loop(n, cap, dt, tg);
    let at = r.u[2];
    assert(index(ar, l, r, cu(0)) == 0);
    assert(index(ar, l, r, cu(n)) == n);
    lemma_other_remainders(at, tg as int, l.lid);
    if at < n {
        lemma_scan_turn(ar, l, rank, n as int, cap, dt, r);
        let b = run(ar, l, scan_body(cap, dt), r);
        assert(index(ar, l, b, cu(tg)) == tg);
        let next = Regs { u: b.u.insert(2, at + tg), ..b };
        assert(turns(ar, l, whole, r) == turns(ar, l, whole, next));
        assert(holds_best(ar, rank, t, tg as int, l.lid, at + tg, next)) by {
            assert forall|j: int| 0 <= j < at + tg && #[trigger] (
                j % tg as int
            ) == l.lid implies rank(
                t(j),
            ) <= rank(next.f[1]) by {
                if j < at {
                    assert(rank(t(j)) <= rank(r.f[1]));
                } else {
                    assert(j == at);
                }
            }
            if rank(t(at)) > rank(r.f[1]) {
                let k = at;
                assert(next.f[0] == (ar.of_index)(k));
            } else if !(r.f[1] == (ar.constant)(Scalar::Bits(LOWEST)) && r.f[0] == ar.zero()) {
                let k = choose|k: int|
                    0 <= k < at && k % tg as int == l.lid && r.f[1] == t(k) && r.f[0]
                        == #[trigger] (ar.of_index)(k) && forall|j: int|
                        0 <= j < k && #[trigger] (j % tg as int) == l.lid ==> rank(t(j)) < rank(
                            t(k),
                        );
                assert(next.f[0] == (ar.of_index)(k));
            }
        }
        lemma_scan(ar, l, rank, n, cap, dt, tg, next);
    } else {
        assert(turns(ar, l, whole, r) == r);
        assert forall|j: int| 0 <= j < n && #[trigger] (j % tg as int) == l.lid implies rank(t(j))
            <= rank(r.f[1]) by {}
        if !(r.f[1] == (ar.constant)(Scalar::Bits(LOWEST)) && r.f[0] == ar.zero()) {
            let k = choose|k: int|
                0 <= k < at && k % tg as int == l.lid && r.f[1] == t(k) && r.f[0]
                    == #[trigger] (ar.of_index)(k) && forall|j: int|
                    0 <= j < k && #[trigger] (j % tg as int) == l.lid ==> rank(t(j)) < rank(t(k));
            if k >= n {
                lemma_other_remainders(k, tg as int, l.lid);
                assert(false);
            }
            assert(r.f[0] == (ar.of_index)(k));
        }
    }
}

/// The best of some threads is one that a thread holds, and no thread holds a better one.
proof fn lemma_best<V>(
    ar: Arith<V>,
    rank: spec_fn(V) -> int,
    regs: Seq<Regs<V>>,
    m: int,
    n: nat,
)
    requires
        ranked(ar, rank, m),
        1 <= n <= regs.len(),
    ensures
        ({
            let b = best_of(ar, regs, 1, 0, n);
            &&& exists|i: int| 0 <= i < n && b == ((#[trigger] regs[i]).f[1], regs[i].f[0])
            &&& forall|i: int| 0 <= i < n ==> {
                let r = #[trigger] regs[i];
                &&& rank(r.f[1]) <= rank(b.0)
                &&& rank(r.f[1]) == rank(b.0) ==> (ar.to_index)(b.1) <= (ar.to_index)(r.f[0])
            }
        }),
    decreases n,
{
    if n == 1 {
        assert(best_of(ar, regs, 1, 0, 1) == (regs[0].f[1], regs[0].f[0]));
    } else {
        lemma_best(ar, rank, regs, m, (n - 1) as nat);
        let p = best_of(ar, regs, 1, 0, (n - 1) as nat);
        let b = best_of(ar, regs, 1, 0, n);
        let last = regs[n - 1];
        if b == p {
            let i = choose|i: int|
                0 <= i < n - 1 && p == ((#[trigger] regs[i]).f[1], regs[i].f[0]);
            assert(b == (regs[i].f[1], regs[i].f[0]));
        } else {
            assert(b == (last.f[1], last.f[0]));
        }
        assert forall|i: int| 0 <= i < n implies {
            let r = #[trigger] regs[i];
            &&& rank(r.f[1]) <= rank(b.0)
            &&& rank(r.f[1]) == rank(b.0) ==> (ar.to_index)(b.1) <= (ar.to_index)(r.f[0])
        } by {
            if i < n - 1 {
                assert(rank(regs[i].f[1]) <= rank(p.0));
            }
        }
    }
}

/// The kernel picks the first of the largest capped logits, whatever the number of its threads: it
/// stores its index and nothing else. Values are ordered by a rank, and every logit is above the
/// lowest value that the kernel starts from.
pub proof fn lemma_argmax<V>(
    ar: Arith<V>,
    rank: spec_fn(V) -> int,
    gid: int,
    bufs: spec_fn(u32, int) -> V,
    n: usize,
    cap: Scalar,
    dt: DType,
    tg: u64,
    k: int,
)
    requires
        ranked(ar, rank, n as int),
        1 <= tg <= 1024,
        0 < n,
        n + tg <= u32::MAX,
        forall|i: int|
            0 <= i < n ==> rank((ar.constant)(Scalar::Bits(LOWEST))) < rank(
                #[trigger] capped(ar, bufs, cap)(i),
            ),
        first_largest(rank, capped(ar, bufs, cap), n as int, k),
    ensures
        group_run(
            ar,
            gid,
            bufs,
            softcap_argmax_code(n, cap, dt, tg, 0),
            fresh_group(tg as nat),
        ).stored == Map::empty().insert((1u32, 0int), (ar.of_index)(k)),
{
    reveal(softcap_argmax_code);
    let m = n as u32;
    let w = tg as u32;
    let t = capped(ar, bufs, cap);
    let low = (ar.constant)(Scalar::Bits(LOWEST));
    let g0 = fresh_group::<V>(tg as nat);
    let s0 = Code::Flat(let_f(1, c(LOWEST)));
    let s1 = Code::Flat(let_f(0, c(ZERO)));
    let s2 = Code::Flat(let_u(2, lid()));
    let s3 = scan_loop(m, cap, dt, w);
    let s4 = Code::Flat(KirStmt::ThreadgroupArgmax { val_id: 1, idx_id: 0, tg });
    let put = Code::Flat(store(1, cu(0), v(0)));
    let s5 = Code::If { cond: equal(lid(), cu(0)), body: code().push(put) };
    let b1 = code().push(s0);
    let b2 = b1.push(s1);
    let b3 = b2.push(s2);
    let b4 = b3.push(s3);
    let b5 = b4.push(s4);
    assert(softcap_argmax_code(n, cap, dt, tg, 0) =~= b5.push(s5));
    lemma_group_push(ar, gid, bufs, code(), s0, g0);
    lemma_group_push(ar, gid, bufs, b1, s1, g0);
    lemma_group_push(ar, gid, bufs, b2, s2, g0);
    lemma_group_push(ar, gid, bufs, b3, s3, g0);
    lemma_group_push(ar, gid, bufs, b4, s4, g0);
    lemma_group_push(ar, gid, bufs, b5, s5, g0);
    assert(group_run(ar, gid, bufs, code(), g0) == g0);
    let g1 = group_run(ar, gid, bufs, b1, g0);
    let g2 = group_run(ar, gid, bufs, b2, g0);
    let g3 = group_run(ar, gid, bufs, b3, g0);
    let g4 = group_run(ar, gid, bufs, b4, g0);
    let g5 = group_run(ar, gid, bufs, b5, g0);
    assert forall|i: int| 0 <= i < tg implies #[trigger] step(
        ar,
        lane(gid, bufs, g0, i),
        s0,
        g0.regs[i],
    ) == (Regs { f: Map::empty().insert(1u32, low), ..blank::<V>() }) by {}
    lemma_apart_quiet(ar, gid, bufs, s0, g0);
    assert forall|i: int| 0 <= i < tg implies #[trigger] step(
        ar,
        lane(gid, bufs, g1, i),
        s1,
        g1.regs[i],
    ) == (Regs {
        f: Map::empty().insert(1u32, low).insert(0u32, ar.zero()),
        ..blank::<V>()
    }) by {
        assert(g1.regs[i] == step(ar, lane(gid, bufs, g0, i), s0, g0.regs[i]));
    }
    lemma_apart_quiet(ar, gid, bufs, s1, g1);
    assert forall|i: int| 0 <= i < tg implies {
        let p = #[trigger] step(ar, lane(gid, bufs, g2, i), s2, g2.regs[i]);
        p.u[2] == i && p.f[1] == low && p.f[0] == ar.zero() && quiet(p)
    } by {
        assert(g2.regs[i] == step(ar, lane(gid, bufs, g1, i), s1, g1.regs[i]));
        assert(index(ar, lane(gid, bufs, g2, i), g2.regs[i], lid()) == i);
    }
    lemma_apart_quiet(ar, gid, bufs, s2, g2);
    assert forall|i: int| 0 <= i < tg implies {
        let p = #[trigger] step(ar, lane(gid, bufs, g3, i), s3, g3.regs[i]);
        quiet(p) && holds_best(ar, rank, t, tg as int, i, n as int, p)
    } by {
        let l = lane(gid, bufs, g3, i);
        let r = g3.regs[i];
        assert(r == step(ar, lane(gid, bufs, g2, i), s2, g2.regs[i]));
        lemma_first_turn(ar, t, tg as int, i);
        assert(holds_best(ar, rank, t, tg as int, i, i, r)) by {
            assert forall|j: int| 0 <= j < i && #[trigger] (j % tg as int) == i implies rank(t(j))
                <= rank(r.f[1]) by {
                lemma_first_turn(ar, t, tg as int, j);
            }
        }
        lemma_scan(ar, l, rank, m, cap, dt, w, r);
    }
    lemma_apart_quiet(ar, gid, bufs, s3, g3);
    assert(!meets(s3)) by {
        assert(!waits(scan_body(cap, dt)));
    }
    assert forall|i: int| 0 <= i < tg implies holds_best(
        ar,
        rank,
        t,
        tg as int,
        i,
        n as int,
        #[trigger] g4.regs[i],
    ) by {
        assert(g4.regs[i] == step(ar, lane(gid, bufs, g3, i), s3, g3.regs[i]));
    }
    lemma_best(ar, rank, g4.regs, n as int, g4.regs.len());
    let b = best_of(ar, g4.regs, 1, 0, g4.regs.len());
    // The thread that the first of the largest falls to holds it, so nothing lower is the best.
    let own = k % tg as int;
    assert(0 <= own < tg) by (nonlinear_arith)
        requires
            own == k % tg as int,
            tg > 0,
    ;
    let keeper = g4.regs[own];
    assert(holds_best(ar, rank, t, tg as int, own, n as int, keeper));
    assert(rank(t(k)) <= rank(keeper.f[1]));
    assert(rank(low) < rank(t(k)));
    let j = choose|j: int|
        0 <= j < n && j % tg as int == own && keeper.f[1] == t(j) && keeper.f[0]
            == #[trigger] (ar.of_index)(j) && forall|q: int|
            0 <= q < j && #[trigger] (q % tg as int) == own ==> rank(t(q)) < rank(t(j));
    assert(rank(t(j)) <= rank(t(k)));
    assert(j == k);
    let i = choose|i: int|
        0 <= i < g4.regs.len() && b == ((#[trigger] g4.regs[i]).f[1], g4.regs[i].f[0]);
    let winner = g4.regs[i];
    assert(holds_best(ar, rank, t, tg as int, i, n as int, winner));
    assert(rank(t(k)) <= rank(b.0));
    let q = choose|q: int|
        0 <= q < n && q % tg as int == i && winner.f[1] == t(q) && winner.f[0]
            == #[trigger] (ar.of_index)(q) && forall|p: int|
            0 <= p < q && #[trigger] (p % tg as int) == i ==> rank(t(p)) < rank(t(q));
    assert(rank(t(q)) <= rank(t(k)));
    assert((ar.to_index)(b.1) <= (ar.to_index)(keeper.f[0]));
    assert((ar.to_index)((ar.of_index)(q)) == q && (ar.to_index)((ar.of_index)(k)) == k);
    assert(q == k);
    assert(b.1 == (ar.of_index)(k));
    assert(meets(s4));
    assert(g5 == joint(
        ar,
        gid,
        bufs,
        KirStmt::ThreadgroupArgmax { val_id: 1, idx_id: 0, tg },
        g4,
    ));
    assert forall|x: int| 0 <= x < g5.regs.len() implies quiet(#[trigger] g5.regs[x])
        && g5.regs[x].f[0] == (ar.of_index)(k) by {
        assert(holds_best(ar, rank, t, tg as int, x, n as int, g4.regs[x]));
    }
    assert forall|x: int| 0 <= x < tg implies holds(
        ar,
        #[trigger] lane(gid, bufs, g5, x),
        g5.regs[x],
        equal(lid(), cu(0)),
    ) == (x == 0) by {
        let l = lane(gid, bufs, g5, x);
        assert(index(ar, l, g5.regs[x], lid()) == x);
        assert(index(ar, l, g5.regs[x], cu(0)) == 0);
    }
    let l0 = lane(gid, bufs, g5, 0);
    lemma_run_one(ar, l0, put, g5.regs[0]);
    assert(index(ar, l0, g5.regs[0], cu(0)) == 0);
    assert(value(ar, l0, g5.regs[0], v(0)) == g5.regs[0].f[0]);
    assert forall|x: int| 0 < x < g5.regs.len() implies #[trigger] step(
        ar,
        lane(gid, bufs, g5, x),
        s5,
        g5.regs[x],
    ) == g5.regs[x] by {}
    assert(!meets(s5)) by {
        reveal_with_fuel(block_meets, 2);
        reveal_with_fuel(meets, 2);
    }
    lemma_apart_first(ar, gid, bufs, s5, g5, (1u32, 0int), (ar.of_index)(k));
    assert(g5.stored == Map::<(u32, int), V>::empty());
}

} // verus!
