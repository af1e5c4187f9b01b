//! What the kernel of two normalisations in a row computes.

use vstd::prelude::*;

use crate::codegen::laws::group::{
    has_put, lemma_apart_quiet, lemma_putting, lemma_strided, putting, quiet, strided,
};
use crate::codegen::laws::machine::{
    apart, collected, device_writes, fresh_group, group_run, index, lane, lemma_group_push,
    lemma_run_one, lemma_run_push, meets, only_in, run, step, turns, value, waits, Arith, Group,
    Lane, Regs,
};
use crate::codegen::laws::norm::inverse_root;
use crate::codegen::laws::solo::lemma_group_cat;
use crate::codegen::laws::sums::{
    lemma_first_turn, lemma_group_total, lemma_other_remainders, series, share,
};
use crate::codegen::lower::block::{
    barrier, c, cn, code, cs, cu, ld, let_f, let_u, lid, over, plus, reduce, store, tg_decl,
    tg_load, tg_store, times, un, uv, v, Extend,
};
use crate::codegen::lower::norm::rmsnorm_twice_code;
use crate::ir::dtype::{DType, Scalar, ZERO};
use crate::ir::kernel::{BinOp, Code, KirExpr, UnaryOp};

verus! {

/// Whether an expression reads term `k` where `k` is the value of a variable below `n`.
pub open spec fn reads<V>(
    ar: Arith<V>,
    bufs: spec_fn(u32, int) -> V,
    shared: Map<(u32, int), V>,
    e: KirExpr,
    k: u32,
    n: int,
    t: spec_fn(int) -> V,
) -> bool {
    forall|l: Lane<V>, q: Regs<V>|
        l.bufs == bufs && l.shared == shared && q.writes == Map::<(u32, int), V>::empty()
            && q.stored == Map::<(u32, int), V>::empty()
                && 0 <= q.u[k] < n ==> #[trigger] value(ar, l, q, e) == t(q.u[k])
}

/// The statements that find the factor of a normalisation: the sum of `e` over a variable, and one
/// over the root of its mean and `eps`.
pub open spec fn factor_code(
    ss: u32,
    k: u32,
    inv: u32,
    e: KirExpr,
    n: usize,
    eps: Scalar,
    tg: u64,
) -> Seq<Code> {
    code().s(let_f(ss, c(ZERO))).s(let_u(k, lid())).push(
        strided(ss, k, n as u32, tg as u32, e),
    ).s(reduce(ss, tg)).s(let_f(inv, un(UnaryOp::Rsqrt, plus(over(v(ss), cn(n)), cs(eps)))))
}

/// One over the root of a mean and `eps`.
pub open spec fn root_of<V>(ar: Arith<V>, total: V, n: usize, eps: Scalar) -> V {
    let mean = (ar.binary)(BinOp::Div, total, (ar.constant)(Scalar::Int(n as u64)));
    (ar.unary)(UnaryOp::Rsqrt, ar.sum(mean, (ar.constant)(eps)))
}

/// Everything but two sums and a variable is as before.
pub open spec fn but_factor<V>(p: Regs<V>, r: Regs<V>, ss: u32, k: u32, inv: u32) -> bool {
    &&& quiet(p)
    &&& forall|j: u32| j != ss && j != inv ==> #[trigger] p.f[j] == r.f[j]
    &&& forall|j: u32| j != k ==> #[trigger] p.u[j] == r.u[j]
}

/// Every thread knows the factor.
pub proof fn lemma_factor<V>(
    ar: Arith<V>,
    gid: int,
    bufs: spec_fn(u32, int) -> V,
    g: Group<V>,
    ss: u32,
    k: u32,
    inv: u32,
    e: KirExpr,
    t: spec_fn(int) -> V,
    n: usize,
    eps: Scalar,
    tg: u64,
)
    requires
        ar.exact(),
        1 <= tg <= 1024,
        g.regs.len() == tg,
        n + tg <= u32::MAX,
        ss != inv,
        reads(ar, bufs, g.shared, e, k, n as int, t),
        forall|i: int| 0 <= i < g.regs.len() ==> quiet(#[trigger] g.regs[i]),
    ensures
        ({
            let p = group_run(ar, gid, bufs, factor_code(ss, k, inv, e, n, eps, tg), g);
            &&& p.shared == g.shared
            &&& p.stored == g.stored
            &&& p.regs.len() == g.regs.len()
            &&& forall|i: int|
                0 <= i < g.regs.len() ==> but_factor(#[trigger] p.regs[i], g.regs[i], ss, k, inv)
                    && p.regs[i].f[inv] == root_of(ar, series(ar, t, n as nat), n, eps)
        }),
{
    let m = n as u32;
    let w = tg as u32;
    let s0 = Code::Flat(let_f(ss, c(ZERO)));
    let s1 = Code::Flat(let_u(k, lid()));
    let s2 = strided(ss, k, m, w, e);
    let s3 = Code::Flat(reduce(ss, tg));
    let root = un(UnaryOp::Rsqrt, plus(over(v(ss), cn(n)), cs(eps)));
    let s4 = Code::Flat(let_f(inv, root));
    let b1 = code().push(s0);
    let b2 = b1.push(s1);
    let b3 = b2.push(s2);
    let b4 = b3.push(s3);
    lemma_group_push(ar, gid, bufs, code(), s0, g);
    lemma_group_push(ar, gid, bufs, b1, s1, g);
    lemma_group_push(ar, gid, bufs, b2, s2, g);
    lemma_group_push(ar, gid, bufs, b3, s3, g);
    lemma_group_push(ar, gid, bufs, b4, s4, g);
    assert(group_run(ar, gid, bufs, code(), g) == g);
    let g1 = group_run(ar, gid, bufs, b1, g);
    let g2 = group_run(ar, gid, bufs, b2, g);
    let g3 = group_run(ar, gid, bufs, b3, g);
    let g4 = group_run(ar, gid, bufs, b4, g);
    let g5 = group_run(ar, gid, bufs, b4.push(s4), g);
    assert forall|i: int| 0 <= i < tg implies #[trigger] step(
        ar,
        lane(gid, bufs, g, i),
        s0,
        g.regs[i],
    ) == (Regs { f: g.regs[i].f.insert(ss, ar.zero()), ..g.regs[i] }) && quiet(g.regs[i]) by {
        assert(value(ar, lane(gid, bufs, g, i), g.regs[i], c(ZERO)) == ar.zero());
    }
    lemma_apart_quiet(ar, gid, bufs, s0, g);
    assert forall|i: int| 0 <= i < tg implies #[trigger] step(
        ar,
        lane(gid, bufs, g1, i),
        s1,
        g1.regs[i],
    ) == (Regs { u: g1.regs[i].u.insert(k, i), ..g1.regs[i] }) && quiet(g1.regs[i]) by {
        assert(g1.regs[i] == step(ar, lane(gid, bufs, g, i), s0, g.regs[i]));
        assert(index(ar, lane(gid, bufs, g1, i), g1.regs[i], lid()) == i);
    }
    lemma_apart_quiet(ar, gid, bufs, s1, g1);
    assert forall|i: int| 0 <= i < tg implies {
        let p = #[trigger] step(ar, lane(gid, bufs, g2, i), s2, g2.regs[i]);
        p == (Regs {
            f: g2.regs[i].f.insert(ss, share(ar, t, tg as int, i, n as nat)),
            u: g2.regs[i].u.insert(k, p.u[k]),
            ..g2.regs[i]
        }) && quiet(g2.regs[i])
    } by {
        let l = lane(gid, bufs, g2, i);
        let r = g2.regs[i];
        assert(g1.regs[i] == step(ar, lane(gid, bufs, g, i), s0, g.regs[i]));
        assert(r == step(ar, lane(gid, bufs, g1, i), s1, g1.regs[i]));
        lemma_first_turn(ar, t, tg as int, i);
        assert forall|f: Map<u32, V>, d: int| 0 <= d < m implies #[trigger] value(
            ar,
            l,
            Regs { f, u: r.u.insert(k, d), ..r },
            e,
        ) == t(d) by {
            let q = Regs { f, u: r.u.insert(k, d), ..r };
            assert(q.u[k] == d);
        }
        lemma_strided(ar, l, ss, k, m, w, e, t, r);
    }
    lemma_apart_quiet(ar, gid, bufs, s2, g2);
    assert(!meets(s2));
    assert forall|i: int| 0 <= i < g3.regs.len() implies (#[trigger] g3.regs[i]).f[ss] == share(
        ar,
        t,
        g3.regs.len() as int,
        i,
        n as nat,
    ) by {
        assert(g3.regs[i] == step(ar, lane(gid, bufs, g2, i), s2, g2.regs[i]));
    }
    lemma_group_total(ar, t, g3.regs, ss, n as nat);
    let total = series(ar, t, n as nat);
    assert forall|i: int| 0 <= i < tg implies (#[trigger] g4.regs[i]).f[ss] == total && but_factor(
        g4.regs[i],
        g.regs[i],
        ss,
        k,
        inv,
    ) by {
        assert(g1.regs[i] == step(ar, lane(gid, bufs, g, i), s0, g.regs[i]));
        assert(g2.regs[i] == step(ar, lane(gid, bufs, g1, i), s1, g1.regs[i]));
        assert(g3.regs[i] == step(ar, lane(gid, bufs, g2, i), s2, g2.regs[i]));
    }
    assert forall|i: int| 0 <= i < tg implies #[trigger] step(
        ar,
        lane(gid, bufs, g4, i),
        s4,
        g4.regs[i],
    ) == (Regs { f: g4.regs[i].f.insert(inv, root_of(ar, total, n, eps)), ..g4.regs[i] }) && quiet(
        g4.regs[i],
    ) by {
        let l = lane(gid, bufs, g4, i);
        let r = g4.regs[i];
        assert(but_factor(r, g.regs[i], ss, k, inv));
        assert(value(ar, l, r, v(ss)) == total);
        assert(value(ar, l, r, cn(n)) == (ar.constant)(Scalar::Int(n as u64)));
        let mean = over(v(ss), cn(n));
        assert(value(ar, l, r, mean) == (ar.binary)(
            BinOp::Div,
            total,
            (ar.constant)(Scalar::Int(n as u64)),
        ));
        assert(value(ar, l, r, cs(eps)) == (ar.constant)(eps));
        assert(value(ar, l, r, plus(mean, cs(eps))) == ar.sum(
            value(ar, l, r, mean),
            (ar.constant)(eps),
        ));
        assert(value(ar, l, r, root) == root_of(ar, total, n, eps));
    }
    lemma_apart_quiet(ar, gid, bufs, s4, g4);
    assert(factor_code(ss, k, inv, e, n, eps, tg) == b4.push(s4));
    assert forall|i: int| 0 <= i < g.regs.len() implies but_factor(
        #[trigger] g5.regs[i],
        g.regs[i],
        ss,
        k,
        inv,
    ) && g5.regs[i].f[inv] == root_of(ar, total, n, eps) by {
        assert(g5.regs[i] == step(ar, lane(gid, bufs, g4, i), s4, g4.regs[i]));
        assert(but_factor(g4.regs[i], g.regs[i], ss, k, inv));
    }
}

/// Whether a thread has put those of the first `m` of `n` elements that fall to it both into array
/// 0 of its group and into a device buffer, and nothing else anywhere.
spec fn has_both<V>(
    r: Regs<V>,
    buf: u32,
    n: int,
    tg: int,
    lid: int,
    m: int,
    t: spec_fn(int) -> V,
) -> bool {
    &&& forall|at: (u32, int)| #[trigger]
        r.stored.contains_key(at) ==> at.0 == buf && 0 <= at.1 < n && r.stored[at] == t(at.1)
    &&& forall|d: int|
        0 <= d < m && d < n && #[trigger] (d % tg) == lid ==> r.stored.contains_key((buf, d))
            && r.writes.contains_key((0u32, d))
    &&& forall|at: (u32, int)| #[trigger]
        r.writes.contains_key(at) ==> at.0 == 0 && 0 <= at.1 < n && r.writes[at] == t(at.1)
}

/// The loop that puts elements into both places.
spec fn both_loop(buf: u32, k: u32, n: u32, tg: u32, e: KirExpr) -> Code {
    Code::ForRange {
        id: k,
        limit_off: cu(0),
        bound: cu(n),
        step: cu(tg),
        body: code().s(tg_store(0, uv(k), e)).s(store(buf, uv(k), e)),
    }
}

/// A loop that puts every `tg`-th of `n` elements into both places puts those that fall to a
/// thread.
proof fn lemma_both<V>(
    ar: Arith<V>,
    l: Lane<V>,
    buf: u32,
    k: u32,
    n: u32,
    tg: u32,
    e: KirExpr,
    t: spec_fn(int) -> V,
    r: Regs<V>,
)
    requires
        0 < tg,
        n + tg <= u32::MAX,
        0 <= r.u[k] < n + tg,
        r.u[k] % tg as int == l.lid,
        has_both(r, buf, n as int, tg as int, l.lid, r.u[k], t),
        forall|q: Regs<V>|
            q.f == r.f && only_in(q.stored, buf) && 0 <= q.u[k] < n ==> #[trigger] value(
                ar,
                l,
                q,
                e,
            ) == t(q.u[k]),
    ensures
        ({
            let p = turns(ar, l, both_loop(buf, k, n, tg, e), r);
            &&& has_both(p, buf, n as int, tg as int, l.lid, n as int, t)
            &&& p.f == r.f
            &&& forall|j: u32| j != k ==> #[trigger] p.u[j] == r.u[j]
        }),
    decreases n + tg - r.u[k],
{
    let whole = both_loop(buf, k, n, tg, e);
    let d = r.u[k];
    assert(index(ar, l, r, cu(0)) == 0);
    assert(index(ar, l, r, cu(n)) == n);
    if d < n {
        let s0 = Code::Flat(tg_store(0, uv(k), e));
        let s1 = Code::Flat(store(buf, uv(k), e));
        lemma_run_one(ar, l, s0, r);
        lemma_run_push(ar, l, code().push(s0), s1, r);
        assert(index(ar, l, r, uv(k)) == d);
        assert(value(ar, l, r, e) == t(d));
        let m = run(ar, l, code().push(s0), r);
        assert(m == (Regs { writes: r.writes.insert((0u32, d), t(d)), ..r }));
        assert(index(ar, l, m, uv(k)) == d);
        assert(value(ar, l, m, e) == t(d));
        let b = run(ar, l, code().push(s0).push(s1), r);
        assert(b == (Regs { stored: m.stored.insert((buf, d), t(d)), ..m }));
        assert(index(ar, l, b, cu(tg)) == tg);
        let next = Regs { u: b.u.insert(k, d + tg), ..b };
        assert(turns(ar, l, whole, r) == turns(ar, l, whole, next));
        lemma_other_remainders(d, tg as int, l.lid);
        assert forall|x: int| 0 <= x < d + tg && x < n && #[trigger] (x % tg as int) == l.lid
            implies next.stored.contains_key((buf, x)) && next.writes.contains_key((0u32, x)) by {
            if x < d {
                assert(r.stored.contains_key((buf, x)));
            }
        }
        lemma_both(ar, l, buf, k, n, tg, e, t, next);
    } else {
        assert(turns(ar, l, whole, r) == r);
    }
}

/// What the first `lanes` threads have put into the array of their group.
proof fn lemma_both_shared<V>(
    m: Map<(u32, int), V>,
    regs: Seq<Regs<V>>,
    buf: u32,
    n: int,
    t: spec_fn(int) -> V,
    lanes: nat,
    d: int,
)
    requires
        lanes <= regs.len(),
        0 <= d < n,
        forall|i: int|
            0 <= i < lanes ==> has_both(
                #[trigger] regs[i],
                buf,
                n,
                regs.len() as int,
                i,
                n,
                t,
            ),
    ensures
        0 <= (d % regs.len() as int) < lanes ==> collected(m, regs, lanes)[(0u32, d)] == t(d)
            && collected(m, regs, lanes).contains_key((0u32, d)),
    decreases lanes,
{
    if lanes > 0 {
        lemma_both_shared(m, regs, buf, n, t, (lanes - 1) as nat, d);
        let last = regs[lanes - 1];
        assert(has_both(last, buf, n, regs.len() as int, lanes - 1, n, t));
        if d % regs.len() as int == lanes - 1 {
            assert(last.writes.contains_key((0u32, d)));
        }
    }
}

/// What the first `lanes` threads have put into the device buffer.
proof fn lemma_both_stored<V>(
    regs: Seq<Regs<V>>,
    buf: u32,
    n: int,
    t: spec_fn(int) -> V,
    lanes: nat,
    at: (u32, int),
)
    requires
        lanes <= regs.len(),
        forall|i: int|
            0 <= i < lanes ==> has_both(
                #[trigger] regs[i],
                buf,
                n,
                regs.len() as int,
                i,
                n,
                t,
            ),
    ensures
        ({
            let m = device_writes(Map::<(u32, int), V>::empty(), regs, lanes);
            let here = at.0 == buf && 0 <= at.1 < n;
            &&& m.contains_key(at) ==> here && m[at] == t(at.1)
            &&& here && 0 <= (at.1 % regs.len() as int) < lanes ==> m.contains_key(at)
        }),
    decreases lanes,
{
    if lanes > 0 {
        lemma_both_stored(regs, buf, n, t, (lanes - 1) as nat, at);
        let last = regs[lanes - 1];
        assert(has_both(last, buf, n, regs.len() as int, lanes - 1, n, t));
        if at.0 == buf && 0 <= at.1 < n && at.1 % regs.len() as int == lanes - 1 {
            assert(last.stored.contains_key((buf, at.1)));
        }
    }
}

/// Elements 0 to `n` of a device buffer.
pub open spec fn filled<V>(buf: u32, n: int, t: spec_fn(int) -> V) -> Map<(u32, int), V> {
    Map::new(|at: (u32, int)| at.0 == buf && 0 <= at.1 < n, |at: (u32, int)| t(at.1))
}

/// What the first `lanes` threads have stored, on top of what was there.
proof fn lemma_on_top<V>(
    m: Map<(u32, int), V>,
    regs: Seq<Regs<V>>,
    buf: u32,
    n: int,
    t: spec_fn(int) -> V,
    lanes: nat,
    at: (u32, int),
)
    requires
        lanes <= regs.len(),
        forall|k: (u32, int)| #[trigger] m.contains_key(k) ==> k.0 != buf,
        forall|i: int|
            0 <= i < lanes ==> has_put(
                #[trigger] regs[i],
                buf,
                n,
                regs.len() as int,
                i,
                n,
                t,
            ),
    ensures
        ({
            let s = device_writes(m, regs, lanes);
            let here = at.0 == buf && 0 <= at.1 < n;
            &&& at.0 == buf && s.contains_key(at) ==> here && s[at] == t(at.1)
            &&& here && 0 <= (at.1 % regs.len() as int) < lanes ==> s.contains_key(at)
            &&& at.0 != buf ==> s.contains_key(at) == m.contains_key(at)
            &&& at.0 != buf && m.contains_key(at) ==> s[at] == m[at]
        }),
    decreases lanes,
{
    if lanes > 0 {
        lemma_on_top(m, regs, buf, n, t, (lanes - 1) as nat, at);
        let last = regs[lanes - 1];
        assert(has_put(last, buf, n, regs.len() as int, lanes - 1, n, t));
        if at.0 == buf && 0 <= at.1 < n && at.1 % regs.len() as int == lanes - 1 {
            assert(last.stored.contains_key((buf, at.1)));
        }
    }
}

/// The residual stream: the residual and the normalised, weighted branch.
pub open spec fn stream<V>(
    ar: Arith<V>,
    bufs: spec_fn(u32, int) -> V,
    n: usize,
    eps: Scalar,
) -> spec_fn(int) -> V {
    |i: int|
        ar.sum(
            bufs(2, i),
            ar.product(
                ar.product(bufs(0, i), inverse_root(ar, |k: int| bufs(0, k), n, eps)),
                bufs(1, i),
            ),
        )
}

/// The residual stream, normalised and weighted again.
pub open spec fn renormed<V>(
    ar: Arith<V>,
    bufs: spec_fn(u32, int) -> V,
    n: usize,
    eps: Scalar,
) -> spec_fn(int) -> V {
    let x = stream(ar, bufs, n, eps);
    |i: int| ar.product(ar.product(x(i), inverse_root(ar, x, n, eps)), bufs(3, i))
}

/// A group that has found the factor of the branch and put the residual stream into both places.
proof fn lemma_stream<V>(
    ar: Arith<V>,
    gid: int,
    bufs: spec_fn(u32, int) -> V,
    g: Group<V>,
    n: usize,
    eps: Scalar,
    dt: DType,
    tg: u64,
)
    requires
        ar.exact(),
        1 <= tg <= 1024,
        g.regs.len() == tg,
        n + tg <= u32::MAX,
        g.stored == Map::<(u32, int), V>::empty(),
        forall|i: int| 0 <= i < g.regs.len() ==> quiet(#[trigger] g.regs[i]),
    ensures
        ({
            let x = stream(ar, bufs, n, eps);
            let e = times(ld(0, uv(1), dt), ld(0, uv(1), dt));
            let y = plus(ld(2, uv(3), dt), times(times(ld(0, uv(3), dt), v(2)), ld(1, uv(3), dt)));
            let b = factor_code(0, 1, 2, e, n, eps, tg).s(let_u(3, lid())).push(
                both_loop(4, 3, n as u32, tg as u32, y),
            );
            let p = group_run(ar, gid, bufs, b, g);
            &&& p.regs.len() == tg
            &&& p.stored == filled(4, n as int, x)
            &&& forall|i: int| 0 <= i < p.regs.len() ==> quiet(#[trigger] p.regs[i])
            &&& forall|d: int|
                0 <= d < n ==> #[trigger] p.shared[(0u32, d)] == x(d) && p.shared.contains_key(
                    (0u32, d),
                )
        }),
{
    let m = n as u32;
    let w = tg as u32;
    let x = stream(ar, bufs, n, eps);
    let src = |k: int| bufs(0, k);
    let sq = |k: int| ar.product(bufs(0, k), bufs(0, k));
    let e = times(ld(0, uv(1), dt), ld(0, uv(1), dt));
    let branch = times(times(ld(0, uv(3), dt), v(2)), ld(1, uv(3), dt));
    let y = plus(ld(2, uv(3), dt), branch);
    assert(reads(ar, bufs, g.shared, e, 1, n as int, sq)) by {
        assert forall|l: Lane<V>, q: Regs<V>|
            l.bufs == bufs && l.shared == g.shared && q.writes == Map::<(u32, int), V>::empty()
                && q.stored == Map::<(u32, int), V>::empty()
                    && 0 <= q.u[1] < n implies #[trigger] value(ar, l, q, e) == sq(q.u[1]) by {
            assert(index(ar, l, q, uv(1)) == q.u[1]);
            assert(value(ar, l, q, ld(0, uv(1), dt)) == bufs(0, q.u[1]));
        }
    }
    lemma_factor(ar, gid, bufs, g, 0, 1, 2, e, sq, n, eps, tg);
    let b = factor_code(0, 1, 2, e, n, eps, tg);
    let s0 = Code::Flat(let_u(3, lid()));
    let s1 = both_loop(4, 3, m, w, y);
    lemma_group_push(ar, gid, bufs, b, s0, g);
    lemma_group_push(ar, gid, bufs, b.push(s0), s1, g);
    let g1 = group_run(ar, gid, bufs, b, g);
    let g2 = group_run(ar, gid, bufs, b.push(s0), g);
    let g3 = group_run(ar, gid, bufs, b.push(s0).push(s1), g);
    let factor = inverse_root(ar, src, n, eps);
    assert((|k: int| ar.product(src(k), src(k))) =~= sq);
    assert(factor == root_of(ar, series(ar, sq, n as nat), n, eps));
    assert forall|i: int| 0 <= i < tg implies #[trigger] step(
        ar,
        lane(gid, bufs, g1, i),
        s0,
        g1.regs[i],
    ) == (Regs { u: g1.regs[i].u.insert(3, i), ..g1.regs[i] }) && quiet(g1.regs[i]) by {
        assert(but_factor(g1.regs[i], g.regs[i], 0, 1, 2));
        assert(index(ar, lane(gid, bufs, g1, i), g1.regs[i], lid()) == i);
    }
    lemma_apart_quiet(ar, gid, bufs, s0, g1);
    let after = Seq::new(g2.regs.len(), |i: int| step(ar, lane(gid, bufs, g2, i), s1, g2.regs[i]));
    assert forall|i: int| 0 <= i < after.len() implies has_both(
        #[trigger] after[i],
        4,
        n as int,
        after.len() as int,
        i,
        n as int,
        x,
    ) by {
        let l = lane(gid, bufs, g2, i);
        let r = g2.regs[i];
        assert(r == step(ar, lane(gid, bufs, g1, i), s0, g1.regs[i]));
        assert(but_factor(g1.regs[i], g.regs[i], 0, 1, 2));
        assert(r.f[2] == factor);
        lemma_first_turn(ar, sq, tg as int, i);
        assert forall|d: int| 0 <= d < i && d < n && #[trigger] (d % tg as int) == i implies r
            .stored.contains_key((4u32, d)) && r.writes.contains_key((0u32, d)) by {
            lemma_first_turn(ar, sq, tg as int, d);
        }
        assert forall|q: Regs<V>|
            q.f == r.f && only_in(q.stored, 4) && 0 <= q.u[3] < m implies #[trigger] value(
            ar,
            l,
            q,
            y,
        ) == x(q.u[3]) by {
            let d = q.u[3];
            assert(index(ar, l, q, uv(3)) == d);
            assert(value(ar, l, q, ld(0, uv(3), dt)) == bufs(0, d));
            assert(value(ar, l, q, ld(1, uv(3), dt)) == bufs(1, d));
            assert(value(ar, l, q, ld(2, uv(3), dt)) == bufs(2, d));
            assert(value(ar, l, q, v(2)) == factor);
            let inner = times(ld(0, uv(3), dt), v(2));
            assert(value(ar, l, q, inner) == ar.product(bufs(0, d), factor));
            assert(value(ar, l, q, branch) == ar.product(
                ar.product(bufs(0, d), factor),
                bufs(1, d),
            ));
            assert(value(ar, l, q, y) == ar.sum(bufs(2, d), value(ar, l, q, branch)));
        }
        lemma_both(ar, l, 4, 3, m, w, y, x, r);
    }
    assert(!meets(s1)) by {
        let body = code().s(tg_store(0, uv(3), y)).s(store(4, uv(3), y));
        assert(!waits(body));
    }
    assert(g3 == apart(ar, gid, bufs, s1, g2));
    let k = after.len() as int;
    assert forall|d: int| 0 <= d < n implies #[trigger] g3.shared[(0u32, d)] == x(d)
        && g3.shared.contains_key((0u32, d)) by {
        assert(0 <= d % k < k) by (nonlinear_arith)
            requires
                k > 0,
        ;
        lemma_both_shared(g2.shared, after, 4, n as int, x, after.len(), d);
    }
    assert forall|at: (u32, int)| #[trigger] g3.stored.contains_key(at) == filled(
        4,
        n as int,
        x,
    ).contains_key(at) && (g3.stored.contains_key(at) ==> g3.stored[at] == filled(4, n as int, x)[
        at
    ]) by {
        assert(0 <= at.1 % k < k) by (nonlinear_arith)
            requires
                k > 0,
        ;
        lemma_both_stored(after, 4, n as int, x, after.len(), at);
    }
    assert(g3.stored =~= filled(4, n as int, x));
}

/// The kernel of two normalisations in a row computes both, whatever the number of its threads,
/// where sums may be taken in any order: it stores the residual stream, `residual + y * rsqrt(
/// mean(y^2) + eps) * w_post`, into its first output, the same normalised again and weighted by
/// `w_ffn` into its second, and nothing else.
pub proof fn lemma_twice<V>(
    ar: Arith<V>,
    gid: int,
    bufs: spec_fn(u32, int) -> V,
    n: usize,
    eps: Scalar,
    dt: DType,
    tg: u64,
)
    requires
        ar.exact(),
        1 <= tg <= 1024,
        n + tg <= u32::MAX,
    ensures
        group_run(
            ar,
            gid,
            bufs,
            rmsnorm_twice_code(n, eps, dt, tg, 0),
            fresh_group(tg as nat),
        ).stored == filled(4, n as int, stream(ar, bufs, n, eps)).union_prefer_right(
            filled(5, n as int, renormed(ar, bufs, n, eps)),
        ),
{
    reveal(rmsnorm_twice_code);
    let m = n as u32;
    let w = tg as u32;
    let x = stream(ar, bufs, n, eps);
    let z = renormed(ar, bufs, n, eps);
    let e = times(ld(0, uv(1), dt), ld(0, uv(1), dt));
    let y = plus(ld(2, uv(3), dt), times(times(ld(0, uv(3), dt), v(2)), ld(1, uv(3), dt)));
    let e2 = times(tg_load(0, uv(5)), tg_load(0, uv(5)));
    let y2 = times(times(tg_load(0, uv(7)), v(6)), ld(3, uv(7), dt));
    let g0 = fresh_group::<V>(tg as nat);
    let s0 = Code::Flat(tg_decl(0, n));
    let first = factor_code(0, 1, 2, e, n, eps, tg).s(let_u(3, lid())).push(
        both_loop(4, 3, m, w, y),
    );
    let wait = Code::Flat(barrier());
    let second = factor_code(4, 5, 6, e2, n, eps, tg);
    let s1 = Code::Flat(let_u(7, lid()));
    let s2 = putting(5, 7, m, w, y2);
    let b0 = code().push(s0);
    let b1 = b0 + first;
    let b2 = b1.push(wait);
    let b3 = b2 + second;
    assert(rmsnorm_twice_code(n, eps, dt, tg, 0) =~= b3.push(s1).push(s2));
    lemma_group_push(ar, gid, bufs, code(), s0, g0);
    assert(group_run(ar, gid, bufs, code(), g0) == g0);
    let ga = group_run(ar, gid, bufs, b0, g0);
    assert forall|i: int| 0 <= i < tg implies #[trigger] step(
        ar,
        lane(gid, bufs, g0, i),
        s0,
        g0.regs[i],
    ) == g0.regs[i] && quiet(g0.regs[i]) by {}
    lemma_apart_quiet(ar, gid, bufs, s0, g0);
    assert forall|i: int| 0 <= i < ga.regs.len() implies quiet(#[trigger] ga.regs[i]) by {
        assert(ga.regs[i] == step(ar, lane(gid, bufs, g0, i), s0, g0.regs[i]));
    }
    lemma_group_cat(ar, gid, bufs, b0, first, first.len(), g0);
    lemma_stream(ar, gid, bufs, ga, n, eps, dt, tg);
    let gb = group_run(ar, gid, bufs, b1, g0);
    assert(gb == group_run(ar, gid, bufs, first, ga));
    lemma_group_push(ar, gid, bufs, b1, wait, g0);
    assert(meets(wait));
    assert(group_run(ar, gid, bufs, b2, g0) == gb);
    lemma_group_cat(ar, gid, bufs, b2, second, second.len(), g0);
    let sq = |k: int| ar.product(x(k), x(k));
    assert(reads(ar, bufs, gb.shared, e2, 5, n as int, sq)) by {
        assert forall|l: Lane<V>, q: Regs<V>|
            l.bufs == bufs && l.shared == gb.shared && q.writes == Map::<(u32, int), V>::empty()
                && q.stored == Map::<(u32, int), V>::empty()
                    && 0 <= q.u[5] < n implies #[trigger] value(ar, l, q, e2) == sq(q.u[5]) by {
            assert(index(ar, l, q, uv(5)) == q.u[5]);
            assert(gb.shared[(0u32, q.u[5])] == x(q.u[5]));
            assert(value(ar, l, q, tg_load(0, uv(5))) == x(q.u[5]));
        }
    }
    lemma_factor(ar, gid, bufs, gb, 4, 5, 6, e2, sq, n, eps, tg);
    let gc = group_run(ar, gid, bufs, b3, g0);
    assert(gc == group_run(ar, gid, bufs, second, gb));
    let factor = inverse_root(ar, x, n, eps);
    assert(factor == root_of(ar, series(ar, sq, n as nat), n, eps));
    lemma_group_push(ar, gid, bufs, b3, s1, g0);
    lemma_group_push(ar, gid, bufs, b3.push(s1), s2, g0);
    let gd = group_run(ar, gid, bufs, b3.push(s1), g0);
    let ge = group_run(ar, gid, bufs, b3.push(s1).push(s2), g0);
    assert forall|i: int| 0 <= i < tg implies #[trigger] step(
        ar,
        lane(gid, bufs, gc, i),
        s1,
        gc.regs[i],
    ) == (Regs { u: gc.regs[i].u.insert(7, i), ..gc.regs[i] }) && quiet(gc.regs[i]) by {
        assert(but_factor(gc.regs[i], gb.regs[i], 4, 5, 6));
        assert(index(ar, lane(gid, bufs, gc, i), gc.regs[i], lid()) == i);
    }
    lemma_apart_quiet(ar, gid, bufs, s1, gc);
    let after = Seq::new(gd.regs.len(), |i: int| step(ar, lane(gid, bufs, gd, i), s2, gd.regs[i]));
    assert forall|i: int| 0 <= i < after.len() implies has_put(
        #[trigger] after[i],
        5,
        n as int,
        after.len() as int,
        i,
        n as int,
        z,
    ) by {
        let l = lane(gid, bufs, gd, i);
        let r = gd.regs[i];
        assert(r == step(ar, lane(gid, bufs, gc, i), s1, gc.regs[i]));
        assert(but_factor(gc.regs[i], gb.regs[i], 4, 5, 6));
        assert(r.f[6] == factor);
        lemma_first_turn(ar, sq, tg as int, i);
        assert forall|d: int| 0 <= d < i && d < n && #[trigger] (d % tg as int) == i implies r
            .stored.contains_key((5u32, d)) by {
            lemma_first_turn(ar, sq, tg as int, d);
        }
        assert forall|stored: Map<(u32, int), V>, d: int|
            only_in(stored, 5) && 0 <= d < m implies #[trigger] value(
            ar,
            l,
            Regs { stored, u: r.u.insert(7, d), ..r },
            y2,
        ) == z(d) by {
            let q = Regs { stored, u: r.u.insert(7, d), ..r };
            assert(index(ar, l, q, uv(7)) == d);
            assert(gb.shared[(0u32, d)] == x(d));
            assert(value(ar, l, q, tg_load(0, uv(7))) == x(d));
            assert(value(ar, l, q, v(6)) == factor);
            let inner = times(tg_load(0, uv(7)), v(6));
            assert(value(ar, l, q, inner) == ar.product(x(d), factor));
            assert(value(ar, l, q, ld(3, uv(7), dt)) == bufs(3, d));
            assert(value(ar, l, q, y2) == ar.product(ar.product(x(d), factor), bufs(3, d)));
        }
        lemma_putting(ar, l, 5, 7, m, w, y2, z, r);
    }
    assert(ge == apart(ar, gid, bufs, s2, gd));
    let base = filled(4, n as int, x);
    assert(gd.stored == base);
    let want = base.union_prefer_right(filled(5, n as int, z));
    let k = after.len() as int;
    assert forall|at: (u32, int)| #[trigger] ge.stored.contains_key(at) == want.contains_key(at)
        && (ge.stored.contains_key(at) ==> ge.stored[at] == want[at]) by {
        assert(0 <= at.1 % k < k) by (nonlinear_arith)
            requires
                k > 0,
        ;
        lemma_on_top(base, after, 5, n as int, z, after.len(), at);
    }
    assert(ge.stored =~= want);
}

} // verus!
