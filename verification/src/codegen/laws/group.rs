//! How the threads of a group come through statements, loops and writes.

use vstd::prelude::*;

use crate::codegen::laws::machine::{
    apart, collected, device_writes, index, lane, lemma_run_one, only_in, run, step, turns, value,
    Arith, Group, Lane, Regs,
};
use crate::codegen::laws::sums::{lemma_had_all, lemma_other_remainders, lemma_turn, share};
use crate::codegen::lower::block::{accumulate, code, cu, store, uv, v, Extend};
use crate::ir::kernel::{Code, KirExpr};

verus! {

/// Whether a thread has written nothing that its group has not seen.
pub open spec fn quiet<V>(r: Regs<V>) -> bool {
    r.writes == Map::<(u32, int), V>::empty() && r.stored == Map::<(u32, int), V>::empty()
}

pub proof fn lemma_nothing_collected<V>(m: Map<(u32, int), V>, regs: Seq<Regs<V>>, n: nat)
    requires
        n <= regs.len(),
        forall|i: int| 0 <= i < n ==> (#[trigger] regs[i]).writes == Map::<(u32, int), V>::empty(),
    ensures
        collected(m, regs, n) == m,
    decreases n,
{
    if n > 0 {
        lemma_nothing_collected(m, regs, (n - 1) as nat);
        assert(m.union_prefer_right(regs[n - 1].writes) =~= m);
    }
}

pub proof fn lemma_nothing_stored<V>(m: Map<(u32, int), V>, regs: Seq<Regs<V>>, from: nat, n: nat)
    requires
        from <= n <= regs.len(),
        forall|i: int|
            from <= i < n ==> (#[trigger] regs[i]).stored == Map::<(u32, int), V>::empty(),
    ensures
        device_writes(m, regs, n) == device_writes(m, regs, from),
    decreases n,
{
    if n > from {
        lemma_nothing_stored(m, regs, from, (n - 1) as nat);
        let p = device_writes(m, regs, (n - 1) as nat);
        assert(p.union_prefer_right(regs[n - 1].stored) =~= p);
    }
}

/// A statement in which no thread writes outside its registers.
pub proof fn lemma_apart_quiet<V>(
    ar: Arith<V>,
    gid: int,
    bufs: spec_fn(u32, int) -> V,
    c: Code,
    g: Group<V>,
)
    requires
        forall|i: int|
            0 <= i < g.regs.len() ==> quiet(
                #[trigger] step(ar, lane(gid, bufs, g, i), c, g.regs[i]),
            ),
    ensures
        apart(ar, gid, bufs, c, g).shared == g.shared,
        apart(ar, gid, bufs, c, g).stored == g.stored,
        apart(ar, gid, bufs, c, g).regs == Seq::new(
            g.regs.len(),
            |i: int| step(ar, lane(gid, bufs, g, i), c, g.regs[i]),
        ),
{
    let after = Seq::new(g.regs.len(), |i: int| step(ar, lane(gid, bufs, g, i), c, g.regs[i]));
    assert forall|i: int| 0 <= i < after.len() implies quiet(#[trigger] after[i]) by {
        assert(after[i] == step(ar, lane(gid, bufs, g, i), c, g.regs[i]));
    }
    lemma_nothing_collected(g.shared, after, after.len());
    lemma_nothing_stored(g.stored, after, 0, after.len());
    assert(apart(ar, gid, bufs, c, g).regs =~= after) by {
        assert forall|i: int| 0 <= i < after.len() implies #[trigger] apart(
            ar,
            gid,
            bufs,
            c,
            g,
        ).regs[i] == after[i] by {
            assert(quiet(after[i]));
        }
    }
}

/// A statement in which the first thread stores elements and the others store none.
pub proof fn lemma_apart_leader<V>(
    ar: Arith<V>,
    gid: int,
    bufs: spec_fn(u32, int) -> V,
    c: Code,
    g: Group<V>,
    p: Regs<V>,
    m: Map<(u32, int), V>,
)
    requires
        g.regs.len() > 0,
        forall|i: int| 0 <= i < g.regs.len() ==> quiet(#[trigger] g.regs[i]),
        quiet(p),
        step(ar, lane(gid, bufs, g, 0), c, g.regs[0]) == (Regs { stored: m, ..p }),
        forall|i: int|
            0 < i < g.regs.len() ==> #[trigger] step(ar, lane(gid, bufs, g, i), c, g.regs[i])
                == g.regs[i],
    ensures
        apart(ar, gid, bufs, c, g).shared == g.shared,
        apart(ar, gid, bufs, c, g).stored == g.stored.union_prefer_right(m),
        apart(ar, gid, bufs, c, g).regs == g.regs.update(0, p),
{
    let after = Seq::new(g.regs.len(), |i: int| step(ar, lane(gid, bufs, g, i), c, g.regs[i]));
    assert(after[0] == step(ar, lane(gid, bufs, g, 0), c, g.regs[0]));
    assert forall|i: int| 0 < i < after.len() implies #[trigger] after[i] == g.regs[i] by {
        assert(after[i] == step(ar, lane(gid, bufs, g, i), c, g.regs[i]));
    }
    assert forall|i: int| 0 <= i < after.len() implies (#[trigger] after[i]).writes == Map::<
        (u32, int),
        V,
    >::empty() by {
        if i > 0 {
            assert(quiet(g.regs[i]));
        }
    }
    lemma_nothing_collected(g.shared, after, after.len());
    assert forall|i: int| 1 <= i < after.len() implies (#[trigger] after[i]).stored == Map::<
        (u32, int),
        V,
    >::empty() by {
        assert(quiet(g.regs[i]));
    }
    lemma_nothing_stored(g.stored, after, 1, after.len());
    assert(device_writes(g.stored, after, 0) == g.stored);
    assert(apart(ar, gid, bufs, c, g).regs =~= g.regs.update(0, p)) by {
        assert forall|i: int| 0 <= i < after.len() implies #[trigger] apart(
            ar,
            gid,
            bufs,
            c,
            g,
        ).regs[i] == g.regs.update(0, p)[i] by {
            assert(quiet(g.regs[i]));
        }
    }
}

/// A statement in which the first thread stores one element and does nothing else.
pub proof fn lemma_apart_first<V>(
    ar: Arith<V>,
    gid: int,
    bufs: spec_fn(u32, int) -> V,
    c: Code,
    g: Group<V>,
    at: (u32, int),
    x: V,
)
    requires
        g.regs.len() > 0,
        forall|i: int| 0 <= i < g.regs.len() ==> quiet(#[trigger] g.regs[i]),
        step(ar, lane(gid, bufs, g, 0), c, g.regs[0]) == (Regs {
            stored: g.regs[0].stored.insert(at, x),
            ..g.regs[0]
        }),
        forall|i: int|
            0 < i < g.regs.len() ==> #[trigger] step(ar, lane(gid, bufs, g, i), c, g.regs[i])
                == g.regs[i],
    ensures
        apart(ar, gid, bufs, c, g).shared == g.shared,
        apart(ar, gid, bufs, c, g).stored == g.stored.insert(at, x),
        apart(ar, gid, bufs, c, g).regs == g.regs,
{
    assert(quiet(g.regs[0]));
    let m = Map::empty().insert(at, x);
    assert(g.regs[0].stored.insert(at, x) == m);
    lemma_apart_leader(ar, gid, bufs, c, g, g.regs[0], m);
    assert(g.stored.union_prefer_right(m) =~= g.stored.insert(at, x));
    assert(g.regs.update(0, g.regs[0]) =~= g.regs);
}

/// The loop of a thread over every `tg`-th of `n` terms, which adds them to a variable.
pub open spec fn strided(acc: u32, k: u32, n: u32, tg: u32, e: KirExpr) -> Code {
    Code::ForRange {
        id: k,
        limit_off: cu(0),
        bound: cu(n),
        step: cu(tg),
        body: code().s(accumulate(acc, e)),
    }
}

/// A loop over every `tg`-th of `n` terms gives a thread its share.
pub proof fn lemma_strided<V>(
    ar: Arith<V>,
    l: Lane<V>,
    acc: u32,
    k: u32,
    n: u32,
    tg: u32,
    e: KirExpr,
    t: spec_fn(int) -> V,
    r: Regs<V>,
)
    requires
        0 < tg,
        n + tg <= u32::MAX,
        r.f.contains_key(acc),
        r.u.contains_key(k),
        0 <= r.u[k] < n + tg,
        r.u[k] % tg as int == l.lid,
        r.f[acc] == share(ar, t, tg as int, l.lid, r.u[k] as nat),
        forall|f: Map<u32, V>, c: int|
            0 <= c < n ==> #[trigger] value(ar, l, Regs { f, u: r.u.insert(k, c), ..r }, e) == t(c),
    ensures
        ({
            let after = turns(ar, l, strided(acc, k, n, tg, e), r);
            after == (Regs {
                f: r.f.insert(acc, share(ar, t, tg as int, l.lid, n as nat)),
                u: r.u.insert(k, after.u[k]),
                ..r
            })
        }),
    decreases n + tg - r.u[k],
{
    let loop_code = strided(acc, k, n, tg, e);
    let c = r.u[k];
    let after = turns(ar, l, loop_code, r);
    assert(index(ar, l, r, cu(0)) == 0);
    assert(index(ar, l, r, cu(n)) == n);
    if c < n {
        let s = Code::Flat(accumulate(acc, e));
        lemma_run_one(ar, l, s, r);
        let b = run(ar, l, code().push(s), r);
        assert(value(ar, l, r, v(acc)) == r.f[acc]);
        assert(r.u.insert(k, c) =~= r.u);
        assert(r == (Regs { f: r.f, u: r.u.insert(k, c), ..r }));
        assert(value(ar, l, r, e) == t(c));
        let x = ar.sum(r.f[acc], t(c));
        assert(b == (Regs { f: r.f.insert(acc, x), ..r }));
        assert(index(ar, l, b, cu(tg)) == tg);
        let next = Regs { u: b.u.insert(k, c + tg), ..b };
        assert(after == turns(ar, l, loop_code, next));
        lemma_turn(ar, t, tg as int, l.lid, c as nat);
        assert forall|f: Map<u32, V>, d: int| 0 <= d < n implies #[trigger] value(
            ar,
            l,
            Regs { f, u: next.u.insert(k, d), ..next },
            e,
        ) == t(d) by {
            assert(next.u.insert(k, d) =~= r.u.insert(k, d));
            assert(value(ar, l, Regs { f, u: r.u.insert(k, d), ..r }, e) == t(d));
        }
        lemma_strided(ar, l, acc, k, n, tg, e, t, next);
        let s = share(ar, t, tg as int, l.lid, n as nat);
        assert(next.f.insert(acc, s) =~= r.f.insert(acc, s));
        assert(next.u.insert(k, after.u[k]) =~= r.u.insert(k, after.u[k]));
    } else {
        lemma_had_all(ar, t, tg as int, l.lid, n as nat, c as nat);
        assert(r.f.insert(acc, r.f[acc]) =~= r.f);
        assert(r.u.insert(k, r.u[k]) =~= r.u);
    }
}

/// The loop of a thread over every `tg`-th of `n` elements of a device buffer, which stores them.
pub open spec fn putting(buf: u32, k: u32, n: u32, tg: u32, e: KirExpr) -> Code {
    Code::ForRange {
        id: k,
        limit_off: cu(0),
        bound: cu(n),
        step: cu(tg),
        body: code().s(store(buf, uv(k), e)),
    }
}

/// Whether a thread has stored those of the first `m` of `n` elements that fall to it, and nothing
/// but such elements.
pub open spec fn has_put<V>(
    r: Regs<V>,
    buf: u32,
    n: int,
    tg: int,
    lid: int,
    m: int,
    t: spec_fn(int) -> V,
) -> bool {
    &&& r.writes == Map::<(u32, int), V>::empty()
    &&& forall|at: (u32, int)| #[trigger]
        r.stored.contains_key(at) ==> at.0 == buf && 0 <= at.1 < n && r.stored[at] == t(at.1)
    &&& forall|d: int|
        0 <= d < m && d < n && #[trigger] (d % tg) == lid ==> r.stored.contains_key((buf, d))
}

/// A loop that stores every `tg`-th of `n` elements stores those that fall to a thread.
pub proof fn lemma_putting<V>(
    ar: Arith<V>,
    l: Lane<V>,
    buf: u32,
    k: u32,
    n: u32,
    tg: u32,
    e: KirExpr,
    t: spec_fn(int) -> V,
    r: Regs<V>,
)
    requires
        0 < tg,
        n + tg <= u32::MAX,
        r.u.contains_key(k),
        0 <= r.u[k] < n + tg,
        r.u[k] % tg as int == l.lid,
        has_put(r, buf, n as int, tg as int, l.lid, r.u[k], t),
        forall|stored: Map<(u32, int), V>, c: int|
            only_in(stored, buf) && 0 <= c < n ==> #[trigger] value(
                ar,
                l,
                Regs { stored, u: r.u.insert(k, c), ..r },
                e,
            ) == t(c),
    ensures
        has_put(
            turns(ar, l, putting(buf, k, n, tg, e), r),
            buf,
            n as int,
            tg as int,
            l.lid,
            n as int,
            t,
        ),
    decreases n + tg - r.u[k],
{
    let whole = putting(buf, k, n, tg, e);
    let c = r.u[k];
    assert(index(ar, l, r, cu(0)) == 0);
    assert(index(ar, l, r, cu(n)) == n);
    if c < n {
        let s = Code::Flat(store(buf, uv(k), e));
        lemma_run_one(ar, l, s, r);
        let b = run(ar, l, code().push(s), r);
        assert(index(ar, l, r, uv(k)) == c);
        assert(value(ar, l, Regs { stored: r.stored, u: r.u.insert(k, c), ..r }, e) == t(c));
        assert(r.u.insert(k, c) =~= r.u);
        assert(b == (Regs { stored: r.stored.insert((buf, c), t(c)), ..r }));
        assert(index(ar, l, b, cu(tg)) == tg);
        let next = Regs { u: b.u.insert(k, c + tg), ..b };
        assert(turns(ar, l, whole, r) == turns(ar, l, whole, next));
        lemma_other_remainders(c, tg as int, l.lid);
        assert forall|d: int| 0 <= d < c + tg && d < n && #[trigger] (d % tg as int) == l.lid
            implies next.stored.contains_key((buf, d)) by {
            if d < c {
                assert(r.stored.contains_key((buf, d)));
            }
        }
        assert forall|stored: Map<(u32, int), V>, d: int|
            only_in(stored, buf) && 0 <= d < n implies #[trigger] value(
            ar,
            l,
            Regs { stored, u: next.u.insert(k, d), ..next },
            e,
        ) == t(d) by {
            assert(next.u.insert(k, d) =~= r.u.insert(k, d));
            assert(value(ar, l, Regs { stored, u: r.u.insert(k, d), ..r }, e) == t(d));
        }
        lemma_putting(ar, l, buf, k, n, tg, e, t, next);
    }
}

/// What the first `lanes` threads have stored is what fell to them.
proof fn lemma_put_by<V>(
    regs: Seq<Regs<V>>,
    buf: u32,
    n: int,
    t: spec_fn(int) -> V,
    lanes: nat,
    at: (u32, int),
)
    requires
        lanes <= regs.len(),
        forall|i: int|
            0 <= i < lanes ==> has_put(
                #[trigger] regs[i],
                buf,
                n,
                regs.len() as int,
                i,
                n,
                t,
            ),
    ensures
        ({
            let m = device_writes(Map::<(u32, int), V>::empty(), regs, lanes);
            let here = at.0 == buf && 0 <= at.1 < n;
            &&& m.contains_key(at) ==> here && m[at] == t(at.1)
            &&& here && 0 <= (at.1 % regs.len() as int) < lanes ==> m.contains_key(at)
        }),
    decreases lanes,
{
    if lanes > 0 {
        lemma_put_by(regs, buf, n, t, (lanes - 1) as nat, at);
        let last = regs[lanes - 1];
        assert(has_put(last, buf, n, regs.len() as int, lanes - 1, n, t));
        if at.0 == buf && 0 <= at.1 < n && at.1 % regs.len() as int == lanes - 1 {
            assert(last.stored.contains_key((buf, at.1)));
        }
    }
}

/// Where every thread has stored what falls to it, the group has stored everything.
pub proof fn lemma_all_put<V>(regs: Seq<Regs<V>>, buf: u32, n: int, t: spec_fn(int) -> V)
    requires
        regs.len() > 0,
        forall|i: int|
            0 <= i < regs.len() ==> has_put(
                #[trigger] regs[i],
                buf,
                n,
                regs.len() as int,
                i,
                n,
                t,
            ),
    ensures
        device_writes(Map::<(u32, int), V>::empty(), regs, regs.len()) == Map::new(
            |at: (u32, int)| at.0 == buf && 0 <= at.1 < n,
            |at: (u32, int)| t(at.1),
        ),
{
    let m = device_writes(Map::<(u32, int), V>::empty(), regs, regs.len());
    let want = Map::new(
        |at: (u32, int)| at.0 == buf && 0 <= at.1 < n,
        |at: (u32, int)| t(at.1),
    );
    let k = regs.len() as int;
    assert forall|at: (u32, int)| #[trigger] m.contains_key(at) == want.contains_key(at) && (
    m.contains_key(at) ==> m[at] == want[at]) by {
        lemma_put_by(regs, buf, n, t, regs.len(), at);
        assert(0 <= at.1 % k < k) by (nonlinear_arith)
            requires
                k > 0,
        ;
    }
    assert(m =~= want);
}

} // verus!
