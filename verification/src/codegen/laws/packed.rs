//! What the kernels that pack their output compute.

use vstd::prelude::*;

use crate::codegen::laws::machine::{
    blank, counted, device_at, index, lemma_run_one, lemma_run_push, pack, row, run, value, Arith,
    Lane, Regs,
};
use crate::codegen::laws::per_head::{
    counts, head_factor_code, lemma_head_factor, lemma_normed_expr, lemma_pair, lemma_run_cat,
    normed_expr, own_head, rotated,
};
use crate::codegen::lower::block::{
    code, cu, fv, gid, ld, let_f, minus, plus, th_decl, th_load, th_store, times, v, Extend,
};
use crate::codegen::lower::elem::quantize_code;
use crate::codegen::lower::norm::{
    pack_thread_code, rmsnorm_q40_code, rmsnorm_rope_q40_code, rmsnorm_to_thread_code,
    rope_on_thread_code,
};
use crate::ir::dtype::{DType, Scalar};
use crate::ir::kernel::{Code, KirExpr, KirStmt};

verus! {

/// The kernel that packs a vector packs block `gid` of it and stores nothing else.
pub proof fn lemma_quantize<V>(ar: Arith<V>, l: Lane<V>, n_in: u32)
    requires
        0 <= l.gid,
        32 * (l.gid + 1) <= u32::MAX,
    ensures
        run(ar, l, quantize_code(n_in), blank()).stored == pack(
            ar,
            n_in,
            32 * l.gid,
            Seq::new(32, |i: int| (l.bufs)(0, 32 * l.gid + i)),
        ),
{
    let r = blank::<V>();
    let b = quantize_code(n_in);
    lemma_run_one(ar, l, b[0], r);
    assert(index(ar, l, r, gid()) == l.gid);
    assert(index(ar, l, r, cu(32)) == 32);
    assert(index(ar, l, r, times(gid(), cu(32))) == 32 * l.gid);
    let t = Seq::new(32, |i: int| (l.bufs)(0, 32 * l.gid + i));
    let p = run(ar, l, b, r);
    assert(p.stored =~= pack(ar, n_in, 32 * l.gid, t)) by {
        let u = Seq::new(
            32,
            |i: int| device_at(l, r, 0, 32 * l.gid + i),
        );
        assert(u =~= t);
    }
}

/// A head that is packed, 32 elements together.
pub open spec fn head_packed<V>(ar: Arith<V>, y: spec_fn(int) -> V) -> spec_fn(int) -> V {
    |i: int| (ar.packed)(Seq::new(32, |k: int| y(i / 32 * 32 + k)), i % 32)
}

/// A loop that keeps `e` in an array of the thread.
proof fn lemma_keeping<V>(
    ar: Arith<V>,
    l: Lane<V>,
    th: u32,
    id: u32,
    n: usize,
    e: KirExpr,
    t: spec_fn(int) -> V,
    r: Regs<V>,
    k: nat,
)
    requires
        k <= n,
        forall|q: Regs<V>|
            q.f == r.f && q.stored == r.stored && 0 <= q.u[id] < n ==> #[trigger] value(ar, l, q, e)
                == t(q.u[id]),
    ensures
        ({
            let p = counted(
                ar,
                l,
                Code::For { id, n, body: code().s(th_store(th, fv(id), e)) },
                k,
                r,
            );
            &&& p.f == r.f
            &&& p.writes == r.writes
            &&& p.stored == r.stored
            &&& p.local == r.local.union_prefer_right(row(th, 0, k as int, t))
        }),
    decreases k,
{
    let whole = Code::For { id, n, body: code().s(th_store(th, fv(id), e)) };
    if k == 0 {
        assert(r.local =~= r.local.union_prefer_right(row(th, 0, 0, t)));
    } else {
        lemma_keeping(ar, l, th, id, n, e, t, r, (k - 1) as nat);
        let p = counted(ar, l, whole, (k - 1) as nat, r);
        let q = Regs { u: p.u.insert(id, k - 1), ..p };
        let s = Code::Flat(th_store(th, fv(id), e));
        lemma_run_one(ar, l, s, q);
        assert(index(ar, l, q, fv(id)) == k - 1);
        assert(value(ar, l, q, e) == t(k - 1));
        let after = run(ar, l, code().push(s), q);
        assert(after == counted(ar, l, whole, k, r));
        assert(after.local =~= r.local.union_prefer_right(row(th, 0, k as int, t)));
    }
}

/// A thread that has normalised its head into an array of its own.
proof fn lemma_norm_kept<V>(
    ar: Arith<V>,
    l: Lane<V>,
    hd: usize,
    eps: Scalar,
    with_weight: bool,
    th: u32,
    dt: DType,
    n0: u32,
    r: Regs<V>,
)
    requires
        0 <= l.gid,
        hd <= u32::MAX,
        n0 + 5 <= u32::MAX,
        counts(ar, (l.gid + 1) * hd + 1),
        r.stored == Map::<(u32, int), V>::empty(),
    ensures
        ({
            let p = run(
                ar,
                l,
                rmsnorm_to_thread_code(hd, eps, with_weight, 0, 1, th, dt, n0),
                r,
            );
            &&& p.stored == r.stored
            &&& p.local == r.local.union_prefer_right(
                row(th, 0, hd as int, own_head(ar, l, hd, eps, with_weight, 0, 1)),
            )
        }),
{
    reveal(rmsnorm_to_thread_code);
    let j = (n0 + 4) as u32;
    let t = own_head(ar, l, hd, eps, with_weight, 0, 1);
    let val = normed_expr(with_weight, 0, 1, dt, n0);
    let b = head_factor_code(hd, eps, 0, dt, n0);
    let s = Code::For { id: j, n: hd, body: code().s(th_store(th, fv(j), val)) };
    lemma_head_factor(ar, l, hd, eps, 0, dt, n0, r);
    lemma_run_push(ar, l, b, s, r);
    let m = run(ar, l, b, r);
    assert forall|q: Regs<V>|
        q.f == m.f && q.stored == m.stored && 0 <= q.u[j] < hd implies #[trigger] value(
        ar,
        l,
        q,
        val,
    ) == t(q.u[j]) by {
        lemma_normed_expr(ar, l, hd, eps, with_weight, 0, 1, 2, dt, n0, q);
    }
    lemma_keeping(ar, l, th, j, hd, val, t, m, hd as nat);
    let p = run(ar, l, b.push(s), r);
    assert(p == counted(ar, l, s, hd as nat, m));
    assert(b.push(s) =~= rmsnorm_to_thread_code(hd, eps, with_weight, 0, 1, th, dt, n0));
}

/// The loop that packs an array of the thread.
proof fn lemma_packing<V>(
    ar: Arith<V>,
    l: Lane<V>,
    hd: usize,
    th: u32,
    dst: u32,
    n0: u32,
    y: spec_fn(int) -> V,
    r: Regs<V>,
    k: nat,
)
    requires
        0 <= l.gid,
        hd % 32 == 0,
        (l.gid + 1) * hd <= u32::MAX,
        k <= hd / 32,
        forall|i: int| 0 <= i < hd ==> #[trigger] r.local[(th, i)] == y(i),
    ensures
        ({
            let body = code().s(
                KirStmt::Q40PackFromThread {
                    dst_buf: dst,
                    block: plus(times(gid(), cu((hd / 32) as u32)), fv(n0)),
                    th_id: th,
                    th_off: times(fv(n0), cu(32)),
                },
            );
            let p = counted(ar, l, Code::For { id: n0, n: hd / 32, body }, k, r);
            &&& p.local == r.local
            &&& p.stored == r.stored.union_prefer_right(
                row(dst, l.gid * hd, 32 * k as int, head_packed(ar, y)),
            )
        }),
    decreases k,
{
    let m = (hd / 32) as u32;
    let s = KirStmt::Q40PackFromThread {
        dst_buf: dst,
        block: plus(times(gid(), cu(m)), fv(n0)),
        th_id: th,
        th_off: times(fv(n0), cu(32)),
    };
    let whole = Code::For { id: n0, n: hd / 32, body: code().s(s) };
    if k == 0 {
        assert(r.stored =~= r.stored.union_prefer_right(
            row(dst, l.gid * hd, 0, head_packed(ar, y)),
        ));
    } else {
        let j = k - 1;
        lemma_packing(ar, l, hd, th, dst, n0, y, r, j as nat);
        let p = counted(ar, l, whole, j as nat, r);
        let q = Regs { u: p.u.insert(n0, j), ..p };
        lemma_run_one(ar, l, Code::Flat(s), q);
        assert(hd <= (l.gid + 1) * hd) by (nonlinear_arith)
            requires
                0 <= l.gid,
        ;
        assert(0 <= l.gid * m && l.gid * m + m <= u32::MAX && 32 * (l.gid * m) == l.gid * hd)
            by (nonlinear_arith)
            requires
                0 <= l.gid,
                32 * m == hd,
                (l.gid + 1) * hd <= u32::MAX,
        ;
        assert(index(ar, l, q, gid()) == l.gid);
        assert(index(ar, l, q, cu(m)) == m);
        assert(index(ar, l, q, times(gid(), cu(m))) == l.gid * m);
        assert(index(ar, l, q, fv(n0)) == j);
        assert(index(ar, l, q, plus(times(gid(), cu(m)), fv(n0))) == l.gid * m + j);
        assert(index(ar, l, q, cu(32)) == 32);
        assert(index(ar, l, q, times(fv(n0), cu(32))) == 32 * j);
        let from = 32 * j;
        let t = Seq::new(32, |i: int| q.local[(th, from + i)]);
        let u = Seq::new(32, |i: int| y(from + i));
        assert(t =~= u) by {
            assert forall|i: int| 0 <= i < 32 implies #[trigger] t[i] == u[i] by {
                assert(r.local[(th, from + i)] == y(from + i));
            }
        }
        let after = run(ar, l, code().push(Code::Flat(s)), q);
        assert(after == counted(ar, l, whole, k, r));
        let at = l.gid * hd;
        assert(after.stored == q.stored.union_prefer_right(pack(ar, dst, at + from, t)));
        let f = head_packed(ar, y);
        assert forall|i: int| from <= i < from + 32 implies #[trigger] f(i) == (ar.packed)(
            t,
            i - from,
        ) by {
            assert(i / 32 * 32 == from && i % 32 == i - from);
            assert(Seq::new(32, |k: int| y(i / 32 * 32 + k)) =~= u);
        }
        assert(after.stored =~= r.stored.union_prefer_right(row(dst, at, 32 * k as int, f)));
    }
}

/// The statements that pack a head that a thread holds.
proof fn lemma_pack_thread<V>(
    ar: Arith<V>,
    l: Lane<V>,
    hd: usize,
    th: u32,
    dst: u32,
    n0: u32,
    y: spec_fn(int) -> V,
    r: Regs<V>,
)
    requires
        0 <= l.gid,
        hd % 32 == 0,
        (l.gid + 1) * hd <= u32::MAX,
        r.stored == Map::<(u32, int), V>::empty(),
        forall|i: int| 0 <= i < hd ==> #[trigger] r.local[(th, i)] == y(i),
    ensures
        run(ar, l, pack_thread_code(hd, th, dst, n0), r).stored == row(
            dst,
            l.gid * hd,
            hd as int,
            head_packed(ar, y),
        ),
{
    reveal(pack_thread_code);
    let n = hd / 32;
    let s = KirStmt::Q40PackFromThread {
        dst_buf: dst,
        block: plus(times(gid(), cu(n as u32)), fv(n0)),
        th_id: th,
        th_off: times(fv(n0), cu(32)),
    };
    let whole = Code::For { id: n0, n, body: code().s(s) };
    lemma_packing(ar, l, hd, th, dst, n0, y, r, n as nat);
    lemma_run_one(ar, l, whole, r);
    assert(pack_thread_code(hd, th, dst, n0) =~= code().push(whole));
    assert(32 * n == hd);
    assert(run(ar, l, pack_thread_code(hd, th, dst, n0), r).stored =~= row(
        dst,
        l.gid * hd,
        hd as int,
        head_packed(ar, y),
    ));
}

/// The kernel that normalises heads into packed blocks stores, for head `gid`, that head
/// normalised and packed, and nothing else.
pub proof fn lemma_rmsnorm_q40<V>(
    ar: Arith<V>,
    l: Lane<V>,
    hd: usize,
    eps: Scalar,
    with_weight: bool,
    dt: DType,
)
    requires
        0 <= l.gid,
        hd % 32 == 0,
        (l.gid + 1) * hd <= u32::MAX,
        counts(ar, (l.gid + 1) * hd + 1),
    ensures
        run(ar, l, rmsnorm_q40_code(hd, eps, with_weight, dt, 0), blank()).stored == row(
            2,
            l.gid * hd,
            hd as int,
            head_packed(ar, own_head(ar, l, hd, eps, with_weight, 0, 1)),
        ),
{
    reveal(rmsnorm_q40_code);
    let y = own_head(ar, l, hd, eps, with_weight, 0, 1);
    let b0 = code().s(th_decl(0, hd));
    let b1 = rmsnorm_to_thread_code(hd, eps, with_weight, 0, 1, 0, dt, 0);
    let b2 = pack_thread_code(hd, 0, 2, 5);
    assert(hd <= (l.gid + 1) * hd) by (nonlinear_arith)
        requires
            0 <= l.gid,
    ;
    lemma_run_one(ar, l, Code::Flat(th_decl(0, hd)), blank());
    lemma_run_cat(ar, l, b0, b1, b1.len(), blank());
    assert(b1.take(b1.len() as int) =~= b1);
    lemma_run_cat(ar, l, b0 + b1, b2, b2.len(), blank());
    assert(b2.take(b2.len() as int) =~= b2);
    let r0 = run(ar, l, b0, blank());
    lemma_norm_kept(ar, l, hd, eps, with_weight, 0, dt, 0, r0);
    let r1 = run(ar, l, b0 + b1, blank());
    assert forall|i: int| 0 <= i < hd implies #[trigger] r1.local[(0u32, i)] == y(i) by {
        assert(row(0, 0, hd as int, y).contains_key((0u32, i)));
    }
    lemma_pack_thread(ar, l, hd, 0, 2, 5, y, r1);
    assert(rmsnorm_q40_code(hd, eps, with_weight, dt, 0) =~= b0 + b1 + b2);
}

/// The first `k` elements of both halves of an array of the thread, rotated.
spec fn turned_local<V>(
    ar: Arith<V>,
    th: u32,
    half: int,
    k: int,
    x: spec_fn(int) -> V,
    angle: spec_fn(int) -> V,
) -> Map<(u32, int), V> {
    Map::new(
        |p: (u32, int)| p.0 == th && (0 <= p.1 < k || half <= p.1 < half + k),
        |p: (u32, int)| rotated(ar, x, angle, half, p.1),
    )
}

/// The body of the loop that rotates an array of the thread.
spec fn turn_local_code(half: u32, th: u32, cos_buf: u32, dt: DType, n0: u32) -> Seq<Code> {
    let i = n0;
    let u = (n0 + 1) as u32;
    let vv = (n0 + 2) as u32;
    let cos = (n0 + 3) as u32;
    let sin = (n0 + 4) as u32;
    let far = plus(cu(half), fv(i));
    code().s(let_f(cos, ld(cos_buf, fv(i), dt))).s(let_f(sin, ld(cos_buf, far, dt))).s(
        let_f(u, th_load(th, fv(i))),
    ).s(let_f(vv, th_load(th, far))).s(
        th_store(th, fv(i), minus(times(v(u), v(cos)), times(v(vv), v(sin)))),
    ).s(th_store(th, far, plus(times(v(u), v(sin)), times(v(vv), v(cos)))))
}

/// One pair.
proof fn lemma_turn_local<V>(
    ar: Arith<V>,
    l: Lane<V>,
    half: u32,
    th: u32,
    cos_buf: u32,
    dt: DType,
    n0: u32,
    q: Regs<V>,
    k: int,
)
    requires
        n0 + 5 <= u32::MAX,
        0 <= k < half,
        2 * half <= u32::MAX,
        q.u[n0] == k,
        q.stored == Map::<(u32, int), V>::empty(),
    ensures
        ({
            let p = run(ar, l, turn_local_code(half, th, cos_buf, dt, n0), q);
            let x = |i: int| q.local[(th, i)];
            let angle = |i: int| (l.bufs)(cos_buf, i);
            &&& p.stored == q.stored
            &&& p.local == q.local.insert(
                (th, k),
                rotated(ar, x, angle, half as int, k),
            ).insert((th, half + k), rotated(ar, x, angle, half as int, half + k))
        }),
{
    let i = n0;
    let u = (n0 + 1) as u32;
    let vv = (n0 + 2) as u32;
    let cos = (n0 + 3) as u32;
    let sin = (n0 + 4) as u32;
    let x = |i: int| q.local[(th, i)];
    let angle = |i: int| (l.bufs)(cos_buf, i);
    let far = plus(cu(half), fv(i));
    let one = minus(times(v(u), v(cos)), times(v(vv), v(sin)));
    let two = plus(times(v(u), v(sin)), times(v(vv), v(cos)));
    let s0 = Code::Flat(let_f(cos, ld(cos_buf, fv(i), dt)));
    let s1 = Code::Flat(let_f(sin, ld(cos_buf, far, dt)));
    let s2 = Code::Flat(let_f(u, th_load(th, fv(i))));
    let s3 = Code::Flat(let_f(vv, th_load(th, far)));
    let s4 = Code::Flat(th_store(th, fv(i), one));
    let s5 = Code::Flat(th_store(th, far, two));
    let b0 = code().push(s0);
    let b1 = b0.push(s1);
    let b2 = b1.push(s2);
    let b3 = b2.push(s3);
    let b4 = b3.push(s4);
    lemma_run_one(ar, l, s0, q);
    lemma_run_push(ar, l, b0, s1, q);
    lemma_run_push(ar, l, b1, s2, q);
    lemma_run_push(ar, l, b2, s3, q);
    lemma_run_push(ar, l, b3, s4, q);
    lemma_run_push(ar, l, b4, s5, q);
    assert(turn_local_code(half, th, cos_buf, dt, n0) =~= b4.push(s5));
    assert forall|r: Regs<V>| r.u == q.u implies #[trigger] index(ar, l, r, fv(i)) == k && index(
        ar,
        l,
        r,
        far,
    ) == half + k by {
        assert(index(ar, l, r, fv(i)) == k);
        assert(index(ar, l, r, cu(half)) == half);
    }
    let q0 = run(ar, l, b0, q);
    assert(index(ar, l, q, fv(i)) == k);
    assert(value(ar, l, q, ld(cos_buf, fv(i), dt)) == angle(k));
    assert(q0 == (Regs { f: q.f.insert(cos, angle(k)), ..q }));
    let q1 = run(ar, l, b1, q);
    assert(index(ar, l, q0, fv(i)) == k);
    assert(value(ar, l, q0, ld(cos_buf, far, dt)) == angle(half + k));
    assert(q1 == (Regs { f: q0.f.insert(sin, angle(half + k)), ..q0 }));
    let q2 = run(ar, l, b2, q);
    assert(index(ar, l, q1, fv(i)) == k);
    assert(value(ar, l, q1, th_load(th, fv(i))) == x(k));
    assert(q2 == (Regs { f: q1.f.insert(u, x(k)), ..q1 }));
    let q3 = run(ar, l, b3, q);
    assert(index(ar, l, q2, fv(i)) == k);
    assert(value(ar, l, q2, th_load(th, far)) == x(half + k));
    assert(q3 == (Regs { f: q2.f.insert(vv, x(half + k)), ..q2 }));
    let q4 = run(ar, l, b4, q);
    assert(index(ar, l, q3, fv(i)) == k);
    lemma_pair(ar, l, q3, u, vv, cos, sin);
    assert(value(ar, l, q3, one) == rotated(ar, x, angle, half as int, k));
    assert(q4 == (Regs {
        local: q3.local.insert((th, k), rotated(ar, x, angle, half as int, k)),
        ..q3
    }));
    assert(index(ar, l, q4, fv(i)) == k);
    lemma_pair(ar, l, q4, u, vv, cos, sin);
    assert(value(ar, l, q4, two) == rotated(ar, x, angle, half as int, half + k));
}

/// The loop that rotates an array of the thread.
proof fn lemma_turning_local<V>(
    ar: Arith<V>,
    l: Lane<V>,
    half: usize,
    th: u32,
    cos_buf: u32,
    dt: DType,
    n0: u32,
    r: Regs<V>,
    k: nat,
)
    requires
        n0 + 5 <= u32::MAX,
        k <= half,
        2 * half <= u32::MAX,
        r.stored == Map::<(u32, int), V>::empty(),
        forall|i: int| 0 <= i < 2 * half ==> #[trigger] r.local.contains_key((th, i)),
    ensures
        ({
            let body = turn_local_code(half as u32, th, cos_buf, dt, n0);
            let p = counted(ar, l, Code::For { id: n0, n: half, body }, k, r);
            let x = |i: int| r.local[(th, i)];
            let angle = |i: int| (l.bufs)(cos_buf, i);
            &&& p.stored == r.stored
            &&& p.local == r.local.union_prefer_right(
                turned_local(ar, th, half as int, k as int, x, angle),
            )
        }),
    decreases k,
{
    let body = turn_local_code(half as u32, th, cos_buf, dt, n0);
    let whole = Code::For { id: n0, n: half, body };
    let x = |i: int| r.local[(th, i)];
    let angle = |i: int| (l.bufs)(cos_buf, i);
    if k == 0 {
        assert(r.local =~= r.local.union_prefer_right(
            turned_local(ar, th, half as int, 0, x, angle),
        ));
    } else {
        let m = k - 1;
        lemma_turning_local(ar, l, half, th, cos_buf, dt, n0, r, m as nat);
        let p = counted(ar, l, whole, m as nat, r);
        let q = Regs { u: p.u.insert(n0, m), ..p };
        lemma_turn_local(ar, l, half as u32, th, cos_buf, dt, n0, q, m);
        let after = run(ar, l, body, q);
        assert(after == counted(ar, l, whole, k, r));
        let y = |i: int| q.local[(th, i)];
        assert(r.local.contains_key((th, m)) && r.local.contains_key((th, half + m)));
        assert(y(m) == x(m));
        assert(y(half + m) == x(half + m));
        assert(after.local =~= r.local.union_prefer_right(
            turned_local(ar, th, half as int, k as int, x, angle),
        ));
    }
}

/// The kernel that normalises and rotates heads into packed blocks stores, for head `gid`, that
/// head normalised, rotated and packed, and nothing else.
pub proof fn lemma_rmsnorm_rope_q40<V>(
    ar: Arith<V>,
    l: Lane<V>,
    hd: usize,
    eps: Scalar,
    with_weight: bool,
    dt: DType,
)
    requires
        0 <= l.gid,
        hd % 32 == 0,
        (l.gid + 1) * hd <= u32::MAX,
        counts(ar, (l.gid + 1) * hd + 1),
    ensures
        run(ar, l, rmsnorm_rope_q40_code(hd, eps, with_weight, dt, 0), blank()).stored == row(
            3,
            l.gid * hd,
            hd as int,
            head_packed(
                ar,
                |i: int|
                    rotated(
                        ar,
                        own_head(ar, l, hd, eps, with_weight, 0, 1),
                        |k: int| (l.bufs)(2, k),
                        (hd / 2) as int,
                        i,
                    ),
            ),
        ),
{
    reveal(rmsnorm_rope_q40_code);
    reveal(rope_on_thread_code);
    let half = hd / 2;
    let x = own_head(ar, l, hd, eps, with_weight, 0, 1);
    let angle = |k: int| (l.bufs)(2, k);
    let y = |i: int| rotated(ar, x, angle, half as int, i);
    let b0 = code().s(th_decl(0, hd));
    let b1 = rmsnorm_to_thread_code(hd, eps, with_weight, 0, 1, 0, dt, 0);
    let b2 = rope_on_thread_code(hd, 0, 2, dt, 5);
    let b3 = pack_thread_code(hd, 0, 3, 10);
    assert(hd <= (l.gid + 1) * hd) by (nonlinear_arith)
        requires
            0 <= l.gid,
    ;
    lemma_run_one(ar, l, Code::Flat(th_decl(0, hd)), blank());
    lemma_run_cat(ar, l, b0, b1, b1.len(), blank());
    assert(b1.take(b1.len() as int) =~= b1);
    lemma_run_cat(ar, l, b0 + b1, b2, b2.len(), blank());
    assert(b2.take(b2.len() as int) =~= b2);
    lemma_run_cat(ar, l, b0 + b1 + b2, b3, b3.len(), blank());
    assert(b3.take(b3.len() as int) =~= b3);
    let r0 = run(ar, l, b0, blank());
    lemma_norm_kept(ar, l, hd, eps, with_weight, 0, dt, 0, r0);
    let r1 = run(ar, l, b0 + b1, blank());
    let z = |i: int| r1.local[(0u32, i)];
    assert forall|i: int| 0 <= i < hd implies #[trigger] z(i) == x(i) by {
        assert(row(0, 0, hd as int, x).contains_key((0u32, i)));
    }
    let body = turn_local_code(half as u32, 0, 2, dt, 5);
    let whole = Code::For { id: 5, n: half, body };
    assert forall|i: int| 0 <= i < 2 * half implies #[trigger] r1.local.contains_key((0u32, i)) by {
        assert(row(0, 0, hd as int, x).contains_key((0u32, i)));
    }
    lemma_turning_local(ar, l, half, 0, 2, dt, 5, r1, half as nat);
    lemma_run_one(ar, l, whole, r1);
    assert(b2 =~= code().push(whole));
    let r2 = run(ar, l, b0 + b1 + b2, blank());
    let t = turned_local(ar, 0, half as int, half as int, z, angle);
    assert(r2.local == r1.local.union_prefer_right(t));
    assert forall|i: int| 0 <= i < hd implies #[trigger] r2.local[(0u32, i)] == y(i) by {
        assert(2 * half == hd);
        assert(t.contains_key((0u32, i)));
        if i < half {
            assert(z(i) == x(i) && z(half + i) == x(half + i));
        } else {
            assert(z(i) == x(i) && z(i - half) == x(i - half));
        }
    }
    lemma_pack_thread(ar, l, hd, 0, 3, 10, y, r2);
    assert(rmsnorm_rope_q40_code(hd, eps, with_weight, dt, 0) =~= b0 + b1 + b2 + b3);
}

} // verus!
