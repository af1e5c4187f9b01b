//! What the kernels that normalise and rotate heads compute. Each is taken by one thread for each
//! head, which keeps the place of its head in a float variable.

use vstd::prelude::*;

use crate::codegen::laws::machine::{
    blank, counted, device_at, index, lemma_run_one, lemma_run_push, only_in, row, run, run_to,
    value, Arith, Lane, Regs,
};
use crate::codegen::laws::norm::inverse_root;
use crate::codegen::laws::sums::series;
use crate::codegen::lower::block::{
    accumulate, c, cn, code, cs, cu, fv, gid, ld, let_f, minus, over, plus, store, times, un, v,
    Extend,
};
use crate::codegen::lower::norm::{rmsnorm_per_head_code, rmsnorm_rope_code, rope_code};
use crate::ir::dtype::{DType, Scalar, ZERO};
use crate::ir::kernel::{BinOp, Code, KirExpr, UnaryOp};

verus! {

/// Whether indices below `n` can be kept as floats: sums and products of such indices are exact,
/// and a float that stands for one is cut to it.
pub open spec fn counts<V>(ar: Arith<V>, n: int) -> bool {
    &&& forall|a: int, b: int|
        0 <= a && 0 <= b && a + b < n ==> #[trigger] ar.sum((ar.of_index)(a), (ar.of_index)(b)) == (
        ar.of_index)(a + b)
    &&& forall|a: int, b: int|
        0 <= a && 0 <= b && a * b < n ==> #[trigger] ar.product((ar.of_index)(a), (ar.of_index)(b))
            == (ar.of_index)(a * b)
    &&& forall|a: int| 0 <= a < n ==> (ar.to_index)(#[trigger] (ar.of_index)(a)) == a
}

/// An element of a head that is normalised, and weighted where there are weights.
pub open spec fn head_normed<V>(
    ar: Arith<V>,
    x: spec_fn(int) -> V,
    w: Option<spec_fn(int) -> V>,
    hd: usize,
    eps: Scalar,
    i: int,
) -> V {
    let y = ar.product(x(i), inverse_root(ar, x, hd, eps));
    match w {
        Some(f) => ar.product(y, f(i)),
        None => y,
    }
}

/// Whether two threads differ at most in one float variable and in their counters.
spec fn alike<V>(q: Regs<V>, r: Regs<V>, acc: u32) -> bool {
    &&& q.f.insert(acc, r.f[acc]) == r.f
    &&& q.local == r.local
    &&& q.writes == r.writes
    &&& q.stored == r.stored
}

/// A loop that adds up `e`.
proof fn lemma_summing<V>(
    ar: Arith<V>,
    l: Lane<V>,
    acc: u32,
    id: u32,
    n: usize,
    e: KirExpr,
    t: spec_fn(int) -> V,
    r: Regs<V>,
    k: nat,
)
    requires
        k <= n,
        r.f.contains_key(acc),
        r.f[acc] == ar.zero(),
        forall|q: Regs<V>|
            alike(q, r, acc) && 0 <= q.u[id] < n ==> #[trigger] value(ar, l, q, e) == t(q.u[id]),
    ensures
        ({
            let p = counted(
                ar,
                l,
                Code::For { id, n, body: code().s(accumulate(acc, e)) },
                k,
                r,
            );
            &&& alike(p, r, acc)
            &&& p.f == r.f.insert(acc, series(ar, t, k))
        }),
    decreases k,
{
    let whole = Code::For { id, n, body: code().s(accumulate(acc, e)) };
    if k == 0 {
        assert(r.f.insert(acc, ar.zero()) =~= r.f);
    } else {
        lemma_summing(ar, l, acc, id, n, e, t, r, (k - 1) as nat);
        let p = counted(ar, l, whole, (k - 1) as nat, r);
        let q = Regs { u: p.u.insert(id, k - 1), ..p };
        let s = Code::Flat(accumulate(acc, e));
        lemma_run_one(ar, l, s, q);
        assert(alike(q, r, acc));
        assert(value(ar, l, q, e) == t(k - 1));
        assert(value(ar, l, q, v(acc)) == q.f[acc]);
        let after = run(ar, l, code().push(s), q);
        assert(after == counted(ar, l, whole, k, r));
        assert(after.f =~= r.f.insert(acc, series(ar, t, k)));
        assert(after.f.insert(acc, r.f[acc]) =~= r.f);
    }
}

/// A place in a head: `base` and something else, as floats.
proof fn lemma_place<V>(
    ar: Arith<V>,
    l: Lane<V>,
    r: Regs<V>,
    base: u32,
    e: KirExpr,
    at: int,
    k: int,
)
    requires
        r.f[base] == (ar.of_index)(at),
        value(ar, l, r, e) == (ar.of_index)(k),
        0 <= at,
        0 <= k,
        counts(ar, at + k + 1),
    ensures
        index(ar, l, r, plus(v(base), e)) == at + k,
{
    assert(value(ar, l, r, v(base)) == r.f[base]);
    assert(ar.sum((ar.of_index)(at), (ar.of_index)(k)) == (ar.of_index)(at + k));
}

/// A loop that stores `e` behind `base`.
proof fn lemma_storing<V>(
    ar: Arith<V>,
    l: Lane<V>,
    base: u32,
    buf: u32,
    id: u32,
    n: usize,
    e: KirExpr,
    t: spec_fn(int) -> V,
    at: int,
    r: Regs<V>,
    k: nat,
)
    requires
        k <= n,
        0 <= at,
        r.f[base] == (ar.of_index)(at),
        counts(ar, at + n),
        only_in(r.stored, buf),
        forall|q: Regs<V>|
            q.f == r.f && only_in(q.stored, buf) && 0 <= q.u[id] < n ==> #[trigger] value(
                ar,
                l,
                q,
                e,
            ) == t(q.u[id]),
    ensures
        ({
            let p = counted(
                ar,
                l,
                Code::For { id, n, body: code().s(store(buf, plus(v(base), fv(id)), e)) },
                k,
                r,
            );
            &&& p.f == r.f
            &&& p.local == r.local
            &&& p.writes == r.writes
            &&& p.stored == r.stored.union_prefer_right(row(buf, at, k as int, t))
            &&& only_in(p.stored, buf)
        }),
    decreases k,
{
    let whole = Code::For { id, n, body: code().s(store(buf, plus(v(base), fv(id)), e)) };
    if k == 0 {
        assert(r.stored =~= r.stored.union_prefer_right(row(buf, at, 0, t)));
    } else {
        lemma_storing(ar, l, base, buf, id, n, e, t, at, r, (k - 1) as nat);
        let p = counted(ar, l, whole, (k - 1) as nat, r);
        let q = Regs { u: p.u.insert(id, k - 1), ..p };
        let s = Code::Flat(store(buf, plus(v(base), fv(id)), e));
        lemma_run_one(ar, l, s, q);
        assert(value(ar, l, q, fv(id)) == (ar.of_index)(k - 1));
        assert(counts(ar, at + (k - 1) + 1));
        lemma_place(ar, l, q, base, fv(id), at, k - 1);
        assert(value(ar, l, q, e) == t(k - 1));
        let after = run(ar, l, code().push(s), q);
        assert(after == counted(ar, l, whole, k, r));
        assert(after.stored =~= r.stored.union_prefer_right(row(buf, at, k as int, t)));
    }
}

/// The statements that find the place of head `gid` and the factor of its normalisation.
pub open spec fn head_factor_code(
    hd: usize,
    eps: Scalar,
    x_buf: u32,
    dt: DType,
    n0: u32,
) -> Seq<Code> {
    let base = n0;
    let ss = (n0 + 1) as u32;
    let i = (n0 + 2) as u32;
    let inv = (n0 + 3) as u32;
    let x = ld(x_buf, plus(v(base), fv(i)), dt);
    code().s(let_f(base, times(gid(), cu(hd as u32)))).s(let_f(ss, c(ZERO))).each(
        i,
        hd,
        code().s(accumulate(ss, times(x, x))),
    ).s(let_f(inv, un(UnaryOp::Rsqrt, plus(over(v(ss), cn(hd)), cs(eps)))))
}

/// A thread that has taken those statements knows both.
pub proof fn lemma_head_factor<V>(
    ar: Arith<V>,
    l: Lane<V>,
    hd: usize,
    eps: Scalar,
    x_buf: u32,
    dt: DType,
    n0: u32,
    r: Regs<V>,
)
    requires
        0 <= l.gid,
        hd <= u32::MAX,
        n0 + 4 <= u32::MAX,
        counts(ar, (l.gid + 1) * hd + 1),
        r.stored == Map::<(u32, int), V>::empty(),
    ensures
        ({
            let x = |k: int| (l.bufs)(x_buf, l.gid * hd + k);
            let p = run(ar, l, head_factor_code(hd, eps, x_buf, dt, n0), r);
            &&& p.f[n0] == (ar.of_index)(l.gid * hd)
            &&& p.f[(n0 + 3) as u32] == inverse_root(ar, x, hd, eps)
            &&& p.local == r.local
            &&& p.writes == r.writes
            &&& p.stored == r.stored
            &&& 0 <= l.gid * hd
            &&& counts(ar, l.gid * hd + hd)
        }),
{
    let base = n0;
    let ss = (n0 + 1) as u32;
    let i = (n0 + 2) as u32;
    let inv = (n0 + 3) as u32;
    let at = l.gid * hd;
    let x = |k: int| (l.bufs)(x_buf, at + k);
    let sq = |k: int| ar.product(x(k), x(k));
    assert(0 <= at && at + hd == (l.gid + 1) * hd) by (nonlinear_arith)
        requires
            at == l.gid * hd,
            0 <= l.gid,
    ;
    let xi = ld(x_buf, plus(v(base), fv(i)), dt);
    let root = un(UnaryOp::Rsqrt, plus(over(v(ss), cn(hd)), cs(eps)));
    let s0 = Code::Flat(let_f(base, times(gid(), cu(hd as u32))));
    let s1 = Code::Flat(let_f(ss, c(ZERO)));
    let s2 = Code::For { id: i, n: hd, body: code().s(accumulate(ss, times(xi, xi))) };
    let s3 = Code::Flat(let_f(inv, root));
    let b0 = code().push(s0);
    let b1 = b0.push(s1);
    let b2 = b1.push(s2);
    lemma_run_one(ar, l, s0, r);
    lemma_run_push(ar, l, b0, s1, r);
    lemma_run_push(ar, l, b1, s2, r);
    lemma_run_push(ar, l, b2, s3, r);
    assert(head_factor_code(hd, eps, x_buf, dt, n0) =~= b2.push(s3));
    let r0 = run(ar, l, b0, r);
    assert(value(ar, l, r, gid()) == (ar.of_index)(l.gid));
    assert(value(ar, l, r, cu(hd as u32)) == (ar.of_index)(hd as int));
    assert(ar.product((ar.of_index)(l.gid), (ar.of_index)(hd as int)) == (ar.of_index)(at));
    assert(r0.f[base] == (ar.of_index)(at));
    let r1 = run(ar, l, b1, r);
    assert(value(ar, l, r0, c(ZERO)) == ar.zero());
    assert(r1.f[ss] == ar.zero());
    assert(r1.f[base] == (ar.of_index)(at));
    assert forall|q: Regs<V>| alike(q, r1, ss) && 0 <= q.u[i] < hd implies #[trigger] value(
        ar,
        l,
        q,
        times(xi, xi),
    ) == sq(q.u[i]) by {
        assert(q.f[base] == q.f.insert(ss, r1.f[ss])[base]);
        assert(value(ar, l, q, fv(i)) == (ar.of_index)(q.u[i]));
        assert(counts(ar, at + q.u[i] + 1));
        lemma_place(ar, l, q, base, fv(i), at, q.u[i]);
        assert(value(ar, l, q, xi) == x(q.u[i]));
    }
    lemma_summing(ar, l, ss, i, hd, times(xi, xi), sq, r1, hd as nat);
    let r2 = run(ar, l, b2, r);
    assert(r2 == counted(ar, l, s2, hd as nat, r1));
    let sum = series(ar, sq, hd as nat);
    assert(value(ar, l, r2, v(ss)) == sum);
    assert(value(ar, l, r2, cn(hd)) == (ar.constant)(Scalar::Int(hd as u64)));
    let mean = over(v(ss), cn(hd));
    assert(value(ar, l, r2, mean) == (ar.binary)(
        BinOp::Div,
        sum,
        (ar.constant)(Scalar::Int(hd as u64)),
    ));
    assert(value(ar, l, r2, cs(eps)) == (ar.constant)(eps));
    assert(value(ar, l, r2, plus(mean, cs(eps))) == ar.sum(
        value(ar, l, r2, mean),
        (ar.constant)(eps),
    ));
    assert(value(ar, l, r2, root) == inverse_root(ar, x, hd, eps));
    assert(x =~= (|k: int| (l.bufs)(x_buf, l.gid * hd + k)));
}

/// The expression for an element of a normalised head.
pub open spec fn normed_expr(
    with_weight: bool,
    x_buf: u32,
    w_buf: u32,
    dt: DType,
    n0: u32,
) -> KirExpr {
    let j = (n0 + 4) as u32;
    let normed = times(ld(x_buf, plus(v(n0), fv(j)), dt), v((n0 + 3) as u32));
    if with_weight {
        times(normed, ld(w_buf, fv(j), dt))
    } else {
        normed
    }
}

/// The head that a thread reads, normalised.
pub open spec fn own_head<V>(
    ar: Arith<V>,
    l: Lane<V>,
    hd: usize,
    eps: Scalar,
    with_weight: bool,
    x_buf: u32,
    w_buf: u32,
) -> spec_fn(int) -> V {
    |i: int|
        head_normed(
            ar,
            |k: int| (l.bufs)(x_buf, l.gid * hd + k),
            if with_weight {
                Some(|k: int| (l.bufs)(w_buf, k))
            } else {
                None
            },
            hd,
            eps,
            i,
        )
}

/// The value of that expression.
pub proof fn lemma_normed_expr<V>(
    ar: Arith<V>,
    l: Lane<V>,
    hd: usize,
    eps: Scalar,
    with_weight: bool,
    x_buf: u32,
    w_buf: u32,
    out_buf: u32,
    dt: DType,
    n0: u32,
    q: Regs<V>,
)
    requires
        0 <= l.gid * hd,
        n0 + 5 <= u32::MAX,
        counts(ar, l.gid * hd + hd),
        q.f[n0] == (ar.of_index)(l.gid * hd),
        q.f[(n0 + 3) as u32] == inverse_root(
            ar,
            |k: int| (l.bufs)(x_buf, l.gid * hd + k),
            hd,
            eps,
        ),
        0 <= q.u[(n0 + 4) as u32] < hd,
        only_in(q.stored, out_buf),
        x_buf != out_buf,
        with_weight ==> w_buf != out_buf,
    ensures
        value(ar, l, q, normed_expr(with_weight, x_buf, w_buf, dt, n0)) == own_head(
            ar,
            l,
            hd,
            eps,
            with_weight,
            x_buf,
            w_buf,
        )(q.u[(n0 + 4) as u32]),
{
    let inv = (n0 + 3) as u32;
    let j = (n0 + 4) as u32;
    let at = l.gid * hd;
    let k = q.u[j];
    let xj = ld(x_buf, plus(v(n0), fv(j)), dt);
    let wj = ld(w_buf, fv(j), dt);
    assert(value(ar, l, q, fv(j)) == (ar.of_index)(k));
    assert(counts(ar, at + k + 1));
    lemma_place(ar, l, q, n0, fv(j), at, k);
    assert(value(ar, l, q, xj) == (l.bufs)(x_buf, at + k));
    assert(value(ar, l, q, v(inv)) == q.f[inv]);
    assert(value(ar, l, q, times(xj, v(inv))) == ar.product((l.bufs)(x_buf, at + k), q.f[inv]));
    assert(index(ar, l, q, fv(j)) == k);
    assert(with_weight ==> value(ar, l, q, wj) == (l.bufs)(w_buf, k));
}

/// The kernel that normalises heads stores, for head `gid`, the `hd` elements of that head,
/// normalised by themselves and weighted where there are weights, and nothing else.
pub proof fn lemma_rmsnorm_per_head<V>(
    ar: Arith<V>,
    l: Lane<V>,
    hd: usize,
    eps: Scalar,
    with_weight: bool,
    x_buf: u32,
    w_buf: u32,
    out_buf: u32,
    dt: DType,
    n0: u32,
)
    requires
        0 <= l.gid,
        hd <= u32::MAX,
        n0 + 5 <= u32::MAX,
        counts(ar, (l.gid + 1) * hd + 1),
        x_buf != out_buf,
        with_weight ==> w_buf != out_buf,
    ensures
        run(
            ar,
            l,
            rmsnorm_per_head_code(hd, eps, with_weight, x_buf, w_buf, out_buf, dt, n0),
            blank(),
        ).stored == row(
            out_buf,
            l.gid * hd,
            hd as int,
            own_head(ar, l, hd, eps, with_weight, x_buf, w_buf),
        ),
{
    reveal(rmsnorm_per_head_code);
    let j = (n0 + 4) as u32;
    let at = l.gid * hd;
    let t = own_head(ar, l, hd, eps, with_weight, x_buf, w_buf);
    let val = normed_expr(with_weight, x_buf, w_buf, dt, n0);
    let b = head_factor_code(hd, eps, x_buf, dt, n0);
    let s = Code::For { id: j, n: hd, body: code().s(store(out_buf, plus(v(n0), fv(j)), val)) };
    lemma_head_factor(ar, l, hd, eps, x_buf, dt, n0, blank());
    lemma_run_push(ar, l, b, s, blank());
    let r = run(ar, l, b, blank());
    assert forall|q: Regs<V>|
        q.f == r.f && only_in(q.stored, out_buf) && 0 <= q.u[j] < hd implies #[trigger] value(
        ar,
        l,
        q,
        val,
    ) == t(q.u[j]) by {
        lemma_normed_expr(ar, l, hd, eps, with_weight, x_buf, w_buf, out_buf, dt, n0, q);
    }
    lemma_storing(ar, l, n0, out_buf, j, hd, val, t, at, r, hd as nat);
    let p = run(ar, l, b.push(s), blank());
    assert(p == counted(ar, l, s, hd as nat, r));
    assert(b.push(s) =~= rmsnorm_per_head_code(
        hd,
        eps,
        with_weight,
        x_buf,
        w_buf,
        out_buf,
        dt,
        n0,
    ));
    assert(p.stored =~= row(out_buf, at, hd as int, t));
}

/// An element of a head whose halves are rotated into each other. The first half of `angle` holds
/// the cosines and the second the sines; an element behind both halves stays.
pub open spec fn rotated<V>(
    ar: Arith<V>,
    x: spec_fn(int) -> V,
    angle: spec_fn(int) -> V,
    half: int,
    i: int,
) -> V {
    if i < half {
        (ar.binary)(
            BinOp::Sub,
            ar.product(x(i), angle(i)),
            ar.product(x(half + i), angle(half + i)),
        )
    } else if i < 2 * half {
        ar.sum(ar.product(x(i - half), angle(i)), ar.product(x(i), angle(i - half)))
    } else {
        x(i)
    }
}

/// The first `k` elements of both halves, rotated.
spec fn turned<V>(
    ar: Arith<V>,
    buf: u32,
    at: int,
    half: int,
    k: int,
    x: spec_fn(int) -> V,
    angle: spec_fn(int) -> V,
) -> Map<(u32, int), V> {
    Map::new(
        |p: (u32, int)|
            p.0 == buf && (at <= p.1 < at + k || at + half <= p.1 < at + half + k),
        |p: (u32, int)| rotated(ar, x, angle, half, p.1 - at),
    )
}

/// The body of the loop that rotates: a pair of elements, one of each half.
spec fn turn_code(half: u32, x_buf: u32, cos_buf: u32, out_buf: u32, dt: DType, n0: u32) -> Seq<
    Code,
> {
    let base = n0;
    let i = (n0 + 1) as u32;
    let u = (n0 + 2) as u32;
    let vv = (n0 + 3) as u32;
    let cos = (n0 + 4) as u32;
    let sin = (n0 + 5) as u32;
    code().s(let_f(cos, ld(cos_buf, fv(i), dt))).s(
        let_f(sin, ld(cos_buf, plus(cu(half), fv(i)), dt)),
    ).s(let_f(u, ld(x_buf, plus(v(base), fv(i)), dt))).s(
        let_f(vv, ld(x_buf, plus(v(base), plus(cu(half), fv(i))), dt)),
    ).s(
        store(out_buf, plus(v(base), fv(i)), minus(times(v(u), v(cos)), times(v(vv), v(sin)))),
    ).s(
        store(
            out_buf,
            plus(v(base), plus(cu(half), fv(i))),
            plus(times(v(u), v(sin)), times(v(vv), v(cos))),
        ),
    )
}

/// One pair.
proof fn lemma_turn_pair<V>(
    ar: Arith<V>,
    l: Lane<V>,
    half: u32,
    x_buf: u32,
    cos_buf: u32,
    out_buf: u32,
    dt: DType,
    n0: u32,
    at: int,
    q: Regs<V>,
    k: int,
)
    requires
        n0 + 6 <= u32::MAX,
        0 <= at,
        0 <= k < half,
        2 * half <= u32::MAX,
        counts(ar, at + 2 * half),
        q.f[n0] == (ar.of_index)(at),
        q.u[(n0 + 1) as u32] == k,
        only_in(q.stored, out_buf),
        cos_buf != out_buf,
    ensures
        ({
            let p = run(ar, l, turn_code(half, x_buf, cos_buf, out_buf, dt, n0), q);
            let x = |i: int| device_at(l, q, x_buf, at + i);
            let angle = |i: int| (l.bufs)(cos_buf, i);
            &&& p.f[n0] == q.f[n0]
            &&& p.local == q.local
            &&& p.writes == q.writes
            &&& p.stored == q.stored.insert(
                (out_buf, at + k),
                rotated(ar, x, angle, half as int, k),
            ).insert((out_buf, at + half + k), rotated(ar, x, angle, half as int, half + k))
        }),
{
    let base = n0;
    let i = (n0 + 1) as u32;
    let u = (n0 + 2) as u32;
    let vv = (n0 + 3) as u32;
    let cos = (n0 + 4) as u32;
    let sin = (n0 + 5) as u32;
    let x = |i: int| device_at(l, q, x_buf, at + i);
    let angle = |i: int| (l.bufs)(cos_buf, i);
    let far = plus(cu(half), fv(i));
    let one = minus(times(v(u), v(cos)), times(v(vv), v(sin)));
    let two = plus(times(v(u), v(sin)), times(v(vv), v(cos)));
    let s0 = Code::Flat(let_f(cos, ld(cos_buf, fv(i), dt)));
    let s1 = Code::Flat(let_f(sin, ld(cos_buf, far, dt)));
    let s2 = Code::Flat(let_f(u, ld(x_buf, plus(v(base), fv(i)), dt)));
    let s3 = Code::Flat(let_f(vv, ld(x_buf, plus(v(base), far), dt)));
    let s4 = Code::Flat(store(out_buf, plus(v(base), fv(i)), one));
    let s5 = Code::Flat(store(out_buf, plus(v(base), far), two));
    let b0 = code().push(s0);
    let b1 = b0.push(s1);
    let b2 = b1.push(s2);
    let b3 = b2.push(s3);
    let b4 = b3.push(s4);
    lemma_run_one(ar, l, s0, q);
    lemma_run_push(ar, l, b0, s1, q);
    lemma_run_push(ar, l, b1, s2, q);
    lemma_run_push(ar, l, b2, s3, q);
    lemma_run_push(ar, l, b3, s4, q);
    lemma_run_push(ar, l, b4, s5, q);
    assert(turn_code(half, x_buf, cos_buf, out_buf, dt, n0) =~= b4.push(s5));
    let q0 = run(ar, l, b0, q);
    assert(index(ar, l, q, fv(i)) == k);
    assert(value(ar, l, q, ld(cos_buf, fv(i), dt)) == angle(k));
    assert(q0 == (Regs { f: q.f.insert(cos, angle(k)), ..q }));
    let q1 = run(ar, l, b1, q);
    assert(index(ar, l, q0, fv(i)) == k);
    assert(index(ar, l, q0, cu(half)) == half);
    assert(index(ar, l, q0, far) == half + k);
    assert(value(ar, l, q0, ld(cos_buf, far, dt)) == angle(half + k));
    assert(q1 == (Regs { f: q0.f.insert(sin, angle(half + k)), ..q0 }));
    let q2 = run(ar, l, b2, q);
    lemma_places(ar, l, q1, base, i, half, at, k);
    assert(value(ar, l, q1, ld(x_buf, plus(v(base), fv(i)), dt)) == x(k));
    assert(q2 == (Regs { f: q1.f.insert(u, x(k)), ..q1 }));
    let q3 = run(ar, l, b3, q);
    lemma_places(ar, l, q2, base, i, half, at, k);
    assert(value(ar, l, q2, ld(x_buf, plus(v(base), far), dt)) == x(half + k));
    assert(q3 == (Regs { f: q2.f.insert(vv, x(half + k)), ..q2 }));
    let q4 = run(ar, l, b4, q);
    lemma_places(ar, l, q3, base, i, half, at, k);
    lemma_pair(ar, l, q3, u, vv, cos, sin);
    assert(value(ar, l, q3, one) == rotated(ar, x, angle, half as int, k));
    assert(q4 == (Regs {
        stored: q3.stored.insert((out_buf, at + k), rotated(ar, x, angle, half as int, k)),
        ..q3
    }));
    lemma_places(ar, l, q4, base, i, half, at, k);
    lemma_pair(ar, l, q4, u, vv, cos, sin);
    assert(value(ar, l, q4, two) == rotated(ar, x, angle, half as int, half + k));
}

/// The places of a pair.
proof fn lemma_places<V>(
    ar: Arith<V>,
    l: Lane<V>,
    q: Regs<V>,
    base: u32,
    i: u32,
    half: u32,
    at: int,
    k: int,
)
    requires
        0 <= at,
        0 <= k < half,
        counts(ar, at + 2 * half),
        q.f[base] == (ar.of_index)(at),
        q.u[i] == k,
    ensures
        index(ar, l, q, plus(v(base), fv(i))) == at + k,
        index(ar, l, q, plus(v(base), plus(cu(half), fv(i)))) == at + half + k,
{
    let far = plus(cu(half), fv(i));
    assert(value(ar, l, q, fv(i)) == (ar.of_index)(k));
    assert(value(ar, l, q, cu(half)) == (ar.of_index)(half as int));
    assert(ar.sum((ar.of_index)(half as int), (ar.of_index)(k)) == (ar.of_index)(half + k));
    assert(value(ar, l, q, far) == (ar.of_index)(half + k));
    assert(counts(ar, at + k + 1));
    lemma_place(ar, l, q, base, fv(i), at, k);
    assert(counts(ar, at + (half + k) + 1));
    lemma_place(ar, l, q, base, far, at, half + k);
}

/// The values of a pair.
pub proof fn lemma_pair<V>(
    ar: Arith<V>,
    l: Lane<V>,
    q: Regs<V>,
    u: u32,
    vv: u32,
    cos: u32,
    sin: u32,
)
    ensures
        value(ar, l, q, minus(times(v(u), v(cos)), times(v(vv), v(sin)))) == (ar.binary)(
            BinOp::Sub,
            ar.product(q.f[u], q.f[cos]),
            ar.product(q.f[vv], q.f[sin]),
        ),
        value(ar, l, q, plus(times(v(u), v(sin)), times(v(vv), v(cos)))) == ar.sum(
            ar.product(q.f[u], q.f[sin]),
            ar.product(q.f[vv], q.f[cos]),
        ),
{
    assert(value(ar, l, q, v(u)) == q.f[u]);
    assert(value(ar, l, q, v(vv)) == q.f[vv]);
    assert(value(ar, l, q, v(cos)) == q.f[cos]);
    assert(value(ar, l, q, v(sin)) == q.f[sin]);
    assert(value(ar, l, q, times(v(u), v(cos))) == ar.product(q.f[u], q.f[cos]));
    assert(value(ar, l, q, times(v(vv), v(sin))) == ar.product(q.f[vv], q.f[sin]));
    assert(value(ar, l, q, times(v(u), v(sin))) == ar.product(q.f[u], q.f[sin]));
    assert(value(ar, l, q, times(v(vv), v(cos))) == ar.product(q.f[vv], q.f[cos]));
}

/// The loop that rotates.
proof fn lemma_turning<V>(
    ar: Arith<V>,
    l: Lane<V>,
    half: usize,
    x_buf: u32,
    cos_buf: u32,
    out_buf: u32,
    dt: DType,
    n0: u32,
    at: int,
    r: Regs<V>,
    k: nat,
)
    requires
        n0 + 6 <= u32::MAX,
        0 <= at,
        k <= half,
        2 * half <= u32::MAX,
        counts(ar, at + 2 * half),
        r.f[n0] == (ar.of_index)(at),
        only_in(r.stored, out_buf),
        cos_buf != out_buf,
    ensures
        ({
            let body = turn_code(half as u32, x_buf, cos_buf, out_buf, dt, n0);
            let p = counted(ar, l, Code::For { id: (n0 + 1) as u32, n: half, body }, k, r);
            let x = |i: int| device_at(l, r, x_buf, at + i);
            let angle = |i: int| (l.bufs)(cos_buf, i);
            &&& p.f[n0] == r.f[n0]
            &&& only_in(p.stored, out_buf)
            &&& p.stored == r.stored.union_prefer_right(
                turned(ar, out_buf, at, half as int, k as int, x, angle),
            )
        }),
    decreases k,
{
    let i = (n0 + 1) as u32;
    let body = turn_code(half as u32, x_buf, cos_buf, out_buf, dt, n0);
    let whole = Code::For { id: i, n: half, body };
    let x = |i: int| device_at(l, r, x_buf, at + i);
    let angle = |i: int| (l.bufs)(cos_buf, i);
    if k == 0 {
        assert(r.stored =~= r.stored.union_prefer_right(
            turned(ar, out_buf, at, half as int, 0, x, angle),
        ));
    } else {
        let m = k - 1;
        lemma_turning(ar, l, half, x_buf, cos_buf, out_buf, dt, n0, at, r, m as nat);
        let p = counted(ar, l, whole, m as nat, r);
        let q = Regs { u: p.u.insert(i, m), ..p };
        lemma_turn_pair(ar, l, half as u32, x_buf, cos_buf, out_buf, dt, n0, at, q, m);
        let after = run(ar, l, body, q);
        assert(after == counted(ar, l, whole, k, r));
        let y = |i: int| device_at(l, q, x_buf, at + i);
        assert(y(m) == x(m));
        assert(y(half + m) == x(half + m));
        assert(after.stored =~= r.stored.union_prefer_right(
            turned(ar, out_buf, at, half as int, k as int, x, angle),
        ));
    }
}

/// The kernel that rotates, for a thread that may have written to the output before.
proof fn lemma_rope_from<V>(
    ar: Arith<V>,
    l: Lane<V>,
    hd: usize,
    x_buf: u32,
    cos_buf: u32,
    out_buf: u32,
    dt: DType,
    n0: u32,
    r: Regs<V>,
)
    requires
        0 <= l.gid,
        hd <= u32::MAX,
        n0 + 6 <= u32::MAX,
        counts(ar, (l.gid + 1) * hd + 1),
        only_in(r.stored, out_buf),
        cos_buf != out_buf,
    ensures
        run(ar, l, rope_code(hd, x_buf, cos_buf, out_buf, dt, n0), r).stored
            == r.stored.union_prefer_right(
            row(
                out_buf,
                l.gid * hd,
                2 * (hd / 2) as int,
                |i: int|
                    rotated(
                        ar,
                        |k: int| device_at(l, r, x_buf, l.gid * hd + k),
                        |k: int| (l.bufs)(cos_buf, k),
                        (hd / 2) as int,
                        i,
                    ),
            ),
        ),
{
    reveal(rope_code);
    let half = hd / 2;
    let at = l.gid * hd;
    let x = |k: int| device_at(l, r, x_buf, at + k);
    let angle = |k: int| (l.bufs)(cos_buf, k);
    assert(0 <= at && at + hd == (l.gid + 1) * hd) by (nonlinear_arith)
        requires
            at == l.gid * hd,
            0 <= l.gid,
    ;
    let s0 = Code::Flat(let_f(n0, times(gid(), cu(hd as u32))));
    let body = turn_code(half as u32, x_buf, cos_buf, out_buf, dt, n0);
    let s1 = Code::For { id: (n0 + 1) as u32, n: half, body };
    lemma_run_one(ar, l, s0, r);
    lemma_run_push(ar, l, code().push(s0), s1, r);
    assert(rope_code(hd, x_buf, cos_buf, out_buf, dt, n0) =~= code().push(s0).push(s1));
    let r0 = run(ar, l, code().push(s0), r);
    assert(value(ar, l, r, gid()) == (ar.of_index)(l.gid));
    assert(value(ar, l, r, cu(hd as u32)) == (ar.of_index)(hd as int));
    assert(ar.product((ar.of_index)(l.gid), (ar.of_index)(hd as int)) == (ar.of_index)(at));
    assert(r0.f[n0] == (ar.of_index)(at));
    assert(counts(ar, at + 2 * half));
    lemma_turning(ar, l, half, x_buf, cos_buf, out_buf, dt, n0, at, r0, half as nat);
    let y = |k: int| device_at(l, r0, x_buf, at + k);
    assert(x =~= y);
    let r1 = run(ar, l, code().push(s0).push(s1), r);
    assert(r1 == counted(ar, l, s1, half as nat, r0));
    let t = |i: int|
        rotated(
            ar,
            |k: int| device_at(l, r, x_buf, l.gid * hd + k),
            |k: int| (l.bufs)(cos_buf, k),
            (hd / 2) as int,
            i,
        );
    assert(x =~= (|k: int| device_at(l, r, x_buf, l.gid * hd + k)));
    assert(turned(ar, out_buf, at, half as int, half as int, y, angle) =~= row(
        out_buf,
        at,
        2 * half as int,
        t,
    ));
}

/// The kernel that rotates heads stores, for head `gid`, the two halves of that head rotated into
/// each other, and nothing else.
pub proof fn lemma_rope<V>(
    ar: Arith<V>,
    l: Lane<V>,
    hd: usize,
    x_buf: u32,
    cos_buf: u32,
    out_buf: u32,
    dt: DType,
    n0: u32,
)
    requires
        0 <= l.gid,
        hd <= u32::MAX,
        n0 + 6 <= u32::MAX,
        counts(ar, (l.gid + 1) * hd + 1),
        cos_buf != out_buf,
    ensures
        run(ar, l, rope_code(hd, x_buf, cos_buf, out_buf, dt, n0), blank()).stored == row(
            out_buf,
            l.gid * hd,
            2 * (hd / 2) as int,
            |i: int|
                rotated(
                    ar,
                    |k: int| (l.bufs)(x_buf, l.gid * hd + k),
                    |k: int| (l.bufs)(cos_buf, k),
                    (hd / 2) as int,
                    i,
                ),
        ),
{
    let r = blank::<V>();
    lemma_rope_from(ar, l, hd, x_buf, cos_buf, out_buf, dt, n0, r);
    assert((|k: int| device_at(l, r, x_buf, l.gid * hd + k)) =~= (|k: int|
        (l.bufs)(x_buf, l.gid * hd + k)));
    let got = run(ar, l, rope_code(hd, x_buf, cos_buf, out_buf, dt, n0), r).stored;
    let t = |i: int|
        rotated(
            ar,
            |k: int| device_at(l, r, x_buf, l.gid * hd + k),
            |k: int| (l.bufs)(cos_buf, k),
            (hd / 2) as int,
            i,
        );
    let u = |i: int|
        rotated(
            ar,
            |k: int| (l.bufs)(x_buf, l.gid * hd + k),
            |k: int| (l.bufs)(cos_buf, k),
            (hd / 2) as int,
            i,
        );
    assert(t =~= u);
    assert(got =~= row(out_buf, l.gid * hd, 2 * (hd / 2) as int, u));
}

/// A block and then another, for one thread.
pub proof fn lemma_run_cat<V>(
    ar: Arith<V>,
    l: Lane<V>,
    b: Seq<Code>,
    d: Seq<Code>,
    k: nat,
    r: Regs<V>,
)
    requires
        k <= d.len(),
    ensures
        run(ar, l, b + d.take(k as int), r) == run_to(ar, l, d, k, run(ar, l, b, r)),
    decreases k,
{
    if k == 0 {
        assert(b + d.take(0) =~= b);
    } else {
        lemma_run_cat(ar, l, b, d, (k - 1) as nat, r);
        assert(b + d.take(k as int) =~= (b + d.take(k - 1)).push(d[k - 1]));
        lemma_run_push(ar, l, b + d.take(k - 1), d[k - 1], r);
    }
}

/// The kernel that does both stores, for head `gid`, that head normalised and then rotated, and
/// nothing else: the rotation reads back what the thread stored.
pub proof fn lemma_rmsnorm_rope<V>(
    ar: Arith<V>,
    l: Lane<V>,
    hd: usize,
    eps: Scalar,
    with_weight: bool,
    dt: DType,
)
    requires
        0 <= l.gid,
        hd <= u32::MAX,
        counts(ar, (l.gid + 1) * hd + 1),
    ensures
        run(ar, l, rmsnorm_rope_code(hd, eps, with_weight, dt, 0), blank()).stored == row(
            3,
            l.gid * hd,
            hd as int,
            |i: int|
                rotated(
                    ar,
                    own_head(ar, l, hd, eps, with_weight, 0, 1),
                    |k: int| (l.bufs)(2, k),
                    (hd / 2) as int,
                    i,
                ),
        ),
{
    reveal(rmsnorm_rope_code);
    let b = rmsnorm_per_head_code(hd, eps, with_weight, 0, 1, 3, dt, 0);
    let d = rope_code(hd, 3, 2, 3, dt, 5);
    let half = (hd / 2) as int;
    let at = l.gid * hd;
    let x = own_head(ar, l, hd, eps, with_weight, 0, 1);
    let angle = |k: int| (l.bufs)(2, k);
    lemma_rmsnorm_per_head(ar, l, hd, eps, with_weight, 0, 1, 3, dt, 0);
    let r = run(ar, l, b, blank());
    assert(r.stored == row(3, at, hd as int, x));
    lemma_rope_from(ar, l, hd, 3, 2, 3, dt, 5, r);
    lemma_run_cat(ar, l, b, d, d.len(), blank());
    assert(d.take(d.len() as int) =~= d);
    let got = run(ar, l, b + d, blank()).stored;
    let y = |k: int| device_at(l, r, 3, l.gid * hd + k);
    assert forall|k: int| 0 <= k < hd implies #[trigger] y(k) == x(k) by {
        assert(r.stored.contains_key((3u32, at + k)));
    }
    let t = |i: int| rotated(ar, x, angle, half, i);
    let u = |i: int| rotated(ar, y, angle, half, i);
    assert forall|i: int| 0 <= i < hd implies #[trigger] t(i) == u(i) by {
        if i < half {
            assert(y(i) == x(i) && y(half + i) == x(half + i));
        } else if i < 2 * half {
            assert(y(i) == x(i) && y(i - half) == x(i - half));
        } else {
            assert(y(i) == x(i));
        }
    }
    assert(got == r.stored.union_prefer_right(row(3, at, 2 * half, u)));
    let want = row(3, at, hd as int, t);
    assert forall|p: (u32, int)| want.contains_key(p) implies #[trigger] got[p] == want[p] by {
        assert(t(p.1 - at) == u(p.1 - at));
        assert(want[p] == t(p.1 - at));
        if p.1 - at >= 2 * half {
            assert(t(p.1 - at) == x(p.1 - at));
        }
    }
    assert(got =~= want);
}

} // verus!
