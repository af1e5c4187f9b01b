//! What the kernels compute that project and normalise in one group of threads.

use vstd::prelude::*;

use crate::codegen::laws::fused::{clamped, gelu, lemma_gelu_steps};
use crate::codegen::laws::group::{
    has_put, lemma_all_put, lemma_apart_quiet, lemma_nothing_stored, lemma_putting, putting, quiet,
};
use crate::codegen::laws::machine::{
    apart, collected, device_writes, fresh_group, group_run, index, lane, lemma_group_push,
    lemma_run_one, lemma_run_push, meets, only_in, run, shared_at, step, turns, value, waits, Arith,
    Group, Lane, Regs,
};
use crate::codegen::laws::norm::{inverse_root, normed};
use crate::codegen::laws::per_head::lemma_run_cat;
use crate::codegen::laws::solo::lemma_group_cat;
use crate::codegen::laws::sums::{lemma_assoc, lemma_first_turn, lemma_other_remainders, series};
use crate::codegen::laws::twice::{but_factor, factor_code, filled, lemma_factor, reads, root_of};
use crate::codegen::lower::block::{
    accumulate, barrier, c, code, cs, cu, ld, let_f, let_u, lid, plus, tg_decl, tg_load, tg_store,
    times, uv, v, vec_dot, Extend,
};
use crate::codegen::lower::elem::gelu_code;
use crate::codegen::lower::fused::{ple_code, ple_error, proj_rms_code, proj_rms_error};
use crate::codegen::lower::matvec::copy_x_code;
use crate::ir::dtype::{DType, Scalar, ZERO};
use crate::ir::kernel::{Code, KirExpr};

verus! {

/// Whether an array of the group holds `n` elements.
pub open spec fn has_array<V>(
    shared: Map<(u32, int), V>,
    id: u32,
    n: int,
    x: spec_fn(int) -> V,
) -> bool {
    forall|d: int|
        0 <= d < n ==> #[trigger] shared.contains_key((id, d)) && shared[(id, d)] == x(d)
}

/// What a block does that puts element `u[k]` into an array of the group.
spec fn fills_one<V>(p: Regs<V>, r: Regs<V>, k: u32, dst: u32, t: spec_fn(int) -> V) -> bool {
    &&& p.u[k] == r.u[k]
    &&& p.stored == r.stored
    &&& p.writes == r.writes.insert((dst, r.u[k]), t(r.u[k]))
}

/// Whether a block puts one of `n` elements into an array of the group.
spec fn fills<V>(
    ar: Arith<V>,
    l: Lane<V>,
    body: Seq<Code>,
    k: u32,
    dst: u32,
    n: int,
    t: spec_fn(int) -> V,
) -> bool {
    forall|r: Regs<V>|
        r.stored == Map::<(u32, int), V>::empty() && only_in(r.writes, dst) && 0 <= r.u[k] < n
            ==> fills_one(#[trigger] run(ar, l, body, r), r, k, dst, t)
}

/// Whether a thread has put those of the first `m` of `n` elements that fall to it, and nothing
/// else.
spec fn has_filled<V>(
    r: Regs<V>,
    dst: u32,
    n: int,
    tg: int,
    lid: int,
    m: int,
    t: spec_fn(int) -> V,
) -> bool {
    &&& r.stored == Map::<(u32, int), V>::empty()
    &&& forall|at: (u32, int)| #[trigger]
        r.writes.contains_key(at) ==> at.0 == dst && 0 <= at.1 < n && r.writes[at] == t(at.1)
    &&& forall|d: int|
        0 <= d < m && d < n && #[trigger] (d % tg) == lid ==> r.writes.contains_key((dst, d))
}

spec fn fill_loop(k: u32, n: u32, tg: u32, body: Seq<Code>) -> Code {
    Code::ForRange { id: k, limit_off: cu(0), bound: cu(n), step: cu(tg), body }
}

/// A thread puts every element that falls to it.
proof fn lemma_fill_loop<V>(
    ar: Arith<V>,
    l: Lane<V>,
    body: Seq<Code>,
    k: u32,
    dst: u32,
    n: u32,
    tg: u32,
    t: spec_fn(int) -> V,
    r: Regs<V>,
)
    requires
        0 < tg,
        n + tg <= u32::MAX,
        fills(ar, l, body, k, dst, n as int, t),
        0 <= r.u[k] < n + tg,
        r.u[k] % tg as int == l.lid,
        has_filled(r, dst, n as int, tg as int, l.lid, r.u[k], t),
    ensures
        has_filled(
            turns(ar, l, fill_loop(k, n, tg, body), r),
            dst,
            n as int,
            tg as int,
            l.lid,
            n as int,
            t,
        ),
    decreases n + tg - r.u[k],
{
    let whole = fill_loop(k, n, tg, body);
    let at = r.u[k];
    assert(index(ar, l, r, cu(0)) == 0);
    assert(index(ar, l, r, cu(n)) == n);
    if at < n {
        let b = run(ar, l, body, r);
        assert(fills_one(b, r, k, dst, t));
        assert(index(ar, l, b, cu(tg)) == tg);
        let next = Regs { u: b.u.insert(k, at + tg), ..b };
        assert(turns(ar, l, whole, r) == turns(ar, l, whole, next));
        lemma_other_remainders(at, tg as int, l.lid);
        assert forall|d: int| 0 <= d < at + tg && d < n && #[trigger] (d % tg as int) == l.lid
            implies next.writes.contains_key((dst, d)) by {
            if d < at {
                assert(r.writes.contains_key((dst, d)));
            }
        }
        lemma_fill_loop(ar, l, body, k, dst, n, tg, t, next);
    } else {
        assert(turns(ar, l, whole, r) == r);
    }
}

/// What the first `lanes` threads have put, the group has; other arrays stay.
proof fn lemma_collect<V>(
    m: Map<(u32, int), V>,
    regs: Seq<Regs<V>>,
    dst: u32,
    n: int,
    t: spec_fn(int) -> V,
    lanes: nat,
    at: (u32, int),
)
    requires
        lanes <= regs.len(),
        forall|i: int|
            0 <= i < lanes ==> has_filled(
                #[trigger] regs[i],
                dst,
                n,
                regs.len() as int,
                i,
                n,
                t,
            ),
    ensures
        ({
            let s = collected(m, regs, lanes);
            &&& at.0 == dst && 0 <= at.1 < n && 0 <= (at.1 % regs.len() as int) < lanes
                ==> s.contains_key(at) && s[at] == t(at.1)
            &&& at.0 != dst && m.contains_key(at) ==> s.contains_key(at) && s[at] == m[at]
        }),
    decreases lanes,
{
    if lanes > 0 {
        lemma_collect(m, regs, dst, n, t, (lanes - 1) as nat, at);
        let last = regs[lanes - 1];
        assert(has_filled(last, dst, n, regs.len() as int, lanes - 1, n, t));
        if at.0 == dst && 0 <= at.1 < n && at.1 % regs.len() as int == lanes - 1 {
            assert(last.writes.contains_key((dst, at.1)));
        }
    }
}

/// A group of `tg` threads that have written nothing.
spec fn idle<V>(g: Group<V>, tg: nat) -> bool {
    &&& g.regs.len() == tg
    &&& g.stored == Map::<(u32, int), V>::empty()
    &&& forall|i: int| 0 <= i < g.regs.len() ==> quiet(#[trigger] g.regs[i])
}

/// The statements that fill an array of the group.
spec fn fill_code(b: Seq<Code>, k: u32, n: u32, tg: u32, body: Seq<Code>) -> Seq<Code> {
    b.s(let_u(k, lid())).push(fill_loop(k, n, tg, body)).s(barrier())
}

/// After them it is filled, and other arrays are as before.
proof fn lemma_fill<V>(
    ar: Arith<V>,
    gid: int,
    bufs: spec_fn(u32, int) -> V,
    b: Seq<Code>,
    g0: Group<V>,
    k: u32,
    dst: u32,
    n: u32,
    tg: u32,
    body: Seq<Code>,
    t: spec_fn(int) -> V,
)
    requires
        0 < tg,
        n + tg <= u32::MAX,
        idle(group_run(ar, gid, bufs, b, g0), tg as nat),
        !waits(body),
        ({
            let g = group_run(ar, gid, bufs, b, g0);
            forall|i: int|
                0 <= i < tg ==> fills(
                    ar,
                    #[trigger] lane(gid, bufs, g, i),
                    body,
                    k,
                    dst,
                    n as int,
                    t,
                )
        }),
    ensures
        ({
            let g = group_run(ar, gid, bufs, b, g0);
            let h = group_run(ar, gid, bufs, fill_code(b, k, n, tg, body), g0);
            &&& idle(h, tg as nat)
            &&& has_array(h.shared, dst, n as int, t)
            &&& forall|at: (u32, int)|
                at.0 != dst && g.shared.contains_key(at) ==> #[trigger] h.shared.contains_key(at)
                    && h.shared[at] == g.shared[at]
        }),
{
    let s1 = Code::Flat(let_u(k, lid()));
    let s2 = fill_loop(k, n, tg, body);
    let s3 = Code::Flat(barrier());
    let g1 = group_run(ar, gid, bufs, b, g0);
    let g2 = group_run(ar, gid, bufs, b.push(s1), g0);
    let g3 = group_run(ar, gid, bufs, b.push(s1).push(s2), g0);
    let g4 = group_run(ar, gid, bufs, b.push(s1).push(s2).push(s3), g0);
    lemma_group_push(ar, gid, bufs, b, s1, g0);
    lemma_group_push(ar, gid, bufs, b.push(s1), s2, g0);
    lemma_group_push(ar, gid, bufs, b.push(s1).push(s2), s3, g0);
    assert forall|i: int| 0 <= i < g1.regs.len() implies #[trigger] step(
        ar,
        lane(gid, bufs, g1, i),
        s1,
        g1.regs[i],
    ) == (Regs { u: g1.regs[i].u.insert(k, i), ..g1.regs[i] }) && quiet(g1.regs[i]) by {
        assert(index(ar, lane(gid, bufs, g1, i), g1.regs[i], lid()) == i);
    }
    lemma_apart_quiet(ar, gid, bufs, s1, g1);
    let after = Seq::new(g2.regs.len(), |i: int| step(ar, lane(gid, bufs, g2, i), s2, g2.regs[i]));
    assert forall|i: int| 0 <= i < after.len() implies has_filled(
        #[trigger] after[i],
        dst,
        n as int,
        after.len() as int,
        i,
        n as int,
        t,
    ) by {
        let l = lane(gid, bufs, g2, i);
        assert(l == lane(gid, bufs, g1, i));
        assert(g2.regs[i] == step(ar, lane(gid, bufs, g1, i), s1, g1.regs[i]));
        lemma_first_turn(ar, t, tg as int, i);
        assert forall|d: int| 0 <= d < i && d < n && #[trigger] (d % tg as int) == i implies g2
            .regs[i].writes.contains_key((dst, d)) by {
            lemma_first_turn(ar, t, tg as int, d);
        }
        lemma_fill_loop(ar, l, body, k, dst, n, tg, t, g2.regs[i]);
    }
    assert(!meets(s2));
    assert(g3 == apart(ar, gid, bufs, s2, g2));
    lemma_nothing_stored(g2.stored, after, 0, after.len());
    assert(g4 == g3);
    assert(idle(g4, tg as nat)) by {
        assert forall|i: int| 0 <= i < g4.regs.len() implies quiet(#[trigger] g4.regs[i]) by {
            assert(g4.regs[i] == (Regs {
                writes: Map::empty(),
                stored: Map::empty(),
                ..after[i]
            }));
        }
    }
    assert forall|d: int| 0 <= d < n implies #[trigger] g4.shared.contains_key((dst, d))
        && g4.shared[(dst, d)] == t(d) by {
        assert(0 <= d % tg as int && (d % tg as int) < tg) by (nonlinear_arith)
            requires
                tg >= 1,
        ;
        lemma_collect(g2.shared, after, dst, n as int, t, after.len(), (dst, d));
    }
    assert forall|at: (u32, int)|
        at.0 != dst && g1.shared.contains_key(at) implies #[trigger] g4.shared.contains_key(at)
        && g4.shared[at] == g1.shared[at] by {
        lemma_collect(g2.shared, after, dst, n as int, t, after.len(), at);
    }
}

/// The declaration of an array changes nothing.
proof fn lemma_declare<V>(
    ar: Arith<V>,
    gid: int,
    bufs: spec_fn(u32, int) -> V,
    b: Seq<Code>,
    g0: Group<V>,
    id: u32,
    n: usize,
    tg: nat,
)
    requires
        idle(group_run(ar, gid, bufs, b, g0), tg),
    ensures
        group_run(ar, gid, bufs, b.s(tg_decl(id, n)), g0) == group_run(ar, gid, bufs, b, g0),
{
    let s = Code::Flat(tg_decl(id, n));
    let g = group_run(ar, gid, bufs, b, g0);
    lemma_group_push(ar, gid, bufs, b, s, g0);
    assert forall|i: int| 0 <= i < g.regs.len() implies quiet(
        #[trigger] step(ar, lane(gid, bufs, g, i), s, g.regs[i]),
    ) by {
        assert(quiet(g.regs[i]));
    }
    lemma_apart_quiet(ar, gid, bufs, s, g);
    let h = group_run(ar, gid, bufs, b.s(tg_decl(id, n)), g0);
    assert(h.regs =~= g.regs) by {
        assert forall|i: int| 0 <= i < g.regs.len() implies #[trigger] h.regs[i] == g.regs[i] by {
            assert(h.regs[i] == step(ar, lane(gid, bufs, g, i), s, g.regs[i]));
        }
    }
}

/// A dot product adds its products to a sum.
proof fn lemma_dot_adds<V>(
    ar: Arith<V>,
    a: spec_fn(int) -> V,
    b: spec_fn(int) -> V,
    t: spec_fn(int) -> V,
    at: nat,
    n: nat,
)
    requires
        ar.exact(),
        n >= 1,
        forall|i: int| 0 <= i < n ==> #[trigger] t(at + i) == ar.product(a(i), b(i)),
    ensures
        ar.sum(series(ar, t, at), ar.dot(a, b, n)) == series(ar, t, at + n),
    decreases n,
{
    let last = n - 1;
    assert(t(at + last) == ar.product(a(last), b(last)));
    if n > 1 {
        lemma_dot_adds(ar, a, b, t, at, last as nat);
        lemma_assoc(ar, series(ar, t, at), ar.dot(a, b, last as nat), ar.product(a(last), b(last)));
    }
}

/// A row of a matrix times a vector.
pub open spec fn row_product<V>(
    ar: Arith<V>,
    bufs: spec_fn(u32, int) -> V,
    w: u32,
    x: spec_fn(int) -> V,
    cols: int,
) -> spec_fn(int) -> V {
    |r: int| series(ar, |i: int| ar.product(bufs(w, r * cols + i), x(i)), cols as nat)
}

/// The loop over the blocks of a row.
spec fn blocks(w: u32, src: u32, acc: u32, base: u32, k: u32, cols: u32) -> Code {
    fill_loop(
        k,
        cols,
        256,
        code().s(
            accumulate(
                acc,
                vec_dot(w, plus(uv(base), uv(k)), 1, uv(k), 256, DType::Q4K, Some(src)),
            ),
        ),
    )
}

/// The statements that take the product of row `u[row]`.
spec fn dot_code(
    w: u32,
    src: u32,
    row: u32,
    acc: u32,
    base: u32,
    k: u32,
    cols: u32,
) -> Seq<Code> {
    code().s(let_f(acc, c(ZERO))).s(let_u(base, times(uv(row), cu(cols)))).s(
        let_u(k, cu(0)),
    ).push(blocks(w, src, acc, base, k, cols))
}

/// Whether a thread reads a vector in an array of its group.
spec fn sees<V>(l: Lane<V>, r: Regs<V>, src: u32, n: int, x: spec_fn(int) -> V) -> bool {
    forall|i: int| 0 <= i < n ==> #[trigger] shared_at(l, r, src, i) == x(i)
}

/// The loop over the blocks adds up the row.
proof fn lemma_blocks<V>(
    ar: Arith<V>,
    l: Lane<V>,
    w: u32,
    src: u32,
    acc: u32,
    base: u32,
    k: u32,
    cols: u32,
    x: spec_fn(int) -> V,
    row: int,
    r: Regs<V>,
)
    requires
        ar.exact(),
        base != k,
        cols % 256 == 0,
        cols <= 8192,
        0 <= row <= 8192,
        r.u[base] == row * cols,
        sees(l, r, src, cols as int, x),
        0 <= r.u[k] <= cols,
        r.u[k] % 256 == 0,
        r.f[acc] == series(
            ar,
            |i: int| ar.product((l.bufs)(w, row * cols + i), x(i)),
            r.u[k] as nat,
        ),
    ensures
        ({
            let p = turns(ar, l, blocks(w, src, acc, base, k, cols), r);
            &&& p == (Regs { f: p.f, u: p.u, ..r })
            &&& p.f[acc] == row_product(ar, l.bufs, w, x, cols as int)(row)
            &&& forall|j: u32| j != acc ==> #[trigger] p.f[j] == r.f[j]
            &&& forall|j: u32| j != k ==> #[trigger] p.u[j] == r.u[j]
        }),
    decreases cols - r.u[k],
{
    let whole = blocks(w, src, acc, base, k, cols);
    let at = r.u[k];
    let t = |i: int| ar.product((l.bufs)(w, row * cols + i), x(i));
    assert(0 <= row * cols <= 8192 * 8192) by (nonlinear_arith)
        requires
            0 <= row <= 8192,
            0 <= cols <= 8192,
    ;
    assert(index(ar, l, r, cu(0)) == 0);
    assert(index(ar, l, r, cu(cols)) == cols);
    if at < cols {
        let e = vec_dot(w, plus(uv(base), uv(k)), 1, uv(k), 256, DType::Q4K, Some(src));
        let s = Code::Flat(accumulate(acc, e));
        lemma_run_one(ar, l, s, r);
        assert(index(ar, l, r, uv(base)) == row * cols);
        assert(index(ar, l, r, uv(k)) == at);
        assert(index(ar, l, r, plus(uv(base), uv(k))) == row * cols + at);
        let i = index(ar, l, r, plus(uv(base), uv(k)));
        let a = |n: int| (l.bufs)(w, i + n);
        let from = Some(src);
        let y = |n: int|
            match from {
                Some(id) => shared_at(l, r, id, at + n),
                None => (l.bufs)(1, at + n),
            };
        assert(value(ar, l, r, e) == ar.dot(a, y, 256));
        assert forall|n: int| 0 <= n < 256 implies #[trigger] t(at + n) == ar.product(
            a(n),
            y(n),
        ) by {
            assert(shared_at(l, r, src, at + n) == x(at + n));
        }
        lemma_dot_adds(ar, a, y, t, at as nat, 256);
        assert(value(ar, l, r, v(acc)) == r.f[acc]);
        let b = run(ar, l, code().push(s), r);
        assert(b == (Regs { f: r.f.insert(acc, series(ar, t, (at + 256) as nat)), ..r }));
        assert(index(ar, l, b, cu(256)) == 256);
        let next = Regs { u: b.u.insert(k, at + 256), ..b };
        assert(turns(ar, l, whole, r) == turns(ar, l, whole, next));
        assert forall|d: int| 0 <= d < cols implies #[trigger] shared_at(l, next, src, d)
            == x(d) by {
            assert(shared_at(l, r, src, d) == x(d));
        }
        lemma_blocks(ar, l, w, src, acc, base, k, cols, x, row, next);
    } else {
        assert(turns(ar, l, whole, r) == r);
        assert(row_product(ar, l.bufs, w, x, cols as int)(row) == series(ar, t, cols as nat)) by {
            assert(t =~= |i: int| ar.product((l.bufs)(w, row * (cols as int) + i), x(i)));
        }
    }
}

/// The product of a row.
proof fn lemma_dot_code<V>(
    ar: Arith<V>,
    l: Lane<V>,
    w: u32,
    src: u32,
    row: u32,
    acc: u32,
    base: u32,
    k: u32,
    cols: u32,
    x: spec_fn(int) -> V,
    r: Regs<V>,
)
    requires
        ar.exact(),
        base != k,
        row != base,
        row != k,
        cols % 256 == 0,
        cols <= 8192,
        0 <= r.u[row] <= 8192,
        sees(l, r, src, cols as int, x),
    ensures
        ({
            let p = run(ar, l, dot_code(w, src, row, acc, base, k, cols), r);
            &&& p == (Regs { f: p.f, u: p.u, ..r })
            &&& p.u[row] == r.u[row]
            &&& p.f[acc] == row_product(ar, l.bufs, w, x, cols as int)(r.u[row])
        }),
{
    let d = r.u[row];
    let s1 = Code::Flat(let_f(acc, c(ZERO)));
    let s2 = Code::Flat(let_u(base, times(uv(row), cu(cols))));
    let s3 = Code::Flat(let_u(k, cu(0)));
    let s4 = blocks(w, src, acc, base, k, cols);
    let b1 = code().push(s1);
    let b2 = b1.push(s2);
    let b3 = b2.push(s3);
    lemma_run_one(ar, l, s1, r);
    lemma_run_push(ar, l, b1, s2, r);
    lemma_run_push(ar, l, b2, s3, r);
    lemma_run_push(ar, l, b3, s4, r);
    assert(0 <= d * cols <= 8192 * 8192) by (nonlinear_arith)
        requires
            0 <= d <= 8192,
            0 <= cols <= 8192,
    ;
    let r1 = run(ar, l, b1, r);
    assert(value(ar, l, r, c(ZERO)) == ar.zero());
    assert(r1 == (Regs { f: r.f.insert(acc, ar.zero()), ..r }));
    assert(index(ar, l, r1, uv(row)) == d);
    assert(index(ar, l, r1, cu(cols)) == cols);
    let r2 = run(ar, l, b2, r);
    assert(r2 == (Regs { u: r1.u.insert(base, d * cols), ..r1 }));
    assert(index(ar, l, r2, cu(0)) == 0);
    let r3 = run(ar, l, b3, r);
    assert(r3 == (Regs { u: r2.u.insert(k, 0), ..r2 }));
    assert forall|i: int| 0 <= i < cols implies #[trigger] shared_at(l, r3, src, i) == x(i) by {
        assert(shared_at(l, r, src, i) == x(i));
    }
    lemma_blocks(ar, l, w, src, acc, base, k, cols, x, d, r3);
}

/// A thread whose group has a vector sees it while it writes to another array.
proof fn lemma_sees<V>(l: Lane<V>, r: Regs<V>, src: u32, dst: u32, n: int, x: spec_fn(int) -> V)
    requires
        has_array(l.shared, src, n, x),
        only_in(r.writes, dst),
        src != dst,
    ensures
        sees(l, r, src, n, x),
{
    assert forall|i: int| 0 <= i < n implies #[trigger] shared_at(l, r, src, i) == x(i) by {
        assert(l.shared.contains_key((src, i)));
    }
}

/// Rows of a product, put into an array of the group.
proof fn lemma_rows_fill<V>(
    ar: Arith<V>,
    l: Lane<V>,
    w: u32,
    src: u32,
    dst: u32,
    n0: u32,
    rows: int,
    cols: u32,
    x: spec_fn(int) -> V,
)
    requires
        ar.exact(),
        n0 + 4 <= u32::MAX,
        src != dst,
        cols % 256 == 0,
        cols <= 8192,
        rows <= 8192,
        has_array(l.shared, src, cols as int, x),
    ensures
        ({
            let row = n0;
            let acc = (n0 + 1) as u32;
            let b = dot_code(w, src, row, acc, (n0 + 2) as u32, (n0 + 3) as u32, cols).s(
                tg_store(dst, uv(row), v(acc)),
            );
            fills(ar, l, b, row, dst, rows, row_product(ar, l.bufs, w, x, cols as int)) && !waits(b)
        }),
{
    let row = n0;
    let acc = (n0 + 1) as u32;
    let base = (n0 + 2) as u32;
    let k = (n0 + 3) as u32;
    let d = dot_code(w, src, row, acc, base, k, cols);
    let s = Code::Flat(tg_store(dst, uv(row), v(acc)));
    let t = row_product(ar, l.bufs, w, x, cols as int);
    assert forall|r: Regs<V>|
        r.stored == Map::<(u32, int), V>::empty() && only_in(r.writes, dst) && 0 <= r.u[row]
            < rows implies fills_one(#[trigger] run(ar, l, d.push(s), r), r, row, dst, t) by {
        lemma_sees(l, r, src, dst, cols as int, x);
        lemma_dot_code(ar, l, w, src, row, acc, base, k, cols, x, r);
        lemma_run_push(ar, l, d, s, r);
        let p = run(ar, l, d, r);
        assert(index(ar, l, p, uv(row)) == r.u[row]);
        assert(value(ar, l, p, v(acc)) == t(r.u[row]));
    }
}

/// A vector of a device buffer, copied into array 0 of a fresh group.
proof fn lemma_copied<V>(
    ar: Arith<V>,
    gid: int,
    bufs: spec_fn(u32, int) -> V,
    cols: usize,
    i: u32,
)
    requires
        cols <= 8192,
    ensures
        ({
            let b = copy_x_code(cols, 1, 256, DType::F16, i);
            let g = group_run(ar, gid, bufs, b, fresh_group(256));
            &&& idle(g, 256)
            &&& has_array(g.shared, 0, cols as int, |d: int| bufs(1, d))
        }),
{
    let g0 = fresh_group::<V>(256);
    let x = |d: int| bufs(1, d);
    assert(group_run(ar, gid, bufs, code(), g0) == g0);
    lemma_declare(ar, gid, bufs, code(), g0, 0, cols, 256);
    let b = code().s(tg_decl(0, cols));
    let e = ld(1, uv(i), DType::F16);
    let s = Code::Flat(tg_store(0, uv(i), e));
    let body = code().push(s);
    assert forall|j: int| 0 <= j < 256 implies fills(
        ar,
        #[trigger] lane(gid, bufs, g0, j),
        body,
        i,
        0,
        cols as int,
        x,
    ) by {
        let l = lane(gid, bufs, g0, j);
        assert forall|r: Regs<V>|
            r.stored == Map::<(u32, int), V>::empty() && only_in(r.writes, 0) && 0 <= r.u[i]
                < cols implies fills_one(#[trigger] run(ar, l, body, r), r, i, 0, x) by {
            lemma_run_one(ar, l, s, r);
            assert(index(ar, l, r, uv(i)) == r.u[i]);
            assert(value(ar, l, r, e) == bufs(1, r.u[i]));
        }
    }
    lemma_fill(ar, gid, bufs, b, g0, i, 0, cols as u32, 256, body, x);
}

/// Whether an expression is the element `u[j]` of the output, for threads that know the factor.
spec fn ends_with<V>(
    ar: Arith<V>,
    bufs: spec_fn(u32, int) -> V,
    shared: Map<(u32, int), V>,
    val: KirExpr,
    inv: u32,
    factor: V,
    j: u32,
    n: int,
    out: u32,
    z: spec_fn(int) -> V,
) -> bool {
    forall|l: Lane<V>, q: Regs<V>|
        l.bufs == bufs && l.shared == shared && q.writes == Map::<(u32, int), V>::empty()
            && only_in(q.stored, out) && q.f[inv] == factor && 0 <= q.u[j] < n ==> #[trigger] value(
            ar,
            l,
            q,
            val,
        ) == z(q.u[j])
}

/// The end of both kernels: the factor of an array of the group, and a store of every element.
proof fn lemma_end<V>(
    ar: Arith<V>,
    gid: int,
    bufs: spec_fn(u32, int) -> V,
    g: Group<V>,
    id: u32,
    y: spec_fn(int) -> V,
    n: usize,
    eps: Scalar,
    n0: u32,
    val: KirExpr,
    out: u32,
    z: spec_fn(int) -> V,
)
    requires
        ar.exact(),
        n <= 8192,
        n0 + 4 <= u32::MAX,
        idle(g, 256),
        has_array(g.shared, id, n as int, y),
        ends_with(
            ar,
            bufs,
            g.shared,
            val,
            (n0 + 2) as u32,
            inverse_root(ar, y, n, eps),
            (n0 + 3) as u32,
            n as int,
            out,
            z,
        ),
    ensures
        ({
            let i = (n0 + 1) as u32;
            let j = (n0 + 3) as u32;
            let e = times(tg_load(id, uv(i)), tg_load(id, uv(i)));
            let b = factor_code(n0, i, (n0 + 2) as u32, e, n, eps, 256).s(let_u(j, lid())).push(
                putting(out, j, n as u32, 256, val),
            );
            group_run(ar, gid, bufs, b, g).stored == filled(out, n as int, z)
        }),
{
    let i = (n0 + 1) as u32;
    let inv = (n0 + 2) as u32;
    let j = (n0 + 3) as u32;
    let m = n as u32;
    let x = tg_load(id, uv(i));
    let e = times(x, x);
    let sq = |d: int| ar.product(y(d), y(d));
    assert(reads(ar, bufs, g.shared, e, i, n as int, sq)) by {
        assert forall|l: Lane<V>, q: Regs<V>|
            l.bufs == bufs && l.shared == g.shared && q.writes == Map::<(u32, int), V>::empty()
                && q.stored == Map::<(u32, int), V>::empty() && 0 <= q.u[i] < n implies #[trigger]
            value(ar, l, q, e) == sq(q.u[i]) by {
            assert(index(ar, l, q, uv(i)) == q.u[i]);
            assert(g.shared.contains_key((id, q.u[i])));
            assert(value(ar, l, q, x) == y(q.u[i]));
        }
    }
    lemma_factor(ar, gid, bufs, g, n0, i, inv, e, sq, n, eps, 256);
    let b = factor_code(n0, i, inv, e, n, eps, 256);
    let factor = inverse_root(ar, y, n, eps);
    assert(factor == root_of(ar, series(ar, sq, n as nat), n, eps));
    let s1 = Code::Flat(let_u(j, lid()));
    let s2 = putting(out, j, m, 256, val);
    lemma_group_push(ar, gid, bufs, b, s1, g);
    lemma_group_push(ar, gid, bufs, b.push(s1), s2, g);
    let g1 = group_run(ar, gid, bufs, b, g);
    let g2 = group_run(ar, gid, bufs, b.push(s1), g);
    let g3 = group_run(ar, gid, bufs, b.push(s1).push(s2), g);
    assert forall|k: int| 0 <= k < 256 implies #[trigger] step(
        ar,
        lane(gid, bufs, g1, k),
        s1,
        g1.regs[k],
    ) == (Regs { u: g1.regs[k].u.insert(j, k), ..g1.regs[k] }) && quiet(g1.regs[k]) by {
        assert(but_factor(g1.regs[k], g.regs[k], n0, i, inv));
        assert(index(ar, lane(gid, bufs, g1, k), g1.regs[k], lid()) == k);
    }
    lemma_apart_quiet(ar, gid, bufs, s1, g1);
    let after = Seq::new(g2.regs.len(), |k: int| step(ar, lane(gid, bufs, g2, k), s2, g2.regs[k]));
    assert forall|k: int| 0 <= k < after.len() implies has_put(
        #[trigger] after[k],
        out,
        n as int,
        after.len() as int,
        k,
        n as int,
        z,
    ) by {
        let l = lane(gid, bufs, g2, k);
        let r = g2.regs[k];
        assert(r == step(ar, lane(gid, bufs, g1, k), s1, g1.regs[k]));
        assert(but_factor(g1.regs[k], g.regs[k], n0, i, inv));
        assert(r.f[inv] == factor);
        lemma_first_turn(ar, sq, 256, k);
        assert forall|d: int| 0 <= d < k && d < n && #[trigger] (d % 256) == k implies r
            .stored.contains_key((out, d)) by {
            lemma_first_turn(ar, sq, 256, d);
        }
        assert forall|stored: Map<(u32, int), V>, d: int|
            only_in(stored, out) && 0 <= d < m implies #[trigger] value(
            ar,
            l,
            Regs { stored, u: r.u.insert(j, d), ..r },
            val,
        ) == z(d) by {
            let q = Regs { stored, u: r.u.insert(j, d), ..r };
            assert(q.u[j] == d);
        }
        lemma_putting(ar, l, out, j, m, 256, val, z, r);
    }
    assert(!meets(s2));
    assert(g3 == apart(ar, gid, bufs, s2, g2));
    lemma_all_put(after, out, n as int, z);
    assert(g3.stored == device_writes(g2.stored, after, after.len()));
    assert(g3.stored =~= filled(out, n as int, z));
}

/// The kernel that projects and normalises computes `rms(W . x) * w + residual`, scaled where that
/// is asked for, where sums may be taken in any order: it stores the `rows` elements and nothing
/// else.
pub proof fn lemma_proj_rms<V>(
    ar: Arith<V>,
    gid: int,
    bufs: spec_fn(u32, int) -> V,
    rows: usize,
    cols: usize,
    eps: Scalar,
    scale: Option<Scalar>,
)
    requires
        ar.exact(),
        proj_rms_error(rows, cols, DType::Q4K) is None,
    ensures
        group_run(
            ar,
            gid,
            bufs,
            proj_rms_code(rows, cols, eps, scale, 0),
            fresh_group(256),
        ).stored == filled(
            4,
            rows as int,
            |i: int|
                normed(
                    ar,
                    row_product(ar, bufs, 0, |d: int| bufs(1, d), cols as int),
                    |k: int| bufs(2, k),
                    Some(|k: int| bufs(3, k)),
                    scale,
                    rows,
                    eps,
                    i,
                ),
        ),
{
    reveal(proj_rms_error);
    reveal(proj_rms_code);
    let g0 = fresh_group::<V>(256);
    let x = |d: int| bufs(1, d);
    let y = row_product(ar, bufs, 0, x, cols as int);
    let z = |i: int|
        normed(
            ar,
            y,
            |k: int| bufs(2, k),
            Some(|k: int| bufs(3, k)),
            scale,
            rows,
            eps,
            i,
        );
    let b0 = copy_x_code(cols, 1, 256, DType::F16, 0);
    lemma_copied(ar, gid, bufs, cols, 0);
    lemma_declare(ar, gid, bufs, b0, g0, 1, rows, 256);
    let b1 = b0.s(tg_decl(1, rows));
    let g1 = group_run(ar, gid, bufs, b1, g0);
    let body = dot_code(0, 0, 1, 2, 3, 4, cols as u32).s(tg_store(1, uv(1), v(2)));
    assert forall|i: int| 0 <= i < 256 implies fills(
        ar,
        #[trigger] lane(gid, bufs, g1, i),
        body,
        1,
        1,
        rows as int,
        y,
    ) by {
        lemma_rows_fill(ar, lane(gid, bufs, g1, i), 0, 0, 1, 1, rows as int, cols as u32, x);
    }
    lemma_rows_fill(ar, lane(gid, bufs, g1, 0), 0, 0, 1, 1, rows as int, cols as u32, x);
    lemma_fill(ar, gid, bufs, b1, g0, 1, 1, rows as u32, 256, body, y);
    let b2 = fill_code(b1, 1, rows as u32, 256, body);
    let g2 = group_run(ar, gid, bufs, b2, g0);
    let factor = inverse_root(ar, y, rows, eps);
    let yj = tg_load(1, uv(8));
    let wj = ld(2, uv(8), DType::F16);
    let rj = ld(3, uv(8), DType::F16);
    let summed = plus(times(times(yj, v(7)), wj), rj);
    let val = match scale {
        Some(sc) => times(cs(sc), summed),
        None => summed,
    };
    assert(ends_with(ar, bufs, g2.shared, val, 7, factor, 8, rows as int, 4, z)) by {
        assert forall|l: Lane<V>, q: Regs<V>|
            l.bufs == bufs && l.shared == g2.shared && q.writes == Map::<(u32, int), V>::empty()
                && only_in(q.stored, 4) && q.f[7] == factor && 0 <= q.u[8]
                < rows implies #[trigger] value(ar, l, q, val) == z(q.u[8]) by {
            let d = q.u[8];
            assert(index(ar, l, q, uv(8)) == d);
            assert(g2.shared.contains_key((1u32, d)));
            assert(value(ar, l, q, yj) == y(d));
            assert(value(ar, l, q, v(7)) == factor);
            assert(value(ar, l, q, wj) == bufs(2, d));
            assert(value(ar, l, q, rj) == bufs(3, d));
            assert(value(ar, l, q, times(yj, v(7))) == ar.product(y(d), factor));
            assert(value(ar, l, q, times(times(yj, v(7)), wj)) == ar.product(
                ar.product(y(d), factor),
                bufs(2, d),
            ));
            assert(value(ar, l, q, summed) == ar.sum(
                value(ar, l, q, times(times(yj, v(7)), wj)),
                bufs(3, d),
            ));
            match scale {
                None => {},
                Some(sc) => {
                    assert(value(ar, l, q, cs(sc)) == (ar.constant)(sc));
                },
            }
        }
    }
    lemma_end(ar, gid, bufs, g2, 1, y, rows, eps, 5, val, 4, z);
    let e = times(tg_load(1, uv(6)), tg_load(1, uv(6)));
    let tail = factor_code(5, 6, 7, e, rows, eps, 256).s(let_u(8, lid())).push(
        putting(4, 8, rows as u32, 256, val),
    );
    lemma_group_cat(ar, gid, bufs, b2, tail, tail.len(), g0);
    assert(proj_rms_code(rows, cols, eps, scale, 0) =~= b2 + tail);
}

/// The gated context: the GELU of `Wg . x`, times the context from an offset on.
pub open spec fn gated_context<V>(
    ar: Arith<V>,
    bufs: spec_fn(u32, int) -> V,
    cols: int,
    ctx_off: int,
) -> spec_fn(int) -> V {
    let a = row_product(ar, bufs, 0, |d: int| bufs(1, d), cols);
    |r: int| ar.product(gelu(ar, clamped(ar, a(r))), bufs(2, ctx_off + r))
}

/// The gated rows, put into an array of the group.
proof fn lemma_gated_fill<V>(
    ar: Arith<V>,
    l: Lane<V>,
    rows: int,
    cols: u32,
    ctx_off: usize,
)
    requires
        ar.exact(),
        cols % 256 == 0,
        cols <= 8192,
        rows <= 8192,
        ctx_off + rows <= u32::MAX,
        has_array(l.shared, 0, cols as int, |d: int| (l.bufs)(1, d)),
    ensures
        ({
            let b = gelu_code(dot_code(0, 0, 1, 2, 3, 4, cols), v(2), 5, 6, 7).s(
                let_f(8, times(v(7), ld(2, plus(cu(ctx_off as u32), uv(1)), DType::F16))),
            ).s(tg_store(1, uv(1), v(8)));
            fills(
                ar,
                l,
                b,
                1,
                1,
                rows,
                gated_context(ar, l.bufs, cols as int, ctx_off as int),
            ) && !waits(b)
        }),
{
    let x = |d: int| (l.bufs)(1, d);
    let t = gated_context(ar, l.bufs, cols as int, ctx_off as int);
    let d = dot_code(0, 0, 1, 2, 3, 4, cols);
    let h = gelu_code(code(), v(2), 5, 6, 7);
    let place = plus(cu(ctx_off as u32), uv(1));
    let y = ld(2, place, DType::F16);
    let s1 = Code::Flat(let_f(8, times(v(7), y)));
    let s2 = Code::Flat(tg_store(1, uv(1), v(8)));
    let g = gelu_code(d, v(2), 5, 6, 7);
    assert(g =~= d + h);
    let b = g.push(s1).push(s2);
    assert forall|r: Regs<V>|
        r.stored == Map::<(u32, int), V>::empty() && only_in(r.writes, 1) && 0 <= r.u[1]
            < rows implies fills_one(#[trigger] run(ar, l, b, r), r, 1, 1, t) by {
        let at = r.u[1];
        lemma_sees(l, r, 0, 1, cols as int, x);
        lemma_dot_code(ar, l, 0, 0, 1, 2, 3, 4, cols, x, r);
        let p = run(ar, l, d, r);
        lemma_run_cat(ar, l, d, h, h.len(), r);
        assert(h.take(h.len() as int) =~= h);
        lemma_gelu_steps(ar, l, p, v(2), 5, 6, 7);
        let q = run(ar, l, g, r);
        assert(value(ar, l, p, v(2)) == p.f[2]);
        lemma_run_push(ar, l, g, s1, r);
        lemma_run_push(ar, l, g.push(s1), s2, r);
        assert(index(ar, l, q, uv(1)) == at);
        assert(index(ar, l, q, cu(ctx_off as u32)) == ctx_off);
        assert(index(ar, l, q, place) == ctx_off + at);
        assert(value(ar, l, q, y) == (l.bufs)(2, ctx_off + at));
        assert(value(ar, l, q, v(7)) == q.f[7]);
        let w = run(ar, l, g.push(s1), r);
        assert(w == (Regs { f: q.f.insert(8, t(at)), ..q }));
        assert(index(ar, l, w, uv(1)) == at);
        assert(value(ar, l, w, v(8)) == t(at));
    }
}

/// The kernel that gates, projects and normalises computes `u = gelu(Wg . x) * ctx`, `y = Wp . u`
/// and `scale * (residual + rms(y) * w)`, where sums may be taken in any order: it stores the
/// `proj_rows` elements and nothing else.
pub proof fn lemma_ple<V>(
    ar: Arith<V>,
    gid: int,
    bufs: spec_fn(u32, int) -> V,
    gate_rows: usize,
    cols: usize,
    proj_rows: usize,
    ctx_off: usize,
    eps: Scalar,
    scale: Scalar,
)
    requires
        ar.exact(),
        ple_error(gate_rows, cols, proj_rows, DType::Q4K) is None,
        ctx_off + gate_rows <= u32::MAX,
    ensures
        ({
            let u = gated_context(ar, bufs, cols as int, ctx_off as int);
            let y = row_product(ar, bufs, 3, u, gate_rows as int);
            group_run(
                ar,
                gid,
                bufs,
                ple_code(gate_rows, cols, proj_rows, ctx_off, eps, scale, 0),
                fresh_group(256),
            ).stored == filled(
                6,
                proj_rows as int,
                |i: int|
                    ar.product(
                        (ar.constant)(scale),
                        ar.sum(
                            bufs(5, i),
                            ar.product(
                                ar.product(y(i), inverse_root(ar, y, proj_rows, eps)),
                                bufs(4, i),
                            ),
                        ),
                    ),
            )
        }),
{
    reveal(ple_error);
    reveal(ple_code);
    let g0 = fresh_group::<V>(256);
    let x = |d: int| bufs(1, d);
    let u = gated_context(ar, bufs, cols as int, ctx_off as int);
    let y = row_product(ar, bufs, 3, u, gate_rows as int);
    let factor = inverse_root(ar, y, proj_rows, eps);
    let z = |i: int|
        ar.product(
            (ar.constant)(scale),
            ar.sum(bufs(5, i), ar.product(ar.product(y(i), factor), bufs(4, i))),
        );
    let b0 = copy_x_code(cols, 1, 256, DType::F16, 0);
    lemma_copied(ar, gid, bufs, cols, 0);
    lemma_declare(ar, gid, bufs, b0, g0, 1, gate_rows, 256);
    lemma_declare(ar, gid, bufs, b0.s(tg_decl(1, gate_rows)), g0, 2, proj_rows, 256);
    let b1 = b0.s(tg_decl(1, gate_rows)).s(tg_decl(2, proj_rows));
    let g1 = group_run(ar, gid, bufs, b1, g0);
    let body = gelu_code(dot_code(0, 0, 1, 2, 3, 4, cols as u32), v(2), 5, 6, 7).s(
        let_f(8, times(v(7), ld(2, plus(cu(ctx_off as u32), uv(1)), DType::F16))),
    ).s(tg_store(1, uv(1), v(8)));
    assert forall|i: int| 0 <= i < 256 implies fills(
        ar,
        #[trigger] lane(gid, bufs, g1, i),
        body,
        1,
        1,
        gate_rows as int,
        u,
    ) by {
        lemma_gated_fill(ar, lane(gid, bufs, g1, i), gate_rows as int, cols as u32, ctx_off);
    }
    lemma_gated_fill(ar, lane(gid, bufs, g1, 0), gate_rows as int, cols as u32, ctx_off);
    lemma_fill(ar, gid, bufs, b1, g0, 1, 1, gate_rows as u32, 256, body, u);
    let b2 = fill_code(b1, 1, gate_rows as u32, 256, body);
    let g2 = group_run(ar, gid, bufs, b2, g0);
    let more = dot_code(3, 1, 9, 10, 11, 12, gate_rows as u32).s(tg_store(2, uv(9), v(10)));
    assert forall|i: int| 0 <= i < 256 implies fills(
        ar,
        #[trigger] lane(gid, bufs, g2, i),
        more,
        9,
        2,
        proj_rows as int,
        y,
    ) by {
        lemma_rows_fill(
            ar,
            lane(gid, bufs, g2, i),
            3,
            1,
            2,
            9,
            proj_rows as int,
            gate_rows as u32,
            u,
        );
    }
    lemma_rows_fill(
        ar,
        lane(gid, bufs, g2, 0),
        3,
        1,
        2,
        9,
        proj_rows as int,
        gate_rows as u32,
        u,
    );
    lemma_fill(ar, gid, bufs, b2, g0, 9, 2, proj_rows as u32, 256, more, y);
    let b3 = fill_code(b2, 9, proj_rows as u32, 256, more);
    let g3 = group_run(ar, gid, bufs, b3, g0);
    let yj = tg_load(2, uv(16));
    let wj = ld(4, uv(16), DType::F16);
    let rj = ld(5, uv(16), DType::F16);
    let branch = times(times(yj, v(15)), wj);
    let val = times(cs(scale), plus(rj, branch));
    assert(ends_with(ar, bufs, g3.shared, val, 15, factor, 16, proj_rows as int, 6, z)) by {
        assert forall|l: Lane<V>, q: Regs<V>|
            l.bufs == bufs && l.shared == g3.shared && q.writes == Map::<(u32, int), V>::empty()
                && only_in(q.stored, 6) && q.f[15] == factor && 0 <= q.u[16]
                < proj_rows implies #[trigger] value(ar, l, q, val) == z(q.u[16]) by {
            let d = q.u[16];
            assert(index(ar, l, q, uv(16)) == d);
            assert(g3.shared.contains_key((2u32, d)));
            assert(value(ar, l, q, yj) == y(d));
            assert(value(ar, l, q, v(15)) == factor);
            assert(value(ar, l, q, wj) == bufs(4, d));
            assert(value(ar, l, q, rj) == bufs(5, d));
            assert(value(ar, l, q, times(yj, v(15))) == ar.product(y(d), factor));
            assert(value(ar, l, q, branch) == ar.product(
                ar.product(y(d), factor),
                bufs(4, d),
            ));
            assert(value(ar, l, q, plus(rj, branch)) == ar.sum(
                bufs(5, d),
                value(ar, l, q, branch),
            ));
            assert(value(ar, l, q, cs(scale)) == (ar.constant)(scale));
        }
    }
    lemma_end(ar, gid, bufs, g3, 2, y, proj_rows, eps, 13, val, 6, z);
    let e = times(tg_load(2, uv(14)), tg_load(2, uv(14)));
    let tail = factor_code(13, 14, 15, e, proj_rows, eps, 256).s(let_u(16, lid())).push(
        putting(6, 16, proj_rows as u32, 256, val),
    );
    lemma_group_cat(ar, gid, bufs, b3, tail, tail.len(), g0);
    assert(ple_code(gate_rows, cols, proj_rows, ctx_off, eps, scale, 0) =~= b3 + tail);
}

} // verus!
