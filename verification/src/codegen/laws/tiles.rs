//! What the attention kernel computes: tiles of keys and values, and the passes over them.

use vstd::prelude::*;

use crate::codegen::laws::attention::Attention;
use crate::codegen::laws::group::{lemma_nothing_stored, quiet};
use crate::codegen::laws::heads::lemma_scores;
use crate::codegen::laws::machine::{
    apart, block_meets, collected, device_writes, group_run, group_turns, holds, index, lane,
    lemma_group_push, lemma_run_one, lemma_run_push, meets, run, step, turns, waits, Group, Lane,
    Regs,
};
use crate::codegen::laws::solo::lemma_group_cat;
use crate::codegen::laws::sums::{lemma_first_turn, lemma_other_remainders};
use crate::codegen::lower::block::{barrier, code, cu, gt, let_u, lid, plus, times, uv, Extend};
use crate::codegen::lower::sdpa::{
    kv_row, load_row_code, loads_code, pass_code, scores_code, sdpa_ids, tile_row, SdpaIds,
};
use crate::ir::kernel::{Code, KirStmt};

verus! {

impl<V> Attention<V> {
    /// Whether a thread has written its share of the first `n` groups of four elements of row `row`
    /// of the tile, and nothing but elements of the key and the value of position `t`.
    spec fn loaded(self, row: int, t: int, lid: int, p: Regs<V>, n: int) -> bool {
        &&& p.stored == Map::<(u32, int), V>::empty()
        &&& forall|at: (u32, int)| #[trigger]
            p.writes.contains_key(at) ==> {
                let d = at.1 - row * self.hd;
                &&& 0 <= d < self.hd
                &&& at.0 == 0 || at.0 == 1
                &&& p.writes[at] == (if at.0 == 0 {
                    self.key(t, d)
                } else {
                    self.val(t, d)
                })
            }
        &&& forall|q: int, j: int|
            #![trigger p.writes.contains_key((0u32, row * self.hd + 4 * q + j))]
            0 <= q < n && q % self.threads() == lid && 0 <= j < 4 ==> p.writes.contains_key(
                (0u32, row * self.hd + 4 * q + j),
            )
        &&& forall|q: int, j: int|
            #![trigger p.writes.contains_key((1u32, row * self.hd + 4 * q + j))]
            0 <= q < n && q % self.threads() == lid && 0 <= j < 4 ==> p.writes.contains_key(
                (1u32, row * self.hd + 4 * q + j),
            )
    }

    /// One of the two statements that load four elements.
    spec fn four(self, row: int, buf: u32) -> KirStmt {
        let d = (20 + 2 * row) as u32;
        KirStmt::TgStoreF4FromLoad {
            tg_id: (buf - 1) as u32,
            tg_off: plus(cu((row * self.hd) as u32), times(uv(d), cu(4))),
            src_buf: buf,
            src_elem: plus(kv_row(sdpa_ids(0), row as u32, self.hd as u32), times(uv(d), cu(4))),
            dtype: self.kv_dt,
        }
    }

    spec fn load_loop(self, row: int) -> Code {
        Code::ForRange {
            id: (20 + 2 * row) as u32,
            limit_off: cu(0),
            bound: cu(((self.hd as u32) / 4) as u32),
            step: cu(self.threads() as u32),
            body: code().s(self.four(row, 1)).s(self.four(row, 2)),
        }
    }

    spec fn load_row(self, row: int) -> Seq<Code> {
        code().s(let_u((20 + 2 * row) as u32, lid())).push(self.load_loop(row))
    }
}

/// Everything but the variable of a loading loop and the writes is as before.
spec fn but_writes<V>(p: Regs<V>, r: Regs<V>, d: u32) -> bool {
    &&& p.local == r.local
    &&& p.f == r.f
    &&& forall|j: u32| j != d ==> #[trigger] p.u[j] == r.u[j]
}

/// One of the two statements of a turn.
proof fn lemma_four_step<V>(
    a: Attention<V>,
    l: Lane<V>,
    r: Regs<V>,
    row: int,
    at: int,
    buf: u32,
)
    requires
        a.ok(),
        l.bufs == a.bufs,
        buf == 1 || buf == 2,
        0 <= row < 8,
        0 <= at,
        at + row < a.tlen(),
        r.u[6] == a.start(),
        r.u[9] == at,
        0 <= 4 * r.u[(20 + 2 * row) as u32] < a.hd,
    ensures
        ({
            let x = 4 * r.u[(20 + 2 * row) as u32];
            let t = at + row;
            let from = (a.start() + t) * a.hd + x;
            let id = (buf - 1) as u32;
            let to = row * a.hd + x;
            step(a.ar, l, Code::Flat(a.four(row, buf)), r) == (Regs {
                writes: r.writes.insert((id, to), (a.bufs)(buf, from)).insert(
                    (id, to + 1),
                    (a.bufs)(buf, from + 1),
                ).insert((id, to + 2), (a.bufs)(buf, from + 2)).insert(
                    (id, to + 3),
                    (a.bufs)(buf, from + 3),
                ),
                ..r
            })
        }),
{
    let d = (20 + 2 * row) as u32;
    let x = 4 * r.u[d];
    let t = at + row;
    let base = (a.start() + t) * a.hd;
    assert(0 <= base && base + a.hd <= u32::MAX) by (nonlinear_arith)
        requires
            base == (a.start() + t) * a.hd,
            0 <= a.start(),
            0 <= t < a.tlen(),
            0 <= a.hd,
            (a.start() + a.tlen()) * a.hd <= u32::MAX,
    ;
    let off = row * a.hd;
    assert(0 <= off <= 7 * 4096) by (nonlinear_arith)
        requires
            0 <= row < 8,
            off == row * a.hd,
            0 <= a.hd <= 4096,
    ;
    assert(index(a.ar, l, r, uv(d)) == r.u[d]);
    assert(index(a.ar, l, r, cu(4)) == 4);
    assert(index(a.ar, l, r, times(uv(d), cu(4))) == x);
    assert(index(a.ar, l, r, cu(off as u32)) == off);
    assert(index(a.ar, l, r, plus(cu(off as u32), times(uv(d), cu(4)))) == off + x);
    assert(index(a.ar, l, r, uv(9)) == at);
    assert(index(a.ar, l, r, cu(row as u32)) == row);
    assert(index(a.ar, l, r, plus(uv(9), cu(row as u32))) == t);
    assert(index(a.ar, l, r, uv(6)) == a.start());
    let pos = plus(uv(6), plus(uv(9), cu(row as u32)));
    assert(index(a.ar, l, r, pos) == a.start() + t);
    assert(index(a.ar, l, r, cu(a.hd as u32)) == a.hd);
    let whole = kv_row(sdpa_ids(0), row as u32, a.hd as u32);
    assert(whole == times(pos, cu(a.hd as u32)));
    assert(index(a.ar, l, r, whole) == base);
    assert(index(a.ar, l, r, plus(whole, times(uv(d), cu(4)))) == base + x);
}

/// The loop by which a thread loads its share of a row.
proof fn lemma_load_loop<V>(
    a: Attention<V>,
    l: Lane<V>,
    r: Regs<V>,
    row: int,
    at: int,
)
    requires
        a.ok(),
        l.bufs == a.bufs,
        0 <= row < 8,
        0 <= at,
        at + row < a.tlen(),
        r.u[6] == a.start(),
        r.u[9] == at,
        0 <= r.u[(20 + 2 * row) as u32] < a.hd / 4 + a.threads(),
        r.u[(20 + 2 * row) as u32] % a.threads() == l.lid,
        a.loaded(row, at + row, l.lid, r, r.u[(20 + 2 * row) as u32]),
    ensures
        ({
            let p = turns(a.ar, l, a.load_loop(row), r);
            &&& but_writes(p, r, (20 + 2 * row) as u32)
            &&& a.loaded(row, at + row, l.lid, p, a.hd as int / 4)
        }),
    decreases a.hd / 4 + a.threads() - r.u[(20 + 2 * row) as u32],
{
    let (ar, tg) = (a.ar, a.threads());
    let d = (20 + 2 * row) as u32;
    let whole = a.load_loop(row);
    let q = r.u[d];
    let t = at + row;
    let n = a.hd as int / 4;
    assert(index(ar, l, r, cu(0)) == 0);
    assert(index(ar, l, r, cu(((a.hd as u32) / 4) as u32)) == n);
    if q < n {
        let s1 = Code::Flat(a.four(row, 1));
        let s2 = Code::Flat(a.four(row, 2));
        lemma_run_one(ar, l, s1, r);
        lemma_run_push(ar, l, code().push(s1), s2, r);
        lemma_four_step(a, l, r, row, at, 1);
        let mid = run(ar, l, code().push(s1), r);
        lemma_four_step(a, l, mid, row, at, 2);
        let b = run(ar, l, code().push(s1).push(s2), r);
        assert(index(ar, l, b, cu(tg as u32)) == tg);
        let next = Regs { u: b.u.insert(d, q + tg), ..b };
        assert(turns(ar, l, whole, r) == turns(ar, l, whole, next));
        lemma_other_remainders(q, tg, l.lid);
        let x = 4 * q;
        let base = (a.start() + t) * a.hd;
        let off = row * a.hd;
        assert forall|k: (u32, int)| #[trigger] next.writes.contains_key(k) implies {
            let e = k.1 - off;
            &&& 0 <= e < a.hd
            &&& k.0 == 0 || k.0 == 1
            &&& next.writes[k] == (if k.0 == 0 {
                a.key(t, e)
            } else {
                a.val(t, e)
            })
        } by {
            if off + x <= k.1 < off + x + 4 && (k.0 == 0 || k.0 == 1) {
                let e = k.1 - off;
                assert(a.key(t, e) == (a.bufs)(1, base + e));
                assert(a.val(t, e) == (a.bufs)(2, base + e));
            } else {
                assert(r.writes.contains_key(k));
                assert(next.writes[k] == r.writes[k]);
            }
        }
        assert forall|p: int, j: int|
            #![trigger next.writes.contains_key((0u32, row * a.hd + 4 * p + j))]
            0 <= p < q + tg && p % tg == l.lid && 0 <= j < 4 implies next.writes.contains_key(
            (0u32, row * a.hd + 4 * p + j),
        ) by {
            if p < q {
                assert(r.writes.contains_key((0u32, row * a.hd + 4 * p + j)));
            } else {
                assert(p == q);
            }
        }
        assert forall|p: int, j: int|
            #![trigger next.writes.contains_key((1u32, row * a.hd + 4 * p + j))]
            0 <= p < q + tg && p % tg == l.lid && 0 <= j < 4 implies next.writes.contains_key(
            (1u32, row * a.hd + 4 * p + j),
        ) by {
            if p < q {
                assert(r.writes.contains_key((1u32, row * a.hd + 4 * p + j)));
            } else {
                assert(p == q);
            }
        }
        lemma_load_loop(a, l, next, row, at);
    } else {
        assert(turns(ar, l, whole, r) == r);
    }
}

/// A thread loads its share of a row.
proof fn lemma_load_lane<V>(
    a: Attention<V>,
    l: Lane<V>,
    i: int,
    r: Regs<V>,
    row: int,
    at: int,
    n: nat,
)
    requires
        a.ok(),
        l.bufs == a.bufs,
        l.lid == i,
        0 <= i < a.threads(),
        a.placed(i, r),
        a.folded(i, r, n),
        r.u[9] == at,
        0 <= row < 8,
        0 <= at,
        at + row < a.tlen(),
    ensures
        ({
            let p = run(a.ar, l, a.load_row(row), r);
            let q = Regs {
                writes: Map::<(u32, int), V>::empty(),
                stored: Map::<(u32, int), V>::empty(),
                ..p
            };
            &&& a.loaded(row, at + row, i, p, a.hd as int / 4)
            &&& a.placed(i, q)
            &&& a.folded(i, q, n)
            &&& q.u[9] == at
        }),
{
    let d = (20 + 2 * row) as u32;
    let s0 = Code::Flat(let_u(d, lid()));
    lemma_run_one(a.ar, l, s0, r);
    lemma_run_push(a.ar, l, code().push(s0), a.load_loop(row), r);
    let mid = run(a.ar, l, code().push(s0), r);
    assert(index(a.ar, l, r, lid()) == i);
    assert(mid == (Regs { u: r.u.insert(d, i), ..r }));
    lemma_first_turn(a.ar, a.term(0, 0), a.threads(), i);
    assert forall|q: int, j: int|
        #![trigger mid.writes.contains_key((0u32, row * a.hd + 4 * q + j))]
        0 <= q < i && q % a.threads() == i && 0 <= j < 4 implies mid.writes.contains_key(
        (0u32, row * a.hd + 4 * q + j),
    ) by {
        lemma_first_turn(a.ar, a.term(0, 0), a.threads(), q);
    }
    assert forall|q: int, j: int|
        #![trigger mid.writes.contains_key((1u32, row * a.hd + 4 * q + j))]
        0 <= q < i && q % a.threads() == i && 0 <= j < 4 implies mid.writes.contains_key(
        (1u32, row * a.hd + 4 * q + j),
    ) by {
        lemma_first_turn(a.ar, a.term(0, 0), a.threads(), q);
    }
    lemma_load_loop(a, l, mid, row, at);
    let p = run(a.ar, l, a.load_row(row), r);
    let q = Regs {
        writes: Map::<(u32, int), V>::empty(),
        stored: Map::<(u32, int), V>::empty(),
        ..p
    };
    assert(p.u[2] == mid.u[2] && p.u[5] == mid.u[5] && p.u[6] == mid.u[6] && p.u[9] == mid.u[9]
        && p.u[17] == mid.u[17]);
    assert forall|k: int| 0 <= k < a.own() implies #[trigger] q.local[(0u32, k)] == a.query(
        i / 32,
        i % 32 * a.own() + k,
    ) by {
        assert(r.local[(0u32, k)] == a.query(i / 32, i % 32 * a.own() + k));
    }
    assert forall|k: int| 0 <= k < a.own() implies #[trigger] q.local[(1u32, k)] == a.weighted(
        i / 32,
        n,
        i % 32 * a.own() + k,
    ) by {
        assert(r.local[(1u32, k)] == a.weighted(i / 32, n, i % 32 * a.own() + k));
    }
}

/// What the first `n` threads have loaded of a row, and what they have left alone.
proof fn lemma_collected_row<V>(
    a: Attention<V>,
    m: Map<(u32, int), V>,
    after: Seq<Regs<V>>,
    row: int,
    t: int,
    n: nat,
    k: (u32, int),
)
    requires
        a.ok(),
        n <= after.len(),
        forall|i: int|
            0 <= i < n ==> a.loaded(row, t, i, #[trigger] after[i], a.hd as int / 4),
    ensures
        ({
            let s = collected(m, after, n);
            let d = k.1 - row * a.hd;
            &&& !(0 <= d < a.hd) && m.contains_key(k) ==> s.contains_key(k) && s[k] == m[k]
            &&& 0 <= d < a.hd && (k.0 == 0 || k.0 == 1) && 0 <= (d / 4 % a.threads()) < n ==> s[k]
                == (if k.0 == 0 {
                a.key(t, d)
            } else {
                a.val(t, d)
            }) && s.contains_key(k)
        }),
    decreases n,
{
    if n > 0 {
        lemma_collected_row(a, m, after, row, t, (n - 1) as nat, k);
        let last = after[n - 1];
        assert(a.loaded(row, t, n - 1, last, a.hd as int / 4));
        let d = k.1 - row * a.hd;
        if 0 <= d < a.hd && (k.0 == 0 || k.0 == 1) && d / 4 % a.threads() == n - 1 {
            let q = d / 4;
            let j = d % 4;
            assert(k.1 == row * a.hd + 4 * q + j);
            assert(q < a.hd as int / 4);
            if k.0 == 0 {
                assert(last.writes.contains_key((0u32, row * a.hd + 4 * q + j)));
            } else {
                assert(last.writes.contains_key((1u32, row * a.hd + 4 * q + j)));
            }
        }
    }
}

/// The group once its threads have loaded a row.
spec fn with_row<V>(g: Group<V>, after: Seq<Regs<V>>) -> Group<V> {
    Group {
        shared: collected(g.shared, after, after.len()),
        regs: Seq::new(
            after.len(),
            |i: int| Regs { writes: Map::empty(), stored: Map::empty(), ..after[i] },
        ),
        stored: device_writes(g.stored, after, after.len()),
    }
}

/// A row that all threads have loaded is there, and the other rows are as before.
proof fn lemma_with_row<V>(
    a: Attention<V>,
    g: Group<V>,
    after: Seq<Regs<V>>,
    row: int,
    at: int,
    n: nat,
)
    requires
        a.ok(),
        a.state(g, n, at),
        0 <= row < 8,
        0 <= at,
        at + row < a.tlen(),
        after.len() == g.regs.len(),
        forall|i: int|
            0 <= i < after.len() ==> #[trigger] after[i] == run(
                a.ar,
                lane(0, a.bufs, g, i),
                a.load_row(row),
                g.regs[i],
            ),
    ensures
        ({
            let h = with_row(g, after);
            &&& a.state(h, n, at)
            &&& a.sees(h.shared, row, at + row)
            &&& forall|other: int, t: int|
                #![trigger a.sees(h.shared, other, t)]
                other != row && a.sees(g.shared, other, t) ==> a.sees(h.shared, other, t)
        }),
{
    let h = with_row(g, after);
    let t = at + row;
    let hd = a.hd as int;
    assert forall|i: int| 0 <= i < after.len() implies a.loaded(
        row,
        t,
        i,
        #[trigger] after[i],
        hd / 4,
    ) && a.placed(i, h.regs[i]) && a.folded(i, h.regs[i], n) && h.regs[i].u[9] == at by {
        assert(a.placed(i, g.regs[i]));
        lemma_load_lane(a, lane(0, a.bufs, g, i), i, g.regs[i], row, at, n);
    }
    assert(a.state(h, n, at)) by {
        assert forall|i: int| 0 <= i < after.len() implies (#[trigger] after[i]).stored == Map::<
            (u32, int),
            V,
        >::empty() by {
            assert(a.loaded(row, t, i, after[i], hd / 4));
        }
        lemma_nothing_stored(g.stored, after, 0, after.len());
        assert forall|i: int| 0 <= i < h.regs.len() implies a.placed(i, #[trigger] h.regs[i])
            && a.folded(i, h.regs[i], n) && h.regs[i].u[9] == at by {
            assert(a.loaded(row, t, i, after[i], hd / 4));
        }
    }
    let tg = a.threads();
    assert forall|d: int| 0 <= d < a.hd implies #[trigger] a.sees_at(h.shared, row, t, d) by {
        let q = d / 4;
        assert(0 <= q % tg < tg) by (nonlinear_arith)
            requires
                tg > 0,
        ;
        lemma_collected_row(a, g.shared, after, row, t, after.len(), (0u32, row * a.hd + d));
        lemma_collected_row(a, g.shared, after, row, t, after.len(), (1u32, row * a.hd + d));
    }
    assert forall|other: int, s: int|
        #![trigger a.sees(h.shared, other, s)]
        other != row && a.sees(g.shared, other, s) implies a.sees(h.shared, other, s) by {
        assert forall|d: int| 0 <= d < a.hd implies #[trigger] a.sees_at(h.shared, other, s, d) by {
            let e = other * hd + d - row * hd;
            assert(!(0 <= e < hd)) by (nonlinear_arith)
                requires
                    e == other * hd + d - row * hd,
                    other != row,
                    0 <= d < hd,
            ;
            assert(a.sees_at(g.shared, other, s, d));
            lemma_collected_row(a, g.shared, after, row, t, after.len(), (0u32, other * a.hd + d));
            lemma_collected_row(a, g.shared, after, row, t, after.len(), (1u32, other * a.hd + d));
        }
    }
}

/// Loading a row is nothing in which threads meet.
proof fn lemma_load_apart<V>(a: Attention<V>, row: int)
    ensures
        !meets(a.load_row(row)[0]),
        !meets(a.load_row(row)[1]),
        !block_meets(a.load_row(row), 2),
        a.load_row(row).len() == 2,
        a.load_row(row) == load_row_code(
            sdpa_ids(0),
            row as u32,
            a.hd,
            a.kv_dt,
            a.threads() as u64,
        ) || !a.ok() || !(0 <= row < 8),
{
    let b = a.load_row(row);
    let body = code().s(a.four(row, 1)).s(a.four(row, 2));
    assert(!waits(body));
    reveal_with_fuel(block_meets, 3);
    if a.ok() && 0 <= row < 8 {
        assert(b =~= load_row_code(sdpa_ids(0), row as u32, a.hd, a.kv_dt, a.threads() as u64));
    }
}

/// The first `r` rows of a tile, as far as there are positions, are loaded.
proof fn lemma_loads<V>(a: Attention<V>, g0: Group<V>, at: int, n: nat, r: nat)
    requires
        a.ok(),
        a.state(g0, n, at),
        0 <= at < a.tlen(),
        r <= a.tile(),
    ensures
        ({
            let p = group_run(
                a.ar,
                0,
                a.bufs,
                loads_code(
                    sdpa_ids(0),
                    a.hd,
                    a.kv_dt,
                    a.threads() as u64,
                    a.tile() as usize,
                    r,
                ),
                g0,
            );
            &&& a.state(p, n, at)
            &&& forall|row: int|
                0 <= row < r && at + row < a.tlen() ==> #[trigger] a.sees(
                    p.shared,
                    row,
                    at + row,
                )
        }),
    decreases r,
{
    let (ar, bufs) = (a.ar, a.bufs);
    let tile = a.tile() as usize;
    let tg = a.threads() as u64;
    assert(1 <= tile <= 8);
    if r > 0 {
        let row = r - 1;
        let t = at + row;
        lemma_loads(a, g0, at, n, row as nat);
        lemma_load_apart(a, row);
        let before = loads_code(sdpa_ids(0), a.hd, a.kv_dt, tg, tile, row as nat);
        let g = group_run(ar, 0, bufs, before, g0);
        let body = a.load_row(row);
        let whole = loads_code(sdpa_ids(0), a.hd, a.kv_dt, tg, tile, r);
        assert(whole == tile_row(before, sdpa_ids(0), row as u32, tile, body));
        let p = group_run(ar, 0, bufs, whole, g0);
        let after = Seq::new(
            g.regs.len(),
            |i: int| run(ar, lane(0, bufs, g, i), body, g.regs[i]),
        );
        if tile == 1 {
            lemma_group_cat(ar, 0, bufs, before, body, body.len(), g0);
            let s0 = body[0];
            let s1 = body[1];
            assert(body =~= code().push(s0).push(s1));
            lemma_group_push(ar, 0, bufs, code().push(s0), s1, g);
            lemma_group_push(ar, 0, bufs, code(), s0, g);
            assert(group_run(ar, 0, bufs, code(), g) == g);
            let g1 = group_run(ar, 0, bufs, code().push(s0), g);
            assert forall|i: int| 0 <= i < g.regs.len() implies quiet(
                #[trigger] step(ar, lane(0, bufs, g, i), s0, g.regs[i]),
            ) by {
                assert(a.placed(i, g.regs[i]));
            }
            crate::codegen::laws::group::lemma_apart_quiet(ar, 0, bufs, s0, g);
            let then = Seq::new(
                g1.regs.len(),
                |i: int| step(ar, lane(0, bufs, g1, i), s1, g1.regs[i]),
            );
            assert(then =~= after) by {
                assert forall|i: int| 0 <= i < g.regs.len() implies #[trigger] then[i] == after[i] by {
                    assert(g1.regs[i] == step(ar, lane(0, bufs, g, i), s0, g.regs[i]));
                    lemma_run_one(ar, lane(0, bufs, g, i), s0, g.regs[i]);
                    lemma_run_push(ar, lane(0, bufs, g, i), code().push(s0), s1, g.regs[i]);
                }
            }
            assert(p == apart(ar, 0, bufs, s1, g1));
            assert(p.regs =~= with_row(g, after).regs);
            assert(p == with_row(g, after));
            lemma_with_row(a, g, after, row, at, n);
        } else {
            let guard = gt(uv(5), plus(uv(9), cu(row as u32)));
            let c = Code::If { cond: guard, body };
            lemma_group_push(ar, 0, bufs, before, c, g0);
            assert(!meets(c));
            assert(p == apart(ar, 0, bufs, c, g));
            assert forall|i: int| 0 <= i < g.regs.len() implies #[trigger] step(
                ar,
                lane(0, bufs, g, i),
                c,
                g.regs[i],
            ) == (if t < a.tlen() {
                after[i]
            } else {
                g.regs[i]
            }) by {
                let l = lane(0, bufs, g, i);
                let q = g.regs[i];
                assert(a.placed(i, q));
                assert(index(ar, l, q, uv(5)) == a.tlen());
                assert(index(ar, l, q, uv(9)) == at);
                assert(index(ar, l, q, cu(row as u32)) == row);
                assert(index(ar, l, q, plus(uv(9), cu(row as u32))) == t);
                assert(holds(ar, l, q, guard) == (t < a.tlen()));
            }
            let then = Seq::new(g.regs.len(), |i: int| step(ar, lane(0, bufs, g, i), c, g.regs[i]));
            if t < a.tlen() {
                assert(then =~= after);
                assert(p.regs =~= with_row(g, after).regs);
                assert(p == with_row(g, after));
                lemma_with_row(a, g, after, row, at, n);
            } else {
                assert forall|i: int| 0 <= i < g.regs.len() implies quiet(
                    #[trigger] step(ar, lane(0, bufs, g, i), c, g.regs[i]),
                ) by {
                    assert(a.placed(i, g.regs[i]));
                }
                crate::codegen::laws::group::lemma_apart_quiet(ar, 0, bufs, c, g);
                assert(p.regs =~= g.regs);
            }
        }
    }
}

/// The folds of a tile stand behind its loads.
proof fn lemma_scores_prefix(b: Seq<Code>, ids: SdpaIds, hd: usize, tile: usize, r: nat)
    ensures
        b.len() <= scores_code(b, ids, hd, tile, r).len(),
        forall|i: int|
            0 <= i < b.len() ==> #[trigger] scores_code(b, ids, hd, tile, r)[i] == b[i],
    decreases r,
{
    if r > 0 {
        lemma_scores_prefix(b, ids, hd, tile, (r - 1) as nat);
    }
}

impl<V> Attention<V> {
    pub open spec fn pass(self) -> Seq<Code> {
        pass_code(sdpa_ids(0), self.hd, self.kv_dt, self.threads() as u64, self.tile() as usize)
    }

    /// The loop over the tiles.
    pub open spec fn passes(self) -> Code {
        Code::ForRange {
            id: 9,
            limit_off: cu(0),
            bound: uv(5),
            step: cu(self.tile() as u32),
            body: self.pass(),
        }
    }
}

/// A pass folds the positions of a tile in.
proof fn lemma_pass<V>(a: Attention<V>, g: Group<V>, at: int)
    requires
        a.ar.exact(),
        a.ok(),
        0 <= at < a.tlen(),
        a.state(g, at as nat, at),
    ensures
        a.state(group_run(a.ar, 0, a.bufs, a.pass(), g), a.upto(at + a.tile()), at),
{
    let tile = a.tile() as usize;
    let tg = a.threads() as u64;
    let loads = loads_code(sdpa_ids(0), a.hd, a.kv_dt, tg, tile, tile as nat);
    lemma_loads(a, g, at, at as nat, tile as nat);
    let wait = Code::Flat(barrier());
    lemma_group_push(a.ar, 0, a.bufs, loads, wait, g);
    assert(meets(wait));
    assert(group_run(a.ar, 0, a.bufs, loads.push(wait), g) == group_run(
        a.ar,
        0,
        a.bufs,
        loads,
        g,
    ));
    lemma_scores(a, loads.push(wait), g, at, tile as nat);
}

/// The passes fold all positions in.
pub proof fn lemma_passes<V>(a: Attention<V>, g: Group<V>, at: int)
    requires
        a.ar.exact(),
        a.ok(),
        0 <= at < a.tlen() + 8,
        a.state(g, a.upto(at), at),
    ensures
        exists|end: int| #[trigger]
            a.state(group_turns(a.ar, 0, a.bufs, a.passes(), g), a.upto(a.tlen()), end),
    decreases a.tlen() + 8 - at,
{
    let (ar, bufs) = (a.ar, a.bufs);
    let c = a.passes();
    let l = lane(0, bufs, g, 0);
    let r = g.regs[0];
    let tile = a.tile();
    assert(1 <= tile <= 8);
    assert(a.placed(0, r));
    assert(index(ar, l, r, cu(0)) == 0);
    assert(index(ar, l, r, uv(5)) == a.tlen());
    if at < a.tlen() {
        lemma_pass(a, g, at);
        let b = group_run(ar, 0, bufs, a.pass(), g);
        let next = Group {
            regs: Seq::new(
                b.regs.len(),
                |i: int|
                    Regs {
                        u: b.regs[i].u.insert(
                            9,
                            crate::codegen::laws::machine::wrap(
                                b.regs[i].u[9] + index(
                                    ar,
                                    lane(0, bufs, b, i),
                                    b.regs[i],
                                    cu(tile as u32),
                                ),
                            ),
                        ),
                        ..b.regs[i]
                    },
            ),
            ..b
        };
        assert forall|i: int| 0 <= i < next.regs.len() implies a.placed(i, #[trigger] next.regs[i])
            && a.folded(i, next.regs[i], a.upto(at + tile)) && next.regs[i].u[9] == at + tile by {
            let was = b.regs[i];
            let now = next.regs[i];
            assert(a.placed(i, was));
            assert(index(ar, lane(0, bufs, b, i), was, cu(tile as u32)) == tile);
            assert forall|k: int| 0 <= k < a.own() implies #[trigger] now.local[(0u32, k)]
                == a.query(i / 32, i % 32 * a.own() + k) by {
                assert(was.local[(0u32, k)] == a.query(i / 32, i % 32 * a.own() + k));
            }
            assert forall|k: int| 0 <= k < a.own() implies #[trigger] now.local[(1u32, k)]
                == a.weighted(i / 32, a.upto(at + tile), i % 32 * a.own() + k) by {
                assert(was.local[(1u32, k)] == a.weighted(
                    i / 32,
                    a.upto(at + tile),
                    i % 32 * a.own() + k,
                ));
            }
        }
        assert(next.regs[0].u[9] == at + tile);
        assert(group_turns(ar, 0, bufs, c, g) == group_turns(ar, 0, bufs, c, next));
        assert(a.state(next, a.upto(at + tile), at + tile));
        lemma_passes(a, next, at + tile);
    } else {
        assert(group_turns(ar, 0, bufs, c, g) == g);
        assert(a.state(group_turns(ar, 0, bufs, c, g), a.upto(a.tlen()), at));
    }
}

/// In the loop over the tiles threads wait for each other.
pub proof fn lemma_passes_meet<V>(a: Attention<V>)
    ensures
        meets(a.passes()),
{
    let tile = a.tile() as usize;
    let tg = a.threads() as u64;
    let loads = loads_code(sdpa_ids(0), a.hd, a.kv_dt, tg, tile, tile as nat);
    let b = loads.s(barrier());
    lemma_scores_prefix(b, sdpa_ids(0), a.hd, tile, tile as nat);
    assert(b[loads.len() as int] == Code::Flat(KirStmt::Barrier));
    assert(a.pass()[loads.len() as int] == Code::Flat(KirStmt::Barrier));
}

} // verus!
