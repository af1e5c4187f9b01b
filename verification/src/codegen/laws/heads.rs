//! What the attention kernel computes: how the threads of a group fold positions in together.

use vstd::prelude::*;
use vstd::arithmetic::div_mod::lemma_fundamental_div_mod_converse;

use crate::codegen::laws::attention::{
    lemma_fold_part, lemma_row_in_parts, lemma_score_part, Attention,
};
use crate::codegen::laws::group::quiet;
use crate::codegen::laws::machine::{
    group_run, holds, index, joint, lane, lemma_group_push, meets, run, simd_only, simd_total,
    value, Arith, Group,
};
use crate::codegen::laws::solo::{
    block_silent, lemma_group_cat, lemma_masked_off, lemma_meets_at, lemma_solo, lemma_unmasked,
    silent,
};
use crate::codegen::laws::sums::{lemma_assoc, lemma_zero, series};
use crate::codegen::lower::block::{assign, cu, gt, plus, simd_sum, uv, v, Extend};
use crate::codegen::lower::sdpa::{scores_code, sdpa_ids, softmax_row_code, tile_row};
use crate::ir::kernel::Code;

verus! {

/// A sum of terms, and of the terms behind them.
proof fn lemma_series_cat<V>(
    ar: Arith<V>,
    t: spec_fn(int) -> V,
    u: spec_fn(int) -> V,
    a: nat,
    n: nat,
)
    requires
        ar.exact(),
        forall|k: int| 0 <= k < n ==> #[trigger] u(k) == t(a + k),
    ensures
        ar.sum(series(ar, t, a), series(ar, u, n)) == series(ar, t, a + n),
    decreases n,
{
    if n == 0 {
        lemma_zero(ar, series(ar, t, a));
    } else {
        lemma_series_cat(ar, t, u, a, (n - 1) as nat);
        assert(u(n - 1) == t(a + n - 1));
        lemma_assoc(ar, series(ar, t, a), series(ar, u, (n - 1) as nat), u(n - 1));
    }
}

impl<V> Attention<V> {
    /// Whether all threads of a group know their places, have folded in the first `n` positions,
    /// and stand at position `at`.
    pub open spec fn state(self, g: Group<V>, n: nat, at: int) -> bool {
        &&& g.regs.len() == self.threads()
        &&& g.stored == Map::<(u32, int), V>::empty()
        &&& forall|i: int|
            0 <= i < g.regs.len() ==> self.placed(i, #[trigger] g.regs[i]) && self.folded(
                i,
                g.regs[i],
                n,
            ) && g.regs[i].u[9] == at
    }

    /// The smaller of a number of positions and all of them.
    pub open spec fn upto(self, n: int) -> nat {
        if n < self.tlen() {
            n as nat
        } else {
            self.tlen() as nat
        }
    }
}

/// The threads of a head add up its score.
proof fn lemma_head_total<V>(a: Attention<V>, g: Group<V>, h: int, t: int, n: nat)
    requires
        a.ar.exact(),
        a.ok(),
        0 <= h,
        n <= 32,
        forall|j: int|
            0 <= j < 32 ==> (#[trigger] g.regs[h * 32 + j]).f[10] == series(
                a.ar,
                a.own_term(h * 32 + j, t),
                a.own() as nat,
            ),
    ensures
        simd_total(a.ar, 0, a.bufs, v(10), g, h * 32, n) == series(
            a.ar,
            a.term(h, t),
            (n * a.own()) as nat,
        ),
    decreases n,
{
    if n > 0 {
        let j = n - 1;
        lemma_head_total(a, g, h, t, j as nat);
        let i = h * 32 + j;
        lemma_fundamental_div_mod_converse(i, 32, h, j);
        assert(g.regs[h * 32 + j].f[10] == series(a.ar, a.own_term(i, t), a.own() as nat));
        let own = a.own();
        assert(0 <= j * own && n * own == j * own + own) by (nonlinear_arith)
            requires
                j == n - 1,
                0 <= j,
                0 <= own,
        ;
        let at = (j * own) as nat;
        assert forall|k: int| 0 <= k < own implies #[trigger] a.own_term(i, t)(k) == a.term(h, t)(
            at + k,
        ) by {}
        lemma_series_cat(a.ar, a.term(h, t), a.own_term(i, t), at, own as nat);
        assert(value(a.ar, lane(0, a.bufs, g, i), g.regs[i], v(10)) == g.regs[i].f[10]);
    } else {
        assert(0 * a.own() == 0);
    }
}

/// The first statements of a row change nothing but registers.
proof fn lemma_score_silent<V>(a: Attention<V>, row: int)
    ensures
        block_silent(a.score_part(row), a.score_part(row).len()),
{
    let b = a.score_part(row);
    assert(b.len() == 3);
    assert(silent(b[0]) && silent(b[1]));
    assert(b[2] is For);
    assert(silent(b[2])) by {
        reveal_with_fuel(block_silent, 2);
        reveal_with_fuel(silent, 2);
    }
    reveal_with_fuel(block_silent, 4);
}

/// The last statements of a row change nothing but registers.
proof fn lemma_fold_silent<V>(a: Attention<V>, row: int)
    ensures
        block_silent(a.fold_part(row), a.fold_part(row).len()),
{
    let b = a.fold_part(row);
    assert(b.len() == 6);
    assert(silent(b[0]) && silent(b[1]) && silent(b[2]) && silent(b[3]) && silent(b[4]));
    assert(silent(b[5])) by {
        reveal_with_fuel(block_silent, 2);
        reveal_with_fuel(silent, 2);
    }
    reveal_with_fuel(block_silent, 7);
}

/// A row of the tile folds its position in.
proof fn lemma_fold_row<V>(a: Attention<V>, g: Group<V>, row: int, t: nat, at: int)
    requires
        a.ar.exact(),
        a.ok(),
        a.state(g, t, at),
        a.sees(g.shared, row, t as int),
        0 <= row < 8,
    ensures
        ({
            let p = group_run(
                a.ar,
                0,
                a.bufs,
                softmax_row_code(sdpa_ids(0), row as u32, a.hd),
                g,
            );
            a.state(p, t + 1, at) && p.shared == g.shared
        }),
{
    let (ar, bufs) = (a.ar, a.bufs);
    let x = a.score_part(row);
    let y = a.fold_part(row);
    let s = Code::Flat(assign(10, simd_sum(v(10))));
    lemma_row_in_parts(a, row);
    lemma_group_cat(ar, 0, bufs, x.push(s), y, y.len(), g);
    lemma_group_push(ar, 0, bufs, x, s, g);
    lemma_score_silent(a, row);
    lemma_fold_silent(a, row);
    assert forall|i: int| 0 <= i < g.regs.len() implies quiet(#[trigger] g.regs[i]) by {
        assert(a.placed(i, g.regs[i]));
    }
    lemma_solo(ar, 0, bufs, x, g);
    let g1 = group_run(ar, 0, bufs, x, g);
    assert forall|i: int| 0 <= i < g1.regs.len() implies a.placed(i, #[trigger] g1.regs[i])
        && a.folded(i, g1.regs[i], t) && g1.regs[i].u[9] == at && g1.regs[i].f[10] == series(
        ar,
        a.own_term(i, t as int),
        a.own() as nat,
    ) by {
        assert(g1.regs[i] == run(ar, lane(0, bufs, g, i), x, g.regs[i]));
        assert(a.placed(i, g.regs[i]));
        lemma_score_part(a, lane(0, bufs, g, i), i, g.regs[i], row, t as int, t);
    }
    assert(meets(s));
    let g2 = group_run(ar, 0, bufs, x.push(s), g);
    assert(g2 == joint(ar, 0, bufs, assign(10, simd_sum(v(10))), g1));
    assert forall|i: int| 0 <= i < g2.regs.len() implies a.placed(i, #[trigger] g2.regs[i])
        && a.folded(i, g2.regs[i], t) && g2.regs[i].u[9] == at && g2.regs[i].f[10] == a.score(
        i / 32,
        t as int,
    ) by {
        let h = i / 32;
        let was = g1.regs[i];
        assert(a.placed(i, was));
        assert forall|j: int| 0 <= j < 32 implies (#[trigger] g1.regs[h * 32 + j]).f[10] == series(
            ar,
            a.own_term(h * 32 + j, t as int),
            a.own() as nat,
        ) by {
            assert(0 <= h * 32 + j < g1.regs.len());
            assert(a.placed(h * 32 + j, g1.regs[h * 32 + j]));
        }
        lemma_head_total(a, g1, h, t as int, 32);
        assert(32 * a.own() == a.hd);
        let now = g2.regs[i];
        assert(now.f == was.f.insert(10, simd_total(ar, 0, bufs, v(10), g1, i / 32 * 32, 32)));
        assert forall|k: int| 0 <= k < a.own() implies #[trigger] now.local[(0u32, k)] == a.query(
            h,
            i % 32 * a.own() + k,
        ) by {
            assert(was.local[(0u32, k)] == a.query(h, i % 32 * a.own() + k));
        }
        assert forall|k: int| 0 <= k < a.own() implies #[trigger] now.local[(1u32, k)]
            == a.weighted(h, t, i % 32 * a.own() + k) by {
            assert(was.local[(1u32, k)] == a.weighted(h, t, i % 32 * a.own() + k));
        }
    }
    assert forall|i: int| 0 <= i < g2.regs.len() implies quiet(#[trigger] g2.regs[i]) by {
        assert(a.placed(i, g2.regs[i]));
    }
    lemma_solo(ar, 0, bufs, y, g2);
    let g3 = group_run(ar, 0, bufs, y, g2);
    assert forall|i: int| 0 <= i < g3.regs.len() implies a.placed(i, #[trigger] g3.regs[i])
        && a.folded(i, g3.regs[i], t + 1) && g3.regs[i].u[9] == at by {
        assert(g3.regs[i] == run(ar, lane(0, bufs, g2, i), y, g2.regs[i]));
        assert(a.placed(i, g2.regs[i]));
        lemma_fold_part(a, lane(0, bufs, g2, i), i, g2.regs[i], row, t);
    }
}

/// The first `r` rows of a tile, as far as they hold positions, are folded in.
pub proof fn lemma_scores<V>(a: Attention<V>, b: Seq<Code>, g0: Group<V>, at: int, r: nat)
    requires
        a.ar.exact(),
        a.ok(),
        0 <= at < a.tlen(),
        r <= a.tile(),
        ({
            let g = group_run(a.ar, 0, a.bufs, b, g0);
            &&& a.state(g, at as nat, at)
            &&& forall|row: int|
                0 <= row < a.tile() && at + row < a.tlen() ==> #[trigger] a.sees(
                    g.shared,
                    row,
                    at + row,
                )
        }),
    ensures
        ({
            let g = group_run(a.ar, 0, a.bufs, b, g0);
            let p = group_run(
                a.ar,
                0,
                a.bufs,
                scores_code(b, sdpa_ids(0), a.hd, a.tile() as usize, r),
                g0,
            );
            a.state(p, a.upto(at + r), at) && p.shared == g.shared
        }),
    decreases r,
{
    let (ar, bufs) = (a.ar, a.bufs);
    let tile = a.tile() as usize;
    assert(1 <= tile <= 8);
    if r > 0 {
        let row = r - 1;
        lemma_scores(a, b, g0, at, row as nat);
        let before = scores_code(b, sdpa_ids(0), a.hd, tile, row as nat);
        let g = group_run(ar, 0, bufs, before, g0);
        let body = softmax_row_code(sdpa_ids(0), row as u32, a.hd);
        let whole = scores_code(b, sdpa_ids(0), a.hd, tile, r);
        assert(whole == tile_row(before, sdpa_ids(0), row as u32, tile, body));
        let t = at + row;
        if tile == 1 {
            lemma_group_cat(ar, 0, bufs, before, body, body.len(), g0);
            assert(a.sees(g.shared, row, t));
            lemma_fold_row(a, g, row, t as nat, at);
        } else {
            let guard = gt(uv(5), plus(uv(9), cu(row as u32)));
            let c = Code::If { cond: guard, body };
            lemma_group_push(ar, 0, bufs, before, c, g0);
            lemma_row_in_parts(a, row);
            let s = Code::Flat(assign(10, simd_sum(v(10))));
            assert(body[a.score_part(row).len() as int] == s);
            lemma_meets_at(body, a.score_part(row).len() as int, body.len());
            assert(meets(c));
            let mask = |i: int| holds(ar, lane(0, bufs, g, i), g.regs[i], guard);
            assert forall|i: int| 0 <= i < g.regs.len() implies #[trigger] mask(i) == (t
                < a.tlen()) by {
                let l = lane(0, bufs, g, i);
                let q = g.regs[i];
                assert(a.placed(i, q));
                assert(index(ar, l, q, uv(5)) == a.tlen());
                assert(index(ar, l, q, uv(9)) == at);
                assert(index(ar, l, q, cu(row as u32)) == row);
                assert(index(ar, l, q, plus(uv(9), cu(row as u32))) == t);
            }
            assert forall|i: int| 0 <= i < g.regs.len() implies quiet(#[trigger] g.regs[i]) by {
                assert(a.placed(i, g.regs[i]));
            }
            assert(mask(0) == (t < a.tlen()));
            let p = group_run(ar, 0, bufs, whole, g0);
            if t < a.tlen() {
                assert(a.sees(g.shared, row, t));
                lemma_fold_row(a, g, row, t as nat, at);
                if simd_only(body) {
                    lemma_unmasked(ar, 0, bufs, mask, body, body.len(), g);
                }
                assert(p == group_run(ar, 0, bufs, body, g));
            } else {
                if simd_only(body) {
                    lemma_masked_off(ar, 0, bufs, mask, body, body.len(), g);
                }
                assert(p == g);
            }
        }
    }
}

} // verus!
