//! Sums that the threads of a group share.

use vstd::prelude::*;
use vstd::arithmetic::div_mod::{lemma_fundamental_div_mod, lemma_fundamental_div_mod_converse};

use crate::codegen::laws::machine::{total, Arith, Regs};

verus! {

/// The first `n` terms, added up.
pub open spec fn series<V>(ar: Arith<V>, t: spec_fn(int) -> V, n: nat) -> V
    decreases n,
{
    if n == 0 {
        ar.zero()
    } else {
        ar.sum(series(ar, t, (n - 1) as nat), t(n - 1))
    }
}

/// Those of the first `n` terms that fall to one of `tg` threads in turn, added up.
pub open spec fn share<V>(ar: Arith<V>, t: spec_fn(int) -> V, tg: int, lid: int, n: nat) -> V
    decreases n,
{
    if n == 0 {
        ar.zero()
    } else {
        let before = share(ar, t, tg, lid, (n - 1) as nat);
        if (n - 1) % tg == lid {
            ar.sum(before, t(n - 1))
        } else {
            before
        }
    }
}

pub proof fn lemma_assoc<V>(ar: Arith<V>, a: V, b: V, c: V)
    requires
        ar.exact(),
    ensures
        ar.sum(ar.sum(a, b), c) == ar.sum(a, ar.sum(b, c)),
{
    reveal(Arith::exact);
}

pub proof fn lemma_comm<V>(ar: Arith<V>, a: V, b: V)
    requires
        ar.exact(),
    ensures
        ar.sum(a, b) == ar.sum(b, a),
{
    reveal(Arith::exact);
}

pub proof fn lemma_zero<V>(ar: Arith<V>, a: V)
    requires
        ar.exact(),
    ensures
        ar.sum(ar.zero(), a) == a,
        ar.sum(a, ar.zero()) == a,
{
    reveal(Arith::exact);
    lemma_comm(ar, a, ar.zero());
}

/// Between two turns of a thread nothing falls to it.
pub proof fn lemma_gap<V>(
    ar: Arith<V>,
    t: spec_fn(int) -> V,
    tg: int,
    lid: int,
    n: nat,
    m: nat,
)
    requires
        n <= m,
        forall|c: int| n <= c < m ==> #[trigger] (c % tg) != lid,
    ensures
        share(ar, t, tg, lid, m) == share(ar, t, tg, lid, n),
    decreases m - n,
{
    if n < m {
        lemma_gap(ar, t, tg, lid, n, (m - 1) as nat);
        assert((m - 1) % tg != lid);
    }
}

/// The remainders between a number and the next one with the same remainder are others.
pub proof fn lemma_other_remainders(c: int, tg: int, lid: int)
    requires
        0 < tg,
        0 <= c,
        c % tg == lid,
    ensures
        (c + tg) % tg == lid,
        forall|d: int| c < d < c + tg ==> #[trigger] (d % tg) != lid,
{
    let q = c / tg;
    lemma_fundamental_div_mod(c, tg);
    assert(tg * q == q * tg) by (nonlinear_arith);
    assert((q + 1) * tg == q * tg + tg) by (nonlinear_arith);
    lemma_fundamental_div_mod_converse(c + tg, tg, q + 1, lid);
    assert forall|d: int| c < d < c + tg implies #[trigger] (d % tg) != lid by {
        let j = d - c;
        if lid + j < tg {
            lemma_fundamental_div_mod_converse(d, tg, q, lid + j);
        } else {
            lemma_fundamental_div_mod_converse(d, tg, q + 1, lid + j - tg);
        }
    }
}

/// A turn of a thread adds one term, and nothing more falls to it until its next turn.
pub proof fn lemma_turn<V>(ar: Arith<V>, t: spec_fn(int) -> V, tg: int, lid: int, c: nat)
    requires
        0 < tg,
        c as int % tg == lid,
    ensures
        share(ar, t, tg, lid, (c + tg) as nat) == ar.sum(share(ar, t, tg, lid, c), t(c as int)),
        (c + tg) % tg == lid,
{
    lemma_other_remainders(c as int, tg, lid);
    lemma_gap(ar, t, tg, lid, (c + 1) as nat, (c + tg) as nat);
}

/// Before its first turn nothing falls to a thread.
pub proof fn lemma_first_turn<V>(ar: Arith<V>, t: spec_fn(int) -> V, tg: int, lid: int)
    requires
        0 <= lid < tg,
    ensures
        share(ar, t, tg, lid, lid as nat) == ar.zero(),
        lid % tg == lid,
{
    lemma_fundamental_div_mod_converse(lid, tg, 0, lid);
    assert forall|c: int| 0 <= c < lid implies #[trigger] (c % tg) != lid by {
        lemma_fundamental_div_mod_converse(c, tg, 0, c);
    }
    lemma_gap(ar, t, tg, lid, 0, lid as nat);
}

/// A thread that stands at `c`, its next turn, has had its whole share of the first `n` terms as
/// soon as `c` is not below `n`.
pub proof fn lemma_had_all<V>(
    ar: Arith<V>,
    t: spec_fn(int) -> V,
    tg: int,
    lid: int,
    n: nat,
    c: nat,
)
    requires
        0 < tg,
        c as int % tg == lid,
        n <= c < n + tg,
    ensures
        share(ar, t, tg, lid, c) == share(ar, t, tg, lid, n),
{
    assert forall|d: int| n <= d < c implies #[trigger] (d % tg) != lid by {
        if d % tg == lid {
            lemma_other_remainders(d, tg, lid);
            assert(c as int % tg != lid);
        }
    }
    lemma_gap(ar, t, tg, lid, n, c);
}

/// The shares of the first `lanes` threads, added up.
pub open spec fn shares<V>(ar: Arith<V>, t: spec_fn(int) -> V, tg: int, lanes: nat, n: nat) -> V
    decreases lanes,
{
    if lanes == 0 {
        ar.zero()
    } else {
        ar.sum(shares(ar, t, tg, (lanes - 1) as nat, n), share(ar, t, tg, lanes - 1, n))
    }
}

proof fn lemma_no_terms<V>(ar: Arith<V>, t: spec_fn(int) -> V, tg: int, lanes: nat)
    requires
        ar.exact(),
    ensures
        shares(ar, t, tg, lanes, 0) == ar.zero(),
    decreases lanes,
{
    if lanes > 0 {
        lemma_no_terms(ar, t, tg, (lanes - 1) as nat);
        lemma_zero(ar, ar.zero());
    }
}

/// One more term goes to exactly one thread.
proof fn lemma_one_more<V>(ar: Arith<V>, t: spec_fn(int) -> V, tg: int, lanes: nat, n: nat)
    requires
        ar.exact(),
        0 < tg,
    ensures
        shares(ar, t, tg, lanes, n + 1) == (if (n as int % tg) < lanes {
            ar.sum(shares(ar, t, tg, lanes, n), t(n as int))
        } else {
            shares(ar, t, tg, lanes, n)
        }),
    decreases lanes,
{
    if lanes > 0 {
        let i = lanes - 1;
        lemma_one_more(ar, t, tg, i as nat, n);
        let s = shares(ar, t, tg, i as nat, n);
        let h = share(ar, t, tg, i, n);
        if n as int % tg == i {
            lemma_assoc(ar, s, h, t(n as int));
        } else if (n as int % tg) < i {
            lemma_assoc(ar, s, t(n as int), h);
            lemma_assoc(ar, s, h, t(n as int));
            lemma_comm(ar, t(n as int), h);
        }
    } else {
        lemma_fundamental_div_mod(n as int, tg);
    }
}

/// Together the threads of a group add up everything.
pub proof fn lemma_shares<V>(ar: Arith<V>, t: spec_fn(int) -> V, tg: nat, n: nat)
    requires
        ar.exact(),
        0 < tg,
    ensures
        shares(ar, t, tg as int, tg, n) == series(ar, t, n),
    decreases n,
{
    if n == 0 {
        lemma_no_terms(ar, t, tg as int, tg);
    } else {
        lemma_shares(ar, t, tg, (n - 1) as nat);
        lemma_one_more(ar, t, tg as int, tg, (n - 1) as nat);
        assert(((n - 1) % (tg as int)) < tg) by (nonlinear_arith)
            requires
                tg > 0,
                n >= 1,
        ;
    }
}

/// Where every thread holds its share, the group's total is their sum.
pub proof fn lemma_total<V>(
    ar: Arith<V>,
    t: spec_fn(int) -> V,
    regs: Seq<Regs<V>>,
    id: u32,
    lanes: nat,
    n: nat,
)
    requires
        lanes <= regs.len(),
        forall|i: int|
            0 <= i < lanes ==> (#[trigger] regs[i]).f[id] == share(
                ar,
                t,
                regs.len() as int,
                i,
                n,
            ),
    ensures
        total(ar, regs, id, lanes) == shares(ar, t, regs.len() as int, lanes, n),
    decreases lanes,
{
    if lanes > 0 {
        lemma_total(ar, t, regs, id, (lanes - 1) as nat, n);
    }
}

/// Where every thread holds its share, the group's total is the whole sum.
pub proof fn lemma_group_total<V>(
    ar: Arith<V>,
    t: spec_fn(int) -> V,
    regs: Seq<Regs<V>>,
    id: u32,
    n: nat,
)
    requires
        ar.exact(),
        regs.len() > 0,
        forall|i: int|
            0 <= i < regs.len() ==> (#[trigger] regs[i]).f[id] == share(
                ar,
                t,
                regs.len() as int,
                i,
                n,
            ),
    ensures
        total(ar, regs, id, regs.len()) == series(ar, t, n),
{
    lemma_total(ar, t, regs, id, regs.len(), n);
    lemma_shares(ar, t, regs.len(), n);
}

} // verus!
