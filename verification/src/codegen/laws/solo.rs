//! Blocks that every thread of a group takes by itself, without writing outside its registers.

use vstd::prelude::*;

use crate::codegen::laws::group::{
    lemma_apart_quiet, lemma_nothing_collected, lemma_nothing_stored, quiet,
};
use crate::codegen::laws::machine::{
    adds_up, apart, block_meets, counted, group_run, group_run_to, group_step, joint, lane,
    masked_step, masked_to, meets, run, run_to, seen, simd_only, step, Arith, Group, Lane, Regs,
};
use crate::ir::kernel::{Code, KirStmt};

verus! {

/// Whether a statement changes nothing but registers.
pub open spec fn silent(c: Code) -> bool
    decreases c, 1nat, 0nat,
{
    match c {
        Code::Flat(s) => match s {
            KirStmt::Let { .. } | KirStmt::LetU32 { .. } | KirStmt::ThreadStore { .. } => true,
            KirStmt::Assign { expr, .. } => !(expr is SimdSum),
            KirStmt::TgDeclF32 { .. } | KirStmt::ThreadDeclF32 { .. } => true,
            _ => false,
        },
        Code::For { body, .. } => block_silent(body, body.len()),
        _ => false,
    }
}

/// Whether the first `k` statements of a block change nothing but registers.
pub open spec fn block_silent(b: Seq<Code>, k: nat) -> bool
    decreases b, 0nat, k,
{
    k == 0 || k > b.len() || (silent(b[k - 1]) && block_silent(b, (k - 1) as nat))
}

/// A block that is silent stays so with one more silent statement.
pub proof fn lemma_silent_push(b: Seq<Code>, c: Code)
    requires
        block_silent(b, b.len()),
        silent(c),
    ensures
        block_silent(b.push(c), b.push(c).len()),
{
    lemma_silent_prefix(b, b.push(c), b.len());
}

proof fn lemma_silent_prefix(b: Seq<Code>, d: Seq<Code>, k: nat)
    requires
        k <= b.len(),
        k <= d.len(),
        forall|i: int| 0 <= i < k ==> b[i] == d[i],
        block_silent(b, k),
    ensures
        block_silent(d, k),
    decreases k,
{
    if k > 0 {
        lemma_silent_prefix(b, d, (k - 1) as nat);
    }
}

/// Threads do not meet in a silent statement.
pub proof fn lemma_silent_apart(c: Code)
    requires
        silent(c),
    ensures
        !meets(c),
{
}

/// A silent statement leaves a thread quiet.
proof fn lemma_silent_step<V>(ar: Arith<V>, l: Lane<V>, c: Code, r: Regs<V>)
    requires
        silent(c),
        quiet(r),
    ensures
        quiet(step(ar, l, c, r)),
    decreases c, 1nat, 0nat,
{
    match c {
        Code::For { n, .. } => {
            lemma_silent_counted(ar, l, c, n as nat, r);
        },
        _ => {},
    }
}

proof fn lemma_silent_counted<V>(ar: Arith<V>, l: Lane<V>, c: Code, n: nat, r: Regs<V>)
    requires
        silent(c),
        c is For,
        quiet(r),
    ensures
        quiet(counted(ar, l, c, n, r)),
    decreases c, 0nat, n,
{
    if n > 0 {
        lemma_silent_counted(ar, l, c, (n - 1) as nat, r);
        match c {
            Code::For { id, body, .. } => {
                let p = counted(ar, l, c, (n - 1) as nat, r);
                let q = Regs { u: p.u.insert(id, n - 1), ..p };
                lemma_silent_run(ar, l, body, body.len(), q);
            },
            _ => {},
        }
    }
}

proof fn lemma_silent_run<V>(ar: Arith<V>, l: Lane<V>, b: Seq<Code>, k: nat, r: Regs<V>)
    requires
        k <= b.len(),
        block_silent(b, k),
        quiet(r),
    ensures
        quiet(run_to(ar, l, b, k, r)),
    decreases b, 0nat, k,
{
    if k > 0 {
        lemma_silent_run(ar, l, b, (k - 1) as nat, r);
        lemma_silent_step(ar, l, b[k - 1], run_to(ar, l, b, (k - 1) as nat, r));
    }
}

/// The threads of a group, each after a block of its own.
pub open spec fn each_alone<V>(
    ar: Arith<V>,
    gid: int,
    bufs: spec_fn(u32, int) -> V,
    b: Seq<Code>,
    g: Group<V>,
) -> Group<V> {
    Group {
        regs: Seq::new(g.regs.len(), |i: int| run(ar, lane(gid, bufs, g, i), b, g.regs[i])),
        ..g
    }
}

proof fn lemma_solo_to<V>(
    ar: Arith<V>,
    gid: int,
    bufs: spec_fn(u32, int) -> V,
    b: Seq<Code>,
    k: nat,
    g: Group<V>,
)
    requires
        k <= b.len(),
        block_silent(b, k),
        forall|i: int| 0 <= i < g.regs.len() ==> quiet(#[trigger] g.regs[i]),
    ensures
        ({
            let h = group_run_to(ar, gid, bufs, b, k, g);
            &&& h.shared == g.shared
            &&& h.stored == g.stored
            &&& h.regs == Seq::new(
                g.regs.len(),
                |i: int| run_to(ar, lane(gid, bufs, g, i), b, k, g.regs[i]),
            )
        }),
    decreases k,
{
    if k == 0 {
        assert(g.regs =~= Seq::new(
            g.regs.len(),
            |i: int| run_to(ar, lane(gid, bufs, g, i), b, 0, g.regs[i]),
        ));
    } else {
        let c = b[k - 1];
        lemma_solo_to(ar, gid, bufs, b, (k - 1) as nat, g);
        let h = group_run_to(ar, gid, bufs, b, (k - 1) as nat, g);
        assert forall|i: int| 0 <= i < h.regs.len() implies quiet(
            #[trigger] step(ar, lane(gid, bufs, h, i), c, h.regs[i]),
        ) by {
            lemma_silent_run(ar, lane(gid, bufs, g, i), b, (k - 1) as nat, g.regs[i]);
            assert(quiet(g.regs[i]));
            lemma_silent_step(ar, lane(gid, bufs, h, i), c, h.regs[i]);
        }
        lemma_apart_quiet(ar, gid, bufs, c, h);
        lemma_silent_apart(c);
        let after = group_run_to(ar, gid, bufs, b, k, g);
        assert(after == group_step(ar, gid, bufs, c, h));
        assert(after == apart(ar, gid, bufs, c, h));
        assert(after.regs =~= Seq::new(
            g.regs.len(),
            |i: int| run_to(ar, lane(gid, bufs, g, i), b, k, g.regs[i]),
        )) by {
            assert forall|i: int| 0 <= i < g.regs.len() implies #[trigger] after.regs[i] == run_to(
                ar,
                lane(gid, bufs, g, i),
                b,
                k,
                g.regs[i],
            ) by {
                assert(lane(gid, bufs, h, i) == lane(gid, bufs, g, i));
                assert(after.regs[i] == step(ar, lane(gid, bufs, h, i), c, h.regs[i]));
            }
        }
    }
}

/// A group takes a silent block as its threads take it by themselves.
pub proof fn lemma_solo<V>(
    ar: Arith<V>,
    gid: int,
    bufs: spec_fn(u32, int) -> V,
    b: Seq<Code>,
    g: Group<V>,
)
    requires
        block_silent(b, b.len()),
        forall|i: int| 0 <= i < g.regs.len() ==> quiet(#[trigger] g.regs[i]),
    ensures
        group_run(ar, gid, bufs, b, g) == each_alone(ar, gid, bufs, b, g),
        forall|i: int|
            0 <= i < g.regs.len() ==> quiet(
                #[trigger] group_run(ar, gid, bufs, b, g).regs[i],
            ),
{
    lemma_solo_to(ar, gid, bufs, b, b.len(), g);
    let h = group_run(ar, gid, bufs, b, g);
    assert(h.regs =~= each_alone(ar, gid, bufs, b, g).regs);
    assert forall|i: int| 0 <= i < g.regs.len() implies quiet(#[trigger] h.regs[i]) by {
        assert(quiet(g.regs[i]));
        lemma_silent_run(ar, lane(gid, bufs, g, i), b, b.len(), g.regs[i]);
    }
}

/// A block and then another.
pub proof fn lemma_group_cat<V>(
    ar: Arith<V>,
    gid: int,
    bufs: spec_fn(u32, int) -> V,
    b: Seq<Code>,
    d: Seq<Code>,
    k: nat,
    g: Group<V>,
)
    requires
        k <= d.len(),
    ensures
        group_run_to(ar, gid, bufs, b + d, b.len() + k, g) == group_run_to(
            ar,
            gid,
            bufs,
            d,
            k,
            group_run(ar, gid, bufs, b, g),
        ),
    decreases k,
{
    if k == 0 {
        lemma_group_same(ar, gid, bufs, b, b + d, b.len(), g);
    } else {
        lemma_group_cat(ar, gid, bufs, b, d, (k - 1) as nat, g);
        assert((b + d)[b.len() + k - 1] == d[k - 1]);
    }
}

proof fn lemma_group_same<V>(
    ar: Arith<V>,
    gid: int,
    bufs: spec_fn(u32, int) -> V,
    b: Seq<Code>,
    d: Seq<Code>,
    k: nat,
    g: Group<V>,
)
    requires
        k <= b.len(),
        k <= d.len(),
        forall|i: int| 0 <= i < k ==> b[i] == d[i],
    ensures
        group_run_to(ar, gid, bufs, b, k, g) == group_run_to(ar, gid, bufs, d, k, g),
    decreases k,
{
    if k > 0 {
        lemma_group_same(ar, gid, bufs, b, d, (k - 1) as nat, g);
    }
}

/// Where every simdgroup takes a block, it is taken as without a condition.
pub proof fn lemma_unmasked<V>(
    ar: Arith<V>,
    gid: int,
    bufs: spec_fn(u32, int) -> V,
    mask: spec_fn(int) -> bool,
    b: Seq<Code>,
    k: nat,
    g: Group<V>,
)
    requires
        k <= b.len(),
        simd_only(b),
        forall|i: int| 0 <= i < g.regs.len() ==> #[trigger] mask(i),
    ensures
        group_run_to(ar, gid, bufs, b, k, g) == masked_to(ar, gid, bufs, mask, b, k, g),
        masked_to(ar, gid, bufs, mask, b, k, g).regs.len() == g.regs.len(),
    decreases k,
{
    if k > 0 {
        lemma_unmasked(ar, gid, bufs, mask, b, (k - 1) as nat, g);
        let h = group_run_to(ar, gid, bufs, b, (k - 1) as nat, g);
        let s = b[k - 1];
        if meets(s) {
            assert(adds_up(s));
            let t = group_step(ar, gid, bufs, s, h);
            let u = masked_step(ar, gid, bufs, mask, s, h);
            let x = s->Flat_0;
            assert(t == joint(ar, gid, bufs, x, h));
            assert(x->Assign_expr is SimdSum);
            assert(t.shared == h.shared && t.stored == h.stored);
            assert(t.regs =~= u.regs);
            assert(t == u);
        } else {
            assert(!adds_up(s));
            let x = Seq::new(h.regs.len(), |i: int| step(ar, lane(gid, bufs, h, i), s, h.regs[i]));
            let y = Seq::new(
                h.regs.len(),
                |i: int|
                    if mask(i) {
                        step(ar, lane(gid, bufs, h, i), s, h.regs[i])
                    } else {
                        h.regs[i]
                    },
            );
            assert(x =~= y);
            assert(group_step(ar, gid, bufs, s, h) == seen(x, h));
            assert(masked_step(ar, gid, bufs, mask, s, h) == seen(y, h));
        }
    }
}

/// Where no simdgroup takes a block, nothing changes.
pub proof fn lemma_masked_off<V>(
    ar: Arith<V>,
    gid: int,
    bufs: spec_fn(u32, int) -> V,
    mask: spec_fn(int) -> bool,
    b: Seq<Code>,
    k: nat,
    g: Group<V>,
)
    requires
        k <= b.len(),
        forall|i: int| 0 <= i < g.regs.len() ==> !#[trigger] mask(i),
        forall|i: int| 0 <= i < g.regs.len() ==> quiet(#[trigger] g.regs[i]),
    ensures
        masked_to(ar, gid, bufs, mask, b, k, g) == g,
    decreases k,
{
    if k > 0 {
        lemma_masked_off(ar, gid, bufs, mask, b, (k - 1) as nat, g);
        let c = b[k - 1];
        let h = masked_step(ar, gid, bufs, mask, c, g);
        if !adds_up(c) {
            let after = Seq::new(
                g.regs.len(),
                |i: int|
                    if mask(i) {
                        step(ar, lane(gid, bufs, g, i), c, g.regs[i])
                    } else {
                        g.regs[i]
                    },
            );
            assert(after =~= g.regs);
            assert(h == seen(after, g));
            lemma_nothing_collected(g.shared, after, after.len());
            lemma_nothing_stored(g.stored, after, 0, after.len());
            assert forall|i: int| 0 <= i < g.regs.len() implies #[trigger] h.regs[i]
                == g.regs[i] by {
                assert(quiet(g.regs[i]));
            }
        }
        assert(h.regs =~= g.regs);
    }
}

/// Threads meet in a block with a statement in which they meet.
pub proof fn lemma_meets_at(b: Seq<Code>, j: int, k: nat)
    requires
        0 <= j < k <= b.len(),
        meets(b[j]),
    ensures
        block_meets(b, k),
    decreases k,
{
    if j < k - 1 {
        lemma_meets_at(b, j, (k - 1) as nat);
    }
}

} // verus!
