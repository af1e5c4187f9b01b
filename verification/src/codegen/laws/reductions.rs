//! What the kernels that are scheduled for sums over rows compute.

use vstd::prelude::*;
use vstd::arithmetic::div_mod::lemma_fundamental_div_mod_converse;

use crate::codegen::laws::machine::{fresh_group, group_run, Arith};
use crate::codegen::laws::meaning::{bound, element, elements, lemma_run_of};
use crate::codegen::laws::product::{generic_job, lemma_generic};
use crate::codegen::laws::rows::lemma_sum_last;
use crate::codegen::laws::sums::series;
use crate::codegen::laws::sweep::lemma_inside;
use crate::codegen::lower::kernels::{lowered_in, other_body, projection};
use crate::codegen::lower::matvec::{
    at_least_one, groups_of, ids_fit, matvec_launch_of, matvec_lowered, sched_error, sched_ok,
    MatvecEpi,
};
use crate::codegen::schedule::scheduled;
use crate::ir::dtype::TensorId;
use crate::ir::graph::{reads_below, GraphV, OpV};
use crate::ir::kernel::{KirLaunch, OptSchedule};

verus! {

/// Elements `from` to `to` of a tensor, as they stand in buffer `buf`.
pub open spec fn held<V>(
    ar: Arith<V>,
    g: GraphV,
    given: spec_fn(TensorId, int) -> V,
    id: TensorId,
    buf: u32,
    from: int,
    to: int,
) -> Map<(u32, int), V> {
    Map::new(
        |at: (u32, int)| at.0 == buf && from <= at.1 < to,
        |at: (u32, int)| element(ar, g, given, id, at.1),
    )
}

/// Whether products of a matrix and a row have the shape of the matrix.
pub open spec fn products_shaped(g: GraphV) -> bool {
    forall|i: int|
        #![trigger g.nodes[i]]
        0 <= i < g.nodes.len() ==> match g.nodes[i].op {
            OpV::MulBroadcastRow { left, .. } => g.nodes[i].shape == g.shape(left),
            _ => true,
        }
}

/// The smaller of two numbers.
pub open spec fn least(a: int, b: int) -> int {
    if a < b {
        a
    } else {
        b
    }
}

/// The kernel that is scheduled and lowered for the product of a float matrix and a vector, with
/// any tiling that is accepted, computes the product where sums may be taken in any order: where
/// the buffers hold the matrix and the vector, group `gid` of the groups that are launched stores
/// its `nr0` elements of the output, as far as there are any, and nothing else. Left out are
/// tilings with more than one element behind the last whole vector load and more than one thread,
/// which lose elements.
pub proof fn lemma_matvec<V>(
    ar: Arith<V>,
    g: GraphV,
    given: spec_fn(TensorId, int) -> V,
    out: TensorId,
    sched: OptSchedule,
    gid: int,
    bufs: spec_fn(u32, int) -> V,
)
    requires
        ar.exact(),
        g.ordered(),
        products_shaped(g),
        !g.hints.contains_key(out.0),
        scheduled(g, out) is Ok,
        scheduled(g, out)->Ok_0.kind is Matvec,
        bound(bufs, elements(ar, g, given), scheduled(g, out)->Ok_0.inputs),
        scheduled(g, out)->Ok_0.kind->Matvec_weight_dtype.is_float(),
        sched_ok(sched),
        ids_fit(0, sched),
        0 <= gid,
        ({
            let k = scheduled(g, out)->Ok_0.kind;
            let nr = at_least_one(sched.nr0);
            let rows = k->Matvec_rows;
            let cols = k->Matvec_cols;
            &&& rows <= u32::MAX
            &&& cols + 0x80000 <= u32::MAX
            &&& (gid + 1) * nr <= u32::MAX
            &&& (gid + 1) * nr * cols <= u32::MAX
            &&& cols as int % sched.vec as int <= 1 || sched.tg == 1
        }),
    ensures
        ({
            let k = scheduled(g, out)->Ok_0;
            let nr = at_least_one(sched.nr0);
            let rows = k.kind->Matvec_rows;
            let cols = k.kind->Matvec_cols;
            lowered_in(g, k, sched) matches Ok(ir) && {
                &&& ir.launch == (KirLaunch::RowsParallel {
                    rows: groups_of(rows, nr),
                    tg: sched.tg,
                })
                &&& group_run(ar, gid, bufs, ir.body, fresh_group(sched.tg as nat)).stored
                    == held(
                    ar,
                    g,
                    given,
                    out,
                    2,
                    gid * nr,
                    least((gid + 1) * nr, rows as int),
                )
            }
        }),
{
    reveal(projection);
    reveal(sched_error);
    reveal(matvec_lowered);
    reveal(matvec_launch_of);
    let k = scheduled(g, out)->Ok_0;
    let rows = k.kind->Matvec_rows;
    let cols = k.kind->Matvec_cols;
    let wd = k.kind->Matvec_weight_dtype;
    let nr = at_least_one(sched.nr0);
    let job = generic_job(ar, gid, bufs, rows, cols, wd, sched, 1, None, 2, 0);
    lemma_inside(cols as int, sched.vec as int, 0);
    assert(cols as int % sched.vec as int == cols as int - cols as int / sched.vec as int
        * sched.vec as int) by (nonlinear_arith)
        requires
            sched.vec >= 1,
    ;
    assert(job.reaches_all());
    lemma_generic(ar, gid, bufs, rows, cols, wd, sched, 1, 2, None, MatvecEpi::Plain, 0);
    let want = held(ar, g, given, out, 2, gid * nr, least((gid + 1) * nr, rows as int));
    let got = job.products(2, nr as nat);
    assert(gid * nr + nr == (gid + 1) * nr) by (nonlinear_arith);
    assert(reads_below(g.nodes[out.0 as int].op, out.0 as int));
    let inp = g.at(out).op->SumReduce_inp;
    assert(reads_below(g.nodes[inp.0 as int].op, inp.0 as int));
    let left = k.inputs[0];
    let row = k.inputs[1];
    assert(0 <= gid * nr) by (nonlinear_arith)
        requires
            0 <= gid,
    ;
    assert forall|at: (u32, int)| got.contains_key(at) implies #[trigger] got[at] == want[at] by {
        let r = at.1;
        let t = |i: int| ar.product(bufs(0, r * cols + i), bufs(1, i));
        assert(job.term(r - job.first()) =~= t);
        assert(g.at(inp) == g.nodes[inp.0 as int]);
        assert forall|i: int| 0 <= i < cols implies #[trigger] t(i) == element(
            ar,
            g,
            given,
            inp,
            r * cols + i,
        ) by {
            let n = r * cols + i;
            assert(0 <= r * cols) by (nonlinear_arith)
                requires
                    0 <= r,
            ;
            lemma_fundamental_div_mod_converse(n, cols as int, r, i);
            assert(bufs(0, n) == elements(ar, g, given)(left, n));
            assert(bufs(1, i) == elements(ar, g, given)(row, i));
        }
        lemma_run_of(ar, g, given, inp, r * cols, t, cols as nat);
    }
    assert(got =~= want);
    assert(k.output == out);
}

/// Every row of a matrix falls to exactly one of the groups that are launched for it.
pub proof fn lemma_rows_covered(rows: usize, nr: u32, row: int)
    requires
        1 <= nr,
        rows + nr <= usize::MAX,
        0 <= row < rows,
    ensures
        ({
            let gid = row / nr as int;
            &&& 0 <= gid < groups_of(rows, nr)
            &&& gid * nr <= row < (gid + 1) * nr
        }),
        forall|other: int| #[trigger] (other * nr) <= row < other * nr + nr ==> other == row
            / nr as int,
{
    let n = nr as int;
    let gid = row / n;
    assert(gid * n <= row < (gid + 1) * n && 0 <= gid) by (nonlinear_arith)
        requires
            gid == row / n,
            n >= 1,
            row >= 0,
    ;
    let groups = (rows + n - 1) / n;
    assert(gid < groups) by (nonlinear_arith)
        requires
            groups == (rows + n - 1) / n,
            gid == row / n,
            n >= 1,
            0 <= row < rows,
    ;
    assert(groups_of(rows, nr) == groups) by {
        assert(groups <= rows + n - 1) by (nonlinear_arith)
            requires
                groups == (rows + n - 1) / n,
                n >= 1,
                rows >= 0,
        ;
    }
    assert forall|other: int| #[trigger] (other * nr) <= row < other * nr + nr implies other
        == gid by {
        assert(other == gid) by (nonlinear_arith)
            requires
                other * n <= row < other * n + n,
                gid * n <= row < (gid + 1) * n,
                n >= 1,
        ;
    }
}

/// The kernel that is scheduled and lowered for the sums of the rows of a matrix computes them
/// where sums may be taken in any order: where the buffer holds the matrix, group `gid` stores
/// element `gid` of the output and nothing else.
pub proof fn lemma_row_sums<V>(
    ar: Arith<V>,
    g: GraphV,
    given: spec_fn(TensorId, int) -> V,
    out: TensorId,
    sched: OptSchedule,
    gid: int,
    bufs: spec_fn(u32, int) -> V,
)
    requires
        ar.exact(),
        g.ordered(),
        !g.hints.contains_key(out.0),
        scheduled(g, out) is Ok,
        scheduled(g, out)->Ok_0.kind is SumLast,
        bound(bufs, elements(ar, g, given), scheduled(g, out)->Ok_0.inputs),
        sched_ok(sched),
        0 <= gid,
        ({
            let cols = scheduled(g, out)->Ok_0.kind->SumLast_cols;
            &&& cols + sched.tg <= u32::MAX
            &&& (gid + 1) * cols <= u32::MAX
        }),
    ensures
        ({
            let k = scheduled(g, out)->Ok_0;
            lowered_in(g, k, sched) matches Ok(ir) && {
                &&& ir.launch == (KirLaunch::RowsParallel {
                    rows: k.kind->SumLast_rows,
                    tg: sched.tg,
                })
                &&& group_run(ar, gid, bufs, ir.body, fresh_group(sched.tg as nat)).stored
                    == held(ar, g, given, out, 1, gid, gid + 1)
            }
        }),
{
    reveal(other_body);
    reveal(sched_error);
    let k = scheduled(g, out)->Ok_0;
    let cols = k.kind->SumLast_cols;
    lemma_sum_last(ar, gid, bufs, cols, g.dtype(out), sched.tg);
    assert(k.output == out);
    assert(reads_below(g.nodes[out.0 as int].op, out.0 as int));
    let inp = k.inputs[0];
    let t = |i: int| bufs(0, gid * cols + i);
    assert(0 <= gid * cols) by (nonlinear_arith)
        requires
            0 <= gid,
    ;
    assert forall|i: int| 0 <= i < cols implies #[trigger] t(i) == element(
        ar,
        g,
        given,
        inp,
        gid * cols + i,
    ) by {
        assert(bufs(0, gid * cols + i) == elements(ar, g, given)(inp, gid * cols + i));
    }
    lemma_run_of(ar, g, given, inp, gid * cols, t, cols as nat);
    assert(Map::empty().insert((1u32, gid), series(ar, t, cols as nat)) =~= held(
        ar,
        g,
        given,
        out,
        1,
        gid,
        gid + 1,
    ));
}

} // verus!
