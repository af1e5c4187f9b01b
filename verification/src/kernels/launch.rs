//! How a kernel is launched: which buffers it needs and how many threads run it.

use vstd::prelude::*;
use vstd::string::*;

use crate::codegen::render::kernel::{at_least, launch_hint, LaunchHint, MetalKernelSource};
use crate::ir::kernel::KirLaunch;
use crate::text::{dec, dec_usize};

verus! {

/// Thread groups and threads per group, in two dimensions, and bytes of group memory.
#[derive(Clone, Copy, Debug, PartialEq, Eq, Structural)]
pub struct Grid {
    pub groups_x: u64,
    pub groups_y: u64,
    pub threads_x: u64,
    pub threads_y: u64,
    pub memory: Option<u64>,
}

/// Groups of at most `tg` threads that together hold `n`.
pub open spec fn grid_1d(n: u64, tg: u64) -> Grid {
    let t = if tg < n {
        tg
    } else {
        n
    };
    let threads = if t == 0 {
        1
    } else {
        t
    };
    Grid {
        groups_x: ((n + threads - 1) / threads as int) as u64,
        groups_y: 1,
        threads_x: threads,
        threads_y: 1,
        memory: None,
    }
}

/// Whether the thread counts of a launch are machine integers.
pub open spec fn launch_fits(l: LaunchHint) -> bool {
    match l {
        LaunchHint::Elementwise { n } => n <= 0x7fff_ffff_ffff_ffff,
        LaunchHint::Rows { rows, .. } => rows <= 0x7fff_ffff_ffff_ffff,
        LaunchHint::RowsParallelSg { nsg, .. } => nsg * 32 <= u64::MAX,
        LaunchHint::MulMm { tw, nsg, .. } => tw * nsg <= u64::MAX,
        _ => true,
    }
}

/// Threads per group that a kernel is launched with.
pub open spec fn group_threads(l: LaunchHint) -> u64 {
    match l {
        LaunchHint::Elementwise { .. } | LaunchHint::Rows { .. } => 256,
        LaunchHint::RowsParallel { tg, .. } => tg,
        LaunchHint::RowsParallelSg { nsg, .. } => (nsg * 32) as u64,
        LaunchHint::RowsParallel2D { tg, .. } => tg,
        LaunchHint::MulMm { tw, nsg, .. } => (tw * nsg) as u64,
    }
}

pub fn tg_for(l: &LaunchHint) -> (r: u64)
    requires
        launch_fits(*l),
    ensures
        r == group_threads(*l),
{
    match l {
        LaunchHint::Elementwise { .. } | LaunchHint::Rows { .. } => 256,
        LaunchHint::RowsParallel { tg, .. } => *tg,
        LaunchHint::RowsParallelSg { nsg, .. } => *nsg * 32,
        LaunchHint::RowsParallel2D { tg, .. } => *tg,
        LaunchHint::MulMm { tw, nsg, .. } => *tw * *nsg,
    }
}

/// The grid of a launch with `tg` threads per group where the kernel leaves that open.
pub open spec fn grid_of(l: LaunchHint, tg: u64) -> Grid {
    match l {
        LaunchHint::Elementwise { n } => grid_1d(n as u64, tg),
        LaunchHint::Rows { rows, .. } => grid_1d(rows as u64, tg),
        LaunchHint::RowsParallel { rows, tg: t } => Grid {
            groups_x: rows as u64,
            groups_y: 1,
            threads_x: t,
            threads_y: 1,
            memory: None,
        },
        LaunchHint::RowsParallelSg { rows, nsg } => Grid {
            groups_x: rows as u64,
            groups_y: 1,
            threads_x: (nsg * 32) as u64,
            threads_y: 1,
            memory: None,
        },
        LaunchHint::RowsParallel2D { rows, batch, tg: t } => Grid {
            groups_x: rows as u64,
            groups_y: batch as u64,
            threads_x: t,
            threads_y: 1,
            memory: None,
        },
        LaunchHint::MulMm { tg_x, tg_y, tw, nsg, smem } => Grid {
            groups_x: tg_x,
            groups_y: tg_y,
            threads_x: tw,
            threads_y: nsg,
            memory: Some(smem),
        },
    }
}

fn line_grid(n: u64, tg: u64) -> (r: Grid)
    requires
        n <= 0x7fff_ffff_ffff_ffff,
    ensures
        r == grid_1d(n, tg),
{
    let t: u64 = if tg < n {
        tg
    } else {
        n
    };
    let threads: u64 = if t == 0 {
        1
    } else {
        t
    };
    Grid {
        groups_x: (n + (threads - 1)) / threads,
        groups_y: 1,
        threads_x: threads,
        threads_y: 1,
        memory: None,
    }
}

/// The grid of a launch.
pub fn launch_grid(l: &LaunchHint, tg: u64) -> (r: Grid)
    requires
        launch_fits(*l),
    ensures
        r == grid_of(*l, tg),
{
    match l {
        LaunchHint::Elementwise { n } => line_grid(*n as u64, tg),
        LaunchHint::Rows { rows, .. } => line_grid(*rows as u64, tg),
        LaunchHint::RowsParallel { rows, tg: t } => Grid {
            groups_x: *rows as u64,
            groups_y: 1,
            threads_x: *t,
            threads_y: 1,
            memory: None,
        },
        LaunchHint::RowsParallelSg { rows, nsg } => Grid {
            groups_x: *rows as u64,
            groups_y: 1,
            threads_x: *nsg * 32,
            threads_y: 1,
            memory: None,
        },
        LaunchHint::RowsParallel2D { rows, batch, tg: t } => Grid {
            groups_x: *rows as u64,
            groups_y: *batch as u64,
            threads_x: *t,
            threads_y: 1,
            memory: None,
        },
        LaunchHint::MulMm { tg_x, tg_y, tw, nsg, smem } => Grid {
            groups_x: *tg_x,
            groups_y: *tg_y,
            threads_x: *tw,
            threads_y: *nsg,
            memory: Some(*smem),
        },
    }
}

/// Every element of an elementwise launch gets a thread, and no group is without work.
pub proof fn lemma_grid_covers(n: u64, tg: u64)
    requires
        0 < n <= 0x7fff_ffff_ffff_ffff,
    ensures
        ({
            let g = grid_1d(n, tg);
            &&& g.groups_x * g.threads_x >= n
            &&& (g.groups_x - 1) * g.threads_x < n
            &&& 0 < g.threads_x <= n
        }),
{
    let g = grid_1d(n, tg);
    let t = g.threads_x as int;
    let m = n as int;
    let q = (m + t - 1) / t;
    assert(q * t >= m && (q - 1) * t < m && q <= m + t - 1) by (nonlinear_arith)
        requires
            t > 0,
            m > 0,
            q == (m + t - 1) / t,
    ;
}

/// Whether a line of groups has a thread for each of `n` elements and no group too many.
pub open spec fn covers(g: Grid, n: int) -> bool {
    &&& g.groups_x * g.threads_x >= n
    &&& n > 0 ==> (g.groups_x - 1) * g.threads_x < n
}

/// A kernel is launched with a thread for every element, or for every row that one thread works
/// on; with a group of the threads asked for, for every row that a group works on; and with
/// thirty-two threads for each simdgroup of it.
pub proof fn lemma_launch_covers(l: KirLaunch)
    requires
        launch_fits(launch_hint(l)),
    ensures
        ({
            let h = launch_hint(l);
            let g = grid_of(h, group_threads(h));
            &&& g.groups_y == 1 && g.threads_y == 1
            &&& match l {
                KirLaunch::Elementwise { n } => covers(g, n as int),
                KirLaunch::Rows { rows } => covers(g, rows as int),
                KirLaunch::RowsParallel { rows, tg } => rows > 0 && tg > 0 ==> g.groups_x == rows
                    && g.threads_x == tg,
                KirLaunch::RowsParallelSg { rows, nsg } => rows > 0 && nsg > 0 ==> g.groups_x
                    == rows && g.threads_x == 32 * nsg,
            }
        }),
{
    match l {
        KirLaunch::Elementwise { n } => lemma_grid_covers(at_least(n) as u64, 256),
        KirLaunch::Rows { rows } => lemma_grid_covers(at_least(rows) as u64, 256),
        _ => {},
    }
}

/// Where groups work on rows, each group has the threads that its kernel is launched with, and
/// there is a group for every row, or for every row of every batch.
pub proof fn lemma_group_for_every_row(l: LaunchHint, tg: u64)
    requires
        launch_fits(l),
    ensures
        ({
            let g = grid_of(l, tg);
            &&& !(l is Elementwise || l is Rows) ==> g.threads_x * g.threads_y == group_threads(l)
            &&& l matches LaunchHint::RowsParallel { rows, .. } ==> g.groups_x * g.groups_y == rows
            &&& l matches LaunchHint::RowsParallelSg { rows, .. } ==> g.groups_x * g.groups_y
                == rows
            &&& l matches LaunchHint::RowsParallel2D { rows, batch, .. } ==> g.groups_x * g.groups_y
                == rows * batch
        }),
{
}

/// The complaint that the number of some buffers or offsets is wrong.
pub open spec fn count_text(want: nat, what: Seq<char>, got: nat) -> Seq<char> {
    "expected "@ + dec(want) + " "@ + what + ", got "@ + dec(got)
}

/// What is wrong with the number of buffers and offsets of a launch.
pub open spec fn count_fault(
    n_inputs: usize,
    n_outputs: usize,
    ins: usize,
    in_offs: usize,
    outs: usize,
    out_offs: usize,
) -> Option<Seq<char>> {
    if ins != n_inputs {
        Some(count_text(n_inputs as nat, "inputs"@, ins as nat))
    } else if in_offs != ins {
        Some(count_text(ins as nat, "input offsets"@, in_offs as nat))
    } else if outs != at_least(n_outputs) {
        Some(count_text(at_least(n_outputs) as nat, "outputs"@, outs as nat))
    } else if out_offs != outs {
        Some(count_text(outs as nat, "output offsets"@, out_offs as nat))
    } else {
        None
    }
}

fn count_error(want: usize, what: &str, got: usize) -> (r: String)
    ensures
        r@ == count_text(want as nat, what@, got as nat),
{
    String::from_str("expected ").concat(dec_usize(want).as_str()).concat(" ").concat(what).concat(
        ", got ",
    ).concat(dec_usize(got).as_str())
}

/// Checks the number of buffers and byte offsets that a launch is given.
pub fn check_counts(
    kernel: &MetalKernelSource,
    ins: usize,
    in_offs: usize,
    outs: usize,
    out_offs: usize,
) -> (r: Result<(), String>)
    ensures
        match r {
            Ok(_) => count_fault(
                kernel.n_inputs,
                kernel.n_outputs,
                ins,
                in_offs,
                outs,
                out_offs,
            ) is None,
            Err(e) => count_fault(
                kernel.n_inputs,
                kernel.n_outputs,
                ins,
                in_offs,
                outs,
                out_offs,
            ) == Some(e@),
        },
{
    let n_out: usize = at_least(kernel.n_outputs);
    if ins != kernel.n_inputs {
        Err(count_error(kernel.n_inputs, "inputs", ins))
    } else if in_offs != ins {
        Err(count_error(ins, "input offsets", in_offs))
    } else if outs != n_out {
        Err(count_error(n_out, "outputs", outs))
    } else if out_offs != outs {
        Err(count_error(outs, "output offsets", out_offs))
    } else {
        Ok(())
    }
}

} // verus!
