//! Bodies of the fused kernels around matrix-vector products: gate and up
//! projections with GELU, query/key/value projections, and projections that
//! are normalised in the same launch.

use vstd::prelude::*;
use vstd::string::*;

use crate::codegen::error::{CodegenError, ErrorV};
use crate::codegen::lower::block::{
    accumulate, assign, barrier, c, cn, code, cs, cu, equal, fresh, gid, gt, ld, let_f, let_u, lid,
    over, plus, reduce, row_at, simd_sum, store, tg_decl, tg_load, tg_store, times, un, uv, v,
    vec_dot, Block, Extend,
};
use crate::codegen::lower::elem::{emit_gelu_of, gelu_code};
use crate::codegen::lower::matvec::{
    at_least_one, coop_head, copy_x_code, decls_code, effective_tg,
    effective_vec, ids_fit, lemma_fits, lower_coop_head, lower_copy_x, lower_decls,
    lower_row_guard, lower_superblock, lower_sweep, lowers_to, make_tiling, packed_k_quant,
    row_guard, sched_ok, stage_coop, stage_coop_x, stage_local_x, stage_x, superblock_code,
    sweep_code, tiling_of, x_at, x_dtype, Lowered, Rows, Tiling, moved, unroll_off,
};
use crate::ir::dtype::{DType, Scalar, ZERO};
use crate::ir::kernel::{Code, KirLaunch, KirStmt, OptSchedule, UnaryOp};
use crate::text::{dec, dec_usize};

verus! {

/// Stores `gelu(gate) * up` of row `r`, whose accumulators stand side by side.
pub open spec fn gated_row_code(m: Rows, out_buf: u32, r: int, n: u32) -> Seq<Code> {
    let gelu = (n + 2) as u32;
    gelu_code(code(), v(m.acc(r)), n, (n + 1) as u32, gelu)
        .s(store(out_buf, row_at(m.first, r as u32), times(v(gelu), v((m.acc(r) + 1) as u32))))
}

fn lower_gated_row(m: Rows, out_buf: u32, r: u32, next: &mut u32) -> (b: Block)
    requires
        m.fits(r + 1),
        *old(next) + 3 <= u32::MAX,
    ensures
        b@ == gated_row_code(m, out_buf, r as int, *old(next)),
        *final(next) == *old(next) + 3,
{
    let ax: u32 = fresh(next);
    let u: u32 = fresh(next);
    let gelu: u32 = fresh(next);
    let acc: u32 = m.acc_id(r);
    emit_gelu_of(Block::new(), v(acc), ax, u, gelu)
        .s(store(out_buf, row_at(m.first, r), times(v(gelu), v(acc + 1))))
}

/// Sums and stores the first `r` gated rows of the cooperative kernel.
pub open spec fn gated_coop_finish(
    b: Seq<Code>,
    m: Rows,
    lane: u32,
    exact: bool,
    out_buf: u32,
    n: u32,
    r: nat,
) -> Seq<Code>
    decreases r,
{
    if r == 0 {
        b
    } else {
        let g = m.acc(r - 1);
        let up = (g + 1) as u32;
        row_guard(
            gated_coop_finish(b, m, lane, exact, out_buf, n, (r - 1) as nat),
            m,
            (r - 1) as u32,
            exact,
            code()
                .s(assign(g, simd_sum(v(g))))
                .s(assign(up, simd_sum(v(up))))
                .when(
                    equal(uv(lane), cu(0)),
                    gated_row_code(m, out_buf, r - 1, (n + 3 * (r - 1)) as u32),
                ),
        )
    }
}

fn lower_gated_coop_finish(
    b: Block,
    m: Rows,
    lane: u32,
    exact: bool,
    out_buf: u32,
    next: &mut u32,
) -> (res: Block)
    requires
        m.fits(4),
        m.per == 3,
        *old(next) + 16 <= u32::MAX,
    ensures
        res@ == gated_coop_finish(b@, m, lane, exact, out_buf, *old(next), 4),
        *final(next) == *old(next) + 12,
{
    let ghost n = *next;
    let mut res: Block = b;
    let mut r: u32 = 0;
    while r < 4
        invariant
            r <= 4,
            m.fits(4),
            m.per == 3,
            n + 16 <= u32::MAX,
            *next == n + 3 * r,
            res@ == gated_coop_finish(b@, m, lane, exact, out_buf, n, r as nat),
        decreases 4 - r,
    {
        proof {
            lemma_fits(m, r as int, 4);
        }
        let g: u32 = m.acc_id(r);
        let up: u32 = g + 1;
        let row = lower_gated_row(m, out_buf, r, next);
        let sum = Block::new()
            .s(assign(g, simd_sum(v(g))))
            .s(assign(up, simd_sum(v(up))))
            .when(equal(uv(lane), cu(0)), row);
        res = lower_row_guard(res, m, r, exact, sum);
        r += 1;
    }
    res
}

/// The cooperative gate/up kernel for Q4_K weights: the four rows of a simdgroup read each
/// superblock of activations once for both matrices.
#[verifier::opaque]
pub open spec fn gate_up_coop(
    rows: usize,
    cols: usize,
    nsg: u32,
    x_buf: u32,
    out_buf: u32,
    rms: Option<(u32,
    Scalar)>,
    n0: u32,
) -> Result<Lowered, ErrorV> {
    match stage_coop(cols, x_buf, (nsg * 32) as u64, rms, n0) {
        Err(e) => Err(e),
        Ok(st) => {
            let lane = st.next;
            let exact = rows as int % (nsg * 4) == 0;
            let m = Rows {
                rows: rows as u32,
                cols: cols as u32,
                first: (lane + 2) as u32,
                ids: (lane + 4) as u32,
                per: 3,
                x_buf,
                tg_x: st.tg_x,
                width: 1,
                dtype: DType::Q4K,
            };
            let ib = (lane + 16) as u32;
            let n = (lane + 17) as u32;
            let all = KirStmt::Q4kCoopNr4Dual {
                row0_base: uv(m.base(0)),
                cols: m.cols,
                ib: uv(ib),
                b_from_tg: m.tg_x,
                x_buf,
                lane: uv(lane),
                acc_g: [m.acc(0), m.acc(1), m.acc(2), m.acc(3)],
                acc_u: [
                    (m.acc(0) + 1) as u32,
                    (m.acc(1) + 1) as u32,
                    (m.acc(2) + 1) as u32,
                    (m.acc(3) + 1) as u32,
                ],
            };
            let head = decls_code(coop_head(st.code, false, nsg, lane), m, 4)
                .s(let_u(ib, uv((lane + 3) as u32)))
                .range(
                    ib,
                    cu((cols / 256) as u32),
                    cu(4),
                    superblock_code(m, false, ib, lane, exact, all),
                );
            Ok(
                Lowered {
                    code: gated_coop_finish(head, m, lane, exact, out_buf, n, 4),
                    next: (n + 12) as u32,
                },
            )
        },
    }
}

fn lower_matvec_gate_up_q4k_coop(
    rows: usize,
    cols: usize,
    sched: OptSchedule,
    x_buf: u32,
    out_buf: u32,
    rms: Option<(u32,
    Scalar)>,
    next: &mut u32,
) -> (r: Result<Block, CodegenError>)
    requires
        sched.nsg <= 0x1000000,
        *old(next) + 64 <= u32::MAX,
    ensures
        lowers_to(
            gate_up_coop(rows, cols, at_least_one(sched.nsg), x_buf, out_buf, rms, *old(next)),
            r,
            *old(next),
            *final(next),
        ),
{
    proof {
        reveal(gate_up_coop);
    }
    let nsg: u32 = at_least_one(sched.nsg);
    let exact: bool = rows % ((nsg * 4) as usize) == 0;
    let (b, tg_x) = stage_coop_x(cols, x_buf, (nsg as u64) * 32, rms, next)?;
    let lane: u32 = *next;
    let m = Rows {
        rows: rows as u32,
        cols: cols as u32,
        first: lane + 2,
        ids: lane + 4,
        per: 3,
        x_buf,
        tg_x,
        width: 1,
        dtype: DType::Q4K,
    };
    let ib: u32 = lane + 16;
    *next = lane + 17;
    let all = KirStmt::Q4kCoopNr4Dual {
        row0_base: uv(m.base_id(0)),
        cols: m.cols,
        ib: uv(ib),
        b_from_tg: m.tg_x,
        x_buf,
        lane: uv(lane),
        acc_g: [m.acc_id(0), m.acc_id(1), m.acc_id(2), m.acc_id(3)],
        acc_u: [m.acc_id(0) + 1, m.acc_id(1) + 1, m.acc_id(2) + 1, m.acc_id(3) + 1],
    };
    let b = lower_decls(lower_coop_head(b, false, nsg, lane), m, 4)
        .s(let_u(ib, uv(lane + 3)))
        .range(
            ib,
            cu((cols / 256) as u32),
            cu(4),
            lower_superblock(m, false, ib, lane, exact, all),
        );
    Ok(lower_gated_coop_finish(b, m, lane, exact, out_buf, next))
}

/// Reduces and stores the first `r` gated rows of the generic kernel.
pub open spec fn gated_finish(
    b: Seq<Code>,
    m: Rows,
    tg: u64,
    out_buf: u32,
    n: u32,
    r: nat,
) -> Seq<Code>
    decreases r,
{
    if r == 0 {
        b
    } else {
        let g = m.acc(r - 1);
        gated_finish(b, m, tg, out_buf, n, (r - 1) as nat).when(
            gt(cu(m.rows), row_at(m.first, (r - 1) as u32)),
            code()
                .s(reduce(g, tg))
                .s(reduce((g + 1) as u32, tg))
                .when(
                    equal(lid(), cu(0)),
                    gated_row_code(m, out_buf, r - 1, (n + 3 * (r - 1)) as u32),
                ),
        )
    }
}

fn lower_gated_finish(
    b: Block,
    m: Rows,
    tg: u64,
    out_buf: u32,
    nr: u32,
    next: &mut u32,
) -> (res: Block)
    requires
        m.fits(nr as int),
        m.per == 3,
        *old(next) + 3 * nr + 3 <= u32::MAX,
    ensures
        res@ == gated_finish(b@, m, tg, out_buf, *old(next), nr as nat),
        *final(next) == *old(next) + 3 * nr,
{
    let ghost n = *next;
    let mut res: Block = b;
    let mut r: u32 = 0;
    while r < nr
        invariant
            r <= nr,
            m.fits(nr as int),
            m.per == 3,
            n + 3 * nr + 3 <= u32::MAX,
            *next == n + 3 * r,
            res@ == gated_finish(b@, m, tg, out_buf, n, r as nat),
        decreases nr - r,
    {
        proof {
            lemma_fits(m, r as int, nr as int);
        }
        let g: u32 = m.acc_id(r);
        let row = lower_gated_row(m, out_buf, r, next);
        res = res.when(
            gt(cu(m.rows), row_at(m.first, r)),
            Block::new().s(reduce(g, tg)).s(reduce(g + 1, tg)).when(equal(lid(), cu(0)), row),
        );
        r += 1;
    }
    res
}

/// The generic gate/up kernel.
#[verifier::opaque]
pub open spec fn gate_up_generic(
    rows: usize,
    cols: usize,
    wd: DType,
    sched: OptSchedule,
    x_buf: u32,
    out_buf: u32,
    rms: Option<(u32,
    Scalar)>,
    n0: u32,
) -> Result<Lowered, ErrorV> {
    let t = tiling_of(effective_tg(wd, cols, sched.tg), effective_vec(wd, sched.vec), sched);
    match stage_x(cols, x_buf, t.tg, x_dtype(wd), rms, n0) {
        Err(e) => Err(e),
        Ok(st) => {
            let first = st.next;
            let m = Rows {
                rows: rows as u32,
                cols: cols as u32,
                first,
                ids: (first + 1) as u32,
                per: 3,
                x_buf,
                tg_x: st.tg_x,
                width: t.vec,
                dtype: wd,
            };
            let k = (first + 1 + 3 * t.nr) as u32;
            let n = (k + 1) as u32;
            let head = decls_code(st.code.s(let_u(first, times(gid(), cu(t.nr)))), m, t.nr as nat);
            Ok(
                Lowered {
                    code: gated_finish(sweep_code(head, m, t, k), m, t.tg, out_buf, n, t.nr as nat),
                    next: (n + 3 * t.nr) as u32,
                },
            )
        },
    }
}

fn lower_matvec_gate_up_generic(
    rows: usize,
    cols: usize,
    wd: DType,
    sched: OptSchedule,
    x_buf: u32,
    out_buf: u32,
    rms: Option<(u32,
    Scalar)>,
    next: &mut u32,
) -> (r: Result<Block, CodegenError>)
    requires
        sched_ok(sched),
        ids_fit(*old(next), sched),
    ensures
        lowers_to(
            gate_up_generic(rows, cols, wd, sched, x_buf, out_buf, rms, *old(next)),
            r,
            *old(next),
            *final(next),
        ),
{
    proof {
        reveal(gate_up_generic);
    }
    let t = make_tiling(effective_tg(wd, cols, sched.tg), effective_vec(wd, sched.vec), sched);
    let (b, tg_x) = stage_local_x(cols, x_buf, t.tg, x_dtype(wd), rms, next)?;
    let first: u32 = fresh(next);
    let m = Rows {
        rows: rows as u32,
        cols: cols as u32,
        first,
        ids: *next,
        per: 3,
        x_buf,
        tg_x,
        width: t.vec,
        dtype: wd,
    };
    *next = *next + 3 * t.nr;
    let b = lower_decls(b.s(let_u(first, times(gid(), cu(t.nr)))), m, t.nr);
    let k: u32 = fresh(next);
    let b = lower_sweep(b, m, t, k);
    Ok(lower_gated_finish(b, m, t.tg, out_buf, t.nr, next))
}

/// The gated kernel: `gelu(W0 . x) * (W1 . x)`, cooperative for Q4_K weights in whole blocks
/// where that can be staged. Buffers: 0 = gate, 1 = up.
#[verifier::opaque]
pub open spec fn gate_up_lowered(
    rows: usize,
    cols: usize,
    wd: DType,
    sched: OptSchedule,
    x_buf: u32,
    out_buf: u32,
    rms: Option<(u32,
    Scalar)>,
    n0: u32,
) -> Result<Lowered, ErrorV> {
    let coop = gate_up_coop(rows, cols, at_least_one(sched.nsg), x_buf, out_buf, rms, n0);
    if wd == DType::Q4K && cols % 256 == 0 && coop is Ok {
        coop
    } else {
        gate_up_generic(rows, cols, wd, sched, x_buf, out_buf, rms, n0)
    }
}

pub fn lower_matvec_gate_up_gelu(
    rows: usize,
    cols: usize,
    wd: DType,
    sched: OptSchedule,
    x_buf: u32,
    out_buf: u32,
    rms: Option<(u32,
    Scalar)>,
    next: &mut u32,
) -> (r: Result<Block, CodegenError>)
    requires
        sched_ok(sched),
        sched.nsg <= 0x1000000,
        ids_fit(*old(next), sched),
    ensures
        lowers_to(
            gate_up_lowered(rows, cols, wd, sched, x_buf, out_buf, rms, *old(next)),
            r,
            *old(next),
            *final(next),
        ),
{
    proof {
        reveal(gate_up_lowered);
    }
    if wd == DType::Q4K && cols % 256 == 0 {
        match lower_matvec_gate_up_q4k_coop(rows, cols, sched, x_buf, out_buf, rms, next) {
            Ok(b) => {
                return Ok(b);
            },
            Err(_) => {},
        }
    }
    lower_matvec_gate_up_generic(rows, cols, wd, sched, x_buf, out_buf, rms, next)
}

/// One accumulator of the query/key/value kernel: the variable, the weight buffer and its type.
#[derive(Clone, Copy, Debug, PartialEq, Eq, Structural)]
pub struct Stream {
    pub acc: u32,
    pub w: u32,
    pub dtype: DType,
}

/// What the rows of the query/key/value kernel share.
#[derive(Clone, Copy, Debug, PartialEq, Eq, Structural)]
pub struct Qkv {
    pub cols: u32,
    pub first: u32,
    pub x_buf: u32,
    pub tg_x: Option<u32>,
    /// The type of the query weights, which decides how activations are read and whether a
    /// scalar tail is needed.
    pub lead: DType,
}

/// One chunk at `k + d` for one stream.
#[verifier::allow_in_spec]
pub fn stream_dot(q: Qkv, t: Tiling, s: Stream, base: u32, k: u32, d: Option<u32>) -> KirStmt
    returns
        accumulate(
            s.acc,
            vec_dot(s.w, plus(uv(base), moved(k, d)), q.x_buf, moved(k, d), t.vec, s.dtype, q.tg_x),
        ),
{
    accumulate(
        s.acc,
        vec_dot(s.w, plus(uv(base), moved(k, d)), q.x_buf, moved(k, d), t.vec, s.dtype, q.tg_x),
    )
}

/// The product of the elements at `k` for one stream.
#[verifier::allow_in_spec]
pub fn stream_scalar(q: Qkv, s: Stream, base: u32, k: u32) -> KirStmt
    returns
        accumulate(
            s.acc,
            times(
                ld(s.w, plus(uv(base), uv(k)), s.dtype),
                x_at(q.tg_x, q.x_buf, k, x_dtype(q.lead)),
            ),
        ),
{
    accumulate(
        s.acc,
        times(ld(s.w, plus(uv(base), uv(k)), s.dtype), x_at(q.tg_x, q.x_buf, k, x_dtype(q.lead))),
    )
}

/// One chunk for one stream, or for two.
pub open spec fn streams_dot(
    b: Seq<Code>,
    q: Qkv,
    t: Tiling,
    s: Stream,
    s2: Option<Stream>,
    base: u32,
    k: u32,
    d: Option<u32>,
) -> Seq<Code> {
    let one = b.s(stream_dot(q, t, s, base, k, d));
    match s2 {
        None => one,
        Some(o) => one.s(stream_dot(q, t, o, base, k, d)),
    }
}

fn lower_streams_dot(
    b: Block,
    q: Qkv,
    t: Tiling,
    s: Stream,
    s2: Option<Stream>,
    base: u32,
    k: u32,
    d: Option<u32>,
) -> (r: Block)
    ensures
        r@ == streams_dot(b@, q, t, s, s2, base, k, d),
{
    let one = b.s(stream_dot(q, t, s, base, k, d));
    match s2 {
        None => one,
        Some(o) => one.s(stream_dot(q, t, o, base, k, d)),
    }
}

/// The first `u` chunks of an unrolled loop over one or two streams.
pub open spec fn streams_unrolled(
    q: Qkv,
    t: Tiling,
    s: Stream,
    s2: Option<Stream>,
    base: u32,
    k: u32,
    u: nat,
) -> Seq<Code>
    decreases u,
{
    if u == 0 {
        code()
    } else {
        streams_dot(
            streams_unrolled(q, t, s, s2, base, k, (u - 1) as nat),
            q,
            t,
            s,
            s2,
            base,
            k,
            unroll_off(u - 1, t.stride),
        )
    }
}

fn lower_streams_unrolled(
    q: Qkv,
    t: Tiling,
    s: Stream,
    s2: Option<Stream>,
    base: u32,
    k: u32,
) -> (res: Block)
    requires
        t.ok(),
    ensures
        res@ == streams_unrolled(q, t, s, s2, base, k, t.unroll as nat),
{
    let mut res: Block = Block::new();
    let mut u: u32 = 0;
    while u < t.unroll
        invariant
            u <= t.unroll,
            t.ok(),
            res@ == streams_unrolled(q, t, s, s2, base, k, u as nat),
        decreases t.unroll - u,
    {
        assert(u * t.stride <= 8 * 32768) by (nonlinear_arith)
            requires
                u <= 8,
                t.stride <= 32768,
        ;
        let d: Option<u32> = if u == 0 {
            None
        } else {
            Some(((u as u64) * t.stride) as u32)
        };
        res = lower_streams_dot(res, q, t, s, s2, base, k, d);
        u += 1;
    }
    res
}

/// Declares what the sweep of row `r` needs.
pub open spec fn streams_decl(
    q: Qkv,
    t: Tiling,
    s: Stream,
    s2: Option<Stream>,
    r: u32,
    base: u32,
    k: u32,
) -> Seq<Code> {
    let one = code().s(let_u(base, times(row_at(q.first, r), cu(q.cols)))).s(let_f(s.acc, c(ZERO)));
    let both = match s2 {
        None => one,
        Some(o) => one.s(let_f(o.acc, c(ZERO))),
    };
    both.s(let_u(k, times(lid(), cu(t.vec))))
}

/// The product of one row with one or two matrices, reduced over the threadgroup.
pub open spec fn streams_sweep(
    q: Qkv,
    t: Tiling,
    s: Stream,
    s2: Option<Stream>,
    r: u32,
    base: u32,
    k: u32,
) -> Seq<Code> {
    let loops = streams_decl(q, t, s, s2, r, base, k)
        .range_to(
            k,
            t.main_off(),
            cu(q.cols),
            cu(t.step()),
            streams_unrolled(q, t, s, s2, base, k, t.unroll as nat),
        )
        .range_to(
            k,
            (t.vec - 1) as u32,
            cu(q.cols),
            cu(t.stride as u32),
            streams_dot(code(), q, t, s, s2, base, k, None),
        );
    let tail = code().s(stream_scalar(q, s, base, k));
    let swept = if packed_k_quant(q.lead) {
        loops
    } else {
        loops.range(k, cu(q.cols), cu(t.tg as u32), match s2 {
            None => tail,
            Some(o) => tail.s(stream_scalar(q, o, base, k)),
        })
    };
    let one = swept.s(reduce(s.acc, t.tg));
    match s2 {
        None => one,
        Some(o) => one.s(reduce(o.acc, t.tg)),
    }
}

fn lower_streams_sweep(
    q: Qkv,
    t: Tiling,
    s: Stream,
    s2: Option<Stream>,
    r: u32,
    base: u32,
    k: u32,
) -> (res: Block)
    requires
        t.ok(),
    ensures
        res@ == streams_sweep(q, t, s, s2, r, base, k),
{
    let one = Block::new().s(let_u(base, times(row_at(q.first, r), cu(q.cols))))
        .s(let_f(s.acc, c(ZERO)));
    let both = match s2 {
        None => one,
        Some(o) => one.s(let_f(o.acc, c(ZERO))),
    };
    let loops = both.s(let_u(k, times(lid(), cu(t.vec))))
        .range_to(
            k,
            t.main_offset(),
            cu(q.cols),
            cu(t.step_len()),
            lower_streams_unrolled(q, t, s, s2, base, k),
        )
        .range_to(
            k,
            t.vec - 1,
            cu(q.cols),
            cu(t.stride as u32),
            lower_streams_dot(Block::new(), q, t, s, s2, base, k, None),
        );
    let swept = if packed_k_quant(q.lead) {
        loops
    } else {
        let tail = Block::new().s(stream_scalar(q, s, base, k));
        let tails = match s2 {
            None => tail,
            Some(o) => tail.s(stream_scalar(q, o, base, k)),
        };
        loops.range(k, cu(q.cols), cu(t.tg as u32), tails)
    };
    let one = swept.s(reduce(s.acc, t.tg));
    match s2 {
        None => one,
        Some(o) => one.s(reduce(o.acc, t.tg)),
    }
}

/// The shapes, weight types and output buffers of a query/key/value kernel.
#[derive(Clone, Copy, Debug, PartialEq, Eq, Structural)]
pub struct QkvSpec {
    pub q_rows: usize,
    pub kv_rows: usize,
    pub cols: usize,
    pub wq: DType,
    pub wk: DType,
    pub wv: DType,
    pub x_buf: u32,
    pub out_q: u32,
    pub out_k: u32,
    pub out_v: u32,
}

/// The larger of the two row counts.
#[verifier::allow_in_spec]
pub fn most_rows(q_rows: usize, kv_rows: usize) -> usize
    returns
        (if q_rows > kv_rows {
            q_rows
        } else {
            kv_rows
        }),
{
    if q_rows > kv_rows {
        q_rows
    } else {
        kv_rows
    }
}

/// Row `r` of the queries, and of keys and values together, where they exist. The identifiers
/// of the row are the seven from `n`.
pub open spec fn qkv_row(p: QkvSpec, q: Qkv, t: Tiling, r: u32, n: u32) -> Seq<Code> {
    let sq = Stream { acc: n, w: 0, dtype: p.wq };
    let sk = Stream { acc: (n + 3) as u32, w: 1, dtype: p.wk };
    let sv = Stream { acc: (n + 4) as u32, w: 2, dtype: p.wv };
    code()
        .when(
            gt(cu(p.q_rows as u32), row_at(q.first, r)),
            streams_sweep(q, t, sq, None, r, (n + 2) as u32, (n + 1) as u32).when(
                equal(lid(), cu(0)),
                code().s(store(p.out_q, row_at(q.first, r), v(sq.acc))),
            ),
        )
        .when(
            gt(cu(p.kv_rows as u32), row_at(q.first, r)),
            streams_sweep(q, t, sk, Some(sv), r, (n + 6) as u32, (n + 5) as u32).when(
                equal(lid(), cu(0)),
                code()
                    .s(store(p.out_k, row_at(q.first, r), v(sk.acc)))
                    .s(store(p.out_v, row_at(q.first, r), v(sv.acc))),
            ),
        )
}

fn lower_qkv_row(p: QkvSpec, q: Qkv, t: Tiling, r: u32, n: u32) -> (res: Block)
    requires
        t.ok(),
        n + 7 <= u32::MAX,
    ensures
        res@ == qkv_row(p, q, t, r, n),
{
    let sq = Stream { acc: n, w: 0, dtype: p.wq };
    let sk = Stream { acc: n + 3, w: 1, dtype: p.wk };
    let sv = Stream { acc: n + 4, w: 2, dtype: p.wv };
    Block::new()
        .when(
            gt(cu(p.q_rows as u32), row_at(q.first, r)),
            lower_streams_sweep(q, t, sq, None, r, n + 2, n + 1).when(
                equal(lid(), cu(0)),
                Block::new().s(store(p.out_q, row_at(q.first, r), v(sq.acc))),
            ),
        )
        .when(
            gt(cu(p.kv_rows as u32), row_at(q.first, r)),
            lower_streams_sweep(q, t, sk, Some(sv), r, n + 6, n + 5).when(
                equal(lid(), cu(0)),
                Block::new()
                    .s(store(p.out_k, row_at(q.first, r), v(sk.acc)))
                    .s(store(p.out_v, row_at(q.first, r), v(sv.acc))),
            ),
        )
}

/// The first `r` rows.
pub open spec fn qkv_rows(b: Seq<Code>, p: QkvSpec, q: Qkv, t: Tiling, n: u32, r: nat) -> Seq<Code>
    decreases r,
{
    if r == 0 {
        b
    } else {
        qkv_rows(b, p, q, t, n, (r - 1) as nat).when(
            gt(cu(most_rows(p.q_rows, p.kv_rows) as u32), row_at(q.first, (r - 1) as u32)),
            qkv_row(p, q, t, (r - 1) as u32, (n + 7 * (r - 1)) as u32),
        )
    }
}

/// The vector width: scalar as soon as one of the weights is Q6_K.
#[verifier::allow_in_spec]
pub fn qkv_vec(p: QkvSpec, sched_vec: u32) -> u32
    returns
        (if p.wq == DType::Q6K || p.wk == DType::Q6K || p.wv == DType::Q6K {
            1u32
        } else {
            effective_vec(p.wq, sched_vec)
        }),
{
    if p.wq == DType::Q6K || p.wk == DType::Q6K || p.wv == DType::Q6K {
        1
    } else {
        effective_vec(p.wq, sched_vec)
    }
}

/// The query/key/value kernel: three products that share one staging of the activations.
/// Buffers: 0, 1, 2 = weights. Every product reads its own weights by their own type.
#[verifier::opaque]
pub open spec fn qkv_lowered(
    p: QkvSpec,
    sched: OptSchedule,
    rms: Option<(u32,
    Scalar)>,
    n0: u32,
) -> Result<Lowered, ErrorV> {
    let t = tiling_of(effective_tg(p.wq, p.cols, sched.tg), qkv_vec(p, sched.vec), sched);
    match stage_x(p.cols, p.x_buf, t.tg, x_dtype(p.wq), rms, n0) {
        Err(e) => Err(e),
        Ok(st) => {
            let first = st.next;
            let q = Qkv { cols: p.cols as u32, first, x_buf: p.x_buf, tg_x: st.tg_x, lead: p.wq };
            let n = (first + 1) as u32;
            Ok(
                Lowered {
                    code: qkv_rows(
                        st.code.s(let_u(first, times(gid(), cu(t.nr)))),
                        p,
                        q,
                        t,
                        n,
                        t.nr as nat,
                    ),
                    next: (n + 7 * t.nr) as u32,
                },
            )
        },
    }
}

pub fn lower_matvec_qkv(
    p: QkvSpec,
    sched: OptSchedule,
    rms: Option<(u32,
    Scalar)>,
    next: &mut u32,
) -> (r: Result<Block, CodegenError>)
    requires
        sched_ok(sched),
        ids_fit(*old(next), sched),
    ensures
        lowers_to(qkv_lowered(p, sched, rms, *old(next)), r, *old(next), *final(next)),
{
    proof {
        reveal(qkv_lowered);
    }
    let t = make_tiling(effective_tg(p.wq, p.cols, sched.tg), qkv_vec(p, sched.vec), sched);
    let (b, tg_x) = stage_local_x(p.cols, p.x_buf, t.tg, x_dtype(p.wq), rms, next)?;
    let first: u32 = fresh(next);
    let q = Qkv { cols: p.cols as u32, first, x_buf: p.x_buf, tg_x, lead: p.wq };
    let n: u32 = *next;
    let b0 = b.s(let_u(first, times(gid(), cu(t.nr))));
    let ghost b0v = b0@;
    let mut b: Block = b0;
    let mut r: u32 = 0;
    while r < t.nr
        invariant
            r <= t.nr,
            t.ok(),
            n + 7 * t.nr <= u32::MAX,
            b@ == qkv_rows(b0v, p, q, t, n, r as nat),
        decreases t.nr - r,
    {
        let row = lower_qkv_row(p, q, t, r, n + 7 * r);
        b = b.when(gt(cu(most_rows(p.q_rows, p.kv_rows) as u32), row_at(q.first, r)), row);
        r += 1;
    }
    *next = n + 7 * t.nr;
    Ok(b)
}

/// `y = W . x` into threadgroup array 1, then `scale * (rms(y) * w + residual)`, in one threadgroup of
/// 256 threads that own a row each. Buffers: 0 = W, 1 = x, 2 = w, 3 = residual, 4 = output.
#[verifier::opaque]
pub open spec fn proj_rms_code(
    rows: usize,
    cols: usize,
    eps: Scalar,
    scale: Option<Scalar>,
    n0: u32,
) -> Seq<Code> {
    let i0 = n0;
    let row = (n0 + 1) as u32;
    let acc = (n0 + 2) as u32;
    let base = (n0 + 3) as u32;
    let k = (n0 + 4) as u32;
    let ss = (n0 + 5) as u32;
    let i = (n0 + 6) as u32;
    let inv = (n0 + 7) as u32;
    let j = (n0 + 8) as u32;
    let summed = plus(
        times(times(tg_load(1, uv(j)), v(inv)), ld(2, uv(j), DType::F16)),
        ld(3, uv(j), DType::F16),
    );
    let val = match scale {
        Some(sc) => times(cs(sc), summed),
        None => summed,
    };
    copy_x_code(cols, 1, 256, DType::F16, i0)
        .s(tg_decl(1, rows))
        .s(let_u(row, lid()))
        .range(row, cu(rows as u32), cu(256), code()
            .s(let_f(acc, c(ZERO)))
            .s(let_u(base, times(uv(row), cu(cols as u32))))
            .s(let_u(k, cu(0)))
            .range(k, cu(cols as u32), cu(256), code()
                .s(accumulate(acc, vec_dot(0, plus(uv(base), uv(k)), 1, uv(k), 256, DType::Q4K, Some(0)))))
            .s(tg_store(1, uv(row), v(acc))))
        .s(barrier())
        .s(let_f(ss, c(ZERO)))
        .s(let_u(i, lid()))
        .range(i, cu(rows as u32), cu(256), code()
            .s(accumulate(ss, times(tg_load(1, uv(i)), tg_load(1, uv(i))))))
        .s(reduce(ss, 256))
        .s(let_f(inv, un(UnaryOp::Rsqrt, plus(over(v(ss), cn(rows)), cs(eps)))))
        .s(let_u(j, lid()))
        .range(j, cu(rows as u32), cu(256), code().s(store(4, uv(j), val)))
}

fn lower_proj_rms(
    rows: usize,
    cols: usize,
    eps: Scalar,
    scale: Option<Scalar>,
    next: &mut u32,
) -> (r: Block)
    requires
        *old(next) + 9 <= u32::MAX,
    ensures
        r@ == proj_rms_code(rows, cols, eps, scale, *old(next)),
        *final(next) == *old(next) + 9,
{
    proof {
        reveal(proj_rms_code);
    }
    let i0: u32 = fresh(next);
    let row: u32 = fresh(next);
    let acc: u32 = fresh(next);
    let base: u32 = fresh(next);
    let k: u32 = fresh(next);
    let ss: u32 = fresh(next);
    let i: u32 = fresh(next);
    let inv: u32 = fresh(next);
    let j: u32 = fresh(next);
    let summed = plus(
        times(times(tg_load(1, uv(j)), v(inv)), ld(2, uv(j), DType::F16)),
        ld(3, uv(j), DType::F16),
    );
    let val = match scale {
        Some(sc) => times(cs(sc), summed),
        None => summed,
    };
    lower_copy_x(cols, 1, 256, DType::F16, i0)
        .s(tg_decl(1, rows))
        .s(let_u(row, lid()))
        .range(row, cu(rows as u32), cu(256), Block::new()
            .s(let_f(acc, c(ZERO)))
            .s(let_u(base, times(uv(row), cu(cols as u32))))
            .s(let_u(k, cu(0)))
            .range(k, cu(cols as u32), cu(256), Block::new()
                .s(accumulate(acc, vec_dot(0, plus(uv(base), uv(k)), 1, uv(k), 256, DType::Q4K, Some(0)))))
            .s(tg_store(1, uv(row), v(acc))))
        .s(barrier())
        .s(let_f(ss, c(ZERO)))
        .s(let_u(i, lid()))
        .range(i, cu(rows as u32), cu(256), Block::new()
            .s(accumulate(ss, times(tg_load(1, uv(i)), tg_load(1, uv(i))))))
        .s(reduce(ss, 256))
        .s(let_f(inv, un(UnaryOp::Rsqrt, plus(over(v(ss), cn(rows)), cs(eps)))))
        .s(let_u(j, lid()))
        .range(j, cu(rows as u32), cu(256), Block::new().s(store(4, uv(j), val)))
}

/// `u = gelu(Wg . x) * ctx`, `y = Wp . u`, then `scale * (residual + rms(y) * w)`, in one threadgroup of
/// 256 threads. Buffers: 0 = Wg, 1 = x, 2 = ctx, 3 = Wp, 4 = w, 5 = residual, 6 = output.
#[verifier::opaque]
pub open spec fn ple_code(
    gate_rows: usize,
    cols: usize,
    proj_rows: usize,
    ctx_off: usize,
    eps: Scalar,
    scale: Scalar,
    n0: u32,
) -> Seq<Code> {
    let i0 = n0;
    let row = (n0 + 1) as u32;
    let acc = (n0 + 2) as u32;
    let base = (n0 + 3) as u32;
    let k = (n0 + 4) as u32;
    let ax = (n0 + 5) as u32;
    let u = (n0 + 6) as u32;
    let gelu = (n0 + 7) as u32;
    let out_u = (n0 + 8) as u32;
    let row2 = (n0 + 9) as u32;
    let acc2 = (n0 + 10) as u32;
    let base2 = (n0 + 11) as u32;
    let k2 = (n0 + 12) as u32;
    let ss = (n0 + 13) as u32;
    let i = (n0 + 14) as u32;
    let inv = (n0 + 15) as u32;
    let j = (n0 + 16) as u32;
    let val = times(cs(scale), plus(
        ld(5, uv(j), DType::F16),
        times(times(tg_load(2, uv(j)), v(inv)), ld(4, uv(j), DType::F16)),
    ));
    copy_x_code(cols, 1, 256, DType::F16, i0)
        .s(tg_decl(1, gate_rows))
        .s(tg_decl(2, proj_rows))
        .s(let_u(row, lid()))
        .range(row, cu(gate_rows as u32), cu(256), gelu_code(code()
            .s(let_f(acc, c(ZERO)))
            .s(let_u(base, times(uv(row), cu(cols as u32))))
            .s(let_u(k, cu(0)))
            .range(k, cu(cols as u32), cu(256), code()
                .s(accumulate(acc, vec_dot(0, plus(uv(base), uv(k)), 1, uv(k), 256, DType::Q4K, Some(0))))), v(acc), ax, u, gelu)
            .s(let_f(out_u, times(v(gelu), ld(2, plus(cu(ctx_off as u32), uv(row)), DType::F16))))
            .s(tg_store(1, uv(row), v(out_u))))
        .s(barrier())
        .s(let_u(row2, lid()))
        .range(row2, cu(proj_rows as u32), cu(256), code()
            .s(let_f(acc2, c(ZERO)))
            .s(let_u(base2, times(uv(row2), cu(gate_rows as u32))))
            .s(let_u(k2, cu(0)))
            .range(k2, cu(gate_rows as u32), cu(256), code()
                .s(accumulate(acc2, vec_dot(3, plus(uv(base2), uv(k2)), 1, uv(k2), 256, DType::Q4K, Some(1)))))
            .s(tg_store(2, uv(row2), v(acc2))))
        .s(barrier())
        .s(let_f(ss, c(ZERO)))
        .s(let_u(i, lid()))
        .range(i, cu(proj_rows as u32), cu(256), code()
            .s(accumulate(ss, times(tg_load(2, uv(i)), tg_load(2, uv(i))))))
        .s(reduce(ss, 256))
        .s(let_f(inv, un(UnaryOp::Rsqrt, plus(over(v(ss), cn(proj_rows)), cs(eps)))))
        .s(let_u(j, lid()))
        .range(j, cu(proj_rows as u32), cu(256), code().s(store(6, uv(j), val)))
}

fn lower_ple(
    gate_rows: usize,
    cols: usize,
    proj_rows: usize,
    ctx_off: usize,
    eps: Scalar,
    scale: Scalar,
    next: &mut u32,
) -> (r: Block)
    requires
        *old(next) + 17 <= u32::MAX,
    ensures
        r@ == ple_code(gate_rows, cols, proj_rows, ctx_off, eps, scale, *old(next)),
        *final(next) == *old(next) + 17,
{
    proof {
        reveal(ple_code);
    }
    let i0: u32 = fresh(next);
    let row: u32 = fresh(next);
    let acc: u32 = fresh(next);
    let base: u32 = fresh(next);
    let k: u32 = fresh(next);
    let ax: u32 = fresh(next);
    let u: u32 = fresh(next);
    let gelu: u32 = fresh(next);
    let out_u: u32 = fresh(next);
    let row2: u32 = fresh(next);
    let acc2: u32 = fresh(next);
    let base2: u32 = fresh(next);
    let k2: u32 = fresh(next);
    let ss: u32 = fresh(next);
    let i: u32 = fresh(next);
    let inv: u32 = fresh(next);
    let j: u32 = fresh(next);
    let val = times(cs(scale), plus(
        ld(5, uv(j), DType::F16),
        times(times(tg_load(2, uv(j)), v(inv)), ld(4, uv(j), DType::F16)),
    ));
    lower_copy_x(cols, 1, 256, DType::F16, i0)
        .s(tg_decl(1, gate_rows))
        .s(tg_decl(2, proj_rows))
        .s(let_u(row, lid()))
        .range(row, cu(gate_rows as u32), cu(256), emit_gelu_of(Block::new()
            .s(let_f(acc, c(ZERO)))
            .s(let_u(base, times(uv(row), cu(cols as u32))))
            .s(let_u(k, cu(0)))
            .range(k, cu(cols as u32), cu(256), Block::new()
                .s(accumulate(acc, vec_dot(0, plus(uv(base), uv(k)), 1, uv(k), 256, DType::Q4K, Some(0))))), v(acc), ax, u, gelu)
            .s(let_f(out_u, times(v(gelu), ld(2, plus(cu(ctx_off as u32), uv(row)), DType::F16))))
            .s(tg_store(1, uv(row), v(out_u))))
        .s(barrier())
        .s(let_u(row2, lid()))
        .range(row2, cu(proj_rows as u32), cu(256), Block::new()
            .s(let_f(acc2, c(ZERO)))
            .s(let_u(base2, times(uv(row2), cu(gate_rows as u32))))
            .s(let_u(k2, cu(0)))
            .range(k2, cu(gate_rows as u32), cu(256), Block::new()
                .s(accumulate(acc2, vec_dot(3, plus(uv(base2), uv(k2)), 1, uv(k2), 256, DType::Q4K, Some(1)))))
            .s(tg_store(2, uv(row2), v(acc2))))
        .s(barrier())
        .s(let_f(ss, c(ZERO)))
        .s(let_u(i, lid()))
        .range(i, cu(proj_rows as u32), cu(256), Block::new()
            .s(accumulate(ss, times(tg_load(2, uv(i)), tg_load(2, uv(i))))))
        .s(reduce(ss, 256))
        .s(let_f(inv, un(UnaryOp::Rsqrt, plus(over(v(ss), cn(proj_rows)), cs(eps)))))
        .s(let_u(j, lid()))
        .range(j, cu(proj_rows as u32), cu(256), Block::new().s(store(6, uv(j), val)))
}

/// What the kernel that projects and normalises needs: Q4_K weights in whole blocks, and
/// activations and rows that fit into a threadgroup together.
#[verifier::opaque]
pub open spec fn proj_rms_error(rows: usize, cols: usize, wd: DType) -> Option<ErrorV> {
    if rows + cols > 8192 {
        Some(
            ErrorV::Msg(
                "matvec+rmsnorm fuse: LOCAL y+x too large ("@ + dec(rows as nat) + "x"@
                    + dec(cols as nat) + ")"@,
            ),
        )
    } else if wd != DType::Q4K || cols % 256 != 0 {
        Some(
            ErrorV::Msg(
                "matvec+rmsnorm fuse: need Q4K cols%256==0 (got "@ + wd.label() + " cols="@
                    + dec(cols as nat) + ")"@,
            ),
        )
    } else {
        None
    }
}

pub fn lower_matvec_rmsnorm_fused(
    rows: usize,
    cols: usize,
    wd: DType,
    eps: Scalar,
    scale: Option<Scalar>,
    next: &mut u32,
) -> (r: Result<(KirLaunch, Block), CodegenError>)
    requires
        *old(next) + 9 <= u32::MAX,
    ensures
        match r {
            Ok((launch, b)) => {
                &&& proj_rms_error(rows, cols, wd) is None
                &&& launch == (KirLaunch::RowsParallel { rows: 1, tg: 256 })
                &&& b@ == proj_rms_code(rows, cols, eps, scale, *old(next))
                &&& *final(next) == *old(next) + 9
            },
            Err(e) => proj_rms_error(rows, cols, wd) == Some(e@),
        },
{
    proof {
        reveal(proj_rms_error);
    }
    if rows > 8192 || cols > 8192 || rows + cols > 8192 {
        let m = String::from_str("matvec+rmsnorm fuse: LOCAL y+x too large (").concat(
            dec_usize(rows).as_str(),
        ).concat("x").concat(dec_usize(cols).as_str()).concat(")");
        return Err(CodegenError::Msg(m));
    }
    if wd != DType::Q4K || cols % 256 != 0 {
        let m = String::from_str("matvec+rmsnorm fuse: need Q4K cols%256==0 (got ").concat(
            wd.label_text(),
        ).concat(" cols=").concat(dec_usize(cols).as_str()).concat(")");
        return Err(CodegenError::Msg(m));
    }
    let b = lower_proj_rms(rows, cols, eps, scale, next);
    Ok((KirLaunch::RowsParallel { rows: 1, tg: 256 }, b))
}

/// What the kernel that gates, projects and normalises needs.
#[verifier::opaque]
pub open spec fn ple_error(
    gate_rows: usize,
    cols: usize,
    proj_rows: usize,
    wd: DType,
) -> Option<ErrorV> {
    let floats = cols + gate_rows + proj_rows;
    if wd != DType::Q4K || cols % 256 != 0 || gate_rows % 256 != 0 {
        Some(
            ErrorV::Msg(
                "PLE full fuse: need Q4K, cols%256==0, gate_rows%256==0 (wd="@ + wd.label()
                    + " cols="@ + dec(cols as nat)
                    + " gate="@ + dec(gate_rows as nat) + ")"@,
            ),
        )
    } else if floats > 8192 {
        Some(
            ErrorV::Msg(
                "PLE full fuse: LOCAL too large ("@ + dec(
                    (if floats > usize::MAX {
                        usize::MAX as int
                    } else {
                        floats
                    }) as nat,
                ) + " floats)"@,
            ),
        )
    } else {
        None
    }
}

/// The sum, or the largest number if it does not fit.
fn sum_or_max(a: usize, b: usize) -> (r: usize)
    ensures
        r == (if a + b > usize::MAX {
            usize::MAX as int
        } else {
            a + b
        }),
{
    if a > usize::MAX - b {
        usize::MAX
    } else {
        a + b
    }
}

pub fn lower_ple_gelu_proj_rms_fused(
    gate_rows: usize,
    cols: usize,
    proj_rows: usize,
    ctx_off: usize,
    eps: Scalar,
    scale: Scalar,
    wd: DType,
    next: &mut u32,
) -> (r: Result<(KirLaunch, Block), CodegenError>)
    requires
        *old(next) + 17 <= u32::MAX,
    ensures
        match r {
            Ok((launch, b)) => {
                &&& ple_error(gate_rows, cols, proj_rows, wd) is None
                &&& launch == (KirLaunch::RowsParallel { rows: 1, tg: 256 })
                &&& b@ == ple_code(gate_rows, cols, proj_rows, ctx_off, eps, scale, *old(next))
                &&& *final(next) == *old(next) + 17
            },
            Err(e) => ple_error(gate_rows, cols, proj_rows, wd) == Some(e@),
        },
{
    proof {
        reveal(ple_error);
    }
    if wd != DType::Q4K || cols % 256 != 0 || gate_rows % 256 != 0 {
        let m = String::from_str(
            "PLE full fuse: need Q4K, cols%256==0, gate_rows%256==0 (wd=",
        ).concat(wd.label_text()).concat(" cols=").concat(dec_usize(cols).as_str()).concat(
            " gate=",
        ).concat(dec_usize(gate_rows).as_str()).concat(")");
        return Err(CodegenError::Msg(m));
    }
    let floats: usize = sum_or_max(sum_or_max(cols, gate_rows), proj_rows);
    if floats > 8192 {
        let m = String::from_str("PLE full fuse: LOCAL too large (").concat(
            dec_usize(floats).as_str(),
        ).concat(" floats)");
        return Err(CodegenError::Msg(m));
    }
    let b = lower_ple(gate_rows, cols, proj_rows, ctx_off, eps, scale, next);
    Ok((KirLaunch::RowsParallel { rows: 1, tg: 256 }, b))
}

} // verus!
