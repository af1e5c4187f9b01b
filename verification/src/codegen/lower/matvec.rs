//! Bodies of the matrix-vector kernels: the cooperative tilings for packed
//! weights, the generic tiling, and the fused variants.

use vstd::prelude::*;
use vstd::string::*;

use crate::codegen::error::{msg, msg_v, CodegenError, ErrorV};
use crate::codegen::lower::block::{
    accumulate, assign, barrier, c, code, cu, equal, fresh, gid, gt, ld, let_f, let_u, lid, minus,
    over, plus, q4k_frag, q6k_frag, reduce, row_at, simd_sum, store, tg_decl, tg_load, tg_store,
    times, uv, v, vec_dot, Block, Extend,
};
use crate::codegen::lower::elem::{emit_gelu_of, gelu_code};
use crate::codegen::lower::norm::{lower_stage_xhat_local, xhat_code};
use crate::ir::dtype::{DType, Scalar, ZERO};
use crate::ir::kernel::{Code, KirExpr, KirLaunch, KirStmt, OptSchedule};
use crate::text::dec;

verus! {

/// Bytes of a threadgroup that may hold staged floats.
pub const TG_X_BYTES_MAX: usize = 32768;

/// The floats that fit into a threadgroup.
pub const TG_X_FLOATS_MAX: usize = 8192;

/// Whether weights come in blocks of 256 with a cooperative tiling.
#[verifier::allow_in_spec]
pub fn packed_k_quant(d: DType) -> bool
    returns
        d == DType::Q4K || d == DType::Q6K,
{
    matches!(d, DType::Q4K | DType::Q6K)
}

/// Whether a matrix-vector kernel takes weights of this type.
#[verifier::allow_in_spec]
pub fn allow_matvec_weight(d: DType) -> bool
    returns
        d.is_float() || packed_k_quant(d),
{
    d.is_float() || packed_k_quant(d)
}

/// The type of activations: that of float weights, and half precision beside packed ones.
#[verifier::allow_in_spec]
pub fn x_dtype(weight_dtype: DType) -> DType
    returns
        (if weight_dtype.is_float() {
            weight_dtype
        } else {
            DType::F16
        }),
{
    if weight_dtype.is_float() {
        weight_dtype
    } else {
        DType::F16
    }
}

/// The tiling that packed weights in whole blocks impose: two simdgroups of four rows each.
#[verifier::allow_in_spec]
pub fn apply_matvec_sched(weight_dtype: DType, cols: usize, sched: OptSchedule) -> OptSchedule
    returns
        (if packed_k_quant(weight_dtype) && cols % 256 == 0 {
            OptSchedule { tg: 64, vec: sched.vec, unroll: sched.unroll, nsg: 2, nr0: 8 }
        } else {
            sched
        }),
{
    if packed_k_quant(weight_dtype) && cols % 256 == 0 {
        OptSchedule { tg: 64, vec: sched.vec, unroll: sched.unroll, nsg: 2, nr0: 8 }
    } else {
        sched
    }
}

/// The larger of a number and one.
#[verifier::allow_in_spec]
pub fn at_least_one(n: u32) -> u32
    returns
        (if n == 0 {
            1u32
        } else {
            n
        }),
{
    if n == 0 {
        1
    } else {
        n
    }
}

/// How many threadgroups of `nr` rows cover `rows`.
pub open spec fn groups_of(rows: usize, nr: u32) -> usize {
    let padded = if rows + nr - 1 > usize::MAX {
        usize::MAX as int
    } else {
        rows + nr - 1
    };
    (padded / nr as int) as usize
}

/// The launch of a matrix-vector kernel: one group for every `nr0` rows.
#[verifier::opaque]
pub open spec fn matvec_launch_of(
    weight_dtype: DType,
    rows: usize,
    sched: OptSchedule,
) -> KirLaunch {
    let n_tg = groups_of(rows, at_least_one(sched.nr0));
    if packed_k_quant(weight_dtype) && sched.nsg >= 1 {
        KirLaunch::RowsParallelSg { rows: n_tg, nsg: sched.nsg as u64 }
    } else {
        KirLaunch::RowsParallel { rows: n_tg, tg: sched.tg }
    }
}

pub fn matvec_launch(weight_dtype: DType, rows: usize, sched: OptSchedule) -> (r: KirLaunch)
    ensures
        r == matvec_launch_of(weight_dtype, rows, sched),
{
    proof {
        reveal(matvec_launch_of);
    }
    let nr: usize = at_least_one(sched.nr0) as usize;
    let padded: usize = if rows > usize::MAX - (nr - 1) {
        usize::MAX
    } else {
        rows + (nr - 1)
    };
    let n_tg: usize = padded / nr;
    if packed_k_quant(weight_dtype) && sched.nsg >= 1 {
        KirLaunch::RowsParallelSg { rows: n_tg, nsg: sched.nsg as u64 }
    } else {
        KirLaunch::RowsParallel { rows: n_tg, tg: sched.tg }
    }
}

/// The vector width of loads: scalar for Q6_K, whole sub-blocks for Q4_K, else as scheduled.
#[verifier::allow_in_spec]
pub fn effective_vec(weight_dtype: DType, sched_vec: u32) -> u32
    returns
        (match weight_dtype {
            DType::Q6K => 1u32,
            DType::Q4K => 32u32,
            _ => sched_vec,
        }),
{
    match weight_dtype {
        DType::Q6K => 1,
        DType::Q4K => q4k_vec_width(),
        _ => sched_vec,
    }
}

/// The width of a Q4_K sub-block.
#[verifier::allow_in_spec]
pub fn q4k_vec_width() -> u32
    returns
        32u32,
{
    32
}

/// Threads per group: 64 for packed weights in whole blocks, else as scheduled.
#[verifier::allow_in_spec]
pub fn effective_tg(weight_dtype: DType, cols: usize, sched_tg: u64) -> u64
    returns
        (if packed_k_quant(weight_dtype) && cols % 256 == 0 {
            64u64
        } else {
            sched_tg
        }),
{
    if packed_k_quant(weight_dtype) && cols % 256 == 0 {
        64
    } else {
        sched_tg
    }
}

/// Whether a tiling is one that the kernels can be written for.
pub open spec fn sched_ok(s: OptSchedule) -> bool {
    &&& s.vec == 1 || s.vec == 2 || s.vec == 4
    &&& s.unroll == 1 || s.unroll == 2 || s.unroll == 4 || s.unroll == 8
    &&& 1 <= s.tg <= 1024
}

/// What is wrong with a tiling, the vector width first.
#[verifier::opaque]
pub open spec fn sched_error(s: OptSchedule) -> Option<ErrorV> {
    if !(s.vec == 1 || s.vec == 2 || s.vec == 4) {
        Some(ErrorV::Msg("unsupported VEC="@ + dec(s.vec as nat)))
    } else if !(s.unroll == 1 || s.unroll == 2 || s.unroll == 4 || s.unroll == 8) {
        Some(ErrorV::Msg("unsupported UNROLL="@ + dec(s.unroll as nat)))
    } else if !(1 <= s.tg <= 1024) {
        Some(ErrorV::Msg("unsupported TG="@ + dec(s.tg as nat)))
    } else {
        None
    }
}

pub fn validate_sched(s: OptSchedule) -> (r: Result<(), CodegenError>)
    ensures
        match r {
            Ok(_) => sched_ok(s) && sched_error(s) is None,
            Err(e) => !sched_ok(s) && sched_error(s) == Some(e@),
        },
{
    proof {
        reveal(sched_error);
    }
    if !(s.vec == 1 || s.vec == 2 || s.vec == 4) {
        let m = String::from_str("unsupported VEC=").concat(
            crate::text::dec_text(s.vec as u64).as_str(),
        );
        return Err(CodegenError::Msg(m));
    }
    if !(s.unroll == 1 || s.unroll == 2 || s.unroll == 4 || s.unroll == 8) {
        let m = String::from_str("unsupported UNROLL=").concat(
            crate::text::dec_text(s.unroll as u64).as_str(),
        );
        return Err(CodegenError::Msg(m));
    }
    if s.tg == 0 || s.tg > 1024 {
        let m = String::from_str("unsupported TG=").concat(crate::text::dec_text(s.tg).as_str());
        return Err(CodegenError::Msg(m));
    }
    Ok(())
}

/// What a matrix-vector kernel does with a finished row.
#[derive(Clone, Copy, Debug, PartialEq, Eq, Structural)]
pub enum MatvecEpi {
    Plain,
    /// `out = gelu(acc) * ctx[ctx_off + row]`.
    GeluMulCtx { ctx_buf: u32, ctx_off: u32, dt: DType },
}

/// How many identifiers the finish of one row takes.
pub open spec fn epi_ids(epi: MatvecEpi) -> nat {
    match epi {
        MatvecEpi::Plain => 0,
        MatvecEpi::GeluMulCtx { .. } => 4,
    }
}

/// Stores a finished row.
pub open spec fn store_row_code(
    out_buf: u32,
    first: u32,
    r: u32,
    acc: u32,
    epi: MatvecEpi,
    n: u32,
) -> Seq<Code> {
    match epi {
        MatvecEpi::Plain => code().s(store(out_buf, row_at(first, r), v(acc))),
        MatvecEpi::GeluMulCtx { ctx_buf, ctx_off, dt } => {
            let gelu = (n + 2) as u32;
            let out = (n + 3) as u32;
            gelu_code(code(), v(acc), n, (n + 1) as u32, gelu)
                .s(let_f(out, times(v(gelu), ld(ctx_buf, plus(cu(ctx_off), row_at(first, r)), dt))))
                .s(store(out_buf, row_at(first, r), v(out)))
        },
    }
}

fn store_row_with_epi(
    out_buf: u32,
    first: u32,
    r: u32,
    acc: u32,
    epi: MatvecEpi,
    next: &mut u32,
) -> (b: Block)
    requires
        *old(next) + 4 <= u32::MAX,
    ensures
        b@ == store_row_code(out_buf, first, r, acc, epi, *old(next)),
        *final(next) == *old(next) + epi_ids(epi),
{
    match epi {
        MatvecEpi::Plain => Block::new().s(store(out_buf, row_at(first, r), v(acc))),
        MatvecEpi::GeluMulCtx { ctx_buf, ctx_off, dt } => {
            let ax: u32 = fresh(next);
            let u: u32 = fresh(next);
            let gelu: u32 = fresh(next);
            let out: u32 = fresh(next);
            emit_gelu_of(Block::new(), v(acc), ax, u, gelu)
                .s(let_f(out, times(v(gelu), ld(ctx_buf, plus(cu(ctx_off), row_at(first, r)), dt))))
                .s(store(out_buf, row_at(first, r), v(out)))
        },
    }
}

/// Copies `x` into threadgroup array 0.
pub open spec fn copy_x_code(cols: usize, x_buf: u32, tg: u64, dt: DType, i: u32) -> Seq<Code> {
    code()
        .s(tg_decl(0, cols))
        .s(let_u(i, lid()))
        .range(
            i,
            cu(cols as u32),
            cu(tg as u32),
            code().s(tg_store(0, uv(i), ld(x_buf, uv(i), dt))),
        )
        .s(barrier())
}

pub fn lower_copy_x(cols: usize, x_buf: u32, tg: u64, dt: DType, i: u32) -> (b: Block)
    ensures
        b@ == copy_x_code(cols, x_buf, tg, dt, i),
{
    Block::new()
        .s(tg_decl(0, cols))
        .s(let_u(i, lid()))
        .range(
            i,
            cu(cols as u32),
            cu(tg as u32),
            Block::new().s(tg_store(0, uv(i), ld(x_buf, uv(i), dt))),
        )
        .s(barrier())
}

/// A prologue: its statements, the threadgroup array that then holds the activations, and the
/// next unused identifier.
pub ghost struct Staged {
    pub code: Seq<Code>,
    pub tg_x: Option<u32>,
    pub next: u32,
}

/// Stages `x` where it fits, normalised where `rms` gives the buffer of its weights. Normalised
/// activations must fit.
pub open spec fn stage_x(
    cols: usize,
    x_buf: u32,
    tg: u64,
    dt: DType,
    rms: Option<(u32,
    Scalar)>,
    n0: u32,
) -> Result<Staged, ErrorV> {
    match rms {
        Some((w_norm, eps)) => if cols > TG_X_FLOATS_MAX {
            Err(msg_v("rmsnorm+matvec fuse requires LOCAL staging of x_hat"))
        } else {
            Ok(
                Staged {
                    code: xhat_code(cols, eps, x_buf, w_norm, tg, dt, n0),
                    tg_x: Some(0),
                    next: (n0 + 4) as u32,
                },
            )
        },
        None => if cols > TG_X_FLOATS_MAX {
            Ok(Staged { code: code(), tg_x: None, next: n0 })
        } else {
            Ok(
                Staged {
                    code: copy_x_code(cols, x_buf, tg, dt, n0),
                    tg_x: Some(0),
                    next: (n0 + 1) as u32,
                },
            )
        },
    }
}

pub fn stage_local_x(
    cols: usize,
    x_buf: u32,
    tg: u64,
    dt: DType,
    rms: Option<(u32,
    Scalar)>,
    next: &mut u32,
) -> (r: Result<(Block, Option<u32>), CodegenError>)
    requires
        *old(next) + 4 <= u32::MAX,
    ensures
        match r {
            Ok((b, t)) => stage_x(cols, x_buf, tg, dt, rms, *old(next)) == Ok::<Staged, ErrorV>(
                Staged { code: b@, tg_x: t, next: *final(next) },
            ),
            Err(e) => stage_x(cols, x_buf, tg, dt, rms, *old(next)) == Err::<Staged, ErrorV>(e@)
                && *final(next) == *old(next),
        },
        *final(next) <= *old(next) + 4,
{
    let local_ok: bool = cols <= TG_X_FLOATS_MAX;
    match rms {
        Some((w_norm, eps)) => {
            if !local_ok {
                return Err(msg("rmsnorm+matvec fuse requires LOCAL staging of x_hat"));
            }
            Ok((lower_stage_xhat_local(cols, eps, x_buf, w_norm, tg, dt, next), Some(0)))
        },
        None => {
            if local_ok {
                let i: u32 = fresh(next);
                Ok((lower_copy_x(cols, x_buf, tg, dt, i), Some(0)))
            } else {
                Ok((Block::new(), None))
            }
        },
    }
}

/// The prologue of a cooperative kernel: activations stream from the device unless they are
/// to be normalised.
pub open spec fn stage_coop(
    cols: usize,
    x_buf: u32,
    tg: u64,
    rms: Option<(u32,
    Scalar)>,
    n0: u32,
) -> Result<Staged, ErrorV> {
    if rms is Some {
        stage_x(cols, x_buf, tg, DType::F16, rms, n0)
    } else {
        Ok(Staged { code: code(), tg_x: None, next: n0 })
    }
}

pub fn stage_coop_x(
    cols: usize,
    x_buf: u32,
    tg: u64,
    rms: Option<(u32,
    Scalar)>,
    next: &mut u32,
) -> (r: Result<(Block, Option<u32>), CodegenError>)
    requires
        *old(next) + 4 <= u32::MAX,
    ensures
        match r {
            Ok((b, t)) => stage_coop(cols, x_buf, tg, rms, *old(next)) == Ok::<Staged, ErrorV>(
                Staged { code: b@, tg_x: t, next: *final(next) },
            ),
            Err(e) => stage_coop(cols, x_buf, tg, rms, *old(next)) == Err::<Staged, ErrorV>(e@)
                && *final(next) == *old(next),
        },
        *final(next) <= *old(next) + 4,
{
    if rms.is_some() {
        stage_local_x(cols, x_buf, tg, DType::F16, rms, next)
    } else {
        Ok((Block::new(), None))
    }
}

/// What the statements for the rows of a threadgroup share.
#[derive(Clone, Copy, Debug, PartialEq, Eq, Structural)]
pub struct Rows {
    pub rows: u32,
    pub cols: u32,
    /// The variable that holds the first row.
    pub first: u32,
    /// The first identifier of the rows: row `r` has `per` of them from `ids + per * r`, of
    /// which the last holds the index of the row's first element.
    pub ids: u32,
    pub per: u32,
    pub x_buf: u32,
    pub tg_x: Option<u32>,
    pub width: u32,
    pub dtype: DType,
}

impl Rows {
    /// Whether the identifiers of `nr` rows exist.
    pub open spec fn fits(self, nr: int) -> bool {
        (self.per == 2 || self.per == 3) && self.ids + self.per * nr <= u32::MAX
    }

    pub open spec fn acc(self, r: int) -> u32 {
        (self.ids + self.per * r) as u32
    }

    pub open spec fn base(self, r: int) -> u32 {
        (self.ids + self.per * r + self.per - 1) as u32
    }

    pub fn acc_id(self, r: u32) -> (id: u32)
        requires
            self.fits(r + 1),
        ensures
            id == self.acc(r as int),
            id + self.per <= u32::MAX,
    {
        if self.per == 2 {
            self.ids + 2 * r
        } else {
            self.ids + 3 * r
        }
    }

    pub fn base_id(self, r: u32) -> (id: u32)
        requires
            self.fits(r + 1),
        ensures
            id == self.base(r as int),
    {
        if self.per == 2 {
            self.ids + 2 * r + 1
        } else {
            self.ids + 3 * r + 2
        }
    }
}

/// Declares the accumulators and element offsets of the first `r` rows.
pub open spec fn decls_code(b: Seq<Code>, m: Rows, r: nat) -> Seq<Code>
    decreases r,
{
    if r == 0 {
        b
    } else {
        let k = (r - 1) as u32;
        let accs = decls_code(b, m, (r - 1) as nat).s(let_f(m.acc(r - 1), c(ZERO)));
        let all = if m.per == 2 {
            accs
        } else {
            accs.s(let_f((m.acc(r - 1) + 1) as u32, c(ZERO)))
        };
        all.s(let_u(m.base(r - 1), times(row_at(m.first, k), cu(m.cols))))
    }
}

pub fn lower_decls(b: Block, m: Rows, nr: u32) -> (res: Block)
    requires
        m.fits(nr as int),
    ensures
        res@ == decls_code(b@, m, nr as nat),
{
    let mut res: Block = b;
    let mut r: u32 = 0;
    while r < nr
        invariant
            r <= nr,
            m.fits(nr as int),
            res@ == decls_code(b@, m, r as nat),
        decreases nr - r,
    {
        proof {
            lemma_fits(m, r as int, nr as int);
        }
        res = res.s(let_f(m.acc_id(r), c(ZERO)));
        if m.per != 2 {
            res = res.s(let_f(m.acc_id(r) + 1, c(ZERO)));
        }
        res = res.s(let_u(m.base_id(r), times(row_at(m.first, r), cu(m.cols))));
        r += 1;
    }
    res
}

pub proof fn lemma_fits(m: Rows, r: int, nr: int)
    requires
        m.fits(nr),
        0 <= r < nr,
    ensures
        m.fits(r + 1),
{
    if m.per == 2 {
        assert(2 * (r + 1) <= 2 * nr);
    } else {
        assert(3 * (r + 1) <= 3 * nr);
    }
}

/// The index `k`, moved by `d` where there is one.
#[verifier::allow_in_spec]
pub fn moved(k: u32, d: Option<u32>) -> KirExpr
    returns
        (match d {
            None => uv(k),
            Some(d) => plus(uv(k), cu(d)),
        }),
{
    match d {
        None => uv(k),
        Some(d) => plus(uv(k), cu(d)),
    }
}

/// Element `k` of the activations, staged or not.
#[verifier::allow_in_spec]
pub fn x_at(tg_x: Option<u32>, x_buf: u32, k: u32, dt: DType) -> KirExpr
    returns
        (match tg_x {
            Some(t) => tg_load(t, uv(k)),
            None => ld(x_buf, uv(k), dt),
        }),
{
    match tg_x {
        Some(t) => tg_load(t, uv(k)),
        None => ld(x_buf, uv(k), dt),
    }
}

/// `acc` of row `r` and weight buffer `w` gains a dot product of `width` elements at `k + d`.
#[verifier::allow_in_spec]
pub fn dot_step(m: Rows, acc: u32, base: u32, w: u32, k: u32, d: Option<u32>) -> KirStmt
    returns
        accumulate(
            acc,
            vec_dot(w, plus(uv(base), moved(k, d)), m.x_buf, moved(k, d), m.width, m.dtype, m.tg_x),
        ),
{
    accumulate(
        acc,
        vec_dot(w, plus(uv(base), moved(k, d)), m.x_buf, moved(k, d), m.width, m.dtype, m.tg_x),
    )
}

/// `acc` of row `r` and weight buffer `w` gains the product of the elements at `k`.
#[verifier::allow_in_spec]
pub fn scalar_step(m: Rows, acc: u32, base: u32, w: u32, k: u32) -> KirStmt
    returns
        accumulate(
            acc,
            times(
                ld(w, plus(uv(base), uv(k)), m.dtype),
                x_at(m.tg_x, m.x_buf, k, x_dtype(m.dtype)),
            ),
        ),
{
    accumulate(
        acc,
        times(ld(w, plus(uv(base), uv(k)), m.dtype), x_at(m.tg_x, m.x_buf, k, x_dtype(m.dtype))),
    )
}

/// One chunk at `k + d` for the first `r` rows, for each of their accumulators.
pub open spec fn chunk_code(b: Seq<Code>, m: Rows, k: u32, d: Option<u32>, r: nat) -> Seq<Code>
    decreases r,
{
    if r == 0 {
        b
    } else {
        let acc = m.acc(r - 1);
        let base = m.base(r - 1);
        let one = code().s(dot_step(m, acc, base, 0, k, d));
        let both = if m.per == 2 {
            one
        } else {
            one.s(dot_step(m, (acc + 1) as u32, base, 1, k, d))
        };
        chunk_code(b, m, k, d, (r - 1) as nat).when(
            gt(cu(m.rows), row_at(m.first, (r - 1) as u32)),
            both,
        )
    }
}

fn lower_chunk(b: Block, m: Rows, k: u32, d: Option<u32>, nr: u32) -> (res: Block)
    requires
        m.fits(nr as int),
    ensures
        res@ == chunk_code(b@, m, k, d, nr as nat),
{
    let mut res: Block = b;
    let mut r: u32 = 0;
    while r < nr
        invariant
            r <= nr,
            m.fits(nr as int),
            res@ == chunk_code(b@, m, k, d, r as nat),
        decreases nr - r,
    {
        proof {
            lemma_fits(m, r as int, nr as int);
        }
        let acc: u32 = m.acc_id(r);
        let base: u32 = m.base_id(r);
        let one = Block::new().s(dot_step(m, acc, base, 0, k, d));
        let both = if m.per == 2 {
            one
        } else {
            one.s(dot_step(m, acc + 1, base, 1, k, d))
        };
        res = res.when(gt(cu(m.rows), row_at(m.first, r)), both);
        r += 1;
    }
    res
}

/// How far chunk `u` of an unrolled loop stands from the first.
pub open spec fn unroll_off(u: int, stride: u64) -> Option<u32> {
    if u == 0 {
        None
    } else {
        Some((u * stride) as u32)
    }
}

/// The first `u` chunks of an unrolled loop.
pub open spec fn unrolled_code(m: Rows, k: u32, stride: u64, nr: nat, u: nat) -> Seq<Code>
    decreases u,
{
    if u == 0 {
        code()
    } else {
        chunk_code(
            unrolled_code(m, k, stride, nr, (u - 1) as nat),
            m,
            k,
            unroll_off(u - 1, stride),
            nr,
        )
    }
}

fn lower_unrolled(m: Rows, k: u32, stride: u64, nr: u32, unroll: u32) -> (res: Block)
    requires
        m.fits(nr as int),
        unroll <= 8,
        stride <= 32768,
    ensures
        res@ == unrolled_code(m, k, stride, nr as nat, unroll as nat),
{
    let mut res: Block = Block::new();
    let mut u: u32 = 0;
    while u < unroll
        invariant
            u <= unroll <= 8,
            stride <= 32768,
            m.fits(nr as int),
            res@ == unrolled_code(m, k, stride, nr as nat, u as nat),
        decreases unroll - u,
    {
        assert(u * stride <= 8 * 32768) by (nonlinear_arith)
            requires
                u <= 8,
                stride <= 32768,
        ;
        let d: Option<u32> = if u == 0 {
            None
        } else {
            Some(((u as u64) * stride) as u32)
        };
        res = lower_chunk(res, m, k, d, nr);
        u += 1;
    }
    res
}

/// The scalar tail at `k` for the first `r` rows.
pub open spec fn tail_code(m: Rows, k: u32, r: nat) -> Seq<Code>
    decreases r,
{
    if r == 0 {
        code()
    } else {
        let acc = m.acc(r - 1);
        let base = m.base(r - 1);
        let one = code().s(scalar_step(m, acc, base, 0, k));
        let both = if m.per == 2 {
            one
        } else {
            one.s(scalar_step(m, (acc + 1) as u32, base, 1, k))
        };
        tail_code(m, k, (r - 1) as nat).when(gt(cu(m.rows), row_at(m.first, (r - 1) as u32)), both)
    }
}

fn lower_tail(m: Rows, k: u32, nr: u32) -> (res: Block)
    requires
        m.fits(nr as int),
    ensures
        res@ == tail_code(m, k, nr as nat),
{
    let mut res: Block = Block::new();
    let mut r: u32 = 0;
    while r < nr
        invariant
            r <= nr,
            m.fits(nr as int),
            res@ == tail_code(m, k, r as nat),
        decreases nr - r,
    {
        proof {
            lemma_fits(m, r as int, nr as int);
        }
        let acc: u32 = m.acc_id(r);
        let base: u32 = m.base_id(r);
        let one = Block::new().s(scalar_step(m, acc, base, 0, k));
        let both = if m.per == 2 {
            one
        } else {
            one.s(scalar_step(m, acc + 1, base, 1, k))
        };
        res = res.when(gt(cu(m.rows), row_at(m.first, r)), both);
        r += 1;
    }
    res
}

/// The tiling of the generic kernels: threads per group, vector width, the distance between
/// the chunks of neighbouring threads' turns, and the loop bounds that follow from them.
#[derive(Clone, Copy, Debug, PartialEq, Eq, Structural)]
pub struct Tiling {
    pub tg: u64,
    pub vec: u32,
    pub unroll: u32,
    pub nr: u32,
    pub stride: u64,
}

/// The tiling that a schedule asks for.
pub open spec fn tiling_of(tg: u64, vec: u32, sched: OptSchedule) -> Tiling {
    Tiling { tg, vec, unroll: sched.unroll, nr: at_least_one(sched.nr0), stride: (tg * vec) as u64 }
}

impl Tiling {
    pub open spec fn ok(self) -> bool {
        &&& 1 <= self.tg <= 1024
        &&& 1 <= self.vec <= 32
        &&& 1 <= self.unroll <= 8
        &&& self.nr >= 1
        &&& self.stride == self.tg * self.vec
        &&& self.stride <= 32768
    }

    /// The last element that an unrolled turn touches.
    pub open spec fn main_off(self) -> u32 {
        ((self.unroll - 1) * self.stride + self.vec - 1) as u32
    }

    pub fn main_offset(self) -> (r: u32)
        requires
            self.ok(),
        ensures
            r == self.main_off(),
    {
        assert((self.unroll - 1) * self.stride <= 7 * 32768) by (nonlinear_arith)
            requires
                1 <= self.unroll <= 8,
                self.stride <= 32768,
        ;
        assert((self.unroll - 1) * self.stride >= 0) by (nonlinear_arith)
            requires
                1 <= self.unroll <= 8,
                self.stride <= 32768,
        ;
        (((self.unroll - 1) as u64) * self.stride + (self.vec as u64) - 1) as u32
    }

    pub open spec fn step(self) -> u32 {
        (self.stride * self.unroll) as u32
    }

    pub fn step_len(self) -> (r: u32)
        requires
            self.ok(),
        ensures
            r == self.step(),
    {
        assert(self.stride * self.unroll <= 8 * 32768) by (nonlinear_arith)
            requires
                1 <= self.unroll <= 8,
                self.stride <= 32768,
        ;
        (self.stride * (self.unroll as u64)) as u32
    }
}

pub fn make_tiling(tg: u64, vec: u32, sched: OptSchedule) -> (t: Tiling)
    requires
        1 <= tg <= 1024,
        1 <= vec <= 32,
        1 <= sched.unroll <= 8,
    ensures
        t == tiling_of(tg, vec, sched),
        t.ok(),
{
    assert(tg * vec <= 1024 * 32) by (nonlinear_arith)
        requires
            1 <= tg <= 1024,
            1 <= vec <= 32,
    ;
    Tiling {
        tg,
        vec,
        unroll: sched.unroll,
        nr: at_least_one(sched.nr0),
        stride: tg * (vec as u64),
    }
}

/// The loops over the width of the matrix: unrolled chunks, single chunks, and for weights
/// other than Q4_K a scalar tail.
pub open spec fn sweep_code(b: Seq<Code>, m: Rows, t: Tiling, k: u32) -> Seq<Code> {
    let body = b
        .s(let_u(k, times(lid(), cu(t.vec))))
        .range_to(
            k,
            t.main_off(),
            cu(m.cols),
            cu(t.step()),
            unrolled_code(m, k, t.stride, t.nr as nat, t.unroll as nat),
        )
        .range_to(
            k,
            (t.vec - 1) as u32,
            cu(m.cols),
            cu(t.stride as u32),
            chunk_code(code(), m, k, None, t.nr as nat),
        );
    if m.dtype == DType::Q4K {
        body
    } else {
        body.range(k, cu(m.cols), cu(t.tg as u32), tail_code(m, k, t.nr as nat))
    }
}

pub fn lower_sweep(b: Block, m: Rows, t: Tiling, k: u32) -> (res: Block)
    requires
        m.fits(t.nr as int),
        t.ok(),
    ensures
        res@ == sweep_code(b@, m, t, k),
{
    let body = b
        .s(let_u(k, times(lid(), cu(t.vec))))
        .range_to(
            k,
            t.main_offset(),
            cu(m.cols),
            cu(t.step_len()),
            lower_unrolled(m, k, t.stride, t.nr, t.unroll),
        )
        .range_to(
            k,
            t.vec - 1,
            cu(m.cols),
            cu(t.stride as u32),
            lower_chunk(Block::new(), m, k, None, t.nr),
        );
    if m.dtype == DType::Q4K {
        body
    } else {
        body.range(k, cu(m.cols), cu(t.tg as u32), lower_tail(m, k, t.nr))
    }
}

/// Reduces and stores the first `r` rows of the generic kernel.
pub open spec fn finish_code(
    b: Seq<Code>,
    m: Rows,
    tg: u64,
    out_buf: u32,
    epi: MatvecEpi,
    n: u32,
    r: nat,
) -> Seq<Code>
    decreases r,
{
    if r == 0 {
        b
    } else {
        let k = (r - 1) as u32;
        let acc = m.acc(r - 1);
        finish_code(b, m, tg, out_buf, epi, n, (r - 1) as nat).when(
            gt(cu(m.rows), row_at(m.first, k)),
            code().s(reduce(acc, tg)).when(
                equal(lid(), cu(0)),
                store_row_code(out_buf, m.first, k, acc, epi, (n + epi_ids(epi) * (r - 1)) as u32),
            ),
        )
    }
}

fn lower_finish(
    b: Block,
    m: Rows,
    tg: u64,
    out_buf: u32,
    epi: MatvecEpi,
    nr: u32,
    next: &mut u32,
) -> (res: Block)
    requires
        m.fits(nr as int),
        *old(next) + 4 * nr + 4 <= u32::MAX,
    ensures
        res@ == finish_code(b@, m, tg, out_buf, epi, *old(next), nr as nat),
        *final(next) == *old(next) + epi_ids(epi) * nr,
{
    let ghost n = *next;
    let mut res: Block = b;
    let mut r: u32 = 0;
    while r < nr
        invariant
            r <= nr,
            m.fits(nr as int),
            n + 4 * nr + 4 <= u32::MAX,
            *next == n + epi_ids(epi) * r,
            epi_ids(epi) == 0 || epi_ids(epi) == 4,
            res@ == finish_code(b@, m, tg, out_buf, epi, n, r as nat),
        decreases nr - r,
    {
        proof {
            lemma_fits(m, r as int, nr as int);
        }
        let acc: u32 = m.acc_id(r);
        let body = store_row_with_epi(out_buf, m.first, r, acc, epi, next);
        res = res.when(
            gt(cu(m.rows), row_at(m.first, r)),
            Block::new().s(reduce(acc, tg)).when(equal(lid(), cu(0)), body),
        );
        r += 1;
    }
    res
}

/// What a lowering yields: the statements and the next unused identifier.
pub ghost struct Lowered {
    pub code: Seq<Code>,
    pub next: u32,
}

/// The generic matrix-vector kernel: `nr` rows per threadgroup share one pass over the width.
/// Buffers: 0 = weights, `x_buf` = activations, `out_buf` = output.
#[verifier::opaque]
pub open spec fn matvec_generic(
    rows: usize,
    cols: usize,
    wd: DType,
    sched: OptSchedule,
    x_buf: u32,
    out_buf: u32,
    rms: Option<(u32,
    Scalar)>,
    epi: MatvecEpi,
    n0: u32,
) -> Result<Lowered, ErrorV> {
    let t = tiling_of(effective_tg(wd, cols, sched.tg), effective_vec(wd, sched.vec), sched);
    match stage_x(cols, x_buf, t.tg, x_dtype(wd), rms, n0) {
        Err(e) => Err(e),
        Ok(st) => {
            let first = st.next;
            let m = Rows {
                rows: rows as u32,
                cols: cols as u32,
                first,
                ids: (first + 1) as u32,
                per: 2,
                x_buf,
                tg_x: st.tg_x,
                width: t.vec,
                dtype: wd,
            };
            let k = (first + 1 + 2 * t.nr) as u32;
            let n = (k + 1) as u32;
            let head = decls_code(st.code.s(let_u(first, times(gid(), cu(t.nr)))), m, t.nr as nat);
            Ok(
                Lowered {
                    code: finish_code(
                        sweep_code(head, m, t, k),
                        m,
                        t.tg,
                        out_buf,
                        epi,
                        n,
                        t.nr as nat,
                    ),
                    next: (n + epi_ids(epi) * t.nr) as u32,
                },
            )
        },
    }
}

/// Whether a lowering that started at `before` gave `r` and left `after`.
pub open spec fn lowers_to(
    spec: Result<Lowered,
    ErrorV>,
    r: Result<Block,
    CodegenError>,
    before: u32,
    after: u32,
) -> bool {
    match r {
        Ok(b) => spec == Ok::<Lowered, ErrorV>(Lowered { code: b@, next: after }),
        Err(e) => spec == Err::<Lowered, ErrorV>(e@) && after == before,
    }
}

/// Whether the identifiers that a tiling needs exist.
pub open spec fn ids_fit(next: u32, sched: OptSchedule) -> bool {
    next + 8 * at_least_one(sched.nr0) + 64 <= u32::MAX
}

fn lower_matvec_generic(
    rows: usize,
    cols: usize,
    wd: DType,
    sched: OptSchedule,
    x_buf: u32,
    out_buf: u32,
    rms: Option<(u32,
    Scalar)>,
    epi: MatvecEpi,
    next: &mut u32,
) -> (r: Result<Block, CodegenError>)
    requires
        sched_ok(sched),
        ids_fit(*old(next), sched),
    ensures
        lowers_to(
            matvec_generic(rows, cols, wd, sched, x_buf, out_buf, rms, epi, *old(next)),
            r,
            *old(next),
            *final(next),
        ),
{
    proof {
        reveal(matvec_generic);
    }
    let t = make_tiling(effective_tg(wd, cols, sched.tg), effective_vec(wd, sched.vec), sched);
    let (b, tg_x) = stage_local_x(cols, x_buf, t.tg, x_dtype(wd), rms, next)?;
    let first: u32 = fresh(next);
    let m = Rows {
        rows: rows as u32,
        cols: cols as u32,
        first,
        ids: *next,
        per: 2,
        x_buf,
        tg_x,
        width: t.vec,
        dtype: wd,
    };
    *next = *next + 2 * t.nr;
    let b = lower_decls(b.s(let_u(first, times(gid(), cu(t.nr)))), m, t.nr);
    let k: u32 = fresh(next);
    let b = lower_sweep(b, m, t, k);
    let b = lower_finish(b, m, t.tg, out_buf, epi, t.nr, next);
    Ok(b)
}

/// The variables of a cooperative kernel: lane, simdgroup and first row, and where the lane's
/// stripe of superblocks begins.
pub open spec fn coop_head(b: Seq<Code>, q6: bool, nsg: u32, n: u32) -> Seq<Code> {
    let lane = n;
    let sg = (n + 1) as u32;
    let first = (n + 2) as u32;
    let ix = (n + 3) as u32;
    b
        .s(let_u(sg, over(lid(), cu(32))))
        .s(let_u(lane, minus(lid(), times(uv(sg), cu(32)))))
        .s(let_u(first, times(plus(times(gid(), cu(nsg)), uv(sg)), cu(4))))
        .s(let_u(ix, if q6 {
            minus(uv(lane), times(over(uv(lane), cu(2)), cu(2)))
        } else {
            over(uv(lane), cu(8))
        }))
}

pub fn lower_coop_head(b: Block, q6: bool, nsg: u32, n: u32) -> (r: Block)
    requires
        n + 4 <= u32::MAX,
    ensures
        r@ == coop_head(b@, q6, nsg, n),
{
    let lane: u32 = n;
    let sg: u32 = n + 1;
    let first: u32 = n + 2;
    let ix: u32 = n + 3;
    let stripe = if q6 {
        minus(uv(lane), times(over(uv(lane), cu(2)), cu(2)))
    } else {
        over(uv(lane), cu(8))
    };
    b
        .s(let_u(sg, over(lid(), cu(32))))
        .s(let_u(lane, minus(lid(), times(uv(sg), cu(32)))))
        .s(let_u(first, times(plus(times(gid(), cu(nsg)), uv(sg)), cu(4))))
        .s(let_u(ix, stripe))
}

/// The four rows of a simdgroup at once.
#[verifier::allow_in_spec]
pub fn four_rows(m: Rows, q6: bool, ib: u32, lane: u32, accs: [u32; 4], base: u32) -> KirStmt
    returns
        (if q6 {
            KirStmt::Q6kCoopNr4 {
                w_buf: 0,
                row0_base: uv(base),
                cols: m.cols,
                ib: uv(ib),
                b_from_tg: m.tg_x,
                x_buf: m.x_buf,
                x_off: cu(0),
                lane: uv(lane),
                acc_ids: accs,
            }
        } else {
            KirStmt::Q4kCoopNr4 {
                w_buf: 0,
                row0_base: uv(base),
                cols: m.cols,
                ib: uv(ib),
                b_from_tg: m.tg_x,
                x_buf: m.x_buf,
                lane: uv(lane),
                acc_ids: accs,
            }
        }),
{
    if q6 {
        KirStmt::Q6kCoopNr4 {
            w_buf: 0,
            row0_base: uv(base),
            cols: m.cols,
            ib: uv(ib),
            b_from_tg: m.tg_x,
            x_buf: m.x_buf,
            x_off: cu(0),
            lane: uv(lane),
            acc_ids: accs,
        }
    } else {
        KirStmt::Q4kCoopNr4 {
            w_buf: 0,
            row0_base: uv(base),
            cols: m.cols,
            ib: uv(ib),
            b_from_tg: m.tg_x,
            x_buf: m.x_buf,
            lane: uv(lane),
            acc_ids: accs,
        }
    }
}

/// `acc` gains one lane's part of a superblock of one row of weight buffer `w`.
#[verifier::allow_in_spec]
pub fn frag_step(m: Rows, q6: bool, acc: u32, base: u32, w: u32, ib: u32, lane: u32) -> KirStmt
    returns
        accumulate(acc, if q6 {
            q6k_frag(w, base, m.cols, ib, m.tg_x, m.x_buf, lane)
        } else {
            q4k_frag(w, base, m.cols, ib, m.tg_x, m.x_buf, lane)
        }),
{
    let frag = if q6 {
        q6k_frag(w, base, m.cols, ib, m.tg_x, m.x_buf, lane)
    } else {
        q4k_frag(w, base, m.cols, ib, m.tg_x, m.x_buf, lane)
    };
    accumulate(acc, frag)
}

/// The first `r` rows one by one, each where it exists.
pub open spec fn frag_rows_code(m: Rows, q6: bool, ib: u32, lane: u32, r: nat) -> Seq<Code>
    decreases r,
{
    if r == 0 {
        code()
    } else {
        let acc = m.acc(r - 1);
        let base = m.base(r - 1);
        let one = code().s(frag_step(m, q6, acc, base, 0, ib, lane));
        let both = if m.per == 2 {
            one
        } else {
            one.s(frag_step(m, q6, (acc + 1) as u32, base, 1, ib, lane))
        };
        frag_rows_code(m, q6, ib, lane, (r - 1) as nat).when(
            gt(cu(m.rows), row_at(m.first, (r - 1) as u32)),
            both,
        )
    }
}

fn lower_frag_rows(m: Rows, q6: bool, ib: u32, lane: u32) -> (res: Block)
    requires
        m.fits(4),
    ensures
        res@ == frag_rows_code(m, q6, ib, lane, 4),
{
    let mut res: Block = Block::new();
    let mut r: u32 = 0;
    while r < 4
        invariant
            r <= 4,
            m.fits(4),
            res@ == frag_rows_code(m, q6, ib, lane, r as nat),
        decreases 4 - r,
    {
        proof {
            lemma_fits(m, r as int, 4);
        }
        let acc: u32 = m.acc_id(r);
        let base: u32 = m.base_id(r);
        let one = Block::new().s(frag_step(m, q6, acc, base, 0, ib, lane));
        let both = if m.per == 2 {
            one
        } else {
            one.s(frag_step(m, q6, acc + 1, base, 1, ib, lane))
        };
        res = res.when(gt(cu(m.rows), row_at(m.first, r)), both);
        r += 1;
    }
    res
}

/// The number before `n`, at least zero.
#[verifier::allow_in_spec]
pub fn before(n: u32) -> u32
    returns
        (if n == 0 {
            0u32
        } else {
            (n - 1) as u32
        }),
{
    if n == 0 {
        0
    } else {
        n - 1
    }
}

/// One superblock: four rows at once where all exist, else row by row.
pub open spec fn superblock_code(
    m: Rows,
    q6: bool,
    ib: u32,
    lane: u32,
    exact: bool,
    all: KirStmt,
) -> Seq<Code> {
    if exact {
        code().s(all)
    } else {
        code()
            .when(gt(cu(m.rows), plus(uv(m.first), cu(3))), code().s(all))
            .when(
                gt(plus(uv(m.first), cu(3)), cu(before(m.rows))),
                frag_rows_code(m, q6, ib, lane, 4),
            )
    }
}

pub fn lower_superblock(
    m: Rows,
    q6: bool,
    ib: u32,
    lane: u32,
    exact: bool,
    all: KirStmt,
) -> (res: Block)
    requires
        m.fits(4),
        crate::codegen::lower::block::is_flat(all),
    ensures
        res@ == superblock_code(m, q6, ib, lane, exact, all),
{
    if exact {
        Block::new().s(all)
    } else {
        Block::new()
            .when(gt(cu(m.rows), plus(uv(m.first), cu(3))), Block::new().s(all))
            .when(
                gt(plus(uv(m.first), cu(3)), cu(before(m.rows))),
                lower_frag_rows(m, q6, ib, lane),
            )
    }
}

/// A finished row: unguarded where every simdgroup has all its rows.
pub open spec fn row_guard(
    b: Seq<Code>,
    m: Rows,
    r: u32,
    exact: bool,
    body: Seq<Code>,
) -> Seq<Code> {
    if exact {
        b.cat(body)
    } else {
        b.when(gt(cu(m.rows), row_at(m.first, r)), body)
    }
}

pub fn lower_row_guard(b: Block, m: Rows, r: u32, exact: bool, body: Block) -> (res: Block)
    ensures
        res@ == row_guard(b@, m, r, exact, body@),
{
    if exact {
        b.cat(body)
    } else {
        b.when(gt(cu(m.rows), row_at(m.first, r)), body)
    }
}

/// Sums the first `r` rows over the simdgroup and stores them from its first lane.
pub open spec fn coop_finish(
    b: Seq<Code>,
    m: Rows,
    lane: u32,
    exact: bool,
    out_buf: u32,
    epi: MatvecEpi,
    n: u32,
    r: nat,
) -> Seq<Code>
    decreases r,
{
    if r == 0 {
        b
    } else {
        let k = (r - 1) as u32;
        let acc = m.acc(r - 1);
        row_guard(
            coop_finish(b, m, lane, exact, out_buf, epi, n, (r - 1) as nat),
            m,
            k,
            exact,
            code().s(assign(acc, simd_sum(v(acc)))).when(
                equal(uv(lane), cu(0)),
                store_row_code(out_buf, m.first, k, acc, epi, (n + epi_ids(epi) * (r - 1)) as u32),
            ),
        )
    }
}

fn lower_coop_finish(
    b: Block,
    m: Rows,
    lane: u32,
    exact: bool,
    out_buf: u32,
    epi: MatvecEpi,
    next: &mut u32,
) -> (res: Block)
    requires
        m.fits(4),
        *old(next) + 20 <= u32::MAX,
    ensures
        res@ == coop_finish(b@, m, lane, exact, out_buf, epi, *old(next), 4),
        *final(next) == *old(next) + epi_ids(epi) * 4,
{
    let ghost n = *next;
    let mut res: Block = b;
    let mut r: u32 = 0;
    while r < 4
        invariant
            r <= 4,
            m.fits(4),
            n + 20 <= u32::MAX,
            *next == n + epi_ids(epi) * r,
            epi_ids(epi) == 0 || epi_ids(epi) == 4,
            res@ == coop_finish(b@, m, lane, exact, out_buf, epi, n, r as nat),
        decreases 4 - r,
    {
        proof {
            lemma_fits(m, r as int, 4);
        }
        let acc: u32 = m.acc_id(r);
        let body = store_row_with_epi(out_buf, m.first, r, acc, epi, next);
        let sum = Block::new().s(assign(acc, simd_sum(v(acc)))).when(equal(uv(lane), cu(0)), body);
        res = lower_row_guard(res, m, r, exact, sum);
        r += 1;
    }
    res
}

/// A cooperative matrix-vector kernel: `nsg` simdgroups of four rows each, whose lanes share
/// the superblocks of a row.
#[verifier::opaque]
pub open spec fn matvec_coop(
    q6: bool,
    rows: usize,
    cols: usize,
    nsg: u32,
    x_buf: u32,
    out_buf: u32,
    rms: Option<(u32,
    Scalar)>,
    epi: MatvecEpi,
    n0: u32,
) -> Result<Lowered, ErrorV> {
    match stage_coop(cols, x_buf, (nsg * 32) as u64, rms, n0) {
        Err(e) => Err(e),
        Ok(st) => {
            let lane = st.next;
            let exact = rows as int % (nsg * 4) == 0;
            let m = Rows {
                rows: rows as u32,
                cols: cols as u32,
                first: (lane + 2) as u32,
                ids: (lane + 4) as u32,
                per: 2,
                x_buf,
                tg_x: st.tg_x,
                width: 1,
                dtype: DType::Q4K,
            };
            let ib = (lane + 12) as u32;
            let n = (lane + 13) as u32;
            let all = four_rows(
                m,
                q6,
                ib,
                lane,
                [m.acc(0), m.acc(1), m.acc(2), m.acc(3)],
                m.base(0),
            );
            let head = decls_code(coop_head(st.code, q6, nsg, lane), m, 4)
                .s(let_u(ib, uv((lane + 3) as u32)))
                .range(
                    ib,
                    cu((cols / 256) as u32),
                    cu(if q6 { 2u32 } else { 4u32 }),
                    superblock_code(m, q6, ib, lane, exact, all),
                );
            Ok(
                Lowered {
                    code: coop_finish(head, m, lane, exact, out_buf, epi, n, 4),
                    next: (n + epi_ids(epi) * 4) as u32,
                },
            )
        },
    }
}

fn lower_coop(
    q6: bool,
    rows: usize,
    cols: usize,
    nsg: u32,
    x_buf: u32,
    out_buf: u32,
    rms: Option<(u32,
    Scalar)>,
    epi: MatvecEpi,
    next: &mut u32,
) -> (r: Result<Block, CodegenError>)
    requires
        1 <= nsg <= 0x1000000,
        *old(next) + 64 <= u32::MAX,
    ensures
        lowers_to(
            matvec_coop(q6, rows, cols, nsg, x_buf, out_buf, rms, epi, *old(next)),
            r,
            *old(next),
            *final(next),
        ),
{
    proof {
        reveal(matvec_coop);
    }
    let exact: bool = rows % ((nsg * 4) as usize) == 0;
    let (b, tg_x) = stage_coop_x(cols, x_buf, (nsg as u64) * 32, rms, next)?;
    let lane: u32 = *next;
    let m = Rows {
        rows: rows as u32,
        cols: cols as u32,
        first: lane + 2,
        ids: lane + 4,
        per: 2,
        x_buf,
        tg_x,
        width: 1,
        dtype: DType::Q4K,
    };
    let ib: u32 = lane + 12;
    *next = lane + 13;
    let all = four_rows(
        m,
        q6,
        ib,
        lane,
        [m.acc_id(0), m.acc_id(1), m.acc_id(2), m.acc_id(3)],
        m.base_id(0),
    );
    let stripes: u32 = if q6 {
        2
    } else {
        4
    };
    let b = lower_decls(lower_coop_head(b, q6, nsg, lane), m, 4)
        .s(let_u(ib, uv(lane + 3)))
        .range(
            ib,
            cu((cols / 256) as u32),
            cu(stripes),
            lower_superblock(m, q6, ib, lane, exact, all),
        );
    Ok(lower_coop_finish(b, m, lane, exact, out_buf, epi, next))
}

/// The cooperative kernel for Q4_K weights.
fn lower_matvec_q4k_coop(
    rows: usize,
    cols: usize,
    sched: OptSchedule,
    x_buf: u32,
    out_buf: u32,
    rms: Option<(u32,
    Scalar)>,
    epi: MatvecEpi,
    next: &mut u32,
) -> (r: Result<Block, CodegenError>)
    requires
        sched.nsg <= 0x1000000,
        *old(next) + 64 <= u32::MAX,
    ensures
        lowers_to(
            matvec_coop(
                false,
                rows,
                cols,
                at_least_one(sched.nsg),
                x_buf,
                out_buf,
                rms,
                epi,
                *old(next),
            ),
            r,
            *old(next),
            *final(next),
        ),
{
    lower_coop(false, rows, cols, at_least_one(sched.nsg), x_buf, out_buf, rms, epi, next)
}

/// The cooperative kernel for Q6_K weights, always with two simdgroups.
fn lower_matvec_q6k_coop(
    rows: usize,
    cols: usize,
    x_buf: u32,
    out_buf: u32,
    rms: Option<(u32,
    Scalar)>,
    epi: MatvecEpi,
    next: &mut u32,
) -> (r: Result<Block, CodegenError>)
    requires
        *old(next) + 64 <= u32::MAX,
    ensures
        lowers_to(
            matvec_coop(true, rows, cols, 2, x_buf, out_buf, rms, epi, *old(next)),
            r,
            *old(next),
            *final(next),
        ),
{
    lower_coop(true, rows, cols, 2, x_buf, out_buf, rms, epi, next)
}

/// A matrix-vector kernel: cooperative for packed weights in whole blocks, where that can be
/// staged, else generic.
#[verifier::opaque]
pub open spec fn matvec_lowered(
    rows: usize,
    cols: usize,
    wd: DType,
    sched: OptSchedule,
    x_buf: u32,
    out_buf: u32,
    rms: Option<(u32,
    Scalar)>,
    epi: MatvecEpi,
    n0: u32,
) -> Result<Lowered, ErrorV> {
    let coop = matvec_coop(
        wd == DType::Q6K,
        rows,
        cols,
        if wd == DType::Q6K {
            2u32
        } else {
            at_least_one(sched.nsg)
        },
        x_buf,
        out_buf,
        rms,
        epi,
        n0,
    );
    if packed_k_quant(wd) && cols % 256 == 0 && coop is Ok {
        coop
    } else {
        matvec_generic(rows, cols, wd, sched, x_buf, out_buf, rms, epi, n0)
    }
}

pub fn lower_matvec_epi(
    rows: usize,
    cols: usize,
    wd: DType,
    sched: OptSchedule,
    x_buf: u32,
    out_buf: u32,
    rms: Option<(u32,
    Scalar)>,
    epi: MatvecEpi,
    next: &mut u32,
) -> (r: Result<Block, CodegenError>)
    requires
        sched_ok(sched),
        sched.nsg <= 0x1000000,
        ids_fit(*old(next), sched),
    ensures
        lowers_to(
            matvec_lowered(rows, cols, wd, sched, x_buf, out_buf, rms, epi, *old(next)),
            r,
            *old(next),
            *final(next),
        ),
{
    proof {
        reveal(matvec_lowered);
    }
    if wd == DType::Q4K && cols % 256 == 0 {
        match lower_matvec_q4k_coop(rows, cols, sched, x_buf, out_buf, rms, epi, next) {
            Ok(b) => {
                return Ok(b);
            },
            Err(_) => {},
        }
    }
    if wd == DType::Q6K && cols % 256 == 0 {
        match lower_matvec_q6k_coop(rows, cols, x_buf, out_buf, rms, epi, next) {
            Ok(b) => {
                return Ok(b);
            },
            Err(_) => {},
        }
    }
    lower_matvec_generic(rows, cols, wd, sched, x_buf, out_buf, rms, epi, next)
}

/// A matrix-vector kernel that stores its rows as they are.
pub fn lower_matvec(
    rows: usize,
    cols: usize,
    wd: DType,
    sched: OptSchedule,
    x_buf: u32,
    out_buf: u32,
    rms: Option<(u32,
    Scalar)>,
    next: &mut u32,
) -> (r: Result<Block, CodegenError>)
    requires
        sched_ok(sched),
        sched.nsg <= 0x1000000,
        ids_fit(*old(next), sched),
    ensures
        lowers_to(
            matvec_lowered(
                rows,
                cols,
                wd,
                sched,
                x_buf,
                out_buf,
                rms,
                MatvecEpi::Plain,
                *old(next),
            ),
            r,
            *old(next),
            *final(next),
        ),
{
    lower_matvec_epi(rows, cols, wd, sched, x_buf, out_buf, rms, MatvecEpi::Plain, next)
}

} // verus!
