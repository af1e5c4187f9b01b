//! The body of the attention kernel: online softmax over tiles of positions that
//! all query heads of one threadgroup share.

use vstd::prelude::*;

use crate::codegen::lower::block::{
    accumulate, assign, barrier, c, code, cu, fresh, fv, gt, larger, ld, let_f, let_u, lid, minus,
    over, plus, simd_sum, store, tg_decl, tg_load, th_decl, th_load, th_store, times, to_uint, un,
    uv, v, Block, Extend,
};
use crate::ir::dtype::{DType, LOWEST, ONE, ZERO};
use crate::ir::kernel::{Code, KirExpr, KirStmt, UnaryOp};

verus! {

/// The identifiers of the attention kernel that are shared by its parts.
#[derive(Clone, Copy, Debug, PartialEq, Eq, Structural)]
pub struct SdpaIds {
    pub base: u32,
    pub tlen: u32,
    pub start: u32,
    pub m: u32,
    pub lsum: u32,
    pub t_base: u32,
    pub s: u32,
    pub m2: u32,
    pub alpha: u32,
    pub e: u32,
    pub io: u32,
    pub kv_base: u32,
    /// The loop counters of tile row `r` are `rows + 2 * r` and the next one.
    pub rows: u32,
}

/// Positions per tile: as many as fit twice, as floats, into 32 KiB, but at most eight.
pub open spec fn sdpa_tile(hd: usize) -> usize {
    let fit = (32768int / (8 * hd)) as usize;
    if fit > 8 {
        8
    } else if fit < 1 {
        1
    } else {
        fit
    }
}

/// The first element of position `t_base + r` of a key or value buffer.
#[verifier::allow_in_spec]
pub fn kv_row(ids: SdpaIds, r: u32, hd: u32) -> KirExpr
    returns
        times(plus(uv(ids.start), plus(uv(ids.t_base), cu(r))), cu(hd)),
{
    times(plus(uv(ids.start), plus(uv(ids.t_base), cu(r))), cu(hd))
}

/// Loads tile row `r` of keys and values, four elements at a time.
pub open spec fn load_row_code(
    ids: SdpaIds,
    r: u32,
    hd: usize,
    kv_dt: DType,
    tg: u64,
) -> Seq<Code> {
    let d = (ids.rows + 2 * r) as u32;
    let row_off = (r * hd) as u32;
    code()
        .s(let_u(d, lid()))
        .range(d, cu(((hd as u32) / 4) as u32), cu(tg as u32), code()
            .s(KirStmt::TgStoreF4FromLoad {
                tg_id: 0,
                tg_off: plus(cu(row_off), times(uv(d), cu(4))),
                src_buf: 1,
                src_elem: plus(kv_row(ids, r, hd as u32), times(uv(d), cu(4))),
                dtype: kv_dt,
            })
            .s(KirStmt::TgStoreF4FromLoad {
                tg_id: 1,
                tg_off: plus(cu(row_off), times(uv(d), cu(4))),
                src_buf: 2,
                src_elem: plus(kv_row(ids, r, hd as u32), times(uv(d), cu(4))),
                dtype: kv_dt,
            }))
}

fn lower_load_row(ids: SdpaIds, r: u32, hd: usize, kv_dt: DType, tg: u64) -> (b: Block)
    requires
        hd <= 4096,
        r < 8,
        ids.rows + 16 <= u32::MAX,
    ensures
        b@ == load_row_code(ids, r, hd, kv_dt, tg),
{
    let d: u32 = ids.rows + 2 * r;
    assert(r * hd <= 8 * 4096) by (nonlinear_arith)
        requires
            r < 8,
            hd <= 4096,
    ;
    let row_off: u32 = r * (hd as u32);
    Block::new()
        .s(let_u(d, lid()))
        .range(d, cu((hd as u32) / 4), cu(tg as u32), Block::new()
            .s(KirStmt::TgStoreF4FromLoad {
                tg_id: 0,
                tg_off: plus(cu(row_off), times(uv(d), cu(4))),
                src_buf: 1,
                src_elem: plus(kv_row(ids, r, hd as u32), times(uv(d), cu(4))),
                dtype: kv_dt,
            })
            .s(KirStmt::TgStoreF4FromLoad {
                tg_id: 1,
                tg_off: plus(cu(row_off), times(uv(d), cu(4))),
                src_buf: 2,
                src_elem: plus(kv_row(ids, r, hd as u32), times(uv(d), cu(4))),
                dtype: kv_dt,
            }))
}

/// Element `4 * d + k` of the lane's query times the same element of a staged key.
#[verifier::allow_in_spec]
pub fn score_term(d: u32, k: u32, row_off: u32, base: u32) -> KirExpr
    returns
        (if k == 0 {
            times(
                th_load(0, times(fv(d), cu(4))),
                tg_load(0, plus(cu(row_off), plus(uv(base), times(fv(d), cu(4))))),
            )
        } else {
            times(
                th_load(0, plus(times(fv(d), cu(4)), cu(k))),
                tg_load(0, plus(cu(row_off), plus(uv(base), plus(times(fv(d), cu(4)), cu(k))))),
            )
        }),
{
    if k == 0 {
        times(
            th_load(0, times(fv(d), cu(4))),
            tg_load(0, plus(cu(row_off), plus(uv(base), times(fv(d), cu(4))))),
        )
    } else {
        times(
            th_load(0, plus(times(fv(d), cu(4)), cu(k))),
            tg_load(0, plus(cu(row_off), plus(uv(base), plus(times(fv(d), cu(4)), cu(k))))),
        )
    }
}

/// Adds the score of tile row `r`, four elements at a time where the lane's share allows it.
pub open spec fn score_code(
    b: Seq<Code>,
    ids: SdpaIds,
    d: u32,
    row_off: u32,
    n_own: usize,
) -> Seq<Code> {
    if n_own % 4 == 0 {
        b.each(d, n_own / 4, code()
            .s(accumulate(ids.s, plus(
                plus(score_term(d, 0, row_off, ids.base), score_term(d, 1, row_off, ids.base)),
                plus(score_term(d, 2, row_off, ids.base), score_term(d, 3, row_off, ids.base)),
            ))))
    } else {
        b.each(d, n_own, code()
            .s(accumulate(ids.s, times(
                th_load(0, fv(d)),
                tg_load(0, plus(cu(row_off), plus(uv(ids.base), fv(d)))),
            ))))
    }
}

fn lower_score(b: Block, ids: SdpaIds, d: u32, row_off: u32, n_own: usize) -> (r: Block)
    ensures
        r@ == score_code(b@, ids, d, row_off, n_own),
{
    if n_own % 4 == 0 {
        b.each(d, n_own / 4, Block::new()
            .s(accumulate(ids.s, plus(
                plus(score_term(d, 0, row_off, ids.base), score_term(d, 1, row_off, ids.base)),
                plus(score_term(d, 2, row_off, ids.base), score_term(d, 3, row_off, ids.base)),
            ))))
    } else {
        b.each(d, n_own, Block::new()
            .s(accumulate(ids.s, times(
                th_load(0, fv(d)),
                tg_load(0, plus(cu(row_off), plus(uv(ids.base), fv(d)))),
            ))))
    }
}

/// One step of online softmax for tile row `r`: the score, the new maximum, and the weighted
/// sum and normaliser rescaled to it.
pub open spec fn softmax_row_code(ids: SdpaIds, r: u32, hd: usize) -> Seq<Code> {
    let d = (ids.rows + 2 * r + 1) as u32;
    let row_off = (r * hd) as u32;
    let n_own = hd / 32;
    score_code(code()
        .s(let_u(ids.kv_base, kv_row(ids, r, hd as u32)))
        .s(let_f(ids.s, c(ZERO))), ids, d, row_off, n_own)
        .s(assign(ids.s, simd_sum(v(ids.s))))
        .s(let_f(ids.m2, larger(v(ids.m), v(ids.s))))
        .s(let_f(ids.alpha, un(UnaryOp::Exp, minus(v(ids.m), v(ids.m2)))))
        .s(let_f(ids.e, un(UnaryOp::Exp, minus(v(ids.s), v(ids.m2)))))
        .s(assign(ids.lsum, plus(times(v(ids.lsum), v(ids.alpha)), v(ids.e))))
        .s(assign(ids.m, v(ids.m2)))
        .each(ids.io, n_own, code()
            .s(th_store(1, fv(ids.io), plus(
                times(th_load(1, fv(ids.io)), v(ids.alpha)),
                times(v(ids.e), tg_load(1, plus(cu(row_off), plus(uv(ids.base), fv(ids.io))))),
            ))))
}

fn lower_softmax_row(ids: SdpaIds, r: u32, hd: usize) -> (b: Block)
    requires
        hd <= 4096,
        r < 8,
        ids.rows + 16 <= u32::MAX,
    ensures
        b@ == softmax_row_code(ids, r, hd),
{
    let d: u32 = ids.rows + 2 * r + 1;
    assert(r * hd <= 8 * 4096) by (nonlinear_arith)
        requires
            r < 8,
            hd <= 4096,
    ;
    let row_off: u32 = r * (hd as u32);
    let n_own: usize = hd / 32;
    lower_score(Block::new()
        .s(let_u(ids.kv_base, kv_row(ids, r, hd as u32)))
        .s(let_f(ids.s, c(ZERO))), ids, d, row_off, n_own)
        .s(assign(ids.s, simd_sum(v(ids.s))))
        .s(let_f(ids.m2, larger(v(ids.m), v(ids.s))))
        .s(let_f(ids.alpha, un(UnaryOp::Exp, minus(v(ids.m), v(ids.m2)))))
        .s(let_f(ids.e, un(UnaryOp::Exp, minus(v(ids.s), v(ids.m2)))))
        .s(assign(ids.lsum, plus(times(v(ids.lsum), v(ids.alpha)), v(ids.e))))
        .s(assign(ids.m, v(ids.m2)))
        .each(ids.io, n_own, Block::new()
            .s(th_store(1, fv(ids.io), plus(
                times(th_load(1, fv(ids.io)), v(ids.alpha)),
                times(v(ids.e), tg_load(1, plus(cu(row_off), plus(uv(ids.base), fv(ids.io))))),
            ))))
}

/// A row of the tile, guarded by the number of positions unless the tile is a single row.
pub open spec fn tile_row(
    b: Seq<Code>,
    ids: SdpaIds,
    r: u32,
    tile: usize,
    body: Seq<Code>,
) -> Seq<Code> {
    if tile == 1 {
        b.cat(body)
    } else {
        b.when(gt(uv(ids.tlen), plus(uv(ids.t_base), cu(r))), body)
    }
}

fn lower_tile_row(b: Block, ids: SdpaIds, r: u32, tile: usize, body: Block) -> (res: Block)
    ensures
        res@ == tile_row(b@, ids, r, tile, body@),
{
    if tile == 1 {
        b.cat(body)
    } else {
        b.when(gt(uv(ids.tlen), plus(uv(ids.t_base), cu(r))), body)
    }
}

/// The first `r` rows of a tile, loaded.
pub open spec fn loads_code(
    ids: SdpaIds,
    hd: usize,
    kv_dt: DType,
    tg: u64,
    tile: usize,
    r: nat,
) -> Seq<Code>
    decreases r,
{
    if r == 0 {
        code()
    } else {
        let k = (r - 1) as u32;
        tile_row(
            loads_code(ids, hd, kv_dt, tg, tile, (r - 1) as nat),
            ids,
            k,
            tile,
            load_row_code(ids, k, hd, kv_dt, tg),
        )
    }
}

/// The first `r` rows of a tile, folded into the running softmax.
pub open spec fn scores_code(
    b: Seq<Code>,
    ids: SdpaIds,
    hd: usize,
    tile: usize,
    r: nat,
) -> Seq<Code>
    decreases r,
{
    if r == 0 {
        b
    } else {
        let k = (r - 1) as u32;
        tile_row(
            scores_code(b, ids, hd, tile, (r - 1) as nat),
            ids,
            k,
            tile,
            softmax_row_code(ids, k, hd),
        )
    }
}

/// One pass over a tile: load, barrier, fold.
pub open spec fn pass_code(
    ids: SdpaIds,
    hd: usize,
    kv_dt: DType,
    tg: u64,
    tile: usize,
) -> Seq<Code> {
    scores_code(
        loads_code(ids, hd, kv_dt, tg, tile, tile as nat).s(barrier()),
        ids,
        hd,
        tile,
        tile as nat,
    )
}

fn lower_pass(ids: SdpaIds, hd: usize, kv_dt: DType, tg: u64, tile: usize) -> (b: Block)
    requires
        hd <= 4096,
        1 <= tile <= 8,
        ids.rows + 16 <= u32::MAX,
    ensures
        b@ == pass_code(ids, hd, kv_dt, tg, tile),
{
    let mut b: Block = Block::new();
    let mut r: u32 = 0;
    while r < tile as u32
        invariant
            r <= tile <= 8,
            hd <= 4096,
            ids.rows + 16 <= u32::MAX,
            b@ == loads_code(ids, hd, kv_dt, tg, tile, r as nat),
        decreases tile - r,
    {
        b = lower_tile_row(b, ids, r, tile, lower_load_row(ids, r, hd, kv_dt, tg));
        r += 1;
    }
    b = b.s(barrier());
    let ghost b0 = b@;
    let mut r: u32 = 0;
    while r < tile as u32
        invariant
            r <= tile <= 8,
            hd <= 4096,
            ids.rows + 16 <= u32::MAX,
            b@ == scores_code(b0, ids, hd, tile, r as nat),
        decreases tile - r,
    {
        b = lower_tile_row(b, ids, r, tile, lower_softmax_row(ids, r, hd));
        r += 1;
    }
    b
}

/// The identifiers, when the first one is `n0`.
pub open spec fn sdpa_ids(n0: u32) -> SdpaIds {
    SdpaIds {
        base: (n0 + 2) as u32,
        tlen: (n0 + 5) as u32,
        start: (n0 + 6) as u32,
        m: (n0 + 7) as u32,
        lsum: (n0 + 8) as u32,
        t_base: (n0 + 9) as u32,
        s: (n0 + 10) as u32,
        m2: (n0 + 11) as u32,
        alpha: (n0 + 12) as u32,
        e: (n0 + 13) as u32,
        io: (n0 + 15) as u32,
        kv_base: (n0 + 18) as u32,
        rows: (n0 + 20) as u32,
    }
}

/// Attention of head `lid / 32` over the positions that `in3` gives. The lanes of a head hold
/// contiguous shares of its query and output. Buffers: 0 = q, 1 = k, 2 = v, 3 = (length, start),
/// 4 = output.
#[verifier::opaque]
pub open spec fn sdpa_code(hd: usize, q_dt: DType, kv_dt: DType, tg: u64, n0: u32) -> Seq<Code> {
    let tile = sdpa_tile(hd);
    let n_own = hd / 32;
    let ids = sdpa_ids(n0);
    let head = n0;
    let lane = (n0 + 1) as u32;
    let tlen_f = (n0 + 3) as u32;
    let start_f = (n0 + 4) as u32;
    let iq = (n0 + 14) as u32;
    let iw = (n0 + 16) as u32;
    let q_base = (n0 + 17) as u32;
    let inv_l = (n0 + 19) as u32;
    code()
        .s(tg_decl(0, (tile * hd) as usize))
        .s(tg_decl(1, (tile * hd) as usize))
        .s(th_decl(0, n_own))
        .s(th_decl(1, n_own))
        .s(let_u(head, over(lid(), cu(32))))
        .s(let_u(lane, minus(lid(), times(uv(head), cu(32)))))
        .s(let_u(ids.base, times(uv(lane), cu(n_own as u32))))
        .s(let_f(tlen_f, ld(3, cu(0), q_dt)))
        .s(let_f(start_f, ld(3, cu(1), q_dt)))
        .s(let_u(ids.tlen, to_uint(v(tlen_f))))
        .s(let_u(ids.start, to_uint(v(start_f))))
        .s(let_u(q_base, times(uv(head), cu(hd as u32))))
        .s(let_f(ids.m, c(LOWEST)))
        .s(let_f(ids.lsum, c(ZERO)))
        .each(iq, n_own, code()
            .s(th_store(0, fv(iq), ld(0, plus(uv(q_base), plus(uv(ids.base), fv(iq))), q_dt)))
            .s(th_store(1, fv(iq), c(ZERO))))
        .s(let_u(ids.t_base, cu(0)))
        .range(ids.t_base, uv(ids.tlen), cu(tile as u32), pass_code(ids, hd, kv_dt, tg, tile))
        .s(let_f(inv_l, over(c(ONE), v(ids.lsum))))
        .each(iw, n_own, code()
            .s(store(4, plus(uv(q_base), plus(uv(ids.base), fv(iw))), times(th_load(1, fv(iw)), v(inv_l)))))
}

/// Lowers attention. A head has a multiple of 32 elements, and two tiles of one position fit
/// into a threadgroup.
pub fn lower_sdpa_online(
    hd: usize,
    q_dt: DType,
    kv_dt: DType,
    tg: u64,
    next: &mut u32,
) -> (r: Block)
    requires
        hd % 32 == 0,
        0 < hd <= 4096,
        *old(next) + 64 <= u32::MAX,
    ensures
        r@ == sdpa_code(hd, q_dt, kv_dt, tg, *old(next)),
        *final(next) == *old(next) + 20 + 2 * sdpa_tile(hd),
{
    proof {
        reveal(sdpa_code);
    }
    let ghost n0 = *next;
    let fit: usize = 32768 / (2 * hd * 4);
    let tile: usize = if fit > 8 {
        8
    } else if fit < 1 {
        1
    } else {
        fit
    };
    assert(tile == sdpa_tile(hd));
    let n_own: usize = hd / 32;
    assert(tile * hd <= 8 * 4096) by (nonlinear_arith)
        requires
            tile <= 8,
            hd <= 4096,
    ;
    let head: u32 = fresh(next);
    let lane: u32 = fresh(next);
    let base: u32 = fresh(next);
    let tlen_f: u32 = fresh(next);
    let start_f: u32 = fresh(next);
    let tlen: u32 = fresh(next);
    let start: u32 = fresh(next);
    let m: u32 = fresh(next);
    let lsum: u32 = fresh(next);
    let t_base: u32 = fresh(next);
    let s: u32 = fresh(next);
    let m2: u32 = fresh(next);
    let alpha: u32 = fresh(next);
    let e: u32 = fresh(next);
    let iq: u32 = fresh(next);
    let io: u32 = fresh(next);
    let iw: u32 = fresh(next);
    let q_base: u32 = fresh(next);
    let kv_base: u32 = fresh(next);
    let inv_l: u32 = fresh(next);
    let rows: u32 = *next;
    *next = *next + 2 * (tile as u32);
    let ids = SdpaIds {
        base,
        tlen,
        start,
        m,
        lsum,
        t_base,
        s,
        m2,
        alpha,
        e,
        io,
        kv_base,
        rows,
    };
    assert(ids == sdpa_ids(n0));
    Block::new()
        .s(tg_decl(0, tile * hd))
        .s(tg_decl(1, tile * hd))
        .s(th_decl(0, n_own))
        .s(th_decl(1, n_own))
        .s(let_u(head, over(lid(), cu(32))))
        .s(let_u(lane, minus(lid(), times(uv(head), cu(32)))))
        .s(let_u(ids.base, times(uv(lane), cu(n_own as u32))))
        .s(let_f(tlen_f, ld(3, cu(0), q_dt)))
        .s(let_f(start_f, ld(3, cu(1), q_dt)))
        .s(let_u(ids.tlen, to_uint(v(tlen_f))))
        .s(let_u(ids.start, to_uint(v(start_f))))
        .s(let_u(q_base, times(uv(head), cu(hd as u32))))
        .s(let_f(ids.m, c(LOWEST)))
        .s(let_f(ids.lsum, c(ZERO)))
        .each(iq, n_own, Block::new()
            .s(th_store(0, fv(iq), ld(0, plus(uv(q_base), plus(uv(ids.base), fv(iq))), q_dt)))
            .s(th_store(1, fv(iq), c(ZERO))))
        .s(let_u(ids.t_base, cu(0)))
        .range(ids.t_base, uv(ids.tlen), cu(tile as u32), lower_pass(ids, hd, kv_dt, tg, tile))
        .s(let_f(inv_l, over(c(ONE), v(ids.lsum))))
        .each(iw, n_own, Block::new()
            .s(store(4, plus(uv(q_base), plus(uv(ids.base), fv(iw))), times(th_load(1, fv(iw)), v(inv_l)))))
}

} // verus!
