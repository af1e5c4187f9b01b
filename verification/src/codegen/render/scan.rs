//! What a kernel body uses: which packed types its buffers hold, which helpers
//! it calls, and which constants it mentions.

use vstd::prelude::*;

use crate::ir::dtype::{DType, Scalar};
use crate::ir::kernel::{block_of, code_of, Code, KirExpr, KirStmt};

verus! {

/// Whether an expression reads the buffer `buf` as Q4_K weights.
pub open spec fn q4_in_expr(e: KirExpr, buf: u32) -> bool
    decreases e,
{
    match e {
        KirExpr::Load { buf: b, idx, dtype } => {
            (dtype == DType::Q4K && b == buf) || q4_in_expr(*idx, buf)
        },
        KirExpr::VecMulSum { a_buf, a_idx, b_idx, dtype, .. } => {
            (dtype == DType::Q4K && a_buf == buf)
                || q4_in_expr(*a_idx, buf)
                || q4_in_expr(*b_idx, buf)
        },
        KirExpr::TgLoad { idx, .. } | KirExpr::ThreadLoad { idx, .. } => q4_in_expr(*idx, buf),
        KirExpr::CastU32ToF32(a) | KirExpr::CastF32ToU32(a) | KirExpr::SimdSum(a) => {
            q4_in_expr(*a, buf)
        },
        KirExpr::Unary { a, .. } => q4_in_expr(*a, buf),
        KirExpr::Q4kCoopFrag { w_buf, row_base, ib, lane, .. } => {
            w_buf == buf
                || q4_in_expr(*row_base, buf)
                || q4_in_expr(*ib, buf)
                || q4_in_expr(*lane, buf)
        },
        KirExpr::Q6kCoopFrag { row_base, ib, x_off, lane, .. } => {
            q4_in_expr(*row_base, buf)
                || q4_in_expr(*ib, buf)
                || q4_in_expr(*x_off, buf)
                || q4_in_expr(*lane, buf)
        },
        KirExpr::Bin { a, b, .. } | KirExpr::CmpGt { a, b } | KirExpr::CmpEq { a, b } => {
            q4_in_expr(*a, buf) || q4_in_expr(*b, buf)
        },
        _ => false,
    }
}

/// The same of a statement without a block.
pub open spec fn q4_in_flat(s: KirStmt, buf: u32) -> bool {
    match s {
        KirStmt::Let { expr, .. } => q4_in_expr(expr, buf),
        KirStmt::LetU32 { expr, .. } => q4_in_expr(expr, buf),
        KirStmt::Assign { expr, .. } => q4_in_expr(expr, buf),
        KirStmt::Store { idx, val, .. } => q4_in_expr(idx, buf) || q4_in_expr(val, buf),
        KirStmt::TgStore { idx, val, .. } => q4_in_expr(idx, buf) || q4_in_expr(val, buf),
        KirStmt::ThreadStore { idx, val, .. } => q4_in_expr(idx, buf) || q4_in_expr(val, buf),
        KirStmt::Q4kCoopNr4 { w_buf, row0_base, ib, lane, .. } => {
            w_buf == buf
                || q4_in_expr(row0_base, buf)
                || q4_in_expr(ib, buf)
                || q4_in_expr(lane, buf)
        },
        KirStmt::Q4kCoopNr4Dual { row0_base, ib, lane, .. } => {
            buf <= 1 || q4_in_expr(row0_base, buf) || q4_in_expr(ib, buf) || q4_in_expr(lane, buf)
        },
        KirStmt::Q6kCoopNr4 { row0_base, ib, x_off, lane, .. } => {
            q4_in_expr(row0_base, buf)
                || q4_in_expr(ib, buf)
                || q4_in_expr(x_off, buf)
                || q4_in_expr(lane, buf)
        },
        KirStmt::Q40PackBlock { block, src_elem, .. } => {
            q4_in_expr(block, buf) || q4_in_expr(src_elem, buf)
        },
        KirStmt::Q40PackFromThread { block, th_off, .. } => {
            q4_in_expr(block, buf) || q4_in_expr(th_off, buf)
        },
        KirStmt::Q40DequantToTg { tg_off, src_elem, .. } => {
            q4_in_expr(tg_off, buf) || q4_in_expr(src_elem, buf)
        },
        KirStmt::TgStoreF4FromLoad { tg_off, src_elem, .. } => {
            q4_in_expr(tg_off, buf) || q4_in_expr(src_elem, buf)
        },
        _ => false,
    }
}

/// The same of a statement.
pub open spec fn q4_in_code(c: Code, buf: u32) -> bool
    decreases c,
{
    match c {
        Code::For { body, .. } => q4_in_block(body, buf),
        Code::If { body, .. } => q4_in_block(body, buf),
        Code::ForRange { limit_off, bound, step, body, .. } => {
            q4_in_expr(limit_off, buf)
                || q4_in_expr(bound, buf)
                || q4_in_expr(step, buf)
                || q4_in_block(body, buf)
        },
        Code::Flat(s) => q4_in_flat(s, buf),
    }
}

/// The same of a block: of one of its statements.
pub open spec fn q4_in_block(b: Seq<Code>, buf: u32) -> bool
    decreases b,
{
    b.len() > 0 && (q4_in_block(b.drop_last(), buf) || q4_in_code(b.last(), buf))
}

fn walk_expr_q4(e: &KirExpr, buf: u32) -> (r: bool)
    ensures
        r == q4_in_expr(*e, buf),
    decreases *e,
{
    match e {
        KirExpr::Load { buf: b, idx, dtype } => {
            (*dtype == DType::Q4K && *b == buf) || walk_expr_q4(idx, buf)
        },
        KirExpr::VecMulSum { a_buf, a_idx, b_idx, dtype, .. } => {
            (*dtype == DType::Q4K && *a_buf == buf)
                || walk_expr_q4(a_idx, buf)
                || walk_expr_q4(b_idx, buf)
        },
        KirExpr::TgLoad { idx, .. } | KirExpr::ThreadLoad { idx, .. } => walk_expr_q4(idx, buf),
        KirExpr::CastU32ToF32(a) | KirExpr::CastF32ToU32(a) | KirExpr::SimdSum(a) => {
            walk_expr_q4(a, buf)
        },
        KirExpr::Unary { a, .. } => walk_expr_q4(a, buf),
        KirExpr::Q4kCoopFrag { w_buf, row_base, ib, lane, .. } => {
            *w_buf == buf
                || walk_expr_q4(row_base, buf)
                || walk_expr_q4(ib, buf)
                || walk_expr_q4(lane, buf)
        },
        KirExpr::Q6kCoopFrag { row_base, ib, x_off, lane, .. } => {
            walk_expr_q4(row_base, buf)
                || walk_expr_q4(ib, buf)
                || walk_expr_q4(x_off, buf)
                || walk_expr_q4(lane, buf)
        },
        KirExpr::Bin { a, b, .. } | KirExpr::CmpGt { a, b } | KirExpr::CmpEq { a, b } => {
            walk_expr_q4(a, buf) || walk_expr_q4(b, buf)
        },
        _ => false,
    }
}

fn q4_flat(s: &KirStmt, buf: u32) -> (r: bool)
    ensures
        r == q4_in_flat(*s, buf),
{
    match s {
        KirStmt::Let { expr, .. } => walk_expr_q4(expr, buf),
        KirStmt::LetU32 { expr, .. } => walk_expr_q4(expr, buf),
        KirStmt::Assign { expr, .. } => walk_expr_q4(expr, buf),
        KirStmt::Store { idx, val, .. } => walk_expr_q4(idx, buf) || walk_expr_q4(val, buf),
        KirStmt::TgStore { idx, val, .. } => walk_expr_q4(idx, buf) || walk_expr_q4(val, buf),
        KirStmt::ThreadStore { idx, val, .. } => walk_expr_q4(idx, buf) || walk_expr_q4(val, buf),
        KirStmt::Q4kCoopNr4 { w_buf, row0_base, ib, lane, .. } => {
            *w_buf == buf
                || walk_expr_q4(row0_base, buf)
                || walk_expr_q4(ib, buf)
                || walk_expr_q4(lane, buf)
        },
        KirStmt::Q4kCoopNr4Dual { row0_base, ib, lane, .. } => {
            buf <= 1
                || walk_expr_q4(row0_base, buf)
                || walk_expr_q4(ib, buf)
                || walk_expr_q4(lane, buf)
        },
        KirStmt::Q6kCoopNr4 { row0_base, ib, x_off, lane, .. } => {
            walk_expr_q4(row0_base, buf)
                || walk_expr_q4(ib, buf)
                || walk_expr_q4(x_off, buf)
                || walk_expr_q4(lane, buf)
        },
        KirStmt::Q40PackBlock { block, src_elem, .. } => {
            walk_expr_q4(block, buf) || walk_expr_q4(src_elem, buf)
        },
        KirStmt::Q40PackFromThread { block, th_off, .. } => {
            walk_expr_q4(block, buf) || walk_expr_q4(th_off, buf)
        },
        KirStmt::Q40DequantToTg { tg_off, src_elem, .. } => {
            walk_expr_q4(tg_off, buf) || walk_expr_q4(src_elem, buf)
        },
        KirStmt::TgStoreF4FromLoad { tg_off, src_elem, .. } => {
            walk_expr_q4(tg_off, buf) || walk_expr_q4(src_elem, buf)
        },
        _ => false,
    }
}

fn q4_stmt(s: &KirStmt, buf: u32) -> (r: bool)
    ensures
        r == q4_in_code(code_of(*s), buf),
    decreases *s,
{
    match s {
        KirStmt::For { body, .. } => buf_is_q4(body, buf),
        KirStmt::If { body, .. } => buf_is_q4(body, buf),
        KirStmt::ForRange { limit_off, bound, step, body, .. } => {
            walk_expr_q4(limit_off, buf)
                || walk_expr_q4(bound, buf)
                || walk_expr_q4(step, buf)
                || buf_is_q4(body, buf)
        },
        _ => q4_flat(s, buf),
    }
}

pub fn buf_is_q4(stmts: &Vec<KirStmt>, buf: u32) -> (r: bool)
    ensures
        r == q4_in_block(block_of(stmts@), buf),
    decreases stmts@,
{
    let ghost all = block_of(stmts@);
    let mut i: usize = 0;
    while i < stmts.len()
        invariant
            i <= stmts@.len(),
            all == block_of(stmts@),
            !q4_in_block(all.take(i as int), buf),
        decreases stmts@.len() - i,
    {
        assert(all.take(i + 1).drop_last() =~= all.take(i as int));
        if q4_stmt(&stmts[i], buf) {
            proof {
                lemma_q4_prefix(all, buf, i + 1);
            }
            return true;
        }
        i += 1;
    }
    assert(all.take(all.len() as int) =~= all);
    false
}

proof fn lemma_q4_prefix(b: Seq<Code>, buf: u32, k: int)
    requires
        0 <= k <= b.len(),
        q4_in_block(b.take(k), buf),
    ensures
        q4_in_block(b, buf),
    decreases b.len(),
{
    if k == b.len() {
        assert(b.take(k) =~= b);
    } else {
        assert(b.drop_last().take(k) =~= b.take(k));
        lemma_q4_prefix(b.drop_last(), buf, k);
    }
}

/// Whether one of the first eight buffers does.
pub open spec fn needs_q4(b: Seq<Code>) -> bool {
    exists|buf: u32| buf < 8 && #[trigger] q4_in_block(b, buf)
}

pub fn body_needs_q4(stmts: &Vec<KirStmt>) -> (r: bool)
    ensures
        r == needs_q4(block_of(stmts@)),
{
    let mut buf: u32 = 0;
    while buf < 8
        invariant
            buf <= 8,
            forall|k: u32| k < buf ==> !#[trigger] q4_in_block(block_of(stmts@), k),
        decreases 8 - buf,
    {
        if buf_is_q4(stmts, buf) {
            return true;
        }
        buf += 1;
    }
    false
}

/// Whether an expression reads the buffer `buf` as Q6_K weights.
pub open spec fn q6_in_expr(e: KirExpr, buf: u32) -> bool
    decreases e,
{
    match e {
        KirExpr::Load { buf: b, idx, dtype } => if dtype == DType::Q6K {
            b == buf
        } else {
            q6_in_expr(*idx, buf)
        },
        KirExpr::VecMulSum { a_buf, a_idx, b_idx, dtype, .. } => {
            (dtype == DType::Q6K && a_buf == buf)
                || q6_in_expr(*a_idx, buf)
                || q6_in_expr(*b_idx, buf)
        },
        KirExpr::TgLoad { idx, .. } | KirExpr::ThreadLoad { idx, .. } => q6_in_expr(*idx, buf),
        KirExpr::CastU32ToF32(a) | KirExpr::CastF32ToU32(a) | KirExpr::SimdSum(a) => {
            q6_in_expr(*a, buf)
        },
        KirExpr::Unary { a, .. } => q6_in_expr(*a, buf),
        KirExpr::Q4kCoopFrag { row_base, ib, lane, .. } => {
            q6_in_expr(*row_base, buf) || q6_in_expr(*ib, buf) || q6_in_expr(*lane, buf)
        },
        KirExpr::Q6kCoopFrag { w_buf, row_base, ib, x_off, lane, .. } => {
            w_buf == buf
                || q6_in_expr(*row_base, buf)
                || q6_in_expr(*ib, buf)
                || q6_in_expr(*x_off, buf)
                || q6_in_expr(*lane, buf)
        },
        KirExpr::Bin { a, b, .. } | KirExpr::CmpGt { a, b } | KirExpr::CmpEq { a, b } => {
            q6_in_expr(*a, buf) || q6_in_expr(*b, buf)
        },
        _ => false,
    }
}

/// The same of a statement without a block.
pub open spec fn q6_in_flat(s: KirStmt, buf: u32) -> bool {
    match s {
        KirStmt::Let { expr, .. } => q6_in_expr(expr, buf),
        KirStmt::LetU32 { expr, .. } => q6_in_expr(expr, buf),
        KirStmt::Assign { expr, .. } => q6_in_expr(expr, buf),
        KirStmt::Store { idx, val, .. } => q6_in_expr(idx, buf) || q6_in_expr(val, buf),
        KirStmt::TgStore { idx, val, .. } => q6_in_expr(idx, buf) || q6_in_expr(val, buf),
        KirStmt::ThreadStore { idx, val, .. } => q6_in_expr(idx, buf) || q6_in_expr(val, buf),
        KirStmt::Q4kCoopNr4 { row0_base, ib, lane, .. } => {
            q6_in_expr(row0_base, buf) || q6_in_expr(ib, buf) || q6_in_expr(lane, buf)
        },
        KirStmt::Q4kCoopNr4Dual { row0_base, ib, lane, .. } => {
            q6_in_expr(row0_base, buf) || q6_in_expr(ib, buf) || q6_in_expr(lane, buf)
        },
        KirStmt::Q6kCoopNr4 { w_buf, row0_base, ib, x_off, lane, .. } => {
            w_buf == buf
                || q6_in_expr(row0_base, buf)
                || q6_in_expr(ib, buf)
                || q6_in_expr(x_off, buf)
                || q6_in_expr(lane, buf)
        },
        KirStmt::Q40PackBlock { block, src_elem, .. } => {
            q6_in_expr(block, buf) || q6_in_expr(src_elem, buf)
        },
        KirStmt::Q40PackFromThread { block, th_off, .. } => {
            q6_in_expr(block, buf) || q6_in_expr(th_off, buf)
        },
        KirStmt::Q40DequantToTg { tg_off, src_elem, .. } => {
            q6_in_expr(tg_off, buf) || q6_in_expr(src_elem, buf)
        },
        KirStmt::TgStoreF4FromLoad { tg_off, src_elem, .. } => {
            q6_in_expr(tg_off, buf) || q6_in_expr(src_elem, buf)
        },
        _ => false,
    }
}

/// The same of a statement.
pub open spec fn q6_in_code(c: Code, buf: u32) -> bool
    decreases c,
{
    match c {
        Code::For { body, .. } => q6_in_block(body, buf),
        Code::If { body, .. } => q6_in_block(body, buf),
        Code::ForRange { limit_off, bound, step, body, .. } => {
            q6_in_expr(limit_off, buf)
                || q6_in_expr(bound, buf)
                || q6_in_expr(step, buf)
                || q6_in_block(body, buf)
        },
        Code::Flat(s) => q6_in_flat(s, buf),
    }
}

/// The same of a block: of one of its statements.
pub open spec fn q6_in_block(b: Seq<Code>, buf: u32) -> bool
    decreases b,
{
    b.len() > 0 && (q6_in_block(b.drop_last(), buf) || q6_in_code(b.last(), buf))
}

fn walk_expr_q6(e: &KirExpr, buf: u32) -> (r: bool)
    ensures
        r == q6_in_expr(*e, buf),
    decreases *e,
{
    match e {
        KirExpr::Load { buf: b, idx, dtype } => if *dtype == DType::Q6K {
            *b == buf
        } else {
            walk_expr_q6(idx, buf)
        },
        KirExpr::VecMulSum { a_buf, a_idx, b_idx, dtype, .. } => {
            (*dtype == DType::Q6K && *a_buf == buf)
                || walk_expr_q6(a_idx, buf)
                || walk_expr_q6(b_idx, buf)
        },
        KirExpr::TgLoad { idx, .. } | KirExpr::ThreadLoad { idx, .. } => walk_expr_q6(idx, buf),
        KirExpr::CastU32ToF32(a) | KirExpr::CastF32ToU32(a) | KirExpr::SimdSum(a) => {
            walk_expr_q6(a, buf)
        },
        KirExpr::Unary { a, .. } => walk_expr_q6(a, buf),
        KirExpr::Q4kCoopFrag { row_base, ib, lane, .. } => {
            walk_expr_q6(row_base, buf) || walk_expr_q6(ib, buf) || walk_expr_q6(lane, buf)
        },
        KirExpr::Q6kCoopFrag { w_buf, row_base, ib, x_off, lane, .. } => {
            *w_buf == buf
                || walk_expr_q6(row_base, buf)
                || walk_expr_q6(ib, buf)
                || walk_expr_q6(x_off, buf)
                || walk_expr_q6(lane, buf)
        },
        KirExpr::Bin { a, b, .. } | KirExpr::CmpGt { a, b } | KirExpr::CmpEq { a, b } => {
            walk_expr_q6(a, buf) || walk_expr_q6(b, buf)
        },
        _ => false,
    }
}

fn q6_flat(s: &KirStmt, buf: u32) -> (r: bool)
    ensures
        r == q6_in_flat(*s, buf),
{
    match s {
        KirStmt::Let { expr, .. } => walk_expr_q6(expr, buf),
        KirStmt::LetU32 { expr, .. } => walk_expr_q6(expr, buf),
        KirStmt::Assign { expr, .. } => walk_expr_q6(expr, buf),
        KirStmt::Store { idx, val, .. } => walk_expr_q6(idx, buf) || walk_expr_q6(val, buf),
        KirStmt::TgStore { idx, val, .. } => walk_expr_q6(idx, buf) || walk_expr_q6(val, buf),
        KirStmt::ThreadStore { idx, val, .. } => walk_expr_q6(idx, buf) || walk_expr_q6(val, buf),
        KirStmt::Q4kCoopNr4 { row0_base, ib, lane, .. } => {
            walk_expr_q6(row0_base, buf) || walk_expr_q6(ib, buf) || walk_expr_q6(lane, buf)
        },
        KirStmt::Q4kCoopNr4Dual { row0_base, ib, lane, .. } => {
            walk_expr_q6(row0_base, buf) || walk_expr_q6(ib, buf) || walk_expr_q6(lane, buf)
        },
        KirStmt::Q6kCoopNr4 { w_buf, row0_base, ib, x_off, lane, .. } => {
            *w_buf == buf
                || walk_expr_q6(row0_base, buf)
                || walk_expr_q6(ib, buf)
                || walk_expr_q6(x_off, buf)
                || walk_expr_q6(lane, buf)
        },
        KirStmt::Q40PackBlock { block, src_elem, .. } => {
            walk_expr_q6(block, buf) || walk_expr_q6(src_elem, buf)
        },
        KirStmt::Q40PackFromThread { block, th_off, .. } => {
            walk_expr_q6(block, buf) || walk_expr_q6(th_off, buf)
        },
        KirStmt::Q40DequantToTg { tg_off, src_elem, .. } => {
            walk_expr_q6(tg_off, buf) || walk_expr_q6(src_elem, buf)
        },
        KirStmt::TgStoreF4FromLoad { tg_off, src_elem, .. } => {
            walk_expr_q6(tg_off, buf) || walk_expr_q6(src_elem, buf)
        },
        _ => false,
    }
}

fn q6_stmt(s: &KirStmt, buf: u32) -> (r: bool)
    ensures
        r == q6_in_code(code_of(*s), buf),
    decreases *s,
{
    match s {
        KirStmt::For { body, .. } => buf_is_q6(body, buf),
        KirStmt::If { body, .. } => buf_is_q6(body, buf),
        KirStmt::ForRange { limit_off, bound, step, body, .. } => {
            walk_expr_q6(limit_off, buf)
                || walk_expr_q6(bound, buf)
                || walk_expr_q6(step, buf)
                || buf_is_q6(body, buf)
        },
        _ => q6_flat(s, buf),
    }
}

pub fn buf_is_q6(stmts: &Vec<KirStmt>, buf: u32) -> (r: bool)
    ensures
        r == q6_in_block(block_of(stmts@), buf),
    decreases stmts@,
{
    let ghost all = block_of(stmts@);
    let mut i: usize = 0;
    while i < stmts.len()
        invariant
            i <= stmts@.len(),
            all == block_of(stmts@),
            !q6_in_block(all.take(i as int), buf),
        decreases stmts@.len() - i,
    {
        assert(all.take(i + 1).drop_last() =~= all.take(i as int));
        if q6_stmt(&stmts[i], buf) {
            proof {
                lemma_q6_prefix(all, buf, i + 1);
            }
            return true;
        }
        i += 1;
    }
    assert(all.take(all.len() as int) =~= all);
    false
}

proof fn lemma_q6_prefix(b: Seq<Code>, buf: u32, k: int)
    requires
        0 <= k <= b.len(),
        q6_in_block(b.take(k), buf),
    ensures
        q6_in_block(b, buf),
    decreases b.len(),
{
    if k == b.len() {
        assert(b.take(k) =~= b);
    } else {
        assert(b.drop_last().take(k) =~= b.take(k));
        lemma_q6_prefix(b.drop_last(), buf, k);
    }
}

/// Whether one of the first eight buffers does.
pub open spec fn needs_q6(b: Seq<Code>) -> bool {
    exists|buf: u32| buf < 8 && #[trigger] q6_in_block(b, buf)
}

pub fn body_needs_q6(stmts: &Vec<KirStmt>) -> (r: bool)
    ensures
        r == needs_q6(block_of(stmts@)),
{
    let mut buf: u32 = 0;
    while buf < 8
        invariant
            buf <= 8,
            forall|k: u32| k < buf ==> !#[trigger] q6_in_block(block_of(stmts@), k),
        decreases 8 - buf,
    {
        if buf_is_q6(stmts, buf) {
            return true;
        }
        buf += 1;
    }
    false
}

/// Whether an expression reads Q4_0 blocks.
pub open spec fn q40_in_expr(e: KirExpr) -> bool
    decreases e,
{
    match e {
        KirExpr::Load { idx, dtype, .. } => dtype == DType::Q40 || q40_in_expr(*idx),
        KirExpr::VecMulSum { a_idx, b_idx, dtype, .. } => {
            dtype == DType::Q40 || q40_in_expr(*a_idx) || q40_in_expr(*b_idx)
        },
        KirExpr::TgLoad { idx, .. } => q40_in_expr(*idx),
        KirExpr::ThreadLoad { idx, .. } => q40_in_expr(*idx),
        KirExpr::CastU32ToF32(a) => q40_in_expr(*a),
        KirExpr::CastF32ToU32(a) => q40_in_expr(*a),
        KirExpr::SimdSum(a) => q40_in_expr(*a),
        KirExpr::Unary { a, .. } => q40_in_expr(*a),
        KirExpr::Bin { a, b, .. } => q40_in_expr(*a) || q40_in_expr(*b),
        KirExpr::CmpGt { a, b } => q40_in_expr(*a) || q40_in_expr(*b),
        KirExpr::CmpEq { a, b } => q40_in_expr(*a) || q40_in_expr(*b),
        KirExpr::Q4kCoopFrag { row_base, ib, lane, .. } => {
            q40_in_expr(*row_base) || q40_in_expr(*ib) || q40_in_expr(*lane)
        },
        KirExpr::Q6kCoopFrag { row_base, ib, x_off, lane, .. } => {
            q40_in_expr(*row_base) || q40_in_expr(*ib) || q40_in_expr(*x_off) || q40_in_expr(*lane)
        },
        _ => false,
    }
}

/// Whether a statement without a block reads or writes Q4_0 blocks.
pub open spec fn q40_in_flat(s: KirStmt) -> bool {
    match s {
        KirStmt::Q40PackBlock { .. } | KirStmt::Q40PackFromThread { .. } | KirStmt::Q40DequantToTg { .. } => {
            true
        },
        KirStmt::TgStoreF4FromLoad { dtype, .. } => dtype == DType::Q40,
        KirStmt::Let { expr, .. } | KirStmt::LetU32 { expr, .. } | KirStmt::Assign { expr, .. } => {
            q40_in_expr(expr)
        },
        KirStmt::Store {
            idx,
            val,
            ..
        } | KirStmt::TgStore { idx, val, .. } | KirStmt::ThreadStore { idx, val, .. } => {
            q40_in_expr(idx) || q40_in_expr(val)
        },
        _ => false,
    }
}

/// The same of a statement; conditions and bounds are not looked at.
pub open spec fn q40_in_code(c: Code) -> bool
    decreases c,
{
    match c {
        Code::For { body, .. } => needs_q40(body),
        Code::If { body, .. } => needs_q40(body),
        Code::ForRange { body, .. } => needs_q40(body),
        Code::Flat(s) => q40_in_flat(s),
    }
}

/// The same of a block: of one of its statements.
pub open spec fn needs_q40(b: Seq<Code>) -> bool
    decreases b,
{
    b.len() > 0 && (needs_q40(b.drop_last()) || q40_in_code(b.last()))
}

fn expr_needs_q40(e: &KirExpr) -> (r: bool)
    ensures
        r == q40_in_expr(*e),
    decreases *e,
{
    match e {
        KirExpr::Load { idx, dtype, .. } => *dtype == DType::Q40 || expr_needs_q40(idx),
        KirExpr::VecMulSum { a_idx, b_idx, dtype, .. } => {
            *dtype == DType::Q40 || expr_needs_q40(a_idx) || expr_needs_q40(b_idx)
        },
        KirExpr::TgLoad { idx, .. } => expr_needs_q40(idx),
        KirExpr::ThreadLoad { idx, .. } => expr_needs_q40(idx),
        KirExpr::CastU32ToF32(a) => expr_needs_q40(a),
        KirExpr::CastF32ToU32(a) => expr_needs_q40(a),
        KirExpr::SimdSum(a) => expr_needs_q40(a),
        KirExpr::Unary { a, .. } => expr_needs_q40(a),
        KirExpr::Bin { a, b, .. } => expr_needs_q40(a) || expr_needs_q40(b),
        KirExpr::CmpGt { a, b } => expr_needs_q40(a) || expr_needs_q40(b),
        KirExpr::CmpEq { a, b } => expr_needs_q40(a) || expr_needs_q40(b),
        KirExpr::Q4kCoopFrag { row_base, ib, lane, .. } => {
            expr_needs_q40(row_base) || expr_needs_q40(ib) || expr_needs_q40(lane)
        },
        KirExpr::Q6kCoopFrag { row_base, ib, x_off, lane, .. } => {
            expr_needs_q40(row_base)
                || expr_needs_q40(ib)
                || expr_needs_q40(x_off)
                || expr_needs_q40(lane)
        },
        _ => false,
    }
}

fn q40_stmt(s: &KirStmt) -> (r: bool)
    ensures
        r == q40_in_code(code_of(*s)),
    decreases *s,
{
    match s {
        KirStmt::For { body, .. } => body_needs_q40(body),
        KirStmt::If { body, .. } => body_needs_q40(body),
        KirStmt::ForRange { body, .. } => body_needs_q40(body),
        KirStmt::Q40PackBlock { .. } | KirStmt::Q40PackFromThread { .. } | KirStmt::Q40DequantToTg { .. } => {
            true
        },
        KirStmt::TgStoreF4FromLoad { dtype, .. } => *dtype == DType::Q40,
        KirStmt::Let { expr, .. } | KirStmt::LetU32 { expr, .. } | KirStmt::Assign { expr, .. } => {
            expr_needs_q40(expr)
        },
        KirStmt::Store {
            idx,
            val,
            ..
        } | KirStmt::TgStore { idx, val, .. } | KirStmt::ThreadStore { idx, val, .. } => {
            expr_needs_q40(idx) || expr_needs_q40(val)
        },
        _ => false,
    }
}

pub fn body_needs_q40(stmts: &Vec<KirStmt>) -> (r: bool)
    ensures
        r == needs_q40(block_of(stmts@)),
    decreases stmts@,
{
    let ghost all = block_of(stmts@);
    let mut i: usize = 0;
    while i < stmts.len()
        invariant
            i <= stmts@.len(),
            all == block_of(stmts@),
            !needs_q40(all.take(i as int)),
        decreases stmts@.len() - i,
    {
        assert(all.take(i + 1).drop_last() =~= all.take(i as int));
        if q40_stmt(&stmts[i]) {
            proof {
                lemma_q40_prefix(all, i + 1);
            }
            return true;
        }
        i += 1;
    }
    assert(all.take(all.len() as int) =~= all);
    false
}

proof fn lemma_q40_prefix(b: Seq<Code>, k: int)
    requires
        0 <= k <= b.len(),
        needs_q40(b.take(k)),
    ensures
        needs_q40(b),
    decreases b.len(),
{
    if k == b.len() {
        assert(b.take(k) =~= b);
    } else {
        assert(b.drop_last().take(k) =~= b.take(k));
        lemma_q40_prefix(b.drop_last(), k);
    }
}

/// The types with that of buffer `buf` changed, if there is such an input.
pub open spec fn with_type(d: Seq<DType>, buf: u32, dtype: DType) -> Seq<DType> {
    if buf < d.len() {
        d.update(buf as int, dtype)
    } else {
        d
    }
}

fn note_type(d: &mut Vec<DType>, buf: u32, dtype: DType)
    ensures
        final(d)@ == with_type(old(d)@, buf, dtype),
{
    if (buf as usize) < d.len() {
        d.set(buf as usize, dtype);
    }
}

/// The types with that of the activations half precision, unless they are staged.
pub open spec fn with_half(d: Seq<DType>, staged: Option<u32>, x_buf: u32) -> Seq<DType> {
    if staged is None {
        with_type(d, x_buf, DType::F16)
    } else {
        d
    }
}

fn note_half(d: &mut Vec<DType>, staged: Option<u32>, x_buf: u32)
    ensures
        final(d)@ == with_half(old(d)@, staged, x_buf),
{
    if staged.is_none() {
        note_type(d, x_buf, DType::F16);
    }
}

/// The element types of the inputs after an expression was read: each load tells one.
pub open spec fn expr_types(e: KirExpr, d: Seq<DType>) -> Seq<DType>
    decreases e,
{
    match e {
        KirExpr::Load { buf, idx, dtype } => expr_types(*idx, with_type(d, buf, dtype)),
        KirExpr::VecMulSum { a_buf, a_idx, b_buf, b_idx, dtype, b_from_tg, .. } => {
            let d1 = with_type(d, a_buf, dtype);
            let d2 = if b_from_tg is None && dtype.is_float() {
                with_type(d1, b_buf, dtype)
            } else {
                d1
            };
            expr_types(*b_idx, expr_types(*a_idx, d2))
        },
        KirExpr::TgLoad { idx, .. } | KirExpr::ThreadLoad { idx, .. } => expr_types(*idx, d),
        KirExpr::CastU32ToF32(a) | KirExpr::CastF32ToU32(a) | KirExpr::SimdSum(a) => {
            expr_types(*a, d)
        },
        KirExpr::Unary { a, .. } => expr_types(*a, d),
        KirExpr::Q4kCoopFrag { w_buf, row_base, ib, lane, .. } => {
            expr_types(
                *lane,
                expr_types(*ib, expr_types(*row_base, with_type(d, w_buf, DType::Q4K))),
            )
        },
        KirExpr::Q6kCoopFrag { w_buf, row_base, ib, b_from_tg, x_buf, lane, .. } => {
            expr_types(
                *lane,
                expr_types(
                    *ib,
                    expr_types(
                        *row_base,
                        with_half(with_type(d, w_buf, DType::Q6K), b_from_tg, x_buf),
                    ),
                ),
            )
        },
        KirExpr::Bin { a, b, .. } | KirExpr::CmpGt { a, b } | KirExpr::CmpEq { a, b } => {
            expr_types(*b, expr_types(*a, d))
        },
        _ => d,
    }
}

fn infer_load_expr(e: &KirExpr, d: &mut Vec<DType>)
    ensures
        final(d)@ == expr_types(*e, old(d)@),
    decreases *e,
{
    match e {
        KirExpr::Load { buf, idx, dtype } => {
            note_type(d, *buf, *dtype);
            infer_load_expr(idx, d);
        },
        KirExpr::VecMulSum { a_buf, a_idx, b_buf, b_idx, dtype, b_from_tg, .. } => {
            note_type(d, *a_buf, *dtype);
            if b_from_tg.is_none() && dtype.is_float() {
                note_type(d, *b_buf, *dtype);
            }
            infer_load_expr(a_idx, d);
            infer_load_expr(b_idx, d);
        },
        KirExpr::TgLoad { idx, .. } | KirExpr::ThreadLoad { idx, .. } => infer_load_expr(idx, d),
        KirExpr::CastU32ToF32(a) | KirExpr::CastF32ToU32(a) | KirExpr::SimdSum(a) => {
            infer_load_expr(a, d)
        },
        KirExpr::Unary { a, .. } => infer_load_expr(a, d),
        KirExpr::Q4kCoopFrag { w_buf, row_base, ib, lane, .. } => {
            note_type(d, *w_buf, DType::Q4K);
            infer_load_expr(row_base, d);
            infer_load_expr(ib, d);
            infer_load_expr(lane, d);
        },
        KirExpr::Q6kCoopFrag { w_buf, row_base, ib, b_from_tg, x_buf, lane, .. } => {
            note_type(d, *w_buf, DType::Q6K);
            note_half(d, *b_from_tg, *x_buf);
            infer_load_expr(row_base, d);
            infer_load_expr(ib, d);
            infer_load_expr(lane, d);
        },
        KirExpr::Bin { a, b, .. } | KirExpr::CmpGt { a, b } | KirExpr::CmpEq { a, b } => {
            infer_load_expr(a, d);
            infer_load_expr(b, d);
        },
        _ => {},
    }
}

/// The element types of the inputs after a statement without a block was read.
pub open spec fn flat_types(s: KirStmt, d: Seq<DType>) -> Seq<DType> {
    match s {
        KirStmt::Let { expr, .. } | KirStmt::LetU32 { expr, .. } | KirStmt::Assign { expr, .. } => {
            expr_types(expr, d)
        },
        KirStmt::Store {
            idx,
            val,
            ..
        } | KirStmt::TgStore { idx, val, .. } | KirStmt::ThreadStore { idx, val, .. } => {
            expr_types(val, expr_types(idx, d))
        },
        KirStmt::Q4kCoopNr4 { w_buf, row0_base, ib, b_from_tg, x_buf, lane, .. } => {
            expr_types(
                lane,
                expr_types(
                    ib,
                    expr_types(
                        row0_base,
                        with_half(with_type(d, w_buf, DType::Q4K), b_from_tg, x_buf),
                    ),
                ),
            )
        },
        KirStmt::Q4kCoopNr4Dual { row0_base, ib, b_from_tg, x_buf, lane, .. } => {
            expr_types(
                lane,
                expr_types(
                    ib,
                    expr_types(
                        row0_base,
                        with_half(
                            with_type(with_type(d, 0, DType::Q4K), 1, DType::Q4K),
                            b_from_tg,
                            x_buf,
                        ),
                    ),
                ),
            )
        },
        KirStmt::Q6kCoopNr4 { w_buf, row0_base, ib, b_from_tg, x_buf, lane, .. } => {
            expr_types(
                lane,
                expr_types(
                    ib,
                    expr_types(
                        row0_base,
                        with_half(with_type(d, w_buf, DType::Q6K), b_from_tg, x_buf),
                    ),
                ),
            )
        },
        KirStmt::Q40PackBlock { block, src_buf, src_elem, .. } => {
            expr_types(src_elem, expr_types(block, with_type(d, src_buf, DType::F16)))
        },
        KirStmt::Q40PackFromThread { block, th_off, .. } => {
            expr_types(th_off, expr_types(block, d))
        },
        KirStmt::Q40DequantToTg { tg_off, src_buf, src_elem, .. } => {
            expr_types(src_elem, expr_types(tg_off, with_type(d, src_buf, DType::Q40)))
        },
        KirStmt::TgStoreF4FromLoad { tg_off, src_buf, src_elem, dtype, .. } => {
            expr_types(src_elem, expr_types(tg_off, with_type(d, src_buf, dtype)))
        },
        _ => d,
    }
}

fn infer_flat(s: &KirStmt, d: &mut Vec<DType>)
    ensures
        final(d)@ == flat_types(*s, old(d)@),
{
    match s {
        KirStmt::Let { expr, .. } | KirStmt::LetU32 { expr, .. } | KirStmt::Assign { expr, .. } => {
            infer_load_expr(expr, d)
        },
        KirStmt::Store {
            idx,
            val,
            ..
        } | KirStmt::TgStore { idx, val, .. } | KirStmt::ThreadStore { idx, val, .. } => {
            infer_load_expr(idx, d);
            infer_load_expr(val, d);
        },
        KirStmt::Q4kCoopNr4 { w_buf, row0_base, ib, b_from_tg, x_buf, lane, .. } => {
            note_type(d, *w_buf, DType::Q4K);
            note_half(d, *b_from_tg, *x_buf);
            infer_load_expr(row0_base, d);
            infer_load_expr(ib, d);
            infer_load_expr(lane, d);
        },
        KirStmt::Q4kCoopNr4Dual { row0_base, ib, b_from_tg, x_buf, lane, .. } => {
            note_type(d, 0, DType::Q4K);
            note_type(d, 1, DType::Q4K);
            note_half(d, *b_from_tg, *x_buf);
            infer_load_expr(row0_base, d);
            infer_load_expr(ib, d);
            infer_load_expr(lane, d);
        },
        KirStmt::Q6kCoopNr4 { w_buf, row0_base, ib, b_from_tg, x_buf, lane, .. } => {
            note_type(d, *w_buf, DType::Q6K);
            note_half(d, *b_from_tg, *x_buf);
            infer_load_expr(row0_base, d);
            infer_load_expr(ib, d);
            infer_load_expr(lane, d);
        },
        KirStmt::Q40PackBlock { block, src_buf, src_elem, .. } => {
            note_type(d, *src_buf, DType::F16);
            infer_load_expr(block, d);
            infer_load_expr(src_elem, d);
        },
        KirStmt::Q40PackFromThread { block, th_off, .. } => {
            infer_load_expr(block, d);
            infer_load_expr(th_off, d);
        },
        KirStmt::Q40DequantToTg { tg_off, src_buf, src_elem, .. } => {
            note_type(d, *src_buf, DType::Q40);
            infer_load_expr(tg_off, d);
            infer_load_expr(src_elem, d);
        },
        KirStmt::TgStoreF4FromLoad { tg_off, src_buf, src_elem, dtype, .. } => {
            note_type(d, *src_buf, *dtype);
            infer_load_expr(tg_off, d);
            infer_load_expr(src_elem, d);
        },
        _ => {},
    }
}

/// The element types of the inputs after a statement was read; conditions and bounds are not.
pub open spec fn code_types(c: Code, d: Seq<DType>) -> Seq<DType>
    decreases c,
{
    match c {
        Code::For { body, .. } => block_types(body, d),
        Code::If { body, .. } => block_types(body, d),
        Code::ForRange { body, .. } => block_types(body, d),
        Code::Flat(s) => flat_types(s, d),
    }
}

/// The element types of the inputs after a block was read.
pub open spec fn block_types(b: Seq<Code>, d: Seq<DType>) -> Seq<DType>
    decreases b,
{
    if b.len() == 0 {
        d
    } else {
        code_types(b.last(), block_types(b.drop_last(), d))
    }
}

fn infer_stmt(s: &KirStmt, d: &mut Vec<DType>)
    ensures
        final(d)@ == code_types(code_of(*s), old(d)@),
    decreases *s,
{
    match s {
        KirStmt::For { body, .. } => infer_load_dtypes(body, d),
        KirStmt::If { body, .. } => infer_load_dtypes(body, d),
        KirStmt::ForRange { body, .. } => infer_load_dtypes(body, d),
        _ => infer_flat(s, d),
    }
}

pub fn infer_load_dtypes(stmts: &Vec<KirStmt>, d: &mut Vec<DType>)
    ensures
        final(d)@ == block_types(block_of(stmts@), old(d)@),
    decreases stmts@,
{
    let ghost all = block_of(stmts@);
    let ghost d0 = d@;
    let mut i: usize = 0;
    while i < stmts.len()
        invariant
            i <= stmts@.len(),
            all == block_of(stmts@),
            d@ == block_types(all.take(i as int), d0),
        decreases stmts@.len() - i,
    {
        assert(all.take(i + 1).drop_last() =~= all.take(i as int));
        infer_stmt(&stmts[i], d);
        i += 1;
    }
    assert(all.take(all.len() as int) =~= all);
}

/// Reading an expression keeps the number of inputs.
proof fn lemma_expr_types_len(e: KirExpr, d: Seq<DType>)
    ensures
        expr_types(e, d).len() == d.len(),
    decreases e,
{
    match e {
        KirExpr::Load { buf, idx, dtype } => lemma_expr_types_len(*idx, with_type(d, buf, dtype)),
        KirExpr::VecMulSum { a_buf, a_idx, b_buf, b_idx, dtype, b_from_tg, .. } => {
            let d1 = with_type(d, a_buf, dtype);
            let d2 = if b_from_tg is None && dtype.is_float() {
                with_type(d1, b_buf, dtype)
            } else {
                d1
            };
            lemma_expr_types_len(*a_idx, d2);
            lemma_expr_types_len(*b_idx, expr_types(*a_idx, d2));
        },
        KirExpr::TgLoad { idx, .. } | KirExpr::ThreadLoad { idx, .. } => {
            lemma_expr_types_len(*idx, d)
        },
        KirExpr::CastU32ToF32(a) | KirExpr::CastF32ToU32(a) | KirExpr::SimdSum(a) => {
            lemma_expr_types_len(*a, d)
        },
        KirExpr::Unary { a, .. } => lemma_expr_types_len(*a, d),
        KirExpr::Q4kCoopFrag { w_buf, row_base, ib, lane, .. } => {
            let d1 = with_type(d, w_buf, DType::Q4K);
            lemma_expr_types_len(*row_base, d1);
            lemma_expr_types_len(*ib, expr_types(*row_base, d1));
            lemma_expr_types_len(*lane, expr_types(*ib, expr_types(*row_base, d1)));
        },
        KirExpr::Q6kCoopFrag { w_buf, row_base, ib, b_from_tg, x_buf, lane, .. } => {
            let d1 = with_half(with_type(d, w_buf, DType::Q6K), b_from_tg, x_buf);
            lemma_expr_types_len(*row_base, d1);
            lemma_expr_types_len(*ib, expr_types(*row_base, d1));
            lemma_expr_types_len(*lane, expr_types(*ib, expr_types(*row_base, d1)));
        },
        KirExpr::Bin { a, b, .. } | KirExpr::CmpGt { a, b } | KirExpr::CmpEq { a, b } => {
            lemma_expr_types_len(*a, d);
            lemma_expr_types_len(*b, expr_types(*a, d));
        },
        _ => {},
    }
}

/// Reading a statement without a block keeps the number of inputs.
proof fn lemma_flat_types_len(s: KirStmt, d: Seq<DType>)
    ensures
        flat_types(s, d).len() == d.len(),
{
    assert forall|e: KirExpr, t: Seq<DType>| #[trigger] expr_types(e, t).len() == t.len() by {
        lemma_expr_types_len(e, t);
    }
}

/// Reading a statement keeps the number of inputs.
proof fn lemma_code_types_len(c: Code, d: Seq<DType>)
    ensures
        code_types(c, d).len() == d.len(),
    decreases c,
{
    match c {
        Code::For { body, .. } => lemma_block_types_len(body, d),
        Code::If { body, .. } => lemma_block_types_len(body, d),
        Code::ForRange { body, .. } => lemma_block_types_len(body, d),
        Code::Flat(s) => lemma_flat_types_len(s, d),
    }
}

/// Reading a block keeps the number of inputs.
pub proof fn lemma_block_types_len(b: Seq<Code>, d: Seq<DType>)
    ensures
        block_types(b, d).len() == d.len(),
    decreases b,
{
    if b.len() > 0 {
        lemma_block_types_len(b.drop_last(), d);
        lemma_code_types_len(b.last(), block_types(b.drop_last(), d));
    }
}

/// The constants of an expression, after those of `acc`.
pub open spec fn expr_consts(e: KirExpr, acc: Seq<Scalar>) -> Seq<Scalar>
    decreases e,
{
    match e {
        KirExpr::ConstF32(f) => acc.push(f),
        KirExpr::Load { idx, .. } => expr_consts(*idx, acc),
        KirExpr::VecMulSum { a_idx, b_idx, .. } => expr_consts(*b_idx, expr_consts(*a_idx, acc)),
        KirExpr::TgLoad { idx, .. } => expr_consts(*idx, acc),
        KirExpr::ThreadLoad { idx, .. } => expr_consts(*idx, acc),
        KirExpr::CastU32ToF32(a) => expr_consts(*a, acc),
        KirExpr::CastF32ToU32(a) => expr_consts(*a, acc),
        KirExpr::SimdSum(a) => expr_consts(*a, acc),
        KirExpr::Unary { a, .. } => expr_consts(*a, acc),
        KirExpr::Bin { a, b, .. } => expr_consts(*b, expr_consts(*a, acc)),
        KirExpr::CmpGt { a, b } => expr_consts(*b, expr_consts(*a, acc)),
        KirExpr::CmpEq { a, b } => expr_consts(*b, expr_consts(*a, acc)),
        KirExpr::Q4kCoopFrag { row_base, ib, lane, .. } => {
            expr_consts(*lane, expr_consts(*ib, expr_consts(*row_base, acc)))
        },
        KirExpr::Q6kCoopFrag { row_base, ib, x_off, lane, .. } => {
            expr_consts(*lane, expr_consts(*x_off, expr_consts(*ib, expr_consts(*row_base, acc))))
        },
        _ => acc,
    }
}

/// The constants of a statement without a block, after those of `acc`.
pub open spec fn flat_consts(s: KirStmt, acc: Seq<Scalar>) -> Seq<Scalar> {
    match s {
        KirStmt::Let { expr, .. } => expr_consts(expr, acc),
        KirStmt::LetU32 { expr, .. } => expr_consts(expr, acc),
        KirStmt::Assign { expr, .. } => expr_consts(expr, acc),
        KirStmt::Store { idx, val, .. } => expr_consts(val, expr_consts(idx, acc)),
        KirStmt::TgStore { idx, val, .. } => expr_consts(val, expr_consts(idx, acc)),
        KirStmt::ThreadStore { idx, val, .. } => expr_consts(val, expr_consts(idx, acc)),
        KirStmt::Q4kCoopNr4 { row0_base, ib, lane, .. } => {
            expr_consts(lane, expr_consts(ib, expr_consts(row0_base, acc)))
        },
        KirStmt::Q4kCoopNr4Dual { row0_base, ib, lane, .. } => {
            expr_consts(lane, expr_consts(ib, expr_consts(row0_base, acc)))
        },
        KirStmt::Q6kCoopNr4 { row0_base, ib, x_off, lane, .. } => {
            expr_consts(lane, expr_consts(x_off, expr_consts(ib, expr_consts(row0_base, acc))))
        },
        KirStmt::Q40PackBlock { block, src_elem, .. } => {
            expr_consts(src_elem, expr_consts(block, acc))
        },
        KirStmt::Q40PackFromThread { block, th_off, .. } => {
            expr_consts(th_off, expr_consts(block, acc))
        },
        KirStmt::Q40DequantToTg { tg_off, src_elem, .. } => {
            expr_consts(src_elem, expr_consts(tg_off, acc))
        },
        KirStmt::TgStoreF4FromLoad { tg_off, src_elem, .. } => {
            expr_consts(src_elem, expr_consts(tg_off, acc))
        },
        _ => acc,
    }
}

/// The constants of a statement, after those of `acc`.
pub open spec fn code_consts(c: Code, acc: Seq<Scalar>) -> Seq<Scalar>
    decreases c,
{
    match c {
        Code::For { body, .. } => block_consts(body, acc),
        Code::If { cond, body } => block_consts(body, expr_consts(cond, acc)),
        Code::ForRange { limit_off, bound, step, body, .. } => {
            block_consts(body, expr_consts(step, expr_consts(bound, expr_consts(limit_off, acc))))
        },
        Code::Flat(s) => flat_consts(s, acc),
    }
}

/// The constants of a block, after those of `acc`.
pub open spec fn block_consts(b: Seq<Code>, acc: Seq<Scalar>) -> Seq<Scalar>
    decreases b,
{
    if b.len() == 0 {
        acc
    } else {
        code_consts(b.last(), block_consts(b.drop_last(), acc))
    }
}

fn collect_expr(e: &KirExpr, acc: &mut Vec<Scalar>)
    ensures
        final(acc)@ == expr_consts(*e, old(acc)@),
    decreases *e,
{
    match e {
        KirExpr::ConstF32(f) => acc.push(*f),
        KirExpr::Load { idx, .. } => {
            collect_expr(idx, acc);
        },
        KirExpr::VecMulSum { a_idx, b_idx, .. } => {
            collect_expr(a_idx, acc);
            collect_expr(b_idx, acc);
        },
        KirExpr::TgLoad { idx, .. } => {
            collect_expr(idx, acc);
        },
        KirExpr::ThreadLoad { idx, .. } => {
            collect_expr(idx, acc);
        },
        KirExpr::CastU32ToF32(a) => {
            collect_expr(a, acc);
        },
        KirExpr::CastF32ToU32(a) => {
            collect_expr(a, acc);
        },
        KirExpr::SimdSum(a) => {
            collect_expr(a, acc);
        },
        KirExpr::Unary { a, .. } => {
            collect_expr(a, acc);
        },
        KirExpr::Bin { a, b, .. } => {
            collect_expr(a, acc);
            collect_expr(b, acc);
        },
        KirExpr::CmpGt { a, b } => {
            collect_expr(a, acc);
            collect_expr(b, acc);
        },
        KirExpr::CmpEq { a, b } => {
            collect_expr(a, acc);
            collect_expr(b, acc);
        },
        KirExpr::Q4kCoopFrag { row_base, ib, lane, .. } => {
            collect_expr(row_base, acc);
            collect_expr(ib, acc);
            collect_expr(lane, acc);
        },
        KirExpr::Q6kCoopFrag { row_base, ib, x_off, lane, .. } => {
            collect_expr(row_base, acc);
            collect_expr(ib, acc);
            collect_expr(x_off, acc);
            collect_expr(lane, acc);
        },
        _ => {},
    }
}

fn collect_flat(s: &KirStmt, acc: &mut Vec<Scalar>)
    ensures
        final(acc)@ == flat_consts(*s, old(acc)@),
{
    match s {
        KirStmt::Let { expr, .. } => {
            collect_expr(expr, acc);
        },
        KirStmt::LetU32 { expr, .. } => {
            collect_expr(expr, acc);
        },
        KirStmt::Assign { expr, .. } => {
            collect_expr(expr, acc);
        },
        KirStmt::Store { idx, val, .. } => {
            collect_expr(idx, acc);
            collect_expr(val, acc);
        },
        KirStmt::TgStore { idx, val, .. } => {
            collect_expr(idx, acc);
            collect_expr(val, acc);
        },
        KirStmt::ThreadStore { idx, val, .. } => {
            collect_expr(idx, acc);
            collect_expr(val, acc);
        },
        KirStmt::Q4kCoopNr4 { row0_base, ib, lane, .. } => {
            collect_expr(row0_base, acc);
            collect_expr(ib, acc);
            collect_expr(lane, acc);
        },
        KirStmt::Q4kCoopNr4Dual { row0_base, ib, lane, .. } => {
            collect_expr(row0_base, acc);
            collect_expr(ib, acc);
            collect_expr(lane, acc);
        },
        KirStmt::Q6kCoopNr4 { row0_base, ib, x_off, lane, .. } => {
            collect_expr(row0_base, acc);
            collect_expr(ib, acc);
            collect_expr(x_off, acc);
            collect_expr(lane, acc);
        },
        KirStmt::Q40PackBlock { block, src_elem, .. } => {
            collect_expr(block, acc);
            collect_expr(src_elem, acc);
        },
        KirStmt::Q40PackFromThread { block, th_off, .. } => {
            collect_expr(block, acc);
            collect_expr(th_off, acc);
        },
        KirStmt::Q40DequantToTg { tg_off, src_elem, .. } => {
            collect_expr(tg_off, acc);
            collect_expr(src_elem, acc);
        },
        KirStmt::TgStoreF4FromLoad { tg_off, src_elem, .. } => {
            collect_expr(tg_off, acc);
            collect_expr(src_elem, acc);
        },
        _ => {},
    }
}

fn collect_stmt(s: &KirStmt, acc: &mut Vec<Scalar>)
    ensures
        final(acc)@ == code_consts(code_of(*s), old(acc)@),
    decreases *s,
{
    match s {
        KirStmt::For { body, .. } => collect_block(body, acc),
        KirStmt::If { cond, body } => {
            collect_expr(cond, acc);
            collect_block(body, acc);
        },
        KirStmt::ForRange { limit_off, bound, step, body, .. } => {
            collect_expr(limit_off, acc);
            collect_expr(bound, acc);
            collect_expr(step, acc);
            collect_block(body, acc);
        },
        _ => collect_flat(s, acc),
    }
}

fn collect_block(stmts: &Vec<KirStmt>, acc: &mut Vec<Scalar>)
    ensures
        final(acc)@ == block_consts(block_of(stmts@), old(acc)@),
    decreases stmts@,
{
    let ghost all = block_of(stmts@);
    let ghost acc0 = acc@;
    let mut i: usize = 0;
    while i < stmts.len()
        invariant
            i <= stmts@.len(),
            all == block_of(stmts@),
            acc@ == block_consts(all.take(i as int), acc0),
        decreases stmts@.len() - i,
    {
        assert(all.take(i + 1).drop_last() =~= all.take(i as int));
        collect_stmt(&stmts[i], acc);
        i += 1;
    }
    assert(all.take(all.len() as int) =~= all);
}

/// The floating-point constants of a body, in the order of their occurrence. Whoever renders the
/// body supplies how they are written.
pub fn float_constants(stmts: &Vec<KirStmt>) -> (r: Vec<Scalar>)
    ensures
        r@ == block_consts(block_of(stmts@), Seq::empty()),
{
    let mut acc: Vec<Scalar> = Vec::new();
    collect_block(stmts, &mut acc);
    acc
}

} // verus!
