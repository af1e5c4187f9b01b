//! Kernel source and the literals of its constants.

use vstd::prelude::*;
use vstd::string::*;

use crate::codegen::error::{msg_v, ErrorV};
use crate::codegen::lower::block::is_flat;
use crate::codegen::render::expr::{
    buf_text, dot_text, expr_text, index_text, is_uint, lit_of, load_text, LitV,
};
use crate::codegen::render::kernel::{rendered, SourceV};
use crate::codegen::render::scan::{block_consts, code_consts, expr_consts, flat_consts};
use crate::codegen::render::stmt::{block_text, code_text, flat_text};
use crate::ir::dtype::{DType, Scalar};
use crate::ir::kernel::{block_of, code_of, Code, KernelIr, KirExpr, KirStmt};
use crate::text::dec;

verus! {

/// Whether a table holds a literal for each of the constants.
pub open spec fn covers(lits: Seq<LitV>, consts: Seq<Scalar>) -> bool {
    forall|i: int| 0 <= i < consts.len() ==> lit_of(lits, #[trigger] consts[i]) is Some
}

/// The error for a constant that has no literal.
pub open spec fn no_literal() -> ErrorV {
    msg_v("render: no text for a constant")
}

proof fn lemma_loads(dtype: DType, n: Seq<char>, i: Seq<char>)
    ensures
        load_text(dtype, n, i) != Err::<Seq<char>, ErrorV>(no_literal()),
{
    reveal_strlit("render: no text for a constant");
    reveal_strlit("render load: unsupported dtype ");
    let text = "render load: unsupported dtype "@ + dtype.label();
    assert(text[6] == ' ');
    assert("render: no text for a constant"@[6] == ':');
}

proof fn lemma_dots(
    a_buf: u32,
    ai: Seq<char>,
    b_buf: u32,
    bi: Seq<char>,
    width: u32,
    dtype: DType,
    b_from_tg: Option<u32>,
    n_in: u32,
    n_out: u32,
)
    ensures
        dot_text(a_buf, ai, b_buf, bi, width, dtype, b_from_tg, n_in, n_out) != Err::<
            Seq<char>,
            ErrorV,
        >(no_literal()),
{
    reveal_strlit("render: no text for a constant");
    reveal_strlit("render VecMulSum: unsupported width ");
    let head = "render VecMulSum: unsupported width "@ + dec(width as nat) + " dtype="@
        + dtype.label();
    assert(head[6] == ' ');
    assert("render: no text for a constant"@[6] == ':');
    match b_from_tg {
        Some(tg) => {
            let text = head + " tg=Some("@ + dec(tg as nat) + ")"@;
            assert(text[6] == ' ');
        },
        None => {
            let text = head + " (device)"@;
            assert(text[6] == ' ');
        },
    }
}

proof fn lemma_expr(
    e: KirExpr,
    acc: Seq<Scalar>,
    n_in: u32,
    n_out: u32,
    as_float: bool,
    lits: Seq<LitV>,
)
    requires
        covers(lits, expr_consts(e, acc)),
    ensures
        covers(lits, acc),
        expr_text(e, n_in, n_out, as_float, lits) != Err::<Seq<char>, ErrorV>(no_literal()),
    decreases e,
{
    match e {
        KirExpr::ConstF32(f) => {
            let all = acc.push(f);
            assert(all[acc.len() as int] == f);
            assert forall|i: int| 0 <= i < acc.len() implies lit_of(
                lits,
                #[trigger] acc[i],
            ) is Some by {
                assert(all[i] == acc[i]);
            }
        },
        KirExpr::Load { buf, idx, dtype } => {
            lemma_expr(*idx, acc, n_in, n_out, false, lits);
            match expr_text(*idx, n_in, n_out, false, lits) {
                Ok(s) => lemma_loads(
                    dtype,
                    buf_text(buf, n_in, n_out),
                    index_text(*idx, s),
                ),
                Err(_) => {},
            }
        },
        KirExpr::TgLoad { idx, .. } => lemma_expr(*idx, acc, n_in, n_out, false, lits),
        KirExpr::ThreadLoad { idx, .. } => lemma_expr(*idx, acc, n_in, n_out, false, lits),
        KirExpr::VecMulSum { a_buf, a_idx, b_buf, b_idx, width, dtype, b_from_tg } => {
            lemma_expr(*b_idx, expr_consts(*a_idx, acc), n_in, n_out, false, lits);
            lemma_expr(*a_idx, acc, n_in, n_out, false, lits);
            match (
                expr_text(*a_idx, n_in, n_out, false, lits),
                expr_text(*b_idx, n_in, n_out, false, lits),
            ) {
                (Ok(ai), Ok(bi)) => {
                    lemma_dots(a_buf, ai, b_buf, bi, width, dtype, b_from_tg, n_in, n_out)
                },
                _ => {},
            }
        },
        KirExpr::SimdSum(a) => lemma_expr(*a, acc, n_in, n_out, true, lits),
        KirExpr::Q4kCoopFrag { row_base, ib, lane, .. } => {
            let rows = expr_consts(*row_base, acc);
            lemma_expr(*lane, expr_consts(*ib, rows), n_in, n_out, false, lits);
            lemma_expr(*ib, rows, n_in, n_out, false, lits);
            lemma_expr(*row_base, acc, n_in, n_out, false, lits);
        },
        KirExpr::Q6kCoopFrag { row_base, ib, x_off, lane, .. } => {
            let rows = expr_consts(*row_base, acc);
            let blocks = expr_consts(*ib, rows);
            lemma_expr(*lane, expr_consts(*x_off, blocks), n_in, n_out, false, lits);
            lemma_expr(*x_off, blocks, n_in, n_out, false, lits);
            lemma_expr(*ib, rows, n_in, n_out, false, lits);
            lemma_expr(*row_base, acc, n_in, n_out, false, lits);
        },
        KirExpr::Bin { a, b, .. } => {
            let f = as_float || !is_uint(*a) || !is_uint(*b);
            lemma_expr(*b, expr_consts(*a, acc), n_in, n_out, f, lits);
            lemma_expr(*a, acc, n_in, n_out, f, lits);
        },
        KirExpr::Unary { a, .. } => lemma_expr(*a, acc, n_in, n_out, true, lits),
        KirExpr::CmpGt { a, b } => {
            let f = !is_uint(*a) || !is_uint(*b);
            lemma_expr(*b, expr_consts(*a, acc), n_in, n_out, f, lits);
            lemma_expr(*a, acc, n_in, n_out, f, lits);
        },
        KirExpr::CmpEq { a, b } => {
            let f = !is_uint(*a) || !is_uint(*b);
            lemma_expr(*b, expr_consts(*a, acc), n_in, n_out, f, lits);
            lemma_expr(*a, acc, n_in, n_out, f, lits);
        },
        KirExpr::CastU32ToF32(a) => lemma_expr(*a, acc, n_in, n_out, false, lits),
        KirExpr::CastF32ToU32(a) => lemma_expr(*a, acc, n_in, n_out, true, lits),
        _ => {},
    }
}

proof fn lemma_flat(
    s: KirStmt,
    acc: Seq<Scalar>,
    pad: Seq<char>,
    n_in: u32,
    n_out: u32,
    elem: DType,
    lits: Seq<LitV>,
)
    requires
        is_flat(s),
        covers(lits, flat_consts(s, acc)),
    ensures
        covers(lits, acc),
        flat_text(s, pad, n_in, n_out, elem, lits) != Err::<Seq<char>, ErrorV>(no_literal()),
{
    match s {
        KirStmt::Let { expr, .. } => lemma_expr(expr, acc, n_in, n_out, true, lits),
        KirStmt::LetU32 { expr, .. } => lemma_expr(expr, acc, n_in, n_out, false, lits),
        KirStmt::Assign { expr, .. } => lemma_expr(expr, acc, n_in, n_out, true, lits),
        KirStmt::Store { idx, val, .. } => {
            lemma_expr(val, expr_consts(idx, acc), n_in, n_out, true, lits);
            lemma_expr(idx, acc, n_in, n_out, false, lits);
        },
        KirStmt::TgStore { idx, val, .. } => {
            lemma_expr(val, expr_consts(idx, acc), n_in, n_out, true, lits);
            lemma_expr(idx, acc, n_in, n_out, false, lits);
        },
        KirStmt::ThreadStore { idx, val, .. } => {
            lemma_expr(val, expr_consts(idx, acc), n_in, n_out, true, lits);
            lemma_expr(idx, acc, n_in, n_out, false, lits);
        },
        KirStmt::Q4kCoopNr4 { row0_base, ib, lane, .. } => {
            let rows = expr_consts(row0_base, acc);
            lemma_expr(lane, expr_consts(ib, rows), n_in, n_out, false, lits);
            lemma_expr(ib, rows, n_in, n_out, false, lits);
            lemma_expr(row0_base, acc, n_in, n_out, false, lits);
        },
        KirStmt::Q4kCoopNr4Dual { row0_base, ib, lane, .. } => {
            let rows = expr_consts(row0_base, acc);
            lemma_expr(lane, expr_consts(ib, rows), n_in, n_out, false, lits);
            lemma_expr(ib, rows, n_in, n_out, false, lits);
            lemma_expr(row0_base, acc, n_in, n_out, false, lits);
        },
        KirStmt::Q6kCoopNr4 { row0_base, ib, x_off, lane, .. } => {
            let rows = expr_consts(row0_base, acc);
            let blocks = expr_consts(ib, rows);
            lemma_expr(lane, expr_consts(x_off, blocks), n_in, n_out, false, lits);
            lemma_expr(x_off, blocks, n_in, n_out, false, lits);
            lemma_expr(ib, rows, n_in, n_out, false, lits);
            lemma_expr(row0_base, acc, n_in, n_out, false, lits);
        },
        KirStmt::Q40PackBlock { block, src_elem, .. } => {
            lemma_expr(src_elem, expr_consts(block, acc), n_in, n_out, false, lits);
            lemma_expr(block, acc, n_in, n_out, false, lits);
        },
        KirStmt::Q40PackFromThread { block, th_off, .. } => {
            lemma_expr(th_off, expr_consts(block, acc), n_in, n_out, false, lits);
            lemma_expr(block, acc, n_in, n_out, false, lits);
        },
        KirStmt::Q40DequantToTg { tg_off, src_elem, .. } => {
            lemma_expr(src_elem, expr_consts(tg_off, acc), n_in, n_out, false, lits);
            lemma_expr(tg_off, acc, n_in, n_out, false, lits);
        },
        KirStmt::TgStoreF4FromLoad { tg_off, src_elem, .. } => {
            lemma_expr(src_elem, expr_consts(tg_off, acc), n_in, n_out, false, lits);
            lemma_expr(tg_off, acc, n_in, n_out, false, lits);
        },
        _ => {},
    }
}

/// Whether the statements of a block, and those inside them, are each of the form they stand in.
spec fn plain(b: Seq<Code>) -> bool
    decreases b,
{
    if b.len() == 0 {
        true
    } else {
        plain(b.drop_last()) && plain_code(b.last())
    }
}

/// Whether a statement that stands for one without a block has none, and so inside its block.
spec fn plain_code(c: Code) -> bool
    decreases c,
{
    match c {
        Code::For { body, .. } => plain(body),
        Code::If { body, .. } => plain(body),
        Code::ForRange { body, .. } => plain(body),
        Code::Flat(s) => is_flat(s),
    }
}

proof fn lemma_code(
    c: Code,
    acc: Seq<Scalar>,
    pad: Seq<char>,
    n_in: u32,
    n_out: u32,
    elem: DType,
    lits: Seq<LitV>,
)
    requires
        plain_code(c),
        covers(lits, code_consts(c, acc)),
    ensures
        covers(lits, acc),
        code_text(c, pad, n_in, n_out, elem, lits) != Err::<Seq<char>, ErrorV>(no_literal()),
    decreases c,
{
    match c {
        Code::For { body, .. } => {
            lemma_block(body, acc, pad + "  "@, n_in, n_out, elem, lits);
        },
        Code::If { cond, body } => {
            lemma_block(body, expr_consts(cond, acc), pad + "  "@, n_in, n_out, elem, lits);
            lemma_expr(cond, acc, n_in, n_out, true, lits);
        },
        Code::ForRange { limit_off, bound, step, body, .. } => {
            let limits = expr_consts(limit_off, acc);
            let bounds = expr_consts(bound, limits);
            lemma_block(body, expr_consts(step, bounds), pad + "  "@, n_in, n_out, elem, lits);
            lemma_expr(step, bounds, n_in, n_out, false, lits);
            lemma_expr(bound, limits, n_in, n_out, false, lits);
            lemma_expr(limit_off, acc, n_in, n_out, false, lits);
        },
        Code::Flat(s) => lemma_flat(s, acc, pad, n_in, n_out, elem, lits),
    }
}

proof fn lemma_block(
    b: Seq<Code>,
    acc: Seq<Scalar>,
    pad: Seq<char>,
    n_in: u32,
    n_out: u32,
    elem: DType,
    lits: Seq<LitV>,
)
    requires
        plain(b),
        covers(lits, block_consts(b, acc)),
    ensures
        covers(lits, acc),
        block_text(b, pad, n_in, n_out, elem, lits) != Err::<Seq<char>, ErrorV>(no_literal()),
    decreases b,
{
    if b.len() > 0 {
        lemma_code(b.last(), block_consts(b.drop_last(), acc), pad, n_in, n_out, elem, lits);
        lemma_block(b.drop_last(), acc, pad, n_in, n_out, elem, lits);
    }
}

proof fn lemma_plain_code(s: KirStmt)
    ensures
        plain_code(code_of(s)),
    decreases s,
{
    match s {
        KirStmt::For { body, .. } => lemma_plain(body@),
        KirStmt::ForRange { body, .. } => lemma_plain(body@),
        KirStmt::If { body, .. } => lemma_plain(body@),
        _ => {},
    }
}

proof fn lemma_plain(b: Seq<KirStmt>)
    ensures
        plain(block_of(b)),
    decreases b,
{
    if b.len() > 0 {
        assert(block_of(b).drop_last() =~= block_of(b.drop_last()));
        lemma_plain(b.drop_last());
        lemma_plain_code(b.last());
    }
}

/// A kernel is not refused for want of a literal where the table holds one for each of the
/// constants that are listed for its body.
pub proof fn lemma_literals_suffice(k: KernelIr, lits: Seq<LitV>)
    requires
        covers(lits, block_consts(k@.body, Seq::empty())),
    ensures
        rendered(k@, lits) != Err::<SourceV, ErrorV>(no_literal()),
{
    lemma_plain(k.body@);
    lemma_block(
        k@.body,
        Seq::empty(),
        "  "@,
        k.n_inputs as u32,
        k.n_outputs as u32,
        k.out_dtype,
        lits,
    );
}

} // verus!
