//! Building blocks of kernel bodies. The expression builders may be used in
//! specifications; blocks are built by the same chains of calls in code and
//! in specifications.

use vstd::prelude::*;

use crate::ir::dtype::{DType, Scalar};
use crate::ir::kernel::{block_of, code_of, BinOp, Code, KirExpr, KirStmt, UnaryOp};

verus! {

/// The constant with this bit pattern.
#[verifier::allow_in_spec]
pub fn c(bits: u32) -> KirExpr
    returns
        KirExpr::ConstF32(Scalar::Bits(bits)),
{
    KirExpr::ConstF32(Scalar::Bits(bits))
}

/// A constant given from outside.
#[verifier::allow_in_spec]
pub fn cs(s: Scalar) -> KirExpr
    returns
        KirExpr::ConstF32(s),
{
    KirExpr::ConstF32(s)
}

/// A count as a floating-point constant.
#[verifier::allow_in_spec]
pub fn cn(n: usize) -> KirExpr
    returns
        KirExpr::ConstF32(Scalar::Int(n as u64)),
{
    KirExpr::ConstF32(Scalar::Int(n as u64))
}

#[verifier::allow_in_spec]
pub fn cu(u: u32) -> KirExpr
    returns
        KirExpr::ConstU32(u),
{
    KirExpr::ConstU32(u)
}

#[verifier::allow_in_spec]
pub fn gid() -> KirExpr
    returns
        KirExpr::Gid,
{
    KirExpr::Gid
}

#[verifier::allow_in_spec]
pub fn lid() -> KirExpr
    returns
        KirExpr::Lid,
{
    KirExpr::Lid
}

/// A float variable.
#[verifier::allow_in_spec]
pub fn v(id: u32) -> KirExpr
    returns
        KirExpr::Var(id),
{
    KirExpr::Var(id)
}

/// An unsigned variable.
#[verifier::allow_in_spec]
pub fn uv(id: u32) -> KirExpr
    returns
        KirExpr::UVar(id),
{
    KirExpr::UVar(id)
}

/// A loop counter.
#[verifier::allow_in_spec]
pub fn fv(id: u32) -> KirExpr
    returns
        KirExpr::ForVar(id),
{
    KirExpr::ForVar(id)
}

#[verifier::allow_in_spec]
pub fn plus(a: KirExpr, b: KirExpr) -> KirExpr
    returns
        (KirExpr::Bin { op: BinOp::Add, a: Box::new(a), b: Box::new(b) }),
{
    KirExpr::Bin { op: BinOp::Add, a: Box::new(a), b: Box::new(b) }
}

#[verifier::allow_in_spec]
pub fn minus(a: KirExpr, b: KirExpr) -> KirExpr
    returns
        (KirExpr::Bin { op: BinOp::Sub, a: Box::new(a), b: Box::new(b) }),
{
    KirExpr::Bin { op: BinOp::Sub, a: Box::new(a), b: Box::new(b) }
}

#[verifier::allow_in_spec]
pub fn times(a: KirExpr, b: KirExpr) -> KirExpr
    returns
        (KirExpr::Bin { op: BinOp::Mul, a: Box::new(a), b: Box::new(b) }),
{
    KirExpr::Bin { op: BinOp::Mul, a: Box::new(a), b: Box::new(b) }
}

#[verifier::allow_in_spec]
pub fn over(a: KirExpr, b: KirExpr) -> KirExpr
    returns
        (KirExpr::Bin { op: BinOp::Div, a: Box::new(a), b: Box::new(b) }),
{
    KirExpr::Bin { op: BinOp::Div, a: Box::new(a), b: Box::new(b) }
}

#[verifier::allow_in_spec]
pub fn larger(a: KirExpr, b: KirExpr) -> KirExpr
    returns
        (KirExpr::Bin { op: BinOp::Max, a: Box::new(a), b: Box::new(b) }),
{
    KirExpr::Bin { op: BinOp::Max, a: Box::new(a), b: Box::new(b) }
}

#[verifier::allow_in_spec]
pub fn smaller(a: KirExpr, b: KirExpr) -> KirExpr
    returns
        (KirExpr::Bin { op: BinOp::Min, a: Box::new(a), b: Box::new(b) }),
{
    KirExpr::Bin { op: BinOp::Min, a: Box::new(a), b: Box::new(b) }
}

#[verifier::allow_in_spec]
pub fn un(op: UnaryOp, a: KirExpr) -> KirExpr
    returns
        (KirExpr::Unary { op, a: Box::new(a) }),
{
    KirExpr::Unary { op, a: Box::new(a) }
}

/// One element of a buffer.
#[verifier::allow_in_spec]
pub fn ld(buf: u32, idx: KirExpr, dtype: DType) -> KirExpr
    returns
        (KirExpr::Load { buf, idx: Box::new(idx), dtype }),
{
    KirExpr::Load { buf, idx: Box::new(idx), dtype }
}

#[verifier::allow_in_spec]
pub fn gt(a: KirExpr, b: KirExpr) -> KirExpr
    returns
        (KirExpr::CmpGt { a: Box::new(a), b: Box::new(b) }),
{
    KirExpr::CmpGt { a: Box::new(a), b: Box::new(b) }
}

#[verifier::allow_in_spec]
pub fn equal(a: KirExpr, b: KirExpr) -> KirExpr
    returns
        (KirExpr::CmpEq { a: Box::new(a), b: Box::new(b) }),
{
    KirExpr::CmpEq { a: Box::new(a), b: Box::new(b) }
}

/// The dot product of `width` elements of two buffers; the second may be staged.
#[verifier::allow_in_spec]
pub fn vec_dot(
    a_buf: u32,
    a_idx: KirExpr,
    b_buf: u32,
    b_idx: KirExpr,
    width: u32,
    dtype: DType,
    b_from_tg: Option<u32>,
) -> KirExpr
    returns
        (KirExpr::VecMulSum {
            a_buf,
            a_idx: Box::new(a_idx),
            b_buf,
            b_idx: Box::new(b_idx),
            width,
            dtype,
            b_from_tg,
        }),
{
    KirExpr::VecMulSum {
        a_buf,
        a_idx: Box::new(a_idx),
        b_buf,
        b_idx: Box::new(b_idx),
        width,
        dtype,
        b_from_tg,
    }
}

#[verifier::allow_in_spec]
pub fn tg_load(id: u32, idx: KirExpr) -> KirExpr
    returns
        (KirExpr::TgLoad { id, idx: Box::new(idx) }),
{
    KirExpr::TgLoad { id, idx: Box::new(idx) }
}

#[verifier::allow_in_spec]
pub fn th_load(id: u32, idx: KirExpr) -> KirExpr
    returns
        (KirExpr::ThreadLoad { id, idx: Box::new(idx) }),
{
    KirExpr::ThreadLoad { id, idx: Box::new(idx) }
}

#[verifier::allow_in_spec]
pub fn simd_sum(a: KirExpr) -> KirExpr
    returns
        KirExpr::SimdSum(Box::new(a)),
{
    KirExpr::SimdSum(Box::new(a))
}

#[verifier::allow_in_spec]
pub fn to_uint(a: KirExpr) -> KirExpr
    returns
        KirExpr::CastF32ToU32(Box::new(a)),
{
    KirExpr::CastF32ToU32(Box::new(a))
}

#[verifier::allow_in_spec]
pub fn to_float(a: KirExpr) -> KirExpr
    returns
        KirExpr::CastU32ToF32(Box::new(a)),
{
    KirExpr::CastU32ToF32(Box::new(a))
}

/// One lane's part of a Q4_K superblock.
#[verifier::allow_in_spec]
pub fn q4k_frag(
    w_buf: u32,
    base: u32,
    cols: u32,
    ib: u32,
    b_from_tg: Option<u32>,
    x_buf: u32,
    lane: u32,
) -> KirExpr
    returns
        (KirExpr::Q4kCoopFrag {
            w_buf,
            row_base: Box::new(KirExpr::UVar(base)),
            cols,
            ib: Box::new(KirExpr::UVar(ib)),
            b_from_tg,
            x_buf,
            lane: Box::new(KirExpr::UVar(lane)),
        }),
{
    KirExpr::Q4kCoopFrag {
        w_buf,
        row_base: Box::new(KirExpr::UVar(base)),
        cols,
        ib: Box::new(KirExpr::UVar(ib)),
        b_from_tg,
        x_buf,
        lane: Box::new(KirExpr::UVar(lane)),
    }
}

/// One lane's part of a Q6_K superblock, with no staging offset.
#[verifier::allow_in_spec]
pub fn q6k_frag(
    w_buf: u32,
    base: u32,
    cols: u32,
    ib: u32,
    b_from_tg: Option<u32>,
    x_buf: u32,
    lane: u32,
) -> KirExpr
    returns
        (KirExpr::Q6kCoopFrag {
            w_buf,
            row_base: Box::new(KirExpr::UVar(base)),
            cols,
            ib: Box::new(KirExpr::UVar(ib)),
            b_from_tg,
            x_buf,
            x_off: Box::new(KirExpr::ConstU32(0)),
            lane: Box::new(KirExpr::UVar(lane)),
        }),
{
    KirExpr::Q6kCoopFrag {
        w_buf,
        row_base: Box::new(KirExpr::UVar(base)),
        cols,
        ib: Box::new(KirExpr::UVar(ib)),
        b_from_tg,
        x_buf,
        x_off: Box::new(KirExpr::ConstU32(0)),
        lane: Box::new(KirExpr::UVar(lane)),
    }
}

#[verifier::allow_in_spec]
pub fn let_f(id: u32, expr: KirExpr) -> KirStmt
    returns
        (KirStmt::Let { id, expr }),
{
    KirStmt::Let { id, expr }
}

#[verifier::allow_in_spec]
pub fn let_u(id: u32, expr: KirExpr) -> KirStmt
    returns
        (KirStmt::LetU32 { id, expr }),
{
    KirStmt::LetU32 { id, expr }
}

#[verifier::allow_in_spec]
pub fn assign(id: u32, expr: KirExpr) -> KirStmt
    returns
        (KirStmt::Assign { id, expr }),
{
    KirStmt::Assign { id, expr }
}

/// `id += expr` for a float variable.
#[verifier::allow_in_spec]
pub fn accumulate(id: u32, expr: KirExpr) -> KirStmt
    returns
        (KirStmt::Assign {
            id,
            expr: KirExpr::Bin {
                op: BinOp::Add,
                a: Box::new(KirExpr::Var(id)),
                b: Box::new(expr),
            },
        }),
{
    KirStmt::Assign {
        id,
        expr: KirExpr::Bin { op: BinOp::Add, a: Box::new(KirExpr::Var(id)), b: Box::new(expr) },
    }
}

#[verifier::allow_in_spec]
pub fn store(buf: u32, idx: KirExpr, val: KirExpr) -> KirStmt
    returns
        (KirStmt::Store { buf, idx, val }),
{
    KirStmt::Store { buf, idx, val }
}

#[verifier::allow_in_spec]
pub fn tg_decl(id: u32, n: usize) -> KirStmt
    returns
        (KirStmt::TgDeclF32 { id, n }),
{
    KirStmt::TgDeclF32 { id, n }
}

#[verifier::allow_in_spec]
pub fn tg_store(id: u32, idx: KirExpr, val: KirExpr) -> KirStmt
    returns
        (KirStmt::TgStore { id, idx, val }),
{
    KirStmt::TgStore { id, idx, val }
}

#[verifier::allow_in_spec]
pub fn th_decl(id: u32, n: usize) -> KirStmt
    returns
        (KirStmt::ThreadDeclF32 { id, n }),
{
    KirStmt::ThreadDeclF32 { id, n }
}

#[verifier::allow_in_spec]
pub fn th_store(id: u32, idx: KirExpr, val: KirExpr) -> KirStmt
    returns
        (KirStmt::ThreadStore { id, idx, val }),
{
    KirStmt::ThreadStore { id, idx, val }
}

#[verifier::allow_in_spec]
pub fn barrier() -> KirStmt
    returns
        KirStmt::Barrier,
{
    KirStmt::Barrier
}

#[verifier::allow_in_spec]
pub fn reduce(acc_id: u32, tg: u64) -> KirStmt
    returns
        (KirStmt::ThreadgroupReduce { acc_id, tg }),
{
    KirStmt::ThreadgroupReduce { acc_id, tg }
}

/// The row `first + r`.
#[verifier::allow_in_spec]
pub fn row_at(first: u32, r: u32) -> KirExpr
    returns
        (if r == 0 {
            KirExpr::UVar(first)
        } else {
            KirExpr::Bin {
                op: BinOp::Add,
                a: Box::new(KirExpr::UVar(first)),
                b: Box::new(KirExpr::ConstU32(r)),
            }
        }),
{
    if r == 0 {
        uv(first)
    } else {
        plus(uv(first), cu(r))
    }
}

/// Whether a statement holds no block.
pub open spec fn is_flat(s: KirStmt) -> bool {
    !(s is For) && !(s is ForRange) && !(s is If)
}

/// The empty block.
pub open spec fn code() -> Seq<Code> {
    Seq::empty()
}

/// Extension of a block, as [`Block`] has it.
pub trait Extend: Sized {
    spec fn s(self, stmt: KirStmt) -> Self;

    spec fn each(self, id: u32, n: usize, body: Self) -> Self;

    spec fn range(self, id: u32, bound: KirExpr, step: KirExpr, body: Self) -> Self;

    spec fn range_to(self, id: u32, off: u32, bound: KirExpr, step: KirExpr, body: Self) -> Self;

    spec fn when(self, cond: KirExpr, body: Self) -> Self;

    spec fn cat(self, more: Self) -> Self;
}

impl Extend for Seq<Code> {
    open spec fn s(self, stmt: KirStmt) -> Seq<Code> {
        self.push(Code::Flat(stmt))
    }

    open spec fn each(self, id: u32, n: usize, body: Seq<Code>) -> Seq<Code> {
        self.push(Code::For { id, n, body })
    }

    open spec fn range(self, id: u32, bound: KirExpr, step: KirExpr, body: Seq<Code>) -> Seq<Code> {
        self.push(Code::ForRange { id, limit_off: cu(0), bound, step, body })
    }

    open spec fn range_to(
        self,
        id: u32,
        off: u32,
        bound: KirExpr,
        step: KirExpr,
        body: Seq<Code>,
    ) -> Seq<Code> {
        self.push(Code::ForRange { id, limit_off: cu(off), bound, step, body })
    }

    open spec fn when(self, cond: KirExpr, body: Seq<Code>) -> Seq<Code> {
        self.push(Code::If { cond, body })
    }

    open spec fn cat(self, more: Seq<Code>) -> Seq<Code> {
        self + more
    }
}

/// A block of statements under construction.
pub struct Block {
    stmts: Vec<KirStmt>,
}

impl View for Block {
    type V = Seq<Code>;

    closed spec fn view(&self) -> Seq<Code> {
        block_of(self.stmts@)
    }
}

impl Block {
    pub fn new() -> (r: Block)
        ensures
            r@ == code(),
    {
        let b = Block { stmts: Vec::new() };
        assert(b@ =~= code());
        b
    }

    fn push(self, stmt: KirStmt) -> (r: Block)
        ensures
            r@ == self@.push(code_of(stmt)),
    {
        let ghost before = self.stmts@;
        let mut stmts: Vec<KirStmt> = self.stmts;
        stmts.push(stmt);
        let r = Block { stmts };
        assert(r@ =~= block_of(before).push(code_of(stmt)));
        r
    }

    /// One more statement.
    pub fn s(self, stmt: KirStmt) -> (r: Block)
        requires
            is_flat(stmt),
        ensures
            r@ == self@.s(stmt),
    {
        self.push(stmt)
    }

    /// A counted loop.
    pub fn each(self, id: u32, n: usize, body: Block) -> (r: Block)
        ensures
            r@ == self@.each(id, n, body@),
    {
        self.push(KirStmt::For { id, n, body: body.stmts })
    }

    /// `for (; id < bound; id += step)`.
    pub fn range(self, id: u32, bound: KirExpr, step: KirExpr, body: Block) -> (r: Block)
        ensures
            r@ == self@.range(id, bound, step, body@),
    {
        self.push(KirStmt::ForRange { id, limit_off: cu(0), bound, step, body: body.stmts })
    }

    /// `for (; id + off < bound; id += step)`.
    pub fn range_to(self, id: u32, off: u32, bound: KirExpr, step: KirExpr, body: Block) -> (r:
        Block)
        ensures
            r@ == self@.range_to(id, off, bound, step, body@),
    {
        self.push(KirStmt::ForRange { id, limit_off: cu(off), bound, step, body: body.stmts })
    }

    /// A guarded block.
    pub fn when(self, cond: KirExpr, body: Block) -> (r: Block)
        ensures
            r@ == self@.when(cond, body@),
    {
        self.push(KirStmt::If { cond, body: body.stmts })
    }

    /// The statements of this block, then those of another.
    pub fn cat(self, more: Block) -> (r: Block)
        ensures
            r@ == self@.cat(more@),
    {
        let ghost before = self.stmts@;
        let ghost after = more.stmts@;
        let mut stmts: Vec<KirStmt> = self.stmts;
        let mut tail: Vec<KirStmt> = more.stmts;
        stmts.append(&mut tail);
        let r = Block { stmts };
        assert(r@ =~= block_of(before) + block_of(after));
        r
    }

    /// The statements themselves.
    pub fn into_stmts(self) -> (r: Vec<KirStmt>)
        ensures
            block_of(r@) == self@,
    {
        self.stmts
    }
}

/// The next unused identifier.
pub fn fresh(next: &mut u32) -> (id: u32)
    requires
        *old(next) < u32::MAX,
    ensures
        id == *old(next),
        *final(next) == *old(next) + 1,
{
    let i: u32 = *next;
    *next = *next + 1;
    i
}

} // verus!
