//! What the renderer writes for the statements of a thread does, when it is run, what the machine
//! says that the statements do.

use vstd::prelude::*;
use vstd::string::*;

use crate::codegen::laws::machine::{
    counted, flat, holds, index, is_index, left, run_to, step, turns, wrap, Arith, Lane, Regs,
};
use crate::codegen::laws::source::{array_name, written, Arr, Params, Scene, Term, Val};
use crate::codegen::laws::written::{index_term, is_loose, lemma_index_text, lemma_written, term_of};
use crate::codegen::laws::written_dots::{has_product, same};
use crate::codegen::render::expr::{expr_text, is_uint, LitV};
use crate::codegen::render::stmt::{block_text, code_text, flat_text};
use crate::ir::dtype::DType;
use crate::ir::kernel::{Code, KirExpr, KirStmt};
use crate::text::dec;

verus! {

/// A comparison of the source.
pub ghost struct Cond {
    pub greater: bool,
    pub a: Term,
    pub b: Term,
}

/// A statement of the source.
pub ghost enum Src {
    /// `float v = ..;`
    Float(u32, Term),
    /// `uint u = ..;`
    Uint(u32, Term),
    /// `v = ..;`
    Assign(u32, Term),
    /// `a[..] = ..;`, in half precision where the array is.
    Put { a: Arr, at: Term, val: Term, half: bool },
    /// The declaration of an array.
    Array { a: Arr, n: usize },
    /// A loop that counts from nought.
    Counted { id: u32, n: usize, body: Seq<Src> },
    /// A loop that goes on while a variable is below a bound.
    Ranged { id: u32, off: Term, bound: Term, step: Term, body: Seq<Src> },
    When { cond: Cond, body: Seq<Src> },
}

/// A statement as it is written.
pub open spec fn src_text(k: Params, pad: Seq<char>, s: Src) -> Seq<char>
    decreases s,
{
    match s {
        Src::Float(id, t) => pad + "float v"@ + dec(id as nat) + " = "@ + written(k, t) + ";\n"@,
        Src::Uint(id, t) => pad + "uint u"@ + dec(id as nat) + " = "@ + written(k, t) + ";\n"@,
        Src::Assign(id, t) => pad + "v"@ + dec(id as nat) + " = "@ + written(k, t) + ";\n"@,
        Src::Put { a, at, val, half } => pad + array_name(k, a) + "["@ + written(k, at) + "] = "@
            + (if half {
            "half("@ + written(k, val) + ")"@
        } else {
            written(k, val)
        }) + ";\n"@,
        Src::Array { a, n } => pad + (if a is Group {
            "threadgroup float "@
        } else {
            "thread float "@
        }) + array_name(k, a) + "["@ + dec(n as nat) + "];\n"@,
        Src::Counted { id, n, body } => pad + "for (uint f"@ + dec(id as nat) + " = 0u; f"@ + dec(
            id as nat,
        ) + " < "@ + dec(n as nat) + "u; f"@ + dec(id as nat) + "++) {\n"@ + srcs_text(
            k,
            pad + "  "@,
            body,
        ) + (pad + "}\n"@),
        Src::Ranged { id, off, bound, step, body } => pad + "for (; u"@ + dec(id as nat) + " + ("@
            + written(k, off) + ") < ("@ + written(k, bound) + "); u"@ + dec(id as nat) + " += ("@
            + written(k, step) + ")) {\n"@ + srcs_text(k, pad + "  "@, body) + (pad + "}\n"@),
        Src::When { cond, body } => pad + "if ("@ + ("(("@ + written(k, cond.a) + (if cond.greater {
            ") > ("@
        } else {
            ") == ("@
        }) + written(k, cond.b) + "))"@) + ") {\n"@ + srcs_text(k, pad + "  "@, body) + (pad
            + "}\n"@),
    }
}

pub open spec fn srcs_text(k: Params, pad: Seq<char>, b: Seq<Src>) -> Seq<char>
    decreases b,
{
    if b.len() == 0 {
        Seq::empty()
    } else {
        srcs_text(k, pad, b.drop_last()) + src_text(k, pad, b.last())
    }
}

impl<V> Scene<V> {
    /// The same thread with other registers.
    pub open spec fn with(self, r: Regs<V>) -> Scene<V> {
        Scene { r, ..self }
    }

    /// An unsigned value; a float is cut where it becomes one.
    pub open spec fn uint_of(self, v: Val<V>) -> int {
        match v {
            Val::Uint(i) => i,
            Val::Float(x) => (self.ar.to_index)(x),
            _ => arbitrary(),
        }
    }

    pub open spec fn float_of(self, v: Val<V>) -> V {
        match v {
            Val::Float(x) => x,
            _ => arbitrary(),
        }
    }

    /// Whether a comparison holds.
    pub open spec fn compares(self, c: Cond) -> bool {
        match (self.eval(c.a), self.eval(c.b)) {
            (Val::Uint(x), Val::Uint(y)) => if c.greater {
                x > y
            } else {
                x == y
            },
            (Val::Float(x), Val::Float(y)) => if c.greater {
                (self.ar.above)(x, y)
            } else {
                (self.ar.same)(x, y)
            },
            _ => arbitrary(),
        }
    }

    /// What a statement without a block does.
    pub open spec fn does(self, s: Src) -> Regs<V> {
        let r = self.r;
        match s {
            Src::Float(id, t) | Src::Assign(id, t) => Regs {
                f: r.f.insert(id, self.float_of(self.eval(t))),
                ..r
            },
            Src::Uint(id, t) => Regs { u: r.u.insert(id, self.uint_of(self.eval(t))), ..r },
            Src::Put { a, at, val, half } => {
                let i = self.uint_of(self.eval(at));
                let x = self.float_of(self.eval(val));
                match a {
                    Arr::Device(b) => if half == ((self.k.kind)(b) == DType::F16) {
                        Regs { stored: r.stored.insert((b, i), x), ..r }
                    } else {
                        arbitrary()
                    },
                    Arr::Group(id) => Regs { writes: r.writes.insert((id, i), x), ..r },
                    Arr::Own(id) => Regs { local: r.local.insert((id, i), x), ..r },
                }
            },
            Src::Array { .. } => r,
            _ => arbitrary(),
        }
    }
}

/// The turns that a loop over a range still takes.
pub open spec fn src_turns<V>(sc: Scene<V>, s: Src, r: Regs<V>) -> Regs<V>
    decreases s, 0nat, (match s {
        Src::Ranged { id, .. } => left(r.u[id]),
        _ => 0,
    }),
{
    match s {
        Src::Ranged { id, off, bound, step, body } => {
            let at = sc.with(r);
            if wrap(r.u[id] + at.uint_of(at.eval(off))) < at.uint_of(at.eval(bound)) {
                let b = src_to(sc, body, body.len(), r);
                let to = sc.with(b);
                let n = wrap(b.u[id] + to.uint_of(to.eval(step)));
                if r.u[id] < n {
                    src_turns(sc, s, Regs { u: b.u.insert(id, n), ..b })
                } else {
                    arbitrary()
                }
            } else {
                r
            }
        },
        _ => arbitrary(),
    }
}

/// `n` turns of a loop that counts.
pub open spec fn src_counted<V>(sc: Scene<V>, s: Src, n: nat, r: Regs<V>) -> Regs<V>
    decreases s, 0nat, n,
{
    match s {
        Src::Counted { id, body, .. } => if n == 0 {
            r
        } else {
            let p = src_counted(sc, s, (n - 1) as nat, r);
            src_to(sc, body, body.len(), Regs { u: p.u.insert(id, n - 1), ..p })
        },
        _ => arbitrary(),
    }
}

/// What a statement does to what a thread holds.
pub open spec fn src_step<V>(sc: Scene<V>, s: Src, r: Regs<V>) -> Regs<V>
    decreases s, 1nat, 0nat,
{
    match s {
        Src::When { cond, body } => if sc.with(r).compares(cond) {
            src_to(sc, body, body.len(), r)
        } else {
            r
        },
        Src::Ranged { .. } => src_turns(sc, s, r),
        Src::Counted { n, .. } => src_counted(sc, s, n as nat, r),
        _ => sc.with(r).does(s),
    }
}

/// What the first `n` statements of a block do.
pub open spec fn src_to<V>(sc: Scene<V>, b: Seq<Src>, n: nat, r: Regs<V>) -> Regs<V>
    decreases b, 0nat, n,
{
    if n == 0 || n > b.len() {
        r
    } else {
        src_step(sc, b[n - 1], src_to(sc, b, (n - 1) as nat, r))
    }
}

/// Whether an expression is sound whatever a thread holds.
pub open spec fn fits(k: Params, e: KirExpr, as_float: bool) -> bool
    decreases e, 0nat,
{
    match e {
        KirExpr::ConstF32(_) | KirExpr::Var(_) => as_float,
        KirExpr::ConstU32(_)
        | KirExpr::Gid
        | KirExpr::Lid
        | KirExpr::ForVar(_)
        | KirExpr::UVar(_) => true,
        KirExpr::Load { buf, idx, dtype } => {
            &&& as_float
            &&& (k.kind)(buf) == dtype
            &&& dtype is F32 || dtype is F16 || dtype is Q4K || dtype is Q6K || dtype is Q40
            &&& fits_index(k, *idx)
        },
        KirExpr::TgLoad { id, idx } => as_float && fits_index(k, *idx),
        KirExpr::ThreadLoad { id, idx } => as_float && fits_index(k, *idx),
        KirExpr::VecMulSum { a_buf, a_idx, b_buf, b_idx, width, dtype, b_from_tg } => {
            &&& as_float
            &&& is_uint(*a_idx) && fits(k, *a_idx, false)
            &&& is_uint(*b_idx) && fits(k, *b_idx, false)
            &&& a_buf < k.n_in
            &&& (k.kind)(a_buf) == dtype
            &&& has_product(width, dtype)
            &&& b_from_tg is None ==> {
                &&& b_buf < k.n_in
                &&& (k.kind)(b_buf) == (if dtype is F32 {
                    DType::F32
                } else {
                    DType::F16
                })
                &&& !((dtype is Q4K || dtype is Q40) && (width == 2 || width == 4))
            }
        },
        KirExpr::Bin { op, a, b } => if as_float {
            &&& fits(k, *a, true) && fits(k, *b, true)
            &&& (op is Mul || op is Div) ==> !is_loose(*b)
        } else {
            is_uint(*a) && is_uint(*b) && fits(k, *a, false) && fits(k, *b, false)
        },
        KirExpr::Unary { op, a } => {
            &&& as_float && fits(k, *a, true)
            &&& op is Neg ==> !is_loose(*a)
        },
        KirExpr::CastU32ToF32(a) => as_float && is_uint(*a) && fits(k, *a, false),
        KirExpr::CastF32ToU32(a) => !as_float && fits(k, *a, true),
        _ => false,
    }
}

pub open spec fn fits_index(k: Params, e: KirExpr) -> bool
    decreases e, 1nat,
{
    if is_uint(e) {
        fits(k, e, false)
    } else {
        &&& e matches KirExpr::Bin { a, .. } && *a is Var
        &&& fits(k, e, true)
    }
}

proof fn lemma_fits<V>(sc: Scene<V>, e: KirExpr, as_float: bool)
    requires
        fits(sc.k, e, as_float),
    ensures
        sc.sound(e, as_float),
    decreases e, 0nat,
{
    match e {
        KirExpr::Load { idx, .. } => lemma_fits_index(sc, *idx),
        KirExpr::TgLoad { idx, .. } => lemma_fits_index(sc, *idx),
        KirExpr::ThreadLoad { idx, .. } => lemma_fits_index(sc, *idx),
        KirExpr::VecMulSum { a_idx, b_idx, .. } => {
            lemma_fits(sc, *a_idx, false);
            lemma_fits(sc, *b_idx, false);
        },
        KirExpr::Bin { op, a, b } => {
            lemma_fits(sc, *a, as_float);
            lemma_fits(sc, *b, as_float);
        },
        KirExpr::Unary { op, a } => lemma_fits(sc, *a, true),
        KirExpr::CastU32ToF32(a) => lemma_fits(sc, *a, false),
        KirExpr::CastF32ToU32(a) => lemma_fits(sc, *a, true),
        _ => {},
    }
}

proof fn lemma_fits_index<V>(sc: Scene<V>, e: KirExpr)
    requires
        fits_index(sc.k, e),
    ensures
        sc.sound_index(e),
    decreases e, 1nat,
{
    if is_uint(e) {
        lemma_fits(sc, e, false);
    } else {
        lemma_fits(sc, e, true);
    }
}

/// Whether a comparison is of one type.
pub open spec fn cond_fits(k: Params, e: KirExpr) -> bool {
    let both = |a: KirExpr, b: KirExpr|
        if is_uint(a) && is_uint(b) {
            is_index(a) && fits(k, a, false) && fits(k, b, false)
        } else {
            !is_index(a) && fits(k, a, true) && fits(k, b, true)
        };
    match e {
        KirExpr::CmpGt { a, b } => both(*a, *b),
        KirExpr::CmpEq { a, b } => both(*a, *b),
        _ => false,
    }
}

/// The comparison of the source for one of the kernel.
pub open spec fn cond_of(e: KirExpr, lits: Seq<LitV>) -> Cond {
    let with = |a: KirExpr, b: KirExpr, greater: bool|
        {
            let f = !is_uint(a) || !is_uint(b);
            Cond { greater, a: term_of(a, f, lits), b: term_of(b, f, lits) }
        };
    match e {
        KirExpr::CmpGt { a, b } => with(*a, *b, true),
        KirExpr::CmpEq { a, b } => with(*a, *b, false),
        _ => arbitrary(),
    }
}

/// Whether a statement can be written and run: its expressions fit, and it stores only to outputs,
/// in their precision.
pub open spec fn code_fits(k: Params, elem: DType, c: Code) -> bool
    decreases c,
{
    match c {
        Code::Flat(s) => match s {
            KirStmt::Let { expr, .. } => fits(k, expr, true),
            KirStmt::Assign { expr, .. } => fits(k, expr, true),
            KirStmt::LetU32 { expr, .. } => fits_index(k, expr),
            KirStmt::Store { buf, idx, val } => {
                &&& k.n_in <= buf
                &&& (elem == DType::F16) == ((k.kind)(buf) == DType::F16)
                &&& fits_index(k, idx) && fits(k, val, true)
            },
            KirStmt::TgStore { idx, val, .. } => fits_index(k, idx) && fits(k, val, true),
            KirStmt::ThreadStore { idx, val, .. } => fits_index(k, idx) && fits(k, val, true),
            KirStmt::TgDeclF32 { .. } | KirStmt::ThreadDeclF32 { .. } => true,
            _ => false,
        },
        Code::For { body, .. } => codes_fit(k, elem, body),
        Code::ForRange { limit_off, bound, step, body, .. } => {
            &&& is_uint(limit_off) && fits(k, limit_off, false)
            &&& is_uint(bound) && fits(k, bound, false)
            &&& is_uint(step) && fits(k, step, false)
            &&& codes_fit(k, elem, body)
        },
        Code::If { cond, body } => cond_fits(k, cond) && codes_fit(k, elem, body),
    }
}

pub open spec fn codes_fit(k: Params, elem: DType, b: Seq<Code>) -> bool
    decreases b,
{
    b.len() == 0 || (codes_fit(k, elem, b.drop_last()) && code_fits(k, elem, b.last()))
}

/// The statement of the source for one of the kernel.
pub open spec fn src_of(c: Code, elem: DType, lits: Seq<LitV>) -> Src
    decreases c,
{
    match c {
        Code::Flat(s) => match s {
            KirStmt::Let { id, expr } => Src::Float(id, term_of(expr, true, lits)),
            KirStmt::Assign { id, expr } => Src::Assign(id, term_of(expr, true, lits)),
            KirStmt::LetU32 { id, expr } => Src::Uint(id, term_of(expr, !is_uint(expr), lits)),
            KirStmt::Store { buf, idx, val } => Src::Put {
                a: Arr::Device(buf),
                at: index_term(idx, lits),
                val: term_of(val, true, lits),
                half: elem == DType::F16,
            },
            KirStmt::TgStore { id, idx, val } => Src::Put {
                a: Arr::Group(id),
                at: index_term(idx, lits),
                val: term_of(val, true, lits),
                half: false,
            },
            KirStmt::ThreadStore { id, idx, val } => Src::Put {
                a: Arr::Own(id),
                at: index_term(idx, lits),
                val: term_of(val, true, lits),
                half: false,
            },
            KirStmt::TgDeclF32 { id, n } => Src::Array { a: Arr::Group(id), n },
            KirStmt::ThreadDeclF32 { id, n } => Src::Array { a: Arr::Own(id), n },
            _ => arbitrary(),
        },
        Code::For { id, n, body } => Src::Counted { id, n, body: srcs_of(body, elem, lits) },
        Code::ForRange { id, limit_off, bound, step, body } => Src::Ranged {
            id,
            off: term_of(limit_off, false, lits),
            bound: term_of(bound, false, lits),
            step: term_of(step, false, lits),
            body: srcs_of(body, elem, lits),
        },
        Code::If { cond, body } => Src::When {
            cond: cond_of(cond, lits),
            body: srcs_of(body, elem, lits),
        },
    }
}

pub open spec fn srcs_of(b: Seq<Code>, elem: DType, lits: Seq<LitV>) -> Seq<Src>
    decreases b,
{
    if b.len() == 0 {
        Seq::empty()
    } else {
        srcs_of(b.drop_last(), elem, lits).push(src_of(b.last(), elem, lits))
    }
}

proof fn lemma_literals()
    ensures
        same("threadgroup float tg"@, "threadgroup float "@ + "tg"@),
        same("thread float th"@, "thread float "@ + "th"@),
{
    reveal_strlit("threadgroup float tg");
    reveal_strlit("threadgroup float ");
    reveal_strlit("tg");
    reveal_strlit("thread float th");
    reveal_strlit("thread float ");
    reveal_strlit("th");
    assert("threadgroup float tg"@ =~= "threadgroup float "@ + "tg"@);
    assert("thread float th"@ =~= "thread float "@ + "th"@);
}

/// The text of an unsigned declaration: an index as it stands.
proof fn lemma_let_text<V>(sc: Scene<V>, e: KirExpr, lits: Seq<LitV>)
    requires
        sc.reads(lits),
        sc.inputs_kept(),
        fits_index(sc.k, e),
        expr_text(e, sc.k.n_in, sc.k.n_out, false, lits) is Ok,
    ensures
        ({
            let t = term_of(e, !is_uint(e), lits);
            &&& same(written(sc.k, t), expr_text(e, sc.k.n_in, sc.k.n_out, false, lits)->Ok_0)
            &&& sc.uint_of(sc.eval(t)) == index(sc.ar, sc.l, sc.r, e)
        }),
{
    let (n_in, n_out) = (sc.k.n_in, sc.k.n_out);
    if is_uint(e) {
        lemma_fits(sc, e, false);
        let t = lemma_written(sc, e, false, lits);
    } else {
        lemma_fits(sc, e, true);
        assert(expr_text(e, n_in, n_out, true, lits) == expr_text(e, n_in, n_out, false, lits));
        let t = lemma_written(sc, e, true, lits);
    }
}

/// A statement without a block: what is written does what the statement does.
proof fn lemma_flat_written<V>(
    sc: Scene<V>,
    s: KirStmt,
    pad: Seq<char>,
    elem: DType,
    lits: Seq<LitV>,
)
    requires
        sc.reads(lits),
        sc.inputs_kept(),
        code_fits(sc.k, elem, Code::Flat(s)),
        flat_text(s, pad, sc.k.n_in, sc.k.n_out, elem, lits) is Ok,
    ensures
        same(
            flat_text(s, pad, sc.k.n_in, sc.k.n_out, elem, lits)->Ok_0,
            src_text(sc.k, pad, src_of(Code::Flat(s), elem, lits)),
        ),
        sc.does(src_of(Code::Flat(s), elem, lits)) == flat(sc.ar, sc.l, s, sc.r),
        sc.with(flat(sc.ar, sc.l, s, sc.r)).inputs_kept(),
{
    let (n_in, n_out) = (sc.k.n_in, sc.k.n_out);
    match s {
        KirStmt::Let { id, expr } => {
            lemma_fits(sc, expr, true);
            let t = lemma_written(sc, expr, true, lits);
        },
        KirStmt::Assign { id, expr } => {
            lemma_fits(sc, expr, true);
            let t = lemma_written(sc, expr, true, lits);
        },
        KirStmt::LetU32 { id, expr } => {
            lemma_let_text(sc, expr, lits);
        },
        KirStmt::Store { buf, idx, val } => {
            lemma_fits_index(sc, idx);
            lemma_fits(sc, val, true);
            let i = lemma_index_text(sc, idx, lits);
            let t = lemma_written(sc, val, true, lits);
        },
        KirStmt::TgStore { id, idx, val } => {
            lemma_fits_index(sc, idx);
            lemma_fits(sc, val, true);
            let i = lemma_index_text(sc, idx, lits);
            let t = lemma_written(sc, val, true, lits);
            assert(pad + "tg"@ + dec(id as nat) =~= pad + ("tg"@ + dec(id as nat)));
        },
        KirStmt::ThreadStore { id, idx, val } => {
            lemma_fits_index(sc, idx);
            lemma_fits(sc, val, true);
            let i = lemma_index_text(sc, idx, lits);
            let t = lemma_written(sc, val, true, lits);
            assert(pad + "th"@ + dec(id as nat) =~= pad + ("th"@ + dec(id as nat)));
        },
        KirStmt::TgDeclF32 { id, n } => {
            lemma_literals();
            assert(pad + ("threadgroup float "@ + "tg"@) + dec(id as nat) =~= pad
                + "threadgroup float "@ + ("tg"@ + dec(id as nat)));
        },
        KirStmt::ThreadDeclF32 { id, n } => {
            lemma_literals();
            assert(pad + ("thread float "@ + "th"@) + dec(id as nat) =~= pad + "thread float "@ + (
            "th"@ + dec(id as nat)));
        },
        _ => {},
    }
}

/// The text of a comparison is that of the source, and holds when the comparison does.
proof fn lemma_cond_written<V>(sc: Scene<V>, e: KirExpr, lits: Seq<LitV>)
    requires
        sc.reads(lits),
        sc.inputs_kept(),
        cond_fits(sc.k, e),
        expr_text(e, sc.k.n_in, sc.k.n_out, true, lits) is Ok,
    ensures
        ({
            let c = cond_of(e, lits);
            &&& same(
                expr_text(e, sc.k.n_in, sc.k.n_out, true, lits)->Ok_0,
                "(("@ + written(sc.k, c.a) + (if c.greater {
                    ") > ("@
                } else {
                    ") == ("@
                }) + written(sc.k, c.b) + "))"@,
            )
            &&& sc.compares(c) == holds(sc.ar, sc.l, sc.r, e)
        }),
{
    match e {
        KirExpr::CmpGt { a, b } => {
            let f = !is_uint(*a) || !is_uint(*b);
            lemma_fits(sc, *a, f);
            lemma_fits(sc, *b, f);
            let s = lemma_written(sc, *a, f, lits);
            let t = lemma_written(sc, *b, f, lits);
        },
        KirExpr::CmpEq { a, b } => {
            let f = !is_uint(*a) || !is_uint(*b);
            lemma_fits(sc, *a, f);
            lemma_fits(sc, *b, f);
            let s = lemma_written(sc, *a, f, lits);
            let t = lemma_written(sc, *b, f, lits);
        },
        _ => {},
    }
}

/// The text of a statement is that of its statement of the source.
pub proof fn lemma_code_text<V>(
    sc: Scene<V>,
    c: Code,
    pad: Seq<char>,
    elem: DType,
    lits: Seq<LitV>,
)
    requires
        sc.reads(lits),
        sc.inputs_kept(),
        code_fits(sc.k, elem, c),
        code_text(c, pad, sc.k.n_in, sc.k.n_out, elem, lits) is Ok,
    ensures
        same(
            code_text(c, pad, sc.k.n_in, sc.k.n_out, elem, lits)->Ok_0,
            src_text(sc.k, pad, src_of(c, elem, lits)),
        ),
    decreases c,
{
    match c {
        Code::Flat(s) => lemma_flat_written(sc, s, pad, elem, lits),
        Code::For { id, n, body } => {
            lemma_block_text(sc, body, pad + "  "@, elem, lits);
        },
        Code::ForRange { id, limit_off, bound, step, body } => {
            lemma_fits(sc, limit_off, false);
            lemma_fits(sc, bound, false);
            lemma_fits(sc, step, false);
            let a = lemma_written(sc, limit_off, false, lits);
            let b = lemma_written(sc, bound, false, lits);
            let d = lemma_written(sc, step, false, lits);
            lemma_block_text(sc, body, pad + "  "@, elem, lits);
        },
        Code::If { cond, body } => {
            lemma_cond_written(sc, cond, lits);
            lemma_block_text(sc, body, pad + "  "@, elem, lits);
        },
    }
}

/// The text of a block is that of its block of the source.
pub proof fn lemma_block_text<V>(
    sc: Scene<V>,
    b: Seq<Code>,
    pad: Seq<char>,
    elem: DType,
    lits: Seq<LitV>,
)
    requires
        sc.reads(lits),
        sc.inputs_kept(),
        codes_fit(sc.k, elem, b),
        block_text(b, pad, sc.k.n_in, sc.k.n_out, elem, lits) is Ok,
    ensures
        same(
            block_text(b, pad, sc.k.n_in, sc.k.n_out, elem, lits)->Ok_0,
            srcs_text(sc.k, pad, srcs_of(b, elem, lits)),
        ),
    decreases b,
{
    if b.len() > 0 {
        lemma_block_text(sc, b.drop_last(), pad, elem, lits);
        lemma_code_text(sc, b.last(), pad, elem, lits);
        let all = srcs_of(b, elem, lits);
        assert(all.drop_last() =~= srcs_of(b.drop_last(), elem, lits));
        assert(all.last() == src_of(b.last(), elem, lits));
    }
}

/// Whether the loops over ranges in a statement come forward in every turn, so that the machine
/// says what they do.
pub open spec fn tame<V>(ar: Arith<V>, l: Lane<V>, c: Code, r: Regs<V>) -> bool
    decreases c, 1nat, 0nat,
{
    match c {
        Code::Flat(_) => true,
        Code::If { cond, body } => holds(ar, l, r, cond) ==> tame_to(ar, l, body, body.len(), r),
        Code::ForRange { .. } => tame_turns(ar, l, c, r),
        Code::For { n, .. } => tame_counted(ar, l, c, n as nat, r),
    }
}

pub open spec fn tame_turns<V>(ar: Arith<V>, l: Lane<V>, c: Code, r: Regs<V>) -> bool
    decreases c, 0nat, (match c {
        Code::ForRange { id, .. } => left(r.u[id]),
        _ => 0,
    }),
{
    match c {
        Code::ForRange { id, limit_off, bound, step, body } => {
            if wrap(r.u[id] + index(ar, l, r, limit_off)) < index(ar, l, r, bound) {
                let b = run_to(ar, l, body, body.len(), r);
                let at = wrap(b.u[id] + index(ar, l, b, step));
                let next = Regs { u: b.u.insert(id, at), ..b };
                tame_to(ar, l, body, body.len(), r) && r.u[id] < at && tame_turns(ar, l, c, next)
            } else {
                true
            }
        },
        _ => true,
    }
}

pub open spec fn tame_counted<V>(
    ar: Arith<V>,
    l: Lane<V>,
    c: Code,
    n: nat,
    r: Regs<V>,
) -> bool
    decreases c, 0nat, n,
{
    match c {
        Code::For { id, body, .. } => if n == 0 {
            true
        } else {
            let p = counted(ar, l, c, (n - 1) as nat, r);
            let q = Regs { u: p.u.insert(id, n - 1), ..p };
            tame_counted(ar, l, c, (n - 1) as nat, r) && tame_to(ar, l, body, body.len(), q)
        },
        _ => true,
    }
}

pub open spec fn tame_to<V>(
    ar: Arith<V>,
    l: Lane<V>,
    b: Seq<Code>,
    n: nat,
    r: Regs<V>,
) -> bool
    decreases b, 0nat, n,
{
    if n == 0 || n > b.len() {
        true
    } else {
        tame_to(ar, l, b, (n - 1) as nat, r) && tame(
            ar,
            l,
            b[n - 1],
            run_to(ar, l, b, (n - 1) as nat, r),
        )
    }
}

/// The statements of a block, one by one.
proof fn lemma_part(
    k: Params,
    b: Seq<Code>,
    i: int,
    pad: Seq<char>,
    elem: DType,
    lits: Seq<LitV>,
)
    requires
        0 <= i < b.len(),
        codes_fit(k, elem, b),
        block_text(b, pad, k.n_in, k.n_out, elem, lits) is Ok,
    ensures
        srcs_of(b, elem, lits).len() == b.len(),
        srcs_of(b, elem, lits)[i] == src_of(b[i], elem, lits),
        code_fits(k, elem, b[i]),
        code_text(b[i], pad, k.n_in, k.n_out, elem, lits) is Ok,
    decreases b.len(),
{
    let before = b.drop_last();
    if before.len() > 0 {
        if i < before.len() {
            lemma_part(k, before, i, pad, elem, lits);
            assert(before[i] == b[i]);
        } else {
            lemma_part(k, before, 0, pad, elem, lits);
        }
    } else {
        assert(srcs_of(before, elem, lits).len() == 0);
    }
}

pub proof fn lemma_len(b: Seq<Code>, elem: DType, lits: Seq<LitV>)
    ensures
        srcs_of(b, elem, lits).len() == b.len(),
    decreases b.len(),
{
    if b.len() > 0 {
        lemma_len(b.drop_last(), elem, lits);
    }
}

proof fn lemma_turns_run<V>(
    sc: Scene<V>,
    c: Code,
    r: Regs<V>,
    pad: Seq<char>,
    elem: DType,
    lits: Seq<LitV>,
)
    requires
        c is ForRange,
        sc.reads(lits),
        sc.with(r).inputs_kept(),
        code_fits(sc.k, elem, c),
        code_text(c, pad, sc.k.n_in, sc.k.n_out, elem, lits) is Ok,
        tame_turns(sc.ar, sc.l, c, r),
    ensures
        src_turns(sc, src_of(c, elem, lits), r) == turns(sc.ar, sc.l, c, r),
        sc.with(turns(sc.ar, sc.l, c, r)).inputs_kept(),
    decreases c, 0nat, (match c {
        Code::ForRange { id, .. } => left(r.u[id]),
        _ => 0,
    }),
{
    match c {
        Code::ForRange { id, limit_off, bound, step, body } => {
            let at = sc.with(r);
            lemma_fits(at, limit_off, false);
            lemma_fits(at, bound, false);
            let t0 = lemma_written(at, limit_off, false, lits);
            let t1 = lemma_written(at, bound, false, lits);
            if wrap(r.u[id] + index(sc.ar, sc.l, r, limit_off)) < index(sc.ar, sc.l, r, bound) {
                lemma_to_run(sc, body, body.len(), r, pad + "  "@, elem, lits);
                lemma_len(body, elem, lits);
                let b = run_to(sc.ar, sc.l, body, body.len(), r);
                let to = sc.with(b);
                lemma_fits(to, step, false);
                let t2 = lemma_written(to, step, false, lits);
                let n = wrap(b.u[id] + index(sc.ar, sc.l, b, step));
                let next = Regs { u: b.u.insert(id, n), ..b };
                assert(sc.with(next).inputs_kept());
                lemma_turns_run(sc, c, next, pad, elem, lits);
            }
        },
        _ => {},
    }
}

/// A turn of a loop that counts.
proof fn lemma_src_turn<V>(sc: Scene<V>, id: u32, count: usize, body: Seq<Src>, n: nat, r: Regs<V>)
    requires
        n > 0,
    ensures
        ({
            let s = Src::Counted { id, n: count, body };
            let p = src_counted(sc, s, (n - 1) as nat, r);
            src_counted(sc, s, n, r) == src_to(
                sc,
                body,
                body.len(),
                (Regs { u: p.u.insert(id, n - 1), ..p }),
            )
        }),
{
}

proof fn lemma_turn<V>(
    ar: Arith<V>,
    l: Lane<V>,
    id: u32,
    count: usize,
    body: Seq<Code>,
    n: nat,
    r: Regs<V>,
)
    requires
        n > 0,
    ensures
        ({
            let c = Code::For { id, n: count, body };
            let p = counted(ar, l, c, (n - 1) as nat, r);
            let q = Regs { u: p.u.insert(id, n - 1), ..p };
            &&& counted(ar, l, c, n, r) == run_to(ar, l, body, body.len(), q)
            &&& tame_counted(ar, l, c, n, r) ==> tame_counted(ar, l, c, (n - 1) as nat, r)
                && tame_to(ar, l, body, body.len(), q)
        }),
{
}

proof fn lemma_counted_run<V>(
    sc: Scene<V>,
    id: u32,
    count: usize,
    body: Seq<Code>,
    n: nat,
    r: Regs<V>,
    pad: Seq<char>,
    elem: DType,
    lits: Seq<LitV>,
)
    requires
        sc.reads(lits),
        sc.with(r).inputs_kept(),
        codes_fit(sc.k, elem, body),
        block_text(body, pad, sc.k.n_in, sc.k.n_out, elem, lits) is Ok,
        tame_counted(sc.ar, sc.l, Code::For { id, n: count, body }, n, r),
    ensures
        src_counted(sc, Src::Counted { id, n: count, body: srcs_of(body, elem, lits) }, n, r)
            == counted(sc.ar, sc.l, Code::For { id, n: count, body }, n, r),
        sc.with(counted(sc.ar, sc.l, Code::For { id, n: count, body }, n, r)).inputs_kept(),
    decreases body, 1nat, n,
{
    if n > 0 {
        let m = (n - 1) as nat;
        let all = srcs_of(body, elem, lits);
        lemma_turn(sc.ar, sc.l, id, count, body, n, r);
        lemma_src_turn(sc, id, count, all, n, r);
        lemma_len(body, elem, lits);
        lemma_counted_run(sc, id, count, body, m, r, pad, elem, lits);
        let p = counted(sc.ar, sc.l, Code::For { id, n: count, body }, m, r);
        let q = Regs { u: p.u.insert(id, n - 1), ..p };
        assert forall|at: (u32, int)| #[trigger]
            sc.with(q).r.stored.contains_key(at) implies at.0 >= sc.k.n_in by {
            assert(sc.with(p).r.stored.contains_key(at));
        }
        lemma_to_run(sc, body, body.len(), q, pad, elem, lits);
    }
}

proof fn lemma_to_run<V>(
    sc: Scene<V>,
    b: Seq<Code>,
    n: nat,
    r: Regs<V>,
    pad: Seq<char>,
    elem: DType,
    lits: Seq<LitV>,
)
    requires
        n <= b.len(),
        sc.reads(lits),
        sc.with(r).inputs_kept(),
        codes_fit(sc.k, elem, b),
        block_text(b, pad, sc.k.n_in, sc.k.n_out, elem, lits) is Ok,
        tame_to(sc.ar, sc.l, b, n, r),
    ensures
        src_to(sc, srcs_of(b, elem, lits), n, r) == run_to(sc.ar, sc.l, b, n, r),
        sc.with(run_to(sc.ar, sc.l, b, n, r)).inputs_kept(),
    decreases b, 0nat, n,
{
    lemma_len(b, elem, lits);
    if n > 0 {
        lemma_to_run(sc, b, (n - 1) as nat, r, pad, elem, lits);
        lemma_part(sc.k, b, n - 1, pad, elem, lits);
        lemma_step_run(
            sc,
            b[n - 1],
            run_to(sc.ar, sc.l, b, (n - 1) as nat, r),
            pad,
            elem,
            lits,
        );
    }
}

/// The rendered text of a statement, run by a thread, does what the machine says that the
/// statement does: expressions, assignments, stores, loops and conditions.
pub proof fn lemma_step_run<V>(
    sc: Scene<V>,
    c: Code,
    r: Regs<V>,
    pad: Seq<char>,
    elem: DType,
    lits: Seq<LitV>,
)
    requires
        sc.reads(lits),
        sc.with(r).inputs_kept(),
        code_fits(sc.k, elem, c),
        code_text(c, pad, sc.k.n_in, sc.k.n_out, elem, lits) is Ok,
        tame(sc.ar, sc.l, c, r),
    ensures
        same(
            code_text(c, pad, sc.k.n_in, sc.k.n_out, elem, lits)->Ok_0,
            src_text(sc.k, pad, src_of(c, elem, lits)),
        ),
        src_step(sc, src_of(c, elem, lits), r) == step(sc.ar, sc.l, c, r),
        sc.with(step(sc.ar, sc.l, c, r)).inputs_kept(),
    decreases c, 1nat, 0nat,
{
    lemma_code_text(sc.with(r), c, pad, elem, lits);
    match c {
        Code::Flat(s) => lemma_flat_written(sc.with(r), s, pad, elem, lits),
        Code::For { id, n, body } => {
            lemma_counted_run(sc, id, n, body, n as nat, r, pad + "  "@, elem, lits);
        },
        Code::ForRange { .. } => lemma_turns_run(sc, c, r, pad, elem, lits),
        Code::If { cond, body } => {
            lemma_cond_written(sc.with(r), cond, lits);
            lemma_len(body, elem, lits);
            if holds(sc.ar, sc.l, r, cond) {
                lemma_to_run(sc, body, body.len(), r, pad + "  "@, elem, lits);
            }
        },
    }
}

/// The rendered text of a block, run by a thread, does what the machine says that the block does.
pub proof fn lemma_block_run<V>(
    sc: Scene<V>,
    b: Seq<Code>,
    r: Regs<V>,
    pad: Seq<char>,
    elem: DType,
    lits: Seq<LitV>,
)
    requires
        sc.reads(lits),
        sc.with(r).inputs_kept(),
        codes_fit(sc.k, elem, b),
        block_text(b, pad, sc.k.n_in, sc.k.n_out, elem, lits) is Ok,
        tame_to(sc.ar, sc.l, b, b.len(), r),
    ensures
        same(
            block_text(b, pad, sc.k.n_in, sc.k.n_out, elem, lits)->Ok_0,
            srcs_text(sc.k, pad, srcs_of(b, elem, lits)),
        ),
        src_to(sc, srcs_of(b, elem, lits), b.len(), r) == run_to(sc.ar, sc.l, b, b.len(), r),
{
    lemma_block_text(sc.with(r), b, pad, elem, lits);
    lemma_to_run(sc, b, b.len(), r, pad, elem, lits);
}

} // verus!
