//! What the renderer writes for an expression evaluates to what the expression stands for.

use vstd::prelude::*;
use vstd::string::*;

use crate::codegen::laws::machine::{index, index_op, shared_at, value};
use crate::codegen::laws::source::{
    array_name, grammatical, looseness, written, Arr, Fun, Params, Scene, Sign, Term, Val, Word,
};
use crate::codegen::laws::written_dots::{
    device_product, has_product, is_bare, lemma_device_product, lemma_dot_same,
    lemma_staged_product, same, staged_product,
};
use crate::codegen::render::expr::{
    bin_text, buf_text, dot_text, expr_text, index_text, is_uint, lit_of, load_text, un_text, LitV,
};
use crate::ir::dtype::{DType, Scalar};
use crate::ir::kernel::{BinOp, KirExpr, UnaryOp};
use crate::text::dec;

verus! {

/// Whether an expression is a product without brackets, which must not stand behind an operator
/// that binds as tightly.
pub open spec fn is_loose(e: KirExpr) -> bool {
    match e {
        KirExpr::VecMulSum { width, dtype, .. } => is_bare(width, dtype),
        _ => false,
    }
}

impl<V> Scene<V> {
    /// Whether an index is unsigned, or a float that is cut: one that begins with a variable.
    pub open spec fn sound_index(self, e: KirExpr) -> bool
        decreases e, 1nat,
    {
        if is_uint(e) {
            self.sound(e, false)
        } else {
            &&& e matches KirExpr::Bin { a, .. } && *a is Var
            &&& self.sound(e, true)
        }
    }

    /// Whether an expression is of one type, float or unsigned as asked for, reads buffers as what
    /// they hold, and takes products that can be written, within the range of unsigned numbers.
    pub open spec fn sound(self, e: KirExpr, as_float: bool) -> bool
        decreases e, 0nat,
    {
        match e {
            KirExpr::ConstF32(_) | KirExpr::Var(_) => as_float,
            KirExpr::ConstU32(_)
            | KirExpr::Gid
            | KirExpr::Lid
            | KirExpr::ForVar(_)
            | KirExpr::UVar(_) => true,
            KirExpr::Load { buf, idx, dtype } => {
                &&& as_float
                &&& (self.k.kind)(buf) == dtype
                &&& dtype is F32 || dtype is F16 || dtype is Q4K || dtype is Q6K || dtype is Q40
                &&& self.sound_index(*idx)
            },
            KirExpr::TgLoad { id, idx } => as_float && self.sound_index(*idx),
            KirExpr::ThreadLoad { id, idx } => as_float && self.sound_index(*idx),
            KirExpr::VecMulSum { a_buf, a_idx, b_buf, b_idx, width, dtype, b_from_tg } => {
                &&& as_float
                &&& is_uint(*a_idx) && self.sound(*a_idx, false)
                &&& is_uint(*b_idx) && self.sound(*b_idx, false)
                &&& a_buf < self.k.n_in
                &&& (self.k.kind)(a_buf) == dtype
                &&& has_product(width, dtype)
                &&& b_from_tg is None ==> {
                    let j = index(self.ar, self.l, self.r, *b_idx);
                    &&& b_buf < self.k.n_in
                    &&& (self.k.kind)(b_buf) == (if dtype is F32 {
                        DType::F32
                    } else {
                        DType::F16
                    })
                    &&& (dtype is Q4K || dtype is Q40) && (width == 2 || width == 4) ==> 0 <= j
                        < 0x1_0000_0000 - width
                }
            },
            KirExpr::Bin { op, a, b } => if as_float {
                &&& self.sound(*a, true) && self.sound(*b, true)
                &&& (op is Mul || op is Div) ==> !is_loose(*b)
            } else {
                is_uint(*a) && is_uint(*b) && self.sound(*a, false) && self.sound(*b, false)
            },
            KirExpr::Unary { op, a } => {
                &&& as_float && self.sound(*a, true)
                &&& op is Neg ==> !is_loose(*a)
            },
            KirExpr::CastU32ToF32(a) => as_float && is_uint(*a) && self.sound(*a, false),
            KirExpr::CastF32ToU32(a) => !as_float && self.sound(*a, true),
            _ => false,
        }
    }

    /// Whether every literal of a table stands for its constant.
    pub open spec fn reads(self, lits: Seq<LitV>) -> bool {
        forall|s: Scalar|
            (#[trigger] lit_of(lits, s)) matches Some(t) ==> (self.read)(t) == (self.ar.constant)(s)
    }

    /// Whether no input was written.
    pub open spec fn inputs_kept(self) -> bool {
        forall|at: (u32, int)| #[trigger] self.r.stored.contains_key(at) ==> at.0 >= self.k.n_in
    }

    /// What an expression stands for, as a float or as an index.
    pub open spec fn stands_for(self, e: KirExpr, as_float: bool) -> Val<V> {
        if as_float {
            Val::Float(value(self.ar, self.l, self.r, e))
        } else {
            Val::Uint(index(self.ar, self.l, self.r, e))
        }
    }

    /// Whether an expression of the source is a text, is read as what it is, and evaluates to a
    /// value.
    pub open spec fn says(self, t: Term, text: Seq<char>, v: Val<V>) -> bool {
        same(written(self.k, t), text) && grammatical(t) && self.eval(t) == v
    }
}

/// The expression of the source for an operation.
pub open spec fn op_term(op: BinOp, s: Term, t: Term) -> Term {
    match op {
        BinOp::Max => Term::Call2(Fun::Max, Box::new(s), Box::new(t)),
        BinOp::Min => Term::Call2(Fun::Min, Box::new(s), Box::new(t)),
        BinOp::Add => Term::Brackets(Box::new(Term::Infix(Sign::Plus, Box::new(s), Box::new(t)))),
        BinOp::Sub => Term::Brackets(Box::new(Term::Infix(Sign::Minus, Box::new(s), Box::new(t)))),
        BinOp::Mul => Term::Brackets(Box::new(Term::Infix(Sign::Times, Box::new(s), Box::new(t)))),
        BinOp::Div => Term::Brackets(Box::new(Term::Infix(Sign::Over, Box::new(s), Box::new(t)))),
    }
}

/// The expression of the source for an operation on one value.
pub open spec fn un_term(op: UnaryOp, t: Term) -> Term {
    match op {
        UnaryOp::Neg => Term::Brackets(Box::new(Term::Negated(Box::new(t)))),
        UnaryOp::Exp => Term::Call1(Fun::Exp, Box::new(t)),
        UnaryOp::Tanh => Term::Call1(Fun::Tanh, Box::new(t)),
        UnaryOp::Rsqrt => Term::Call1(Fun::Rsqrt, Box::new(t)),
        UnaryOp::Sqrt => Term::Call1(Fun::Sqrt, Box::new(t)),
        UnaryOp::Floor => Term::Call1(Fun::Floor, Box::new(t)),
    }
}

/// An unsigned word, as it is or as a float.
pub open spec fn uint_term(w: Word, as_float: bool) -> Term {
    if as_float {
        Term::Call1(Fun::ToFloat, Box::new(Term::Word(w)))
    } else {
        Term::Word(w)
    }
}

pub open spec fn element_term(a: Arr, t: Term) -> Term {
    Term::Element(Box::new(Term::Word(Word::Array(a))), Box::new(t))
}

/// The expression of the source for an element of a buffer.
pub open spec fn load_term(dtype: DType, b: u32, t: Term) -> Term {
    match dtype {
        DType::F32 => element_term(Arr::Device(b), t),
        DType::F16 => Term::Call1(Fun::ToFloat, Box::new(element_term(Arr::Device(b), t))),
        _ => Term::Call2(
            Fun::Load(dtype),
            Box::new(Term::Word(Word::Array(Arr::Device(b)))),
            Box::new(t),
        ),
    }
}

/// The expression of the source for an index.
pub open spec fn index_term(e: KirExpr, lits: Seq<LitV>) -> Term
    decreases e, 1nat,
{
    if is_uint(e) {
        term_of(e, false, lits)
    } else {
        Term::Call1(Fun::ToUint, Box::new(term_of(e, true, lits)))
    }
}

/// The expression of the source for an expression of the kernel.
pub open spec fn term_of(e: KirExpr, as_float: bool, lits: Seq<LitV>) -> Term
    decreases e, 0nat,
{
    match e {
        KirExpr::ConstF32(f) => Term::Word(Word::Literal(lit_of(lits, f)->0)),
        KirExpr::ConstU32(u) => if as_float {
            Term::Word(Word::Whole(u))
        } else {
            Term::Word(Word::Count(u))
        },
        KirExpr::Gid => uint_term(Word::Gid, as_float),
        KirExpr::Lid => uint_term(Word::Lid, as_float),
        KirExpr::ForVar(id) => uint_term(Word::Loop(id), as_float),
        KirExpr::Var(id) => Term::Word(Word::Real(id)),
        KirExpr::UVar(id) => uint_term(Word::Unsigned(id), as_float),
        KirExpr::Load { buf, idx, dtype } => load_term(dtype, buf, index_term(*idx, lits)),
        KirExpr::TgLoad { id, idx } => element_term(Arr::Group(id), index_term(*idx, lits)),
        KirExpr::ThreadLoad { id, idx } => element_term(Arr::Own(id), index_term(*idx, lits)),
        KirExpr::VecMulSum { a_buf, a_idx, b_buf, b_idx, width, dtype, b_from_tg } => {
            let ta = term_of(*a_idx, false, lits);
            let tb = term_of(*b_idx, false, lits);
            match b_from_tg {
                Some(id) => staged_product(a_buf, ta, id, tb, width, dtype),
                None => device_product(a_buf, ta, b_buf, tb, width, dtype),
            }
        },
        KirExpr::Bin { op, a, b } => op_term(
            op,
            term_of(*a, as_float, lits),
            term_of(*b, as_float, lits),
        ),
        KirExpr::Unary { op, a } => un_term(op, term_of(*a, true, lits)),
        KirExpr::CastU32ToF32(a) => Term::Call1(
            Fun::ToFloat,
            Box::new(term_of(*a, false, lits)),
        ),
        KirExpr::CastF32ToU32(a) => Term::Call1(Fun::ToUint, Box::new(term_of(*a, true, lits))),
        _ => arbitrary(),
    }
}

proof fn lemma_names(k: Params, b: u32)
    ensures
        buf_text(b, k.n_in, k.n_out) == array_name(k, Arr::Device(b)),
{
}

proof fn lemma_literals()
    ensures
        same("float(gid)"@, "float"@ + "("@ + "gid"@ + ")"@),
        same("float(lid)"@, "float"@ + "("@ + "lid"@ + ")"@),
        same("float(f"@, "float"@ + "("@ + "f"@),
        same("float(u"@, "float"@ + "("@ + "u"@),
        same("float("@, "float"@ + "("@),
        same("uint("@, "uint"@ + "("@),
        same("])"@, "]"@ + ")"@),
        same("max("@, "max"@ + "("@),
        same("min("@, "min"@ + "("@),
        same("(-"@, "("@ + "-"@),
        same("exp("@, "exp"@ + "("@),
        same("precise::tanh("@, "precise::tanh"@ + "("@),
        same("rsqrt("@, "rsqrt"@ + "("@),
        same("sqrt("@, "sqrt"@ + "("@),
        same("floor("@, "floor"@ + "("@),
        same("ksearch_load_q4k("@, "ksearch_load_q4k"@ + "("@),
        same("ksearch_load_q6k("@, "ksearch_load_q6k"@ + "("@),
        same("ksearch_load_q40("@, "ksearch_load_q40"@ + "("@),
{
    reveal_strlit("float(gid)");
    reveal_strlit("float(lid)");
    reveal_strlit("float(f");
    reveal_strlit("float(u");
    reveal_strlit("float(");
    reveal_strlit("uint(");
    reveal_strlit("])");
    reveal_strlit("max(");
    reveal_strlit("min(");
    reveal_strlit("(-");
    reveal_strlit("exp(");
    reveal_strlit("precise::tanh(");
    reveal_strlit("rsqrt(");
    reveal_strlit("sqrt(");
    reveal_strlit("floor(");
    reveal_strlit("ksearch_load_q4k(");
    reveal_strlit("ksearch_load_q6k(");
    reveal_strlit("ksearch_load_q40(");
    reveal_strlit("float");
    reveal_strlit("gid");
    reveal_strlit("lid");
    reveal_strlit("f");
    reveal_strlit("u");
    reveal_strlit("(");
    reveal_strlit(")");
    reveal_strlit("]");
    reveal_strlit("-");
    reveal_strlit("uint");
    reveal_strlit("max");
    reveal_strlit("min");
    reveal_strlit("exp");
    reveal_strlit("precise::tanh");
    reveal_strlit("rsqrt");
    reveal_strlit("sqrt");
    reveal_strlit("floor");
    reveal_strlit("ksearch_load_q4k");
    reveal_strlit("ksearch_load_q6k");
    reveal_strlit("ksearch_load_q40");
    assert("float(gid)"@ =~= "float"@ + "("@ + "gid"@ + ")"@);
    assert("float(lid)"@ =~= "float"@ + "("@ + "lid"@ + ")"@);
    assert("float(f"@ =~= "float"@ + "("@ + "f"@);
    assert("float(u"@ =~= "float"@ + "("@ + "u"@);
    assert("float("@ =~= "float"@ + "("@);
    assert("uint("@ =~= "uint"@ + "("@);
    assert("])"@ =~= "]"@ + ")"@);
    assert("max("@ =~= "max"@ + "("@);
    assert("min("@ =~= "min"@ + "("@);
    assert("(-"@ =~= "("@ + "-"@);
    assert("exp("@ =~= "exp"@ + "("@);
    assert("precise::tanh("@ =~= "precise::tanh"@ + "("@);
    assert("rsqrt("@ =~= "rsqrt"@ + "("@);
    assert("sqrt("@ =~= "sqrt"@ + "("@);
    assert("floor("@ =~= "floor"@ + "("@);
    assert("ksearch_load_q4k("@ =~= "ksearch_load_q4k"@ + "("@);
    assert("ksearch_load_q6k("@ =~= "ksearch_load_q6k"@ + "("@);
    assert("ksearch_load_q40("@ =~= "ksearch_load_q40"@ + "("@);
}

/// A call with one argument.
proof fn lemma_call<V>(sc: Scene<V>, f: Fun, head: Seq<char>, t: Term, x: Seq<char>, v: Val<V>)
    requires
        same(head, crate::codegen::laws::source::fun_text(f) + "("@),
        sc.says(t, x, v),
    ensures
        sc.says(Term::Call1(f, Box::new(t)), head + x + ")"@, sc.call1(f, v)),
{
    let c = Term::Call1(f, Box::new(t));
    let n = crate::codegen::laws::source::fun_text(f);
    assert(written(sc.k, c) == n + "("@ + written(sc.k, t) + ")"@);
    assert(grammatical(c));
    assert(sc.eval(c) == sc.call1(f, sc.eval(t)));
}

/// A name of two parts.
proof fn lemma_word<V>(sc: Scene<V>, w: Word, v: Val<V>)
    requires
        sc.eval(Term::Word(w)) == v,
    ensures
        sc.says(Term::Word(w), crate::codegen::laws::source::word_text(sc.k, w), v),
{
}

/// An element of an array.
proof fn lemma_element<V>(sc: Scene<V>, a: Arr, t: Term, x: Seq<char>, i: int)
    requires
        sc.says(t, x, Val::Uint(i)),
    ensures
        sc.says(
            Term::Element(Box::new(Term::Word(Word::Array(a))), Box::new(t)),
            array_name(sc.k, a) + "["@ + x + "]"@,
            sc.element(a, i),
        ),
{
    let p = Term::Word(Word::Array(a));
    let e = Term::Element(Box::new(p), Box::new(t));
    assert(written(sc.k, p) == array_name(sc.k, a));
    assert(written(sc.k, e) == written(sc.k, p) + "["@ + written(sc.k, t) + "]"@);
    assert(looseness(p) == 0 && grammatical(p));
    assert(grammatical(e));
    assert(sc.eval(p) == Val::<V>::Pointer(a, 0));
    assert(sc.eval(e) == sc.element(a, 0 + i));
}

/// An operation.
proof fn lemma_bin<V>(
    sc: Scene<V>,
    op: BinOp,
    s: Term,
    x: Seq<char>,
    u: Val<V>,
    t: Term,
    y: Seq<char>,
    v: Val<V>,
) -> (r: Term)
    requires
        sc.says(s, x, u),
        sc.says(t, y, v),
        looseness(s) <= 2,
        looseness(t) <= 2,
        (op is Mul || op is Div) ==> looseness(t) <= 1,
    ensures
        r == op_term(op, s, t),
        looseness(r) == 0,
        u matches Val::Float(a) ==> v matches Val::Float(b) ==> sc.says(
            r,
            bin_text(op, x, y),
            Val::Float((sc.ar.binary)(op, a, b)),
        ),
        u matches Val::Uint(a) ==> v matches Val::Uint(b) ==> sc.says(
            r,
            bin_text(op, x, y),
            Val::Uint(index_op(op, a, b)),
        ),
{
    lemma_literals();
    match op {
        BinOp::Max | BinOp::Min => {
            let f = if op is Max {
                Fun::Max
            } else {
                Fun::Min
            };
            let r = Term::Call2(f, Box::new(s), Box::new(t));
            let n = crate::codegen::laws::source::fun_text(f);
            assert(written(sc.k, r) == n + "("@ + x + ", "@ + y + ")"@);
            assert(grammatical(r));
            assert(sc.eval(r) == sc.call2(f, u, v));
            r
        },
        _ => {
            let sg = match op {
                BinOp::Add => Sign::Plus,
                BinOp::Sub => Sign::Minus,
                BinOp::Mul => Sign::Times,
                _ => Sign::Over,
            };
            let m = Term::Infix(sg, Box::new(s), Box::new(t));
            let r = Term::Brackets(Box::new(m));
            let g = crate::codegen::laws::source::sign_text(sg);
            assert(written(sc.k, m) == x + g + y);
            assert(written(sc.k, r) == "("@ + written(sc.k, m) + ")"@);
            assert("("@ + (x + g + y) + ")"@ =~= "("@ + x + g + y + ")"@);
            assert(grammatical(m));
            assert(grammatical(r));
            assert(sc.eval(m) == sc.infix(sg, u, v));
            assert(sc.eval(r) == sc.eval(m));
            r
        },
    }
}

/// An operation on one value.
proof fn lemma_un<V>(sc: Scene<V>, op: UnaryOp, t: Term, x: Seq<char>, a: V) -> (r: Term)
    requires
        sc.says(t, x, Val::Float(a)),
        op is Neg ==> looseness(t) <= 1,
    ensures
        r == un_term(op, t),
        looseness(r) == 0,
        sc.says(r, un_text(op, x), Val::Float((sc.ar.unary)(op, a))),
{
    lemma_literals();
    match op {
        UnaryOp::Neg => {
            let m = Term::Negated(Box::new(t));
            let r = Term::Brackets(Box::new(m));
            assert(written(sc.k, m) == "-"@ + x);
            assert(written(sc.k, r) == "("@ + written(sc.k, m) + ")"@);
            assert("("@ + ("-"@ + x) + ")"@ =~= ("("@ + "-"@) + x + ")"@);
            assert(grammatical(m));
            assert(grammatical(r));
            assert(sc.eval(m) == Val::<V>::Float((sc.ar.unary)(op, a)));
            assert(sc.eval(r) == sc.eval(m));
            r
        },
        UnaryOp::Exp => {
            lemma_call(sc, Fun::Exp, "exp("@, t, x, Val::Float(a));
            Term::Call1(Fun::Exp, Box::new(t))
        },
        UnaryOp::Tanh => {
            lemma_call(sc, Fun::Tanh, "precise::tanh("@, t, x, Val::Float(a));
            Term::Call1(Fun::Tanh, Box::new(t))
        },
        UnaryOp::Rsqrt => {
            lemma_call(sc, Fun::Rsqrt, "rsqrt("@, t, x, Val::Float(a));
            Term::Call1(Fun::Rsqrt, Box::new(t))
        },
        UnaryOp::Sqrt => {
            lemma_call(sc, Fun::Sqrt, "sqrt("@, t, x, Val::Float(a));
            Term::Call1(Fun::Sqrt, Box::new(t))
        },
        UnaryOp::Floor => {
            lemma_call(sc, Fun::Floor, "floor("@, t, x, Val::Float(a));
            Term::Call1(Fun::Floor, Box::new(t))
        },
    }
}

/// An unsigned word, as it is or as a float.
proof fn lemma_uint_word<V>(
    sc: Scene<V>,
    w: Word,
    i: int,
    as_float: bool,
    plain: Seq<char>,
    cast: Seq<char>,
) -> (t: Term)
    requires
        sc.eval(Term::Word(w)) == Val::<V>::Uint(i),
        same(plain, crate::codegen::laws::source::word_text(sc.k, w)),
        same(cast, "float("@ + plain + ")"@),
    ensures
        t == uint_term(w, as_float),
        looseness(t) == 0,
        as_float ==> sc.says(t, cast, Val::Float((sc.ar.of_index)(i))),
        !as_float ==> sc.says(t, plain, Val::Uint(i)),
{
    lemma_literals();
    let t = Term::Word(w);
    lemma_word(sc, w, Val::Uint(i));
    if as_float {
        lemma_call(sc, Fun::ToFloat, "float("@, t, plain, Val::Uint(i));
        Term::Call1(Fun::ToFloat, Box::new(t))
    } else {
        t
    }
}

/// One element of a buffer.
proof fn lemma_load<V>(sc: Scene<V>, dtype: DType, b: u32, t: Term, x: Seq<char>, i: int) -> (r:
    Term)
    requires
        (sc.k.kind)(b) == dtype,
        dtype is F32 || dtype is F16 || dtype is Q4K || dtype is Q6K || dtype is Q40,
        sc.says(t, x, Val::Uint(i)),
    ensures
        r == load_term(dtype, b, t),
        looseness(r) == 0,
        load_text(dtype, array_name(sc.k, Arr::Device(b)), x) matches Ok(s) && sc.says(
            r,
            s,
            Val::Float(sc.logical(b, i)),
        ),
{
    lemma_literals();
    let a = Arr::Device(b);
    let n = array_name(sc.k, a);
    lemma_element(sc, a, t, x, i);
    let e = Term::Element(Box::new(Term::Word(Word::Array(a))), Box::new(t));
    match dtype {
        DType::F32 => e,
        DType::F16 => {
            let inner = n + "["@ + x + "]"@;
            lemma_call(sc, Fun::ToFloat, "float("@, e, inner, Val::Half(sc.logical(b, i)));
            assert("float("@ + inner + ")"@ =~= "float("@ + n + "["@ + x + ("]"@ + ")"@));
            Term::Call1(Fun::ToFloat, Box::new(e))
        },
        _ => {
            let f = Fun::Load(dtype);
            let p = Term::Word(Word::Array(a));
            let r = Term::Call2(f, Box::new(p), Box::new(t));
            let m = crate::codegen::laws::source::fun_text(f);
            assert(written(sc.k, p) == n);
            assert(written(sc.k, r) == m + "("@ + n + ", "@ + x + ")"@);
            assert(sc.eval(p) == Val::<V>::Pointer(a, 0));
            assert(grammatical(p));
            assert(grammatical(r));
            assert(sc.eval(r) == sc.call2(f, sc.eval(p), sc.eval(t)));
            r
        },
    }
}

proof fn lemma_product<V>(
    sc: Scene<V>,
    e: KirExpr,
    ta: Term,
    ai: Seq<char>,
    tb: Term,
    bi: Seq<char>,
) -> (t: Term)
    requires
        sc.inputs_kept(),
        e is VecMulSum,
        sc.sound(e, true),
        sc.says(ta, ai, sc.stands_for(*e->a_idx, false)),
        sc.says(tb, bi, sc.stands_for(*e->b_idx, false)),
    ensures
        t == (match e->VecMulSum_b_from_tg {
            Some(id) => staged_product(e->a_buf, ta, id, tb, e->width, e->VecMulSum_dtype),
            None => device_product(e->a_buf, ta, e->b_buf, tb, e->width, e->VecMulSum_dtype),
        }),
        dot_text(
            e->a_buf,
            ai,
            e->b_buf,
            bi,
            e->width,
            e->VecMulSum_dtype,
            e->VecMulSum_b_from_tg,
            sc.k.n_in,
            sc.k.n_out,
        ) matches Ok(s) && sc.says(t, s, sc.stands_for(e, true)),
        looseness(t) <= (if is_loose(e) {
            2int
        } else {
            0
        }),
{
    match e {
        KirExpr::VecMulSum { a_buf, a_idx, b_buf, b_idx, width, dtype, b_from_tg } => {
            let i = index(sc.ar, sc.l, sc.r, *a_idx);
            let j = index(sc.ar, sc.l, sc.r, *b_idx);
            let (l, r) = (sc.l, sc.r);
            lemma_names(sc.k, a_buf);
            lemma_names(sc.k, b_buf);
            let p = |n: int| (l.bufs)(a_buf, i + n);
            let q = |n: int|
                match b_from_tg {
                    Some(id) => shared_at(l, r, id, j + n),
                    None => (l.bufs)(b_buf, j + n),
                };
            match b_from_tg {
                Some(id) => {
                    let t = lemma_staged_product(sc, a_buf, ta, i, id, tb, j, width, dtype);
                    lemma_dot_same(
                        sc.ar,
                        |n: int| sc.logical(a_buf, i + n),
                        p,
                        |n: int| shared_at(sc.l, sc.r, id, j + n),
                        q,
                        width as nat,
                    );
                    t
                },
                None => {
                    let t = lemma_device_product(sc, a_buf, ta, i, b_buf, tb, j, width, dtype);
                    lemma_dot_same(
                        sc.ar,
                        |n: int| sc.logical(a_buf, i + n),
                        p,
                        |n: int| sc.logical(b_buf, j + n),
                        q,
                        width as nat,
                    );
                    t
                },
            }
        },
        _ => arbitrary(),
    }
}

/// The text of an index evaluates to the index.
pub proof fn lemma_index_text<V>(sc: Scene<V>, e: KirExpr, lits: Seq<LitV>) -> (t: Term)
    requires
        sc.reads(lits),
        sc.inputs_kept(),
        sc.sound_index(e),
        expr_text(e, sc.k.n_in, sc.k.n_out, false, lits) is Ok,
    ensures
        t == index_term(e, lits),
        sc.says(
            t,
            index_text(e, expr_text(e, sc.k.n_in, sc.k.n_out, false, lits)->Ok_0),
            sc.stands_for(e, false),
        ),
    decreases e, 1nat,
{
    let (n_in, n_out) = (sc.k.n_in, sc.k.n_out);
    if is_uint(e) {
        lemma_written(sc, e, false, lits)
    } else {
        assert(expr_text(e, n_in, n_out, true, lits) == expr_text(e, n_in, n_out, false, lits));
        let t = lemma_written(sc, e, true, lits);
        lemma_literals();
        let x = expr_text(e, n_in, n_out, false, lits)->Ok_0;
        lemma_call(sc, Fun::ToUint, "uint("@, t, x, sc.stands_for(e, true));
        Term::Call1(Fun::ToUint, Box::new(t))
    }
}

/// The rendered text of an expression means what the expression stands for: there is an expression
/// of the source that is written as the text, is read as what it is, and evaluates, for every
/// thread, to the value that the machine gives the expression of the kernel.
pub proof fn lemma_written<V>(sc: Scene<V>, e: KirExpr, as_float: bool, lits: Seq<LitV>) -> (t:
    Term)
    requires
        sc.reads(lits),
        sc.inputs_kept(),
        sc.sound(e, as_float),
        expr_text(e, sc.k.n_in, sc.k.n_out, as_float, lits) is Ok,
    ensures
        t == term_of(e, as_float, lits),
        sc.says(
            t,
            expr_text(e, sc.k.n_in, sc.k.n_out, as_float, lits)->Ok_0,
            sc.stands_for(e, as_float),
        ),
        looseness(t) <= (if is_loose(e) {
            2int
        } else {
            0
        }),
    decreases e, 0nat,
{
    lemma_literals();
    let (n_in, n_out) = (sc.k.n_in, sc.k.n_out);
    match e {
        KirExpr::ConstF32(f) => {
            let s = lit_of(lits, f)->0;
            lemma_word(sc, Word::Literal(s), Val::Float((sc.read)(s)));
            Term::Word(Word::Literal(s))
        },
        KirExpr::ConstU32(u) => {
            if as_float {
                lemma_word(sc, Word::Whole(u), Val::Float((sc.ar.of_index)(u as int)));
                Term::Word(Word::Whole(u))
            } else {
                lemma_word(sc, Word::Count(u), Val::Uint(u as int));
                Term::Word(Word::Count(u))
            }
        },
        KirExpr::Gid => {
            lemma_uint_word(sc, Word::Gid, sc.l.gid, as_float, "gid"@, "float(gid)"@)
        },
        KirExpr::Lid => {
            lemma_uint_word(sc, Word::Lid, sc.l.lid, as_float, "lid"@, "float(lid)"@)
        },
        KirExpr::ForVar(id) => {
            let plain = "f"@ + dec(id as nat);
            let cast = "float(f"@ + dec(id as nat) + ")"@;
            assert(cast =~= "float"@ + "("@ + "f"@ + dec(id as nat) + ")"@);
            assert("float("@ + plain + ")"@ =~= cast);
            lemma_uint_word(sc, Word::Loop(id), sc.r.u[id], as_float, plain, cast)
        },
        KirExpr::Var(id) => {
            lemma_word(sc, Word::Real(id), Val::Float(sc.r.f[id]));
            Term::Word(Word::Real(id))
        },
        KirExpr::UVar(id) => {
            let plain = "u"@ + dec(id as nat);
            let cast = "float(u"@ + dec(id as nat) + ")"@;
            assert(cast =~= "float"@ + "("@ + "u"@ + dec(id as nat) + ")"@);
            assert("float("@ + plain + ")"@ =~= cast);
            lemma_uint_word(sc, Word::Unsigned(id), sc.r.u[id], as_float, plain, cast)
        },
        KirExpr::Load { buf, idx, dtype } => {
            let t = lemma_index_text(sc, *idx, lits);
            let x = index_text(*idx, expr_text(*idx, n_in, n_out, false, lits)->Ok_0);
            lemma_names(sc.k, buf);
            lemma_load(sc, dtype, buf, t, x, index(sc.ar, sc.l, sc.r, *idx))
        },
        KirExpr::TgLoad { id, idx } => {
            let t = lemma_index_text(sc, *idx, lits);
            let x = index_text(*idx, expr_text(*idx, n_in, n_out, false, lits)->Ok_0);
            lemma_element(sc, Arr::Group(id), t, x, index(sc.ar, sc.l, sc.r, *idx));
            Term::Element(Box::new(Term::Word(Word::Array(Arr::Group(id)))), Box::new(t))
        },
        KirExpr::ThreadLoad { id, idx } => {
            let t = lemma_index_text(sc, *idx, lits);
            let x = index_text(*idx, expr_text(*idx, n_in, n_out, false, lits)->Ok_0);
            lemma_element(sc, Arr::Own(id), t, x, index(sc.ar, sc.l, sc.r, *idx));
            Term::Element(Box::new(Term::Word(Word::Array(Arr::Own(id)))), Box::new(t))
        },
        KirExpr::VecMulSum { a_idx, b_idx, .. } => {
            let ta = lemma_written(sc, *a_idx, false, lits);
            let tb = lemma_written(sc, *b_idx, false, lits);
            let ai = expr_text(*a_idx, n_in, n_out, false, lits)->Ok_0;
            let bi = expr_text(*b_idx, n_in, n_out, false, lits)->Ok_0;
            lemma_product(sc, e, ta, ai, tb, bi)
        },
        KirExpr::Bin { op, a, b } => {
            let s = lemma_written(sc, *a, as_float, lits);
            let t = lemma_written(sc, *b, as_float, lits);
            let x = expr_text(*a, n_in, n_out, as_float, lits)->Ok_0;
            let y = expr_text(*b, n_in, n_out, as_float, lits)->Ok_0;
            lemma_bin(
                sc,
                op,
                s,
                x,
                sc.stands_for(*a, as_float),
                t,
                y,
                sc.stands_for(*b, as_float),
            )
        },
        KirExpr::Unary { op, a } => {
            let t = lemma_written(sc, *a, true, lits);
            let x = expr_text(*a, n_in, n_out, true, lits)->Ok_0;
            lemma_un(sc, op, t, x, value(sc.ar, sc.l, sc.r, *a))
        },
        KirExpr::CastU32ToF32(a) => {
            let t = lemma_written(sc, *a, false, lits);
            let x = expr_text(*a, n_in, n_out, false, lits)->Ok_0;
            lemma_call(sc, Fun::ToFloat, "float("@, t, x, sc.stands_for(*a, false));
            Term::Call1(Fun::ToFloat, Box::new(t))
        },
        KirExpr::CastF32ToU32(a) => {
            let t = lemma_written(sc, *a, true, lits);
            let x = expr_text(*a, n_in, n_out, true, lits)->Ok_0;
            lemma_call(sc, Fun::ToUint, "uint("@, t, x, sc.stands_for(*a, true));
            Term::Call1(Fun::ToUint, Box::new(t))
        },
        _ => arbitrary(),
    }
}

} // verus!
