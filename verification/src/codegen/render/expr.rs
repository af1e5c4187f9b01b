//! Expressions as kernel source.

use vstd::prelude::*;
use vstd::string::*;

use crate::codegen::error::{msg, msg_v, CodegenError, ErrorV};
use crate::codegen::schedule::result_view;
use crate::ir::dtype::{DType, Scalar};
use crate::ir::kernel::{BinOp, KirExpr, UnaryOp};
use crate::text::{dec, dec_text};

verus! {

/// A floating-point constant and how it is written, without the suffix.
#[derive(Debug)]
pub struct Literal {
    pub value: Scalar,
    pub text: String,
}

/// A literal as a mathematical value.
pub type LitV = (Scalar, Seq<char>);

impl View for Literal {
    type V = LitV;

    open spec fn view(&self) -> LitV {
        (self.value, self.text@)
    }
}

/// The literals of a table.
pub open spec fn lits_view(lits: Seq<Literal>) -> Seq<LitV> {
    lits.map_values(|l: Literal| l@)
}

/// How the table writes a constant: by its first entry.
pub open spec fn lit_of(lits: Seq<LitV>, s: Scalar) -> Option<Seq<char>>
    decreases lits.len(),
{
    if lits.len() == 0 {
        None
    } else {
        match lit_of(lits.drop_last(), s) {
            Some(t) => Some(t),
            None => if lits.last().0 == s {
                Some(lits.last().1)
            } else {
                None
            },
        }
    }
}

pub fn find_lit(lits: &Vec<Literal>, s: Scalar) -> (r: Option<&str>)
    ensures
        match r {
            Some(t) => lit_of(lits_view(lits@), s) == Some(t@),
            None => lit_of(lits_view(lits@), s) is None,
        },
{
    let mut i: usize = 0;
    let ghost all = lits_view(lits@);
    while i < lits.len()
        invariant
            i <= lits@.len(),
            all == lits_view(lits@),
            lit_of(all.take(i as int), s) is None,
        decreases lits@.len() - i,
    {
        assert(all.take(i + 1).drop_last() =~= all.take(i as int));
        if lits[i].value == s {
            proof {
                lemma_lit_prefix(all, s, i + 1);
            }
            return Some(lits[i].text.as_str());
        }
        i += 1;
    }
    assert(all.take(all.len() as int) =~= all);
    None
}

/// What an initial part of a table writes, the table writes.
pub proof fn lemma_lit_prefix(lits: Seq<LitV>, s: Scalar, k: int)
    requires
        0 <= k <= lits.len(),
        lit_of(lits.take(k), s) is Some,
    ensures
        lit_of(lits, s) == lit_of(lits.take(k), s),
    decreases lits.len(),
{
    if k == lits.len() {
        assert(lits.take(k) =~= lits);
    } else {
        assert(lits.drop_last().take(k) =~= lits.take(k));
        lemma_lit_prefix(lits.drop_last(), s, k);
    }
}

/// The name of a buffer: inputs are numbered, and so are outputs if there are several.
pub open spec fn buf_text(buf: u32, n_in: u32, n_out: u32) -> Seq<char> {
    if buf < n_in {
        "in"@ + dec(buf as nat)
    } else if n_out <= 1 {
        "out"@
    } else {
        "out"@ + dec((buf - n_in) as nat)
    }
}

pub fn buf_name(buf: u32, n_in: u32, n_out: u32) -> (r: String)
    ensures
        r@ == buf_text(buf, n_in, n_out),
{
    if buf < n_in {
        String::from_str("in").concat(dec_text(buf as u64).as_str())
    } else if n_out <= 1 {
        String::from_str("out")
    } else {
        String::from_str("out").concat(dec_text((buf - n_in) as u64).as_str())
    }
}

/// Whether an expression is an unsigned integer as it stands.
pub open spec fn is_uint(e: KirExpr) -> bool
    decreases e,
{
    match e {
        KirExpr::Gid
        | KirExpr::Lid
        | KirExpr::ForVar(_)
        | KirExpr::ConstU32(_)
        | KirExpr::UVar(_)
        | KirExpr::CastF32ToU32(_) => true,
        KirExpr::Bin { op, a, b } => is_uint(*a) && is_uint(*b),
        _ => false,
    }
}

pub fn is_uintish(e: &KirExpr) -> (r: bool)
    ensures
        r == is_uint(*e),
    decreases *e,
{
    match e {
        KirExpr::Gid
        | KirExpr::Lid
        | KirExpr::ForVar(_)
        | KirExpr::ConstU32(_)
        | KirExpr::UVar(_)
        | KirExpr::CastF32ToU32(_) => true,
        KirExpr::Bin { op: _, a, b } => is_uintish(a) && is_uintish(b),
        _ => false,
    }
}

/// The text of an index: converted where it is not an integer already.
pub open spec fn index_text(idx: KirExpr, s: Seq<char>) -> Seq<char> {
    if is_uint(idx) {
        s
    } else {
        "uint("@ + s + ")"@
    }
}

pub fn index_string(idx: &KirExpr, s: String) -> (r: String)
    ensures
        r@ == index_text(*idx, s@),
{
    if is_uintish(idx) {
        s
    } else {
        String::from_str("uint(").concat(s.as_str()).concat(")")
    }
}

/// One element of a buffer, as a float.
pub open spec fn load_text(dtype: DType, n: Seq<char>, i: Seq<char>) -> Result<Seq<char>, ErrorV> {
    match dtype {
        DType::F32 => Ok(n + "["@ + i + "]"@),
        DType::F16 => Ok("float("@ + n + "["@ + i + "])"@),
        DType::Q4K => Ok("ksearch_load_q4k("@ + n + ", "@ + i + ")"@),
        DType::Q6K => Ok("ksearch_load_q6k("@ + n + ", "@ + i + ")"@),
        DType::Q40 => Ok("ksearch_load_q40("@ + n + ", "@ + i + ")"@),
        _ => Err(ErrorV::Msg("render load: unsupported dtype "@ + dtype.label())),
    }
}

fn load_string(dtype: DType, n: String, i: String) -> (r: Result<String, CodegenError>)
    ensures
        result_view(r) == load_text(dtype, n@, i@),
{
    match dtype {
        DType::F32 => Ok(String::from_str(n.as_str()).concat("[").concat(i.as_str()).concat("]")),
        DType::F16 => {
            Ok(
                String::from_str("float(").concat(n.as_str()).concat("[").concat(i.as_str())
                    .concat("])"),
            )
        },
        DType::Q4K => {
            Ok(
                String::from_str("ksearch_load_q4k(").concat(n.as_str()).concat(", ")
                    .concat(i.as_str()).concat(")"),
            )
        },
        DType::Q6K => {
            Ok(
                String::from_str("ksearch_load_q6k(").concat(n.as_str()).concat(", ")
                    .concat(i.as_str()).concat(")"),
            )
        },
        DType::Q40 => {
            Ok(
                String::from_str("ksearch_load_q40(").concat(n.as_str()).concat(", ")
                    .concat(i.as_str()).concat(")"),
            )
        },
        _ => {
            let m = String::from_str("render load: unsupported dtype ").concat(dtype.label_text());
            Err(CodegenError::Msg(m))
        },
    }
}

/// A binary operation.
pub open spec fn bin_text(op: BinOp, x: Seq<char>, y: Seq<char>) -> Seq<char> {
    match op {
        BinOp::Add => "("@ + x + " + "@ + y + ")"@,
        BinOp::Sub => "("@ + x + " - "@ + y + ")"@,
        BinOp::Mul => "("@ + x + " * "@ + y + ")"@,
        BinOp::Div => "("@ + x + " / "@ + y + ")"@,
        BinOp::Max => "max("@ + x + ", "@ + y + ")"@,
        BinOp::Min => "min("@ + x + ", "@ + y + ")"@,
    }
}

fn bin_string(op: BinOp, x: &str, y: &str) -> (r: String)
    ensures
        r@ == bin_text(op, x@, y@),
{
    match op {
        BinOp::Add => String::from_str("(").concat(x).concat(" + ").concat(y).concat(")"),
        BinOp::Sub => String::from_str("(").concat(x).concat(" - ").concat(y).concat(")"),
        BinOp::Mul => String::from_str("(").concat(x).concat(" * ").concat(y).concat(")"),
        BinOp::Div => String::from_str("(").concat(x).concat(" / ").concat(y).concat(")"),
        BinOp::Max => String::from_str("max(").concat(x).concat(", ").concat(y).concat(")"),
        BinOp::Min => String::from_str("min(").concat(x).concat(", ").concat(y).concat(")"),
    }
}

/// A unary operation.
pub open spec fn un_text(op: UnaryOp, x: Seq<char>) -> Seq<char> {
    match op {
        UnaryOp::Neg => "(-"@ + x + ")"@,
        UnaryOp::Exp => "exp("@ + x + ")"@,
        UnaryOp::Tanh => "precise::tanh("@ + x + ")"@,
        UnaryOp::Rsqrt => "rsqrt("@ + x + ")"@,
        UnaryOp::Sqrt => "sqrt("@ + x + ")"@,
        UnaryOp::Floor => "floor("@ + x + ")"@,
    }
}

fn un_string(op: UnaryOp, x: &str) -> (r: String)
    ensures
        r@ == un_text(op, x@),
{
    match op {
        UnaryOp::Neg => String::from_str("(-").concat(x).concat(")"),
        UnaryOp::Exp => String::from_str("exp(").concat(x).concat(")"),
        UnaryOp::Tanh => String::from_str("precise::tanh(").concat(x).concat(")"),
        UnaryOp::Rsqrt => String::from_str("rsqrt(").concat(x).concat(")"),
        UnaryOp::Sqrt => String::from_str("sqrt(").concat(x).concat(")"),
        UnaryOp::Floor => String::from_str("floor(").concat(x).concat(")"),
    }
}

/// The dot product of device and staged elements; `tg` numbers the threadgroup array.
pub open spec fn staged_dot(
    width: u32,
    dtype: DType,
    a: Seq<char>,
    ai: Seq<char>,
    tg: Seq<char>,
    bi: Seq<char>,
) -> Option<Seq<char>> {
    if width == 1 && dtype == DType::Q4K {
        Some("(ksearch_load_q4k("@ + a + ", "@ + ai + ") * tg"@ + tg + "["@ + bi + "])"@)
    } else if width == 1 && dtype == DType::Q6K {
        Some("(ksearch_load_q6k("@ + a + ", "@ + ai + ") * tg"@ + tg + "["@ + bi + "])"@)
    } else if width == 1 && dtype == DType::Q40 {
        Some("(ksearch_load_q40("@ + a + ", "@ + ai + ") * tg"@ + tg + "["@ + bi + "])"@)
    } else if width == 2 && dtype == DType::Q4K {
        Some(
            "dot(ksearch_load_q4k2("@ + a + ", ("@ + ai + ")), *(threadgroup const float2*)(tg"@
                + tg + " + ("@ + bi + ")))"@,
        )
    } else if width == 4 && dtype == DType::Q4K {
        Some(
            "dot(ksearch_load_q4k4("@ + a + ", ("@ + ai + ")), *(threadgroup const float4*)(tg"@
                + tg + " + ("@ + bi + ")))"@,
        )
    } else if width == 4 && dtype == DType::Q40 {
        Some(
            "dot(ksearch_load_q404("@ + a + ", ("@ + ai + ")), *(threadgroup const float4*)(tg"@
                + tg + " + ("@ + bi + ")))"@,
        )
    } else if width == 32 && dtype == DType::Q4K {
        Some("ksearch_dot_q4k32("@ + a + ", ("@ + ai + "), tg"@ + tg + ", ("@ + bi + "))"@)
    } else if width == 256 && dtype == DType::Q4K {
        Some("ksearch_dot_q4k256("@ + a + ", ("@ + ai + "), tg"@ + tg + ", ("@ + bi + "))"@)
    } else if width == 4 && dtype == DType::F16 {
        Some(
            "dot(float4(*(device const half4*)("@ + a + " + ("@ + ai
                + "))), *(threadgroup const float4*)(tg"@ + tg + " + ("@ + bi + ")))"@,
        )
    } else if width == 2 && dtype == DType::F16 {
        Some(
            "(float((*(device const half2*)("@ + a + " + ("@ + ai
                + "))).x) * (*(threadgroup const float2*)(tg"@ + tg + " + ("@ + bi
                + "))).x + float((*(device const half2*)("@ + a + " + ("@ + ai
                + "))).y) * (*(threadgroup const float2*)(tg"@ + tg + " + ("@ + bi + "))).y)"@,
        )
    } else if width == 1 && dtype == DType::F16 {
        Some("(float("@ + a + "["@ + ai + "]) * tg"@ + tg + "["@ + bi + "])"@)
    } else if width == 4 {
        Some(
            "dot(*(device const float4*)("@ + a + " + ("@ + ai
                + ")), *(threadgroup const float4*)(tg"@ + tg + " + ("@ + bi + ")))"@,
        )
    } else if width == 2 {
        Some(
            "((*(device const float2*)("@ + a + " + ("@ + ai
                + "))).x * (*(threadgroup const float2*)(tg"@ + tg + " + ("@ + bi
                + "))).x + (*(device const float2*)("@ + a + " + ("@ + ai
                + "))).y * (*(threadgroup const float2*)(tg"@ + tg + " + ("@ + bi + "))).y)"@,
        )
    } else if width == 1 {
        Some(a + "["@ + ai + "] * tg"@ + tg + "["@ + bi + "]"@)
    } else {
        None
    }
}

fn staged_dot_string(
    width: u32,
    dtype: DType,
    a: &str,
    ai: &str,
    tg: &str,
    bi: &str,
) -> (r: Option<String>)
    ensures
        match r {
            Some(s) => staged_dot(width, dtype, a@, ai@, tg@, bi@) == Some(s@),
            None => staged_dot(width, dtype, a@, ai@, tg@, bi@) is None,
        },
{
    if width == 1 && dtype == DType::Q4K {
        Some(
            String::from_str("(ksearch_load_q4k(").concat(a).concat(", ").concat(ai)
                .concat(") * tg").concat(tg).concat("[").concat(bi).concat("])"),
        )
    } else if width == 1 && dtype == DType::Q6K {
        Some(
            String::from_str("(ksearch_load_q6k(").concat(a).concat(", ").concat(ai)
                .concat(") * tg").concat(tg).concat("[").concat(bi).concat("])"),
        )
    } else if width == 1 && dtype == DType::Q40 {
        Some(
            String::from_str("(ksearch_load_q40(").concat(a).concat(", ").concat(ai)
                .concat(") * tg").concat(tg).concat("[").concat(bi).concat("])"),
        )
    } else if width == 2 && dtype == DType::Q4K {
        Some(
            String::from_str("dot(ksearch_load_q4k2(").concat(a).concat(", (").concat(ai)
                .concat(")), *(threadgroup const float2*)(tg").concat(tg).concat(" + (").concat(bi)
                .concat(")))"),
        )
    } else if width == 4 && dtype == DType::Q4K {
        Some(
            String::from_str("dot(ksearch_load_q4k4(").concat(a).concat(", (").concat(ai)
                .concat(")), *(threadgroup const float4*)(tg").concat(tg).concat(" + (").concat(bi)
                .concat(")))"),
        )
    } else if width == 4 && dtype == DType::Q40 {
        Some(
            String::from_str("dot(ksearch_load_q404(").concat(a).concat(", (").concat(ai)
                .concat(")), *(threadgroup const float4*)(tg").concat(tg).concat(" + (").concat(bi)
                .concat(")))"),
        )
    } else if width == 32 && dtype == DType::Q4K {
        Some(
            String::from_str("ksearch_dot_q4k32(").concat(a).concat(", (").concat(ai)
                .concat("), tg").concat(tg).concat(", (").concat(bi).concat("))"),
        )
    } else if width == 256 && dtype == DType::Q4K {
        Some(
            String::from_str("ksearch_dot_q4k256(").concat(a).concat(", (").concat(ai)
                .concat("), tg").concat(tg).concat(", (").concat(bi).concat("))"),
        )
    } else if width == 4 && dtype == DType::F16 {
        Some(
            String::from_str("dot(float4(*(device const half4*)(").concat(a).concat(" + (")
                .concat(ai).concat("))), *(threadgroup const float4*)(tg").concat(tg).concat(" + (")
                .concat(bi).concat(")))"),
        )
    } else if width == 2 && dtype == DType::F16 {
        Some(
            String::from_str("(float((*(device const half2*)(").concat(a).concat(" + (").concat(ai)
                .concat("))).x) * (*(threadgroup const float2*)(tg").concat(tg).concat(" + (")
                .concat(bi).concat("))).x + float((*(device const half2*)(").concat(a)
                .concat(" + (").concat(ai).concat("))).y) * (*(threadgroup const float2*)(tg")
                .concat(tg).concat(" + (").concat(bi).concat("))).y)"),
        )
    } else if width == 1 && dtype == DType::F16 {
        Some(
            String::from_str("(float(").concat(a).concat("[").concat(ai).concat("]) * tg")
                .concat(tg).concat("[").concat(bi).concat("])"),
        )
    } else if width == 4 {
        Some(
            String::from_str("dot(*(device const float4*)(").concat(a).concat(" + (").concat(ai)
                .concat(")), *(threadgroup const float4*)(tg").concat(tg).concat(" + (").concat(bi)
                .concat(")))"),
        )
    } else if width == 2 {
        Some(
            String::from_str("((*(device const float2*)(").concat(a).concat(" + (").concat(ai)
                .concat("))).x * (*(threadgroup const float2*)(tg").concat(tg).concat(" + (")
                .concat(bi).concat("))).x + (*(device const float2*)(").concat(a).concat(" + (")
                .concat(ai).concat("))).y * (*(threadgroup const float2*)(tg").concat(tg)
                .concat(" + (").concat(bi).concat("))).y)"),
        )
    } else if width == 1 {
        Some(
            String::from_str(a).concat("[").concat(ai).concat("] * tg").concat(tg).concat("[")
                .concat(bi).concat("]"),
        )
    } else {
        None
    }
}

/// The dot product of elements of two device buffers.
pub open spec fn device_dot(
    width: u32,
    dtype: DType,
    a: Seq<char>,
    ai: Seq<char>,
    b: Seq<char>,
    bi: Seq<char>,
) -> Option<Seq<char>> {
    if width == 1 && dtype == DType::Q4K {
        Some("(ksearch_load_q4k("@ + a + ", "@ + ai + ") * float("@ + b + "["@ + bi + "]))"@)
    } else if width == 1 && dtype == DType::Q6K {
        Some("(ksearch_load_q6k("@ + a + ", "@ + ai + ") * float("@ + b + "["@ + bi + "]))"@)
    } else if width == 1 && dtype == DType::Q40 {
        Some("(ksearch_load_q40("@ + a + ", "@ + ai + ") * float("@ + b + "["@ + bi + "]))"@)
    } else if width == 2 && dtype == DType::Q4K {
        Some(
            "dot(ksearch_load_q4k2("@ + a + ", ("@ + ai + ")), float2(float("@ + b + "[("@ + bi
                + ")]), float("@ + b + "[("@ + bi + ") + 1u])))"@,
        )
    } else if width == 4 && dtype == DType::Q4K {
        Some(
            "dot(ksearch_load_q4k4("@ + a + ", ("@ + ai + ")), float4(float("@ + b + "[("@ + bi
                + ")]), float("@ + b + "[("@ + bi + ") + 1u]), float("@ + b + "[("@ + bi
                + ") + 2u]), float("@ + b + "[("@ + bi + ") + 3u])))"@,
        )
    } else if width == 4 && dtype == DType::Q40 {
        Some(
            "dot(ksearch_load_q404("@ + a + ", ("@ + ai + ")), float4(float("@ + b + "[("@ + bi
                + ")]), float("@ + b + "[("@ + bi + ") + 1u]), float("@ + b + "[("@ + bi
                + ") + 2u]), float("@ + b + "[("@ + bi + ") + 3u])))"@,
        )
    } else if width == 32 && dtype == DType::Q4K {
        Some("ksearch_dot_q4k32_dev("@ + a + ", ("@ + ai + "), "@ + b + ", ("@ + bi + "))"@)
    } else if width == 256 && dtype == DType::Q4K {
        Some("ksearch_dot_q4k256_dev("@ + a + ", ("@ + ai + "), "@ + b + ", ("@ + bi + "))"@)
    } else if width == 4 && dtype == DType::F16 {
        Some(
            "dot(float4(*(device const half4*)("@ + a + " + ("@ + ai
                + "))), float4(*(device const half4*)("@ + b + " + ("@ + bi + "))))"@,
        )
    } else if width == 2 && dtype == DType::F16 {
        Some(
            "(float((*(device const half2*)("@ + a + " + ("@ + ai
                + "))).x) * float((*(device const half2*)("@ + b + " + ("@ + bi
                + "))).x) + float((*(device const half2*)("@ + a + " + ("@ + ai
                + "))).y) * float((*(device const half2*)("@ + b + " + ("@ + bi + "))).y))"@,
        )
    } else if width == 1 && dtype == DType::F16 {
        Some("(float("@ + a + "["@ + ai + "]) * float("@ + b + "["@ + bi + "]))"@)
    } else if width == 4 {
        Some(
            "dot(*(device const float4*)("@ + a + " + ("@ + ai + ")), *(device const float4*)("@ + b
                + " + ("@ + bi + ")))"@,
        )
    } else if width == 2 {
        Some(
            "((*(device const float2*)("@ + a + " + ("@ + ai + "))).x * (*(device const float2*)("@
                + b + " + ("@ + bi + "))).x + (*(device const float2*)("@ + a + " + ("@ + ai
                + "))).y * (*(device const float2*)("@ + b + " + ("@ + bi + "))).y)"@,
        )
    } else if width == 1 {
        Some(a + "["@ + ai + "] * "@ + b + "["@ + bi + "]"@)
    } else {
        None
    }
}

fn device_dot_string(
    width: u32,
    dtype: DType,
    a: &str,
    ai: &str,
    b: &str,
    bi: &str,
) -> (r: Option<String>)
    ensures
        match r {
            Some(s) => device_dot(width, dtype, a@, ai@, b@, bi@) == Some(s@),
            None => device_dot(width, dtype, a@, ai@, b@, bi@) is None,
        },
{
    if width == 1 && dtype == DType::Q4K {
        Some(
            String::from_str("(ksearch_load_q4k(").concat(a).concat(", ").concat(ai)
                .concat(") * float(").concat(b).concat("[").concat(bi).concat("]))"),
        )
    } else if width == 1 && dtype == DType::Q6K {
        Some(
            String::from_str("(ksearch_load_q6k(").concat(a).concat(", ").concat(ai)
                .concat(") * float(").concat(b).concat("[").concat(bi).concat("]))"),
        )
    } else if width == 1 && dtype == DType::Q40 {
        Some(
            String::from_str("(ksearch_load_q40(").concat(a).concat(", ").concat(ai)
                .concat(") * float(").concat(b).concat("[").concat(bi).concat("]))"),
        )
    } else if width == 2 && dtype == DType::Q4K {
        Some(
            String::from_str("dot(ksearch_load_q4k2(").concat(a).concat(", (").concat(ai)
                .concat(")), float2(float(").concat(b).concat("[(").concat(bi).concat(")]), float(")
                .concat(b).concat("[(").concat(bi).concat(") + 1u])))"),
        )
    } else if width == 4 && dtype == DType::Q4K {
        Some(
            String::from_str("dot(ksearch_load_q4k4(").concat(a).concat(", (").concat(ai)
                .concat(")), float4(float(").concat(b).concat("[(").concat(bi).concat(")]), float(")
                .concat(b).concat("[(").concat(bi).concat(") + 1u]), float(").concat(b).concat("[(")
                .concat(bi).concat(") + 2u]), float(").concat(b).concat("[(").concat(bi)
                .concat(") + 3u])))"),
        )
    } else if width == 4 && dtype == DType::Q40 {
        Some(
            String::from_str("dot(ksearch_load_q404(").concat(a).concat(", (").concat(ai)
                .concat(")), float4(float(").concat(b).concat("[(").concat(bi).concat(")]), float(")
                .concat(b).concat("[(").concat(bi).concat(") + 1u]), float(").concat(b).concat("[(")
                .concat(bi).concat(") + 2u]), float(").concat(b).concat("[(").concat(bi)
                .concat(") + 3u])))"),
        )
    } else if width == 32 && dtype == DType::Q4K {
        Some(
            String::from_str("ksearch_dot_q4k32_dev(").concat(a).concat(", (").concat(ai)
                .concat("), ").concat(b).concat(", (").concat(bi).concat("))"),
        )
    } else if width == 256 && dtype == DType::Q4K {
        Some(
            String::from_str("ksearch_dot_q4k256_dev(").concat(a).concat(", (").concat(ai)
                .concat("), ").concat(b).concat(", (").concat(bi).concat("))"),
        )
    } else if width == 4 && dtype == DType::F16 {
        Some(
            String::from_str("dot(float4(*(device const half4*)(").concat(a).concat(" + (")
                .concat(ai).concat("))), float4(*(device const half4*)(").concat(b).concat(" + (")
                .concat(bi).concat("))))"),
        )
    } else if width == 2 && dtype == DType::F16 {
        Some(
            String::from_str("(float((*(device const half2*)(").concat(a).concat(" + (").concat(ai)
                .concat("))).x) * float((*(device const half2*)(").concat(b).concat(" + (")
                .concat(bi).concat("))).x) + float((*(device const half2*)(").concat(a)
                .concat(" + (").concat(ai).concat("))).y) * float((*(device const half2*)(")
                .concat(b).concat(" + (").concat(bi).concat("))).y))"),
        )
    } else if width == 1 && dtype == DType::F16 {
        Some(
            String::from_str("(float(").concat(a).concat("[").concat(ai).concat("]) * float(")
                .concat(b).concat("[").concat(bi).concat("]))"),
        )
    } else if width == 4 {
        Some(
            String::from_str("dot(*(device const float4*)(").concat(a).concat(" + (").concat(ai)
                .concat(")), *(device const float4*)(").concat(b).concat(" + (").concat(bi)
                .concat(")))"),
        )
    } else if width == 2 {
        Some(
            String::from_str("((*(device const float2*)(").concat(a).concat(" + (").concat(ai)
                .concat("))).x * (*(device const float2*)(").concat(b).concat(" + (").concat(bi)
                .concat("))).x + (*(device const float2*)(").concat(a).concat(" + (").concat(ai)
                .concat("))).y * (*(device const float2*)(").concat(b).concat(" + (").concat(bi)
                .concat("))).y)"),
        )
    } else if width == 1 {
        Some(
            String::from_str(a).concat("[").concat(ai).concat("] * ").concat(b).concat("[")
                .concat(bi).concat("]"),
        )
    } else {
        None
    }
}

/// A dot product, or why there is none of this width and type.
pub open spec fn dot_text(
    a_buf: u32,
    ai: Seq<char>,
    b_buf: u32,
    bi: Seq<char>,
    width: u32,
    dtype: DType,
    b_from_tg: Option<u32>,
    n_in: u32,
    n_out: u32,
) -> Result<Seq<char>, ErrorV> {
    let a = buf_text(a_buf, n_in, n_out);
    let head = "render VecMulSum: unsupported width "@ + dec(width as nat) + " dtype="@
        + dtype.label();
    match b_from_tg {
        Some(tg) => match staged_dot(width, dtype, a, ai, dec(tg as nat), bi) {
            Some(s) => Ok(s),
            None => Err(ErrorV::Msg(head + " tg=Some("@ + dec(tg as nat) + ")"@)),
        },
        None => match device_dot(width, dtype, a, ai, buf_text(b_buf, n_in, n_out), bi) {
            Some(s) => Ok(s),
            None => Err(ErrorV::Msg(head + " (device)"@)),
        },
    }
}

fn dot_string(
    a_buf: u32,
    ai: &str,
    b_buf: u32,
    bi: &str,
    width: u32,
    dtype: DType,
    b_from_tg: Option<u32>,
    n_in: u32,
    n_out: u32,
) -> (r: Result<String, CodegenError>)
    ensures
        result_view(r) == dot_text(a_buf, ai@, b_buf, bi@, width, dtype, b_from_tg, n_in, n_out),
{
    let a = buf_name(a_buf, n_in, n_out);
    let head = String::from_str("render VecMulSum: unsupported width ").concat(
        dec_text(width as u64).as_str(),
    ).concat(" dtype=").concat(dtype.label_text());
    match b_from_tg {
        Some(tg) => {
            let t = dec_text(tg as u64);
            match staged_dot_string(width, dtype, a.as_str(), ai, t.as_str(), bi) {
                Some(s) => Ok(s),
                None => Err(
                    CodegenError::Msg(head.concat(" tg=Some(").concat(t.as_str()).concat(")")),
                ),
            }
        },
        None => {
            let b = buf_name(b_buf, n_in, n_out);
            match device_dot_string(width, dtype, a.as_str(), ai, b.as_str(), bi) {
                Some(s) => Ok(s),
                None => Err(CodegenError::Msg(head.concat(" (device)"))),
            }
        },
    }
}

/// An expression, as a float or as the integer that it is.
pub open spec fn expr_text(
    e: KirExpr,
    n_in: u32,
    n_out: u32,
    as_float: bool,
    lits: Seq<LitV>,
) -> Result<Seq<char>, ErrorV>
    decreases e,
{
    match e {
        KirExpr::ConstF32(f) => match lit_of(lits, f) {
            Some(t) => Ok(t + "f"@),
            None => Err(msg_v("render: no text for a constant")),
        },
        KirExpr::ConstU32(u) => if as_float {
            Ok(dec(u as nat) + ".0f"@)
        } else {
            Ok(dec(u as nat) + "u"@)
        },
        KirExpr::Gid => if as_float {
            Ok("float(gid)"@)
        } else {
            Ok("gid"@)
        },
        KirExpr::Lid => if as_float {
            Ok("float(lid)"@)
        } else {
            Ok("lid"@)
        },
        KirExpr::ForVar(id) => if as_float {
            Ok("float(f"@ + dec(id as nat) + ")"@)
        } else {
            Ok("f"@ + dec(id as nat))
        },
        KirExpr::Var(id) => Ok("v"@ + dec(id as nat)),
        KirExpr::UVar(id) => if as_float {
            Ok("float(u"@ + dec(id as nat) + ")"@)
        } else {
            Ok("u"@ + dec(id as nat))
        },
        KirExpr::Load { buf, idx, dtype } => match expr_text(*idx, n_in, n_out, false, lits) {
            Err(e) => Err(e),
            Ok(s) => load_text(dtype, buf_text(buf, n_in, n_out), index_text(*idx, s)),
        },
        KirExpr::TgLoad { id, idx } => match expr_text(*idx, n_in, n_out, false, lits) {
            Err(e) => Err(e),
            Ok(s) => Ok("tg"@ + dec(id as nat) + "["@ + index_text(*idx, s) + "]"@),
        },
        KirExpr::ThreadLoad { id, idx } => match expr_text(*idx, n_in, n_out, false, lits) {
            Err(e) => Err(e),
            Ok(s) => Ok("th"@ + dec(id as nat) + "["@ + index_text(*idx, s) + "]"@),
        },
        KirExpr::VecMulSum {
            a_buf,
            a_idx,
            b_buf,
            b_idx,
            width,
            dtype,
            b_from_tg,
        } => match expr_text(
            *a_idx,
            n_in,
            n_out,
            false,
            lits,
        ) {
            Err(e) => Err(e),
            Ok(ai) => match expr_text(*b_idx, n_in, n_out, false, lits) {
                Err(e) => Err(e),
                Ok(bi) => dot_text(a_buf, ai, b_buf, bi, width, dtype, b_from_tg, n_in, n_out),
            },
        },
        KirExpr::SimdSum(a) => match expr_text(*a, n_in, n_out, true, lits) {
            Err(e) => Err(e),
            Ok(x) => Ok("simd_sum("@ + x + ")"@),
        },
        KirExpr::Q4kCoopFrag {
            w_buf,
            row_base,
            cols,
            ib,
            b_from_tg,
            x_buf,
            lane,
        } => match expr_text(*row_base, n_in, n_out, false, lits) {
            Err(e) => Err(e),
            Ok(rb) => match expr_text(*ib, n_in, n_out, false, lits) {
                Err(e) => Err(e),
                Ok(ib_s) => match expr_text(*lane, n_in, n_out, false, lits) {
                    Err(e) => Err(e),
                    Ok(lane_s) => match b_from_tg {
                        Some(tg) => {
                            Ok(
                                "ksearch_q4k_coop_frag("@ + buf_text(w_buf, n_in, n_out) + ", ("@
                                    + rb + "), "@ + dec(cols as nat) + "u, ("@ + ib_s + "), tg"@
                                    + dec(tg as nat) + ", ("@ + lane_s + "))"@,
                            )
                        },
                        None => {
                            Ok(
                                "ksearch_q4k_coop_frag_dev("@ + buf_text(w_buf, n_in, n_out)
                                    + ", ("@ + rb + "), "@ + dec(cols as nat) + "u, ("@ + ib_s
                                    + "), "@ + buf_text(x_buf, n_in, n_out) + ", ("@ + lane_s
                                    + "))"@,
                            )
                        },
                    },
                },
            },
        },
        KirExpr::Q6kCoopFrag {
            w_buf,
            row_base,
            cols,
            ib,
            b_from_tg,
            x_buf,
            x_off,
            lane,
        } => match expr_text(*row_base, n_in, n_out, false, lits) {
            Err(e) => Err(e),
            Ok(rb) => match expr_text(*ib, n_in, n_out, false, lits) {
                Err(e) => Err(e),
                Ok(ib_s) => match expr_text(*lane, n_in, n_out, false, lits) {
                    Err(e) => Err(e),
                    Ok(lane_s) => match b_from_tg {
                        Some(tg) => match expr_text(*x_off, n_in, n_out, false, lits) {
                            Err(e) => Err(e),
                            Ok(xo) => {
                                Ok(
                                    "ksearch_q6k_coop_frag("@ + buf_text(w_buf, n_in, n_out)
                                        + ", ("@ + rb + "), "@ + dec(cols as nat) + "u, ("@ + ib_s
                                        + "), tg"@ + dec(tg as nat) + ", ("@ + xo + "), ("@ + lane_s
                                        + "))"@,
                                )
                            },
                        },
                        None => {
                            Ok(
                                "ksearch_q6k_coop_frag_dev("@ + buf_text(w_buf, n_in, n_out)
                                    + ", ("@ + rb + "), "@ + dec(cols as nat) + "u, ("@ + ib_s
                                    + "), "@ + buf_text(x_buf, n_in, n_out) + ", ("@ + lane_s
                                    + "))"@,
                            )
                        },
                    },
                },
            },
        },
        KirExpr::Bin { op, a, b } => {
            let f = as_float || !is_uint(*a) || !is_uint(*b);
            match expr_text(*a, n_in, n_out, f, lits) {
                Err(e) => Err(e),
                Ok(x) => match expr_text(*b, n_in, n_out, f, lits) {
                    Err(e) => Err(e),
                    Ok(y) => Ok(bin_text(op, x, y)),
                },
            }
        },
        KirExpr::Unary { op, a } => match expr_text(*a, n_in, n_out, true, lits) {
            Err(e) => Err(e),
            Ok(x) => Ok(un_text(op, x)),
        },
        KirExpr::CmpGt { a, b } => {
            let f = !is_uint(*a) || !is_uint(*b);
            match expr_text(*a, n_in, n_out, f, lits) {
                Err(e) => Err(e),
                Ok(x) => match expr_text(*b, n_in, n_out, f, lits) {
                    Err(e) => Err(e),
                    Ok(y) => Ok("(("@ + x + ") > ("@ + y + "))"@),
                },
            }
        },
        KirExpr::CmpEq { a, b } => {
            let f = !is_uint(*a) || !is_uint(*b);
            match expr_text(*a, n_in, n_out, f, lits) {
                Err(e) => Err(e),
                Ok(x) => match expr_text(*b, n_in, n_out, f, lits) {
                    Err(e) => Err(e),
                    Ok(y) => Ok("(("@ + x + ") == ("@ + y + "))"@),
                },
            }
        },
        KirExpr::CastU32ToF32(a) => match expr_text(*a, n_in, n_out, false, lits) {
            Err(e) => Err(e),
            Ok(x) => Ok("float("@ + x + ")"@),
        },
        KirExpr::CastF32ToU32(a) => match expr_text(*a, n_in, n_out, true, lits) {
            Err(e) => Err(e),
            Ok(x) => Ok("uint("@ + x + ")"@),
        },
    }
}

pub fn emit_expr_ty(
    e: &KirExpr,
    n_in: u32,
    n_out: u32,
    as_float: bool,
    lits: &Vec<Literal>,
) -> (r: Result<String, CodegenError>)
    ensures
        result_view(r) == expr_text(*e, n_in, n_out, as_float, lits_view(lits@)),
    decreases *e,
{
    match e {
        KirExpr::ConstF32(f) => match find_lit(lits, *f) {
            Some(t) => Ok(String::from_str(t).concat("f")),
            None => Err(msg("render: no text for a constant")),
        },
        KirExpr::ConstU32(u) => if as_float {
            Ok(String::from_str(dec_text(*u as u64).as_str()).concat(".0f"))
        } else {
            Ok(String::from_str(dec_text(*u as u64).as_str()).concat("u"))
        },
        KirExpr::Gid => if as_float {
            Ok(String::from_str("float(gid)"))
        } else {
            Ok(String::from_str("gid"))
        },
        KirExpr::Lid => if as_float {
            Ok(String::from_str("float(lid)"))
        } else {
            Ok(String::from_str("lid"))
        },
        KirExpr::ForVar(id) => if as_float {
            Ok(String::from_str("float(f").concat(dec_text(*id as u64).as_str()).concat(")"))
        } else {
            Ok(String::from_str("f").concat(dec_text(*id as u64).as_str()))
        },
        KirExpr::Var(id) => {
            Ok(String::from_str("v").concat(dec_text(*id as u64).as_str()))
        },
        KirExpr::UVar(id) => if as_float {
            Ok(String::from_str("float(u").concat(dec_text(*id as u64).as_str()).concat(")"))
        } else {
            Ok(String::from_str("u").concat(dec_text(*id as u64).as_str()))
        },
        KirExpr::Load { buf, idx, dtype } => {
            let s = emit_expr_ty(idx, n_in, n_out, false, lits)?;
            load_string(*dtype, buf_name(*buf, n_in, n_out), index_string(idx, s))
        },
        KirExpr::TgLoad { id, idx } => {
            let s = emit_expr_ty(idx, n_in, n_out, false, lits)?;
            let i = index_string(idx, s);
            Ok(
                String::from_str("tg").concat(dec_text(*id as u64).as_str()).concat("[")
                    .concat(i.as_str()).concat("]"),
            )
        },
        KirExpr::ThreadLoad { id, idx } => {
            let s = emit_expr_ty(idx, n_in, n_out, false, lits)?;
            let i = index_string(idx, s);
            Ok(
                String::from_str("th").concat(dec_text(*id as u64).as_str()).concat("[")
                    .concat(i.as_str()).concat("]"),
            )
        },
        KirExpr::VecMulSum { a_buf, a_idx, b_buf, b_idx, width, dtype, b_from_tg } => {
            let ai = emit_expr_ty(a_idx, n_in, n_out, false, lits)?;
            let bi = emit_expr_ty(b_idx, n_in, n_out, false, lits)?;
            dot_string(
                *a_buf,
                ai.as_str(),
                *b_buf,
                bi.as_str(),
                *width,
                *dtype,
                *b_from_tg,
                n_in,
                n_out,
            )
        },
        KirExpr::SimdSum(a) => {
            let x = emit_expr_ty(a, n_in, n_out, true, lits)?;
            Ok(String::from_str("simd_sum(").concat(x.as_str()).concat(")"))
        },
        KirExpr::Q4kCoopFrag { w_buf, row_base, cols, ib, b_from_tg, x_buf, lane } => {
            let rb = emit_expr_ty(row_base, n_in, n_out, false, lits)?;
            let ib_s = emit_expr_ty(ib, n_in, n_out, false, lits)?;
            let lane_s = emit_expr_ty(lane, n_in, n_out, false, lits)?;
            match b_from_tg {
                Some(tg) => {
                    Ok(
                        String::from_str("ksearch_q4k_coop_frag(")
                            .concat(buf_name(*w_buf, n_in, n_out).as_str()).concat(", (")
                            .concat(rb.as_str()).concat("), ")
                            .concat(dec_text(*cols as u64).as_str()).concat("u, (")
                            .concat(ib_s.as_str()).concat("), tg")
                            .concat(dec_text(*tg as u64).as_str()).concat(", (")
                            .concat(lane_s.as_str()).concat("))"),
                    )
                },
                None => {
                    Ok(
                        String::from_str("ksearch_q4k_coop_frag_dev(")
                            .concat(buf_name(*w_buf, n_in, n_out).as_str()).concat(", (")
                            .concat(rb.as_str()).concat("), ")
                            .concat(dec_text(*cols as u64).as_str()).concat("u, (")
                            .concat(ib_s.as_str()).concat("), ")
                            .concat(buf_name(*x_buf, n_in, n_out).as_str()).concat(", (")
                            .concat(lane_s.as_str()).concat("))"),
                    )
                },
            }
        },
        KirExpr::Q6kCoopFrag { w_buf, row_base, cols, ib, b_from_tg, x_buf, x_off, lane } => {
            let rb = emit_expr_ty(row_base, n_in, n_out, false, lits)?;
            let ib_s = emit_expr_ty(ib, n_in, n_out, false, lits)?;
            let lane_s = emit_expr_ty(lane, n_in, n_out, false, lits)?;
            match b_from_tg {
                Some(tg) => {
                    let xo = emit_expr_ty(x_off, n_in, n_out, false, lits)?;
                    Ok(
                        String::from_str("ksearch_q6k_coop_frag(")
                            .concat(buf_name(*w_buf, n_in, n_out).as_str()).concat(", (")
                            .concat(rb.as_str()).concat("), ")
                            .concat(dec_text(*cols as u64).as_str()).concat("u, (")
                            .concat(ib_s.as_str()).concat("), tg")
                            .concat(dec_text(*tg as u64).as_str()).concat(", (").concat(xo.as_str())
                            .concat("), (").concat(lane_s.as_str()).concat("))"),
                    )
                },
                None => {
                    Ok(
                        String::from_str("ksearch_q6k_coop_frag_dev(")
                            .concat(buf_name(*w_buf, n_in, n_out).as_str()).concat(", (")
                            .concat(rb.as_str()).concat("), ")
                            .concat(dec_text(*cols as u64).as_str()).concat("u, (")
                            .concat(ib_s.as_str()).concat("), ")
                            .concat(buf_name(*x_buf, n_in, n_out).as_str()).concat(", (")
                            .concat(lane_s.as_str()).concat("))"),
                    )
                },
            }
        },
        KirExpr::Bin { op, a, b } => {
            let f: bool = as_float || !is_uintish(a) || !is_uintish(b);
            let x = emit_expr_ty(a, n_in, n_out, f, lits)?;
            let y = emit_expr_ty(b, n_in, n_out, f, lits)?;
            Ok(bin_string(*op, x.as_str(), y.as_str()))
        },
        KirExpr::Unary { op, a } => {
            let x = emit_expr_ty(a, n_in, n_out, true, lits)?;
            Ok(un_string(*op, x.as_str()))
        },
        KirExpr::CmpGt { a, b } => {
            let f: bool = !is_uintish(a) || !is_uintish(b);
            let x = emit_expr_ty(a, n_in, n_out, f, lits)?;
            let y = emit_expr_ty(b, n_in, n_out, f, lits)?;
            Ok(
                String::from_str("((").concat(x.as_str()).concat(") > (").concat(y.as_str())
                    .concat("))"),
            )
        },
        KirExpr::CmpEq { a, b } => {
            let f: bool = !is_uintish(a) || !is_uintish(b);
            let x = emit_expr_ty(a, n_in, n_out, f, lits)?;
            let y = emit_expr_ty(b, n_in, n_out, f, lits)?;
            Ok(
                String::from_str("((").concat(x.as_str()).concat(") == (").concat(y.as_str())
                    .concat("))"),
            )
        },
        KirExpr::CastU32ToF32(a) => {
            let x = emit_expr_ty(a, n_in, n_out, false, lits)?;
            Ok(String::from_str("float(").concat(x.as_str()).concat(")"))
        },
        KirExpr::CastF32ToU32(a) => {
            let x = emit_expr_ty(a, n_in, n_out, true, lits)?;
            Ok(String::from_str("uint(").concat(x.as_str()).concat(")"))
        },
    }
}

} // verus!
