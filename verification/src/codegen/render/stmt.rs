//! Statements as kernel source.

use vstd::prelude::*;
use vstd::string::*;

use crate::codegen::error::{CodegenError, ErrorV};
use crate::codegen::render::expr::{
    buf_name, buf_text, emit_expr_ty, expr_text, index_string, index_text, lits_view, LitV, Literal,
};
use crate::codegen::schedule::result_view;
use crate::ir::dtype::DType;
use crate::ir::kernel::{block_of, code_of, Code, KirStmt};
use crate::text::{dec, dec_text};

verus! {

/// A value as it is stored: rounded where the output is half precision.
pub open spec fn stored_text(elem: DType, x: Seq<char>) -> Seq<char> {
    if elem == DType::F16 {
        "half("@ + x + ")"@
    } else {
        x
    }
}

fn stored_string(elem: DType, x: String) -> (r: String)
    ensures
        r@ == stored_text(elem, x@),
{
    if elem == DType::F16 {
        String::from_str("half(").concat(x.as_str()).concat(")")
    } else {
        x
    }
}

/// Four elements at once; zeros for a type that has no such load.
pub open spec fn four_text(dtype: DType, n: Seq<char>, i: Seq<char>) -> Seq<char> {
    match dtype {
        DType::Q40 => "ksearch_load_q404("@ + n + ", ("@ + i + "))"@,
        DType::F16 => "float4(*(device const half4*)("@ + n + " + ("@ + i + ")))"@,
        _ => "float4(0.0f)"@,
    }
}

fn four_string(dtype: DType, n: &str, i: &str) -> (r: String)
    ensures
        r@ == four_text(dtype, n@, i@),
{
    match dtype {
        DType::Q40 => {
            String::from_str("ksearch_load_q404(").concat(n).concat(", (").concat(i).concat("))")
        },
        DType::F16 => {
            String::from_str("float4(*(device const half4*)(").concat(n).concat(" + (").concat(i)
                .concat(")))")
        },
        _ => String::from_str("float4(0.0f)"),
    }
}

/// The addresses of four accumulators.
pub open spec fn accs_text(a: [u32; 4]) -> Seq<char> {
    "&v"@ + dec(a[0] as nat) + ", &v"@ + dec(a[1] as nat) + ", &v"@ + dec(a[2] as nat) + ", &v"@
        + dec(a[3] as nat)
}

fn accs_string(a: &[u32; 4]) -> (r: String)
    ensures
        r@ == accs_text(*a),
{
    String::from_str("&v").concat(dec_text(a[0] as u64).as_str()).concat(", &v").concat(
        dec_text(a[1] as u64).as_str(),
    ).concat(", &v").concat(dec_text(a[2] as u64).as_str()).concat(", &v").concat(
        dec_text(a[3] as u64).as_str(),
    )
}

/// Simdgroups in a threadgroup of `tg` threads.
pub open spec fn simdgroups(tg: u64) -> int {
    (tg + 31) / 32
}

fn simdgroup_count(tg: u64) -> (r: u64)
    ensures
        r == simdgroups(tg),
{
    if tg % 32 == 0 {
        tg / 32
    } else {
        tg / 32 + 1
    }
}

/// Adds the partial sums 1 to `k - 1`.
pub open spec fn partial_sums(pad: Seq<char>, acc_id: u32, k: nat) -> Seq<char>
    decreases k,
{
    if k <= 1 {
        Seq::empty()
    } else {
        partial_sums(pad, acc_id, (k - 1) as nat) + (
            pad + "  s += red_"@ + dec(acc_id as nat) + "["@ + dec((k - 1) as nat) + "];\n"@
        )
    }
}

/// Sums a variable over the threadgroup: over the simdgroup, and where there are several,
/// over their sums.
pub open spec fn reduce_text(pad: Seq<char>, acc_id: u32, tg: u64) -> Seq<char> {
    if tg <= 32 {
        pad + "v"@ + dec(acc_id as nat) + " = simd_sum(v"@ + dec(acc_id as nat) + ");\n"@
    } else {
        let nsg = simdgroups(tg);
        (
            pad + "v"@ + dec(acc_id as nat) + " = simd_sum(v"@ + dec(acc_id as nat) + ");\n"@ + pad
                + "threadgroup float red_"@ + dec(acc_id as nat) + "["@ + dec(nsg as nat) + "];\n"@
                + pad + "if ((lid & 31u) == 0u) red_"@ + dec(acc_id as nat) + "[lid / 32u] = v"@
                + dec(acc_id as nat) + ";\n"@ + pad
                + "threadgroup_barrier(mem_flags::mem_threadgroup);\n"@ + pad
                + "if (lid == 0u) {\n"@ + pad + "  float s = red_"@ + dec(acc_id as nat) + "[0];\n"@
        )
            + partial_sums(pad, acc_id, nsg as nat)
            + (
                pad + "  red_"@ + dec(acc_id as nat) + "[0] = s;\n"@ + pad + "}\n"@ + pad
                    + "threadgroup_barrier(mem_flags::mem_threadgroup);\n"@ + pad + "v"@
                    + dec(acc_id as nat) + " = red_"@ + dec(acc_id as nat) + "[0];\n"@
            )
    }
}

fn reduce_string(pad: &str, acc_id: u32, tg: u64) -> (r: String)
    ensures
        r@ == reduce_text(pad@, acc_id, tg),
{
    if tg <= 32 {
        return String::from_str(pad).concat("v").concat(dec_text(acc_id as u64).as_str())
            .concat(" = simd_sum(v").concat(dec_text(acc_id as u64).as_str()).concat(");\n");
    }
    let nsg: u64 = simdgroup_count(tg);
    let head = String::from_str(pad).concat("v").concat(dec_text(acc_id as u64).as_str())
        .concat(" = simd_sum(v").concat(dec_text(acc_id as u64).as_str()).concat(");\n").concat(pad)
        .concat("threadgroup float red_").concat(dec_text(acc_id as u64).as_str()).concat("[")
        .concat(dec_text(nsg as u64).as_str()).concat("];\n").concat(pad)
        .concat("if ((lid & 31u) == 0u) red_").concat(dec_text(acc_id as u64).as_str())
        .concat("[lid / 32u] = v").concat(dec_text(acc_id as u64).as_str()).concat(";\n")
        .concat(pad).concat("threadgroup_barrier(mem_flags::mem_threadgroup);\n").concat(pad)
        .concat("if (lid == 0u) {\n").concat(pad).concat("  float s = red_")
        .concat(dec_text(acc_id as u64).as_str()).concat("[0];\n");
    let mut mid: String = String::new();
    let mut k: u64 = 1;
    while k < nsg
        invariant
            1 <= k <= nsg,
            mid@ == partial_sums(pad@, acc_id, k as nat),
        decreases nsg - k,
    {
        let line = String::from_str(pad).concat("  s += red_")
            .concat(dec_text(acc_id as u64).as_str()).concat("[").concat(dec_text(k).as_str())
            .concat("];\n");
        mid = mid.concat(line.as_str());
        k += 1;
    }
    let tail = String::from_str(pad).concat("  red_").concat(dec_text(acc_id as u64).as_str())
        .concat("[0] = s;\n").concat(pad).concat("}\n").concat(pad)
        .concat("threadgroup_barrier(mem_flags::mem_threadgroup);\n").concat(pad).concat("v")
        .concat(dec_text(acc_id as u64).as_str()).concat(" = red_")
        .concat(dec_text(acc_id as u64).as_str()).concat("[0];\n");
    head.concat(mid.as_str()).concat(tail.as_str())
}

/// Compares the candidates 1 to `k - 1`.
pub open spec fn candidates(pad: Seq<char>, k: nat) -> Seq<char>
    decreases k,
{
    if k <= 1 {
        Seq::empty()
    } else {
        candidates(pad, (k - 1) as nat) + (
            pad + "    { float ov = am_rv["@ + dec((k - 1) as nat) + "]; uint oi = uint(am_ri["@
                + dec((k - 1) as nat) + "]);\n"@ + pad
                + "      if (ov > bv || (ov == bv && oi < bi)) { bv = ov; bi = oi; } }\n"@
        )
    }
}

/// The largest value over the threadgroup and its index; of equal values the lower index.
pub open spec fn argmax_text(pad: Seq<char>, val_id: u32, idx_id: u32, tg: u64) -> Seq<char> {
    let head = pad + "{\n"@ + pad + "  float am_v = v"@ + dec(val_id as nat) + ";\n"@ + pad
        + "  uint am_i = uint(v"@ + dec(idx_id as nat) + ");\n"@ + pad
        + "  for (uint am_s = 16u; am_s > 0u; am_s >>= 1u) {\n"@ + pad
        + "    float ov = simd_shuffle_xor(am_v, am_s);\n"@ + pad
        + "    uint oi = simd_shuffle_xor(am_i, am_s);\n"@ + pad
        + "    if (ov > am_v || (ov == am_v && oi < am_i)) { am_v = ov; am_i = oi; }\n"@ + pad
        + "  }\n"@;
    if tg <= 32 {
        head + (
            pad + "  v"@ + dec(val_id as nat) + " = am_v;\n"@ + pad + "  v"@ + dec(idx_id as nat)
                + " = float(am_i);\n"@ + pad + "}\n"@
        )
    } else {
        let nsg = simdgroups(tg);
        head
            + (
                pad + "  threadgroup float am_rv["@ + dec(nsg as nat) + "];\n"@ + pad
                    + "  threadgroup float am_ri["@ + dec(nsg as nat) + "];\n"@ + pad
                    + "  if ((lid & 31u) == 0u) { am_rv[lid / 32u] = am_v; am_ri[lid / 32u] = float(am_i); }\n"@
                    + pad + "  threadgroup_barrier(mem_flags::mem_threadgroup);\n"@ + pad
                    + "  if (lid == 0u) {\n"@ + pad
                    + "    float bv = am_rv[0]; uint bi = uint(am_ri[0]);\n"@
            )
            + candidates(pad, nsg as nat)
            + (
                pad + "    am_rv[0] = bv; am_ri[0] = float(bi);\n"@ + pad + "  }\n"@ + pad
                    + "  threadgroup_barrier(mem_flags::mem_threadgroup);\n"@ + pad + "  v"@
                    + dec(val_id as nat) + " = am_rv[0];\n"@ + pad + "  v"@ + dec(idx_id as nat)
                    + " = am_ri[0];\n"@ + pad + "}\n"@
            )
    }
}

fn argmax_string(pad: &str, val_id: u32, idx_id: u32, tg: u64) -> (r: String)
    ensures
        r@ == argmax_text(pad@, val_id, idx_id, tg),
{
    let head = String::from_str(pad).concat("{\n").concat(pad).concat("  float am_v = v")
        .concat(dec_text(val_id as u64).as_str()).concat(";\n").concat(pad)
        .concat("  uint am_i = uint(v").concat(dec_text(idx_id as u64).as_str()).concat(");\n")
        .concat(pad).concat("  for (uint am_s = 16u; am_s > 0u; am_s >>= 1u) {\n").concat(pad)
        .concat("    float ov = simd_shuffle_xor(am_v, am_s);\n").concat(pad)
        .concat("    uint oi = simd_shuffle_xor(am_i, am_s);\n").concat(pad)
        .concat("    if (ov > am_v || (ov == am_v && oi < am_i)) { am_v = ov; am_i = oi; }\n")
        .concat(pad).concat("  }\n");
    if tg <= 32 {
        let tail = String::from_str(pad).concat("  v").concat(dec_text(val_id as u64).as_str())
            .concat(" = am_v;\n").concat(pad).concat("  v").concat(dec_text(idx_id as u64).as_str())
            .concat(" = float(am_i);\n").concat(pad).concat("}\n");
        return head.concat(tail.as_str());
    }
    let nsg: u64 = simdgroup_count(tg);
    let decls = String::from_str(pad).concat("  threadgroup float am_rv[")
        .concat(dec_text(nsg as u64).as_str()).concat("];\n").concat(pad)
        .concat("  threadgroup float am_ri[").concat(dec_text(nsg as u64).as_str()).concat("];\n")
        .concat(pad)
        .concat(
            "  if ((lid & 31u) == 0u) { am_rv[lid / 32u] = am_v; am_ri[lid / 32u] = float(am_i); }\n",
        )
        .concat(pad).concat("  threadgroup_barrier(mem_flags::mem_threadgroup);\n").concat(pad)
        .concat("  if (lid == 0u) {\n").concat(pad)
        .concat("    float bv = am_rv[0]; uint bi = uint(am_ri[0]);\n");
    let mut mid: String = String::new();
    let mut k: u64 = 1;
    while k < nsg
        invariant
            1 <= k <= nsg,
            mid@ == candidates(pad@, k as nat),
        decreases nsg - k,
    {
        let line = String::from_str(pad).concat("    { float ov = am_rv[")
            .concat(dec_text(k).as_str()).concat("]; uint oi = uint(am_ri[")
            .concat(dec_text(k).as_str()).concat("]);\n").concat(pad)
            .concat("      if (ov > bv || (ov == bv && oi < bi)) { bv = ov; bi = oi; } }\n");
        mid = mid.concat(line.as_str());
        k += 1;
    }
    let tail = String::from_str(pad).concat("    am_rv[0] = bv; am_ri[0] = float(bi);\n")
        .concat(pad).concat("  }\n").concat(pad)
        .concat("  threadgroup_barrier(mem_flags::mem_threadgroup);\n").concat(pad).concat("  v")
        .concat(dec_text(val_id as u64).as_str()).concat(" = am_rv[0];\n").concat(pad).concat("  v")
        .concat(dec_text(idx_id as u64).as_str()).concat(" = am_ri[0];\n").concat(pad)
        .concat("}\n");
    head.concat(decls.as_str()).concat(mid.as_str()).concat(tail.as_str())
}

/// A statement without a block.
pub open spec fn flat_text(
    s: KirStmt,
    pad: Seq<char>,
    n_in: u32,
    n_out: u32,
    elem: DType,
    lits: Seq<LitV>,
) -> Result<Seq<char>, ErrorV> {
    match s {
        KirStmt::Let { id, expr } => match expr_text(expr, n_in, n_out, true, lits) {
            Err(e) => Err(e),
            Ok(x) => Ok(pad + "float v"@ + dec(id as nat) + " = "@ + x + ";\n"@),
        },
        KirStmt::LetU32 { id, expr } => match expr_text(expr, n_in, n_out, false, lits) {
            Err(e) => Err(e),
            Ok(x) => Ok(pad + "uint u"@ + dec(id as nat) + " = "@ + x + ";\n"@),
        },
        KirStmt::Assign { id, expr } => match expr_text(expr, n_in, n_out, true, lits) {
            Err(e) => Err(e),
            Ok(x) => Ok(pad + "v"@ + dec(id as nat) + " = "@ + x + ";\n"@),
        },
        KirStmt::Store { buf, idx, val } => match expr_text(idx, n_in, n_out, false, lits) {
            Err(e) => Err(e),
            Ok(i) => match expr_text(val, n_in, n_out, true, lits) {
                Err(e) => Err(e),
                Ok(x) => {
                    Ok(
                        pad + buf_text(buf, n_in, n_out) + "["@ + index_text(idx, i) + "] = "@
                            + stored_text(elem, x) + ";\n"@,
                    )
                },
            },
        },
        KirStmt::TgStore { id, idx, val } => match expr_text(idx, n_in, n_out, false, lits) {
            Err(e) => Err(e),
            Ok(i) => match expr_text(val, n_in, n_out, true, lits) {
                Err(e) => Err(e),
                Ok(x) => {
                    Ok(
                        pad + "tg"@ + dec(id as nat) + "["@ + index_text(idx, i) + "] = "@ + x
                            + ";\n"@,
                    )
                },
            },
        },
        KirStmt::ThreadStore { id, idx, val } => match expr_text(idx, n_in, n_out, false, lits) {
            Err(e) => Err(e),
            Ok(i) => match expr_text(val, n_in, n_out, true, lits) {
                Err(e) => Err(e),
                Ok(x) => {
                    Ok(
                        pad + "th"@ + dec(id as nat) + "["@ + index_text(idx, i) + "] = "@ + x
                            + ";\n"@,
                    )
                },
            },
        },
        KirStmt::TgDeclF32 { id, n } => {
            Ok(pad + "threadgroup float tg"@ + dec(id as nat) + "["@ + dec(n as nat) + "];\n"@)
        },
        KirStmt::ThreadDeclF32 { id, n } => {
            Ok(pad + "thread float th"@ + dec(id as nat) + "["@ + dec(n as nat) + "];\n"@)
        },
        KirStmt::Barrier => Ok(pad + "threadgroup_barrier(mem_flags::mem_threadgroup);\n"@),
        KirStmt::ThreadgroupReduce { acc_id, tg } => Ok(reduce_text(pad, acc_id, tg)),
        KirStmt::ThreadgroupArgmax { val_id, idx_id, tg } => {
            Ok(argmax_text(pad, val_id, idx_id, tg))
        },
        KirStmt::Q4kCoopNr4 {
            w_buf,
            row0_base,
            cols,
            ib,
            b_from_tg,
            x_buf,
            lane,
            acc_ids,
        } => match expr_text(row0_base, n_in, n_out, false, lits) {
            Err(e) => Err(e),
            Ok(rb) => match expr_text(ib, n_in, n_out, false, lits) {
                Err(e) => Err(e),
                Ok(ib_s) => match expr_text(lane, n_in, n_out, false, lits) {
                    Err(e) => Err(e),
                    Ok(lane_s) => match b_from_tg {
                        Some(tg) => {
                            Ok(
                                pad + "ksearch_q4k_coop_frag_nr4("@ + buf_text(w_buf, n_in, n_out)
                                    + ", ("@ + rb + "), "@ + dec(cols as nat) + "u, ("@ + ib_s
                                    + "), tg"@ + dec(tg as nat) + ", ("@ + lane_s + "), "@
                                    + accs_text(acc_ids) + ");\n"@,
                            )
                        },
                        None => {
                            Ok(
                                pad + "ksearch_q4k_coop_frag_nr4_dev("@
                                    + buf_text(w_buf, n_in, n_out) + ", ("@ + rb + "), "@
                                    + dec(cols as nat) + "u, ("@ + ib_s + "), "@
                                    + buf_text(x_buf, n_in, n_out) + ", ("@ + lane_s + "), "@
                                    + accs_text(acc_ids) + ");\n"@,
                            )
                        },
                    },
                },
            },
        },
        KirStmt::Q4kCoopNr4Dual {
            row0_base,
            cols,
            ib,
            b_from_tg,
            x_buf,
            lane,
            acc_g,
            acc_u,
        } => match expr_text(row0_base, n_in, n_out, false, lits) {
            Err(e) => Err(e),
            Ok(rb) => match expr_text(ib, n_in, n_out, false, lits) {
                Err(e) => Err(e),
                Ok(ib_s) => match expr_text(lane, n_in, n_out, false, lits) {
                    Err(e) => Err(e),
                    Ok(lane_s) => match b_from_tg {
                        Some(tg) => {
                            Ok(
                                pad + "ksearch_q4k_coop_frag_nr4_dual(in0, in1, ("@ + rb + "), "@
                                    + dec(cols as nat) + "u, ("@ + ib_s + "), tg"@ + dec(tg as nat)
                                    + ", ("@ + lane_s + "), "@ + accs_text(acc_g) + ", "@
                                    + accs_text(acc_u) + ");\n"@,
                            )
                        },
                        None => {
                            Ok(
                                pad + "ksearch_q4k_coop_frag_nr4_dual_dev(in0, in1, ("@ + rb
                                    + "), "@ + dec(cols as nat) + "u, ("@ + ib_s + "), "@
                                    + buf_text(x_buf, n_in, n_out) + ", ("@ + lane_s + "), "@
                                    + accs_text(acc_g) + ", "@ + accs_text(acc_u) + ");\n"@,
                            )
                        },
                    },
                },
            },
        },
        KirStmt::Q6kCoopNr4 {
            w_buf,
            row0_base,
            cols,
            ib,
            b_from_tg,
            x_buf,
            x_off,
            lane,
            acc_ids,
        } => match expr_text(row0_base, n_in, n_out, false, lits) {
            Err(e) => Err(e),
            Ok(rb) => match expr_text(ib, n_in, n_out, false, lits) {
                Err(e) => Err(e),
                Ok(ib_s) => match expr_text(lane, n_in, n_out, false, lits) {
                    Err(e) => Err(e),
                    Ok(lane_s) => match b_from_tg {
                        Some(tg) => match expr_text(x_off, n_in, n_out, false, lits) {
                            Err(e) => Err(e),
                            Ok(xo) => {
                                Ok(
                                    pad + "ksearch_q6k_coop_frag_nr4("@
                                        + buf_text(w_buf, n_in, n_out) + ", ("@ + rb + "), "@
                                        + dec(cols as nat) + "u, ("@ + ib_s + "), tg"@
                                        + dec(tg as nat) + ", ("@ + xo + "), ("@ + lane_s + "), "@
                                        + accs_text(acc_ids) + ");\n"@,
                                )
                            },
                        },
                        None => {
                            Ok(
                                pad + "ksearch_q6k_coop_frag_nr4_dev("@
                                    + buf_text(w_buf, n_in, n_out) + ", ("@ + rb + "), "@
                                    + dec(cols as nat) + "u, ("@ + ib_s + "), "@
                                    + buf_text(x_buf, n_in, n_out) + ", ("@ + lane_s + "), "@
                                    + accs_text(acc_ids) + ");\n"@,
                            )
                        },
                    },
                },
            },
        },
        KirStmt::Q40PackBlock {
            dst_buf,
            block,
            src_buf,
            src_elem,
        } => match expr_text(block, n_in, n_out, false, lits) {
            Err(e) => Err(e),
            Ok(blk) => match expr_text(src_elem, n_in, n_out, false, lits) {
                Err(e) => Err(e),
                Ok(se) => {
                    Ok(
                        pad + "ksearch_pack_q40("@ + buf_text(dst_buf, n_in, n_out) + ", ("@ + blk
                            + "), "@ + buf_text(src_buf, n_in, n_out) + ", ("@ + se + "));\n"@,
                    )
                },
            },
        },
        KirStmt::Q40PackFromThread {
            dst_buf,
            block,
            th_id,
            th_off,
        } => match expr_text(block, n_in, n_out, false, lits) {
            Err(e) => Err(e),
            Ok(blk) => match expr_text(th_off, n_in, n_out, false, lits) {
                Err(e) => Err(e),
                Ok(off) => {
                    Ok(
                        pad + "ksearch_pack_q40_th("@ + buf_text(dst_buf, n_in, n_out) + ", ("@
                            + blk + "), th"@ + dec(th_id as nat) + ", ("@ + off + "));\n"@,
                    )
                },
            },
        },
        KirStmt::Q40DequantToTg {
            tg_id,
            tg_off,
            src_buf,
            src_elem,
        } => match expr_text(tg_off, n_in, n_out, false, lits) {
            Err(e) => Err(e),
            Ok(off) => match expr_text(src_elem, n_in, n_out, false, lits) {
                Err(e) => Err(e),
                Ok(se) => {
                    Ok(
                        pad + "ksearch_dequant_q40_to_tg(tg"@ + dec(tg_id as nat) + " + ("@ + off
                            + "), "@ + buf_text(src_buf, n_in, n_out) + ", ("@ + se + "));\n"@,
                    )
                },
            },
        },
        KirStmt::TgStoreF4FromLoad {
            tg_id,
            tg_off,
            src_buf,
            src_elem,
            dtype,
        } => match expr_text(tg_off, n_in, n_out, false, lits) {
            Err(e) => Err(e),
            Ok(off) => match expr_text(src_elem, n_in, n_out, false, lits) {
                Err(e) => Err(e),
                Ok(se) => {
                    Ok(
                        pad + "{ float4 _t4 = "@
                            + four_text(dtype, buf_text(src_buf, n_in, n_out), se)
                            + "; *(threadgroup float4*)(tg"@ + dec(tg_id as nat) + " + ("@ + off
                            + ")) = _t4; }\n"@,
                    )
                },
            },
        },
        _ => arbitrary(),
    }
}

fn emit_flat(
    s: &KirStmt,
    pad: &str,
    n_in: u32,
    n_out: u32,
    elem: DType,
    lits: &Vec<Literal>,
) -> (r: Result<String, CodegenError>)
    requires
        crate::codegen::lower::block::is_flat(*s),
    ensures
        result_view(r) == flat_text(*s, pad@, n_in, n_out, elem, lits_view(lits@)),
{
    match s {
        KirStmt::Let { id, expr } => {
            let x = emit_expr_ty(expr, n_in, n_out, true, lits)?;
            Ok(
                String::from_str(pad).concat("float v").concat(dec_text(*id as u64).as_str())
                    .concat(" = ").concat(x.as_str()).concat(";\n"),
            )
        },
        KirStmt::LetU32 { id, expr } => {
            let x = emit_expr_ty(expr, n_in, n_out, false, lits)?;
            Ok(
                String::from_str(pad).concat("uint u").concat(dec_text(*id as u64).as_str())
                    .concat(" = ").concat(x.as_str()).concat(";\n"),
            )
        },
        KirStmt::Assign { id, expr } => {
            let x = emit_expr_ty(expr, n_in, n_out, true, lits)?;
            Ok(
                String::from_str(pad).concat("v").concat(dec_text(*id as u64).as_str())
                    .concat(" = ").concat(x.as_str()).concat(";\n"),
            )
        },
        KirStmt::Store { buf, idx, val } => {
            let i = emit_expr_ty(idx, n_in, n_out, false, lits)?;
            let x = emit_expr_ty(val, n_in, n_out, true, lits)?;
            Ok(
                String::from_str(pad).concat(buf_name(*buf, n_in, n_out).as_str()).concat("[")
                    .concat(index_string(idx, i).as_str()).concat("] = ")
                    .concat(stored_string(elem, x).as_str()).concat(";\n"),
            )
        },
        KirStmt::TgStore { id, idx, val } => {
            let i = emit_expr_ty(idx, n_in, n_out, false, lits)?;
            let x = emit_expr_ty(val, n_in, n_out, true, lits)?;
            Ok(
                String::from_str(pad).concat("tg").concat(dec_text(*id as u64).as_str()).concat("[")
                    .concat(index_string(idx, i).as_str()).concat("] = ").concat(x.as_str())
                    .concat(";\n"),
            )
        },
        KirStmt::ThreadStore { id, idx, val } => {
            let i = emit_expr_ty(idx, n_in, n_out, false, lits)?;
            let x = emit_expr_ty(val, n_in, n_out, true, lits)?;
            Ok(
                String::from_str(pad).concat("th").concat(dec_text(*id as u64).as_str()).concat("[")
                    .concat(index_string(idx, i).as_str()).concat("] = ").concat(x.as_str())
                    .concat(";\n"),
            )
        },
        KirStmt::TgDeclF32 { id, n } => {
            Ok(
                String::from_str(pad).concat("threadgroup float tg")
                    .concat(dec_text(*id as u64).as_str()).concat("[")
                    .concat(dec_text(*n as u64).as_str()).concat("];\n"),
            )
        },
        KirStmt::ThreadDeclF32 { id, n } => {
            Ok(
                String::from_str(pad).concat("thread float th")
                    .concat(dec_text(*id as u64).as_str()).concat("[")
                    .concat(dec_text(*n as u64).as_str()).concat("];\n"),
            )
        },
        KirStmt::Barrier => {
            Ok(String::from_str(pad).concat("threadgroup_barrier(mem_flags::mem_threadgroup);\n"))
        },
        KirStmt::ThreadgroupReduce { acc_id, tg } => Ok(reduce_string(pad, *acc_id, *tg)),
        KirStmt::ThreadgroupArgmax { val_id, idx_id, tg } => {
            Ok(argmax_string(pad, *val_id, *idx_id, *tg))
        },
        KirStmt::Q4kCoopNr4 { w_buf, row0_base, cols, ib, b_from_tg, x_buf, lane, acc_ids } => {
            let rb = emit_expr_ty(row0_base, n_in, n_out, false, lits)?;
            let ib_s = emit_expr_ty(ib, n_in, n_out, false, lits)?;
            let lane_s = emit_expr_ty(lane, n_in, n_out, false, lits)?;
            match b_from_tg {
                Some(tg) => {
                    Ok(
                        String::from_str(pad).concat("ksearch_q4k_coop_frag_nr4(")
                            .concat(buf_name(*w_buf, n_in, n_out).as_str()).concat(", (")
                            .concat(rb.as_str()).concat("), ")
                            .concat(dec_text(*cols as u64).as_str()).concat("u, (")
                            .concat(ib_s.as_str()).concat("), tg")
                            .concat(dec_text(*tg as u64).as_str()).concat(", (")
                            .concat(lane_s.as_str()).concat("), ")
                            .concat(accs_string(acc_ids).as_str()).concat(");\n"),
                    )
                },
                None => {
                    Ok(
                        String::from_str(pad).concat("ksearch_q4k_coop_frag_nr4_dev(")
                            .concat(buf_name(*w_buf, n_in, n_out).as_str()).concat(", (")
                            .concat(rb.as_str()).concat("), ")
                            .concat(dec_text(*cols as u64).as_str()).concat("u, (")
                            .concat(ib_s.as_str()).concat("), ")
                            .concat(buf_name(*x_buf, n_in, n_out).as_str()).concat(", (")
                            .concat(lane_s.as_str()).concat("), ")
                            .concat(accs_string(acc_ids).as_str()).concat(");\n"),
                    )
                },
            }
        },
        KirStmt::Q4kCoopNr4Dual { row0_base, cols, ib, b_from_tg, x_buf, lane, acc_g, acc_u } => {
            let rb = emit_expr_ty(row0_base, n_in, n_out, false, lits)?;
            let ib_s = emit_expr_ty(ib, n_in, n_out, false, lits)?;
            let lane_s = emit_expr_ty(lane, n_in, n_out, false, lits)?;
            match b_from_tg {
                Some(tg) => {
                    Ok(
                        String::from_str(pad).concat("ksearch_q4k_coop_frag_nr4_dual(in0, in1, (")
                            .concat(rb.as_str()).concat("), ")
                            .concat(dec_text(*cols as u64).as_str()).concat("u, (")
                            .concat(ib_s.as_str()).concat("), tg")
                            .concat(dec_text(*tg as u64).as_str()).concat(", (")
                            .concat(lane_s.as_str()).concat("), ")
                            .concat(accs_string(acc_g).as_str()).concat(", ")
                            .concat(accs_string(acc_u).as_str()).concat(");\n"),
                    )
                },
                None => {
                    Ok(
                        String::from_str(pad)
                            .concat("ksearch_q4k_coop_frag_nr4_dual_dev(in0, in1, (")
                            .concat(rb.as_str()).concat("), ")
                            .concat(dec_text(*cols as u64).as_str()).concat("u, (")
                            .concat(ib_s.as_str()).concat("), ")
                            .concat(buf_name(*x_buf, n_in, n_out).as_str()).concat(", (")
                            .concat(lane_s.as_str()).concat("), ")
                            .concat(accs_string(acc_g).as_str()).concat(", ")
                            .concat(accs_string(acc_u).as_str()).concat(");\n"),
                    )
                },
            }
        },
        KirStmt::Q6kCoopNr4 {
            w_buf,
            row0_base,
            cols,
            ib,
            b_from_tg,
            x_buf,
            x_off,
            lane,
            acc_ids,
        } => {
            let rb = emit_expr_ty(row0_base, n_in, n_out, false, lits)?;
            let ib_s = emit_expr_ty(ib, n_in, n_out, false, lits)?;
            let lane_s = emit_expr_ty(lane, n_in, n_out, false, lits)?;
            match b_from_tg {
                Some(tg) => {
                    let xo = emit_expr_ty(x_off, n_in, n_out, false, lits)?;
                    Ok(
                        String::from_str(pad).concat("ksearch_q6k_coop_frag_nr4(")
                            .concat(buf_name(*w_buf, n_in, n_out).as_str()).concat(", (")
                            .concat(rb.as_str()).concat("), ")
                            .concat(dec_text(*cols as u64).as_str()).concat("u, (")
                            .concat(ib_s.as_str()).concat("), tg")
                            .concat(dec_text(*tg as u64).as_str()).concat(", (").concat(xo.as_str())
                            .concat("), (").concat(lane_s.as_str()).concat("), ")
                            .concat(accs_string(acc_ids).as_str()).concat(");\n"),
                    )
                },
                None => {
                    Ok(
                        String::from_str(pad).concat("ksearch_q6k_coop_frag_nr4_dev(")
                            .concat(buf_name(*w_buf, n_in, n_out).as_str()).concat(", (")
                            .concat(rb.as_str()).concat("), ")
                            .concat(dec_text(*cols as u64).as_str()).concat("u, (")
                            .concat(ib_s.as_str()).concat("), ")
                            .concat(buf_name(*x_buf, n_in, n_out).as_str()).concat(", (")
                            .concat(lane_s.as_str()).concat("), ")
                            .concat(accs_string(acc_ids).as_str()).concat(");\n"),
                    )
                },
            }
        },
        KirStmt::Q40PackBlock { dst_buf, block, src_buf, src_elem } => {
            let blk = emit_expr_ty(block, n_in, n_out, false, lits)?;
            let se = emit_expr_ty(src_elem, n_in, n_out, false, lits)?;
            Ok(
                String::from_str(pad).concat("ksearch_pack_q40(")
                    .concat(buf_name(*dst_buf, n_in, n_out).as_str()).concat(", (")
                    .concat(blk.as_str()).concat("), ")
                    .concat(buf_name(*src_buf, n_in, n_out).as_str()).concat(", (")
                    .concat(se.as_str()).concat("));\n"),
            )
        },
        KirStmt::Q40PackFromThread { dst_buf, block, th_id, th_off } => {
            let blk = emit_expr_ty(block, n_in, n_out, false, lits)?;
            let off = emit_expr_ty(th_off, n_in, n_out, false, lits)?;
            Ok(
                String::from_str(pad).concat("ksearch_pack_q40_th(")
                    .concat(buf_name(*dst_buf, n_in, n_out).as_str()).concat(", (")
                    .concat(blk.as_str()).concat("), th").concat(dec_text(*th_id as u64).as_str())
                    .concat(", (").concat(off.as_str()).concat("));\n"),
            )
        },
        KirStmt::Q40DequantToTg { tg_id, tg_off, src_buf, src_elem } => {
            let off = emit_expr_ty(tg_off, n_in, n_out, false, lits)?;
            let se = emit_expr_ty(src_elem, n_in, n_out, false, lits)?;
            Ok(
                String::from_str(pad).concat("ksearch_dequant_q40_to_tg(tg")
                    .concat(dec_text(*tg_id as u64).as_str()).concat(" + (").concat(off.as_str())
                    .concat("), ").concat(buf_name(*src_buf, n_in, n_out).as_str()).concat(", (")
                    .concat(se.as_str()).concat("));\n"),
            )
        },
        KirStmt::TgStoreF4FromLoad { tg_id, tg_off, src_buf, src_elem, dtype } => {
            let off = emit_expr_ty(tg_off, n_in, n_out, false, lits)?;
            let se = emit_expr_ty(src_elem, n_in, n_out, false, lits)?;
            Ok(
                String::from_str(pad).concat("{ float4 _t4 = ")
                    .concat(
                        four_string(
                            *dtype,
                            buf_name(*src_buf, n_in, n_out).as_str(),
                            se.as_str(),
                        ).as_str(),
                    )
                    .concat("; *(threadgroup float4*)(tg").concat(dec_text(*tg_id as u64).as_str())
                    .concat(" + (").concat(off.as_str()).concat(")) = _t4; }\n"),
            )
        },
        _ => Ok(String::new()),
    }
}

/// A statement, with the statements of its block one level deeper.
pub open spec fn code_text(
    c: Code,
    pad: Seq<char>,
    n_in: u32,
    n_out: u32,
    elem: DType,
    lits: Seq<LitV>,
) -> Result<Seq<char>, ErrorV>
    decreases c,
{
    match c {
        Code::For { id, n, body } => match block_text(body, pad + "  "@, n_in, n_out, elem, lits) {
            Err(e) => Err(e),
            Ok(b) => {
                Ok(
                    pad + "for (uint f"@ + dec(id as nat) + " = 0u; f"@ + dec(id as nat) + " < "@
                        + dec(n as nat) + "u; f"@ + dec(id as nat) + "++) {\n"@ + b
                        + (pad + "}\n"@),
                )
            },
        },
        Code::ForRange { id, limit_off, bound, step, body } => match expr_text(
            limit_off,
            n_in,
            n_out,
            false,
            lits,
        ) {
            Err(e) => Err(e),
            Ok(lo) => match expr_text(bound, n_in, n_out, false, lits) {
                Err(e) => Err(e),
                Ok(bd) => match expr_text(step, n_in, n_out, false, lits) {
                    Err(e) => Err(e),
                    Ok(sp) => match block_text(body, pad + "  "@, n_in, n_out, elem, lits) {
                        Err(e) => Err(e),
                        Ok(b) => {
                            Ok(
                                pad + "for (; u"@ + dec(id as nat) + " + ("@ + lo + ") < ("@ + bd
                                    + "); u"@ + dec(id as nat) + " += ("@ + sp + ")) {\n"@ + b
                                    + (pad + "}\n"@),
                            )
                        },
                    },
                },
            },
        },
        Code::If { cond, body } => match expr_text(cond, n_in, n_out, true, lits) {
            Err(e) => Err(e),
            Ok(c) => match block_text(body, pad + "  "@, n_in, n_out, elem, lits) {
                Err(e) => Err(e),
                Ok(b) => Ok(pad + "if ("@ + c + ") {\n"@ + b + (pad + "}\n"@)),
            },
        },
        Code::Flat(s) => flat_text(s, pad, n_in, n_out, elem, lits),
    }
}

/// The statements of a block, one after the other.
pub open spec fn block_text(
    b: Seq<Code>,
    pad: Seq<char>,
    n_in: u32,
    n_out: u32,
    elem: DType,
    lits: Seq<LitV>,
) -> Result<Seq<char>, ErrorV>
    decreases b,
{
    if b.len() == 0 {
        Ok(Seq::empty())
    } else {
        match block_text(b.drop_last(), pad, n_in, n_out, elem, lits) {
            Err(e) => Err(e),
            Ok(s) => match code_text(b.last(), pad, n_in, n_out, elem, lits) {
                Err(e) => Err(e),
                Ok(t) => Ok(s + t),
            },
        }
    }
}

/// An error in the first statements of a block is the error of the block.
proof fn lemma_block_err(
    b: Seq<Code>,
    k: int,
    pad: Seq<char>,
    n_in: u32,
    n_out: u32,
    elem: DType,
    lits: Seq<LitV>,
)
    requires
        0 <= k <= b.len(),
        block_text(b.take(k), pad, n_in, n_out, elem, lits) is Err,
    ensures
        block_text(b, pad, n_in, n_out, elem, lits) == block_text(
            b.take(k),
            pad,
            n_in,
            n_out,
            elem,
            lits,
        ),
    decreases b.len(),
{
    if k == b.len() {
        assert(b.take(k) =~= b);
    } else {
        assert(b.drop_last().take(k) =~= b.take(k));
        lemma_block_err(b.drop_last(), k, pad, n_in, n_out, elem, lits);
    }
}

fn emit_stmt(
    st: &KirStmt,
    pad: &str,
    n_in: u32,
    n_out: u32,
    elem: DType,
    lits: &Vec<Literal>,
) -> (r: Result<String, CodegenError>)
    ensures
        result_view(r) == code_text(code_of(*st), pad@, n_in, n_out, elem, lits_view(lits@)),
    decreases *st,
{
    let deeper = String::from_str(pad).concat("  ");
    match st {
        KirStmt::For { id, n, body } => {
            let b = emit_stmts(body, deeper.as_str(), n_in, n_out, elem, lits)?;
            let head = String::from_str(pad).concat("for (uint f")
                .concat(dec_text(*id as u64).as_str()).concat(" = 0u; f")
                .concat(dec_text(*id as u64).as_str()).concat(" < ")
                .concat(dec_text(*n as u64).as_str()).concat("u; f")
                .concat(dec_text(*id as u64).as_str()).concat("++) {\n");
            let tail = String::from_str(pad).concat("}\n");
            Ok(head.concat(b.as_str()).concat(tail.as_str()))
        },
        KirStmt::ForRange { id, limit_off, bound, step, body } => {
            let lo = emit_expr_ty(limit_off, n_in, n_out, false, lits)?;
            let bd = emit_expr_ty(bound, n_in, n_out, false, lits)?;
            let sp = emit_expr_ty(step, n_in, n_out, false, lits)?;
            let b = emit_stmts(body, deeper.as_str(), n_in, n_out, elem, lits)?;
            let head = String::from_str(pad).concat("for (; u")
                .concat(dec_text(*id as u64).as_str()).concat(" + (").concat(lo.as_str())
                .concat(") < (").concat(bd.as_str()).concat("); u")
                .concat(dec_text(*id as u64).as_str()).concat(" += (").concat(sp.as_str())
                .concat(")) {\n");
            let tail = String::from_str(pad).concat("}\n");
            Ok(head.concat(b.as_str()).concat(tail.as_str()))
        },
        KirStmt::If { cond, body } => {
            let c = emit_expr_ty(cond, n_in, n_out, true, lits)?;
            let b = emit_stmts(body, deeper.as_str(), n_in, n_out, elem, lits)?;
            let head = String::from_str(pad).concat("if (").concat(c.as_str()).concat(") {\n");
            let tail = String::from_str(pad).concat("}\n");
            Ok(head.concat(b.as_str()).concat(tail.as_str()))
        },
        _ => emit_flat(st, pad, n_in, n_out, elem, lits),
    }
}

pub fn emit_stmts(
    stmts: &Vec<KirStmt>,
    pad: &str,
    n_in: u32,
    n_out: u32,
    elem: DType,
    lits: &Vec<Literal>,
) -> (r: Result<String, CodegenError>)
    ensures
        result_view(r) == block_text(block_of(stmts@), pad@, n_in, n_out, elem, lits_view(lits@)),
    decreases stmts@,
{
    let ghost all = block_of(stmts@);
    let ghost lv = lits_view(lits@);
    let mut s: String = String::new();
    let mut i: usize = 0;
    while i < stmts.len()
        invariant
            i <= stmts@.len(),
            all == block_of(stmts@),
            lv == lits_view(lits@),
            block_text(
                all.take(i as int),
                pad@,
                n_in,
                n_out,
                elem,
                lv,
            ) == Ok::<Seq<char>, ErrorV>(s@),
        decreases stmts@.len() - i,
    {
        assert(all.take(i + 1).drop_last() =~= all.take(i as int));
        match emit_stmt(&stmts[i], pad, n_in, n_out, elem, lits) {
            Ok(t) => {
                s = s.concat(t.as_str());
            },
            Err(e) => {
                proof {
                    lemma_block_err(all, i + 1, pad@, n_in, n_out, elem, lv);
                }
                return Err(e);
            },
        }
        i += 1;
    }
    assert(all.take(all.len() as int) =~= all);
    Ok(s)
}

} // verus!
