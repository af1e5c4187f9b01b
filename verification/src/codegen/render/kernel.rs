//! Whole kernels as kernel source.

use vstd::prelude::*;
use vstd::string::*;

use crate::codegen::error::{CodegenError, ErrorV};
use crate::codegen::render::expr::{lits_view, LitV, Literal};
use crate::codegen::render::helpers::{
    q40_helper, q40_helper_text, q4k_helper, q4k_helper_text, q6k_helper, q6k_helper_text,
};
use crate::codegen::render::scan::{
    block_types, body_needs_q4, body_needs_q40, body_needs_q6, infer_load_dtypes,
    lemma_block_types_len, needs_q4, needs_q40, needs_q6,
};
use crate::codegen::render::stmt::{block_text, emit_stmts};
use crate::codegen::schedule::result_view;
use crate::ir::dtype::{DType, Shape};
use crate::ir::kernel::{block_of, KernelIr, KernelIrV, KirLaunch};
use crate::text::{dec, dec_usize, dec_sum};

verus! {

/// How a kernel is launched.
#[derive(Clone, Copy, Debug, PartialEq, Eq, Structural)]
pub enum LaunchHint {
    Elementwise { n: usize },
    Rows { rows: usize, cols: usize },
    RowsParallel { rows: usize, tg: u64 },
    /// `rows` threadgroups of `nsg` simdgroups.
    RowsParallelSg { rows: usize, nsg: u64 },
    RowsParallel2D { rows: usize, batch: usize, tg: u64 },
    MulMm { tg_x: u64, tg_y: u64, tw: u64, nsg: u64, smem: u64 },
}

/// A kernel ready to be compiled.
#[derive(Clone, Debug)]
pub struct MetalKernelSource {
    pub name: String,
    pub source: String,
    pub n_inputs: usize,
    pub n_outputs: usize,
    pub out_shape: Shape,
    pub out_dtype: DType,
    pub launch: LaunchHint,
}

/// A kernel ready to be compiled, as a mathematical value.
#[verifier::ext_equal]
pub ghost struct SourceV {
    pub name: Seq<char>,
    pub source: Seq<char>,
    pub n_inputs: usize,
    pub n_outputs: usize,
    pub out_shape: Seq<usize>,
    pub out_dtype: DType,
    pub launch: LaunchHint,
}

impl View for MetalKernelSource {
    type V = SourceV;

    open spec fn view(&self) -> SourceV {
        SourceV {
            name: self.name@,
            source: self.source@,
            n_inputs: self.n_inputs,
            n_outputs: self.n_outputs,
            out_shape: self.out_shape@,
            out_dtype: self.out_dtype,
            launch: self.launch,
        }
    }
}

/// The parameters for the first `k` inputs.
pub open spec fn input_params(types: Seq<DType>, k: nat) -> Seq<char>
    decreases k,
{
    if k == 0 {
        Seq::empty()
    } else {
        let i = (k - 1) as nat;
        input_params(types, i) + ("  device const "@ + types[i as int].msl_name() + "* in"@ + dec(i)
            + " [[buffer("@ + dec(i) + ")]],\n"@)
    }
}

/// The parameters for the first `k` of several outputs.
pub open spec fn output_params(ty: Seq<char>, n_in: nat, k: nat) -> Seq<char>
    decreases k,
{
    if k == 0 {
        Seq::empty()
    } else {
        let o = (k - 1) as nat;
        output_params(ty, n_in, o) + ("  device "@ + ty + "* out"@ + dec(o) + " [[buffer("@ + dec(
            n_in + o,
        ) + ")]],\n"@)
    }
}

/// The buffer parameters: inputs by the types they are loaded as, then the outputs.
pub open spec fn params_text(k: KernelIrV) -> Seq<char> {
    let types = block_types(k.body, Seq::new(k.n_inputs as nat, |i: int| k.out_dtype));
    let ins = input_params(types, k.n_inputs as nat);
    if k.n_outputs <= 1 {
        ins + ("  device "@ + k.out_dtype.msl_name() + "* out [[buffer("@ + dec(k.n_inputs as nat)
            + ")]],\n"@)
    } else {
        ins + output_params(k.out_dtype.msl_name(), k.n_inputs as nat, k.n_outputs as nat)
    }
}

fn buffer_params(kir: &KernelIr) -> (r: String)
    ensures
        r@ == params_text(kir@),
{
    let mut types: Vec<DType> = Vec::new();
    let mut i: usize = 0;
    while i < kir.n_inputs
        invariant
            i <= kir.n_inputs,
            types@ == Seq::new(i as nat, |j: int| kir.out_dtype),
        decreases kir.n_inputs - i,
    {
        types.push(kir.out_dtype);
        assert(types@ =~= Seq::new((i + 1) as nat, |j: int| kir.out_dtype));
        i += 1;
    }
    proof {
        lemma_block_types_len(block_of(kir.body@), types@);
    }
    infer_load_dtypes(&kir.body, &mut types);
    let mut p: String = String::new();
    let mut i: usize = 0;
    while i < kir.n_inputs
        invariant
            i <= kir.n_inputs,
            types@.len() == kir.n_inputs,
            p@ == input_params(types@, i as nat),
        decreases kir.n_inputs - i,
    {
        let n = dec_usize(i);
        let line = String::from_str("  device const ").concat(types[i].msl()).concat("* in").concat(
            n.as_str(),
        ).concat(" [[buffer(").concat(n.as_str()).concat(")]],\n");
        p = p.concat(line.as_str());
        i += 1;
    }
    let ty = kir.out_dtype.msl();
    if kir.n_outputs <= 1 {
        let line = String::from_str("  device ").concat(ty).concat("* out [[buffer(").concat(
            dec_usize(kir.n_inputs).as_str(),
        ).concat(")]],\n");
        return p.concat(line.as_str());
    }
    let mut q: String = String::new();
    let mut o: usize = 0;
    while o < kir.n_outputs
        invariant
            o <= kir.n_outputs,
            ty@ == kir.out_dtype.msl_name(),
            q@ == output_params(ty@, kir.n_inputs as nat, o as nat),
        decreases kir.n_outputs - o,
    {
        let line = String::from_str("  device ").concat(ty).concat("* out").concat(
            dec_usize(o).as_str(),
        ).concat(" [[buffer(").concat(dec_sum(kir.n_inputs, o).as_str()).concat(")]],\n");
        q = q.concat(line.as_str());
        o += 1;
    }
    p.concat(q.as_str())
}

/// The larger of a number and one.
#[verifier::allow_in_spec]
pub fn at_least(n: usize) -> usize
    returns
        (if n == 0 {
            1usize
        } else {
            n
        }),
{
    if n == 0 {
        1
    } else {
        n
    }
}

/// The larger of a thread count and one.
#[verifier::allow_in_spec]
pub fn some_threads(n: u64) -> u64
    returns
        (if n == 0 {
            1u64
        } else {
            n
        }),
{
    if n == 0 {
        1
    } else {
        n
    }
}

/// The number of threads or groups that a launch asks for; at least one.
pub open spec fn launch_count(l: KirLaunch) -> usize {
    match l {
        KirLaunch::Elementwise { n } => at_least(n),
        KirLaunch::Rows { rows } => at_least(rows),
        KirLaunch::RowsParallel { rows, .. } => at_least(rows),
        KirLaunch::RowsParallelSg { rows, .. } => at_least(rows),
    }
}

/// The parameters by which a thread finds its place.
pub open spec fn place_params(l: KirLaunch) -> Seq<char> {
    match l {
        KirLaunch::Elementwise { .. } => "  uint gid [[thread_position_in_grid]]"@,
        KirLaunch::Rows { .. } => "  uint gid [[thread_position_in_grid]]"@,
        KirLaunch::RowsParallel { .. } =>
            "  uint gid [[threadgroup_position_in_grid]],\n  uint lid [[thread_index_in_threadgroup]]"@,
        KirLaunch::RowsParallelSg { .. } =>
            "  uint gid [[threadgroup_position_in_grid]],\n  uint tiisg [[thread_index_in_simdgroup]],\n  uint sgitg [[simdgroup_index_in_threadgroup]]"@,
    }
}

/// The first lines of a kernel: threads beyond the launch leave.
pub open spec fn guard_text(l: KirLaunch) -> Seq<char> {
    let bound = "  if (gid >= "@ + dec(launch_count(l) as nat) + "u) return;\n"@;
    match l {
        KirLaunch::RowsParallelSg { .. } => bound + "  uint lid = sgitg * 32u + tiisg;\n"@,
        _ => bound,
    }
}

/// How the kernel is launched.
pub open spec fn launch_hint(l: KirLaunch) -> LaunchHint {
    match l {
        KirLaunch::Elementwise { n } => LaunchHint::Elementwise { n: at_least(n) },
        KirLaunch::Rows { rows } => LaunchHint::Elementwise { n: at_least(rows) },
        KirLaunch::RowsParallel { rows, tg } => LaunchHint::RowsParallel {
            rows: at_least(rows),
            tg: some_threads(tg),
        },
        KirLaunch::RowsParallelSg { rows, nsg } => LaunchHint::RowsParallelSg {
            rows: at_least(rows),
            nsg: some_threads(nsg),
        },
    }
}

/// The preamble: the standard header and the helpers that the body calls.
pub open spec fn preamble(k: KernelIrV) -> Seq<char> {
    let head = "#include <metal_stdlib>\nusing namespace metal;\n\n"@;
    let with_q4 = if needs_q4(k.body) {
        head + q4k_helper()
    } else {
        head
    };
    let with_q6 = if needs_q6(k.body) {
        with_q4 + q6k_helper()
    } else {
        with_q4
    };
    if needs_q40(k.body) {
        with_q6 + q40_helper()
    } else {
        with_q6
    }
}

/// The source of a kernel.
pub open spec fn rendered(k: KernelIrV, lits: Seq<LitV>) -> Result<SourceV, ErrorV> {
    match block_text(k.body, "  "@, k.n_inputs as u32, k.n_outputs as u32, k.out_dtype, lits) {
        Err(e) => Err(e),
        Ok(body) => Ok(
            SourceV {
                name: k.name,
                source: preamble(k) + ("kernel void "@ + k.name + "(\n"@ + params_text(k)
                    + place_params(k.launch) + "\n) {\n"@ + guard_text(k.launch) + body + "}\n"@),
                n_inputs: k.n_inputs,
                n_outputs: at_least(k.n_outputs),
                out_shape: k.out_shape,
                out_dtype: k.out_dtype,
                launch: launch_hint(k.launch),
            },
        ),
    }
}

/// Writes a kernel as source. `lits` says how its floating-point constants are written.
pub fn render_msl(kir: &KernelIr, lits: &Vec<Literal>) -> (r: Result<
    MetalKernelSource,
    CodegenError,
>)
    ensures
        result_view(r) == rendered(kir@, lits_view(lits@)),
{
    let mut src: String = String::from_str(
        "#include <metal_stdlib>\nusing namespace metal;\n\n",
    );
    if body_needs_q4(&kir.body) {
        src = src.concat(q4k_helper_text().as_str());
    }
    if body_needs_q6(&kir.body) {
        src = src.concat(q6k_helper_text().as_str());
    }
    if body_needs_q40(&kir.body) {
        src = src.concat(q40_helper_text().as_str());
    }
    let (place, hint, count) = match kir.launch {
        KirLaunch::Elementwise { n } => (
            "  uint gid [[thread_position_in_grid]]",
            LaunchHint::Elementwise { n: at_least(n) },
            at_least(n),
        ),
        KirLaunch::Rows { rows } => (
            "  uint gid [[thread_position_in_grid]]",
            LaunchHint::Elementwise { n: at_least(rows) },
            at_least(rows),
        ),
        KirLaunch::RowsParallel { rows, tg } => (
            "  uint gid [[threadgroup_position_in_grid]],\n  uint lid [[thread_index_in_threadgroup]]",
            LaunchHint::RowsParallel { rows: at_least(rows), tg: some_threads(tg) },
            at_least(rows),
        ),
        KirLaunch::RowsParallelSg { rows, nsg } => (
            "  uint gid [[threadgroup_position_in_grid]],\n  uint tiisg [[thread_index_in_simdgroup]],\n  uint sgitg [[simdgroup_index_in_threadgroup]]",
            LaunchHint::RowsParallelSg { rows: at_least(rows), nsg: some_threads(nsg) },
            at_least(rows),
        ),
    };
    let bound = String::from_str("  if (gid >= ").concat(dec_usize(count).as_str()).concat(
        "u) return;\n",
    );
    let guard = match kir.launch {
        KirLaunch::RowsParallelSg { .. } => bound.concat("  uint lid = sgitg * 32u + tiisg;\n"),
        _ => bound,
    };
    let body = emit_stmts(
        &kir.body,
        "  ",
        kir.n_inputs as u32,
        kir.n_outputs as u32,
        kir.out_dtype,
        lits,
    )?;
    let kernel = String::from_str("kernel void ").concat(kir.name.as_str()).concat("(\n").concat(
        buffer_params(kir).as_str(),
    ).concat(place).concat("\n) {\n").concat(guard.as_str()).concat(body.as_str()).concat("}\n");
    Ok(
        MetalKernelSource {
            name: kir.name.clone(),
            source: src.concat(kernel.as_str()),
            n_inputs: kir.n_inputs,
            n_outputs: at_least(kir.n_outputs),
            out_shape: kir.out_shape.dup(),
            out_dtype: kir.out_dtype,
            launch: hint,
        },
    )
}

} // verus!
