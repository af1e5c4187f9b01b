//! A whole kernel as it is written: its parameters are the buffers that its body names, each at its
//! place and of the elements that the body reads, and a thread of it does what the machine says.

use vstd::prelude::*;
use vstd::string::*;

use crate::codegen::laws::machine::{apart, blank, lane, run_to, seen, step, Arith, Group};
use crate::codegen::laws::source::{array_name, Arr, Params, Scene};
use crate::codegen::laws::written_blocks::{
    code_fits, codes_fit, lemma_block_run, lemma_len, lemma_step_run, src_of, src_step, src_to,
    srcs_of, srcs_text, tame, tame_to, Src,
};
use crate::codegen::laws::written_dots::{lemma_cat, same};
use crate::codegen::render::expr::LitV;
use crate::codegen::render::kernel::{input_params, output_params, params_text, preamble, rendered};
use crate::codegen::render::scan::block_types;
use crate::codegen::render::stmt::{code_text, partial_sums, reduce_text};
use crate::ir::dtype::DType;
use crate::ir::kernel::{Code, KernelIrV, KirLaunch};
use crate::text::dec;

verus! {

/// The buffers of a kernel: inputs have the elements that the body loads, outputs those of the
/// result.
pub open spec fn params_of(k: KernelIrV) -> Params {
    Params {
        n_in: k.n_inputs as u32,
        n_out: k.n_outputs as u32,
        kind: |b: u32|
            if b < k.n_inputs {
                block_types(k.body, Seq::new(k.n_inputs as nat, |i: int| k.out_dtype))[b as int]
            } else {
                k.out_dtype
            },
    }
}

/// The elements of a buffer as they are declared; packed ones are bytes.
pub open spec fn element_name(d: DType) -> Seq<char> {
    if d is F32 {
        "float"@
    } else if d is F16 {
        "half"@
    } else if d is BF16 {
        "bfloat"@
    } else {
        "uchar"@
    }
}

/// The declaration of a buffer: inputs cannot be written, and buffer `b` is the `b`-th.
pub open spec fn declared(p: Params, b: u32) -> Seq<char> {
    (if b < p.n_in {
        "  device const "@
    } else {
        "  device "@
    }) + element_name((p.kind)(b)) + "* "@ + array_name(p, Arr::Device(b)) + " [[buffer("@ + dec(
        b as nat,
    ) + ")]],\n"@
}

/// The declarations of the first `n` buffers.
pub open spec fn all_declared(p: Params, n: nat) -> Seq<char>
    decreases n,
{
    if n == 0 {
        Seq::empty()
    } else {
        all_declared(p, (n - 1) as nat) + declared(p, (n - 1) as u32)
    }
}

/// Whether the numbers of buffers are unsigned numbers of 32 bits.
pub open spec fn countable(k: KernelIrV) -> bool {
    k.n_inputs + k.n_outputs < 0x1_0000_0000
}

proof fn lemma_literals()
    ensures
        same("* in"@, "* "@ + "in"@),
        same("* out"@, "* "@ + "out"@),
        same("* out [[buffer("@, "* "@ + "out"@ + " [[buffer("@),
{
    reveal_strlit("* in");
    reveal_strlit("* ");
    reveal_strlit("in");
    reveal_strlit("* out");
    reveal_strlit("out");
    reveal_strlit("* out [[buffer(");
    reveal_strlit(" [[buffer(");
    assert("* in"@ =~= "* "@ + "in"@);
    assert("* out"@ =~= "* "@ + "out"@);
    assert("* out [[buffer("@ =~= "* "@ + "out"@ + " [[buffer("@);
}

proof fn lemma_input_params(k: KernelIrV, n: nat)
    requires
        countable(k),
        n <= k.n_inputs,
    ensures
        ({
            let types = block_types(k.body, Seq::new(k.n_inputs as nat, |i: int| k.out_dtype));
            same(input_params(types, n), all_declared(params_of(k), n))
        }),
    decreases n,
{
    if n > 0 {
        lemma_literals();
        let p = params_of(k);
        let i = (n - 1) as nat;
        let types = block_types(k.body, Seq::new(k.n_inputs as nat, |i: int| k.out_dtype));
        lemma_input_params(k, i);
        let t = types[i as int].msl_name();
        assert((p.kind)(i as u32) == types[i as int]);
        assert("  device const "@ + t + ("* "@ + "in"@) + dec(i) + " [[buffer("@ + dec(i)
            + ")]],\n"@ =~= "  device const "@ + t + "* "@ + ("in"@ + dec(i)) + " [[buffer("@ + dec(
            i,
        ) + ")]],\n"@);
    }
}

proof fn lemma_output_params(k: KernelIrV, n: nat)
    requires
        countable(k),
        k.n_outputs > 1,
        n <= k.n_outputs,
    ensures
        same(
            all_declared(params_of(k), (k.n_inputs + n) as nat),
            all_declared(params_of(k), k.n_inputs as nat) + output_params(
                k.out_dtype.msl_name(),
                k.n_inputs as nat,
                n,
            ),
        ),
    decreases n,
{
    let p = params_of(k);
    let ins = all_declared(p, k.n_inputs as nat);
    let ty = k.out_dtype.msl_name();
    if n > 0 {
        lemma_literals();
        let o = (n - 1) as nat;
        lemma_output_params(k, o);
        let b = (k.n_inputs + o) as u32;
        let line = "  device "@ + ty + "* out"@ + dec(o) + " [[buffer("@ + dec(k.n_inputs as nat + o)
            + ")]],\n"@;
        assert("  device "@ + ty + ("* "@ + "out"@) + dec(o) + " [[buffer("@ + dec(
            k.n_inputs as nat + o,
        ) + ")]],\n"@ =~= "  device "@ + ty + "* "@ + ("out"@ + dec(o)) + " [[buffer("@ + dec(
            k.n_inputs as nat + o,
        ) + ")]],\n"@);
        assert(declared(p, b) == line);
        let before = output_params(ty, k.n_inputs as nat, o);
        assert(ins + before + line =~= ins + (before + line));
    } else {
        assert(ins + output_params(ty, k.n_inputs as nat, n) =~= ins);
    }
}

/// The parameters of a kernel declare every buffer that its body names, under that name and in
/// order.
pub proof fn lemma_parameters(k: KernelIrV)
    requires
        countable(k),
    ensures
        same(
            params_text(k),
            all_declared(
                params_of(k),
                (k.n_inputs + (if k.n_outputs <= 1 {
                    1
                } else {
                    k.n_outputs as int
                })) as nat,
            ),
        ),
{
    let p = params_of(k);
    lemma_input_params(k, k.n_inputs as nat);
    if k.n_outputs <= 1 {
        lemma_literals();
        let ty = k.out_dtype.msl_name();
        let n = k.n_inputs as nat;
        assert("  device "@ + ty + ("* "@ + "out"@ + " [[buffer("@) + dec(n) + ")]],\n"@
            =~= "  device "@ + ty + "* "@ + "out"@ + " [[buffer("@ + dec(n) + ")]],\n"@);
        assert(declared(p, n as u32) == "  device "@ + ty + "* out [[buffer("@ + dec(n)
            + ")]],\n"@);
    } else {
        lemma_output_params(k, k.n_outputs as nat);
    }
}

/// How many threads a kernel of single threads is for: at least one.
pub open spec fn thread_count(l: KirLaunch) -> nat {
    match l {
        KirLaunch::Elementwise { n } => if n == 0 {
            1
        } else {
            n as nat
        },
        KirLaunch::Rows { rows } => if rows == 0 {
            1
        } else {
            rows as nat
        },
        _ => arbitrary(),
    }
}

/// A kernel of single threads as it is written, behind helpers: threads beyond the last return at
/// once.
pub open spec fn kernel_text(
    p: Params,
    n_buffers: nat,
    name: Seq<char>,
    threads: nat,
    body: Seq<Src>,
) -> Seq<char> {
    "kernel void "@ + name + "(\n"@ + all_declared(p, n_buffers)
        + "  uint gid [[thread_position_in_grid]]"@ + "\n) {\n"@ + ("  if (gid >= "@ + dec(threads)
        + "u) return;\n"@) + srcs_text(p, "  "@, body) + "}\n"@
}

/// The rendered source of a kernel of single threads is a kernel whose threads do what the machine
/// says: it declares the buffers that it names, lets every thread of the launch go on and no
/// other, and its body, run by a thread, leaves what running the body of the kernel leaves.
pub proof fn lemma_kernel_run<V>(sc: Scene<V>, k: KernelIrV, lits: Seq<LitV>)
    requires
        countable(k),
        k.launch is Elementwise || k.launch is Rows,
        sc.k == params_of(k),
        sc.reads(lits),
        codes_fit(params_of(k), k.out_dtype, k.body),
        rendered(k, lits) is Ok,
        tame_to(sc.ar, sc.l, k.body, k.body.len(), blank()),
    ensures
        ({
            let body = srcs_of(k.body, k.out_dtype, lits);
            let n = k.n_inputs + (if k.n_outputs <= 1 {
                1
            } else {
                k.n_outputs as int
            });
            &&& same(
                rendered(k, lits)->Ok_0.source,
                preamble(k) + kernel_text(
                    params_of(k),
                    n as nat,
                    k.name,
                    thread_count(k.launch),
                    body,
                ),
            )
            &&& src_to(sc, body, body.len(), blank()) == run_to(
                sc.ar,
                sc.l,
                k.body,
                k.body.len(),
                blank(),
            )
        }),
{
    lemma_parameters(k);
    assert(sc.with(blank()).inputs_kept());
    lemma_block_run(sc, k.body, blank(), "  "@, k.out_dtype, lits);
    lemma_len(k.body, k.out_dtype, lits);
}

/// The lines that add up the parts of a sum, from the `from`-th to the one before the `to`-th.
pub open spec fn added_up(pad: Seq<char>, name: Seq<char>, from: nat, to: nat) -> Seq<char>
    decreases to - from,
{
    if from >= to {
        Seq::empty()
    } else {
        pad + "  s += red_"@ + name + "["@ + dec(from) + "];\n"@ + added_up(
            pad,
            name,
            from + 1,
            to,
        )
    }
}

proof fn lemma_added_up(pad: Seq<char>, acc: u32, from: nat, k: nat)
    requires
        1 <= from <= k,
    ensures
        same(
            partial_sums(pad, acc, k),
            partial_sums(pad, acc, from) + added_up(pad, dec(acc as nat), from, k),
        ),
    decreases k - from,
{
    let name = dec(acc as nat);
    if from < k {
        lemma_added_up(pad, acc, from + 1, k);
        let line = pad + "  s += red_"@ + name + "["@ + dec(from) + "];\n"@;
        let rest = added_up(pad, name, from + 1, k);
        assert(partial_sums(pad, acc, from + 1) == partial_sums(pad, acc, from) + line);
        assert(partial_sums(pad, acc, from) + line + rest =~= partial_sums(pad, acc, from) + (line
            + rest));
    } else {
        assert(partial_sums(pad, acc, k) + added_up(pad, name, from, k) =~= partial_sums(
            pad,
            acc,
            k,
        ));
    }
}

/// The sum over a group of up to 32 threads is one call. Over more threads the first of every 32
/// hands in the sum of its 32, one thread adds up as many parts as there are such groups, each
/// once, and all threads take the result.
pub proof fn lemma_group_sum(pad: Seq<char>, acc: u32, tg: u64, n: nat)
    requires
        32 * (n - 1) < tg <= 32 * n,
    ensures
        ({
            let v = "v"@ + dec(acc as nat);
            let red = "red_"@ + dec(acc as nat);
            let sum = pad + v + " = simd_sum("@ + v + ");\n"@;
            same(
                reduce_text(pad, acc, tg),
                if n <= 1 {
                    sum
                } else {
                    sum + pad + "threadgroup float "@ + red + "["@ + dec(n) + "];\n"@ + pad
                        + "if ((lid & 31u) == 0u) "@ + red + "[lid / 32u] = "@ + v + ";\n"@ + pad
                        + "threadgroup_barrier(mem_flags::mem_threadgroup);\n"@ + pad
                        + "if (lid == 0u) {\n"@ + pad + "  float s = "@ + red + "[0];\n"@ + added_up(
                        pad,
                        dec(acc as nat),
                        1,
                        n,
                    ) + pad + "  "@ + red + "[0] = s;\n"@ + pad + "}\n"@ + pad
                        + "threadgroup_barrier(mem_flags::mem_threadgroup);\n"@ + pad + v + " = "@
                        + red + "[0];\n"@
                },
            )
        }),
{
    lemma_sum_literals();
    let name = dec(acc as nat);
    lemma_cat();
    if n > 1 {
        assert(crate::codegen::render::stmt::simdgroups(tg) == n);
        lemma_added_up(pad, acc, 1, n);
        assert(partial_sums(pad, acc, 1) + added_up(pad, name, 1, n) =~= added_up(
            pad,
            name,
            1,
            n,
        ));
    }
}

proof fn lemma_sum_literals()
    ensures
        same(" = simd_sum(v"@, " = simd_sum("@ + "v"@),
        same("threadgroup float red_"@, "threadgroup float "@ + "red_"@),
        same("if ((lid & 31u) == 0u) red_"@, "if ((lid & 31u) == 0u) "@ + "red_"@),
        same("[lid / 32u] = v"@, "[lid / 32u] = "@ + "v"@),
        same("  float s = red_"@, "  float s = "@ + "red_"@),
        same("  red_"@, "  "@ + "red_"@),
        same(" = red_"@, " = "@ + "red_"@),
{
    reveal_strlit(" = simd_sum(v");
    reveal_strlit(" = simd_sum(");
    reveal_strlit("v");
    reveal_strlit("threadgroup float red_");
    reveal_strlit("threadgroup float ");
    reveal_strlit("red_");
    reveal_strlit("if ((lid & 31u) == 0u) red_");
    reveal_strlit("if ((lid & 31u) == 0u) ");
    reveal_strlit("[lid / 32u] = v");
    reveal_strlit("[lid / 32u] = ");
    reveal_strlit("  float s = red_");
    reveal_strlit("  float s = ");
    reveal_strlit("  red_");
    reveal_strlit("  ");
    reveal_strlit(" = red_");
    reveal_strlit(" = ");
    assert(" = simd_sum(v"@ =~= " = simd_sum("@ + "v"@);
    assert("threadgroup float red_"@ =~= "threadgroup float "@ + "red_"@);
    assert("if ((lid & 31u) == 0u) red_"@ =~= "if ((lid & 31u) == 0u) "@ + "red_"@);
    assert("[lid / 32u] = v"@ =~= "[lid / 32u] = "@ + "v"@);
    assert("  float s = red_"@ =~= "  float s = "@ + "red_"@);
    assert("  red_"@ =~= "  "@ + "red_"@);
    assert(" = red_"@ =~= " = "@ + "red_"@);
}

/// The scene of a thread of a group.
pub open spec fn scene_of<V>(
    p: Params,
    ar: Arith<V>,
    read: spec_fn(Seq<char>) -> V,
    gid: int,
    bufs: spec_fn(u32, int) -> V,
    g: Group<V>,
    i: int,
) -> Scene<V> {
    Scene { k: p, ar, l: lane(gid, bufs, g, i), r: g.regs[i], read }
}

/// A statement that the threads of a group take one by one: what is written, run by every thread,
/// leaves the group as the machine says.
pub proof fn lemma_group_step<V>(
    p: Params,
    ar: Arith<V>,
    read: spec_fn(Seq<char>) -> V,
    gid: int,
    bufs: spec_fn(u32, int) -> V,
    c: Code,
    g: Group<V>,
    pad: Seq<char>,
    elem: DType,
    lits: Seq<LitV>,
)
    requires
        code_fits(p, elem, c),
        code_text(c, pad, p.n_in, p.n_out, elem, lits) is Ok,
        forall|i: int|
            0 <= i < g.regs.len() ==> {
                let sc = #[trigger] scene_of(p, ar, read, gid, bufs, g, i);
                sc.reads(lits) && sc.inputs_kept() && tame(ar, sc.l, c, sc.r)
            },
    ensures
        seen(
            Seq::new(
                g.regs.len(),
                |i: int|
                    src_step(
                        scene_of(p, ar, read, gid, bufs, g, i),
                        src_of(c, elem, lits),
                        g.regs[i],
                    ),
            ),
            g,
        ) == apart(ar, gid, bufs, c, g),
{
    let a = Seq::new(
        g.regs.len(),
        |i: int|
            src_step(
                scene_of(p, ar, read, gid, bufs, g, i),
                src_of(c, elem, lits),
                g.regs[i],
            ),
    );
    let b = Seq::new(g.regs.len(), |i: int| step(ar, lane(gid, bufs, g, i), c, g.regs[i]));
    assert forall|i: int| 0 <= i < g.regs.len() implies a[i] == b[i] by {
        let sc = scene_of(p, ar, read, gid, bufs, g, i);
        assert(sc.with(g.regs[i]) == sc);
        lemma_step_run(sc, c, g.regs[i], pad, elem, lits);
    }
    assert(a =~= b);
}

} // verus!
